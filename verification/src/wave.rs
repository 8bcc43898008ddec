//! Framing of synthesized sound as a RIFF/WAVE file: 16-bit mono PCM.
use vstd::prelude::*;

verus! {

/// Samples per second of every clip.
pub const SAMPLE_RATE: u32 = 32_000;

/// Length of the RIFF/WAVE header, in bytes.
pub const HEADER_BYTES: usize = 44;

/// The two little-endian bytes of `v`, for `0 <= v < 2^16`.
pub open spec fn le16(v: int) -> Seq<u8> {
    seq![(v % 256) as u8, (v / 256) as u8]
}

/// The four little-endian bytes of `v`, for `0 <= v < 2^32`.
pub open spec fn le32(v: int) -> Seq<u8> {
    seq![(v % 256) as u8, ((v / 256) % 256) as u8, ((v / 65536) % 256) as u8, (v / 16777216) as u8]
}

/// The number that four little-endian bytes spell.
pub open spec fn read_le32(b: Seq<u8>, at: int) -> int {
    b[at] + 256 * b[at + 1] + 65536 * b[at + 2] + 16777216 * b[at + 3]
}

/// The 16-bit sample, two's complement, that two little-endian bytes spell.
pub open spec fn read_sample(lo: u8, hi: u8) -> int {
    let u = lo + 256 * hi;
    if u < 32768 {
        u
    } else {
        u - 65536
    }
}

/// The sample's 16-bit two's complement code.
pub open spec fn sample_code(s: i16) -> int {
    if s >= 0 {
        s as int
    } else {
        s + 65536
    }
}

/// The samples, two little-endian bytes each.
pub open spec fn pcm_bytes(samples: Seq<i16>) -> Seq<u8> {
    Seq::new(
        2 * samples.len(),
        |i: int|
            if i % 2 == 0 {
                (sample_code(samples[i / 2]) % 256) as u8
            } else {
                (sample_code(samples[i / 2]) / 256) as u8
            },
    )
}

pub open spec fn riff_tag() -> Seq<u8> {
    seq![82u8, 73, 70, 70]
}

pub open spec fn wave_fmt_tag() -> Seq<u8> {
    seq![87u8, 65, 86, 69, 102, 109, 116, 32]
}

pub open spec fn data_tag() -> Seq<u8> {
    seq![100u8, 97, 116, 97]
}

/// The header of a clip of `n` samples: RIFF size, a 16-byte PCM format chunk
/// (mono, `SAMPLE_RATE` samples per second, two bytes per sample), and the
/// size of the data chunk.
pub open spec fn wav_header(n: int) -> Seq<u8> {
    riff_tag() + le32(36 + 2 * n) + wave_fmt_tag() + le32(16) + le16(1) + le16(1) + le32(
        SAMPLE_RATE as int,
    ) + le32(2 * SAMPLE_RATE) + le16(2) + le16(16) + data_tag() + le32(2 * n)
}

/// Four little-endian bytes spell the number they were made from.
pub proof fn lemma_le32_reads_back(v: int)
    requires
        0 <= v < 0x1_0000_0000,
    ensures
        le32(v)[0] + 256 * le32(v)[1] + 65536 * le32(v)[2] + 16777216 * le32(v)[3] == v,
{
}

/// A clip reads back as what was framed: its sizes are those of the file, its
/// format is 16-bit mono PCM at `SAMPLE_RATE`, and its data are the samples.
pub proof fn law_wav_reads_back(samples: Seq<i16>)
    requires
        36 + 2 * samples.len() <= u32::MAX,
    ensures
        ({
            let b = wav_header(samples.len() as int) + pcm_bytes(samples);
            &&& b.len() == HEADER_BYTES + 2 * samples.len()
            &&& b.subrange(0, 4) == riff_tag()
            &&& read_le32(b, 4) == b.len() - 8
            &&& b.subrange(8, 16) == wave_fmt_tag()
            &&& read_le32(b, 24) == SAMPLE_RATE
            &&& b.subrange(36, 40) == data_tag()
            &&& read_le32(b, 40) == b.len() - HEADER_BYTES
            &&& forall|i: int|
                0 <= i < samples.len() ==> read_sample(b[HEADER_BYTES + 2 * i], b[HEADER_BYTES + 2 * i + 1])
                    == #[trigger] samples[i]
        }),
{
    let n = samples.len() as int;
    let h = wav_header(n);
    let b = h + pcm_bytes(samples);
    assert(h.len() == 44);
    lemma_le32_reads_back(36 + 2 * n);
    lemma_le32_reads_back(2 * n);
    lemma_le32_reads_back(SAMPLE_RATE as int);
    assert(b.subrange(0, 4) =~= riff_tag());
    assert(b.subrange(8, 16) =~= wave_fmt_tag());
    assert(b.subrange(36, 40) =~= data_tag());
    assert(b[4] == le32(36 + 2 * n)[0] && b[5] == le32(36 + 2 * n)[1] && b[6] == le32(36 + 2 * n)[2]
        && b[7] == le32(36 + 2 * n)[3]);
    assert(b[24] == le32(SAMPLE_RATE as int)[0] && b[25] == le32(SAMPLE_RATE as int)[1] && b[26]
        == le32(SAMPLE_RATE as int)[2] && b[27] == le32(SAMPLE_RATE as int)[3]);
    assert(b[40] == le32(2 * n)[0] && b[41] == le32(2 * n)[1] && b[42] == le32(2 * n)[2] && b[43]
        == le32(2 * n)[3]);
    assert forall|i: int| 0 <= i < n implies read_sample(b[44 + 2 * i], b[44 + 2 * i + 1])
        == #[trigger] samples[i] by {
        let p = pcm_bytes(samples);
        assert(b[44 + 2 * i] == p[2 * i]);
        assert(b[44 + 2 * i + 1] == p[2 * i + 1]);
        assert((2 * i) / 2 == i && (2 * i) % 2 == 0);
        assert((2 * i + 1) / 2 == i && (2 * i + 1) % 2 == 1);
    }
}

/// Appends `tail` to `bytes`.
fn push_all(bytes: &mut Vec<u8>, tail: &[u8])
    ensures
        final(bytes)@ == old(bytes)@ + tail@,
{
    let mut k: usize = 0;
    while k < tail.len()
        invariant
            k <= tail@.len(),
            bytes@ == old(bytes)@ + tail@.take(k as int),
        decreases tail@.len() - k,
    {
        bytes.push(tail[k]);
        assert(tail@.take(k as int + 1) =~= tail@.take(k as int).push(tail@[k as int]));
        k = k + 1;
    }
    assert(tail@.take(tail@.len() as int) =~= tail@);
}

/// Appends the two little-endian bytes of `v`.
fn push_le16(bytes: &mut Vec<u8>, v: u32)
    requires
        v < 0x1_0000,
    ensures
        final(bytes)@ == old(bytes)@ + le16(v as int),
{
    bytes.push((v % 256) as u8);
    bytes.push((v / 256) as u8);
    assert(final(bytes)@ =~= old(bytes)@ + le16(v as int));
}

/// Appends the four little-endian bytes of `v`.
fn push_le32(bytes: &mut Vec<u8>, v: u32)
    ensures
        final(bytes)@ == old(bytes)@ + le32(v as int),
{
    bytes.push((v % 256) as u8);
    bytes.push(((v / 256) % 256) as u8);
    bytes.push(((v / 65536) % 256) as u8);
    bytes.push((v / 16777216) as u8);
    assert(final(bytes)@ =~= old(bytes)@ + le32(v as int));
}

/// A RIFF/WAVE file of 16-bit mono PCM at `SAMPLE_RATE` holding `samples`.
pub fn wav(samples: &[i16]) -> (bytes: Vec<u8>)
    requires
        36 + 2 * samples@.len() <= u32::MAX,
    ensures
        bytes@ == wav_header(samples@.len() as int) + pcm_bytes(samples@),
{
    let byte_count = samples.len() as u32 * 2;
    let mut bytes: Vec<u8> = Vec::new();
    let riff: &[u8] = &[82, 73, 70, 70];
    let fmt: &[u8] = &[87, 65, 86, 69, 102, 109, 116, 32];
    let data: &[u8] = &[100, 97, 116, 97];
    assert(riff@ == riff_tag());
    assert(fmt@ == wave_fmt_tag());
    assert(data@ == data_tag());
    push_all(&mut bytes, riff);
    push_le32(&mut bytes, 36 + byte_count);
    push_all(&mut bytes, fmt);
    push_le32(&mut bytes, 16);
    push_le16(&mut bytes, 1);
    push_le16(&mut bytes, 1);
    push_le32(&mut bytes, SAMPLE_RATE);
    push_le32(&mut bytes, SAMPLE_RATE * 2);
    push_le16(&mut bytes, 2);
    push_le16(&mut bytes, 16);
    push_all(&mut bytes, data);
    push_le32(&mut bytes, byte_count);
    let ghost header = bytes@;
    assert(header =~= wav_header(samples@.len() as int));
    let mut k: usize = 0;
    while k < samples.len()
        invariant
            k <= samples@.len(),
            bytes@ == header + pcm_bytes(samples@.take(k as int)),
        decreases samples@.len() - k,
    {
        let s = samples[k];
        let code: u32 = if s >= 0 {
            s as u32
        } else {
            (s as i32 + 65536) as u32
        };
        bytes.push((code % 256) as u8);
        bytes.push((code / 256) as u8);
        assert(pcm_bytes(samples@.take(k as int + 1)) =~= pcm_bytes(samples@.take(k as int)).push(
            (code % 256) as u8,
        ).push((code / 256) as u8));
        k = k + 1;
    }
    assert(samples@.take(samples@.len() as int) =~= samples@);
    bytes
}

} // verus!
