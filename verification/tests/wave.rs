use dario::wave::{wav, HEADER_BYTES, SAMPLE_RATE};

fn le32(bytes: &[u8], at: usize) -> u32 {
    u32::from_le_bytes(bytes[at..at + 4].try_into().unwrap())
}

#[test]
fn framing_is_valid_pcm() {
    let samples: Vec<i16> = vec![0, 1, -1, i16::MAX, i16::MIN, 1234];
    let bytes = wav(&samples);
    assert_eq!(&bytes[..4], b"RIFF");
    assert_eq!(&bytes[8..16], b"WAVEfmt ");
    assert_eq!(&bytes[36..40], b"data");
    assert_eq!(bytes.len(), HEADER_BYTES + 2 * samples.len());
    assert_eq!(le32(&bytes, 4) as usize, bytes.len() - 8);
    assert_eq!(le32(&bytes, 16), 16);
    assert_eq!(u16::from_le_bytes([bytes[20], bytes[21]]), 1);
    assert_eq!(u16::from_le_bytes([bytes[22], bytes[23]]), 1);
    assert_eq!(le32(&bytes, 24), SAMPLE_RATE);
    assert_eq!(le32(&bytes, 28), SAMPLE_RATE * 2);
    assert_eq!(u16::from_le_bytes([bytes[32], bytes[33]]), 2);
    assert_eq!(u16::from_le_bytes([bytes[34], bytes[35]]), 16);
    assert_eq!(le32(&bytes, 40) as usize, bytes.len() - 44);
    let decoded: Vec<i16> = bytes[44..]
        .chunks_exact(2)
        .map(|s| i16::from_le_bytes([s[0], s[1]]))
        .collect();
    assert_eq!(decoded, samples);
}

#[test]
fn an_empty_clip_is_just_a_header() {
    let bytes = wav(&[]);
    assert_eq!(bytes.len(), 44);
    assert_eq!(le32(&bytes, 4), 36);
    assert_eq!(le32(&bytes, 40), 0);
}
