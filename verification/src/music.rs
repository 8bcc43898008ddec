//! The score of the theme: a 16-bar loop of pulse lead, triangle
//! bass, arpeggios and noise drums. The waveforms themselves are synthesized
//! elsewhere; here are the notes each step plays and the noise sequence.
use vstd::prelude::*;

verus! {

/// Steps in the loop: eighth notes, eight to a bar.
pub const STEPS: usize = 128;

/// The lead melody, one MIDI note per step; zero is a rest.
pub open spec fn melody() -> Seq<i32> {
    seq![
        76i32, 0, 79, 76, 74, 72, 0, 74, 76, 79, 81, 0, 79, 76, 74, 0,
        72, 76, 79, 0, 81, 79, 76, 74, 72, 0, 69, 72, 74, 0, 76, 0,
        77, 0, 81, 79, 77, 76, 74, 0, 77, 81, 84, 0, 81, 79, 77, 0,
        74, 79, 83, 81, 79, 0, 77, 74, 76, 74, 72, 0, 0, 79, 74, 0,
        76, 79, 84, 0, 83, 79, 76, 0, 81, 0, 79, 76, 74, 72, 74, 0,
        72, 76, 81, 0, 79, 76, 74, 72, 69, 72, 76, 0, 74, 0, 72, 0,
        77, 81, 84, 81, 79, 0, 77, 76, 74, 77, 81, 0, 79, 77, 74, 0,
        79, 0, 83, 81, 79, 77, 74, 0, 76, 79, 72, 0, 0, 0, 0, 0,
    ]
}

/// The bass root of each bar.
pub open spec fn roots() -> Seq<i32> {
    seq![48i32, 48, 45, 45, 53, 53, 55, 55, 48, 48, 45, 45, 53, 53, 55, 55]
}

/// The notes of one step: the lead (zero for a rest), the bass and the arpeggio.
#[derive(Clone, Copy, Debug, PartialEq, Eq, Structural)]
pub struct Notes {
    pub lead: i32,
    pub bass: i32,
    pub chord: i32,
}

/// The notes of step `step`: the bass plays the bar's root, a fifth up in the
/// second half of each beat pair; the arpeggio climbs root, third (minor over
/// A, major otherwise), fifth and octave, two octaves above the root.
pub open spec fn score(step: int) -> Notes {
    let root = roots()[step / 8];
    let third = if root == 45 {
        3i32
    } else {
        4i32
    };
    Notes {
        lead: melody()[step],
        bass: if step % 4 >= 2 {
            (root + 7) as i32
        } else {
            root
        },
        chord: (root + 24 + seq![0i32, third, 7, 12][step % 4]) as i32,
    }
}

/// The bass walks each beat pair as root, root, fifth, fifth: the first two
/// eighths of every group of four play the bar's root, the last two the note
/// seven semitones above it. Over the same four eighths the arpeggio climbs
/// from two octaves above the root through the third (minor over A, major
/// otherwise) and the fifth to the octave.
pub proof fn law_bass_plays_root_then_fifth(q: int)
    requires
        0 <= q < STEPS / 4,
    ensures
        score(4 * q).bass == roots()[q / 2],
        score(4 * q + 1).bass == score(4 * q).bass,
        score(4 * q + 2).bass == score(4 * q).bass + 7,
        score(4 * q + 3).bass == score(4 * q + 2).bass,
        score(4 * q).chord == score(4 * q).bass + 24,
        score(4 * q + 1).chord == score(4 * q).chord + if roots()[q / 2] == 45 {
            3int
        } else {
            4int
        },
        score(4 * q + 2).chord == score(4 * q).chord + 7,
        score(4 * q + 3).chord == score(4 * q).chord + 12,
{
    assert((4 * q) / 8 == q / 2);
    assert((4 * q + 1) / 8 == q / 2);
    assert((4 * q + 2) / 8 == q / 2);
    assert((4 * q + 3) / 8 == q / 2);
    assert((4 * q) % 4 == 0);
    assert((4 * q + 1) % 4 == 1);
    assert((4 * q + 2) % 4 == 2);
    assert((4 * q + 3) % 4 == 3);
}

/// One step of the drums' 32-bit xorshift noise.
pub open spec fn noise_step(n: u32) -> u32 {
    let a = n ^ ((n << 13u32) as u32);
    let b = a ^ (a >> 17u32);
    b ^ ((b << 5u32) as u32)
}

fn melody_table() -> (table: &'static [i32])
    ensures
        table@ == melody(),
{
    &[
        76, 0, 79, 76, 74, 72, 0, 74, 76, 79, 81, 0, 79, 76, 74, 0,
        72, 76, 79, 0, 81, 79, 76, 74, 72, 0, 69, 72, 74, 0, 76, 0,
        77, 0, 81, 79, 77, 76, 74, 0, 77, 81, 84, 0, 81, 79, 77, 0,
        74, 79, 83, 81, 79, 0, 77, 74, 76, 74, 72, 0, 0, 79, 74, 0,
        76, 79, 84, 0, 83, 79, 76, 0, 81, 0, 79, 76, 74, 72, 74, 0,
        72, 76, 81, 0, 79, 76, 74, 72, 69, 72, 76, 0, 74, 0, 72, 0,
        77, 81, 84, 81, 79, 0, 77, 76, 74, 77, 81, 0, 79, 77, 74, 0,
        79, 0, 83, 81, 79, 77, 74, 0, 76, 79, 72, 0, 0, 0, 0, 0,
    ]
}

fn roots_table() -> (table: &'static [i32])
    ensures
        table@ == roots(),
{
    let table: &'static [i32] = &[48, 48, 45, 45, 53, 53, 55, 55, 48, 48, 45, 45, 53, 53, 55, 55];
    assert(table@ =~= roots());
    table
}

/// The notes of step `step` of the loop.
pub fn notes(step: usize) -> (n: Notes)
    requires
        step < STEPS,
    ensures
        n == score(step as int),
{
    let melody = melody_table();
    let roots = roots_table();
    let root = roots[step / 8];
    let third = if root == 45 {
        3
    } else {
        4
    };
    let offsets: [i32; 4] = [0, third, 7, 12];
    assert(offsets@ =~= seq![0i32, third, 7, 12]);
    Notes {
        lead: melody[step],
        bass: root + if step % 4 >= 2 {
            7
        } else {
            0
        },
        chord: root + 24 + offsets[step % 4],
    }
}

/// The next value of the drums' noise.
pub fn next_noise(n: u32) -> (next: u32)
    ensures
        next == noise_step(n),
{
    let mut noise = n;
    noise ^= noise << 13;
    noise ^= noise >> 17;
    noise ^= noise << 5;
    noise
}

} // verus!
