use dario::font::{glyph, icon_letter, lit, GLYPH_ADVANCE, GLYPH_WIDTH};
use dario::music::{next_noise, notes, Notes, STEPS};

#[test]
fn glyphs_are_seven_by_seven() {
    assert_eq!(glyph('D'), [124, 102, 99, 99, 99, 102, 124]);
    assert_eq!(glyph('0'), [62, 99, 103, 107, 115, 99, 62]);
    assert_eq!(glyph('a'), [0; 7]);
    assert_eq!(glyph(' '), [0; 7]);
    assert_eq!((GLYPH_WIDTH, GLYPH_ADVANCE), (7, 8));
    for c in ('A'..='Z').chain('0'..='9') {
        assert!(glyph(c).iter().all(|row| *row < 128));
        assert!(glyph(c).iter().any(|row| *row != 0));
    }
}

#[test]
fn the_theme_follows_its_score() {
    assert_eq!(STEPS, 128);
    assert_eq!(notes(0), Notes { lead: 76, bass: 48, chord: 72 });
    assert_eq!(notes(1), Notes { lead: 0, bass: 48, chord: 76 });
    assert_eq!(notes(2), Notes { lead: 79, bass: 55, chord: 79 });
    // Bar three sits on A, with a minor third in the arpeggio.
    assert_eq!(notes(17), Notes { lead: 76, bass: 45, chord: 72 });
    assert_eq!(notes(127).lead, 0);
}

#[test]
fn the_drum_noise_is_xorshift() {
    let mut n = 0xACE1_u32;
    let mut reference = 0xACE1_u32;
    for _ in 0..100 {
        n = next_noise(n);
        reference ^= reference << 13;
        reference ^= reference >> 17;
        reference ^= reference << 5;
        assert_eq!(n, reference);
    }
}

#[test]
fn glyph_pixels_and_the_icon_letter() {
    // The top row of D is 124 = 0b1111100: the five leftmost pixels.
    let top: Vec<bool> = (0..7).map(|col| lit('D', col, 0)).collect();
    assert_eq!(top, vec![true, true, true, true, true, false, false]);
    assert!(!lit('?', 0, 5));
    // The border is never lettered; inside, each glyph pixel covers 2x2 of 16.
    assert!(!icon_letter(16, 0, 0));
    assert!(icon_letter(16, 1, 1));
    assert!(icon_letter(16, 2, 2));
    assert!(!icon_letter(16, 11, 1));
    assert!(icon_letter(64, 4, 4));
    assert!(!icon_letter(64, 63, 63));
}
