//! The seven-pixel arcade capitals that the title, the HUD and the window
//! icon are lettered in.
use vstd::prelude::*;

verus! {

/// Columns of a glyph; bit `GLYPH_WIDTH - 1 - col` of a row is pixel `col`.
pub const GLYPH_WIDTH: usize = 7;

/// Horizontal distance from one glyph to the next, in pixels.
pub const GLYPH_ADVANCE: usize = GLYPH_WIDTH + 1;

/// The seven rows of the glyph for `c`, top first; characters without a
/// glyph are blank.
pub open spec fn glyph_rows(c: char) -> Seq<u8> {
    match c {
        'A' => seq![28u8, 54, 99, 99, 127, 99, 99],
        'B' => seq![126u8, 99, 99, 126, 99, 99, 126],
        'C' => seq![62u8, 99, 96, 96, 96, 99, 62],
        'D' => seq![124u8, 102, 99, 99, 99, 102, 124],
        'E' => seq![127u8, 96, 96, 124, 96, 96, 127],
        'F' => seq![127u8, 96, 96, 124, 96, 96, 96],
        'G' => seq![62u8, 99, 96, 111, 99, 99, 62],
        'H' => seq![99u8, 99, 99, 127, 99, 99, 99],
        'I' => seq![62u8, 28, 28, 28, 28, 28, 62],
        'J' => seq![31u8, 6, 6, 6, 102, 102, 60],
        'K' => seq![99u8, 102, 108, 120, 108, 102, 99],
        'L' => seq![96u8, 96, 96, 96, 96, 96, 127],
        'M' => seq![99u8, 119, 127, 107, 99, 99, 99],
        'N' => seq![99u8, 115, 123, 111, 103, 99, 99],
        'O' => seq![62u8, 99, 99, 99, 99, 99, 62],
        'P' => seq![126u8, 99, 99, 126, 96, 96, 96],
        'Q' => seq![62u8, 99, 99, 99, 107, 102, 61],
        'R' => seq![126u8, 99, 99, 126, 108, 102, 99],
        'S' => seq![62u8, 99, 96, 62, 3, 99, 62],
        'T' => seq![127u8, 28, 28, 28, 28, 28, 28],
        'U' => seq![99u8, 99, 99, 99, 99, 99, 62],
        'V' => seq![99u8, 99, 99, 99, 54, 28, 8],
        'W' => seq![99u8, 99, 99, 107, 127, 119, 99],
        'X' => seq![99u8, 54, 28, 8, 28, 54, 99],
        'Y' => seq![99u8, 99, 54, 28, 28, 28, 28],
        'Z' => seq![127u8, 3, 6, 12, 24, 48, 127],
        '0' => seq![62u8, 99, 103, 107, 115, 99, 62],
        '1' => seq![12u8, 28, 60, 12, 12, 12, 63],
        '2' => seq![62u8, 99, 3, 14, 56, 96, 127],
        '3' => seq![62u8, 99, 3, 30, 3, 99, 62],
        '4' => seq![6u8, 14, 30, 54, 127, 6, 6],
        '5' => seq![127u8, 96, 126, 3, 3, 99, 62],
        '6' => seq![30u8, 48, 96, 126, 99, 99, 62],
        '7' => seq![127u8, 99, 6, 12, 24, 24, 24],
        '8' => seq![62u8, 99, 99, 62, 99, 99, 62],
        '9' => seq![62u8, 99, 99, 63, 3, 6, 60],
        '!' => seq![28u8, 28, 28, 28, 28, 0, 28],
        '?' => seq![62u8, 99, 3, 14, 28, 0, 28],
        '-' => seq![0u8, 0, 0, 62, 0, 0, 0],
        '+' => seq![0u8, 28, 28, 127, 28, 28, 0],
        '/' => seq![3u8, 6, 12, 24, 48, 96, 64],
        ':' => seq![0u8, 28, 28, 0, 28, 28, 0],
        '.' => seq![0u8, 0, 0, 0, 0, 28, 28],
        '>' => seq![96u8, 48, 24, 12, 24, 48, 96],
        '<' => seq![3u8, 6, 12, 24, 12, 6, 3],
        _ => seq![0u8, 0, 0, 0, 0, 0, 0],
    }
}

/// Every glyph fits its seven columns.
pub proof fn law_glyphs_fit(c: char)
    ensures
        glyph_rows(c).len() == 7,
        forall|i: int| 0 <= i < 7 ==> #[trigger] glyph_rows(c)[i] < 128,
{
}

/// Reads a glyph back: the character whose glyph has these rows, found by
/// looking at one row at a time; rows of no glyph give a space.
spec fn read_glyph(rows: Seq<u8>) -> char {
    if rows[0] == 0 {
        if rows[1] == 0 {
            if rows[3] == 0 {
                '.'
            } else if rows[3] == 62 {
                '-'
            } else {
                ' '
            }
        } else if rows[1] == 28 {
            if rows[3] == 0 {
                ':'
            } else if rows[3] == 127 {
                '+'
            } else {
                ' '
            }
        } else {
            ' '
        }
    } else if rows[0] == 3 {
        if rows[4] == 12 {
            '<'
        } else if rows[4] == 48 {
            '/'
        } else {
            ' '
        }
    } else if rows[0] == 6 {
        '4'
    } else if rows[0] == 12 {
        '1'
    } else if rows[0] == 28 {
        if rows[1] == 28 {
            '!'
        } else if rows[1] == 54 {
            'A'
        } else {
            ' '
        }
    } else if rows[0] == 30 {
        '6'
    } else if rows[0] == 31 {
        'J'
    } else if rows[0] == 62 {
        if rows[1] == 28 {
            'I'
        } else if rows[1] == 99 {
            if rows[2] == 3 {
                if rows[3] == 14 {
                    if rows[4] == 28 {
                        '?'
                    } else if rows[4] == 56 {
                        '2'
                    } else {
                        ' '
                    }
                } else if rows[3] == 30 {
                    '3'
                } else {
                    ' '
                }
            } else if rows[2] == 96 {
                if rows[3] == 62 {
                    'S'
                } else if rows[3] == 96 {
                    'C'
                } else if rows[3] == 111 {
                    'G'
                } else {
                    ' '
                }
            } else if rows[2] == 99 {
                if rows[3] == 62 {
                    '8'
                } else if rows[3] == 63 {
                    '9'
                } else if rows[3] == 99 {
                    if rows[4] == 99 {
                        'O'
                    } else if rows[4] == 107 {
                        'Q'
                    } else {
                        ' '
                    }
                } else {
                    ' '
                }
            } else if rows[2] == 103 {
                '0'
            } else {
                ' '
            }
        } else {
            ' '
        }
    } else if rows[0] == 96 {
        if rows[1] == 48 {
            '>'
        } else if rows[1] == 96 {
            'L'
        } else {
            ' '
        }
    } else if rows[0] == 99 {
        if rows[1] == 54 {
            'X'
        } else if rows[1] == 99 {
            if rows[2] == 54 {
                'Y'
            } else if rows[2] == 99 {
                if rows[3] == 99 {
                    if rows[4] == 54 {
                        'V'
                    } else if rows[4] == 99 {
                        'U'
                    } else {
                        ' '
                    }
                } else if rows[3] == 107 {
                    'W'
                } else if rows[3] == 127 {
                    'H'
                } else {
                    ' '
                }
            } else {
                ' '
            }
        } else if rows[1] == 102 {
            'K'
        } else if rows[1] == 115 {
            'N'
        } else if rows[1] == 119 {
            'M'
        } else {
            ' '
        }
    } else if rows[0] == 124 {
        'D'
    } else if rows[0] == 126 {
        if rows[4] == 96 {
            'P'
        } else if rows[4] == 99 {
            'B'
        } else if rows[4] == 108 {
            'R'
        } else {
            ' '
        }
    } else if rows[0] == 127 {
        if rows[1] == 3 {
            'Z'
        } else if rows[1] == 28 {
            'T'
        } else if rows[1] == 96 {
            if rows[2] == 96 {
                if rows[6] == 96 {
                    'F'
                } else if rows[6] == 127 {
                    'E'
                } else {
                    ' '
                }
            } else if rows[2] == 126 {
                '5'
            } else {
                ' '
            }
        } else if rows[1] == 99 {
            '7'
        } else {
            ' '
        }
    } else {
        ' '
    }
}

/// Every character with a glyph is read back from its glyph.
proof fn lemma_glyphs_read_back(c: char)
    requires
        glyph_rows(c) != seq![0u8, 0, 0, 0, 0, 0, 0],
    ensures
        read_glyph(glyph_rows(c)) == c,
{
}

/// Distinct characters are drawn differently: no two characters that have a
/// glyph share one, so no letter, digit or sign can stand in for another.
pub proof fn law_glyphs_tell_characters_apart(c: char, d: char)
    requires
        c != d,
        glyph_rows(c) != seq![0u8, 0, 0, 0, 0, 0, 0],
    ensures
        glyph_rows(c) != glyph_rows(d),
{
    lemma_glyphs_read_back(c);
    if glyph_rows(c) == glyph_rows(d) {
        lemma_glyphs_read_back(d);
    }
}

/// The glyph for `c`: broad strokes, clipped corners, fixed spacing.
pub fn glyph(c: char) -> (rows: [u8; 7])
    ensures
        rows@ == glyph_rows(c),
{
    match c {
        'A' => [28, 54, 99, 99, 127, 99, 99],
        'B' => [126, 99, 99, 126, 99, 99, 126],
        'C' => [62, 99, 96, 96, 96, 99, 62],
        'D' => [124, 102, 99, 99, 99, 102, 124],
        'E' => [127, 96, 96, 124, 96, 96, 127],
        'F' => [127, 96, 96, 124, 96, 96, 96],
        'G' => [62, 99, 96, 111, 99, 99, 62],
        'H' => [99, 99, 99, 127, 99, 99, 99],
        'I' => [62, 28, 28, 28, 28, 28, 62],
        'J' => [31, 6, 6, 6, 102, 102, 60],
        'K' => [99, 102, 108, 120, 108, 102, 99],
        'L' => [96, 96, 96, 96, 96, 96, 127],
        'M' => [99, 119, 127, 107, 99, 99, 99],
        'N' => [99, 115, 123, 111, 103, 99, 99],
        'O' => [62, 99, 99, 99, 99, 99, 62],
        'P' => [126, 99, 99, 126, 96, 96, 96],
        'Q' => [62, 99, 99, 99, 107, 102, 61],
        'R' => [126, 99, 99, 126, 108, 102, 99],
        'S' => [62, 99, 96, 62, 3, 99, 62],
        'T' => [127, 28, 28, 28, 28, 28, 28],
        'U' => [99, 99, 99, 99, 99, 99, 62],
        'V' => [99, 99, 99, 99, 54, 28, 8],
        'W' => [99, 99, 99, 107, 127, 119, 99],
        'X' => [99, 54, 28, 8, 28, 54, 99],
        'Y' => [99, 99, 54, 28, 28, 28, 28],
        'Z' => [127, 3, 6, 12, 24, 48, 127],
        '0' => [62, 99, 103, 107, 115, 99, 62],
        '1' => [12, 28, 60, 12, 12, 12, 63],
        '2' => [62, 99, 3, 14, 56, 96, 127],
        '3' => [62, 99, 3, 30, 3, 99, 62],
        '4' => [6, 14, 30, 54, 127, 6, 6],
        '5' => [127, 96, 126, 3, 3, 99, 62],
        '6' => [30, 48, 96, 126, 99, 99, 62],
        '7' => [127, 99, 6, 12, 24, 24, 24],
        '8' => [62, 99, 99, 62, 99, 99, 62],
        '9' => [62, 99, 99, 63, 3, 6, 60],
        '!' => [28, 28, 28, 28, 28, 0, 28],
        '?' => [62, 99, 3, 14, 28, 0, 28],
        '-' => [0, 0, 0, 62, 0, 0, 0],
        '+' => [0, 28, 28, 127, 28, 28, 0],
        '/' => [3, 6, 12, 24, 48, 96, 64],
        ':' => [0, 28, 28, 0, 28, 28, 0],
        '.' => [0, 0, 0, 0, 0, 28, 28],
        '>' => [96, 48, 24, 12, 24, 48, 96],
        '<' => [3, 6, 12, 24, 12, 6, 3],
        _ => [0; 7],
    }
}

/// Pixel `col` of row `row` of the glyph for `c` is lit.
pub open spec fn spec_lit(c: char, col: int, row: int) -> bool {
    glyph_rows(c)[row] & (1u8 << ((GLYPH_WIDTH - 1 - col) as u8)) != 0
}

/// Pixel `col` of row `row` of the glyph for `c` is lit.
pub fn lit(c: char, col: usize, row: usize) -> (on: bool)
    requires
        col < GLYPH_WIDTH,
        row < 7,
    ensures
        on == spec_lit(c, col as int, row as int),
{
    let rows = glyph(c);
    let shift = (GLYPH_WIDTH - 1 - col) as u8;
    rows[row] & (1u8 << shift) != 0
}

/// The window icon is a `side` by `side` square: a one-sixteenth border, and
/// inside it the glyph for `D` scaled so that each glyph pixel covers two
/// sixteenths. Pixel `(x, y)` belongs to the letter.
pub open spec fn spec_icon_letter(side: int, x: int, y: int) -> bool {
    let px = x * 16 / side;
    let py = y * 16 / side;
    1 <= px < 15 && 1 <= py < 15 && spec_lit('D', (px - 1) / 2, (py - 1) / 2)
}

/// Pixel `(x, y)` of a `side` by `side` window icon belongs to the letter.
pub fn icon_letter(side: usize, x: usize, y: usize) -> (on: bool)
    requires
        0 < side,
        x < side,
        y < side,
        side <= 4096,
    ensures
        on == spec_icon_letter(side as int, x as int, y as int),
{
    assert(x * 16 < side * 16 && y * 16 < side * 16) by (nonlinear_arith)
        requires
            x < side,
            y < side,
    ;
    let px = x * 16 / side;
    let py = y * 16 / side;
    if 1 <= px && px < 15 && 1 <= py && py < 15 {
        lit('D', (px - 1) / 2, (py - 1) / 2)
    } else {
        false
    }
}

} // verus!
