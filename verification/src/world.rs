//! The vocabulary of the game world: tiles, phases, sounds, and pixel rectangles.
use vstd::prelude::*;

verus! {

/// Number of stages in the campaign.
pub const STAGE_COUNT: usize = 3;

/// Side of a tile, in pixels.
pub const TILE: i32 = 16;

/// Number of tile rows in every level.
pub const ROWS: usize = 15;

/// Height of the player's box, in pixels.
pub const PLAYER_H: i32 = 17;

/// Width of an enemy's box, in pixels.
pub const ENEMY_W: i32 = 14;

/// Height of an enemy's box, in pixels.
pub const ENEMY_H: i32 = 12;

#[derive(Clone, Copy, Debug, PartialEq, Eq, Structural)]
pub enum Tile {
    Air,
    Ground,
    Brick,
    Question,
    Used,
    PipeLeft,
    PipeRight,
    Stone,
}

#[derive(Clone, Copy, Debug, PartialEq, Eq, Structural)]
pub enum Phase {
    Title,
    Playing,
    Paused,
    Dying,
    StageClear,
    GameOver,
    Won,
    LevelSelect,
}

#[derive(Clone, Copy, Debug, PartialEq, Eq, Structural)]
pub enum SoundEvent {
    Jump,
    Coin,
    Bump,
    Stomp,
    Hurt,
    Checkpoint,
    Clear,
}

#[derive(Clone, Copy, Debug, PartialEq, Eq, Structural)]
pub enum EnemyKind {
    Beetle,
    Hopper,
    Flyer,
}

/// An axis-aligned box in whole pixels.
#[derive(Clone, Copy, Debug, PartialEq, Eq, Structural)]
pub struct Rect {
    pub x: i32,
    pub y: i32,
    pub w: i32,
    pub h: i32,
}

/// `floor(a / d)` for a positive divisor, rounding towards negative infinity.
pub fn floor_div(a: i64, d: i64) -> (q: i64)
    requires
        d > 0,
    ensures
        q == a as int / d as int,
{
    if a >= 0 {
        a / d
    } else {
        let n = -(a + 1);
        let q = n / d;
        proof {
            let r = n as int % d as int;
            vstd::arithmetic::div_mod::lemma_fundamental_div_mod(n as int, d as int);
            assert(a as int == (-q - 1) * d + (d - r - 1)) by (nonlinear_arith)
                requires
                    n as int == d * q + r,
                    a == -n - 1,
            ;
            vstd::arithmetic::div_mod::lemma_fundamental_div_mod_converse(
                a as int,
                d as int,
                -q - 1,
                d - r - 1,
            );
        }
        -q - 1
    }
}

} // verus!
