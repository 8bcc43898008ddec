//! The three hand-made stages: their tile grids, coins, enemy spawns,
//! checkpoint and exit, and the tile queries that collision uses.
use vstd::prelude::*;

use crate::world::{floor_div, Rect, Tile, ENEMY_H, ENEMY_W, PLAYER_H, ROWS, TILE};

verus! {

/// The row whose top is the ground surface.
pub const GROUND_ROW: usize = 12;

/// Column of the checkpoint flag.
pub const CHECKPOINT_COLUMN: i32 = 74;

/// A coin, placed by its top-left pixel.
#[derive(Clone, Copy, Debug, PartialEq, Eq, Structural)]
pub struct Coin {
    pub x: i32,
    pub y: i32,
    pub collected: bool,
}

/// Where an enemy starts: the top-left pixel of its box.
#[derive(Clone, Copy, Debug, PartialEq, Eq, Structural)]
pub struct Enemy {
    pub x: i32,
    pub y: i32,
}

/// A stage: a grid of `width` columns by `ROWS` rows, stored row by row.
pub struct Level {
    pub name: &'static str,
    pub width: usize,
    pub tiles: Vec<Tile>,
    pub coins: Vec<Coin>,
    pub enemies: Vec<Enemy>,
    /// Top-left pixel at which the player respawns after the checkpoint.
    pub checkpoint: (i32, i32),
    /// Pixel column at which the stage is cleared.
    pub goal: i32,
}

// ---------------------------------------------------------------------------
// The stage tables.
// ---------------------------------------------------------------------------
pub open spec fn stage_name(stage: int) -> &'static str {
    if stage == 0 {
        "SUNNY SIDE UP"
    } else if stage == 1 {
        "THE GOLDEN HOUR"
    } else {
        "ONE MORE SUNSET"
    }
}

pub open spec fn stage_width(stage: int) -> usize {
    if stage == 0 {
        150
    } else if stage == 1 {
        164
    } else {
        178
    }
}

/// Pits: half-open column ranges without ground.
pub open spec fn gap_table(stage: int) -> Seq<(usize, usize)> {
    if stage == 0 {
        seq![(29usize, 31usize), (62, 65), (99, 102), (121, 124)]
    } else if stage == 1 {
        seq![(24usize, 27usize), (48, 51), (91, 94), (116, 120), (140, 143)]
    } else {
        seq![(30usize, 34usize), (56, 59), (83, 87), (114, 118), (145, 149)]
    }
}

/// Block rows: first column, row, length.
pub open spec fn block_table(stage: int) -> Seq<(usize, usize, usize)> {
    if stage == 0 {
        seq![
            (12usize, 9usize, 5usize),
            (22, 8, 3),
            (38, 9, 5),
            (53, 8, 4),
            (80, 9, 5),
            (109, 9, 4),
            (129, 9, 3),
        ]
    } else if stage == 1 {
        seq![
            (10usize, 9usize, 4usize),
            (19, 7, 3),
            (35, 9, 5),
            (58, 9, 4),
            (64, 7, 4),
            (81, 9, 5),
            (102, 8, 5),
            (126, 9, 5),
        ]
    } else {
        seq![
            (12usize, 9usize, 4usize),
            (22, 7, 4),
            (40, 9, 5),
            (49, 7, 3),
            (66, 9, 4),
            (92, 9, 5),
            (104, 7, 3),
            (126, 9, 5),
            (136, 7, 4),
            (154, 9, 4),
        ]
    }
}

/// Pipes: left column and height in tiles.
pub open spec fn pipe_table(stage: int) -> Seq<(usize, usize)> {
    if stage == 0 {
        seq![(19usize, 2usize), (46, 2), (89, 3), (116, 2)]
    } else if stage == 1 {
        seq![(30usize, 2usize), (44, 3), (98, 2), (135, 3)]
    } else {
        seq![(18usize, 2usize), (37, 3), (62, 2), (99, 3), (121, 2), (160, 2)]
    }
}

/// Columns at which enemies start.
pub open spec fn enemy_table(stage: int) -> Seq<usize> {
    if stage == 0 {
        seq![23usize, 40, 56, 84, 96, 111, 131]
    } else if stage == 1 {
        seq![17usize, 39, 60, 84, 106, 128, 147]
    } else {
        seq![25usize, 44, 68, 79, 94, 109, 130, 151, 164]
    }
}

/// Columns of the row of coins above the start and before the checkpoint.
pub open spec fn extra_coin_table() -> Seq<usize> {
    seq![7usize, 8, 9, 70, 71, 72]
}

fn stage_name_of(stage: usize) -> (r: &'static str)
    ensures
        r == stage_name(stage as int),
{
    match stage {
        0 => "SUNNY SIDE UP",
        1 => "THE GOLDEN HOUR",
        _ => "ONE MORE SUNSET",
    }
}

fn width_of(stage: usize) -> (r: usize)
    ensures
        r == stage_width(stage as int),
{
    match stage {
        0 => 150,
        1 => 164,
        _ => 178,
    }
}

fn gaps_of(stage: usize) -> (r: &'static [(usize, usize)])
    ensures
        r@ == gap_table(stage as int),
{
    match stage {
        0 => &[(29, 31), (62, 65), (99, 102), (121, 124)],
        1 => &[(24, 27), (48, 51), (91, 94), (116, 120), (140, 143)],
        _ => &[(30, 34), (56, 59), (83, 87), (114, 118), (145, 149)],
    }
}

fn blocks_of(stage: usize) -> (r: &'static [(usize, usize, usize)])
    ensures
        r@ == block_table(stage as int),
{
    match stage {
        0 => &[(12, 9, 5), (22, 8, 3), (38, 9, 5), (53, 8, 4), (80, 9, 5), (109, 9, 4), (129, 9, 3)],
        1 => &[
            (10, 9, 4),
            (19, 7, 3),
            (35, 9, 5),
            (58, 9, 4),
            (64, 7, 4),
            (81, 9, 5),
            (102, 8, 5),
            (126, 9, 5),
        ],
        _ => &[
            (12, 9, 4),
            (22, 7, 4),
            (40, 9, 5),
            (49, 7, 3),
            (66, 9, 4),
            (92, 9, 5),
            (104, 7, 3),
            (126, 9, 5),
            (136, 7, 4),
            (154, 9, 4),
        ],
    }
}

fn pipes_of(stage: usize) -> (r: &'static [(usize, usize)])
    ensures
        r@ == pipe_table(stage as int),
{
    match stage {
        0 => &[(19, 2), (46, 2), (89, 3), (116, 2)],
        1 => &[(30, 2), (44, 3), (98, 2), (135, 3)],
        _ => &[(18, 2), (37, 3), (62, 2), (99, 3), (121, 2), (160, 2)],
    }
}

fn enemies_of(stage: usize) -> (r: &'static [usize])
    ensures
        r@ == enemy_table(stage as int),
{
    match stage {
        0 => &[23, 40, 56, 84, 96, 111, 131],
        1 => &[17, 39, 60, 84, 106, 128, 147],
        _ => &[25, 44, 68, 79, 94, 109, 130, 151, 164],
    }
}

// ---------------------------------------------------------------------------
// What a stage looks like.
// ---------------------------------------------------------------------------
/// Column `x` lies in one of the pits.
pub open spec fn in_gap(gaps: Seq<(usize, usize)>, x: int) -> bool {
    exists|k: int| 0 <= k < gaps.len() && #[trigger] gaps[k].0 <= x < gaps[k].1
}

/// Ground fills the bottom three rows except over pits.
pub open spec fn ground_tile(gaps: Seq<(usize, usize)>, x: int, y: int) -> Tile {
    if GROUND_ROW <= y < ROWS && !in_gap(gaps, x) {
        Tile::Ground
    } else {
        Tile::Air
    }
}

/// A block row alternates bricks and question blocks: every third block,
/// starting with the second, is a question block.
pub open spec fn block_kind(offset: int) -> Tile {
    if offset % 3 == 1 {
        Tile::Question
    } else {
        Tile::Brick
    }
}

/// The block at `(x, y)` from the last block row in `blocks` that covers it.
pub open spec fn block_cover(blocks: Seq<(usize, usize, usize)>, x: int, y: int) -> Option<Tile>
    decreases blocks.len(),
{
    if blocks.len() == 0 {
        None
    } else {
        let b = blocks.last();
        if y == b.1 && b.0 <= x < b.0 + b.2 {
            Some(block_kind(x - b.0))
        } else {
            block_cover(blocks.drop_last(), x, y)
        }
    }
}

/// The grid after the ground and the block rows.
pub open spec fn block_tile(
    gaps: Seq<(usize, usize)>,
    blocks: Seq<(usize, usize, usize)>,
    x: int,
    y: int,
) -> Tile {
    match block_cover(blocks, x, y) {
        Some(t) => t,
        None => ground_tile(gaps, x, y),
    }
}

/// The pipe half at `(x, y)` from the last pipe in `pipes` that covers it:
/// a pipe stands on the ground row, two columns wide and `height` tall.
pub open spec fn pipe_cover(pipes: Seq<(usize, usize)>, x: int, y: int) -> Option<Tile>
    decreases pipes.len(),
{
    if pipes.len() == 0 {
        None
    } else {
        let p = pipes.last();
        if GROUND_ROW - p.1 <= y < GROUND_ROW && x == p.0 {
            Some(Tile::PipeLeft)
        } else if GROUND_ROW - p.1 <= y < GROUND_ROW && x == p.0 + 1 {
            Some(Tile::PipeRight)
        } else {
            pipe_cover(pipes.drop_last(), x, y)
        }
    }
}

/// The grid after the ground, the block rows and the pipes.
pub open spec fn pipe_tile(
    gaps: Seq<(usize, usize)>,
    blocks: Seq<(usize, usize, usize)>,
    pipes: Seq<(usize, usize)>,
    x: int,
    y: int,
) -> Tile {
    match pipe_cover(pipes, x, y) {
        Some(t) => t,
        None => block_tile(gaps, blocks, x, y),
    }
}

/// The staircase before the exit: four stone columns starting sixteen columns
/// from the end, the `n`-th of them `n` tiles tall.
pub open spec fn in_stairs(width: int, x: int, y: int) -> bool {
    let n = x - (width - 16);
    0 <= n < 4 && GROUND_ROW - n <= y < GROUND_ROW
}

/// The tile of stage `stage` at column `x`, row `y`; outside the grid, air.
pub open spec fn layout_tile(stage: int, x: int, y: int) -> Tile {
    let w = stage_width(stage) as int;
    if !(0 <= x < w && 0 <= y < ROWS) {
        Tile::Air
    } else if in_stairs(w, x, y) {
        Tile::Stone
    } else {
        pipe_tile(gap_table(stage), block_table(stage), pipe_table(stage), x, y)
    }
}

/// The coin at tile `(cx, cy)`: centred in the column, just below the tile's top.
pub open spec fn coin_at(cx: int, cy: int) -> Coin {
    Coin { x: (cx * TILE + 4) as i32, y: (cy * TILE + 3) as i32, collected: false }
}

/// The coins at a sequence of tiles.
pub open spec fn coins_of(cells: Seq<(int, int)>) -> Seq<Coin> {
    Seq::new(cells.len(), |i: int| coin_at(cells[i].0, cells[i].1))
}

/// Coins two rows above a block row, over every other block.
pub open spec fn one_block_coins(b: (usize, usize, usize)) -> Seq<(int, int)> {
    Seq::new(((b.2 + 1) / 2) as nat, |j: int| (b.0 + 2 * j, b.1 - 2))
}

pub open spec fn block_coin_cells(blocks: Seq<(usize, usize, usize)>) -> Seq<(int, int)>
    decreases blocks.len(),
{
    if blocks.len() == 0 {
        Seq::empty()
    } else {
        block_coin_cells(blocks.drop_last()) + one_block_coins(blocks.last())
    }
}

/// An arc of coins over a pit: one column either side at row 9, the pit itself at row 8.
pub open spec fn one_gap_coins(g: (usize, usize)) -> Seq<(int, int)> {
    let s: int = if g.0 >= 1 { g.0 - 1 } else { 0 };
    Seq::new(
        (g.1 + 1 - s) as nat,
        |j: int|
            (
                s + j,
                if g.0 <= s + j < g.1 {
                    8int
                } else {
                    9int
                },
            ),
    )
}

pub open spec fn gap_coin_cells(gaps: Seq<(usize, usize)>) -> Seq<(int, int)>
    decreases gaps.len(),
{
    if gaps.len() == 0 {
        Seq::empty()
    } else {
        gap_coin_cells(gaps.drop_last()) + one_gap_coins(gaps.last())
    }
}

pub open spec fn extra_coin_cells() -> Seq<(int, int)> {
    Seq::new(6, |j: int| (extra_coin_table()[j] as int, 10int))
}

/// The tiles of every coin of a stage, in the order the stage lists them.
pub open spec fn coin_cells(stage: int) -> Seq<(int, int)> {
    block_coin_cells(block_table(stage)) + gap_coin_cells(gap_table(stage)) + extra_coin_cells()
}

/// Going up from row `s`, the first row whose tile above is open.
pub open spec fn surface_from(stage: int, x: int, s: nat) -> nat
    decreases s,
{
    if s == 0 || layout_tile(stage, x, s - 1) == Tile::Air {
        s
    } else {
        surface_from(stage, x, (s - 1) as nat)
    }
}

/// An enemy of stage `stage` starts standing on the solid column below the
/// ground line at column `x`.
pub open spec fn spawn_at(stage: int, x: int) -> Enemy {
    Enemy { x: (x * TILE) as i32, y: (surface_from(stage, x, GROUND_ROW as nat) * TILE - ENEMY_H) as i32 }
}

/// The enemies of stage `stage` that start at the columns `columns`.
pub open spec fn spawns_of(stage: int, columns: Seq<usize>) -> Seq<Enemy> {
    Seq::new(columns.len(), |i: int| spawn_at(stage, columns[i] as int))
}

/// Every table entry lies inside its stage.
pub proof fn lemma_tables_fit(stage: int)
    ensures
        16 <= stage_width(stage) < 10000,
        forall|k: int|
            0 <= k < gap_table(stage).len() ==> (#[trigger] gap_table(stage)[k]).0 <= gap_table(
                stage,
            )[k].1 < 10000,
        forall|k: int|
            0 <= k < block_table(stage).len() ==> {
                &&& (#[trigger] block_table(stage)[k]).0 + block_table(stage)[k].2 <= stage_width(stage)
                &&& 2 <= block_table(stage)[k].1 < ROWS
            },
        forall|k: int|
            0 <= k < pipe_table(stage).len() ==> {
                &&& (#[trigger] pipe_table(stage)[k]).0 + 2 <= stage_width(stage)
                &&& pipe_table(stage)[k].1 <= GROUND_ROW
            },
        forall|k: int|
            0 <= k < enemy_table(stage).len() ==> #[trigger] enemy_table(stage)[k] < stage_width(stage),
{
}

/// Tile `(a.0, a.1)` comes before tile `(b.0, b.1)` when read row by row.
pub open spec fn reads_before(a: (i32, i32), b: (i32, i32)) -> bool {
    a.1 < b.1 || (a.1 == b.1 && a.0 < b.0)
}

/// The box `r` overlaps tile `(cx, cy)`.
pub open spec fn covers(r: Rect, cx: int, cy: int) -> bool {
    &&& (r.x as int) / (TILE as int) <= cx <= (r.x + r.w - 1) / (TILE as int)
    &&& (r.y as int) / (TILE as int) <= cy <= (r.y + r.h - 1) / (TILE as int)
}

/// The box of tile `(cx, cy)`.
pub open spec fn tile_rect(cx: int, cy: int) -> Rect {
    Rect { x: (cx * TILE) as i32, y: (cy * TILE) as i32, w: TILE, h: TILE }
}

/// Tiles listed strictly in reading order.
pub open spec fn reading_order(s: Seq<(i32, i32)>) -> bool {
    forall|i: int, j: int| 0 <= i < j < s.len() ==> reads_before(s[i], s[j])
}

/// Two lists in strict reading order with the same members are the same list.
pub proof fn lemma_reading_order_unique(a: Seq<(i32, i32)>, b: Seq<(i32, i32)>)
    requires
        reading_order(a),
        reading_order(b),
        forall|p: (i32, i32)| a.contains(p) <==> b.contains(p),
    ensures
        a == b,
    decreases a.len(),
{
    if a.len() == 0 {
        if b.len() > 0 {
            assert(b.contains(b[0]));
        }
        assert(a =~= b);
    } else {
        assert(a.contains(a[0]));
        assert(b.len() > 0);
        assert(b.contains(b[0]));
        let k = choose|k: int| 0 <= k < b.len() && b[k] == a[0];
        let m = choose|m: int| 0 <= m < a.len() && a[m] == b[0];
        if k > 0 {
            assert(reads_before(b[0], b[k]));
            if m > 0 {
                assert(reads_before(a[0], a[m]));
            }
        }
        assert(a[0] == b[0]);
        let ta = a.drop_first();
        let tb = b.drop_first();
        assert forall|i: int, j: int| 0 <= i < j < ta.len() implies reads_before(ta[i], ta[j]) by {
            assert(reads_before(a[i + 1], a[j + 1]));
        }
        assert forall|i: int, j: int| 0 <= i < j < tb.len() implies reads_before(tb[i], tb[j]) by {
            assert(reads_before(b[i + 1], b[j + 1]));
        }
        assert forall|p: (i32, i32)| ta.contains(p) <==> tb.contains(p) by {
            if ta.contains(p) {
                let i = choose|i: int| 0 <= i < ta.len() && ta[i] == p;
                assert(reads_before(a[0], a[i + 1]));
                assert(a.contains(p));
                let j = choose|j: int| 0 <= j < b.len() && b[j] == p;
                if j == 0 {
                    assert(false);
                }
                assert(tb[j - 1] == p);
            }
            if tb.contains(p) {
                let i = choose|i: int| 0 <= i < tb.len() && tb[i] == p;
                assert(reads_before(b[0], b[i + 1]));
                assert(b.contains(p));
                let j = choose|j: int| 0 <= j < a.len() && a[j] == p;
                if j == 0 {
                    assert(false);
                }
                assert(ta[j - 1] == p);
            }
        }
        lemma_reading_order_unique(ta, tb);
        assert(a =~= seq![a[0]] + ta);
        assert(b =~= seq![b[0]] + tb);
    }
}

/// Column `x` of stage `stage` has ground under the ground line and open air above it.
pub open spec fn safe_column(stage: int, x: int) -> bool {
    layout_tile(stage, x, GROUND_ROW as int) != Tile::Air && layout_tile(stage, x, GROUND_ROW - 1)
        == Tile::Air
}

/// No pit of stage `stage` covers column `x`.
proof fn lemma_not_in_gap(stage: int, x: int)
    requires
        x == 3 || x == 4 || x == 74 || x == stage_width(stage) - 10,
    ensures
        !in_gap(gap_table(stage), x),
{
    let g = gap_table(stage);
    assert forall|k: int| 0 <= k < g.len() implies !(#[trigger] g[k].0 <= x < g[k].1) by {
        assert(k == 0 || k == 1 || k == 2 || k == 3 || k == 4);
    }
}

/// Every arc that `one_gap_coins` lays for a pit of `gaps` is among the pit coins.
proof fn lemma_gap_cells_contain(gaps: Seq<(usize, usize)>, k: int, j: int)
    requires
        0 <= k < gaps.len(),
        0 <= j < one_gap_coins(gaps[k]).len(),
    ensures
        gap_coin_cells(gaps).contains(one_gap_coins(gaps[k])[j]),
    decreases gaps.len(),
{
    let pre = gap_coin_cells(gaps.drop_last());
    let last = one_gap_coins(gaps.last());
    assert(gap_coin_cells(gaps) == pre + last);
    if k == gaps.len() - 1 {
        assert((pre + last)[pre.len() + j] == last[j]);
    } else {
        assert(gaps.drop_last()[k] == gaps[k]);
        lemma_gap_cells_contain(gaps.drop_last(), k, j);
        let i = choose|i: int| 0 <= i < pre.len() && pre[i] == one_gap_coins(gaps[k])[j];
        assert((pre + last)[i] == pre[i]);
    }
}

/// Every pit of every stage is crossed by a rising arc of coins: a coin
/// hangs at row 8 over each column of the pit, and at row 9 over the column
/// just before the pit and the column just after it.
pub proof fn law_pits_are_crossed_by_rising_arcs(level: Level, stage: int, k: int, x: int)
    requires
        level.is_stage(stage),
        0 <= k < gap_table(stage).len(),
        gap_table(stage)[k].0 - 1 <= x <= gap_table(stage)[k].1,
    ensures
        ({
            let g = gap_table(stage)[k];
            let row: int = if g.0 <= x < g.1 {
                8
            } else {
                9
            };
            exists|i: int|
                0 <= i < level.coins@.len() && #[trigger] level.coins@[i] == (Coin {
                    x: (x * 16 + 4) as i32,
                    y: (row * 16 + 3) as i32,
                    collected: false,
                })
        }),
{
    lemma_tables_fit(stage);
    let gaps = gap_table(stage);
    let g = gaps[k];
    let row: int = if g.0 <= x < g.1 {
        8
    } else {
        9
    };
    assert(g.0 >= 1);
    let j = x - (g.0 - 1);
    assert(one_gap_coins(g)[j] == (x, row));
    lemma_gap_cells_contain(gaps, k, j);
    let gc = gap_coin_cells(gaps);
    let m = choose|m: int| 0 <= m < gc.len() && gc[m] == (x, row);
    let bc = block_coin_cells(block_table(stage));
    let cells = coin_cells(stage);
    assert(cells == bc + gc + extra_coin_cells());
    let i = bc.len() + m;
    assert(cells[i] == (x, row));
    assert(level.coins@[i] == coin_at(x, row));
}

/// Every stage starts the player, places the checkpoint and the exit on solid
/// ground with open air above: columns 3 and 4, the checkpoint column, and the
/// exit's column.
pub proof fn law_stages_have_safe_ground(stage: int)
    ensures
        safe_column(stage, 3),
        safe_column(stage, 4),
        safe_column(stage, CHECKPOINT_COLUMN as int),
        safe_column(stage, stage_width(stage) - 10),
{
    reveal_with_fuel(block_cover, 11);
    reveal_with_fuel(pipe_cover, 7);
    lemma_not_in_gap(stage, 3);
    lemma_not_in_gap(stage, 4);
    lemma_not_in_gap(stage, 74);
    lemma_not_in_gap(stage, stage_width(stage) - 10);
}

/// `surface_from` climbs a solid column up to the first open tile.
pub proof fn lemma_surface(stage: int, x: int, s: nat)
    ensures
        surface_from(stage, x, s) <= s,
        surface_from(stage, x, s) == 0 || layout_tile(stage, x, surface_from(stage, x, s) - 1)
            == Tile::Air,
        forall|y: int|
            surface_from(stage, x, s) <= y < s ==> #[trigger] layout_tile(stage, x, y) != Tile::Air,
    decreases s,
{
    if !(s == 0 || layout_tile(stage, x, s - 1) == Tile::Air) {
        lemma_surface(stage, x, (s - 1) as nat);
    }
}

/// No enemy of any stage starts inside terrain: every tile its box overlaps is
/// open, and below the ground line it stands on a solid tile.
pub proof fn law_enemies_start_in_open_air(stage: int, k: int)
    requires
        0 <= k < enemy_table(stage).len(),
    ensures
        forall|cx: int, cy: int|
            #[trigger] covers(
                Rect {
                    x: spawns_of(stage, enemy_table(stage))[k].x,
                    y: spawns_of(stage, enemy_table(stage))[k].y,
                    w: ENEMY_W,
                    h: ENEMY_H,
                },
                cx,
                cy,
            ) ==> layout_tile(stage, cx, cy) == Tile::Air,
        ({
            let e = spawns_of(stage, enemy_table(stage))[k];
            (e.y + ENEMY_H) / (TILE as int) < GROUND_ROW ==> layout_tile(
                stage,
                (e.x as int) / (TILE as int),
                (e.y + ENEMY_H) / (TILE as int),
            ) != Tile::Air
        }),
{
    lemma_tables_fit(stage);
    let x = enemy_table(stage)[k] as int;
    let s = surface_from(stage, x, GROUND_ROW as nat) as int;
    lemma_surface(stage, x, GROUND_ROW as nat);
    let e = spawns_of(stage, enemy_table(stage))[k];
    assert(e.x == x * 16 && e.y == s * 16 - 12);
    vstd::arithmetic::div_mod::lemma_fundamental_div_mod_converse(x * 16, 16, x, 0);
    vstd::arithmetic::div_mod::lemma_fundamental_div_mod_converse(x * 16 + 13, 16, x, 13);
    vstd::arithmetic::div_mod::lemma_fundamental_div_mod_converse(s * 16 - 12, 16, s - 1, 4);
    vstd::arithmetic::div_mod::lemma_fundamental_div_mod_converse(s * 16 - 1, 16, s - 1, 15);
    vstd::arithmetic::div_mod::lemma_fundamental_div_mod_converse(s * 16, 16, s, 0);
}

/// Index `i` of a row-major grid `w` wide is column `x`, row `y`.
pub proof fn lemma_cell_index(i: int, w: int, x: int, y: int)
    requires
        w > 0,
        0 <= x < w,
        0 <= y,
        0 <= i,
    ensures
        (i % w == x && i / w == y) <==> i == y * w + x,
{
    vstd::arithmetic::div_mod::lemma_fundamental_div_mod(i, w);
    if i == y * w + x {
        vstd::arithmetic::div_mod::lemma_fundamental_div_mod_converse(i, w, y, x);
    }
    if i % w == x && i / w == y {
        assert(w * y == y * w) by (nonlinear_arith);
    }
}

impl Enemy {
    pub fn new(x: i32, y: i32) -> (e: Enemy)
        ensures
            e == (Enemy { x, y }),
    {
        Enemy { x, y }
    }

    /// The enemy's box at its spawn position.
    pub fn rect(&self) -> (r: Rect)
        ensures
            r == (Rect { x: self.x, y: self.y, w: ENEMY_W, h: ENEMY_H }),
    {
        Rect { x: self.x, y: self.y, w: ENEMY_W, h: ENEMY_H }
    }
}

impl Level {
    /// The grid holds `width` columns by `ROWS` rows, and every pixel column
    /// of it fits an `i32`.
    pub open spec fn wf(&self) -> bool {
        &&& self.tiles@.len() == self.width * ROWS
        &&& 0 < self.width
        &&& self.width * TILE <= i32::MAX
    }

    /// This level is stage `stage` as built, before any coin is taken or block bumped.
    pub open spec fn is_stage(&self, stage: int) -> bool {
        &&& self.wf()
        &&& self.name == stage_name(stage)
        &&& self.width == stage_width(stage)
        &&& forall|x: int, y: int| #[trigger] self.cell(x, y) == layout_tile(stage, x, y)
        &&& self.coins@ == coins_of(coin_cells(stage))
        &&& self.enemies@ == spawns_of(stage, enemy_table(stage))
        &&& self.checkpoint.0 == CHECKPOINT_COLUMN * TILE
        &&& self.checkpoint.1 == GROUND_ROW * TILE - PLAYER_H
        &&& self.goal == (stage_width(stage) - 10) * TILE
    }

    /// The tile at column `x`, row `y`; outside the grid, air.
    pub open spec fn cell(&self, x: int, y: int) -> Tile {
        if 0 <= x < self.width && 0 <= y < ROWS {
            self.tiles@[y * self.width + x]
        } else {
            Tile::Air
        }
    }

    /// The tile at column `x`, row `y`; outside the grid, air.
    pub fn tile(&self, x: i32, y: i32) -> (t: Tile)
        requires
            self.wf(),
        ensures
            t == self.cell(x as int, y as int),
    {
        if x < 0 || y < 0 || x as usize >= self.width || y as usize >= ROWS {
            return Tile::Air;
        }
        proof {
            assert((y as int) * (self.width as int) + (x as int) < (self.width as int) * ROWS)
                by (nonlinear_arith)
                requires
                    0 <= x < self.width,
                    0 <= y < ROWS,
            ;
        }
        self.tiles[y as usize * self.width + x as usize]
    }

    /// Overwrites the tile stored at row-major index `y * width + x`.
    pub fn set(&mut self, x: usize, y: usize, tile: Tile)
        requires
            y * old(self).width + x < old(self).tiles@.len(),
        ensures
            final(self).tiles@ == old(self).tiles@.update(y * old(self).width + x, tile),
            final(self).name == old(self).name,
            final(self).width == old(self).width,
            final(self).coins@ == old(self).coins@,
            final(self).enemies@ == old(self).enemies@,
            final(self).checkpoint == old(self).checkpoint,
            final(self).goal == old(self).goal,
    {
        let n = self.tiles.len();
        proof {
            assert(y * self.width <= y * self.width + x);
            assert(y * self.width + x < n);
        }
        let i = y * self.width + x;
        self.tiles.set(i, tile);
    }

    /// Adds a coin at tile `(x, y)`.
    fn add_coin(&mut self, x: usize, y: usize)
        requires
            x * TILE + 4 <= i32::MAX,
            y * TILE + 3 <= i32::MAX,
        ensures
            final(self).coins@ == old(self).coins@.push(coin_at(x as int, y as int)),
            final(self).tiles@ == old(self).tiles@,
            final(self).name == old(self).name,
            final(self).width == old(self).width,
            final(self).enemies@ == old(self).enemies@,
            final(self).checkpoint == old(self).checkpoint,
            final(self).goal == old(self).goal,
    {
        let cx = x as i32;
        let cy = y as i32;
        self.coins.push(Coin { x: cx * TILE + 4, y: cy * TILE + 3, collected: false });
    }

    /// Lays ground under every column outside the pits.
    fn lay_ground(&mut self, gaps: &[(usize, usize)])
        requires
            old(self).tiles@.len() == old(self).width * ROWS,
            0 < old(self).width,
            forall|i: int| 0 <= i < old(self).tiles@.len() ==> #[trigger] old(self).tiles@[i] == Tile::Air,
        ensures
            final(self).tiles@.len() == old(self).tiles@.len(),
            forall|i: int|
                0 <= i < final(self).tiles@.len() ==> #[trigger] final(self).tiles@[i] == ground_tile(
                    gaps@,
                    i % (old(self).width as int),
                    i / (old(self).width as int),
                ),
            final(self).name == old(self).name,
            final(self).width == old(self).width,
            final(self).coins@ == old(self).coins@,
            final(self).enemies@ == old(self).enemies@,
            final(self).checkpoint == old(self).checkpoint,
            final(self).goal == old(self).goal,
    {
        let w = self.width;
        let ghost len = self.tiles@.len();
        let mut x: usize = 0;
        while x < w
            invariant
                x <= w,
                w == self.width,
                w == old(self).width,
                0 < w,
                self.tiles@.len() == len,
                len == w * ROWS,
                self.name == old(self).name,
                self.coins@ == old(self).coins@,
                self.enemies@ == old(self).enemies@,
                self.checkpoint == old(self).checkpoint,
                self.goal == old(self).goal,
                forall|i: int|
                    0 <= i < len ==> #[trigger] self.tiles@[i] == if i % (w as int) < x {
                        ground_tile(gaps@, i % (w as int), i / (w as int))
                    } else {
                        Tile::Air
                    },
            decreases w - x,
        {
            let mut covered = false;
            let mut k: usize = 0;
            while k < gaps.len()
                invariant
                    k <= gaps@.len(),
                    covered <==> exists|j: int|
                        0 <= j < k && #[trigger] gaps@[j].0 <= x < gaps@[j].1,
                decreases gaps@.len() - k,
            {
                if gaps[k].0 <= x && x < gaps[k].1 {
                    covered = true;
                }
                k = k + 1;
            }
            let ghost before = self.tiles@;
            let mut y: usize = GROUND_ROW;
            if !covered {
                while y < ROWS
                    invariant
                        GROUND_ROW <= y <= ROWS,
                        x < w,
                        w == self.width,
                        0 < w,
                        self.tiles@.len() == len,
                        len == w * ROWS,
                        self.name == old(self).name,
                        self.coins@ == old(self).coins@,
                        self.enemies@ == old(self).enemies@,
                        self.checkpoint == old(self).checkpoint,
                        self.goal == old(self).goal,
                        forall|i: int|
                            0 <= i < len ==> #[trigger] self.tiles@[i] == if i % (w as int) == x
                                && GROUND_ROW <= i / (w as int) < y {
                                Tile::Ground
                            } else {
                                before[i]
                            },
                    decreases ROWS - y,
                {
                    self.put(x, y, Tile::Ground);
                    y = y + 1;
                }
            }
            assert forall|i: int| 0 <= i < len implies #[trigger] self.tiles@[i] == if i % (w as int)
                < x + 1 {
                ground_tile(gaps@, i % (w as int), i / (w as int))
            } else {
                Tile::Air
            } by {
                let c = i % (w as int);
                let r = i / (w as int);
                vstd::arithmetic::div_mod::lemma_fundamental_div_mod(i, w as int);
                assert(r < ROWS) by (nonlinear_arith)
                    requires
                        i == w * r + c,
                        0 <= c,
                        i < w * ROWS,
                        w > 0,
                ;
                if c == x && covered {
                    assert(in_gap(gaps@, c));
                }
                if c == x && !covered {
                    assert(!in_gap(gaps@, c));
                }
            }
            x = x + 1;
        }
    }

    /// Lays the block rows, each with its coins two rows above every other block.
    fn lay_blocks(&mut self, gaps: Ghost<Seq<(usize, usize)>>, blocks: &[(usize, usize, usize)])
        requires
            old(self).tiles@.len() == old(self).width * ROWS,
            0 < old(self).width < 10000,
            forall|k: int|
                0 <= k < blocks@.len() ==> {
                    &&& (#[trigger] blocks@[k]).0 + blocks@[k].2 <= old(self).width
                    &&& 2 <= blocks@[k].1 < ROWS
                },
            forall|i: int|
                0 <= i < old(self).tiles@.len() ==> #[trigger] old(self).tiles@[i] == ground_tile(
                    gaps@,
                    i % (old(self).width as int),
                    i / (old(self).width as int),
                ),
        ensures
            final(self).tiles@.len() == old(self).tiles@.len(),
            forall|i: int|
                0 <= i < final(self).tiles@.len() ==> #[trigger] final(self).tiles@[i] == block_tile(
                    gaps@,
                    blocks@,
                    i % (old(self).width as int),
                    i / (old(self).width as int),
                ),
            final(self).coins@ == old(self).coins@ + coins_of(block_coin_cells(blocks@)),
            final(self).name == old(self).name,
            final(self).width == old(self).width,
            final(self).enemies@ == old(self).enemies@,
            final(self).checkpoint == old(self).checkpoint,
            final(self).goal == old(self).goal,
    {
        let w = self.width;
        let ghost len = self.tiles@.len();
        let ghost coins0 = self.coins@;
        let mut k: usize = 0;
        assert(blocks@.take(0) =~= Seq::<(usize, usize, usize)>::empty());
        assert(coins0 + coins_of(block_coin_cells(blocks@.take(0))) =~= coins0);
        while k < blocks.len()
            invariant
                k <= blocks@.len(),
                w == self.width,
                w == old(self).width,
                0 < w < 10000,
                self.tiles@.len() == len,
                len == w * ROWS,
                self.name == old(self).name,
                self.enemies@ == old(self).enemies@,
                self.checkpoint == old(self).checkpoint,
                self.goal == old(self).goal,
                forall|j: int|
                    0 <= j < blocks@.len() ==> {
                        &&& (#[trigger] blocks@[j]).0 + blocks@[j].2 <= w
                        &&& 2 <= blocks@[j].1 < ROWS
                    },
                forall|i: int|
                    0 <= i < len ==> #[trigger] self.tiles@[i] == block_tile(
                        gaps@,
                        blocks@.take(k as int),
                        i % (w as int),
                        i / (w as int),
                    ),
                self.coins@ == coins0 + coins_of(block_coin_cells(blocks@.take(k as int))),
            decreases blocks@.len() - k,
        {
            let (bx, by, count) = blocks[k];
            let ghost done = blocks@.take(k as int);
            let mut n: usize = 0;
            assert(done.push((bx, by, 0usize)).drop_last() =~= done);
            assert(one_block_coins((bx, by, 0usize)) =~= Seq::<(int, int)>::empty());
            assert(coins0 + coins_of(block_coin_cells(done) + one_block_coins((bx, by, 0usize)))
                =~= coins0 + coins_of(block_coin_cells(done)));
            while n < count
                invariant
                    n <= count,
                    bx + count <= w,
                    2 <= by < ROWS,
                    w == self.width,
                    0 < w < 10000,
                    self.tiles@.len() == len,
                    len == w * ROWS,
                    self.name == old(self).name,
                    self.enemies@ == old(self).enemies@,
                    self.checkpoint == old(self).checkpoint,
                    self.goal == old(self).goal,
                    forall|i: int|
                        0 <= i < len ==> #[trigger] self.tiles@[i] == block_tile(
                            gaps@,
                            done.push((bx, by, n)),
                            i % (w as int),
                            i / (w as int),
                        ),
                    self.coins@ == coins0 + coins_of(
                        block_coin_cells(done) + one_block_coins((bx, by, n)),
                    ),
                decreases count - n,
            {
                let t = if n % 3 == 1 {
                    Tile::Question
                } else {
                    Tile::Brick
                };
                let ghost before = self.tiles@;
                self.put(bx + n, by, t);
                assert(done.push((bx, by, (n + 1) as usize)).drop_last() =~= done);
                assert(done.push((bx, by, n)).drop_last() =~= done);
                assert forall|i: int| 0 <= i < len implies #[trigger] self.tiles@[i] == block_tile(
                    gaps@,
                    done.push((bx, by, (n + 1) as usize)),
                    i % (w as int),
                    i / (w as int),
                ) by {
                    let c = i % (w as int);
                    let r = i / (w as int);
                    if !(c == bx + n && r == by) {
                        assert(before[i] == block_tile(gaps@, done.push((bx, by, n)), c, r));
                    }
                }
                let ghost coins_before = self.coins@;
                if n % 2 == 0 {
                    self.add_coin(bx + n, by - 2);
                    assert(one_block_coins((bx, by, (n + 1) as usize)) =~= one_block_coins(
                        (bx, by, n),
                    ).push((bx + n, by - 2)));
                    let ghost a = block_coin_cells(done) + one_block_coins((bx, by, n));
                    let ghost c = ((bx + n) as int, (by - 2) as int);
                    assert(block_coin_cells(done) + one_block_coins((bx, by, (n + 1) as usize))
                        =~= a.push(c));
                    assert(coins_of(a.push(c)) =~= coins_of(a).push(coin_at(c.0, c.1)));
                    assert(coins0 + coins_of(a).push(coin_at(c.0, c.1)) =~= (coins0 + coins_of(
                        a,
                    )).push(coin_at(c.0, c.1)));
                } else {
                    assert(one_block_coins((bx, by, (n + 1) as usize)) =~= one_block_coins(
                        (bx, by, n),
                    ));
                }
                n = n + 1;
            }
            assert(blocks@.take(k as int + 1) =~= done.push((bx, by, count)));
            assert(blocks@.take(k as int + 1).drop_last() =~= done);
            assert(block_coin_cells(blocks@.take(k as int + 1)) =~= block_coin_cells(done)
                + one_block_coins((bx, by, count)));
            k = k + 1;
        }
        assert(blocks@.take(blocks@.len() as int) =~= blocks@);
    }

    /// Stands the pipes on the ground row.
    fn lay_pipes(
        &mut self,
        gaps: Ghost<Seq<(usize, usize)>>,
        blocks: Ghost<Seq<(usize, usize, usize)>>,
        pipes: &[(usize, usize)],
    )
        requires
            old(self).tiles@.len() == old(self).width * ROWS,
            0 < old(self).width,
            forall|k: int|
                0 <= k < pipes@.len() ==> {
                    &&& (#[trigger] pipes@[k]).0 + 2 <= old(self).width
                    &&& pipes@[k].1 <= GROUND_ROW
                },
            forall|i: int|
                0 <= i < old(self).tiles@.len() ==> #[trigger] old(self).tiles@[i] == block_tile(
                    gaps@,
                    blocks@,
                    i % (old(self).width as int),
                    i / (old(self).width as int),
                ),
        ensures
            final(self).tiles@.len() == old(self).tiles@.len(),
            forall|i: int|
                0 <= i < final(self).tiles@.len() ==> #[trigger] final(self).tiles@[i] == pipe_tile(
                    gaps@,
                    blocks@,
                    pipes@,
                    i % (old(self).width as int),
                    i / (old(self).width as int),
                ),
            final(self).name == old(self).name,
            final(self).width == old(self).width,
            final(self).coins@ == old(self).coins@,
            final(self).enemies@ == old(self).enemies@,
            final(self).checkpoint == old(self).checkpoint,
            final(self).goal == old(self).goal,
    {
        let w = self.width;
        let ghost len = self.tiles@.len();
        let mut k: usize = 0;
        assert(pipes@.take(0) =~= Seq::<(usize, usize)>::empty());
        while k < pipes.len()
            invariant
                k <= pipes@.len(),
                w == self.width,
                w == old(self).width,
                0 < w,
                self.tiles@.len() == len,
                len == w * ROWS,
                self.name == old(self).name,
                self.coins@ == old(self).coins@,
                self.enemies@ == old(self).enemies@,
                self.checkpoint == old(self).checkpoint,
                self.goal == old(self).goal,
                forall|j: int|
                    0 <= j < pipes@.len() ==> {
                        &&& (#[trigger] pipes@[j]).0 + 2 <= w
                        &&& pipes@[j].1 <= GROUND_ROW
                    },
                forall|i: int|
                    0 <= i < len ==> #[trigger] self.tiles@[i] == pipe_tile(
                        gaps@,
                        blocks@,
                        pipes@.take(k as int),
                        i % (w as int),
                        i / (w as int),
                    ),
            decreases pipes@.len() - k,
        {
            let (px, height) = pipes[k];
            let ghost done = pipes@.take(k as int);
            let top = GROUND_ROW - height;
            let mut y = top;
            while y < GROUND_ROW
                invariant
                    top <= y <= GROUND_ROW,
                    top == GROUND_ROW - height,
                    px + 2 <= w,
                    w == self.width,
                    0 < w,
                    self.tiles@.len() == len,
                    len == w * ROWS,
                    self.name == old(self).name,
                    self.coins@ == old(self).coins@,
                    self.enemies@ == old(self).enemies@,
                    self.checkpoint == old(self).checkpoint,
                    self.goal == old(self).goal,
                    forall|i: int|
                        0 <= i < len ==> #[trigger] self.tiles@[i] == if top <= i / (w as int) < y
                            && i % (w as int) == px {
                            Tile::PipeLeft
                        } else if top <= i / (w as int) < y && i % (w as int) == px + 1 {
                            Tile::PipeRight
                        } else {
                            pipe_tile(gaps@, blocks@, done, i % (w as int), i / (w as int))
                        },
                decreases GROUND_ROW - y,
            {
                self.put(px, y, Tile::PipeLeft);
                self.put(px + 1, y, Tile::PipeRight);
                y = y + 1;
            }
            assert(pipes@.take(k as int + 1) =~= done.push((px, height)));
            assert(pipes@.take(k as int + 1).drop_last() =~= done);
            k = k + 1;
        }
        assert(pipes@.take(pipes@.len() as int) =~= pipes@);
    }

    /// Builds the staircase before the exit.
    fn lay_stairs(
        &mut self,
        gaps: Ghost<Seq<(usize, usize)>>,
        blocks: Ghost<Seq<(usize, usize, usize)>>,
        pipes: Ghost<Seq<(usize, usize)>>,
    )
        requires
            old(self).tiles@.len() == old(self).width * ROWS,
            16 <= old(self).width,
            forall|i: int|
                0 <= i < old(self).tiles@.len() ==> #[trigger] old(self).tiles@[i] == pipe_tile(
                    gaps@,
                    blocks@,
                    pipes@,
                    i % (old(self).width as int),
                    i / (old(self).width as int),
                ),
        ensures
            final(self).tiles@.len() == old(self).tiles@.len(),
            forall|i: int|
                0 <= i < final(self).tiles@.len() ==> #[trigger] final(self).tiles@[i] == if in_stairs(
                    old(self).width as int,
                    i % (old(self).width as int),
                    i / (old(self).width as int),
                ) {
                    Tile::Stone
                } else {
                    pipe_tile(
                        gaps@,
                        blocks@,
                        pipes@,
                        i % (old(self).width as int),
                        i / (old(self).width as int),
                    )
                },
            final(self).name == old(self).name,
            final(self).width == old(self).width,
            final(self).coins@ == old(self).coins@,
            final(self).enemies@ == old(self).enemies@,
            final(self).checkpoint == old(self).checkpoint,
            final(self).goal == old(self).goal,
    {
        let w = self.width;
        let ghost len = self.tiles@.len();
        let ghost wi = w as int;
        let mut n: usize = 0;
        while n < 4
            invariant
                n <= 4,
                w == self.width,
                w == old(self).width,
                wi == w,
                16 <= w,
                self.tiles@.len() == len,
                len == w * ROWS,
                self.name == old(self).name,
                self.coins@ == old(self).coins@,
                self.enemies@ == old(self).enemies@,
                self.checkpoint == old(self).checkpoint,
                self.goal == old(self).goal,
                forall|i: int|
                    0 <= i < len ==> #[trigger] self.tiles@[i] == if in_stairs(wi, i % wi, i / wi)
                        && i % wi - (wi - 16) < n {
                        Tile::Stone
                    } else {
                        pipe_tile(gaps@, blocks@, pipes@, i % wi, i / wi)
                    },
            decreases 4 - n,
        {
            let x = w - 16 + n;
            let mut y = GROUND_ROW - n;
            while y < GROUND_ROW
                invariant
                    GROUND_ROW - n <= y <= GROUND_ROW,
                    n < 4,
                    x == w - 16 + n,
                    w == self.width,
                    wi == w,
                    16 <= w,
                    self.tiles@.len() == len,
                    len == w * ROWS,
                    self.name == old(self).name,
                    self.coins@ == old(self).coins@,
                    self.enemies@ == old(self).enemies@,
                    self.checkpoint == old(self).checkpoint,
                    self.goal == old(self).goal,
                    forall|i: int|
                        0 <= i < len ==> #[trigger] self.tiles@[i] == if (in_stairs(wi, i % wi, i / wi)
                            && i % wi - (wi - 16) < n) || (i % wi == x && GROUND_ROW - n <= i / wi
                            < y) {
                            Tile::Stone
                        } else {
                            pipe_tile(gaps@, blocks@, pipes@, i % wi, i / wi)
                        },
                decreases GROUND_ROW - y,
            {
                self.put(x, y, Tile::Stone);
                y = y + 1;
            }
            n = n + 1;
        }
    }

    /// Lays the arc of coins over every pit.
    fn lay_gap_coins(&mut self, gaps: &[(usize, usize)])
        requires
            forall|k: int|
                0 <= k < gaps@.len() ==> (#[trigger] gaps@[k]).0 <= gaps@[k].1 < 10000,
        ensures
            final(self).coins@ == old(self).coins@ + coins_of(gap_coin_cells(gaps@)),
            final(self).tiles@ == old(self).tiles@,
            final(self).name == old(self).name,
            final(self).width == old(self).width,
            final(self).enemies@ == old(self).enemies@,
            final(self).checkpoint == old(self).checkpoint,
            final(self).goal == old(self).goal,
    {
        let ghost coins0 = self.coins@;
        let mut k: usize = 0;
        assert(gaps@.take(0) =~= Seq::<(usize, usize)>::empty());
        assert(coins0 + coins_of(gap_coin_cells(gaps@.take(0))) =~= coins0);
        while k < gaps.len()
            invariant
                k <= gaps@.len(),
                forall|j: int| 0 <= j < gaps@.len() ==> (#[trigger] gaps@[j]).0 <= gaps@[j].1 < 10000,
                self.coins@ == coins0 + coins_of(gap_coin_cells(gaps@.take(k as int))),
                self.tiles@ == old(self).tiles@,
                self.name == old(self).name,
                self.width == old(self).width,
                self.enemies@ == old(self).enemies@,
                self.checkpoint == old(self).checkpoint,
                self.goal == old(self).goal,
            decreases gaps@.len() - k,
        {
            let (start, end) = gaps[k];
            let ghost done = gaps@.take(k as int);
            let ghost arc = one_gap_coins((start, end));
            let first = if start >= 1 {
                start - 1
            } else {
                0
            };
            let mut x = first;
            assert(arc.take(0) =~= Seq::<(int, int)>::empty());
            assert(gap_coin_cells(done) + arc.take(0) =~= gap_coin_cells(done));
            while x <= end
                invariant
                    first <= x <= end + 1,
                    first == (if start >= 1 {
                        start - 1
                    } else {
                        0
                    }),
                    start <= end < 10000,
                    arc == one_gap_coins((start, end)),
                    self.coins@ == coins0 + coins_of(gap_coin_cells(done) + arc.take(x - first)),
                    self.tiles@ == old(self).tiles@,
                    self.name == old(self).name,
                    self.width == old(self).width,
                    self.enemies@ == old(self).enemies@,
                    self.checkpoint == old(self).checkpoint,
                    self.goal == old(self).goal,
                decreases end + 1 - x,
            {
                let row = if x >= start && x < end {
                    8
                } else {
                    9
                };
                self.add_coin(x, row);
                let ghost a = gap_coin_cells(done) + arc.take(x - first);
                let ghost c = (x as int, row as int);
                assert(arc[x - first] == c);
                assert(arc.take(x - first + 1) =~= arc.take(x - first).push(c));
                assert(gap_coin_cells(done) + arc.take(x - first + 1) =~= a.push(c));
                assert(coins_of(a.push(c)) =~= coins_of(a).push(coin_at(c.0, c.1)));
                assert(coins0 + coins_of(a).push(coin_at(c.0, c.1)) =~= (coins0 + coins_of(a)).push(
                    coin_at(c.0, c.1),
                ));
                x = x + 1;
            }
            assert(arc.take(x - first) =~= arc);
            assert(gaps@.take(k as int + 1) =~= done.push((start, end)));
            assert(gaps@.take(k as int + 1).drop_last() =~= done);
            assert(gap_coin_cells(gaps@.take(k as int + 1)) =~= gap_coin_cells(done) + arc);
            k = k + 1;
        }
        assert(gaps@.take(gaps@.len() as int) =~= gaps@);
    }

    /// Adds the coins above the start and before the checkpoint.
    fn lay_extra_coins(&mut self)
        ensures
            final(self).coins@ == old(self).coins@ + coins_of(extra_coin_cells()),
            final(self).tiles@ == old(self).tiles@,
            final(self).name == old(self).name,
            final(self).width == old(self).width,
            final(self).enemies@ == old(self).enemies@,
            final(self).checkpoint == old(self).checkpoint,
            final(self).goal == old(self).goal,
    {
        let columns: &[usize] = &[7, 8, 9, 70, 71, 72];
        assert(columns@ == extra_coin_table());
        let ghost coins0 = self.coins@;
        let mut k: usize = 0;
        assert(coins0 + coins_of(extra_coin_cells().take(0)) =~= coins0);
        while k < columns.len()
            invariant
                k <= columns@.len(),
                columns@ == extra_coin_table(),
                self.coins@ == coins0 + coins_of(extra_coin_cells().take(k as int)),
                self.tiles@ == old(self).tiles@,
                self.name == old(self).name,
                self.width == old(self).width,
                self.enemies@ == old(self).enemies@,
                self.checkpoint == old(self).checkpoint,
                self.goal == old(self).goal,
            decreases columns@.len() - k,
        {
            self.add_coin(columns[k], 10);
            let ghost a = extra_coin_cells().take(k as int);
            let ghost c = (columns@[k as int] as int, 10int);
            assert(extra_coin_cells().take(k as int + 1) =~= a.push(c));
            assert(coins_of(a.push(c)) =~= coins_of(a).push(coin_at(c.0, c.1)));
            assert(coins0 + coins_of(a).push(coin_at(c.0, c.1)) =~= (coins0 + coins_of(a)).push(
                coin_at(c.0, c.1),
            ));
            k = k + 1;
        }
        assert(extra_coin_cells().take(6) =~= extra_coin_cells());
    }

    /// Places an enemy on top of the solid column at each of `columns`.
    fn place_enemies(&mut self, stage: Ghost<int>, columns: &[usize])
        requires
            old(self).wf(),
            old(self).width < 10000,
            forall|x: int, y: int| #[trigger] old(self).cell(x, y) == layout_tile(stage@, x, y),
            forall|k: int| 0 <= k < columns@.len() ==> #[trigger] columns@[k] < old(self).width,
        ensures
            final(self).enemies@ == old(self).enemies@ + spawns_of(stage@, columns@),
            final(self).tiles@ == old(self).tiles@,
            final(self).coins@ == old(self).coins@,
            final(self).name == old(self).name,
            final(self).width == old(self).width,
            final(self).checkpoint == old(self).checkpoint,
            final(self).goal == old(self).goal,
    {
        let ghost enemies0 = self.enemies@;
        let mut k: usize = 0;
        assert(enemies0 + spawns_of(stage@, columns@.take(0)) =~= enemies0);
        while k < columns.len()
            invariant
                k <= columns@.len(),
                self.wf(),
                self.width < 10000,
                forall|x: int, y: int| #[trigger] self.cell(x, y) == layout_tile(stage@, x, y),
                forall|j: int| 0 <= j < columns@.len() ==> #[trigger] columns@[j] < self.width,
                self.enemies@ == enemies0 + spawns_of(stage@, columns@.take(k as int)),
                self.tiles@ == old(self).tiles@,
                self.coins@ == old(self).coins@,
                self.name == old(self).name,
                self.width == old(self).width,
                self.checkpoint == old(self).checkpoint,
                self.goal == old(self).goal,
            decreases columns@.len() - k,
        {
            let x = columns[k];
            assert(x < self.width);
            let mut surface: i32 = GROUND_ROW as i32;
            while self.tile(x as i32, surface - 1) != Tile::Air
                invariant
                    0 <= surface <= GROUND_ROW,
                    x < self.width < 10000,
                    self.wf(),
                    forall|x: int, y: int| #[trigger] self.cell(x, y) == layout_tile(stage@, x, y),
                    surface_from(stage@, x as int, GROUND_ROW as nat) == surface_from(
                        stage@,
                        x as int,
                        surface as nat,
                    ),
                decreases surface,
            {
                surface = surface - 1;
            }
            let ghost s = surface as nat;
            assert(surface_from(stage@, x as int, s) == s);
            let xi = x as i32;
            let enemy = Enemy::new(xi * TILE, surface * TILE - ENEMY_H);
            let ghost before = *self;
            self.enemies.push(enemy);
            assert forall|x: int, y: int| #[trigger] self.cell(x, y) == layout_tile(stage@, x, y) by {
                assert(self.cell(x, y) == before.cell(x, y));
            }
            let ghost a = spawns_of(stage@, columns@.take(k as int));
            assert(enemy == spawn_at(stage@, x as int));
            assert(spawns_of(stage@, columns@.take(k as int + 1)) =~= a.push(enemy));
            assert(enemies0 + a.push(enemy) =~= (enemies0 + a).push(enemy));
            k = k + 1;
        }
        assert(columns@.take(columns@.len() as int) =~= columns@);
    }

    /// Builds stage `stage`; every stage past the second is the third stage.
    pub fn new(stage: usize) -> (level: Level)
        ensures
            level.is_stage(stage as int),
    {
        proof {
            lemma_tables_fit(stage as int);
        }
        let name = stage_name_of(stage);
        let width = width_of(stage);
        let gaps = gaps_of(stage);
        let blocks = blocks_of(stage);
        let pipes = pipes_of(stage);
        let columns = enemies_of(stage);
        let mut tiles: Vec<Tile> = Vec::new();
        let count = width * ROWS;
        while tiles.len() < count
            invariant
                tiles@.len() <= count,
                forall|i: int| 0 <= i < tiles@.len() ==> #[trigger] tiles@[i] == Tile::Air,
            decreases count - tiles@.len(),
        {
            tiles.push(Tile::Air);
        }
        let mut level = Level {
            name,
            width,
            tiles,
            coins: Vec::new(),
            enemies: Vec::new(),
            checkpoint: (CHECKPOINT_COLUMN * TILE, GROUND_ROW as i32 * TILE - PLAYER_H),
            goal: (width as i32 - 10) * TILE,
        };
        level.lay_ground(gaps);
        level.lay_blocks(Ghost(gaps@), blocks);
        level.lay_pipes(Ghost(gaps@), Ghost(blocks@), pipes);
        level.lay_gap_coins(gaps);
        level.lay_extra_coins();
        level.lay_stairs(Ghost(gaps@), Ghost(blocks@), Ghost(pipes@));
        let ghost w = width as int;
        assert forall|x: int, y: int| #[trigger] level.cell(x, y) == layout_tile(stage as int, x, y) by {
            if 0 <= x < w && 0 <= y < ROWS {
                let i = y * w + x;
                assert(0 <= i < w * ROWS) by (nonlinear_arith)
                    requires
                        0 <= x < w,
                        0 <= y < ROWS,
                        i == y * w + x,
                ;
                lemma_cell_index(i, w, x, y);
            }
        }
        assert(Seq::<Coin>::empty() + coins_of(block_coin_cells(blocks@)) + coins_of(
            gap_coin_cells(gaps@),
        ) + coins_of(extra_coin_cells()) =~= coins_of(coin_cells(stage as int)));
        let ghost laid = level;
        level.place_enemies(Ghost(stage as int), columns);
        assert forall|x: int, y: int| #[trigger] level.cell(x, y) == layout_tile(stage as int, x, y) by {
            assert(level.cell(x, y) == laid.cell(x, y));
        }
        assert(Seq::<Enemy>::empty() + spawns_of(stage as int, columns@) =~= spawns_of(
            stage as int,
            enemy_table(stage as int),
        ));
        level
    }

    /// `cells` lists, row by row, every tile other than air whose column lies
    /// in `x0..=x1` and whose row lies in `y0..=y1`, and nothing else.
    pub open spec fn lists_solids(&self, cells: Seq<(i32, i32)>, x0: int, x1: int, y0: int, y1: int) -> bool {
        &&& forall|i: int|
            0 <= i < cells.len() ==> {
                &&& x0 <= (#[trigger] cells[i]).0 <= x1
                &&& y0 <= cells[i].1 <= y1
                &&& self.cell(cells[i].0 as int, cells[i].1 as int) != Tile::Air
            }
        &&& forall|cx: i32, cy: i32|
            x0 <= cx <= x1 && y0 <= cy <= y1 && #[trigger] self.cell(cx as int, cy as int) != Tile::Air
                ==> cells.contains((cx, cy))
        &&& reading_order(cells)
    }

    /// `lists_solids` names one list: two lists of the same tiles are equal.
    pub proof fn lemma_lists_solids_unique(
        &self,
        a: Seq<(i32, i32)>,
        b: Seq<(i32, i32)>,
        x0: int,
        x1: int,
        y0: int,
        y1: int,
    )
        requires
            self.lists_solids(a, x0, x1, y0, y1),
            self.lists_solids(b, x0, x1, y0, y1),
        ensures
            a == b,
    {
        assert forall|p: (i32, i32)| a.contains(p) <==> b.contains(p) by {
            if a.contains(p) {
                let i = choose|i: int| 0 <= i < a.len() && a[i] == p;
                assert(x0 <= a[i].0 <= x1);
                assert(self.cell(p.0 as int, p.1 as int) != Tile::Air);
            }
            if b.contains(p) {
                let i = choose|i: int| 0 <= i < b.len() && b[i] == p;
                assert(x0 <= b[i].0 <= x1);
                assert(self.cell(p.0 as int, p.1 as int) != Tile::Air);
            }
        }
        lemma_reading_order_unique(a, b);
    }

    /// The tiles other than air in columns `x0..=x1` and rows `y0..=y1`, row by row.
    pub fn solids_in(&self, x0: i32, x1: i32, y0: i32, y1: i32) -> (cells: Vec<(i32, i32)>)
        requires
            self.wf(),
        ensures
            self.lists_solids(cells@, x0 as int, x1 as int, y0 as int, y1 as int),
    {
        let mut cells: Vec<(i32, i32)> = Vec::new();
        let last_col = (self.width - 1) as i32;
        let ylo = if y0 > 0 { y0 } else { 0 };
        let yhi = if y1 < ROWS as i32 - 1 { y1 } else { ROWS as i32 - 1 };
        let xlo = if x0 > 0 { x0 } else { 0 };
        let xhi = if x1 < last_col { x1 } else { last_col };
        let mut y = ylo;
        while y <= yhi
            invariant
                self.wf(),
                last_col == self.width - 1,
                0 <= ylo <= y,
                y <= yhi + 1 || y == ylo,
                yhi < ROWS,
                ylo == (if y0 > 0 { y0 } else { 0 }),
                yhi == (if (y1 as int) < ROWS - 1 { y1 as int } else { ROWS - 1 }),
                xlo == (if x0 > 0 { x0 } else { 0 }),
                xhi == (if x1 < last_col { x1 } else { last_col }),
                forall|i: int|
                    0 <= i < cells@.len() ==> {
                        &&& x0 <= (#[trigger] cells@[i]).0 <= x1
                        &&& y0 <= cells@[i].1 <= y1
                        &&& cells@[i].1 < y
                        &&& self.cell(cells@[i].0 as int, cells@[i].1 as int) != Tile::Air
                    },
                forall|cx: i32, cy: i32|
                    x0 <= cx <= x1 && y0 <= cy < y && #[trigger] self.cell(cx as int, cy as int)
                        != Tile::Air ==> cells@.contains((cx, cy)),
                forall|i: int, j: int| 0 <= i < j < cells@.len() ==> reads_before(cells@[i], cells@[j]),
            decreases yhi + 1 - y,
        {
            let mut x = xlo;
            while x <= xhi
                invariant
                    self.wf(),
                    last_col == self.width - 1,
                    0 <= ylo <= y <= yhi,
                    yhi < ROWS,
                    ylo == (if y0 > 0 { y0 } else { 0 }),
                    yhi == (if (y1 as int) < ROWS - 1 { y1 as int } else { ROWS - 1 }),
                    xlo == (if x0 > 0 { x0 } else { 0 }),
                    xhi == (if x1 < last_col { x1 } else { last_col }),
                    0 <= xlo <= x,
                    x <= xhi + 1 || xlo > xhi,
                    x == xlo || x <= xhi + 1,
                    forall|i: int|
                        0 <= i < cells@.len() ==> {
                            &&& x0 <= (#[trigger] cells@[i]).0 <= x1
                            &&& y0 <= cells@[i].1 <= y1
                            &&& (cells@[i].1 < y || (cells@[i].1 == y && cells@[i].0 < x))
                            &&& self.cell(cells@[i].0 as int, cells@[i].1 as int) != Tile::Air
                        },
                    forall|cx: i32, cy: i32|
                        x0 <= cx <= x1 && y0 <= cy <= y1 && (cy < y || (cy == y && cx < x))
                            && #[trigger] self.cell(cx as int, cy as int) != Tile::Air
                            ==> cells@.contains((cx, cy)),
                    forall|i: int, j: int|
                        0 <= i < j < cells@.len() ==> reads_before(cells@[i], cells@[j]),
                decreases xhi + 1 - x,
            {
                if self.tile(x, y) != Tile::Air {
                    let ghost before = cells@;
                    cells.push((x, y));
                    assert forall|cx: i32, cy: i32|
                        x0 <= cx <= x1 && y0 <= cy <= y1 && (cy < y || (cy == y && cx < x + 1))
                            && #[trigger] self.cell(cx as int, cy as int) != Tile::Air implies cells@.contains(
                        (cx, cy),
                    ) by {
                        if cy == y && cx == x {
                            assert(cells@[before.len() as int] == (cx, cy));
                        } else {
                            assert(before.contains((cx, cy)));
                            let k = choose|k: int| 0 <= k < before.len() && before[k] == (cx, cy);
                            assert(cells@[k] == (cx, cy));
                        }
                    }
                }
                x = x + 1;
            }
            y = y + 1;
        }
        cells
    }

    /// The tiles other than air that the box `rect` overlaps, row by row, with
    /// the box of each.
    pub fn solids(&self, rect: Rect) -> (found: Vec<(i32, i32, Rect)>)
        requires
            self.wf(),
        ensures
            self.lists_solids(
                Seq::new(found@.len(), |i: int| (found@[i].0, found@[i].1)),
                (rect.x as int) / (TILE as int),
                (rect.x + rect.w - 1) / (TILE as int),
                (rect.y as int) / (TILE as int),
                (rect.y + rect.h - 1) / (TILE as int),
            ),
            forall|i: int|
                0 <= i < found@.len() ==> (#[trigger] found@[i]).2 == tile_rect(
                    found@[i].0 as int,
                    found@[i].1 as int,
                ),
    {
        let x0 = floor_div(rect.x as i64, TILE as i64) as i32;
        let x1 = floor_div(rect.x as i64 + rect.w as i64 - 1, TILE as i64) as i32;
        let y0 = floor_div(rect.y as i64, TILE as i64) as i32;
        let y1 = floor_div(rect.y as i64 + rect.h as i64 - 1, TILE as i64) as i32;
        let cells = self.solids_in(x0, x1, y0, y1);
        let mut found: Vec<(i32, i32, Rect)> = Vec::new();
        let mut k: usize = 0;
        while k < cells.len()
            invariant
                self.wf(),
                k <= cells@.len(),
                found@.len() == k,
                forall|i: int| 0 <= i < cells@.len() ==> self.cell(
                    (#[trigger] cells@[i]).0 as int,
                    cells@[i].1 as int,
                ) != Tile::Air,
                forall|i: int|
                    0 <= i < k ==> (#[trigger] found@[i]).0 == cells@[i].0 && found@[i].1 == cells@[i].1
                        && found@[i].2 == tile_rect(found@[i].0 as int, found@[i].1 as int),
            decreases cells@.len() - k,
        {
            let (cx, cy) = cells[k];
            assert(self.cell(cx as int, cy as int) != Tile::Air);
            assert((cx as int) * (TILE as int) <= (self.width as int) * (TILE as int)) by (nonlinear_arith)
                requires
                    0 <= cx < self.width,
            ;
            found.push((cx, cy, Rect { x: cx * TILE, y: cy * TILE, w: TILE, h: TILE }));
            k = k + 1;
        }
        assert(Seq::new(found@.len(), |i: int| (found@[i].0, found@[i].1)) =~= cells@);
        found
    }

    /// Overwrites the tile at column `x`, row `y` of the grid.
    fn put(&mut self, x: usize, y: usize, tile: Tile)
        requires
            old(self).tiles@.len() == old(self).width * ROWS,
            x < old(self).width,
            y < ROWS,
        ensures
            final(self).tiles@.len() == old(self).tiles@.len(),
            forall|i: int|
                0 <= i < final(self).tiles@.len() ==> #[trigger] final(self).tiles@[i] == if i
                    % (old(self).width as int) == x && i / (old(self).width as int) == y {
                    tile
                } else {
                    old(self).tiles@[i]
                },
            final(self).name == old(self).name,
            final(self).width == old(self).width,
            final(self).coins@ == old(self).coins@,
            final(self).enemies@ == old(self).enemies@,
            final(self).checkpoint == old(self).checkpoint,
            final(self).goal == old(self).goal,
    {
        let ghost w = self.width as int;
        proof {
            assert((y as int) * w + (x as int) < w * ROWS) by (nonlinear_arith)
                requires
                    0 <= x < w,
                    0 <= y < ROWS,
            ;
        }
        self.set(x, y, tile);
        proof {
            assert forall|i: int| 0 <= i < self.tiles@.len() implies #[trigger] self.tiles@[i] == if i
                % w == x && i / w == y {
                tile
            } else {
                old(self).tiles@[i]
            } by {
                lemma_cell_index(i, w, x as int, y as int);
            }
        }
    }
}

} // verus!
