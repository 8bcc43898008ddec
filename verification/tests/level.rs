use dario::level::{Coin, Enemy, Level};
use dario::world::{Rect, Tile, TILE};

#[test]
fn each_level_has_safe_spawn_checkpoint_and_exit() {
    for stage in 0..3 {
        let level = Level::new(stage);
        for x in [3, 4, 74, (level.goal / TILE) as i32] {
            assert_ne!(level.tile(x, 12), Tile::Air);
            assert_eq!(level.tile(x, 11), Tile::Air);
        }
        for enemy in &level.enemies {
            assert!(
                level.solids(enemy.rect()).is_empty(),
                "enemy spawned inside terrain in stage {stage}"
            );
        }
    }
}

#[test]
fn first_stage_layout() {
    let level = Level::new(0);
    assert_eq!(level.name, "SUNNY SIDE UP");
    assert_eq!(level.width, 150);
    assert_eq!(level.tiles.len(), 150 * 15);
    assert_eq!(level.checkpoint, (74 * 16, 12 * 16 - 17));
    assert_eq!(level.goal, 140 * 16);
    // The first block row: brick, question, brick, brick, question.
    let row: Vec<Tile> = (12..17).map(|x| level.tile(x, 9)).collect();
    assert_eq!(
        row,
        vec![Tile::Brick, Tile::Question, Tile::Brick, Tile::Brick, Tile::Question]
    );
    // A pit has no ground; its edges do.
    assert_eq!(level.tile(29, 12), Tile::Air);
    assert_eq!(level.tile(30, 14), Tile::Air);
    assert_eq!(level.tile(28, 12), Tile::Ground);
    assert_eq!(level.tile(31, 13), Tile::Ground);
    // The first pipe, two tall.
    assert_eq!(level.tile(19, 10), Tile::PipeLeft);
    assert_eq!(level.tile(20, 11), Tile::PipeRight);
    assert_eq!(level.tile(19, 9), Tile::Air);
    // The staircase before the exit.
    assert_eq!(level.tile(134, 11), Tile::Air);
    assert_eq!(level.tile(135, 11), Tile::Stone);
    assert_eq!(level.tile(137, 9), Tile::Stone);
    assert_eq!(level.tile(137, 8), Tile::Air);
    // Outside the grid everything is air.
    assert_eq!(level.tile(-1, 13), Tile::Air);
    assert_eq!(level.tile(150, 13), Tile::Air);
    assert_eq!(level.tile(5, 15), Tile::Air);
}

#[test]
fn first_stage_coins_and_enemies() {
    let level = Level::new(0);
    assert_eq!(level.coins.len(), 17 + 19 + 6);
    assert_eq!(level.coins[0], Coin { x: 12 * 16 + 4, y: 7 * 16 + 3, collected: false });
    assert_eq!(level.coins[2], Coin { x: 16 * 16 + 4, y: 7 * 16 + 3, collected: false });
    let last = level.coins[level.coins.len() - 1];
    assert_eq!(last, Coin { x: 72 * 16 + 4, y: 10 * 16 + 3, collected: false });
    assert_eq!(level.enemies.len(), 7);
    assert_eq!(level.enemies[0], Enemy::new(23 * 16, 12 * 16 - 12));
    assert_eq!(level.enemies[0].rect(), Rect { x: 368, y: 180, w: 14, h: 12 });
}

#[test]
fn later_stages_share_the_third_layout() {
    let a = Level::new(2);
    let b = Level::new(7);
    assert_eq!(a.name, "ONE MORE SUNSET");
    assert_eq!(a.width, 178);
    assert_eq!(a.tiles, b.tiles);
    assert_eq!(a.coins, b.coins);
    assert_eq!(a.enemies, b.enemies);
    assert_eq!(Level::new(1).name, "THE GOLDEN HOUR");
}

#[test]
fn solids_lists_overlapped_terrain_row_by_row() {
    let level = Level::new(0);
    // A box straddling the ground at columns 27..28, rows 11..12.
    let found = level.solids(Rect { x: 27 * 16 + 3, y: 11 * 16 + 8, w: 20, h: 12 });
    let cells: Vec<(i32, i32)> = found.iter().map(|(x, y, _)| (*x, *y)).collect();
    assert_eq!(cells, vec![(27, 12), (28, 12)]);
    assert_eq!(found[0].2, Rect { x: 27 * 16, y: 12 * 16, w: 16, h: 16 });
    // A box ending exactly on a tile edge does not reach into the next tile.
    assert!(level.solids(Rect { x: 0, y: 12 * 16 - 17, w: 12, h: 17 }).is_empty());
    // Boxes above or left of the grid find nothing.
    assert!(level.solids(Rect { x: -40, y: -40, w: 30, h: 30 }).is_empty());
    // The tile-range query clamps to the grid.
    assert_eq!(level.solids_in(-5, 1, 14, 20), vec![(0, 14), (1, 14)]);
}

#[test]
fn set_overwrites_one_tile() {
    let mut level = Level::new(0);
    level.set(13, 9, Tile::Used);
    assert_eq!(level.tile(13, 9), Tile::Used);
    assert_eq!(level.tile(12, 9), Tile::Brick);
}
