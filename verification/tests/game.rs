use dario::game::{Game, START_X, START_Y};
use dario::progress::Progress;
use dario::world::{Phase, SoundEvent, Tile};

#[test]
fn a_new_game_waits_on_the_title() {
    let game = Game::new();
    assert_eq!(game.phase, Phase::Title);
    assert_eq!((game.stage, game.coins, game.score, game.lives), (0, 0, 0, 3));
    assert!(!game.checkpoint);
    assert_eq!(game.progress, Progress::default());
}

#[test]
fn campaign_progress_survives_retries_and_continues_at_the_next_level() {
    let mut game = Game::new();
    game.start();
    assert_eq!((game.stage, game.phase), (0, Phase::Playing));
    game.reach_goal();
    assert!(game.progress.levels[0].cleared);
    let mut reopened = Game::new();
    reopened.progress = game.progress;
    reopened.start();
    assert_eq!(reopened.stage, 1);
    assert!(!reopened.start_stage(2), "locked levels cannot start");
    assert_eq!(reopened.stage, 1);
    assert!(reopened.start_stage(0));
    assert_eq!(reopened.stage, 0);
    assert!(reopened.progress.levels[0].cleared);
    assert!(!reopened.start_stage(3));
}

#[test]
fn all_three_exits_advance_to_victory() {
    let mut game = Game::new();
    game.start();
    for stage in 0..3 {
        assert_eq!(game.stage, stage);
        game.reach_goal();
        assert_eq!(game.phase, Phase::StageClear);
        let advanced = game.finish_clear();
        assert_eq!(advanced, stage < 2);
    }
    assert_eq!(game.phase, Phase::Won);
    assert_eq!(game.score, 3000);
    assert_eq!(game.progress.unlocked(), 3);
}

#[test]
fn pause_freezes_simulation_and_restart_resets_campaign() {
    let mut game = Game::new();
    game.start();
    assert!(game.simulates());
    game.toggle_pause();
    assert_eq!(game.phase, Phase::Paused);
    assert!(!game.simulates());
    assert!(!game.clock_runs());
    game.toggle_pause();
    assert!(game.clock_runs());
    assert_eq!(game.phase, Phase::Playing);
    game.coins = 40;
    game.lives = 0;
    game.start();
    assert_eq!((game.coins, game.lives, game.stage), (0, 3, 0));
    assert_eq!(game.phase, Phase::Playing);
    let mut title = Game::new();
    title.toggle_pause();
    assert_eq!(title.phase, Phase::Title);
}

#[test]
fn checkpoint_respawn_preserves_collected_coins() {
    let mut game = Game::new();
    game.start();
    assert!(game.reach_checkpoint());
    assert!(!game.reach_checkpoint());
    game.coins = 12;
    assert!(game.die());
    assert!(!game.die());
    assert_eq!(game.phase, Phase::Dying);
    assert_eq!(game.lives, 2);
    let spawn = game.finish_dying();
    assert_eq!(spawn, Some(game.level.checkpoint));
    assert_eq!(game.phase, Phase::Playing);
    assert_eq!(game.coins, 12);
    assert_eq!(
        game.sounds,
        vec![SoundEvent::Checkpoint, SoundEvent::Hurt]
    );
}

#[test]
fn the_last_life_ends_the_run_and_an_early_death_respawns_at_the_start() {
    let mut game = Game::new();
    game.start();
    game.die();
    assert_eq!(game.finish_dying(), Some((START_X, START_Y)));
    game.lives = 1;
    game.die();
    assert_eq!(game.lives, 0);
    assert_eq!(game.finish_dying(), None);
    assert_eq!(game.phase, Phase::GameOver);
}

#[test]
fn coin_blocks_pay_once_and_stop_upward_motion() {
    let mut game = Game::new();
    game.start();
    assert!(game.bump(13, 9));
    assert_eq!(game.level.tile(13, 9), Tile::Used);
    assert_eq!((game.coins, game.score), (1, 100));
    assert!(game.bump(13, 9));
    assert_eq!((game.coins, game.score), (1, 100));
    assert!(game.bump(12, 9));
    assert!(!game.bump(13, 8));
    assert_eq!(
        game.sounds,
        vec![SoundEvent::Coin, SoundEvent::Bump, SoundEvent::Bump]
    );
}

#[test]
fn coins_are_taken_once_and_stomps_score() {
    let mut game = Game::new();
    game.start();
    assert!(game.collect_coin(0));
    assert!(!game.collect_coin(0));
    assert!(game.level.coins[0].collected);
    game.stomp();
    assert_eq!((game.coins, game.score), (1, 300));
}

#[test]
fn the_level_picker_stays_within_the_campaign() {
    let mut game = Game::new();
    game.select_levels();
    assert_eq!((game.phase, game.selected_stage), (Phase::LevelSelect, 0));
    game.select_relative(-1);
    assert_eq!(game.selected_stage, 0);
    game.select_relative(isize::MAX);
    assert_eq!(game.selected_stage, 2);
    game.select_relative(isize::MIN);
    assert_eq!(game.selected_stage, 0);
    game.select_relative(1);
    assert_eq!(game.selected_stage, 1);
}

#[test]
fn stomping_bounces_but_side_contact_costs_a_life() {
    let mut game = Game::new();
    game.start();
    game.stomp();
    assert_eq!(game.score, 200);
    assert_eq!(game.sounds, vec![SoundEvent::Stomp]);
    assert!(game.die());
    assert_eq!(game.phase, Phase::Dying);
    assert_eq!(game.lives, 2);
}
