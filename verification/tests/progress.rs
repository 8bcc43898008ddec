use dario::progress::{DecodeError, Progress, Record, LEVEL_COUNT, MAX_SAVE_BYTES};

#[test]
fn records_accumulate_across_separate_attempts_and_stale_snapshots() {
    let mut save = Progress::default();
    save.finish(0, 40_000, 3100, true, false);
    let mut other_tab = Progress::default();
    other_tab.finish(0, 62_000, 5600, false, true);
    other_tab.finish(1, 75_000, 2100, false, false);
    save.merge(&other_tab);
    assert_eq!(save.unlocked(), 2);
    assert_eq!(
        save.levels[0],
        Record {
            cleared: true,
            speed_medal: true,
            treasure_medal: true,
            best_ms: Some(40_000),
            high_score: 5600,
        }
    );
    save.merge(&Progress::default());
    assert_eq!(save.unlocked(), 2);
    assert!(save.levels[0].treasure_medal);
}

#[test]
fn a_fresh_profile_starts_at_the_first_level() {
    let save = Progress::default();
    assert_eq!(save.version, 1);
    assert_eq!(save.unlocked(), 0);
    assert_eq!(save.arcade_best, 0);
    assert!(!save.muted);
    assert!(save.levels.iter().all(|r| *r == Record::default()));
}

#[test]
fn finishing_keeps_the_best_time_and_the_high_score() {
    let mut save = Progress::default();
    save.finish(3, 50_000, 900, false, false);
    save.finish(3, 45_000, 700, true, false);
    save.finish(3, 60_000, 1200, false, true);
    assert_eq!(
        save.levels[3],
        Record {
            cleared: true,
            speed_medal: true,
            treasure_medal: true,
            best_ms: Some(45_000),
            high_score: 1200,
        }
    );
    // Level 3 is cleared but levels 0..3 are not, so the campaign still waits at 0.
    assert_eq!(save.unlocked(), 0);
}

#[test]
fn unlocked_stops_at_the_last_level() {
    let mut save = Progress::default();
    for stage in 0..LEVEL_COUNT {
        save.finish(stage, 1_000, 1, false, false);
    }
    assert_eq!(save.unlocked(), LEVEL_COUNT - 1);
}

#[test]
fn merge_is_order_independent_and_takes_the_incoming_mute_switch() {
    let mut a = Progress::default();
    a.finish(0, 30_000, 100, true, false);
    a.arcade_best = 70;
    let mut b = Progress::default();
    b.finish(0, 20_000, 50, false, true);
    b.finish(2, 10_000, 10, false, false);
    b.arcade_best = 40;
    b.muted = true;
    let mut ab = a;
    ab.merge(&b);
    let mut ba = b;
    ba.merge(&a);
    assert_eq!(ab.levels, ba.levels);
    assert_eq!(ab.levels[0].best_ms, Some(20_000));
    assert_eq!(ab.levels[0].high_score, 100);
    assert_eq!(ab.arcade_best, 70);
    assert!(ab.muted);
    assert!(!ba.muted);
    let mut again = ab;
    again.merge(&b);
    assert_eq!(again.levels, ab.levels);
}

#[test]
fn saves_too_large_or_of_another_version_are_refused() {
    assert_eq!(Progress::check_size(&vec![b' '; MAX_SAVE_BYTES]), Ok(()));
    assert_eq!(
        Progress::check_size(&vec![b' '; MAX_SAVE_BYTES + 1]),
        Err(DecodeError::TooLarge)
    );
    let save = Progress::default();
    assert_eq!(Progress::check_version(save), Ok(save));
    let mut future = save;
    future.version = 2;
    assert_eq!(
        Progress::check_version(future),
        Err(DecodeError::UnsupportedVersion(2))
    );
}
