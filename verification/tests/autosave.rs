use dario::autosave::{same_progress, Autosave, FAILED_NOTICE, UNAVAILABLE_NOTICE};
use dario::progress::Progress;

#[test]
fn changes_are_written_once_and_retries_wait() {
    let mut autosave = Autosave::loaded(Progress::default());
    let mut progress = Progress::default();
    assert!(!autosave.should_write(&progress, false));
    progress.levels[0].cleared = true;
    progress.muted = true;
    assert!(autosave.should_write(&progress, false));
    assert!(!autosave.should_write(&progress, true));
    autosave.write_failed();
    assert_eq!(autosave.notice, Some(FAILED_NOTICE));
    assert!(autosave.should_write(&progress, false));
    autosave.written(&progress);
    assert_eq!(autosave.notice, None);
    assert!(!autosave.should_write(&progress, false));
}

#[test]
fn unreadable_saves_and_smoke_runs_never_write() {
    let mut progress = Progress::default();
    progress.finish(0, 1, 1, true, true);
    let guest = Autosave::unavailable();
    assert_eq!(guest.notice, Some(UNAVAILABLE_NOTICE));
    assert!(!guest.should_write(&progress, false));
    let smoke = Autosave::off();
    assert_eq!(smoke.notice, None);
    assert!(!smoke.should_write(&progress, false));
}

#[test]
fn progress_comparison_sees_every_field() {
    let a = Progress::default();
    let mut b = a;
    assert!(same_progress(&a, &b));
    b.levels[15].high_score = 1;
    assert!(!same_progress(&a, &b));
    let mut c = a;
    c.arcade_best = 9;
    assert!(!same_progress(&a, &c));
}
