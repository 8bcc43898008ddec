//! When the desktop game writes its save. A save that could not be read is
//! never overwritten: a failed read disables writes until the next launch.
use vstd::prelude::*;

use crate::progress::{Progress, LEVEL_COUNT};

verus! {

/// Shown while playing without a save.
pub const UNAVAILABLE_NOTICE: &'static str = "SAVE UNAVAILABLE - PLAYING AS GUEST";

/// Shown after a write failed, until one succeeds.
pub const FAILED_NOTICE: &'static str = "SAVE FAILED - RETRYING";

/// What the game knows of its save file between writes.
pub struct Autosave {
    /// A save file was read (or found missing) at launch, so it may be written.
    pub writable: bool,
    /// The progress the save file holds.
    pub saved: Progress,
    pub notice: Option<&'static str>,
}

/// A write is due: the file may be written, the progress differs from what it
/// holds, and no failed write is still waiting for its retry time.
pub open spec fn write_due(a: Autosave, progress: Progress, waiting: bool) -> bool {
    a.writable && progress != a.saved && !waiting
}

/// A session whose save could not be read never writes, whatever happens.
pub proof fn law_unreadable_saves_are_never_overwritten(a: Autosave, progress: Progress, waiting: bool)
    requires
        !a.writable,
    ensures
        !write_due(a, progress, waiting),
{
}

/// The two saves hold the same progress.
pub fn same_progress(a: &Progress, b: &Progress) -> (same: bool)
    ensures
        same == (*a == *b),
{
    if a.version != b.version || a.arcade_best != b.arcade_best || a.muted != b.muted {
        return false;
    }
    let mut k: usize = 0;
    while k < LEVEL_COUNT
        invariant
            k <= LEVEL_COUNT,
            a.levels@.len() == LEVEL_COUNT,
            b.levels@.len() == LEVEL_COUNT,
            forall|j: int| 0 <= j < k ==> a.levels@[j] == b.levels@[j],
        decreases LEVEL_COUNT - k,
    {
        if a.levels[k] != b.levels[k] {
            assert(a.levels@[k as int] != b.levels@[k as int]);
            return false;
        }
        k = k + 1;
    }
    assert(a.levels@ =~= b.levels@);
    assert(a.levels == b.levels) by {
        broadcast use vstd::array::axiom_array_ext_equal;

        assert(a.levels =~= b.levels);
    }
    true
}

impl Autosave {
    /// A session that never writes and shows nothing, such as a smoke run.
    pub fn off() -> (a: Autosave)
        ensures
            !a.writable,
            crate::progress::is_fresh(a.saved),
            a.notice is None,
    {
        Autosave { writable: false, saved: Progress::default(), notice: None }
    }

    /// The save file held `progress` (a missing file holds a fresh profile).
    pub fn loaded(progress: Progress) -> (a: Autosave)
        ensures
            a.writable,
            a.saved == progress,
            a.notice is None,
    {
        Autosave { writable: true, saved: progress, notice: None }
    }

    /// The save file could not be read: play goes on as a guest and the file is kept.
    pub fn unavailable() -> (a: Autosave)
        ensures
            !a.writable,
            crate::progress::is_fresh(a.saved),
            a.notice == Some(UNAVAILABLE_NOTICE),
    {
        Autosave { writable: false, saved: Progress::default(), notice: Some(UNAVAILABLE_NOTICE) }
    }

    /// Whether `progress` should be written now; `waiting` tells that a failed
    /// write's retry time has not come.
    pub fn should_write(&self, progress: &Progress, waiting: bool) -> (due: bool)
        ensures
            due == write_due(*self, *progress, waiting),
    {
        self.writable && !waiting && !same_progress(progress, &self.saved)
    }

    /// `progress` was written.
    pub fn written(&mut self, progress: &Progress)
        ensures
            final(self).writable == old(self).writable,
            final(self).saved == *progress,
            final(self).notice is None,
    {
        self.saved = *progress;
        self.notice = None;
    }

    /// A write failed; the file still holds what it held.
    pub fn write_failed(&mut self)
        ensures
            final(self).writable == old(self).writable,
            final(self).saved == old(self).saved,
            final(self).notice == Some(FAILED_NOTICE),
    {
        self.notice = Some(FAILED_NOTICE);
    }
}

} // verus!
