//! The save format shared by the desktop game and the web server: one record
//! per level, the arcade best and the mute switch, and the rules by which
//! records accumulate.
use vstd::prelude::*;

verus! {

/// Number of level records kept in a save.
pub const LEVEL_COUNT: usize = 16;

/// Largest save, in bytes, that is ever parsed.
pub const MAX_SAVE_BYTES: usize = 16 * 1024;

/// The only save version this library reads.
pub const SAVE_VERSION: u32 = 1;

/// What a player has earned on one level.
#[derive(Clone, Copy, Debug, PartialEq, Eq, Structural)]
pub struct Record {
    pub cleared: bool,
    pub speed_medal: bool,
    pub treasure_medal: bool,
    pub best_ms: Option<u64>,
    pub high_score: u32,
}

/// A whole save.
#[derive(Clone, Copy, Debug, PartialEq, Eq)]
pub struct Progress {
    pub version: u32,
    pub levels: [Record; LEVEL_COUNT],
    pub arcade_best: u32,
    pub muted: bool,
}

/// Why a save was refused.
#[derive(Debug, PartialEq, Eq)]
pub enum DecodeError {
    /// More than `MAX_SAVE_BYTES` bytes.
    TooLarge,
    /// The bytes are not a save; the text is the parser's explanation.
    Malformed(String),
    /// A well-formed save of a version this library does not read.
    UnsupportedVersion(u32),
}

/// The record of a level nobody has played.
pub open spec fn blank_record() -> Record {
    Record { cleared: false, speed_medal: false, treasure_medal: false, best_ms: None, high_score: 0 }
}

/// A profile that has earned nothing.
pub open spec fn is_fresh(p: Progress) -> bool {
    &&& p.version == SAVE_VERSION
    &&& forall|i: int| 0 <= i < LEVEL_COUNT ==> #[trigger] p.levels@[i] == blank_record()
    &&& p.arcade_best == 0
    &&& !p.muted
}

pub open spec fn min_u64(a: u64, b: u64) -> u64 {
    if a <= b { a } else { b }
}

pub open spec fn max_u32(a: u32, b: u32) -> u32 {
    if a >= b { a } else { b }
}

/// The better (smaller) of two optional best times; a time beats no time.
pub open spec fn better_time(a: Option<u64>, b: Option<u64>) -> Option<u64> {
    match (a, b) {
        (Some(x), Some(y)) => Some(min_u64(x, y)),
        (Some(x), None) => Some(x),
        (None, y) => y,
    }
}

/// Everything earned in either record.
pub open spec fn merge_record(a: Record, b: Record) -> Record {
    Record {
        cleared: a.cleared || b.cleared,
        speed_medal: a.speed_medal || b.speed_medal,
        treasure_medal: a.treasure_medal || b.treasure_medal,
        best_ms: better_time(a.best_ms, b.best_ms),
        high_score: max_u32(a.high_score, b.high_score),
    }
}

/// The record of one finished run: cleared, with its time, score and medals.
pub open spec fn run_record(millis: u64, score: u32, speed: bool, treasure: bool) -> Record {
    Record {
        cleared: true,
        speed_medal: speed,
        treasure_medal: treasure,
        best_ms: Some(millis),
        high_score: score,
    }
}

/// `b` has earned at least everything that `a` has.
pub open spec fn record_dominates(b: Record, a: Record) -> bool {
    &&& a.cleared ==> b.cleared
    &&& a.speed_medal ==> b.speed_medal
    &&& a.treasure_medal ==> b.treasure_medal
    &&& a.best_ms is Some ==> (b.best_ms is Some && b.best_ms->0 <= a.best_ms->0)
    &&& b.high_score >= a.high_score
}

/// The levels of `a` merged level by level with those of `b`.
pub open spec fn merge_levels(a: Seq<Record>, b: Seq<Record>) -> Seq<Record> {
    Seq::new(a.len(), |i: int| merge_record(a[i], b[i]))
}

/// Index of the first uncleared level at or after `i` (the length when there is none).
pub open spec fn first_uncleared_from(levels: Seq<Record>, i: nat) -> nat
    decreases levels.len() - i,
{
    if i < levels.len() && levels[i as int].cleared {
        first_uncleared_from(levels, i + 1)
    } else {
        i
    }
}

/// Index of the first uncleared level (the length when all are cleared).
pub open spec fn first_uncleared(levels: Seq<Record>) -> nat {
    first_uncleared_from(levels, 0)
}

/// The next campaign destination: the first uncleared level, at most the last level.
pub open spec fn spec_unlocked(levels: Seq<Record>) -> nat {
    let n = first_uncleared(levels);
    if n < LEVEL_COUNT - 1 { n } else { (LEVEL_COUNT - 1) as nat }
}

/// `first_uncleared_from` is the end of the run of cleared levels starting at `i`.
pub proof fn lemma_first_uncleared_from(levels: Seq<Record>, i: nat)
    requires
        i <= levels.len(),
    ensures
        i <= first_uncleared_from(levels, i) <= levels.len(),
        forall|j: int| i <= j < first_uncleared_from(levels, i) ==> #[trigger] levels[j].cleared,
        first_uncleared_from(levels, i) < levels.len() ==> !levels[first_uncleared_from(
            levels,
            i,
        ) as int].cleared,
    decreases levels.len() - i,
{
    if i < levels.len() && levels[i as int].cleared {
        lemma_first_uncleared_from(levels, i + 1);
    }
}

/// A run of cleared levels ending at an uncleared level (or at the end) determines
/// `first_uncleared`.
pub proof fn lemma_first_uncleared_unique(levels: Seq<Record>, n: nat)
    requires
        n <= levels.len(),
        forall|j: int| 0 <= j < n ==> #[trigger] levels[j].cleared,
        n < levels.len() ==> !levels[n as int].cleared,
    ensures
        first_uncleared(levels) == n,
{
    lemma_first_uncleared_from(levels, 0);
    let f = first_uncleared(levels);
    if f < n {
        assert(levels[f as int].cleared);
    } else if f > n {
        assert(levels[n as int].cleared);
    }
}

/// Levels that are cleared wherever `a`'s are have at least as long a cleared run.
pub proof fn lemma_first_uncleared_monotone(a: Seq<Record>, b: Seq<Record>)
    requires
        a.len() == b.len(),
        forall|i: int| 0 <= i < a.len() ==> (#[trigger] a[i]).cleared ==> b[i].cleared,
    ensures
        first_uncleared(a) <= first_uncleared(b),
{
    lemma_first_uncleared_from(a, 0);
    lemma_first_uncleared_from(b, 0);
    let fa = first_uncleared(a);
    let fb = first_uncleared(b);
    if fb < fa {
        assert(a[fb as int].cleared);
    }
}

/// Merging never loses earned progress: on every level the merged record has
/// earned everything that either snapshot had earned.
pub proof fn law_merge_keeps_everything_earned(a: Progress, b: Progress)
    ensures
        forall|i: int|
            0 <= i < LEVEL_COUNT ==> {
                &&& record_dominates(#[trigger] merge_levels(a.levels@, b.levels@)[i], a.levels@[i])
                &&& record_dominates(merge_levels(a.levels@, b.levels@)[i], b.levels@[i])
            },
{
}

/// Merging invents nothing: any record that has earned everything of both
/// snapshots has earned everything of their merge.
pub proof fn law_merge_is_least(a: Record, b: Record, c: Record)
    requires
        record_dominates(c, a),
        record_dominates(c, b),
    ensures
        record_dominates(c, merge_record(a, b)),
{
}

/// The order in which two tabs' snapshots are merged does not matter.
pub proof fn law_merge_commutes(a: Progress, b: Progress)
    ensures
        merge_levels(a.levels@, b.levels@) == merge_levels(b.levels@, a.levels@),
{
    assert(merge_levels(a.levels@, b.levels@) =~= merge_levels(b.levels@, a.levels@));
}

/// Merging three snapshots gives the same levels however the merges are grouped.
pub proof fn law_merge_associates(a: Progress, b: Progress, c: Progress)
    ensures
        merge_levels(merge_levels(a.levels@, b.levels@), c.levels@) == merge_levels(
            a.levels@,
            merge_levels(b.levels@, c.levels@),
        ),
{
    assert(merge_levels(merge_levels(a.levels@, b.levels@), c.levels@) =~= merge_levels(
        a.levels@,
        merge_levels(b.levels@, c.levels@),
    ));
}

/// Merging a snapshot into itself, or merging a stale snapshot again, changes no level.
pub proof fn law_merge_idempotent(a: Progress, b: Progress)
    ensures
        merge_levels(a.levels@, a.levels@) == a.levels@,
        merge_levels(merge_levels(a.levels@, b.levels@), b.levels@) == merge_levels(
            a.levels@,
            b.levels@,
        ),
{
    assert(merge_levels(a.levels@, a.levels@) =~= a.levels@);
    assert(merge_levels(merge_levels(a.levels@, b.levels@), b.levels@) =~= merge_levels(
        a.levels@,
        b.levels@,
    ));
}

/// Merging a fresh profile changes no level.
pub proof fn law_merge_fresh_keeps_levels(a: Progress, fresh: Progress)
    requires
        is_fresh(fresh),
    ensures
        merge_levels(a.levels@, fresh.levels@) == a.levels@,
{
    assert(merge_levels(a.levels@, fresh.levels@) =~= a.levels@);
}

/// The campaign never moves backwards when snapshots are merged.
pub proof fn law_merge_keeps_unlocked(a: Progress, b: Progress)
    ensures
        spec_unlocked(merge_levels(a.levels@, b.levels@)) >= spec_unlocked(a.levels@),
        spec_unlocked(merge_levels(a.levels@, b.levels@)) >= spec_unlocked(b.levels@),
{
    let m = merge_levels(a.levels@, b.levels@);
    lemma_first_uncleared_monotone(a.levels@, m);
    lemma_first_uncleared_monotone(b.levels@, m);
}

/// Clearing a level (by finishing it, or by reaching its exit in the campaign)
/// never moves the campaign backwards, and clearing the next destination, when
/// it is not the last level, moves the campaign past it.
pub proof fn law_clearing_advances(levels: Seq<Record>, stage: int, cleared: Record)
    requires
        levels.len() == LEVEL_COUNT,
        0 <= stage < LEVEL_COUNT,
        cleared.cleared,
    ensures
        spec_unlocked(levels.update(stage, cleared)) >= spec_unlocked(levels),
        stage == spec_unlocked(levels) && stage < LEVEL_COUNT - 1 ==> spec_unlocked(
            levels.update(stage, cleared),
        ) > stage,
{
    let after = levels.update(stage, cleared);
    lemma_first_uncleared_monotone(levels, after);
    lemma_first_uncleared_from(levels, 0);
    lemma_first_uncleared_from(after, 0);
    if stage == spec_unlocked(levels) && stage < LEVEL_COUNT - 1 {
        let f = first_uncleared(after);
        if f <= stage {
            assert(after[stage].cleared);
            if f < stage {
                assert(levels[f as int].cleared);
            }
        }
    }
}

impl Default for Record {
    /// The record of a level nobody has played.
    fn default() -> (r: Record)
        ensures
            r == blank_record(),
    {
        Record { cleared: false, speed_medal: false, treasure_medal: false, best_ms: None, high_score: 0 }
    }
}

impl Default for Progress {
    /// A profile that has earned nothing.
    fn default() -> (p: Progress)
        ensures
            is_fresh(p),
    {
        let blank = Record::default();
        let levels = [blank; LEVEL_COUNT];
        Progress { version: SAVE_VERSION, levels, arcade_best: 0, muted: false }
    }
}

/// The smaller of two times.
fn min_time(a: u64, b: u64) -> (r: u64)
    ensures
        r == min_u64(a, b),
{
    if a <= b { a } else { b }
}

/// The larger of two scores.
fn max_score(a: u32, b: u32) -> (r: u32)
    ensures
        r == max_u32(a, b),
{
    if a >= b { a } else { b }
}

/// Everything earned in either record.
fn merged(a: Record, b: Record) -> (r: Record)
    ensures
        r == merge_record(a, b),
{
    let best_ms = match (a.best_ms, b.best_ms) {
        (Some(x), Some(y)) => Some(min_time(x, y)),
        (Some(x), None) => Some(x),
        (None, y) => y,
    };
    Record {
        cleared: a.cleared || b.cleared,
        speed_medal: a.speed_medal || b.speed_medal,
        treasure_medal: a.treasure_medal || b.treasure_medal,
        best_ms,
        high_score: max_score(a.high_score, b.high_score),
    }
}

impl Progress {
    /// The first uncleared level is the next campaign destination.
    pub fn unlocked(&self) -> (n: usize)
        ensures
            n == spec_unlocked(self.levels@),
            n < LEVEL_COUNT,
    {
        let mut i: usize = 0;
        while i < LEVEL_COUNT && self.levels[i].cleared
            invariant
                i <= LEVEL_COUNT,
                self.levels@.len() == LEVEL_COUNT,
                forall|j: int| 0 <= j < i ==> #[trigger] self.levels@[j].cleared,
            decreases LEVEL_COUNT - i,
        {
            i = i + 1;
        }
        proof {
            lemma_first_uncleared_unique(self.levels@, i as nat);
        }
        if i < LEVEL_COUNT - 1 { i } else { LEVEL_COUNT - 1 }
    }

    /// Records a finished run of level `stage`: the level is cleared, medals
    /// accumulate, and the best time and high score keep the better value.
    pub fn finish(&mut self, stage: usize, millis: u64, score: u32, speed: bool, treasure: bool)
        requires
            stage < LEVEL_COUNT,
        ensures
            final(self).levels@ == old(self).levels@.update(
                stage as int,
                merge_record(old(self).levels@[stage as int], run_record(millis, score, speed, treasure)),
            ),
            final(self).version == old(self).version,
            final(self).arcade_best == old(self).arcade_best,
            final(self).muted == old(self).muted,
    {
        let record = self.levels[stage];
        let best_ms = match record.best_ms {
            Some(best) => min_time(best, millis),
            None => millis,
        };
        self.levels[stage] = Record {
            cleared: true,
            speed_medal: record.speed_medal || speed,
            treasure_medal: record.treasure_medal || treasure,
            best_ms: Some(best_ms),
            high_score: max_score(record.high_score, score),
        };
    }

    /// Merge snapshots from different tabs without losing earned progress:
    /// every level keeps what either side earned, the arcade best keeps the
    /// higher value, and the mute switch follows the incoming snapshot.
    pub fn merge(&mut self, incoming: &Progress)
        ensures
            final(self).levels@ == merge_levels(old(self).levels@, incoming.levels@),
            final(self).version == old(self).version,
            final(self).arcade_best == max_u32(old(self).arcade_best, incoming.arcade_best),
            final(self).muted == incoming.muted,
    {
        let mut i: usize = 0;
        while i < LEVEL_COUNT
            invariant
                i <= LEVEL_COUNT,
                self.levels@.len() == LEVEL_COUNT,
                incoming.levels@.len() == LEVEL_COUNT,
                self.version == old(self).version,
                self.arcade_best == old(self).arcade_best,
                forall|j: int|
                    0 <= j < i ==> #[trigger] self.levels@[j] == merge_record(
                        old(self).levels@[j],
                        incoming.levels@[j],
                    ),
                forall|j: int| i <= j < LEVEL_COUNT ==> #[trigger] self.levels@[j] == old(self).levels@[j],
            decreases LEVEL_COUNT - i,
        {
            let m = merged(self.levels[i], incoming.levels[i]);
            self.levels[i] = m;
            i = i + 1;
        }
        assert(self.levels@ =~= merge_levels(old(self).levels@, incoming.levels@));
        self.arcade_best = max_score(self.arcade_best, incoming.arcade_best);
        self.muted = incoming.muted;
    }

    /// Refuses bytes too long to be a save, before any parsing.
    pub fn check_size(bytes: &[u8]) -> (r: Result<(), DecodeError>)
        ensures
            r is Ok <==> bytes@.len() <= MAX_SAVE_BYTES,
            r is Err ==> r == Err::<(), DecodeError>(DecodeError::TooLarge),
    {
        if bytes.len() > MAX_SAVE_BYTES {
            Err(DecodeError::TooLarge)
        } else {
            Ok(())
        }
    }

    /// Accepts a parsed save only in the version this library reads.
    pub fn check_version(save: Progress) -> (r: Result<Progress, DecodeError>)
        ensures
            save.version == SAVE_VERSION ==> r == Ok::<Progress, DecodeError>(save),
            save.version != SAVE_VERSION ==> r == Err::<Progress, DecodeError>(
                DecodeError::UnsupportedVersion(save.version),
            ),
    {
        if save.version != SAVE_VERSION {
            Err(DecodeError::UnsupportedVersion(save.version))
        } else {
            Ok(save)
        }
    }
}

} // verus!
