//! The campaign: phases, lives, coins, score, checkpoints and the saved
//! progress, and every decision the simulation hands to it. Motion itself
//! (positions, velocities, timers) is measured in fractions of a pixel and is
//! driven from outside; each method here is one decision the motion reaches.
use vstd::prelude::*;

use crate::level::Level;
use crate::progress::{spec_unlocked, Progress, Record, LEVEL_COUNT};
use crate::world::{Phase, SoundEvent, Tile, STAGE_COUNT};

verus! {

/// Lives at the start of a run and of every later stage.
pub const START_LIVES: u8 = 3;

/// Points for a coin.
pub const COIN_POINTS: u32 = 100;

/// Points for stomping an enemy.
pub const STOMP_POINTS: u32 = 200;

/// Points for reaching a stage's exit.
pub const CLEAR_POINTS: u32 = 1000;

/// Where a run, and every stage, begins: the top-left pixel of the player.
pub const START_X: i32 = 56;

pub const START_Y: i32 = 175;

pub struct Game {
    pub phase: Phase,
    pub stage: usize,
    pub level: Level,
    pub coins: u32,
    pub score: u32,
    pub lives: u8,
    /// The checkpoint of this stage has been reached.
    pub checkpoint: bool,
    /// Sounds to play, oldest first.
    pub sounds: Vec<SoundEvent>,
    pub progress: Progress,
    pub selected_stage: usize,
    pub save_notice: Option<&'static str>,
}

/// The smaller of two stage numbers.
pub open spec fn min_stage(a: int, b: int) -> int {
    if a <= b {
        a
    } else {
        b
    }
}

/// The stage the campaign continues at: the first uncleared level, within the campaign.
pub open spec fn next_stage(progress: Progress) -> int {
    min_stage(spec_unlocked(progress.levels@) as int, STAGE_COUNT - 1)
}

/// A stage may start when it exists and every stage before it has been cleared.
pub open spec fn may_start(progress: Progress, stage: int) -> bool {
    stage < STAGE_COUNT && stage <= spec_unlocked(progress.levels@)
}

/// What the pause key does to a phase.
pub open spec fn toggled(phase: Phase) -> Phase {
    match phase {
        Phase::Playing => Phase::Paused,
        Phase::Paused => Phase::Playing,
        other => other,
    }
}

/// The world moves only while the stage is being played, lost or celebrated.
pub open spec fn simulating(phase: Phase) -> bool {
    phase == Phase::Playing || phase == Phase::Dying || phase == Phase::StageClear
}

/// `s` saturated into the stage numbers `0..=STAGE_COUNT - 1`, first clamped to `usize`.
pub open spec fn clamp_selection(s: int) -> int {
    let t = if s < 0 {
        0
    } else if s > usize::MAX {
        usize::MAX as int
    } else {
        s
    };
    min_stage(t, STAGE_COUNT - 1)
}

/// A fresh run of stage `stage`, carrying over the saved progress and the save notice.
pub open spec fn fresh_run(g: Game, stage: int, progress: Progress, notice: Option<&'static str>) -> bool {
    &&& g.phase == Phase::Playing
    &&& g.stage == stage
    &&& g.selected_stage == stage
    &&& g.level.is_stage(stage)
    &&& g.coins == 0
    &&& g.score == 0
    &&& g.lives == START_LIVES
    &&& !g.checkpoint
    &&& g.sounds@ == Seq::<SoundEvent>::empty()
    &&& g.progress == progress
    &&& g.save_notice == notice
}

/// Everything but the sounds is as in `before`.
pub open spec fn same_but_sounds(after: Game, before: Game) -> bool {
    &&& after.phase == before.phase
    &&& after.stage == before.stage
    &&& after.level == before.level
    &&& after.coins == before.coins
    &&& after.score == before.score
    &&& after.lives == before.lives
    &&& after.checkpoint == before.checkpoint
    &&& after.progress == before.progress
    &&& after.selected_stage == before.selected_stage
    &&& after.save_notice == before.save_notice
}

/// The world stops only off the stage: it keeps running while a stage is
/// played, while the player dies and while a cleared stage is celebrated (so
/// those phases run out and move the campaign on), and it stands still on the
/// title, the level picker, the pause, the game-over and the victory screens.
pub proof fn law_the_world_stops_only_off_stage(phase: Phase)
    ensures
        simulating(phase) <==> !(phase == Phase::Title || phase == Phase::Paused || phase
            == Phase::GameOver || phase == Phase::Won || phase == Phase::LevelSelect),
        simulating(Phase::StageClear),
        simulating(Phase::Dying),
        simulating(Phase::Playing),
{
}

/// The pause key undoes itself.
pub proof fn law_pause_twice_changes_nothing(phase: Phase)
    ensures
        toggled(toggled(phase)) == phase,
        simulating(phase) && phase != Phase::Playing ==> toggled(phase) == phase,
        !simulating(toggled(Phase::Playing)),
{
}

/// Clearing the stage the campaign was waiting on, when it is not the last,
/// moves the campaign on to the following stage.
pub proof fn law_campaign_continues(progress: Progress, stage: int)
    requires
        0 <= stage < STAGE_COUNT - 1,
        stage == next_stage(progress),
    ensures
        ({
            let cleared = progress.levels@[stage];
            let after = progress.levels@.update(stage, Record { cleared: true, ..cleared });
            min_stage(spec_unlocked(after) as int, STAGE_COUNT - 1) > stage
        }),
{
    let r = progress.levels@[stage];
    let after = progress.levels@.update(stage, Record { cleared: true, ..r });
    crate::progress::law_clearing_advances(progress.levels@, stage, Record { cleared: true, ..r });
    crate::progress::lemma_first_uncleared_from(after, 0);
}

impl Game {
    /// A game as the methods keep it: a well-formed level, a stage of the
    /// campaign, and a picker on a stage of the campaign.
    pub open spec fn wf(&self) -> bool {
        &&& self.level.wf()
        &&& self.stage < STAGE_COUNT
        &&& self.selected_stage < STAGE_COUNT
    }

    /// The title screen, before any run.
    pub fn new() -> (g: Game)
        ensures
            g.phase == Phase::Title,
            g.stage == 0,
            g.selected_stage == 0,
            g.level.is_stage(0),
            g.coins == 0,
            g.score == 0,
            g.lives == START_LIVES,
            !g.checkpoint,
            g.sounds@ == Seq::<SoundEvent>::empty(),
            crate::progress::is_fresh(g.progress),
            g.save_notice is None,
            g.wf(),
    {
        Game {
            phase: Phase::Title,
            stage: 0,
            level: Level::new(0),
            coins: 0,
            score: 0,
            lives: START_LIVES,
            checkpoint: false,
            sounds: Vec::new(),
            progress: Progress::default(),
            selected_stage: 0,
            save_notice: None,
        }
    }

    /// Starts the campaign at its next destination.
    pub fn start(&mut self)
        ensures
            final(self).wf(),
            fresh_run(*final(self), next_stage(old(self).progress), old(self).progress, old(self).save_notice),
    {
        let unlocked = self.progress.unlocked();
        let stage = if unlocked < STAGE_COUNT - 1 {
            unlocked
        } else {
            STAGE_COUNT - 1
        };
        let started = self.start_stage(stage);
        assert(started);
    }

    /// Starts a fresh run of `stage`, keeping the saved progress; a stage that
    /// does not exist or is still locked does not start, and nothing changes.
    pub fn start_stage(&mut self, stage: usize) -> (started: bool)
        ensures
            started == may_start(old(self).progress, stage as int),
            started ==> fresh_run(*final(self), stage as int, old(self).progress, old(self).save_notice)
                && final(self).wf(),
            !started ==> *final(self) == *old(self),
    {
        if stage >= STAGE_COUNT || stage > self.progress.unlocked() {
            return false;
        }
        let progress = self.progress;
        let notice = self.save_notice;
        *self = Game {
            phase: Phase::Playing,
            stage,
            level: Level::new(stage),
            coins: 0,
            score: 0,
            lives: START_LIVES,
            checkpoint: false,
            sounds: Vec::new(),
            progress,
            selected_stage: stage,
            save_notice: notice,
        };
        true
    }

    /// Opens the stage picker on the campaign's next destination.
    pub fn select_levels(&mut self)
        ensures
            old(self).wf() ==> final(self).wf(),
            final(self).selected_stage == next_stage(old(self).progress),
            final(self).phase == Phase::LevelSelect,
            final(self).stage == old(self).stage,
            final(self).level == old(self).level,
            final(self).coins == old(self).coins,
            final(self).score == old(self).score,
            final(self).lives == old(self).lives,
            final(self).checkpoint == old(self).checkpoint,
            final(self).sounds@ == old(self).sounds@,
            final(self).progress == old(self).progress,
            final(self).save_notice == old(self).save_notice,
    {
        let unlocked = self.progress.unlocked();
        self.selected_stage = if unlocked < STAGE_COUNT - 1 {
            unlocked
        } else {
            STAGE_COUNT - 1
        };
        self.phase = Phase::LevelSelect;
    }

    /// Moves the picker by `offset` stages, stopping at the first and last stage.
    pub fn select_relative(&mut self, offset: isize)
        ensures
            old(self).wf() ==> final(self).wf(),
            final(self).selected_stage == clamp_selection(old(self).selected_stage + offset),
            final(self).phase == old(self).phase,
            final(self).stage == old(self).stage,
            final(self).level == old(self).level,
            final(self).coins == old(self).coins,
            final(self).score == old(self).score,
            final(self).lives == old(self).lives,
            final(self).checkpoint == old(self).checkpoint,
            final(self).sounds@ == old(self).sounds@,
            final(self).progress == old(self).progress,
            final(self).save_notice == old(self).save_notice,
    {
        let moved: usize = if offset < 0 {
            let back = (-(offset as i128)) as u128;
            if back > self.selected_stage as u128 {
                0
            } else {
                self.selected_stage - back as usize
            }
        } else {
            let forward = offset as usize;
            if forward > usize::MAX - self.selected_stage {
                usize::MAX
            } else {
                self.selected_stage + forward
            }
        };
        self.selected_stage = if moved < STAGE_COUNT - 1 {
            moved
        } else {
            STAGE_COUNT - 1
        };
    }

    /// Pauses a stage being played, or resumes a paused one.
    pub fn toggle_pause(&mut self)
        ensures
            old(self).wf() ==> final(self).wf(),
            final(self).phase == toggled(old(self).phase),
            final(self).stage == old(self).stage,
            final(self).level == old(self).level,
            final(self).coins == old(self).coins,
            final(self).score == old(self).score,
            final(self).lives == old(self).lives,
            final(self).checkpoint == old(self).checkpoint,
            final(self).sounds@ == old(self).sounds@,
            final(self).progress == old(self).progress,
            final(self).selected_stage == old(self).selected_stage,
            final(self).save_notice == old(self).save_notice,
    {
        self.phase = match self.phase {
            Phase::Playing => Phase::Paused,
            Phase::Paused => Phase::Playing,
            phase => phase,
        };
    }

    /// The game clock runs in every phase but the pause.
    pub fn clock_runs(&self) -> (r: bool)
        ensures
            r == (self.phase != Phase::Paused),
    {
        match self.phase {
            Phase::Paused => false,
            _ => true,
        }
    }

    /// The world moves in this phase; in every other phase only the clock may run.
    pub fn simulates(&self) -> (r: bool)
        ensures
            r == simulating(self.phase),
            r == !(self.phase == Phase::Title || self.phase == Phase::Paused || self.phase
                == Phase::GameOver || self.phase == Phase::Won || self.phase == Phase::LevelSelect),
    {
        match self.phase {
            Phase::Playing | Phase::Dying | Phase::StageClear => true,
            _ => false,
        }
    }

    /// A coin is taken: one more coin, its points, and its sound.
    pub fn collect(&mut self)
        requires
            old(self).coins < u32::MAX,
            old(self).score + COIN_POINTS <= u32::MAX,
        ensures
            old(self).wf() ==> final(self).wf(),
            final(self).coins == old(self).coins + 1,
            final(self).score == old(self).score + COIN_POINTS,
            final(self).sounds@ == old(self).sounds@.push(SoundEvent::Coin),
            final(self).phase == old(self).phase,
            final(self).stage == old(self).stage,
            final(self).level == old(self).level,
            final(self).lives == old(self).lives,
            final(self).checkpoint == old(self).checkpoint,
            final(self).progress == old(self).progress,
            final(self).selected_stage == old(self).selected_stage,
            final(self).save_notice == old(self).save_notice,
    {
        self.coins = self.coins + 1;
        self.score = self.score + COIN_POINTS;
        self.sounds.push(SoundEvent::Coin);
    }

    /// The player touches coin `index`: a coin not yet taken is taken once.
    pub fn collect_coin(&mut self, index: usize) -> (taken: bool)
        requires
            index < old(self).level.coins@.len(),
            old(self).coins < u32::MAX,
            old(self).score + COIN_POINTS <= u32::MAX,
        ensures
            old(self).wf() ==> final(self).wf(),
            taken == !old(self).level.coins@[index as int].collected,
            final(self).level.coins@ == old(self).level.coins@.update(
                index as int,
                crate::level::Coin { collected: true, ..old(self).level.coins@[index as int] },
            ),
            final(self).level.tiles@ == old(self).level.tiles@,
            final(self).level.width == old(self).level.width,
            final(self).level.enemies@ == old(self).level.enemies@,
            final(self).level.checkpoint == old(self).level.checkpoint,
            final(self).level.goal == old(self).level.goal,
            final(self).level.name == old(self).level.name,
            taken ==> final(self).coins == old(self).coins + 1 && final(self).score == old(self).score
                + COIN_POINTS && final(self).sounds@ == old(self).sounds@.push(SoundEvent::Coin),
            !taken ==> final(self).coins == old(self).coins && final(self).score == old(self).score
                && final(self).sounds@ == old(self).sounds@,
            final(self).phase == old(self).phase,
            final(self).stage == old(self).stage,
            final(self).lives == old(self).lives,
            final(self).checkpoint == old(self).checkpoint,
            final(self).progress == old(self).progress,
            final(self).selected_stage == old(self).selected_stage,
            final(self).save_notice == old(self).save_notice,
    {
        let coin = self.level.coins[index];
        if coin.collected {
            return false;
        }
        self.level.coins.set(index, crate::level::Coin { collected: true, ..coin });
        self.collect();
        true
    }

    /// The player's head hits tile `(x, y)` from below: a question block pays a
    /// coin and is used up; a brick or used block only thuds. The result is
    /// whether the tile was a block at all.
    pub fn bump(&mut self, x: i32, y: i32) -> (bumped: bool)
        requires
            old(self).level.wf(),
            old(self).coins < u32::MAX,
            old(self).score + COIN_POINTS <= u32::MAX,
        ensures
            old(self).wf() ==> final(self).wf(),
            ({
                let kind = old(self).level.cell(x as int, y as int);
                &&& bumped == (kind == Tile::Question || kind == Tile::Brick || kind == Tile::Used)
                &&& kind == Tile::Question ==> {
                    &&& final(self).level.tiles@ == old(self).level.tiles@.update(
                        y * old(self).level.width + x,
                        Tile::Used,
                    )
                    &&& final(self).level.cell(x as int, y as int) == Tile::Used
                    &&& final(self).coins == old(self).coins + 1
                    &&& final(self).score == old(self).score + COIN_POINTS
                    &&& final(self).sounds@ == old(self).sounds@.push(SoundEvent::Coin)
                }
                &&& (kind == Tile::Brick || kind == Tile::Used) ==> {
                    &&& final(self).level.tiles@ == old(self).level.tiles@
                    &&& final(self).coins == old(self).coins
                    &&& final(self).score == old(self).score
                    &&& final(self).sounds@ == old(self).sounds@.push(SoundEvent::Bump)
                }
                &&& !bumped ==> *final(self) == *old(self)
            }),
            final(self).level.wf(),
            final(self).level.width == old(self).level.width,
            final(self).level.coins@ == old(self).level.coins@,
            final(self).level.enemies@ == old(self).level.enemies@,
            final(self).level.checkpoint == old(self).level.checkpoint,
            final(self).level.goal == old(self).level.goal,
            final(self).level.name == old(self).level.name,
            final(self).phase == old(self).phase,
            final(self).stage == old(self).stage,
            final(self).lives == old(self).lives,
            final(self).checkpoint == old(self).checkpoint,
            final(self).progress == old(self).progress,
            final(self).selected_stage == old(self).selected_stage,
            final(self).save_notice == old(self).save_notice,
    {
        let kind = self.level.tile(x, y);
        match kind {
            Tile::Question => {
                proof {
                    assert((y as int) * (self.level.width as int) + (x as int) < (self.level.width as int)
                        * 15) by (nonlinear_arith)
                        requires
                            0 <= x < self.level.width,
                            0 <= y < 15,
                    ;
                }
                self.level.set(x as usize, y as usize, Tile::Used);
                self.collect();
                true
            },
            Tile::Brick | Tile::Used => {
                self.sounds.push(SoundEvent::Bump);
                true
            },
            _ => false,
        }
    }

    /// The player lands on an enemy: its points and its sound.
    pub fn stomp(&mut self)
        requires
            old(self).score + STOMP_POINTS <= u32::MAX,
        ensures
            old(self).wf() ==> final(self).wf(),
            final(self).score == old(self).score + STOMP_POINTS,
            final(self).sounds@ == old(self).sounds@.push(SoundEvent::Stomp),
            final(self).phase == old(self).phase,
            final(self).stage == old(self).stage,
            final(self).level == old(self).level,
            final(self).coins == old(self).coins,
            final(self).lives == old(self).lives,
            final(self).checkpoint == old(self).checkpoint,
            final(self).progress == old(self).progress,
            final(self).selected_stage == old(self).selected_stage,
            final(self).save_notice == old(self).save_notice,
    {
        self.score = self.score + STOMP_POINTS;
        self.sounds.push(SoundEvent::Stomp);
    }

    /// The player is hurt or falls: while playing, a life is lost (never below
    /// zero) and the stage goes into its dying phase; in any other phase nothing
    /// happens. Coins, score and the level stay as they are.
    pub fn die(&mut self) -> (dying: bool)
        ensures
            old(self).wf() ==> final(self).wf(),
            dying == (old(self).phase == Phase::Playing),
            dying ==> {
                &&& final(self).phase == Phase::Dying
                &&& final(self).lives == if old(self).lives > 0 {
                    (old(self).lives - 1) as u8
                } else {
                    0u8
                }
                &&& final(self).sounds@ == old(self).sounds@.push(SoundEvent::Hurt)
            },
            !dying ==> *final(self) == *old(self),
            final(self).stage == old(self).stage,
            final(self).level == old(self).level,
            final(self).coins == old(self).coins,
            final(self).score == old(self).score,
            final(self).checkpoint == old(self).checkpoint,
            final(self).progress == old(self).progress,
            final(self).selected_stage == old(self).selected_stage,
            final(self).save_notice == old(self).save_notice,
    {
        if self.phase != Phase::Playing {
            return false;
        }
        self.phase = Phase::Dying;
        self.lives = if self.lives > 0 {
            self.lives - 1
        } else {
            0
        };
        self.sounds.push(SoundEvent::Hurt);
        true
    }

    /// The player passes the checkpoint flag: the first time, it is marked and sounds.
    pub fn reach_checkpoint(&mut self) -> (first: bool)
        ensures
            old(self).wf() ==> final(self).wf(),
            first == !old(self).checkpoint,
            final(self).checkpoint,
            first ==> final(self).sounds@ == old(self).sounds@.push(SoundEvent::Checkpoint),
            !first ==> *final(self) == *old(self),
            final(self).phase == old(self).phase,
            final(self).stage == old(self).stage,
            final(self).level == old(self).level,
            final(self).coins == old(self).coins,
            final(self).score == old(self).score,
            final(self).lives == old(self).lives,
            final(self).progress == old(self).progress,
            final(self).selected_stage == old(self).selected_stage,
            final(self).save_notice == old(self).save_notice,
    {
        if self.checkpoint {
            return false;
        }
        self.checkpoint = true;
        self.sounds.push(SoundEvent::Checkpoint);
        true
    }

    /// The player reaches the exit: its points, the level is cleared in the
    /// saved progress, and the stage is celebrated.
    pub fn reach_goal(&mut self)
        requires
            old(self).stage < LEVEL_COUNT,
            old(self).score + CLEAR_POINTS <= u32::MAX,
        ensures
            old(self).wf() ==> final(self).wf(),
            final(self).score == old(self).score + CLEAR_POINTS,
            final(self).progress.levels@ == old(self).progress.levels@.update(
                old(self).stage as int,
                Record { cleared: true, ..old(self).progress.levels@[old(self).stage as int] },
            ),
            final(self).progress.version == old(self).progress.version,
            final(self).progress.arcade_best == old(self).progress.arcade_best,
            final(self).progress.muted == old(self).progress.muted,
            final(self).phase == Phase::StageClear,
            final(self).sounds@ == old(self).sounds@.push(SoundEvent::Clear),
            final(self).stage == old(self).stage,
            final(self).level == old(self).level,
            final(self).coins == old(self).coins,
            final(self).lives == old(self).lives,
            final(self).checkpoint == old(self).checkpoint,
            final(self).selected_stage == old(self).selected_stage,
            final(self).save_notice == old(self).save_notice,
    {
        self.score = self.score + CLEAR_POINTS;
        let stage = self.stage;
        let record = self.progress.levels[stage];
        self.progress.levels[stage] = Record { cleared: true, ..record };
        self.phase = Phase::StageClear;
        self.sounds.push(SoundEvent::Clear);
    }

    /// The dying phase is over: with no lives left the run is over; otherwise
    /// play resumes, and the result is where the player respawns: at the
    /// checkpoint once it has been reached, else at the start.
    pub fn finish_dying(&mut self) -> (spawn: Option<(i32, i32)>)
        requires
            old(self).phase == Phase::Dying,
        ensures
            old(self).wf() ==> final(self).wf(),
            old(self).lives == 0 ==> final(self).phase == Phase::GameOver && spawn is None,
            old(self).lives > 0 ==> {
                &&& final(self).phase == Phase::Playing
                &&& spawn == Some(
                    if old(self).checkpoint {
                        old(self).level.checkpoint
                    } else {
                        (START_X, START_Y)
                    },
                )
            },
            final(self).stage == old(self).stage,
            final(self).level == old(self).level,
            final(self).coins == old(self).coins,
            final(self).score == old(self).score,
            final(self).lives == old(self).lives,
            final(self).checkpoint == old(self).checkpoint,
            final(self).sounds@ == old(self).sounds@,
            final(self).progress == old(self).progress,
            final(self).selected_stage == old(self).selected_stage,
            final(self).save_notice == old(self).save_notice,
    {
        if self.lives == 0 {
            self.phase = Phase::GameOver;
            None
        } else {
            let spawn = if self.checkpoint {
                self.level.checkpoint
            } else {
                (START_X, START_Y)
            };
            self.phase = Phase::Playing;
            Some(spawn)
        }
    }

    /// The celebration is over: after the last stage the campaign is won;
    /// otherwise the next stage begins with full lives and no checkpoint, and
    /// the result says so. Coins and score carry over.
    pub fn finish_clear(&mut self) -> (advanced: bool)
        requires
            old(self).phase == Phase::StageClear,
            old(self).stage < usize::MAX,
        ensures
            old(self).wf() ==> final(self).wf(),
            advanced == (old(self).stage + 1 != STAGE_COUNT),
            !advanced ==> final(self).phase == Phase::Won && final(self).stage == old(self).stage
                && final(self).level == old(self).level && final(self).lives == old(self).lives
                && final(self).checkpoint == old(self).checkpoint,
            advanced ==> {
                &&& final(self).phase == Phase::Playing
                &&& final(self).stage == old(self).stage + 1
                &&& final(self).level.is_stage(old(self).stage + 1)
                &&& final(self).lives == START_LIVES
                &&& !final(self).checkpoint
            },
            final(self).coins == old(self).coins,
            final(self).score == old(self).score,
            final(self).sounds@ == old(self).sounds@,
            final(self).progress == old(self).progress,
            final(self).selected_stage == old(self).selected_stage,
            final(self).save_notice == old(self).save_notice,
    {
        if self.stage + 1 == STAGE_COUNT {
            self.phase = Phase::Won;
            false
        } else {
            self.stage = self.stage + 1;
            self.level = Level::new(self.stage);
            self.checkpoint = false;
            self.lives = START_LIVES;
            self.phase = Phase::Playing;
            true
        }
    }
}

} // verus!
