//! The mode cycle of a match: Waiting, then Strategy and Play in turn, each
//! stage lasting a set number of ticks, with an optional countdown that
//! starts a match by itself once enough players have joined.
use vstd::prelude::*;

verus! {

/// Ticks per second.
pub const FPS: u32 = 30;

#[derive(Debug, PartialEq, Eq, Structural, Clone, Copy)]
pub enum GameMode {
    /// The match has not started: players may join.
    Waiting,
    /// Players place and steer their pieces.
    Strategy,
    /// Pieces move and fight.
    Play,
}

impl GameMode {
    /// The byte that names the mode on the wire.
    pub fn wire(&self) -> (r: u8)
        ensures
            r == (match *self {
                GameMode::Play => 0u8,
                GameMode::Strategy => 1u8,
                GameMode::Waiting => 2u8,
            }),
    {
        match self {
            GameMode::Play => 0,
            GameMode::Strategy => 1,
            GameMode::Waiting => 2,
        }
    }
}

/// The mode that follows `m` when its stage runs out.
pub open spec fn flipped(m: GameMode) -> GameMode {
    match m {
        GameMode::Strategy => GameMode::Play,
        GameMode::Play => GameMode::Strategy,
        GameMode::Waiting => GameMode::Waiting,
    }
}

/// Settings of the automatic start: at least `min_players` living players,
/// at most `max_players` admitted, and a countdown of `timeout` ticks that
/// is `remaining` now.
#[derive(Debug, PartialEq, Eq, Structural, Clone, Copy)]
pub struct Autonomous {
    pub min_players: u32,
    pub max_players: u32,
    pub remaining: u32,
    pub timeout: u32,
}

/// What one tick of the mode cycle did.
#[derive(Debug, PartialEq, Eq, Structural, Clone, Copy)]
pub enum ModeStep {
    /// Waiting, and nothing changed.
    Idle,
    /// Waiting, and the automatic start counted down to this value.
    Countdown(u32),
    /// The match started now: rubble is to be scattered.
    Started,
    /// Strategy or Play ran one tick.
    Ran,
}

pub struct ModeClock {
    pub mode: GameMode,
    pub counter: u32,
    pub strat_secs: u32,
    pub play_secs: u32,
    pub autonomous: Option<Autonomous>,
    pub is_io: bool,
}

impl ModeClock {
    pub open spec fn wf(&self) -> bool {
        &&& FPS * self.strat_secs <= u32::MAX
        &&& FPS * self.play_secs <= u32::MAX
    }

    /// The length in ticks of a stage of mode `m`.
    pub open spec fn stage_ticks(&self, m: GameMode) -> int {
        match m {
            GameMode::Waiting => 1,
            GameMode::Strategy => FPS * self.strat_secs,
            GameMode::Play => FPS * self.play_secs,
        }
    }

    /// A clock in Waiting with the given stage lengths in seconds.
    pub fn new(strat_secs: u32, play_secs: u32, is_io: bool) -> (r: Self)
        requires
            FPS * strat_secs <= u32::MAX,
            FPS * play_secs <= u32::MAX,
        ensures
            r.wf(),
            r.mode == GameMode::Waiting,
            r.counter == 1,
            r.strat_secs == strat_secs,
            r.play_secs == play_secs,
            r.autonomous.is_none(),
            r.is_io == is_io,
    {
        ModeClock { mode: GameMode::Waiting, counter: 1, strat_secs, play_secs, autonomous: None, is_io }
    }

    /// Enters mode `m` with a full stage; entering Waiting also rewinds the
    /// automatic start's countdown.
    pub fn set_mode(&mut self, m: GameMode)
        requires
            old(self).wf(),
        ensures
            final(self).wf(),
            final(self).mode == m,
            final(self).counter == old(self).stage_ticks(m),
            final(self).strat_secs == old(self).strat_secs,
            final(self).play_secs == old(self).play_secs,
            final(self).is_io == old(self).is_io,
            final(self).autonomous == (match (m, old(self).autonomous) {
                (GameMode::Waiting, Some(a)) => Some(Autonomous { remaining: a.timeout, ..a }),
                _ => old(self).autonomous,
            }),
    {
        self.counter = match m {
            GameMode::Waiting => {
                match self.autonomous {
                    Some(a) => {
                        self.autonomous = Some(Autonomous { remaining: a.timeout, ..a });
                    },
                    None => {},
                }
                1
            },
            GameMode::Strategy => FPS * self.strat_secs,
            GameMode::Play => FPS * self.play_secs,
        };
        self.mode = m;
    }

    /// Moves on to the other stage; Waiting stays Waiting.
    pub fn flip(&mut self)
        requires
            old(self).wf(),
        ensures
            final(self).wf(),
            final(self).mode == flipped(old(self).mode),
            final(self).counter == old(self).stage_ticks(flipped(old(self).mode)),
            final(self).strat_secs == old(self).strat_secs,
            final(self).play_secs == old(self).play_secs,
            final(self).is_io == old(self).is_io,
            old(self).mode != GameMode::Waiting ==> final(self).autonomous == old(self).autonomous,
            old(self).mode == GameMode::Waiting ==> final(self).autonomous == (match old(self).autonomous {
                Some(a) => Some(Autonomous { remaining: a.timeout, ..a }),
                None => None,
            }),
    {
        let next = match self.mode {
            GameMode::Strategy => GameMode::Play,
            GameMode::Play => GameMode::Strategy,
            GameMode::Waiting => GameMode::Waiting,
        };
        self.set_mode(next);
    }

    /// Starts the match if it is waiting. Returns whether it did.
    pub fn start(&mut self) -> (started: bool)
        requires
            old(self).wf(),
        ensures
            final(self).wf(),
            started == (old(self).mode == GameMode::Waiting),
            started ==> final(self).mode == GameMode::Strategy && final(self).counter == FPS
                * old(self).strat_secs,
            !started ==> *final(self) == *old(self),
            final(self).strat_secs == old(self).strat_secs,
            final(self).play_secs == old(self).play_secs,
            final(self).is_io == old(self).is_io,
            final(self).autonomous == old(self).autonomous,
    {
        if self.mode == GameMode::Waiting {
            self.set_mode(GameMode::Strategy);
            true
        } else {
            false
        }
    }

    /// One tick of the cycle. `living` is the number of living players,
    /// `one_team_holds_all` whether some team holds every one of them, and
    /// `isnt_rtf` the number of living players that are not real-time fighters.
    ///
    /// While waiting: in continuous mode the match starts at once; else, with
    /// an automatic start set up, enough living players and no team holding
    /// them all, the countdown goes down by one and the match starts when it
    /// reaches zero. Otherwise the stage counter goes down by one, and a
    /// stage that has run out flips; with only real-time fighters left the
    /// match is held in Play.
    pub fn tick(&mut self, living: u32, one_team_holds_all: bool, isnt_rtf: u32) -> (r: ModeStep)
        requires
            old(self).wf(),
        ensures
            final(self).wf(),
            final(self).strat_secs == old(self).strat_secs,
            final(self).play_secs == old(self).play_secs,
            final(self).is_io == old(self).is_io,
            old(self).mode == GameMode::Waiting ==> tick_waiting(*old(self), living, one_team_holds_all, *final(self), r),
            old(self).mode != GameMode::Waiting ==> r == ModeStep::Ran && tick_running(
                *old(self),
                isnt_rtf,
                *final(self),
            ),
    {
        if self.mode == GameMode::Waiting {
            if self.is_io {
                self.start();
                return ModeStep::Started;
            }
            match self.autonomous {
                Some(a) => {
                    if living >= a.min_players && !one_team_holds_all {
                        let remaining: u32 = if a.remaining > 0 {
                            a.remaining - 1
                        } else {
                            0
                        };
                        self.autonomous = Some(Autonomous { remaining, ..a });
                        if remaining == 0 {
                            self.start();
                            ModeStep::Started
                        } else {
                            ModeStep::Countdown(remaining)
                        }
                    } else {
                        ModeStep::Idle
                    }
                },
                None => ModeStep::Idle,
            }
        } else {
            if self.counter > 0 {
                self.counter = self.counter - 1;
            } else {
                self.flip();
            }
            if isnt_rtf == 0 {
                self.set_mode(GameMode::Play);
            }
            ModeStep::Ran
        }
    }
}

/// One tick taken while waiting.
pub open spec fn tick_waiting(
    pre: ModeClock,
    living: u32,
    one_team_holds_all: bool,
    post: ModeClock,
    r: ModeStep,
) -> bool {
    if pre.is_io {
        r == ModeStep::Started && post.mode == GameMode::Strategy && post.counter == FPS
            * pre.strat_secs && post.autonomous == pre.autonomous
    } else {
        match pre.autonomous {
            Some(a) => if living >= a.min_players && !one_team_holds_all {
                let remaining = if a.remaining > 0 {
                    a.remaining - 1
                } else {
                    0
                };
                &&& post.autonomous == Some(Autonomous { remaining: remaining as u32, ..a })
                &&& if remaining == 0 {
                    r == ModeStep::Started && post.mode == GameMode::Strategy && post.counter == FPS
                        * pre.strat_secs
                } else {
                    r == ModeStep::Countdown(remaining as u32) && post.mode == pre.mode
                        && post.counter == pre.counter
                }
            } else {
                r == ModeStep::Idle && post == pre
            },
            None => r == ModeStep::Idle && post == pre,
        }
    }
}

/// One tick taken in Strategy or Play.
pub open spec fn tick_running(pre: ModeClock, isnt_rtf: u32, post: ModeClock) -> bool {
    &&& post.autonomous == pre.autonomous
    &&& if isnt_rtf == 0 {
        post.mode == GameMode::Play && post.counter == FPS * pre.play_secs
    } else if pre.counter > 0 {
        post.mode == pre.mode && post.counter == pre.counter - 1
    } else {
        post.mode == flipped(pre.mode) && post.counter == pre.stage_ticks(flipped(pre.mode))
    }
}

/// How many pieces of rubble a match on a world of side `gamesize` starts
/// with: one per million square units, at most 300.
pub fn rubble_count(gamesize: u32) -> (r: u32)
    ensures
        r == (if gamesize * gamesize / 1_000_000 < 300 { gamesize * gamesize / 1_000_000 } else { 300 }),
{
    proof {
        let g = gamesize as int;
        assert(g * g <= u32::MAX as int * u32::MAX as int) by (nonlinear_arith)
            requires
                0 <= g <= u32::MAX,
        ;
    }
    let area: u64 = gamesize as u64 * gamesize as u64;
    let n: u64 = area / 1_000_000;
    if n < 300 {
        n as u32
    } else {
        300
    }
}

/// A stage that has run out gives way to the other one with a full counter,
/// Play after Strategy and Strategy after Play, as long as some living
/// player is not a real-time fighter; a waiting clock stays in Waiting when
/// flipped.
pub proof fn lemma_mode_cycle(pre: ModeClock, post: ModeClock, isnt_rtf: u32)
    requires
        pre.wf(),
        pre.mode != GameMode::Waiting,
        pre.counter == 0,
        isnt_rtf > 0,
        tick_running(pre, isnt_rtf, post),
    ensures
        pre.mode == GameMode::Strategy ==> post.mode == GameMode::Play && post.counter == FPS
            * pre.play_secs,
        pre.mode == GameMode::Play ==> post.mode == GameMode::Strategy && post.counter == FPS
            * pre.strat_secs,
        flipped(GameMode::Waiting) == GameMode::Waiting,
{
}

} // verus!
