//! The player's decisions: what to do about what the device sees.

use vstd::prelude::*;

use crate::expert::Board;

verus! {

/// How long the player waits for a board to show up before it gives up, in nanoseconds.
pub const BOARD_TIMEOUT_NS: u64 = 10_000_000_000;

/// How long the player waits for the screen to follow a solve or a claim, in nanoseconds.
pub const SETTLE_NS: u64 = 1_000_000_000;

/// What the player waits for.
#[derive(Debug, Clone, Copy, PartialEq, Eq, Structural)]
pub enum PlayerState {
    WaitForBoard,
    WaitForSolvedBoard,
    WaitForUnsolvedBoard,
}

/// What the player asks its device to do next.
#[derive(Debug, Clone, PartialEq, Eq)]
pub enum Action {
    Wait,
    Solve(Board),
    ClaimRewards,
}

/// Why the player stops.
#[derive(Debug, Clone, Copy, PartialEq, Eq, Structural)]
pub enum TransitionError {
    /// The time given is earlier than the last transition.
    ClockWentBack,
    /// No board was seen for this many nanoseconds.
    NoBoard(u64),
    /// The board stayed solved for this many nanoseconds after the rewards were claimed.
    NoUnsolvedBoard(u64),
}

/// What the device saw: the time, in nanoseconds since a fixed origin, and the board on
/// the screen, if any.
#[derive(Debug, Clone, PartialEq, Eq)]
pub struct PlayerTransitionContext {
    pub now: u64,
    pub board: Option<Board>,
}

/// The player: what it waits for, and since when.
#[derive(Debug, Clone, Copy, PartialEq, Eq, Structural)]
pub struct Player {
    pub state: PlayerState,
    pub last_transition: u64,
}

/// Whether the board on the screen is solved.
pub open spec fn board_solved(b: Board) -> bool {
    forall|k: int| 0 <= k < 37 ==> b@[k] == 0
}

impl Player {
    pub fn new(last_transition: u64) -> (r: Player)
        ensures
            r == (Player { state: PlayerState::WaitForBoard, last_transition }),
    {
        Player { state: PlayerState::WaitForBoard, last_transition }
    }

    fn set_current_state(&mut self, now: u64, new_state: PlayerState)
        ensures
            *final(self) == (Player { state: new_state, last_transition: now }),
    {
        self.state = new_state;
        self.last_transition = now;
    }

    /// Decides what to do about what the device saw, and moves to the next state.
    pub fn transition(&mut self, ctx: PlayerTransitionContext) -> (r: Result<Action, TransitionError>)
        requires
            match ctx.board {
                Some(b) => b.wf(),
                None => true,
            },
        ensures
            ({
                let now = ctx.now;
                let st = old(self).state;
                let elapsed = now - old(self).last_transition;
                let moved = |s: PlayerState| (Player { state: s, last_transition: now });
                if now < old(self).last_transition {
                    r == Err::<Action, TransitionError>(TransitionError::ClockWentBack)
                        && *final(self) == *old(self)
                } else {
                    match ctx.board {
                        None => if st == PlayerState::WaitForBoard {
                            if elapsed > BOARD_TIMEOUT_NS {
                                r == Err::<Action, TransitionError>(TransitionError::NoBoard(elapsed as u64))
                                    && *final(self) == *old(self)
                            } else {
                                r == Ok::<Action, TransitionError>(Action::Wait) && *final(self) == *old(self)
                            }
                        } else {
                            r == Ok::<Action, TransitionError>(Action::Wait) && *final(self) == moved(
                                PlayerState::WaitForBoard,
                            )
                        },
                        Some(b) => if board_solved(b) {
                            if st == PlayerState::WaitForUnsolvedBoard {
                                if elapsed > SETTLE_NS {
                                    r == Err::<Action, TransitionError>(
                                        TransitionError::NoUnsolvedBoard(elapsed as u64),
                                    ) && *final(self) == *old(self)
                                } else {
                                    r == Ok::<Action, TransitionError>(Action::Wait) && *final(self)
                                        == *old(self)
                                }
                            } else {
                                r == Ok::<Action, TransitionError>(Action::ClaimRewards) && *final(self)
                                    == moved(PlayerState::WaitForUnsolvedBoard)
                            }
                        } else {
                            if st == PlayerState::WaitForSolvedBoard && elapsed <= SETTLE_NS {
                                r == Ok::<Action, TransitionError>(Action::Wait) && *final(self) == *old(self)
                            } else {
                                r == Ok::<Action, TransitionError>(Action::Solve(b)) && *final(self)
                                    == moved(PlayerState::WaitForSolvedBoard)
                            }
                        },
                    }
                }
            }),
    {
        let PlayerTransitionContext { now, board } = ctx;
        if now < self.last_transition {
            return Err(TransitionError::ClockWentBack);
        }
        let elapsed = now - self.last_transition;
        match board {
            None => {
                if self.state == PlayerState::WaitForBoard {
                    if elapsed > BOARD_TIMEOUT_NS {
                        Err(TransitionError::NoBoard(elapsed))
                    } else {
                        Ok(Action::Wait)
                    }
                } else {
                    self.set_current_state(now, PlayerState::WaitForBoard);
                    Ok(Action::Wait)
                }
            },
            Some(b) => {
                if b.is_solved() {
                    if self.state == PlayerState::WaitForUnsolvedBoard {
                        if elapsed > SETTLE_NS {
                            Err(TransitionError::NoUnsolvedBoard(elapsed))
                        } else {
                            Ok(Action::Wait)
                        }
                    } else {
                        self.set_current_state(now, PlayerState::WaitForUnsolvedBoard);
                        Ok(Action::ClaimRewards)
                    }
                } else {
                    if self.state == PlayerState::WaitForSolvedBoard && elapsed <= SETTLE_NS {
                        Ok(Action::Wait)
                    } else {
                        self.set_current_state(now, PlayerState::WaitForSolvedBoard);
                        Ok(Action::Solve(b))
                    }
                }
            },
        }
    }
}

} // verus!
