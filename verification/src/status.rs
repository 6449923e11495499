//! How a game stands: still running, or over with an outcome.

use vstd::prelude::*;
use crate::pieces::Side;

verus! {

/// Why a game was won.
#[derive(Clone, Copy, Debug, PartialEq, Eq, Hash, Structural)]
pub enum WinReason {
    KingEscaped,
    ExitFort,
    KingCaptured,
    AllCaptured,
    Enclosed,
    NoPlays,
    Repetition,
}

/// Why a game was drawn.
#[derive(Clone, Copy, Debug, PartialEq, Eq, Hash, Structural)]
pub enum DrawReason {
    Repetition,
    NoPlays,
}

/// How a game ended.
#[derive(Clone, Copy, Debug, PartialEq, Eq, Hash, Structural)]
pub enum GameOutcome {
    Win(WinReason, Side),
    Draw(DrawReason),
}

/// Whether a game is still running.
#[derive(Clone, Copy, Debug, PartialEq, Eq, Hash, Structural)]
pub enum GameStatus {
    Ongoing,
    Over(GameOutcome),
}

impl WinReason {
    /// The reason at the given place in the engine's list of reasons.
    pub open spec fn spec_from_code(code: u8) -> Option<WinReason> {
        if code == 0 {
            Some(WinReason::KingEscaped)
        } else if code == 1 {
            Some(WinReason::ExitFort)
        } else if code == 2 {
            Some(WinReason::KingCaptured)
        } else if code == 3 {
            Some(WinReason::AllCaptured)
        } else if code == 4 {
            Some(WinReason::Enclosed)
        } else if code == 5 {
            Some(WinReason::NoPlays)
        } else if code == 6 {
            Some(WinReason::Repetition)
        } else {
            None
        }
    }

    /// The reason at the given place in the engine's list of reasons.
    #[verifier::when_used_as_spec(spec_from_code)]
    pub fn from_code(code: u8) -> (r: Option<WinReason>)
        ensures
            r == WinReason::spec_from_code(code),
    {
        if code == 0 {
            Some(WinReason::KingEscaped)
        } else if code == 1 {
            Some(WinReason::ExitFort)
        } else if code == 2 {
            Some(WinReason::KingCaptured)
        } else if code == 3 {
            Some(WinReason::AllCaptured)
        } else if code == 4 {
            Some(WinReason::Enclosed)
        } else if code == 5 {
            Some(WinReason::NoPlays)
        } else if code == 6 {
            Some(WinReason::Repetition)
        } else {
            None
        }
    }
}

impl DrawReason {
    /// The reason at the given place in the engine's list of reasons.
    pub open spec fn spec_from_code(code: u8) -> Option<DrawReason> {
        if code == 0 {
            Some(DrawReason::Repetition)
        } else if code == 1 {
            Some(DrawReason::NoPlays)
        } else {
            None
        }
    }

    /// The reason at the given place in the engine's list of reasons.
    #[verifier::when_used_as_spec(spec_from_code)]
    pub fn from_code(code: u8) -> (r: Option<DrawReason>)
        ensures
            r == DrawReason::spec_from_code(code),
    {
        if code == 0 {
            Some(DrawReason::Repetition)
        } else if code == 1 {
            Some(DrawReason::NoPlays)
        } else {
            None
        }
    }
}

/// A status as the engine bridge hands it over: what kind it is (0 running,
/// 1 won, 2 drawn), the reason's place in the engine's list, and the winner's
/// number.
pub struct StatusCode {
    pub kind: u8,
    pub reason: u8,
    pub side: u8,
}

impl GameStatus {
    /// The status that a triple of numbers stands for, if any.
    pub open spec fn spec_from_code(code: StatusCode) -> Option<GameStatus> {
        if code.kind == 0 {
            Some(GameStatus::Ongoing)
        } else if code.kind == 1 {
            match (WinReason::spec_from_code(code.reason), Side::spec_from_code(code.side)) {
                (Some(r), Some(s)) => Some(GameStatus::Over(GameOutcome::Win(r, s))),
                _ => None,
            }
        } else if code.kind == 2 {
            match DrawReason::spec_from_code(code.reason) {
                Some(r) => Some(GameStatus::Over(GameOutcome::Draw(r))),
                None => None,
            }
        } else {
            None
        }
    }

    /// The status that a triple of numbers stands for, if any.
    #[verifier::when_used_as_spec(spec_from_code)]
    pub fn from_code(code: StatusCode) -> (r: Option<GameStatus>)
        ensures
            r == GameStatus::spec_from_code(code),
    {
        if code.kind == 0 {
            Some(GameStatus::Ongoing)
        } else if code.kind == 1 {
            match (WinReason::from_code(code.reason), Side::from_code(code.side)) {
                (Some(r), Some(s)) => Some(GameStatus::Over(GameOutcome::Win(r, s))),
                _ => None,
            }
        } else if code.kind == 2 {
            match DrawReason::from_code(code.reason) {
                Some(r) => Some(GameStatus::Over(GameOutcome::Draw(r))),
                None => None,
            }
        } else {
            None
        }
    }

    /// Whether the game is still running.
    pub open spec fn spec_is_ongoing(self) -> bool {
        self is Ongoing
    }

    /// Whether the game is still running.
    #[verifier::when_used_as_spec(spec_is_ongoing)]
    pub fn is_ongoing(self) -> (r: bool)
        ensures
            r == self.spec_is_ongoing(),
    {
        match self {
            GameStatus::Ongoing => true,
            GameStatus::Over(_) => false,
        }
    }

    /// The outcome, once the game is over.
    pub open spec fn spec_outcome(self) -> Option<GameOutcome> {
        match self {
            GameStatus::Ongoing => None,
            GameStatus::Over(o) => Some(o),
        }
    }

    /// The outcome, once the game is over.
    #[verifier::when_used_as_spec(spec_outcome)]
    pub fn outcome(self) -> (r: Option<GameOutcome>)
        ensures
            r == self.spec_outcome(),
    {
        match self {
            GameStatus::Ongoing => None,
            GameStatus::Over(o) => Some(o),
        }
    }
}

} // verus!
