//! Plays, the reasons for which the rules refuse one, and the record of one made.

use vstd::prelude::*;
use crate::pieces::{Piece, Side};
use crate::status::GameOutcome;
use crate::tiles::Tile;

verus! {

/// A single move of a piece, from one square to another.
#[derive(Clone, Copy, Debug, PartialEq, Eq, Hash, Structural)]
pub struct Play {
    pub from: Tile,
    pub to: Tile,
}

impl Play {
    /// The play from `from` to `to`.
    pub fn from_tiles(from: Tile, to: Tile) -> (p: Play)
        ensures
            p == (Play { from, to }),
    {
        Play { from, to }
    }
}

/// Why the rules refuse a play.
#[derive(Clone, Copy, Debug, PartialEq, Eq, Hash, Structural)]
pub enum PlayInvalid {
    /// The piece does not belong to the side whose turn it is.
    WrongPlayer,
    /// There is no piece on the square of origin.
    NoPiece,
    /// A square of the play is off the board.
    OutOfBounds,
    /// The two squares share neither a row nor a column.
    NoCommonAxis,
    /// Another piece stands in the way.
    BlockedByPiece,
    /// The way leads through a square that the piece may not pass.
    MoveThroughBlockedTile,
    /// The play ends on a square that the piece may not occupy.
    MoveOntoBlockedTile,
    /// The piece may not move that far.
    TooFar,
    /// The game is over.
    GameOver,
}

impl PlayInvalid {
    /// The reason at the given place in the engine's list of reasons.
    pub open spec fn spec_from_code(code: u8) -> Option<PlayInvalid> {
        if code == 0 {
            Some(PlayInvalid::WrongPlayer)
        } else if code == 1 {
            Some(PlayInvalid::NoPiece)
        } else if code == 2 {
            Some(PlayInvalid::OutOfBounds)
        } else if code == 3 {
            Some(PlayInvalid::NoCommonAxis)
        } else if code == 4 {
            Some(PlayInvalid::BlockedByPiece)
        } else if code == 5 {
            Some(PlayInvalid::MoveThroughBlockedTile)
        } else if code == 6 {
            Some(PlayInvalid::MoveOntoBlockedTile)
        } else if code == 7 {
            Some(PlayInvalid::TooFar)
        } else if code == 8 {
            Some(PlayInvalid::GameOver)
        } else {
            None
        }
    }

    /// The reason at the given place in the engine's list of reasons.
    #[verifier::when_used_as_spec(spec_from_code)]
    pub fn from_code(code: u8) -> (r: Option<PlayInvalid>)
        ensures
            r == PlayInvalid::spec_from_code(code),
    {
        if code == 0 {
            Some(PlayInvalid::WrongPlayer)
        } else if code == 1 {
            Some(PlayInvalid::NoPiece)
        } else if code == 2 {
            Some(PlayInvalid::OutOfBounds)
        } else if code == 3 {
            Some(PlayInvalid::NoCommonAxis)
        } else if code == 4 {
            Some(PlayInvalid::BlockedByPiece)
        } else if code == 5 {
            Some(PlayInvalid::MoveThroughBlockedTile)
        } else if code == 6 {
            Some(PlayInvalid::MoveOntoBlockedTile)
        } else if code == 7 {
            Some(PlayInvalid::TooFar)
        } else if code == 8 {
            Some(PlayInvalid::GameOver)
        } else {
            None
        }
    }
}

/// A piece and the square on which it stands.
#[derive(Clone, Copy, Debug, PartialEq, Eq, Hash, Structural)]
pub struct PlacedPiece {
    pub tile: Tile,
    pub piece: Piece,
}

/// What a play brought about.
#[derive(Clone, Debug, PartialEq, Eq)]
pub struct PlayEffects {
    /// The pieces that the play captured, with the squares they stood on.
    pub captures: Vec<PlacedPiece>,
    /// The outcome of the game, if the play ended it.
    pub game_outcome: Option<GameOutcome>,
}

/// The record of one play.
#[derive(Clone, Debug, PartialEq, Eq)]
pub struct PlayRecord {
    /// The side that made the play.
    pub side: Side,
    /// The play itself.
    pub play: Play,
    /// What it brought about.
    pub effects: PlayEffects,
}

/// A play's record as a value of mathematics.
pub struct PlayRecordView {
    pub side: Side,
    pub play: Play,
    pub captures: Seq<PlacedPiece>,
    pub game_outcome: Option<GameOutcome>,
}

impl View for PlayRecord {
    type V = PlayRecordView;

    open spec fn view(&self) -> PlayRecordView {
        PlayRecordView {
            side: self.side,
            play: self.play,
            captures: self.effects.captures@,
            game_outcome: self.effects.game_outcome,
        }
    }
}

impl PlayRecord {
    /// A copy of the record.
    pub fn duplicate(&self) -> (r: PlayRecord)
        ensures
            r@ == self@,
    {
        let mut captures: Vec<PlacedPiece> = Vec::new();
        let mut i: usize = 0;
        while i < self.effects.captures.len()
            invariant
                i <= self.effects.captures.len(),
                captures@ == self.effects.captures@.subrange(0, i as int),
            decreases self.effects.captures.len() - i,
        {
            captures.push(self.effects.captures[i]);
            i += 1;
        }
        assert(captures@ == self.effects.captures@);
        PlayRecord {
            side: self.side,
            play: self.play,
            effects: PlayEffects { captures, game_outcome: self.effects.game_outcome },
        }
    }
}

} // verus!
