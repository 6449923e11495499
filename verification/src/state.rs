//! The state of a game at one turn.

use vstd::prelude::*;
use crate::pieces::Side;
use crate::repetitions::Repetitions;
use crate::status::GameStatus;

verus! {

/// Everything about a game that changes from turn to turn. Two states are the
/// same state exactly when every field is the same.
#[derive(Clone, Debug, PartialEq, Eq)]
pub struct GameState {
    /// The placement of the pieces, in the engine's board text.
    pub board: String,
    /// The side whose turn it is.
    pub side_to_play: Side,
    /// The record of repeated plays.
    pub repetitions: Repetitions,
    /// The number of plays since a piece was last captured.
    pub plays_since_capture: usize,
    /// Whether the game is still running.
    pub status: GameStatus,
    /// The number of plays made so far.
    pub turn: usize,
}

/// A state as a value of mathematics.
pub struct GameStateView {
    pub board: Seq<char>,
    pub side_to_play: Side,
    pub repetitions: Repetitions,
    pub plays_since_capture: nat,
    pub status: GameStatus,
    pub turn: nat,
}

impl View for GameState {
    type V = GameStateView;

    open spec fn view(&self) -> GameStateView {
        GameStateView {
            board: self.board@,
            side_to_play: self.side_to_play,
            repetitions: self.repetitions,
            plays_since_capture: self.plays_since_capture as nat,
            status: self.status,
            turn: self.turn as nat,
        }
    }
}

impl GameState {
    /// Whether the two states are the same in every field.
    pub fn same_as(&self, other: &GameState) -> (r: bool)
        ensures
            r == (self@ == other@),
    {
        self.board == other.board && self.side_to_play == other.side_to_play
            && self.repetitions.same_as(&other.repetitions) && self.plays_since_capture == other.plays_since_capture
            && self.status == other.status && self.turn == other.turn
    }

    /// A copy of the state.
    pub fn duplicate(&self) -> (r: GameState)
        ensures
            r@ == self@,
    {
        GameState {
            board: self.board.clone(),
            side_to_play: self.side_to_play,
            repetitions: self.repetitions,
            plays_since_capture: self.plays_since_capture,
            status: self.status,
            turn: self.turn,
        }
    }
}

} // verus!
