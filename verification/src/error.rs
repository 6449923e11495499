//! What can go wrong.

use vstd::prelude::*;
use crate::play::PlayInvalid;

verus! {

/// Why a play was not made.
#[derive(Clone, Copy, Debug, PartialEq, Eq, Structural)]
pub enum PlayError {
    /// The engine has no game for the session: it cannot read the rules or
    /// the state, or its answer is no state of this game.
    NoGame,
    /// The rules refuse the play.
    Invalid(PlayInvalid),
}

/// Why the store could not do what was asked of it.
#[derive(Clone, Copy, Debug, PartialEq, Eq, Structural)]
pub enum DbError {
    /// There is no row for the session or the variant that was asked for.
    RowNotFound,
    /// What is stored does not make a game.
    Parse,
    /// A number does not fit the column it is meant for.
    Range,
    /// The turn is not the one that comes next in the log.
    OutOfOrder,
}

} // verus!
