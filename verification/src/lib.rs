//! A turn-based tafl session: the live game, its AI opponents and its turn log.
//!
//! The rules of play come from the `hnefatafl` engine, which this crate reaches
//! through the small set of trusted functions in [`engine`]. Beside them only
//! two calls to the machine's clock in [`gamectrl`] and the specification of
//! `String::push` in [`display`] are believed without proof. Everything else
//! is verified: the reading of board texts, the game and its turns, the
//! session's state machine with its check for stale responses, the mailboxes
//! of the AI workers, and the store with its turn log. What holds of them
//! together is stated and proved in [`laws`].

pub mod pieces;
pub mod tiles;
pub mod status;
pub mod board;
pub mod play;
pub mod repetitions;
pub mod state;
pub mod engine;
pub mod error;
pub mod game;
pub mod variants;
pub mod config;
pub mod aictrl;
pub mod gamectrl;
pub mod db;
pub mod laws;
pub mod message;
pub mod display;
