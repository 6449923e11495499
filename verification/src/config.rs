//! The settings of a session: its name, its variant and its two players.

use vstd::prelude::*;
use std::time::Duration;
use crate::pieces::Side;
use crate::variants::{Variant, VariantView};

verus! {

/// One of the two players of a session.
#[derive(Clone, Debug, PartialEq, Eq)]
pub struct Player {
    /// The player's name.
    pub name: String,
    /// The time that the player has for a play, where the player is an AI;
    /// `None` for a human.
    pub ai_play_time: Option<Duration>,
}

/// A player as a value of mathematics.
pub struct PlayerView {
    pub name: Seq<char>,
    pub ai_play_time: Option<Duration>,
}

impl View for Player {
    type V = PlayerView;

    open spec fn view(&self) -> PlayerView {
        PlayerView { name: self.name@, ai_play_time: self.ai_play_time }
    }
}

impl Player {
    /// Whether the player is an AI.
    pub fn is_ai(&self) -> (r: bool)
        ensures
            r == self@.ai_play_time.is_some(),
    {
        self.ai_play_time.is_some()
    }

    /// A copy of the player.
    pub fn duplicate(&self) -> (r: Player)
        ensures
            r@ == self@,
    {
        Player { name: self.name.clone(), ai_play_time: self.ai_play_time }
    }
}

/// The settings of a session.
#[derive(Clone, Debug, PartialEq, Eq)]
pub struct GameSettings {
    pub variant: Variant,
    pub name: String,
    pub attacker: Player,
    pub defender: Player,
}

/// Settings as a value of mathematics.
pub struct GameSettingsView {
    pub variant: VariantView,
    pub name: Seq<char>,
    pub attacker: PlayerView,
    pub defender: PlayerView,
}

impl GameSettingsView {
    /// The player of a side.
    pub open spec fn player(self, side: Side) -> PlayerView {
        match side {
            Side::Attacker => self.attacker,
            Side::Defender => self.defender,
        }
    }
}

impl View for GameSettings {
    type V = GameSettingsView;

    open spec fn view(&self) -> GameSettingsView {
        GameSettingsView {
            variant: self.variant@,
            name: self.name@,
            attacker: self.attacker@,
            defender: self.defender@,
        }
    }
}

impl GameSettings {
    /// The player of a side.
    pub fn player(&self, side: Side) -> (r: &Player)
        ensures
            r@ == self@.player(side),
    {
        match side {
            Side::Attacker => &self.attacker,
            Side::Defender => &self.defender,
        }
    }

    /// A copy of the settings.
    pub fn duplicate(&self) -> (r: GameSettings)
        ensures
            r@ == self@,
    {
        GameSettings {
            variant: self.variant.duplicate(),
            name: self.name.clone(),
            attacker: self.attacker.duplicate(),
            defender: self.defender.duplicate(),
        }
    }
}

} // verus!
