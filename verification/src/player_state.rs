use vstd::prelude::*;

use crate::text::str_equals;

verus! {

/// What the music player reports it is doing.
#[derive(Clone, Copy, Debug, PartialEq, Eq, Structural)]
pub enum PlayerState {
    Stopped,
    Playing,
    Paused,
}

/// The state that a player-state name stands for: `"Playing"` and
/// `"Paused"` name themselves, and every other text (`"Stopped"` among
/// them) counts as stopped.
pub open spec fn player_state_named(s: Seq<char>) -> PlayerState {
    if s == "Playing"@ {
        PlayerState::Playing
    } else if s == "Paused"@ {
        PlayerState::Paused
    } else {
        PlayerState::Stopped
    }
}

impl PlayerState {
    /// The state that a player notification reports; a notification without
    /// a state counts as stopped.
    pub fn from_player_info(s: Option<&str>) -> (res: PlayerState)
        ensures
            res == match s {
                Some(name) => player_state_named(name@),
                None => PlayerState::Stopped,
            },
    {
        match s {
            Some(name) => PlayerState::from_str_or_default(name),
            None => PlayerState::Stopped,
        }
    }

    /// Reads a player state from its name; an unknown name gives `Stopped`.
    pub fn from_str_or_default(s: &str) -> (res: PlayerState)
        ensures
            res == player_state_named(s@),
    {
        proof {
            reveal_strlit("Stopped");
            reveal_strlit("Playing");
            reveal_strlit("Paused");
            assert("Stopped"@[1] != "Playing"@[1]);
            assert("Stopped"@.len() != "Paused"@.len());
        }
        if str_equals(s, "Stopped") {
            PlayerState::Stopped
        } else if str_equals(s, "Playing") {
            PlayerState::Playing
        } else if str_equals(s, "Paused") {
            PlayerState::Paused
        } else {
            PlayerState::Stopped
        }
    }
}

} // verus!
