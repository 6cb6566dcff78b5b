use crate::names::player::PlayerAlias;
use crate::text::{contains_text, has_part};
use vstd::prelude::*;

verus! {

/// Where a player stands in a game.
#[derive(Clone, Debug, PartialEq)]
pub enum QuestState {
    Spawning {  },
    Playing {
        alias: PlayerAlias,
        /// The score at the start.
        score: u32,
    },
    Dead { reason: String },
}

impl Default for QuestState {
    fn default() -> (r: Self)
        ensures
            r is Spawning,
    {
        QuestState::Spawning {  }
    }
}

/// An error of the client that ends the game.
#[derive(Clone, Copy, Debug, PartialEq, Eq, Structural)]
pub enum FatalError {
    WebGl,
    WebGl2,
}

impl FatalError {
    /// The error that a message of the renderer tells of: one that names WebGL2
    /// is of WebGL2, any other of WebGL.
    pub open spec fn of_message(message: Seq<char>) -> FatalError {
        if has_part(message, "WebGL2"@) {
            FatalError::WebGl2
        } else {
            FatalError::WebGl
        }
    }
}

impl From<String> for FatalError {
    fn from(s: String) -> (r: Self) {
        if contains_text(s.as_str(), "WebGL2") {
            FatalError::WebGl2
        } else {
            FatalError::WebGl
        }
    }
}

impl vstd::std_specs::convert::FromSpecImpl<String> for FatalError {
    open spec fn obeys_from_spec() -> bool {
        true
    }

    open spec fn from_spec(s: String) -> Self {
        FatalError::of_message(s@)
    }
}

} // verus!
