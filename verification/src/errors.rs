//! What can go wrong when a hand is scored.

use vstd::prelude::*;
use vstd::string::StringExecFns;

verus! {

/// The errors of scoring.
#[derive(Debug)]
pub enum GameError {
    /// The cards played are no hand; the text says why.
    InvalidHand(String),
}

impl GameError {
    /// What the error says, for people.
    pub open spec fn spec_message(&self) -> Seq<char> {
        match self {
            GameError::InvalidHand(msg) => "Invalid hand: "@ + msg@,
        }
    }

    /// What the error says, for people.
    pub fn message(&self) -> (text: String)
        ensures
            text@ == self.spec_message(),
    {
        match self {
            GameError::InvalidHand(msg) => "Invalid hand: ".to_owned().concat(msg.as_str()),
        }
    }
}

/// What an operation of scoring gives: its result, or the error.
pub type GameResult<T> = Result<T, GameError>;

} // verus!
