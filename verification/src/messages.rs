//! What a session and its peer say to each other, and what a standalone game
//! answers when it cannot do what it was asked.

use vstd::prelude::*;

use crate::models::{Move, RuleError};
use crate::state::{GameState, StateModel};

verus! {

/// The mathematical model of a [`GameMessage`].
pub enum MessageModel {
    Joined,
    Initialize { state: StateModel },
    Move { game_move: Move },
    RequestRematch,
}

/// The messages exchanged with a peer. A message carries no history: it is
/// read against the state of the game as it is when the message arrives.
#[derive(Clone, Copy, Debug, PartialEq, Eq)]
pub enum GameMessage {
    /// The peer has joined and asks for the state of the game.
    Joined,
    /// The whole state of the game, for a peer to start from.
    Initialize { state: GameState },
    /// A move: the peer's, or the reply to it.
    Move { game_move: Move },
    /// The peer asks for a new game after a finished one.
    RequestRematch,
}

impl View for GameMessage {
    type V = MessageModel;

    open spec fn view(&self) -> MessageModel {
        match *self {
            GameMessage::Joined => MessageModel::Joined,
            GameMessage::Initialize { state } => MessageModel::Initialize { state: state@ },
            GameMessage::Move { game_move } => MessageModel::Move { game_move },
            GameMessage::RequestRematch => MessageModel::RequestRematch,
        }
    }
}

/// Why a standalone game refuses what it was handed.
#[derive(Debug, PartialEq, Eq)]
pub enum GameError {
    /// What was handed in could not be read as a move or as a state. The
    /// message is the reader's.
    Malformed { message: String },
    /// The move was read and breaks a rule.
    Rule { reason: RuleError },
}

impl GameError {
    /// The error in words.
    pub open spec fn spec_message(self) -> Seq<char> {
        match self {
            GameError::Malformed { message } => message@,
            GameError::Rule { reason } => reason.spec_reason(),
        }
    }

    /// The error in words, for the sender.
    pub fn message(&self) -> (r: String)
        ensures
            r@ == self.spec_message(),
    {
        match self {
            GameError::Malformed { message } => message.clone(),
            GameError::Rule { reason } => reason.reason(),
        }
    }
}

} // verus!
