//! Onitama: the rule engine, an adversarial search under a time budget and
//! the turn-based session that plays one side of a game.
//!
//! Every executable function carries a contract over the mathematical models
//! defined next to the types ([`board::BoardModel`], [`state::StateModel`],
//! [`agents::AgentModel`]); what holds of the rules, the search and the
//! session as a whole is proved in [`laws`].

pub mod agents;
pub mod board;
pub mod cards;
pub mod deepening;
pub mod eval;
pub mod game;
pub mod laws;
pub mod messages;
pub mod models;
pub mod movegen;
pub mod rules;
pub mod search;
pub mod state;

pub use agents::{Agent, AgentException};
pub use board::Board;
pub use cards::{Card, Offset};
pub use game::Game;
pub use messages::{GameError, GameMessage};
pub use models::{Move, Piece, PieceKind, Player, Pos, RuleError, Square};
pub use state::{GameState, GameView};
