//! A standalone game for one display: it holds the state, takes moves that
//! were read from outside and hands out pictures of the state.

use vstd::prelude::*;

use crate::messages::GameError;
use crate::models::Move;
use crate::state::{GameState, GameView, StateModel};

verus! {

/// One game and its state.
pub struct Game {
    state: GameState,
}

impl View for Game {
    type V = StateModel;

    closed spec fn view(&self) -> StateModel {
        self.state@
    }
}

impl Game {
    /// A game at the opening position of the first deal.
    pub fn new() -> (r: Game)
        ensures
            r@ == StateModel::opening(0),
            r@.wf(),
    {
        Game { state: GameState::new() }
    }

    /// The picture of the game as it stands.
    pub fn get_state(&self) -> (r: GameView)
        ensures
            r.shows(self@),
    {
        self.state.snapshot()
    }

    /// Plays a move that was read from outside. `game_move` is the move, or
    /// the reader's complaint when what arrived was no move. A move that is
    /// accepted replaces the state, and the picture of the new state is
    /// returned; in every other case the state stays as it was.
    pub fn play_move(&mut self, game_move: Result<Move, String>) -> (r: Result<GameView, GameError>)
        ensures
            match game_move {
                Err(complaint) => r == Err::<GameView, GameError>(
                    GameError::Malformed { message: complaint },
                ) && final(self)@ == old(self)@,
                Ok(m) => match old(self)@.attempt(m) {
                    Ok(next) => final(self)@ == next && (r matches Ok(picture) && picture.shows(
                        next,
                    )),
                    Err(reason) => r == Err::<GameView, GameError>(GameError::Rule { reason })
                        && final(self)@ == old(self)@,
                },
            },
            old(self)@.wf() ==> final(self)@.wf(),
    {
        let m = match game_move {
            Ok(m) => m,
            Err(message) => {
                return Err(GameError::Malformed { message });
            },
        };
        match self.state.try_move(m) {
            Ok(next) => {
                self.state = next;
                Ok(self.state.snapshot())
            },
            Err(reason) => Err(GameError::Rule { reason }),
        }
    }

    /// Replaces the state by one that was read from outside. `state` is the
    /// state, or the reader's complaint when what arrived was no state. A
    /// state that was read is taken as it is: whether it can arise in play is
    /// not examined.
    pub fn import(&mut self, state: Result<GameState, String>) -> (r: Result<GameView, GameError>)
        ensures
            match state {
                Ok(given) => final(self)@ == given@ && (r matches Ok(picture) && picture.shows(
                    given@,
                )),
                Err(complaint) => r == Err::<GameView, GameError>(
                    GameError::Malformed { message: complaint },
                ) && final(self)@ == old(self)@,
            },
    {
        match state {
            Ok(given) => {
                self.state = given;
                Ok(self.state.snapshot())
            },
            Err(message) => Err(GameError::Malformed { message }),
        }
    }

    /// The whole state, to be written out.
    pub fn export(&self) -> (r: GameState)
        ensures
            r@ == self@,
    {
        self.state
    }
}

} // verus!
