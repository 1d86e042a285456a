//! The session: it owns one game, reads one message at a time against the
//! state of that game, and answers each move with a move of its own.

use std::time::Duration;

use vstd::prelude::*;

use crate::deepening::MAX_DEPTH;
use crate::messages::{GameMessage, MessageModel};
use crate::models::Move;
use crate::search::lemma_search_order;
use crate::state::{GameState, StateModel};

verus! {

/// Why a session refuses a message, or cannot answer it with a message.
#[derive(Debug, Copy, Clone, PartialEq, Eq)]
pub enum AgentException {
    /// The move breaks a rule. The state is as it was.
    IllegalMove,
    /// The message has no meaning in the present state. The state is as it was.
    InvalidMessageForState,
    /// The move was played and won the game: there is no reply to it.
    GameFinished,
    /// The move is legal and calls for a reply, and the session has none: it
    /// found no reply, or its reply was refused, now or at an earlier move.
    /// The state is as it was before the move. From then on the session
    /// searches no reply any more; it still refuses an illegal move as
    /// illegal and still plays a move that wins.
    AgentError,
}

/// The mathematical model of a session: the state of its game, the number
/// of the deal it plays, the time it gives to each reply, whether it has
/// ever failed to reply, and the score the search gave its last reply.
pub struct AgentModel {
    pub state: StateModel,
    pub round: u64,
    pub budget: Duration,
    pub faulted: bool,
    pub expected_score: Option<i64>,
}

/// A session.
pub struct Agent {
    state: GameState,
    round: u64,
    budget: Duration,
    faulted: bool,
    expected_score: Option<i64>,
}

impl View for Agent {
    type V = AgentModel;

    closed spec fn view(&self) -> AgentModel {
        AgentModel {
            state: self.state@,
            round: self.round,
            budget: self.budget,
            faulted: self.faulted,
            expected_score: self.expected_score,
        }
    }
}

/// The model of an answer.
pub open spec fn answer_model(r: Result<GameMessage, AgentException>) -> Result<
    MessageModel,
    AgentException,
> {
    match r {
        Ok(msg) => Ok(msg@),
        Err(e) => Err(e),
    }
}

/// The number of the deal after `round`: one more, and 0 after the last
/// number there is.
pub open spec fn next_round(round: u64) -> u64 {
    if round == u64::MAX {
        0
    } else {
        (round + 1) as u64
    }
}

impl AgentModel {
    /// A session that has seen no message and gives `budget` to each reply.
    pub open spec fn fresh(budget: Duration) -> AgentModel {
        AgentModel {
            state: StateModel::opening(0),
            round: 0,
            budget,
            faulted: false,
            expected_score: None,
        }
    }

    /// What becomes of the session and what it answers when `found` is the
    /// reply it found to a move that led to `state`: without a reply, or with
    /// one that the rules refuse, the session keeps its state, reports its
    /// failure and is marked as having failed; else the reply is played and
    /// sent, and its score is kept.
    pub open spec fn reply(self, state: StateModel, found: Option<(Move, i64)>) -> (
        AgentModel,
        Result<MessageModel, AgentException>,
    ) {
        let failed = (AgentModel { faulted: true, ..self }, Err(AgentException::AgentError));
        match found {
            None => failed,
            Some(choice) => match state.attempt(choice.0) {
                Ok(next) => (
                    AgentModel { state: next, expected_score: Some(choice.1), ..self },
                    Ok(MessageModel::Move { game_move: choice.0 }),
                ),
                Err(_) => failed,
            },
        }
    }

    /// What becomes of the session and what it answers when `msg` arrives
    /// and replies are searched `depth` plies deep. A move in a game being
    /// played is first held against the rules: one that breaks a rule is
    /// refused as illegal, one that wins is played and ends the game. Only a
    /// move that calls for a reply is refused by a session that has failed
    /// to reply before.
    pub open spec fn step(self, msg: MessageModel, depth: nat) -> (
        AgentModel,
        Result<MessageModel, AgentException>,
    ) {
        match msg {
            MessageModel::Joined => (self, Ok(MessageModel::Initialize { state: self.state })),
            MessageModel::RequestRematch => match self.state {
                StateModel::Finished { .. } => {
                    let round = next_round(self.round);
                    let state = StateModel::opening((round % 16) as int);
                    (AgentModel { state, round, ..self }, Ok(MessageModel::Initialize { state }))
                },
                StateModel::Playing { .. } => (self, Err(AgentException::InvalidMessageForState)),
            },
            MessageModel::Move { game_move } => match self.state {
                StateModel::Finished { .. } => (self, Err(AgentException::InvalidMessageForState)),
                StateModel::Playing { board } => match self.state.attempt(game_move) {
                    Err(_) => (self, Err(AgentException::IllegalMove)),
                    Ok(next) => match next {
                        StateModel::Finished { .. } => (
                            AgentModel { state: next, ..self },
                            Err(AgentException::GameFinished),
                        ),
                        StateModel::Playing { board: reached } => if self.faulted {
                            (self, Err(AgentException::AgentError))
                        } else {
                            self.reply(next, reached.search_result(depth))
                        },
                    },
                },
            },
            MessageModel::Initialize { .. } => (self, Err(AgentException::InvalidMessageForState)),
        }
    }

    /// The invariant of a session: its game is in a state that arises in play.
    pub open spec fn wf(self) -> bool {
        self.state.wf()
    }
}

/// The time a session of [`Agent::new`] gives to each reply, in seconds.
pub const TIMEOUT_SECONDS: u64 = 1;

/// What `std::time::Duration::from_secs` returns for a number of seconds.
pub uninterp spec fn duration_from_secs(secs: u64) -> Duration;

/// Calls `std::time::Duration::from_secs`, which makes the time of `secs`
/// whole seconds from the number alone. The contract only names that value.
#[verifier::external_body]
fn seconds(secs: u64) -> (r: Duration)
    ensures
        r == duration_from_secs(secs),
{
    Duration::from_secs(secs)
}

impl Agent {
    /// A fresh session: the opening position of the first deal, and one
    /// second for each reply.
    pub fn new() -> (r: Agent)
        ensures
            r@ == AgentModel::fresh(duration_from_secs(TIMEOUT_SECONDS)),
            r@.wf(),
    {
        Agent::with_budget(seconds(TIMEOUT_SECONDS))
    }

    /// A fresh session that gives `budget` of time to each reply.
    pub fn with_budget(budget: Duration) -> (r: Agent)
        ensures
            r@ == AgentModel::fresh(budget),
            r@.wf(),
    {
        Agent { state: GameState::new(), round: 0, budget, faulted: false, expected_score: None }
    }

    /// A session that takes up a game in `state`, as it was read from
    /// outside, and gives `budget` of time to each reply.
    pub fn with_state(state: GameState, budget: Duration) -> (r: Agent)
        ensures
            r@ == (AgentModel { state: state@, ..AgentModel::fresh(budget) }),
    {
        Agent { state, round: 0, budget, faulted: false, expected_score: None }
    }

    /// The state of the session's game.
    pub fn state(&self) -> (r: GameState)
        ensures
            r@ == self@.state,
    {
        self.state
    }

    /// The number of the deal the session plays.
    pub fn round(&self) -> (r: u64)
        ensures
            r == self@.round,
    {
        self.round
    }

    /// Whether the session has never failed to reply. One that has searches
    /// no reply any more.
    pub fn is_healthy(&self) -> (r: bool)
        ensures
            r == !self@.faulted,
    {
        !self.faulted
    }

    /// The score the search gave the last reply the session played, for the
    /// side that replied; nothing before the first reply.
    pub fn expected_score(&self) -> (r: Option<i64>)
        ensures
            r == self@.expected_score,
    {
        self.expected_score
    }

    /// Finishes the answer to a move that led to `state`, given the reply
    /// `found` for it: the reply is played on `state` and sent, and the game
    /// goes on from there. Without a reply, or with one that the rules
    /// refuse, the state stays as it was before the move and the session is
    /// marked as having failed.
    pub fn play_reply(&mut self, state: GameState, found: Option<(Move, i64)>) -> (r: Result<
        GameMessage,
        AgentException,
    >)
        ensures
            (final(self)@, answer_model(r)) == old(self)@.reply(state@, found),
            old(self)@.wf() && state@.wf() ==> final(self)@.wf(),
    {
        let (game_move, score) = match found {
            None => {
                self.faulted = true;
                return Err(AgentException::AgentError);
            },
            Some(choice) => choice,
        };
        match state.try_move(game_move) {
            Ok(next) => {
                self.state = next;
                self.expected_score = Some(score);
                Ok(GameMessage::Move { game_move })
            },
            Err(_) => {
                self.faulted = true;
                Err(AgentException::AgentError)
            },
        }
    }

    /// Plays a reply to the move that led to `state`, found within the
    /// session's budget of time.
    fn play_move(&mut self, state: GameState) -> (r: Result<GameMessage, AgentException>)
        requires
            state@ is Playing,
        ensures
            exists|reached: nat|
                1 <= reached <= MAX_DEPTH && (final(self)@, answer_model(r)) == old(self)@.reply(
                    state@,
                    #[trigger] state@.board().search_result(reached),
                ),
            old(self)@.wf() && state@.wf() ==> final(self)@.wf(),
    {
        let found = state.iterative_deepening(self.budget);
        proof {
            if found is None {
                lemma_search_order(state@.board());
                if state@.board().search_order().len() > 0 {
                    assert(state@.board().legal(state@.board().search_order()[0]));
                }
                assert(found == state@.board().search_result(1));
            }
        }
        self.play_reply(state, found)
    }

    /// Plays a reply to the move that led to `state`, found by a search of
    /// `depth` plies.
    fn play_move_at_depth(&mut self, state: GameState, depth: u32) -> (r: Result<
        GameMessage,
        AgentException,
    >)
        requires
            state@ is Playing,
            depth >= 1,
        ensures
            (final(self)@, answer_model(r)) == old(self)@.reply(
                state@,
                state@.board().search_result(depth as nat),
            ),
            old(self)@.wf() && state@.wf() ==> final(self)@.wf(),
    {
        let found = state.board().search(depth);
        self.play_reply(state, found)
    }

    /// Answers a request for the state.
    fn on_joined(&self) -> (r: Result<GameMessage, AgentException>)
        ensures
            forall|depth: nat|
                (self@, answer_model(r)) == #[trigger] self@.step(MessageModel::Joined, depth),
    {
        Ok(GameMessage::Initialize { state: self.state })
    }

    /// Answers a request for a new game.
    fn on_rematch(&mut self) -> (r: Result<GameMessage, AgentException>)
        ensures
            forall|depth: nat|
                (final(self)@, answer_model(r)) == #[trigger] old(self)@.step(
                    MessageModel::RequestRematch,
                    depth,
                ),
            old(self)@.wf() ==> final(self)@.wf(),
    {
        match self.state {
            GameState::Finished { .. } => {
                self.round = if self.round == u64::MAX {
                    0
                } else {
                    self.round + 1
                };
                self.state = GameState::deal(self.round);
                Ok(GameMessage::Initialize { state: self.state })
            },
            GameState::Playing { .. } => Err(AgentException::InvalidMessageForState),
        }
    }

    /// Answers a move, searching the reply to `depth` plies if a depth is
    /// given and within the budget of time if not.
    fn on_move(&mut self, game_move: Move, depth: Option<u32>) -> (r: Result<
        GameMessage,
        AgentException,
    >)
        requires
            depth matches Some(d) ==> 1 <= d,
        ensures
            exists|reached: nat|
                1 <= reached && (depth is None ==> reached <= MAX_DEPTH) && (depth matches Some(d)
                    ==> reached == d) && (final(self)@, answer_model(r)) == #[trigger] old(
                    self,
                )@.step(MessageModel::Move { game_move }, reached),
            old(self)@.wf() ==> final(self)@.wf(),
    {
        let ghost before = self@;
        let ghost msg = MessageModel::Move { game_move };
        let ghost witness: nat = match depth {
            Some(d) => d as nat,
            None => 1,
        };
        match self.state {
            GameState::Finished { .. } => {
                assert((self@, answer_model(Err(AgentException::InvalidMessageForState)))
                    == before.step(msg, witness));
                return Err(AgentException::InvalidMessageForState);
            },
            GameState::Playing { .. } => {},
        }
        let next = match self.state.try_move(game_move) {
            Ok(next) => next,
            Err(_) => {
                assert((self@, answer_model(Err(AgentException::IllegalMove))) == before.step(
                    msg,
                    witness,
                ));
                return Err(AgentException::IllegalMove);
            },
        };
        match next {
            GameState::Finished { .. } => {
                self.state = next;
                assert((self@, answer_model(Err(AgentException::GameFinished))) == before.step(
                    msg,
                    witness,
                ));
                Err(AgentException::GameFinished)
            },
            GameState::Playing { .. } if self.faulted => {
                assert((self@, answer_model(Err(AgentException::AgentError))) == before.step(
                    msg,
                    witness,
                ));
                Err(AgentException::AgentError)
            },
            GameState::Playing { .. } => match depth {
                None => {
                    let r = self.play_move(next);
                    proof {
                        let reached = choose|reached: nat|
                            1 <= reached <= MAX_DEPTH && (self@, answer_model(r)) == before.reply(
                                next@,
                                #[trigger] next@.board().search_result(reached),
                            );
                        assert((self@, answer_model(r)) == before.step(msg, reached));
                    }
                    r
                },
                Some(d) => {
                    let r = self.play_move_at_depth(next, d);
                    assert((self@, answer_model(r)) == before.step(msg, d as nat));
                    r
                },
            },
        }
    }

    /// Answers `msg`, searching replies to `depth` plies if a depth is given
    /// and within the budget of time if not.
    fn react(&mut self, msg: GameMessage, depth: Option<u32>) -> (r: Result<
        GameMessage,
        AgentException,
    >)
        requires
            depth matches Some(d) ==> 1 <= d,
        ensures
            exists|reached: nat|
                1 <= reached && (depth is None ==> reached <= MAX_DEPTH) && (depth matches Some(d)
                    ==> reached == d) && (final(self)@, answer_model(r)) == #[trigger] old(
                    self,
                )@.step(msg@, reached),
            old(self)@.wf() ==> final(self)@.wf(),
    {
        let ghost before = self@;
        let ghost witness: nat = match depth {
            Some(d) => d as nat,
            None => 1,
        };
        match msg {
            GameMessage::Joined => {
                let r = self.on_joined();
                assert((self@, answer_model(r)) == before.step(msg@, witness));
                r
            },
            GameMessage::RequestRematch => {
                let r = self.on_rematch();
                assert((self@, answer_model(r)) == before.step(msg@, witness));
                r
            },
            GameMessage::Initialize { .. } => {
                assert((self@, answer_model(Err(AgentException::InvalidMessageForState)))
                    == before.step(msg@, witness));
                Err(AgentException::InvalidMessageForState)
            },
            GameMessage::Move { game_move } => self.on_move(game_move, depth),
        }
    }

    /// Reads one message against the state of the game and answers it.
    ///
    /// - `Joined` is answered by the state, at any time.
    /// - `RequestRematch` after a finished game starts the next deal and is
    ///   answered by its opening state.
    /// - A move in a game being played is played if the rules allow it. If it
    ///   wins, the state is the finished game and the answer is
    ///   [`AgentException::GameFinished`]. If not, a reply is searched within
    ///   the budget of time, played and sent, and the game may end with it.
    ///   Where no reply is found the move is not played either, and from then
    ///   on no reply is searched: a move that calls for one is answered by
    ///   [`AgentException::AgentError`].
    /// - A move that breaks a rule is answered by
    ///   [`AgentException::IllegalMove`], whatever went before.
    /// - Anything else is refused, and the state stays as it was.
    ///
    /// How deep the reply is searched depends on the clock. Whatever depth is
    /// reached, session and answer are those of [`AgentModel::step`] at that depth.
    pub fn handle_game_message(&mut self, msg: GameMessage) -> (r: Result<
        GameMessage,
        AgentException,
    >)
        ensures
            exists|reached: nat|
                1 <= reached <= MAX_DEPTH && (final(self)@, answer_model(r)) == #[trigger] old(
                    self,
                )@.step(msg@, reached),
            old(self)@.wf() ==> final(self)@.wf(),
    {
        self.react(msg, None)
    }

    /// Reads one message as [`Agent::handle_game_message`] does, with the
    /// reply searched exactly `depth` plies deep whatever time that takes:
    /// session and answer are then a function of session and message.
    pub fn handle_game_message_at_depth(&mut self, msg: GameMessage, depth: u32) -> (r: Result<
        GameMessage,
        AgentException,
    >)
        requires
            1 <= depth,
        ensures
            (final(self)@, answer_model(r)) == old(self)@.step(msg@, depth as nat),
            old(self)@.wf() ==> final(self)@.wf(),
    {
        self.react(msg, Some(depth))
    }
}

} // verus!
