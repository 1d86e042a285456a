//! Search under a time budget: deeper and deeper fixed-depth searches until
//! the budget is spent.

use std::time::{Duration, Instant};

use vstd::prelude::*;

use crate::models::Move;
use crate::state::GameState;

verus! {

/// The deepest search that is ever run, however much time is left.
pub const MAX_DEPTH: u32 = 64;

/// A reading of the monotonic clock, `std::time::Instant`. The library only
/// carries such a reading from one clock call to the next.
#[verifier::external_type_specification]
#[verifier::external_body]
pub struct ExInstant(std::time::Instant);

/// Reads the clock with `std::time::Instant::now`. Nothing is claimed of the
/// reading: it differs from call to call. The call needs a target that has a
/// monotonic clock; std panics where there is none.
#[verifier::external_body]
fn clock_now() -> (r: Instant) {
    Instant::now()
}

/// The time gone by since `start`, from `std::time::Instant::elapsed`.
/// Nothing is claimed of it: it depends on when the call is made.
#[verifier::external_body]
fn clock_elapsed(start: &Instant) -> (r: Duration) {
    start.elapsed()
}

/// Whether `a` is a shorter time than `b`, by the `<` that std defines on
/// `std::time::Duration`. Nothing is claimed of the answer.
#[verifier::external_body]
fn shorter(a: &Duration, b: &Duration) -> (r: bool) {
    a < b
}

impl GameState {
    /// Picks a move for the player to move within about `budget` of time. A
    /// search of one ply always completes; after each completed search, one
    /// ply more is searched if the budget is not yet spent and the depth is
    /// below [`MAX_DEPTH`]. The answer is that of the deepest completed
    /// search. A finished game and a player without a legal move get no answer.
    ///
    /// Which depth is reached depends on the clock; whatever it is, the
    /// answer is the one [`crate::board::Board::search`] gives at that depth.
    /// The clock is that of `std::time::Instant`: on a target without one
    /// this function cannot be used.
    pub fn iterative_deepening(&self, budget: Duration) -> (r: Option<(Move, i64)>)
        ensures
            r is Some <==> self@ is Playing && exists|m: Move| self@.board().legal(m),
            r is Some ==> exists|depth: nat|
                1 <= depth <= MAX_DEPTH && r == #[trigger] self@.board().search_result(depth),
    {
        let board = match *self {
            GameState::Playing { board } => board,
            GameState::Finished { .. } => {
                return None;
            },
        };
        let start = clock_now();
        let mut depth: u32 = 1;
        let mut best = board.search(depth);
        if best.is_none() {
            return None;
        }
        while depth < MAX_DEPTH && shorter(&clock_elapsed(&start), &budget)
            invariant
                1 <= depth <= MAX_DEPTH,
                best is Some,
                best == board@.search_result(depth as nat),
            decreases MAX_DEPTH - depth,
        {
            depth += 1;
            best = board.search(depth);
            proof {
                assert(best is Some);
            }
        }
        best
    }
}

} // verus!
