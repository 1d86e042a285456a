//! Adversarial search to a fixed depth.
//!
//! The score of a position is defined by plain minimax over the legal moves;
//! the executable search prunes with alpha-beta bounds and is proved to find
//! the same score and the same move.

use vstd::prelude::*;

use crate::board::{Board, BoardModel};
use crate::eval::lemma_evaluate_bounds;
use crate::models::{Move, Square};
use crate::movegen::lemma_listed_iff_legal;

verus! {

/// The score of a won game, before the bonus for winning early.
pub const WIN: i64 = 1_000_000;

/// A bound no score reaches, whatever the depth.
pub const SCORE_LIMIT: i64 = 1_000_000_000_000;

impl BoardModel {
    /// Whether `m` lands on a piece.
    pub open spec fn captures(self, m: Move) -> bool {
        self.at(m.destination) != Square::Empty
    }

    /// Those of the first `n` of `moves` that capture, or those that do not,
    /// in their order.
    pub open spec fn sifted(self, moves: Seq<Move>, n: int, capturing: bool) -> Seq<Move>
        decreases n,
    {
        if n <= 0 {
            Seq::empty()
        } else {
            let earlier = self.sifted(moves, n - 1, capturing);
            if self.captures(moves[n - 1]) == capturing {
                earlier.push(moves[n - 1])
            } else {
                earlier
            }
        }
    }

    /// The legal moves in the order in which the search tries them: the
    /// captures first, then the others, each group in the order of the listing.
    pub open spec fn search_order(self) -> Seq<Move> {
        let all = self.legal_move_seq();
        self.sifted(all, all.len() as int, true) + self.sifted(all, all.len() as int, false)
    }

    /// What the move `m` is worth to the mover when `depth` plies are
    /// searched, the move itself being the first: a move that wins scores
    /// `WIN + depth`, so that an earlier win scores higher; any other move
    /// scores what the position after it is worth to the opponent, negated.
    pub open spec fn move_score(self, m: Move, depth: nat) -> int
        decreases depth, 0int, 0int,
    {
        if depth == 0 {
            0
        } else {
            let next = self.after(m);
            match next.victor() {
                Some(winner) => if winner == self.turn {
                    WIN + depth
                } else {
                    -(WIN + depth)
                },
                None => -next.position_score((depth - 1) as nat),
            }
        }
    }

    /// The best of the scores of the first `n` of `moves`, for `n` at least 1.
    pub open spec fn best_score(self, moves: Seq<Move>, n: int, depth: nat) -> int
        decreases depth, 1int, n,
    {
        if n <= 1 {
            self.move_score(moves[0], depth)
        } else {
            let earlier = self.best_score(moves, n - 1, depth);
            let last = self.move_score(moves[n - 1], depth);
            if last > earlier {
                last
            } else {
                earlier
            }
        }
    }

    /// What the position is worth to the player to move when `depth` plies
    /// are searched: the static evaluation at depth 0 or without a legal
    /// move, else the score of the best move.
    pub open spec fn position_score(self, depth: nat) -> int
        decreases depth, 2int, 0int,
    {
        let moves = self.search_order();
        if depth == 0 || moves.len() == 0 {
            self.evaluate()
        } else {
            self.best_score(moves, moves.len() as int, depth)
        }
    }

    /// The place of the first among the first `n` of `moves` that scores best.
    pub open spec fn best_index(self, moves: Seq<Move>, n: int, depth: nat) -> int
        decreases n,
    {
        if n <= 1 {
            0
        } else {
            let k = self.best_index(moves, n - 1, depth);
            if self.move_score(moves[n - 1], depth) > self.move_score(moves[k], depth) {
                n - 1
            } else {
                k
            }
        }
    }

    /// The move the search chooses at `depth`: the first in the search order
    /// that scores best.
    pub open spec fn best_move(self, depth: nat) -> Move {
        let moves = self.search_order();
        moves[self.best_index(moves, moves.len() as int, depth)]
    }

    /// What a search to `depth` returns: nothing without a legal move, else
    /// the chosen move and the score of the position.
    pub open spec fn search_result(self, depth: nat) -> Option<(Move, i64)> {
        if self.search_order().len() == 0 {
            None
        } else {
            Some((self.best_move(depth), self.position_score(depth) as i64))
        }
    }
}

/// Every move of a sifted list is one of the moves it was sifted from, and
/// captures or not as asked.
pub proof fn lemma_sifted_members(b: BoardModel, moves: Seq<Move>, n: int, capturing: bool, i: int)
    requires
        0 <= n <= moves.len(),
        0 <= i < b.sifted(moves, n, capturing).len(),
    ensures
        moves.contains(b.sifted(moves, n, capturing)[i]),
        b.captures(b.sifted(moves, n, capturing)[i]) == capturing,
    decreases n,
{
    if n > 0 {
        let earlier = b.sifted(moves, n - 1, capturing);
        if i < earlier.len() {
            lemma_sifted_members(b, moves, n - 1, capturing, i);
        } else {
            assert(moves[n - 1] == b.sifted(moves, n, capturing)[i]);
        }
    }
}

/// Every one of the first `n` moves is in the sifted list of its kind.
pub proof fn lemma_sifted_complete(b: BoardModel, moves: Seq<Move>, n: int, j: int)
    requires
        0 <= j < n <= moves.len(),
    ensures
        b.sifted(moves, n, b.captures(moves[j])).contains(moves[j]),
    decreases n,
{
    let capturing = b.captures(moves[j]);
    let all = b.sifted(moves, n, capturing);
    let earlier = b.sifted(moves, n - 1, capturing);
    if j == n - 1 {
        assert(all[all.len() - 1] == moves[j]);
    } else {
        lemma_sifted_complete(b, moves, n - 1, j);
        let i = choose|i: int| 0 <= i < earlier.len() && earlier[i] == moves[j];
        assert(all[i] == moves[j]);
    }
}

/// Sifting into captures and others loses and adds nothing.
pub proof fn lemma_sifted_len(b: BoardModel, moves: Seq<Move>, n: int)
    requires
        0 <= n,
    ensures
        b.sifted(moves, n, true).len() + b.sifted(moves, n, false).len() == n,
    decreases n,
{
    if n > 0 {
        lemma_sifted_len(b, moves, n - 1);
    }
}

/// The search order holds exactly the legal moves, as many as the listing.
pub proof fn lemma_search_order(b: BoardModel)
    requires
        b.shaped(),
    ensures
        b.search_order().len() == b.legal_move_seq().len(),
        forall|m: Move| b.search_order().contains(m) <==> b.legal(m),
        forall|i: int| 0 <= i < b.search_order().len() ==> b.legal(#[trigger] b.search_order()[i]),
{
    let all = b.legal_move_seq();
    let n = all.len() as int;
    let hits = b.sifted(all, n, true);
    let rest = b.sifted(all, n, false);
    let order = b.search_order();
    lemma_sifted_len(b, all, n);
    assert forall|i: int| 0 <= i < order.len() implies b.legal(#[trigger] order[i]) by {
        if i < hits.len() {
            lemma_sifted_members(b, all, n, true, i);
        } else {
            lemma_sifted_members(b, all, n, false, i - hits.len());
        }
        lemma_listed_iff_legal(b, order[i]);
    }
    assert forall|m: Move| order.contains(m) <==> b.legal(m) by {
        lemma_listed_iff_legal(b, m);
        if b.legal(m) {
            let j = choose|j: int| 0 <= j < all.len() && all[j] == m;
            lemma_sifted_complete(b, all, n, j);
            if b.captures(m) {
                let i = choose|i: int| 0 <= i < hits.len() && hits[i] == m;
                assert(order[i] == m);
            } else {
                let i = choose|i: int| 0 <= i < rest.len() && rest[i] == m;
                assert(order[hits.len() + i] == m);
            }
        }
    }
}

/// No move scores beyond `WIN + depth` either way, and none scores `WIN` or
/// `-WIN` exactly: a decided game scores beyond them, an open one between them.
pub proof fn lemma_move_score_bounds(b: BoardModel, m: Move, depth: nat)
    requires
        b.shaped(),
        b.legal(m),
        depth >= 1,
    ensures
        -(WIN + depth) <= b.move_score(m, depth) <= WIN + depth,
        b.move_score(m, depth) != WIN,
        b.move_score(m, depth) != -WIN,
    decreases depth, 0int, 0int,
{
    let next = b.after(m);
    assert(next.shaped());
    if next.victor() is None {
        lemma_position_score_bounds(next, (depth - 1) as nat);
    }
}

/// The best of some moves scores within `WIN + depth` either way.
pub proof fn lemma_best_score_bounds(b: BoardModel, moves: Seq<Move>, n: int, depth: nat)
    requires
        b.shaped(),
        depth >= 1,
        n <= moves.len(),
        forall|i: int| 0 <= i < moves.len() ==> b.legal(#[trigger] moves[i]),
        moves.len() >= 1,
    ensures
        -(WIN + depth) <= b.best_score(moves, n, depth) <= WIN + depth,
        b.best_score(moves, n, depth) != WIN,
        b.best_score(moves, n, depth) != -WIN,
    decreases depth, 1int, n,
{
    if n <= 1 {
        lemma_move_score_bounds(b, moves[0], depth);
    } else {
        lemma_best_score_bounds(b, moves, n - 1, depth);
        lemma_move_score_bounds(b, moves[n - 1], depth);
    }
}

/// No position scores beyond `WIN + depth` either way.
pub proof fn lemma_position_score_bounds(b: BoardModel, depth: nat)
    requires
        b.shaped(),
    ensures
        -(WIN + depth) <= b.position_score(depth) <= WIN + depth,
        b.position_score(depth) != WIN,
        b.position_score(depth) != -WIN,
    decreases depth, 2int, 0int,
{
    let moves = b.search_order();
    lemma_evaluate_bounds(b);
    lemma_search_order(b);
    if depth != 0 && moves.len() != 0 {
        lemma_best_score_bounds(b, moves, moves.len() as int, depth);
    }
}

/// The best score of more moves is no less than the best score of fewer.
pub proof fn lemma_best_score_grows(b: BoardModel, moves: Seq<Move>, i: int, n: int, depth: nat)
    requires
        1 <= i <= n,
    ensures
        b.best_score(moves, i, depth) <= b.best_score(moves, n, depth),
    decreases n,
{
    if i < n {
        lemma_best_score_grows(b, moves, i, n - 1, depth);
    }
}

/// The best score is no less than the score of any of the moves.
pub proof fn lemma_best_score_covers(b: BoardModel, moves: Seq<Move>, j: int, n: int, depth: nat)
    requires
        0 <= j < n,
    ensures
        b.move_score(moves[j], depth) <= b.best_score(moves, n, depth),
    decreases n,
{
    if j < n - 1 {
        lemma_best_score_covers(b, moves, j, n - 1, depth);
    }
}

/// The chosen move is one of the moves, scores the best score, and is the
/// first to do so.
pub proof fn lemma_best_index(b: BoardModel, moves: Seq<Move>, n: int, depth: nat)
    requires
        1 <= n,
    ensures
        0 <= b.best_index(moves, n, depth) < n,
        b.move_score(moves[b.best_index(moves, n, depth)], depth) == b.best_score(moves, n, depth),
        forall|j: int|
            0 <= j < b.best_index(moves, n, depth) ==> b.move_score(#[trigger] moves[j], depth)
                < b.best_score(moves, n, depth),
    decreases n,
{
    if n > 1 {
        lemma_best_index(b, moves, n - 1, depth);
        let k = b.best_index(moves, n - 1, depth);
        if b.move_score(moves[n - 1], depth) > b.move_score(moves[k], depth) {
            assert forall|j: int| 0 <= j < n - 1 implies b.move_score(#[trigger] moves[j], depth)
                < b.best_score(moves, n, depth) by {
                lemma_best_score_covers(b, moves, j, n - 1, depth);
            }
        }
    }
}

/// Whether a score says that the game is decided: won or lost by force
/// within the plies searched.
pub open spec fn decided(score: int) -> bool {
    score >= WIN || score <= -WIN
}

/// How the score of one ply more relates to a score: a decided score stays
/// decided and moves one further from zero, the end being one ply further
/// from the horizon; an open score that becomes decided does so by an end
/// at the last ply.
pub open spec fn deepens(shallow: int, deep: int) -> bool {
    &&& shallow >= WIN ==> deep == shallow + 1
    &&& shallow <= -WIN ==> deep == shallow - 1
    &&& !decided(shallow) && decided(deep) ==> deep == WIN + 1 || deep == -(WIN + 1)
}

/// At depth 0 every move scores 0, and so does the best of them.
pub proof fn lemma_best_score_at_zero(b: BoardModel, moves: Seq<Move>, n: int)
    ensures
        b.best_score(moves, n, 0) == 0,
    decreases n,
{
    if n > 1 {
        lemma_best_score_at_zero(b, moves, n - 1);
        assert(b.move_score(moves[n - 1], 0) == 0);
    } else {
        assert(b.move_score(moves[0], 0) == 0);
    }
}

/// The score of a move at one ply more deepens its score.
pub proof fn lemma_move_deepens(b: BoardModel, m: Move, depth: nat)
    requires
        b.shaped(),
        b.legal(m),
    ensures
        deepens(b.move_score(m, depth), b.move_score(m, depth + 1)),
    decreases depth, 0int, 0int,
{
    let next = b.after(m);
    assert(next.shaped());
    if next.victor() is None {
        lemma_evaluate_bounds(next);
        if depth >= 1 {
            lemma_position_deepens(next, (depth - 1) as nat);
        }
    }
}

/// The best score of some moves at one ply more deepens their best score.
pub proof fn lemma_best_deepens(b: BoardModel, moves: Seq<Move>, n: int, depth: nat)
    requires
        b.shaped(),
        1 <= n <= moves.len(),
        forall|i: int| 0 <= i < moves.len() ==> b.legal(#[trigger] moves[i]),
    ensures
        deepens(b.best_score(moves, n, depth), b.best_score(moves, n, depth + 1)),
    decreases depth, 1int, n,
{
    if n <= 1 {
        lemma_move_deepens(b, moves[0], depth);
    } else {
        lemma_best_deepens(b, moves, n - 1, depth);
        lemma_move_deepens(b, moves[n - 1], depth);
        lemma_best_score_bounds(b, moves, n - 1, depth + 1);
        lemma_move_score_bounds(b, moves[n - 1], depth + 1);
        if depth >= 1 {
            lemma_best_score_bounds(b, moves, n - 1, depth);
            lemma_move_score_bounds(b, moves[n - 1], depth);
        } else {
            lemma_best_score_at_zero(b, moves, n - 1);
        }
    }
}

/// The score of a position at one ply more deepens its score.
pub proof fn lemma_position_deepens(b: BoardModel, depth: nat)
    requires
        b.shaped(),
    ensures
        deepens(b.position_score(depth), b.position_score(depth + 1)),
    decreases depth, 2int, 0int,
{
    let moves = b.search_order();
    lemma_evaluate_bounds(b);
    lemma_search_order(b);
    if moves.len() != 0 {
        lemma_best_deepens(b, moves, moves.len() as int, depth);
        if depth == 0 {
            lemma_best_score_at_zero(b, moves, moves.len() as int);
        }
    }
}

/// Where the best score of some moves is decided, the same move is chosen
/// among them at one ply more.
pub proof fn lemma_best_index_stays(b: BoardModel, moves: Seq<Move>, n: int, depth: nat)
    requires
        b.shaped(),
        depth >= 1,
        1 <= n <= moves.len(),
        forall|i: int| 0 <= i < moves.len() ==> b.legal(#[trigger] moves[i]),
        decided(b.best_score(moves, n, depth)),
    ensures
        b.best_index(moves, n, depth + 1) == b.best_index(moves, n, depth),
    decreases n,
{
    if n > 1 {
        let earlier = b.best_score(moves, n - 1, depth);
        lemma_best_index(b, moves, n - 1, depth);
        lemma_best_index(b, moves, n - 1, depth + 1);
        lemma_best_deepens(b, moves, n - 1, depth);
        lemma_move_deepens(b, moves[n - 1], depth);
        lemma_best_score_bounds(b, moves, n - 1, depth);
        lemma_best_score_bounds(b, moves, n - 1, depth + 1);
        lemma_move_score_bounds(b, moves[n - 1], depth);
        lemma_move_score_bounds(b, moves[n - 1], depth + 1);
        if decided(earlier) {
            lemma_best_index_stays(b, moves, n - 1, depth);
        }
    }
}

/// Whether `found` is what a search of `score` within the window from `alpha`
/// to `beta` may return: the score itself inside the window, a bound above
/// the score at or below `alpha`, a bound below it at or above `beta`.
pub open spec fn within_window(found: int, score: int, alpha: int, beta: int) -> bool {
    &&& found <= alpha ==> score <= found
    &&& alpha < found < beta ==> score == found
    &&& found >= beta ==> score >= found
}

impl Board {
    /// The legal moves in the order in which the search tries them.
    pub fn ordered_moves(&self) -> (r: Vec<Move>)
        ensures
            r@ == self@.search_order(),
            r@.len() == self@.legal_move_seq().len(),
            forall|m: Move| r@.contains(m) <==> self@.legal(m),
            forall|i: int| 0 <= i < r@.len() ==> self@.legal(#[trigger] r@[i]),
    {
        let all = self.legal_moves();
        let mut out: Vec<Move> = Vec::new();
        let mut i: usize = 0;
        while i < all.len()
            invariant
                i <= all.len(),
                forall|m: Move| all@.contains(m) <==> self@.legal(m),
                out@ == self@.sifted(all@, i as int, true),
            decreases all.len() - i,
        {
            let m = all[i];
            assert(all@.contains(m));
            if self.at(m.destination) != Square::Empty {
                out.push(m);
            }
            i += 1;
        }
        let mut j: usize = 0;
        while j < all.len()
            invariant
                j <= all.len(),
                forall|m: Move| all@.contains(m) <==> self@.legal(m),
                out@ == self@.sifted(all@, all.len() as int, true) + self@.sifted(
                    all@,
                    j as int,
                    false,
                ),
            decreases all.len() - j,
        {
            let m = all[j];
            assert(all@.contains(m));
            if self.at(m.destination) == Square::Empty {
                out.push(m);
            }
            proof {
                assert(out@ =~= self@.sifted(all@, all.len() as int, true) + self@.sifted(
                    all@,
                    j + 1,
                    false,
                ));
            }
            j += 1;
        }
        proof {
            lemma_search_order(self@);
        }
        out
    }

    /// Scores the legal move `m` within the window from `alpha` to `beta`.
    fn score_move(&self, m: Move, depth: u32, alpha: i64, beta: i64) -> (r: i64)
        requires
            self@.legal(m),
            depth >= 1,
            -SCORE_LIMIT <= alpha < beta <= SCORE_LIMIT,
        ensures
            within_window(r as int, self@.move_score(m, depth as nat), alpha as int, beta as int),
            -(WIN + depth) <= r <= WIN + depth,
        decreases depth, 0int,
    {
        let next = self.after(m);
        match next.winner() {
            Some(winner) => {
                let won: i64 = WIN + depth as i64;
                if winner == self.turn {
                    won
                } else {
                    -won
                }
            },
            None => -next.alpha_beta(depth - 1, -beta, -alpha),
        }
    }

    /// Scores the position for the player to move, searching `depth` plies
    /// within the window from `alpha` to `beta`.
    pub fn alpha_beta(&self, depth: u32, alpha: i64, beta: i64) -> (r: i64)
        requires
            -SCORE_LIMIT <= alpha < beta <= SCORE_LIMIT,
        ensures
            within_window(r as int, self@.position_score(depth as nat), alpha as int, beta as int),
            -(WIN + depth) <= r <= WIN + depth,
        decreases depth, 1int,
    {
        if depth == 0 {
            return self.evaluate();
        }
        let moves = self.ordered_moves();
        if moves.len() == 0 {
            return self.evaluate();
        }
        let ghost b = self@;
        let ghost d = depth as nat;
        let mut best: i64 = -SCORE_LIMIT;
        let mut floor: i64 = alpha;
        let mut i: usize = 0;
        while i < moves.len() && best < beta
            invariant
                i <= moves.len(),
                b == self@,
                d == depth as nat,
                depth >= 1,
                moves@ == b.search_order(),
                forall|k: int| 0 <= k < moves@.len() ==> b.legal(#[trigger] moves@[k]),
                -SCORE_LIMIT <= alpha < beta <= SCORE_LIMIT,
                floor == if best > alpha {
                    best
                } else {
                    alpha
                },
                i == 0 ==> best == -SCORE_LIMIT,
                i >= 1 ==> -(WIN + depth) <= best <= WIN + depth,
                i >= 1 ==> within_window(
                    best as int,
                    b.best_score(moves@, i as int, d),
                    alpha as int,
                    beta as int,
                ),
            decreases moves.len() - i,
        {
            let found = self.score_move(moves[i], depth, floor, beta);
            if found > best {
                best = found;
            }
            if best > floor {
                floor = best;
            }
            i += 1;
        }
        proof {
            lemma_best_score_grows(b, moves@, i as int, moves@.len() as int, d);
        }
        best
    }

    /// Searches `depth` plies and gives the move to play with the score of
    /// the position, or nothing when the player to move has no legal move.
    /// Among the moves that score best the first in the search order is chosen.
    pub fn search(&self, depth: u32) -> (r: Option<(Move, i64)>)
        requires
            depth >= 1,
        ensures
            r == self@.search_result(depth as nat),
            r is Some <==> exists|m: Move| self@.legal(m),
            r matches Some(found) ==> {
                &&& self@.legal(found.0)
                &&& found.1 == self@.position_score(depth as nat)
                &&& found.1 == self@.move_score(found.0, depth as nat)
                &&& forall|m: Move|
                    self@.legal(m) ==> self@.move_score(m, depth as nat) <= found.1
            },
    {
        let moves = self.ordered_moves();
        let ghost b = self@;
        let ghost d = depth as nat;
        if moves.len() == 0 {
            proof {
                assert forall|m: Move| !b.legal(m) by {
                    if b.legal(m) {
                        assert(moves@.contains(m));
                    }
                }
            }
            return None;
        }
        let mut best: i64 = -SCORE_LIMIT;
        let mut choice: usize = 0;
        let mut i: usize = 0;
        while i < moves.len()
            invariant
                i <= moves.len(),
                b == self@,
                d == depth as nat,
                depth >= 1,
                moves@ == b.search_order(),
                forall|k: int| 0 <= k < moves@.len() ==> b.legal(#[trigger] moves@[k]),
                i == 0 ==> best == -SCORE_LIMIT && choice == 0,
                i >= 1 ==> choice == b.best_index(moves@, i as int, d),
                i >= 1 ==> best == b.move_score(moves@[choice as int], d),
                i >= 1 ==> choice < i,
            decreases moves.len() - i,
        {
            proof {
                if i >= 1 {
                    lemma_move_score_bounds(b, moves@[choice as int], d);
                }
            }
            let found = self.score_move(moves[i], depth, best, SCORE_LIMIT);
            if found > best {
                best = found;
                choice = i;
            }
            i += 1;
        }
        proof {
            let n = moves@.len() as int;
            lemma_best_index(b, moves@, n, d);
            assert(moves@.contains(moves@[choice as int]));
            assert forall|m: Move| b.legal(m) implies b.move_score(m, d) <= best by {
                assert(moves@.contains(m));
                let j = choose|j: int| 0 <= j < moves@.len() && moves@[j] == m;
                lemma_best_score_covers(b, moves@, j, n, d);
            }
        }
        Some((moves[choice], best))
    }
}

} // verus!
