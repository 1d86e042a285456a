//! The list of the legal moves of a board.
//!
//! The moves are listed square by square, row by row; for one square first
//! the moves with the first card of the hand, then those with the second; for
//! one card in the order of the card's steps.

use vstd::prelude::*;

use crate::board::{Board, BoardModel};
use crate::cards::{lemma_card_shape, lemma_steps_differ, Card, Offset};
use crate::models::{Move, Player, Pos, Square, SQUARES};
use crate::rules::card_reaches;

verus! {

impl BoardModel {
    /// The move of the piece on `from` with the step `o` of `card`, if the
    /// step ends on the board and not on a piece of the mover.
    pub open spec fn candidate(self, from: Pos, card: Card, o: Offset) -> Option<Move> {
        let row = from.target_row(self.turn, o);
        let col = from.target_col(self.turn, o);
        let to = Pos { row: row as u8, col: col as u8 };
        if 0 <= row < 5 && 0 <= col < 5 && self.at(to).spec_owner() != Some(self.turn) {
            Some(Move { card, source: from, destination: to })
        } else {
            None
        }
    }

    /// The moves of the piece on `from` with the first `n` steps of `card`.
    pub open spec fn card_moves(self, from: Pos, card: Card, n: int) -> Seq<Move>
        decreases n,
    {
        if n <= 0 {
            Seq::empty()
        } else {
            let earlier = self.card_moves(from, card, n - 1);
            match self.candidate(from, card, card.spec_moves()[n - 1]) {
                Some(m) => earlier.push(m),
                None => earlier,
            }
        }
    }

    /// The moves of the piece on square `i`, if a piece of the mover stands there.
    pub open spec fn square_moves(self, i: int) -> Seq<Move> {
        let from = Pos::spec_from_index(i);
        let hand = self.hand(self.turn);
        if self.squares[i].spec_owner() == Some(self.turn) {
            self.card_moves(from, hand[0], hand[0].spec_moves().len() as int) + self.card_moves(
                from,
                hand[1],
                hand[1].spec_moves().len() as int,
            )
        } else {
            Seq::empty()
        }
    }

    /// The moves of the pieces on the first `n` squares.
    pub open spec fn moves_upto(self, n: int) -> Seq<Move>
        decreases n,
    {
        if n <= 0 {
            Seq::empty()
        } else {
            self.moves_upto(n - 1) + self.square_moves(n - 1)
        }
    }

    /// The legal moves of the player to move, in the order in which they are listed.
    pub open spec fn legal_move_seq(self) -> Seq<Move> {
        self.moves_upto(25)
    }
}

/// A move is among the moves of a card from a square exactly when it is the
/// candidate of one of the card's steps.
pub proof fn lemma_card_moves_contains(b: BoardModel, from: Pos, card: Card, n: int, m: Move)
    requires
        0 <= n,
    ensures
        b.card_moves(from, card, n).contains(m) <==> exists|k: int|
            0 <= k < n && #[trigger] b.candidate(from, card, card.spec_moves()[k]) == Some(m),
    decreases n,
{
    if n > 0 {
        lemma_card_moves_contains(b, from, card, n - 1, m);
        let earlier = b.card_moves(from, card, n - 1);
        let all = b.card_moves(from, card, n);
        match b.candidate(from, card, card.spec_moves()[n - 1]) {
            Some(last) => {
                assert(all == earlier.push(last));
                if all.contains(m) {
                    let i = choose|i: int| 0 <= i < all.len() && all[i] == m;
                    if i < earlier.len() {
                        assert(earlier[i] == m);
                        assert(earlier.contains(m));
                    } else {
                        assert(b.candidate(from, card, card.spec_moves()[n - 1]) == Some(m));
                    }
                }
                if earlier.contains(m) {
                    let i = choose|i: int| 0 <= i < earlier.len() && earlier[i] == m;
                    assert(all[i] == m);
                }
                if last == m {
                    assert(all[all.len() - 1] == m);
                }
            },
            None => {},
        }
    }
}

/// On a board of the right sizes, a candidate from a square of the board is a
/// legal move whenever a piece of the mover stands on the square and the mover
/// holds the card; and every legal move is such a candidate.
pub proof fn lemma_candidate_legal(b: BoardModel, from: Pos, card: Card, k: int, m: Move)
    requires
        b.shaped(),
        from.spec_in_bounds(),
        0 <= k < card.spec_moves().len(),
    ensures
        b.candidate(from, card, card.spec_moves()[k]) == Some(m) <==> {
            &&& m.card == card
            &&& m.source == from
            &&& m.destination.spec_in_bounds()
            &&& from.steps_to(b.turn, card.spec_moves()[k], m.destination)
            &&& b.at(m.destination).spec_owner() != Some(b.turn)
        },
{
    lemma_card_shape(card);
}

/// A move is among the moves of square `i` exactly when it is legal and
/// leaves from that square.
pub proof fn lemma_square_moves_contains(b: BoardModel, i: int, m: Move)
    requires
        b.shaped(),
        0 <= i < 25,
    ensures
        b.square_moves(i).contains(m) <==> b.legal(m) && m.source.spec_index() == i,
{
    let from = Pos::spec_from_index(i);
    let hand = b.hand(b.turn);
    let n0 = hand[0].spec_moves().len() as int;
    let n1 = hand[1].spec_moves().len() as int;
    let first = b.card_moves(from, hand[0], n0);
    let second = b.card_moves(from, hand[1], n1);
    lemma_card_moves_contains(b, from, hand[0], n0, m);
    lemma_card_moves_contains(b, from, hand[1], n1, m);
    assert(from.spec_in_bounds() && from.spec_index() == i);
    assert forall|p: Pos| p.spec_in_bounds() && p.spec_index() == i implies p == from by {}
    if b.squares[i].spec_owner() == Some(b.turn) {
        let both = first + second;
        if both.contains(m) {
            let j = choose|j: int| 0 <= j < both.len() && both[j] == m;
            if j < first.len() {
                assert(first[j] == m);
                let k = choose|k: int|
                    0 <= k < n0 && #[trigger] b.candidate(from, hand[0], hand[0].spec_moves()[k])
                        == Some(m);
                lemma_candidate_legal(b, from, hand[0], k, m);
            } else {
                assert(second[j - first.len()] == m);
                let k = choose|k: int|
                    0 <= k < n1 && #[trigger] b.candidate(from, hand[1], hand[1].spec_moves()[k])
                        == Some(m);
                lemma_candidate_legal(b, from, hand[1], k, m);
            }
        }
        if b.legal(m) && m.source.spec_index() == i {
            let k = choose|k: int|
                0 <= k < m.card.spec_moves().len() && m.source.steps_to(
                    b.turn,
                    #[trigger] m.card.spec_moves()[k],
                    m.destination,
                );
            lemma_candidate_legal(b, from, m.card, k, m);
            if m.card == hand[0] {
                assert(first.contains(m));
                let j = choose|j: int| 0 <= j < first.len() && first[j] == m;
                assert(both[j] == m);
            } else {
                assert(second.contains(m));
                let j = choose|j: int| 0 <= j < second.len() && second[j] == m;
                assert(both[first.len() + j] == m);
            }
        }
    }
}

/// A move is among the moves of the first `n` squares exactly when it is
/// legal and leaves from one of them.
pub proof fn lemma_moves_upto_contains(b: BoardModel, n: int, m: Move)
    requires
        b.shaped(),
        0 <= n <= 25,
    ensures
        b.moves_upto(n).contains(m) <==> b.legal(m) && m.source.spec_index() < n,
    decreases n,
{
    if n > 0 {
        lemma_moves_upto_contains(b, n - 1, m);
        lemma_square_moves_contains(b, n - 1, m);
        let earlier = b.moves_upto(n - 1);
        let here = b.square_moves(n - 1);
        let all = earlier + here;
        if all.contains(m) {
            let j = choose|j: int| 0 <= j < all.len() && all[j] == m;
            if j < earlier.len() {
                assert(earlier[j] == m);
            } else {
                assert(here[j - earlier.len()] == m);
            }
        }
        if earlier.contains(m) {
            let j = choose|j: int| 0 <= j < earlier.len() && earlier[j] == m;
            assert(all[j] == m);
        }
        if here.contains(m) {
            let j = choose|j: int| 0 <= j < here.len() && here[j] == m;
            assert(all[earlier.len() + j] == m);
        }
    }
}

/// The listed moves are exactly the legal moves.
pub proof fn lemma_listed_iff_legal(b: BoardModel, m: Move)
    requires
        b.shaped(),
    ensures
        b.legal_move_seq().contains(m) <==> b.legal(m),
{
    lemma_moves_upto_contains(b, 25, m);
}

/// Where a step leads: Red takes it as the card shows it, Blue the other way round.
pub proof fn lemma_targets(from: Pos, mover: Player, o: Offset)
    ensures
        from.target_row(mover, o) == (match mover {
            Player::Red => from.row + o.d_row,
            Player::Blue => from.row - o.d_row,
        }),
        from.target_col(mover, o) == (match mover {
            Player::Red => from.col + o.d_col,
            Player::Blue => from.col - o.d_col,
        }),
{
}

/// No move is listed twice among the moves of one card from one square.
pub proof fn lemma_card_moves_distinct(b: BoardModel, from: Pos, card: Card, n: int)
    requires
        0 <= n <= card.spec_moves().len(),
    ensures
        b.card_moves(from, card, n).no_duplicates(),
        forall|i: int|
            0 <= i < b.card_moves(from, card, n).len() ==> {
                let m = #[trigger] b.card_moves(from, card, n)[i];
                m.card == card && m.source == from
            },
    decreases n,
{
    if n > 0 {
        lemma_card_moves_distinct(b, from, card, n - 1);
        let earlier = b.card_moves(from, card, n - 1);
        match b.candidate(from, card, card.spec_moves()[n - 1]) {
            Some(m) => {
                lemma_card_moves_contains(b, from, card, n - 1, m);
                if earlier.contains(m) {
                    let k = choose|k: int|
                        0 <= k < n - 1 && #[trigger] b.candidate(from, card, card.spec_moves()[k])
                            == Some(m);
                    lemma_steps_differ(card);
                    lemma_card_shape(card);
                    let o1 = card.spec_moves()[k];
                    let o2 = card.spec_moves()[n - 1];
                    assert(from.target_row(b.turn, o1) == from.target_row(b.turn, o2));
                    assert(from.target_col(b.turn, o1) == from.target_col(b.turn, o2));
                    lemma_targets(from, b.turn, o1);
                    lemma_targets(from, b.turn, o2);
                    assert(o1 == o2);
                }
                assert forall|i: int| 0 <= i < earlier.len() implies earlier[i] != m by {
                    if earlier[i] == m {
                        assert(earlier.contains(m));
                    }
                }
            },
            None => {},
        }
    }
}

/// On a board where the player to move holds two different cards, no move is
/// listed twice.
pub proof fn lemma_moves_distinct(b: BoardModel, n: int)
    requires
        b.shaped(),
        b.hand(b.turn)[0] != b.hand(b.turn)[1],
        0 <= n <= 25,
    ensures
        b.moves_upto(n).no_duplicates(),
    decreases n,
{
    if n > 0 {
        lemma_moves_distinct(b, n - 1);
        let earlier = b.moves_upto(n - 1);
        let here = b.square_moves(n - 1);
        let from = Pos::spec_from_index(n - 1);
        let hand = b.hand(b.turn);
        let first = b.card_moves(from, hand[0], hand[0].spec_moves().len() as int);
        let second = b.card_moves(from, hand[1], hand[1].spec_moves().len() as int);
        lemma_card_moves_distinct(b, from, hand[0], hand[0].spec_moves().len() as int);
        lemma_card_moves_distinct(b, from, hand[1], hand[1].spec_moves().len() as int);
        vstd::seq_lib::lemma_no_dup_in_concat(first, second);
        assert(here.no_duplicates());
        assert forall|i: int, j: int| 0 <= i < earlier.len() && 0 <= j < here.len() implies earlier[i]
            != here[j] by {
            lemma_moves_upto_contains(b, n - 1, earlier[i]);
            lemma_square_moves_contains(b, n - 1, here[j]);
            assert(earlier.contains(earlier[i]));
            assert(here.contains(here[j]));
        }
        vstd::seq_lib::lemma_no_dup_in_concat(earlier, here);
    }
}

impl Board {
    /// Appends to `out` the moves of the piece on `from` with `card`, whose
    /// steps are `offsets`.
    fn push_card_moves(&self, out: &mut Vec<Move>, from: Pos, card: Card, offsets: &Vec<Offset>)
        requires
            from.spec_in_bounds(),
            offsets@ == card.spec_moves(),
        ensures
            final(out)@ == old(out)@ + self@.card_moves(
                from,
                card,
                card.spec_moves().len() as int,
            ),
    {
        let mut k: usize = 0;
        while k < offsets.len()
            invariant
                k <= offsets.len(),
                offsets@ == card.spec_moves(),
                from.spec_in_bounds(),
                out@ == old(out)@ + self@.card_moves(from, card, k as int),
            decreases offsets.len() - k,
        {
            let o = offsets[k];
            match from.step(self.turn, o) {
                Some(to) => {
                    let free = match self.at(to) {
                        Square::Empty => true,
                        Square::Occupied { owner, .. } => owner != self.turn,
                    };
                    if free {
                        out.push(Move { card, source: from, destination: to });
                    }
                },
                None => {},
            }
            k += 1;
        }
    }

    /// The legal moves of the player to move, each once on a board whose
    /// cards differ, in the order of the listing.
    pub fn legal_moves(&self) -> (r: Vec<Move>)
        ensures
            r@ == self@.legal_move_seq(),
            forall|m: Move| r@.contains(m) <==> self@.legal(m),
            self@.hand(self@.turn)[0] != self@.hand(self@.turn)[1] ==> r@.no_duplicates(),
    {
        let mut out: Vec<Move> = Vec::new();
        let hand = self.hand(self.turn);
        let first = hand[0].moves();
        let second = hand[1].moves();
        let mut i: usize = 0;
        while i < SQUARES
            invariant
                i <= 25,
                hand@ == self@.hand(self@.turn),
                first@ == hand@[0].spec_moves(),
                second@ == hand@[1].spec_moves(),
                out@ == self@.moves_upto(i as int),
            decreases 25 - i,
        {
            let mine = match self.grid[i] {
                Square::Empty => false,
                Square::Occupied { owner, .. } => owner == self.turn,
            };
            if mine {
                let from = Pos::from_index(i);
                self.push_card_moves(&mut out, from, hand[0], &first);
                self.push_card_moves(&mut out, from, hand[1], &second);
            }
            proof {
                assert(out@ =~= self@.moves_upto(i as int) + self@.square_moves(i as int));
            }
            i += 1;
        }
        proof {
            assert forall|m: Move| out@.contains(m) <==> self@.legal(m) by {
                lemma_listed_iff_legal(self@, m);
            }
            if self@.hand(self@.turn)[0] != self@.hand(self@.turn)[1] {
                lemma_moves_distinct(self@, 25);
            }
        }
        out
    }
}

} // verus!
