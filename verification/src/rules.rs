//! The rules: which moves are legal, what a move does to the board, and when
//! the game is won.

use vstd::prelude::*;

use crate::board::{count_of, Board, BoardModel};
use crate::cards::Card;
use crate::models::{Move, PieceKind, Player, Pos, RuleError, Square};
use crate::state::{GameState, StateModel};

verus! {

/// Whether `card` offers `mover` a step from `from` to `to`.
pub open spec fn card_reaches(card: Card, mover: Player, from: Pos, to: Pos) -> bool {
    exists|k: int|
        0 <= k < card.spec_moves().len() && from.steps_to(mover, #[trigger] card.spec_moves()[k], to)
}

impl BoardModel {
    /// Whether the player to move may play `m`: both squares are on the
    /// board, the source holds a piece of the mover, the mover holds the card,
    /// the card offers the step, and the destination holds no piece of the
    /// mover.
    pub open spec fn legal(self, m: Move) -> bool {
        &&& m.source.spec_in_bounds()
        &&& m.destination.spec_in_bounds()
        &&& self.at(m.source).spec_owner() == Some(self.turn)
        &&& self.holds(self.turn, m.card)
        &&& card_reaches(m.card, self.turn, m.source, m.destination)
        &&& self.at(m.destination).spec_owner() != Some(self.turn)
    }

    /// The first rule that `m` breaks, if it breaks one.
    pub open spec fn violation(self, m: Move) -> Option<RuleError> {
        if !m.source.spec_in_bounds() || !m.destination.spec_in_bounds() {
            Some(RuleError::OutOfBounds)
        } else if self.at(m.source).spec_owner() != Some(self.turn) {
            Some(RuleError::NotYourPiece)
        } else if !self.holds(self.turn, m.card) {
            Some(RuleError::CardNotInHand)
        } else if !card_reaches(m.card, self.turn, m.source, m.destination) {
            Some(RuleError::NotOnCard)
        } else if self.at(m.destination).spec_owner() == Some(self.turn) {
            Some(RuleError::OwnPieceAtDestination)
        } else {
            None
        }
    }

    /// The mover's hand once `card` has been exchanged for the spare card: the
    /// spare card takes the place the played card leaves.
    pub open spec fn hand_after(self, card: Card) -> Seq<Card> {
        let hand = self.hand(self.turn);
        if hand[0] == card {
            hand.update(0, self.spare_card)
        } else {
            hand.update(1, self.spare_card)
        }
    }

    /// The board once `m` has been played: the piece stands on the
    /// destination, whatever stood there is gone, the source is empty, the
    /// played card is the spare card, the former spare card is in the mover's
    /// hand, and the other player is to move.
    pub open spec fn after(self, m: Move) -> BoardModel {
        BoardModel {
            squares: self.squares.update(m.source.spec_index(), Square::Empty).update(
                m.destination.spec_index(),
                self.at(m.source),
            ),
            red_cards: if self.turn == Player::Red {
                self.hand_after(m.card)
            } else {
                self.red_cards
            },
            blue_cards: if self.turn == Player::Blue {
                self.hand_after(m.card)
            } else {
                self.blue_cards
            },
            spare_card: m.card,
            turn: self.turn.spec_opponent(),
        }
    }

    /// Whether the board is won for `player`: the opponent's master is gone,
    /// or `player`'s master stands on the opponent's temple.
    pub open spec fn wins(self, player: Player) -> bool {
        ||| !self.has_master(player.spec_opponent())
        ||| self.at(player.spec_opponent().spec_temple()) == Square::master(player)
    }

    /// The winner the board names, if it names one. Where the board is won for
    /// both, the player who moved last wins.
    pub open spec fn victor(self) -> Option<Player> {
        if self.wins(self.turn.spec_opponent()) {
            Some(self.turn.spec_opponent())
        } else if self.wins(self.turn) {
            Some(self.turn)
        } else {
            None
        }
    }

    /// The state of a game whose board is this one.
    pub open spec fn resolve(self) -> StateModel {
        match self.victor() {
            Some(winner) => StateModel::Finished { winner, board: self },
            None => StateModel::Playing { board: self },
        }
    }
}

/// A move is legal exactly when it breaks no rule.
pub proof fn lemma_legal_iff_no_violation(b: BoardModel, m: Move)
    ensures
        b.legal(m) <==> b.violation(m) is None,
{
}

/// Replacing one square changes the count of `x` by what left and what came.
pub proof fn lemma_count_update(s: Seq<Square>, i: int, v: Square, x: Square)
    requires
        0 <= i < s.len(),
    ensures
        count_of(s.update(i, v), x) == count_of(s, x) - (if s[i] == x {
            1int
        } else {
            0int
        }) + (if v == x {
            1int
        } else {
            0int
        }),
    decreases s.len(),
{
    let t = s.update(i, v);
    if i == s.len() - 1 {
        assert(t.drop_last() =~= s.drop_last());
    } else {
        assert(t.drop_last() =~= s.drop_last().update(i, v));
        lemma_count_update(s.drop_last(), i, v, x);
    }
}

/// A legal move keeps the board well formed.
pub proof fn lemma_move_keeps_wf(b: BoardModel, m: Move)
    requires
        b.wf(),
        b.legal(m),
    ensures
        b.after(m).wf(),
{
    let src = m.source.spec_index();
    let dst = m.destination.spec_index();
    let mid = b.squares.update(src, Square::Empty);
    let piece = b.at(m.source);
    lemma_count_update(b.squares, src, Square::Empty, Square::master(Player::Red));
    lemma_count_update(b.squares, src, Square::Empty, Square::master(Player::Blue));
    lemma_count_update(b.squares, src, Square::Empty, Square::student(Player::Red));
    lemma_count_update(b.squares, src, Square::Empty, Square::student(Player::Blue));
    lemma_count_update(mid, dst, piece, Square::master(Player::Red));
    lemma_count_update(mid, dst, piece, Square::master(Player::Blue));
    lemma_count_update(mid, dst, piece, Square::student(Player::Red));
    lemma_count_update(mid, dst, piece, Square::student(Player::Blue));
}

/// A move that is accepted in a state that arises in play leads to a state
/// that arises in play.
pub proof fn lemma_attempt_keeps_wf(s: StateModel, m: Move)
    requires
        s.wf(),
        s.attempt(m) is Ok,
    ensures
        s.attempt(m)->Ok_0.wf(),
{
    lemma_move_keeps_wf(s.board(), m);
}

impl Board {
    /// Whether `card` offers `mover` a step from `from` to `to`.
    pub fn card_reaches(card: Card, mover: Player, from: Pos, to: Pos) -> (r: bool)
        ensures
            r == card_reaches(card, mover, from, to),
    {
        let offsets = card.moves();
        let mut k: usize = 0;
        while k < offsets.len()
            invariant
                k <= offsets.len(),
                offsets@ == card.spec_moves(),
                forall|j: int|
                    0 <= j < k ==> !from.steps_to(mover, #[trigger] card.spec_moves()[j], to),
            decreases offsets.len() - k,
        {
            if from.reaches(mover, offsets[k], to) {
                return true;
            }
            k += 1;
        }
        false
    }

    /// The first rule that `m` breaks, if it breaks one.
    pub fn violation(&self, m: Move) -> (r: Option<RuleError>)
        ensures
            r == self@.violation(m),
            r is None <==> self@.legal(m),
    {
        if !m.source.in_bounds() || !m.destination.in_bounds() {
            return Some(RuleError::OutOfBounds);
        }
        match self.at(m.source) {
            Square::Empty => {
                return Some(RuleError::NotYourPiece);
            },
            Square::Occupied { owner, .. } => {
                if owner != self.turn {
                    return Some(RuleError::NotYourPiece);
                }
            },
        }
        if !self.holds(self.turn, m.card) {
            return Some(RuleError::CardNotInHand);
        }
        if !Board::card_reaches(m.card, self.turn, m.source, m.destination) {
            return Some(RuleError::NotOnCard);
        }
        match self.at(m.destination) {
            Square::Empty => None,
            Square::Occupied { owner, .. } => {
                if owner == self.turn {
                    Some(RuleError::OwnPieceAtDestination)
                } else {
                    None
                }
            },
        }
    }

    /// The board once `m` has been played, whether or not the rules allow it.
    pub fn after(&self, m: Move) -> (r: Board)
        requires
            m.source.spec_in_bounds(),
            m.destination.spec_in_bounds(),
        ensures
            r@ == self@.after(m),
    {
        let mut grid = self.grid;
        let piece = grid[m.source.index()];
        grid[m.source.index()] = Square::Empty;
        grid[m.destination.index()] = piece;
        let mut red_cards = self.red_cards;
        let mut blue_cards = self.blue_cards;
        match self.turn {
            Player::Red => {
                if red_cards[0] == m.card {
                    red_cards[0] = self.spare_card;
                } else {
                    red_cards[1] = self.spare_card;
                }
            },
            Player::Blue => {
                if blue_cards[0] == m.card {
                    blue_cards[0] = self.spare_card;
                } else {
                    blue_cards[1] = self.spare_card;
                }
            },
        }
        let r = Board {
            grid,
            red_cards,
            blue_cards,
            spare_card: m.card,
            turn: self.turn.opponent(),
        };
        assert(r@.squares =~= self@.after(m).squares);
        assert(r@.red_cards =~= self@.after(m).red_cards);
        assert(r@.blue_cards =~= self@.after(m).blue_cards);
        r
    }

    /// Whether the board is won for `player`.
    pub fn wins(&self, player: Player) -> (r: bool)
        ensures
            r == self@.wins(player),
    {
        let other = player.opponent();
        !self.has_master(other) || self.at(other.temple()) == (Square::Occupied {
            kind: PieceKind::Master,
            owner: player,
        })
    }

    /// The winner the board names, if it names one.
    pub fn winner(&self) -> (r: Option<Player>)
        ensures
            r == self@.victor(),
    {
        let last = self.turn.opponent();
        if self.wins(last) {
            Some(last)
        } else if self.wins(self.turn) {
            Some(self.turn)
        } else {
            None
        }
    }

    /// The state of a game whose board is this one.
    pub fn resolve(self) -> (r: GameState)
        ensures
            r@ == self@.resolve(),
    {
        match self.winner() {
            Some(winner) => GameState::Finished { winner, board: self },
            None => GameState::Playing { board: self },
        }
    }

    /// Plays `m` for the player to move. A legal move gives the state of the
    /// game after it, finished if the move wins; any other move is refused for
    /// the first rule it breaks. The board itself is left as it was.
    pub fn make_move(&self, m: Move) -> (r: Result<GameState, RuleError>)
        ensures
            r is Ok <==> self@.legal(m),
            match r {
                Ok(state) => state@ == self@.after(m).resolve() && (self@.wf() ==> state@.wf()),
                Err(e) => self@.violation(m) == Some(e),
            },
    {
        match self.violation(m) {
            Some(e) => Err(e),
            None => {
                proof {
                    if self@.wf() {
                        lemma_move_keeps_wf(self@, m);
                    }
                }
                Ok(self.after(m).resolve())
            },
        }
    }
}

} // verus!
