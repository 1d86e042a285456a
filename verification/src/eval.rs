//! The static evaluation of a board: material, how near each master is to the
//! temple it aims for, and how many moves each side has.

use vstd::prelude::*;

use crate::board::{count_of, Board, BoardModel};
use crate::cards::{lemma_card_shape, Card};
use crate::models::{PieceKind, Player, Pos, Square, SQUARES};

verus! {

/// What a master on the board is worth.
pub const MASTER_VALUE: i64 = 10_000;

/// What a student on the board is worth.
pub const STUDENT_VALUE: i64 = 100;

/// What each step a master has come nearer to the opposing temple is worth.
pub const STEP_VALUE: i64 = 10;

/// The least `i` below `n` with `s[i] == x`, or `n` if there is none.
pub open spec fn first_index(s: Seq<Square>, x: Square, n: int) -> int
    decreases n,
{
    if n <= 0 {
        0
    } else {
        let k = first_index(s, x, n - 1);
        if k < n - 1 {
            k
        } else if s[n - 1] == x {
            n - 1
        } else {
            n
        }
    }
}

/// `first_index` names the first occurrence, and `n` exactly when there is none.
pub proof fn lemma_first_index(s: Seq<Square>, x: Square, n: int)
    requires
        0 <= n,
    ensures
        0 <= first_index(s, x, n) <= n,
        first_index(s, x, n) < n ==> s[first_index(s, x, n)] == x,
        forall|j: int| 0 <= j < first_index(s, x, n) ==> s[j] != x,
    decreases n,
{
    if n > 0 {
        lemma_first_index(s, x, n - 1);
    }
}

/// A square is counted at most once for each place of the sequence.
pub proof fn lemma_count_at_most_len(s: Seq<Square>, x: Square)
    ensures
        count_of(s, x) <= s.len(),
    decreases s.len(),
{
    if s.len() > 0 {
        lemma_count_at_most_len(s.drop_last(), x);
    }
}

impl BoardModel {
    /// The same board with `player` to move.
    pub open spec fn with_turn(self, player: Player) -> BoardModel {
        BoardModel { turn: player, ..self }
    }

    /// The worth of `player`'s pieces.
    pub open spec fn material(self, player: Player) -> int {
        MASTER_VALUE * count_of(self.squares, Square::master(player)) + STUDENT_VALUE * count_of(
            self.squares,
            Square::student(player),
        )
    }

    /// How near `player`'s master is to the opposing temple: 8 on the temple,
    /// one less for every step of row or column it is away, and 0 when the
    /// master is not on the board.
    pub open spec fn closeness(self, player: Player) -> int {
        let k = first_index(self.squares, Square::master(player), 25);
        let goal = player.spec_opponent().spec_temple();
        if k >= 25 {
            0
        } else {
            8 - distance(k / 5, goal.row as int) - distance(k % 5, goal.col as int)
        }
    }

    /// The number of moves `player` would have if it were `player`'s turn.
    pub open spec fn mobility(self, player: Player) -> int {
        self.with_turn(player).legal_move_seq().len() as int
    }

    /// How well `player` stands, taken alone.
    pub open spec fn standing(self, player: Player) -> int {
        self.material(player) + STEP_VALUE * self.closeness(player) + self.mobility(player)
    }

    /// The static evaluation: how much better the player to move stands than
    /// the opponent.
    pub open spec fn evaluate(self) -> int {
        self.standing(self.turn) - self.standing(self.turn.spec_opponent())
    }
}

/// How far two coordinates are apart.
pub open spec fn distance(a: int, b: int) -> int {
    if a <= b {
        b - a
    } else {
        a - b
    }
}

/// The moves listed for the first `n` squares are at most eight for each square.
pub proof fn lemma_move_count(b: BoardModel, n: int)
    requires
        0 <= n,
    ensures
        b.moves_upto(n).len() <= 8 * n,
    decreases n,
{
    if n > 0 {
        lemma_move_count(b, n - 1);
        let from = Pos::spec_from_index(n - 1);
        let hand = b.hand(b.turn);
        lemma_card_shape(hand[0]);
        lemma_card_shape(hand[1]);
        lemma_card_move_count(b, from, hand[0], hand[0].spec_moves().len() as int);
        lemma_card_move_count(b, from, hand[1], hand[1].spec_moves().len() as int);
    }
}

/// A card gives at most one move for each of its steps.
pub proof fn lemma_card_move_count(b: BoardModel, from: Pos, card: Card, n: int)
    requires
        0 <= n,
    ensures
        b.card_moves(from, card, n).len() <= n,
    decreases n,
{
    if n > 0 {
        lemma_card_move_count(b, from, card, n - 1);
    }
}

/// The static evaluation stays within a quarter of a million either way.
pub proof fn lemma_evaluate_bounds(b: BoardModel)
    requires
        b.shaped(),
    ensures
        -260_000 < b.evaluate() < 260_000,
{
    lemma_standing_bounds(b, Player::Red);
    lemma_standing_bounds(b, Player::Blue);
}

/// How well a player stands is never negative and stays below 260 000.
pub proof fn lemma_standing_bounds(b: BoardModel, player: Player)
    requires
        b.shaped(),
    ensures
        0 <= b.standing(player) < 260_000,
{
    lemma_count_at_most_len(b.squares, Square::master(player));
    lemma_count_at_most_len(b.squares, Square::student(player));
    lemma_first_index(b.squares, Square::master(player), 25);
    lemma_move_count(b.with_turn(player), 25);
}

impl Board {
    /// The same board with `player` to move.
    pub fn with_turn(self, player: Player) -> (r: Board)
        ensures
            r@ == self@.with_turn(player),
    {
        Board { turn: player, ..self }
    }

    /// How often `square` occurs on the board.
    pub fn count(&self, square: Square) -> (r: usize)
        ensures
            r == count_of(self@.squares, square),
            r <= 25,
    {
        let mut n: usize = 0;
        let mut i: usize = 0;
        while i < SQUARES
            invariant
                i <= 25,
                n <= i,
                n == count_of(self@.squares.take(i as int), square),
            decreases 25 - i,
        {
            proof {
                assert(self@.squares.take(i + 1).drop_last() =~= self@.squares.take(i as int));
            }
            if self.grid[i] == square {
                n += 1;
            }
            i += 1;
        }
        proof {
            assert(self@.squares.take(25) =~= self@.squares);
        }
        n
    }

    /// How near `player`'s master is to the opposing temple.
    pub fn closeness(&self, player: Player) -> (r: i64)
        ensures
            r == self@.closeness(player),
            0 <= r <= 8,
    {
        let goal = player.opponent().temple();
        let wanted = Square::Occupied { kind: PieceKind::Master, owner: player };
        let mut i: usize = 0;
        while i < SQUARES
            invariant
                i <= 25,
                wanted == Square::master(player),
                goal == player.spec_opponent().spec_temple(),
                first_index(self@.squares, wanted, i as int) == i,
            decreases 25 - i,
        {
            if self.grid[i] == wanted {
                let row: i64 = (i / 5) as i64;
                let col: i64 = (i % 5) as i64;
                let goal_row: i64 = goal.row as i64;
                let goal_col: i64 = goal.col as i64;
                let rows: i64 = if row <= goal_row {
                    goal_row - row
                } else {
                    row - goal_row
                };
                let cols: i64 = if col <= goal_col {
                    goal_col - col
                } else {
                    col - goal_col
                };
                proof {
                    lemma_first_index_stays(self@.squares, wanted, i as int, 25);
                }
                return 8 - rows - cols;
            }
            i += 1;
        }
        0
    }

    /// How well `player` stands, taken alone.
    pub fn standing(&self, player: Player) -> (r: i64)
        ensures
            r == self@.standing(player),
            0 <= r < 260_000,
    {
        proof {
            lemma_standing_bounds(self@, player);
            lemma_move_count(self@.with_turn(player), 25);
        }
        let masters: i64 = self.count(Square::Occupied { kind: PieceKind::Master, owner: player }) as i64;
        let students: i64 = self.count(
            Square::Occupied { kind: PieceKind::Student, owner: player },
        ) as i64;
        let moves: i64 = self.with_turn(player).legal_moves().len() as i64;
        MASTER_VALUE * masters + STUDENT_VALUE * students + STEP_VALUE * self.closeness(player)
            + moves
    }

    /// The static evaluation: how much better the player to move stands than
    /// the opponent.
    pub fn evaluate(&self) -> (r: i64)
        ensures
            r == self@.evaluate(),
            -260_000 < r < 260_000,
    {
        self.standing(self.turn) - self.standing(self.turn.opponent())
    }
}

/// Once found below `n`, the first occurrence is the same for every larger bound.
pub proof fn lemma_first_index_stays(s: Seq<Square>, x: Square, n: int, limit: int)
    requires
        0 <= n < limit,
        first_index(s, x, n) == n,
        s[n] == x,
    ensures
        first_index(s, x, limit) == n,
    decreases limit - n,
{
    if limit > n + 1 {
        lemma_first_index_stays(s, x, n, limit - 1);
    }
}

} // verus!
