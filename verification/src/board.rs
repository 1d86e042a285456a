//! The board: twenty-five squares, the five cards and the player to move.

use vstd::multiset::Multiset;
use vstd::prelude::*;

use crate::cards::Card;
use crate::models::{Piece, PieceKind, Player, Pos, Square, SQUARES};

verus! {

/// The mathematical model of a board: the contracts of the library speak of it.
pub struct BoardModel {
    /// The squares row by row, row 0 first.
    pub squares: Seq<Square>,
    /// The two cards Red holds.
    pub red_cards: Seq<Card>,
    /// The two cards Blue holds.
    pub blue_cards: Seq<Card>,
    /// The card neither player holds.
    pub spare_card: Card,
    /// The player to move.
    pub turn: Player,
}

/// A board as the program holds it. Any value of this type is a board a game
/// may be asked to continue from; whether it can arise in play is said by
/// [`BoardModel::wf`].
#[derive(Clone, Copy, Debug, PartialEq, Eq)]
pub struct Board {
    pub grid: [Square; 25],
    pub red_cards: [Card; 2],
    pub blue_cards: [Card; 2],
    pub spare_card: Card,
    pub turn: Player,
}

impl View for Board {
    type V = BoardModel;

    open spec fn view(&self) -> BoardModel {
        BoardModel {
            squares: self.grid@,
            red_cards: self.red_cards@,
            blue_cards: self.blue_cards@,
            spare_card: self.spare_card,
            turn: self.turn,
        }
    }
}

/// How often `sq` occurs in `squares`.
pub open spec fn count_of(squares: Seq<Square>, sq: Square) -> nat
    decreases squares.len(),
{
    if squares.len() == 0 {
        0
    } else {
        count_of(squares.drop_last(), sq) + if squares.last() == sq {
            1nat
        } else {
            0nat
        }
    }
}

impl BoardModel {
    /// The sizes every board has: 25 squares and two cards in each hand.
    pub open spec fn shaped(self) -> bool {
        &&& self.squares.len() == 25
        &&& self.red_cards.len() == 2
        &&& self.blue_cards.len() == 2
    }

    /// What stands on `pos`.
    pub open spec fn at(self, pos: Pos) -> Square {
        self.squares[pos.spec_index()]
    }

    /// The two cards `player` holds.
    pub open spec fn hand(self, player: Player) -> Seq<Card> {
        match player {
            Player::Red => self.red_cards,
            Player::Blue => self.blue_cards,
        }
    }

    /// Whether `player` holds `card`.
    pub open spec fn holds(self, player: Player, card: Card) -> bool {
        self.hand(player)[0] == card || self.hand(player)[1] == card
    }

    /// Whether `player`'s master stands on the board.
    pub open spec fn has_master(self, player: Player) -> bool {
        exists|i: int| 0 <= i < 25 && #[trigger] self.squares[i] == Square::master(player)
    }

    /// The five cards in play, as a multiset.
    pub open spec fn pool(self) -> Multiset<Card> {
        Multiset::empty().insert(self.red_cards[0]).insert(self.red_cards[1]).insert(
            self.blue_cards[0],
        ).insert(self.blue_cards[1]).insert(self.spare_card)
    }

    /// Whether the five cards are five different cards.
    pub open spec fn cards_distinct(self) -> bool {
        &&& self.red_cards[0] != self.red_cards[1]
        &&& self.red_cards[0] != self.blue_cards[0]
        &&& self.red_cards[0] != self.blue_cards[1]
        &&& self.red_cards[0] != self.spare_card
        &&& self.red_cards[1] != self.blue_cards[0]
        &&& self.red_cards[1] != self.blue_cards[1]
        &&& self.red_cards[1] != self.spare_card
        &&& self.blue_cards[0] != self.blue_cards[1]
        &&& self.blue_cards[0] != self.spare_card
        &&& self.blue_cards[1] != self.spare_card
    }

    /// Whether `player` has at most one master and at most four students.
    pub open spec fn pieces_in_limits(self, player: Player) -> bool {
        &&& count_of(self.squares, Square::master(player)) <= 1
        &&& count_of(self.squares, Square::student(player)) <= 4
    }

    /// The invariant of a board that arises in play: the right sizes, five
    /// different cards, and for each player at most one master and at most
    /// four students.
    pub open spec fn wf(self) -> bool {
        &&& self.shaped()
        &&& self.cards_distinct()
        &&& self.pieces_in_limits(Player::Red)
        &&& self.pieces_in_limits(Player::Blue)
    }
}

/// The squares at the start of a game: Blue on row 0, Red on row 4, each with
/// the master in the middle and two students on either side.
pub open spec fn opening_squares() -> Seq<Square> {
    Seq::new(
        25,
        |i: int|
            if i < 5 {
                if i == 2 {
                    Square::master(Player::Blue)
                } else {
                    Square::student(Player::Blue)
                }
            } else if i >= 20 {
                if i == 22 {
                    Square::master(Player::Red)
                } else {
                    Square::student(Player::Red)
                }
            } else {
                Square::Empty
            },
    )
}

impl Board {
    /// A board without pieces.
    pub fn empty(red_cards: [Card; 2], blue_cards: [Card; 2], spare_card: Card, turn: Player) -> (r:
        Board)
        ensures
            r@.shaped(),
            forall|i: int| 0 <= i < 25 ==> r@.squares[i] == Square::Empty,
            r@.red_cards == red_cards@,
            r@.blue_cards == blue_cards@,
            r@.spare_card == spare_card,
            r@.turn == turn,
    {
        Board { grid: [Square::Empty;25], red_cards, blue_cards, spare_card, turn }
    }

    /// The board at the start of a game with the given deal. The player whose
    /// stamp the spare card bears moves first.
    pub fn new(red_cards: [Card; 2], blue_cards: [Card; 2], spare_card: Card) -> (r: Board)
        ensures
            r@.squares == opening_squares(),
            r@.red_cards == red_cards@,
            r@.blue_cards == blue_cards@,
            r@.spare_card == spare_card,
            r@.turn == spare_card.spec_stamp(),
    {
        let mut grid = [Square::Empty;25];
        let mut col: usize = 0;
        while col < 5
            invariant
                col <= 5,
                forall|i: int| 0 <= i < col ==> grid@[i] == opening_squares()[i],
                forall|i: int| 20 <= i < 20 + col ==> grid@[i] == opening_squares()[i],
                forall|i: int| col <= i < 20 ==> grid@[i] == Square::Empty,
            decreases 5 - col,
        {
            let kind = if col == 2 {
                PieceKind::Master
            } else {
                PieceKind::Student
            };
            grid[col] = Square::Occupied { kind, owner: Player::Blue };
            grid[col + 20] = Square::Occupied { kind, owner: Player::Red };
            col += 1;
        }
        assert(grid@ =~= opening_squares());
        Board { grid, red_cards, blue_cards, spare_card, turn: spare_card.stamp() }
    }

    /// The same board with `square` put on `pos`.
    pub fn with_square(self, pos: Pos, square: Square) -> (r: Board)
        requires
            pos.spec_in_bounds(),
        ensures
            r@ == (BoardModel { squares: self@.squares.update(pos.spec_index(), square), ..self@ }),
    {
        let mut grid = self.grid;
        grid[pos.index()] = square;
        Board { grid, ..self }
    }

    /// What stands on `pos`.
    pub fn at(&self, pos: Pos) -> (r: Square)
        requires
            pos.spec_in_bounds(),
        ensures
            r == self@.at(pos),
    {
        self.grid[pos.index()]
    }

    /// The two cards `player` holds.
    pub fn hand(&self, player: Player) -> (r: [Card; 2])
        ensures
            r@ == self@.hand(player),
    {
        match player {
            Player::Red => self.red_cards,
            Player::Blue => self.blue_cards,
        }
    }

    /// Whether `player` holds `card`.
    pub fn holds(&self, player: Player, card: Card) -> (r: bool)
        ensures
            r == self@.holds(player, card),
    {
        let hand = self.hand(player);
        hand[0] == card || hand[1] == card
    }

    /// Whether `player`'s master stands on the board.
    pub fn has_master(&self, player: Player) -> (r: bool)
        ensures
            r == self@.has_master(player),
    {
        let mut i: usize = 0;
        while i < SQUARES
            invariant
                i <= 25,
                forall|j: int| 0 <= j < i ==> self@.squares[j] != Square::master(player),
            decreases 25 - i,
        {
            if self.grid[i] == (Square::Occupied { kind: PieceKind::Master, owner: player }) {
                return true;
            }
            i += 1;
        }
        false
    }

    /// The pieces on the board, row by row.
    pub fn pieces(&self) -> (r: Vec<Piece>)
        ensures
            r@ == pieces_upto(self@.squares, 25),
    {
        let mut r: Vec<Piece> = Vec::new();
        let mut i: usize = 0;
        while i < SQUARES
            invariant
                i <= 25,
                r@ == pieces_upto(self@.squares, i as int),
            decreases 25 - i,
        {
            match self.grid[i] {
                Square::Empty => {},
                Square::Occupied { kind, owner } => {
                    r.push(Piece { kind, owner, position: Pos::from_index(i) });
                },
            }
            i += 1;
        }
        r
    }
}

/// The pieces on the first `n` squares, row by row, each with its square.
pub open spec fn pieces_upto(squares: Seq<Square>, n: int) -> Seq<Piece>
    decreases n,
{
    if n <= 0 {
        Seq::empty()
    } else {
        match squares[n - 1] {
            Square::Empty => pieces_upto(squares, n - 1),
            Square::Occupied { kind, owner } => pieces_upto(squares, n - 1).push(
                Piece { kind, owner, position: Pos::spec_from_index(n - 1) },
            ),
        }
    }
}

} // verus!
