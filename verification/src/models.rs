//! The plain values of the game: players, positions, pieces, moves and the
//! reasons for which a move is refused.

use vstd::prelude::*;

use crate::cards::{Card, Offset};

verus! {

/// The board has five rows and five columns.
pub const BOARD_SIDE: u8 = 5;

/// The number of squares on the board.
pub const SQUARES: usize = 25;

/// The two sides. Red's home row is row 4, Blue's is row 0.
#[derive(Clone, Copy, Debug, PartialEq, Eq, Hash, Structural)]
pub enum Player {
    Red,
    Blue,
}

/// A square of the board, or a place beside it when a coordinate is 5 or more.
#[derive(Clone, Copy, Debug, PartialEq, Eq, Hash, Structural)]
pub struct Pos {
    pub row: u8,
    pub col: u8,
}

/// The two kinds of piece.
#[derive(Clone, Copy, Debug, PartialEq, Eq, Hash, Structural)]
pub enum PieceKind {
    Master,
    Student,
}

/// What stands on one square.
#[derive(Clone, Copy, Debug, PartialEq, Eq, Hash, Structural)]
pub enum Square {
    Empty,
    Occupied { kind: PieceKind, owner: Player },
}

/// A piece together with the square it stands on.
#[derive(Clone, Copy, Debug, PartialEq, Eq, Hash, Structural)]
pub struct Piece {
    pub kind: PieceKind,
    pub owner: Player,
    pub position: Pos,
}

/// A move as a player submits it: the card played, the square the piece
/// leaves and the square it goes to.
#[derive(Clone, Copy, Debug, PartialEq, Eq, Hash, Structural)]
pub struct Move {
    pub card: Card,
    pub source: Pos,
    pub destination: Pos,
}

/// Why a move is refused. The variants are listed in the order in which the
/// conditions are examined: a move that breaks several is refused for the first.
#[derive(Clone, Copy, Debug, PartialEq, Eq, Hash, Structural)]
pub enum RuleError {
    /// The game is over: no move is accepted any more.
    GameFinished,
    /// The source or the destination lies off the board.
    OutOfBounds,
    /// The source square does not hold a piece of the player to move.
    NotYourPiece,
    /// The card is not one of the two the player to move holds.
    CardNotInHand,
    /// The card offers no step from the source to the destination.
    NotOnCard,
    /// The destination holds a piece of the player to move.
    OwnPieceAtDestination,
}

impl Player {
    /// The other side.
    pub open spec fn spec_opponent(self) -> Player {
        match self {
            Player::Red => Player::Blue,
            Player::Blue => Player::Red,
        }
    }

    /// The other side.
    #[verifier::when_used_as_spec(spec_opponent)]
    pub fn opponent(self) -> (r: Player)
        ensures
            r == self.spec_opponent(),
    {
        match self {
            Player::Red => Player::Blue,
            Player::Blue => Player::Red,
        }
    }

    /// The row on which the player's pieces start.
    pub open spec fn spec_home_row(self) -> u8 {
        match self {
            Player::Red => 4,
            Player::Blue => 0,
        }
    }

    /// The row on which the player's pieces start.
    #[verifier::when_used_as_spec(spec_home_row)]
    pub fn home_row(self) -> (r: u8)
        ensures
            r == self.spec_home_row(),
    {
        match self {
            Player::Red => 4,
            Player::Blue => 0,
        }
    }

    /// The player's temple: the middle square of the home row.
    pub open spec fn spec_temple(self) -> Pos {
        Pos { row: self.spec_home_row(), col: 2 }
    }

    /// The player's temple: the middle square of the home row.
    #[verifier::when_used_as_spec(spec_temple)]
    pub fn temple(self) -> (r: Pos)
        ensures
            r == self.spec_temple(),
    {
        Pos { row: self.home_row(), col: 2 }
    }

    /// The factor by which a card's steps are taken: cards are written for
    /// Red, and Blue plays them turned by half a turn.
    pub open spec fn facing(self) -> int {
        match self {
            Player::Red => 1,
            Player::Blue => -1,
        }
    }
}

impl Pos {
    /// Whether the position is a square of the board.
    pub open spec fn spec_in_bounds(self) -> bool {
        self.row < BOARD_SIDE && self.col < BOARD_SIDE
    }

    /// Whether the position is a square of the board.
    #[verifier::when_used_as_spec(spec_in_bounds)]
    pub fn in_bounds(self) -> (r: bool)
        ensures
            r == self.spec_in_bounds(),
    {
        self.row < BOARD_SIDE && self.col < BOARD_SIDE
    }

    /// The place of the square in the row-by-row listing of the board.
    pub open spec fn spec_index(self) -> int {
        self.row * 5 + self.col
    }

    /// The place of the square in the row-by-row listing of the board.
    pub fn index(self) -> (r: usize)
        requires
            self.spec_in_bounds(),
        ensures
            r == self.spec_index(),
            r < SQUARES,
    {
        let row: usize = self.row as usize;
        let col: usize = self.col as usize;
        row * 5 + col
    }

    /// The square at a place of the row-by-row listing.
    pub open spec fn spec_from_index(i: int) -> Pos {
        Pos { row: (i / 5) as u8, col: (i % 5) as u8 }
    }

    /// The square at a place of the row-by-row listing.
    pub fn from_index(i: usize) -> (r: Pos)
        requires
            i < SQUARES,
        ensures
            r == Pos::spec_from_index(i as int),
            r.spec_in_bounds(),
            r.spec_index() == i,
    {
        Pos { row: (i / 5) as u8, col: (i % 5) as u8 }
    }

    /// The row a piece of `mover` reaches from here by the step `o`.
    pub open spec fn target_row(self, mover: Player, o: Offset) -> int {
        self.row + mover.facing() * o.d_row
    }

    /// The column a piece of `mover` reaches from here by the step `o`.
    pub open spec fn target_col(self, mover: Player, o: Offset) -> int {
        self.col + mover.facing() * o.d_col
    }

    /// Whether the step `o`, taken by `mover` from here, ends on `to`.
    pub open spec fn steps_to(self, mover: Player, o: Offset, to: Pos) -> bool {
        to.row == self.target_row(mover, o) && to.col == self.target_col(mover, o)
    }

    /// Whether the step `o`, taken by `mover` from here, ends on `to`.
    pub fn reaches(self, mover: Player, o: Offset, to: Pos) -> (r: bool)
        ensures
            r == self.steps_to(mover, o, to),
    {
        let d_row: i16 = match mover {
            Player::Red => o.d_row as i16,
            Player::Blue => -(o.d_row as i16),
        };
        let d_col: i16 = match mover {
            Player::Red => o.d_col as i16,
            Player::Blue => -(o.d_col as i16),
        };
        to.row as i16 == self.row as i16 + d_row && to.col as i16 == self.col as i16 + d_col
    }

    /// The square a piece of `mover` reaches from here by the step `o`, if
    /// that square is on the board.
    pub fn step(self, mover: Player, o: Offset) -> (r: Option<Pos>)
        ensures
            match r {
                Some(to) => to.spec_in_bounds() && self.steps_to(mover, o, to),
                None => !(0 <= self.target_row(mover, o) < 5 && 0 <= self.target_col(mover, o)
                    < 5),
            },
    {
        let d_row: i16 = match mover {
            Player::Red => o.d_row as i16,
            Player::Blue => -(o.d_row as i16),
        };
        let d_col: i16 = match mover {
            Player::Red => o.d_col as i16,
            Player::Blue => -(o.d_col as i16),
        };
        let row: i16 = self.row as i16 + d_row;
        let col: i16 = self.col as i16 + d_col;
        if 0 <= row && row < 5 && 0 <= col && col < 5 {
            Some(Pos { row: row as u8, col: col as u8 })
        } else {
            None
        }
    }
}

impl Square {
    /// The player whose piece stands on the square.
    pub open spec fn spec_owner(self) -> Option<Player> {
        match self {
            Square::Empty => None,
            Square::Occupied { owner, .. } => Some(owner),
        }
    }

    /// The player whose piece stands on the square.
    #[verifier::when_used_as_spec(spec_owner)]
    pub fn owner(self) -> (r: Option<Player>)
        ensures
            r == self.spec_owner(),
    {
        match self {
            Square::Empty => None,
            Square::Occupied { owner, .. } => Some(owner),
        }
    }

    /// The square that holds `player`'s master.
    pub open spec fn master(player: Player) -> Square {
        Square::Occupied { kind: PieceKind::Master, owner: player }
    }

    /// The square that holds a student of `player`.
    pub open spec fn student(player: Player) -> Square {
        Square::Occupied { kind: PieceKind::Student, owner: player }
    }
}

impl RuleError {
    /// The reason in words.
    pub open spec fn spec_reason(self) -> Seq<char> {
        match self {
            RuleError::GameFinished => "Game Finished"@,
            RuleError::OutOfBounds => "the move leaves the board"@,
            RuleError::NotYourPiece => "the source square holds no piece of the player to move"@,
            RuleError::CardNotInHand => "the player to move does not hold this card"@,
            RuleError::NotOnCard => "the card does not offer this step"@,
            RuleError::OwnPieceAtDestination => "the destination holds a piece of the same player"@,
        }
    }

    /// The reason in words, for the player who sent the move.
    pub fn reason(self) -> (r: String)
        ensures
            r@ == self.spec_reason(),
    {
        match self {
            RuleError::GameFinished => "Game Finished".to_owned(),
            RuleError::OutOfBounds => "the move leaves the board".to_owned(),
            RuleError::NotYourPiece => "the source square holds no piece of the player to move".to_owned(),
            RuleError::CardNotInHand => "the player to move does not hold this card".to_owned(),
            RuleError::NotOnCard => "the card does not offer this step".to_owned(),
            RuleError::OwnPieceAtDestination => "the destination holds a piece of the same player".to_owned(),
        }
    }
}

} // verus!
