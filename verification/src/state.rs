//! The state of one game: still being played, or won.

use vstd::prelude::*;

use crate::board::{count_of, opening_squares, Board, BoardModel};
use crate::cards::Card;
use crate::models::{Move, Player, Pos, RuleError, Square};

verus! {

/// The mathematical model of a [`GameState`].
pub enum StateModel {
    Playing { board: BoardModel },
    Finished { winner: Player, board: BoardModel },
}

/// The authoritative state of one game. A finished game always names its
/// winner, and a game being played never does.
#[derive(Clone, Copy, Debug, PartialEq, Eq)]
pub enum GameState {
    Playing { board: Board },
    Finished { winner: Player, board: Board },
}

impl View for GameState {
    type V = StateModel;

    open spec fn view(&self) -> StateModel {
        match *self {
            GameState::Playing { board } => StateModel::Playing { board: board@ },
            GameState::Finished { winner, board } => StateModel::Finished { winner, board: board@ },
        }
    }
}

/// A read-only picture of a game for display: the board as five rows of five
/// squares, the cards, the player to move and, once the game is over, the winner.
#[derive(Clone, Copy, Debug, PartialEq, Eq)]
pub struct GameView {
    pub grid: [[Square; 5]; 5],
    pub red_cards: [Card; 2],
    pub blue_cards: [Card; 2],
    pub spare_card: Card,
    pub turn: Player,
    pub winner: Option<Player>,
}

/// The board at the start of game number `round`: the opening position, with
/// five cards in a row of the deck dealt two to Red, two to Blue and one
/// aside, and the player to move named by the stamp of the card put aside.
pub open spec fn opening_board(round: int) -> BoardModel {
    BoardModel {
        squares: opening_squares(),
        red_cards: seq![Card::spec_nth(5 * round), Card::spec_nth(5 * round + 1)],
        blue_cards: seq![Card::spec_nth(5 * round + 2), Card::spec_nth(5 * round + 3)],
        spare_card: Card::spec_nth(5 * round + 4),
        turn: Card::spec_nth(5 * round + 4).spec_stamp(),
    }
}

impl StateModel {
    /// The board of the game, whether it is over or not.
    pub open spec fn board(self) -> BoardModel {
        match self {
            StateModel::Playing { board } => board,
            StateModel::Finished { board, .. } => board,
        }
    }

    /// The winner of a finished game.
    pub open spec fn winner(self) -> Option<Player> {
        match self {
            StateModel::Playing { .. } => None,
            StateModel::Finished { winner, .. } => Some(winner),
        }
    }

    /// The invariant of a state that arises in play: the board is well formed,
    /// and the game is finished exactly when the board decides it, with the
    /// winner the board names.
    pub open spec fn wf(self) -> bool {
        self.board().wf() && self.winner() == self.board().victor()
    }

    /// What comes of playing `m`: in a game being played, the state after the
    /// move or the rule the move breaks; in a finished game, a refusal.
    pub open spec fn attempt(self, m: Move) -> Result<StateModel, RuleError> {
        match self {
            StateModel::Playing { board } => match board.violation(m) {
                Some(e) => Err(e),
                None => Ok(board.after(m).resolve()),
            },
            StateModel::Finished { .. } => Err(RuleError::GameFinished),
        }
    }

    /// The state at the start of game number `round`.
    pub open spec fn opening(round: int) -> StateModel {
        StateModel::Playing { board: opening_board(round) }
    }
}

impl GameView {
    /// Whether the picture shows the state `s`.
    pub open spec fn shows(self, s: StateModel) -> bool {
        &&& forall|row: int, col: int|
            0 <= row < 5 && 0 <= col < 5 ==> (#[trigger] self.grid@[row]@[col]) == s.board().squares[row
                * 5 + col]
        &&& self.red_cards@ == s.board().red_cards
        &&& self.blue_cards@ == s.board().blue_cards
        &&& self.spare_card == s.board().spare_card
        &&& self.turn == s.board().turn
        &&& self.winner == s.winner()
    }
}

/// The opening position holds one master and four students of each player.
pub proof fn lemma_opening_counts()
    ensures
        count_of(opening_squares(), Square::master(Player::Red)) == 1,
        count_of(opening_squares(), Square::master(Player::Blue)) == 1,
        count_of(opening_squares(), Square::student(Player::Red)) == 4,
        count_of(opening_squares(), Square::student(Player::Blue)) == 4,
{
    lemma_count_prefix(opening_squares(), 25, Square::master(Player::Red));
    lemma_count_prefix(opening_squares(), 25, Square::master(Player::Blue));
    lemma_count_prefix(opening_squares(), 25, Square::student(Player::Red));
    lemma_count_prefix(opening_squares(), 25, Square::student(Player::Blue));
    reveal_with_fuel(count_in_prefix, 26);
}

/// How often `x` occurs among the first `n` squares of `s`.
pub open spec fn count_in_prefix(s: Seq<Square>, n: int, x: Square) -> nat
    decreases n,
{
    if n <= 0 {
        0
    } else {
        count_in_prefix(s, n - 1, x) + if s[n - 1] == x {
            1nat
        } else {
            0nat
        }
    }
}

/// Counting in a prefix is counting in the sequence cut to that prefix.
pub proof fn lemma_count_prefix(s: Seq<Square>, n: int, x: Square)
    requires
        0 <= n <= s.len(),
    ensures
        count_in_prefix(s, n, x) == count_of(s.take(n), x),
        n == s.len() ==> count_in_prefix(s, n, x) == count_of(s, x),
    decreases n,
{
    if n > 0 {
        lemma_count_prefix(s, n - 1, x);
        assert(s.take(n).drop_last() =~= s.take(n - 1));
    }
    if n == s.len() {
        assert(s.take(n) =~= s);
    }
}

/// Five cards in a row of the deck are five different cards, so every
/// opening state is one that arises in play.
pub proof fn lemma_opening_wf(round: int)
    requires
        0 <= round,
    ensures
        StateModel::opening(round).wf(),
        StateModel::opening(round) is Playing,
{
    lemma_opening_counts();
    let b = opening_board(round);
    assert(b.squares[2] == Square::master(Player::Blue));
    assert(b.squares[22] == Square::master(Player::Red));
    assert(b.has_master(Player::Red));
    assert(b.has_master(Player::Blue));
}

impl GameState {
    /// The state at the start of the first game.
    pub fn new() -> (r: GameState)
        ensures
            r@ == StateModel::opening(0),
            r@.wf(),
            r is Playing,
    {
        GameState::deal(0)
    }

    /// The state at the start of game number `round`. Rounds are counted
    /// round the deck: after sixteen the deals repeat.
    pub fn deal(round: u64) -> (r: GameState)
        ensures
            r@ == StateModel::opening((round % 16) as int),
            r@.wf(),
            r is Playing,
    {
        let first: u64 = 5 * (round % 16);
        let board = Board::new(
            [Card::nth(first), Card::nth(first + 1)],
            [Card::nth(first + 2), Card::nth(first + 3)],
            Card::nth(first + 4),
        );
        proof {
            lemma_opening_wf((round % 16) as int);
            assert(board@.red_cards =~= opening_board((round % 16) as int).red_cards);
            assert(board@.blue_cards =~= opening_board((round % 16) as int).blue_cards);
        }
        GameState::Playing { board }
    }

    /// The board of the game, whether it is over or not.
    pub fn board(&self) -> (r: Board)
        ensures
            r@ == self@.board(),
    {
        match *self {
            GameState::Playing { board } => board,
            GameState::Finished { board, .. } => board,
        }
    }

    /// The winner of a finished game.
    pub fn winner(&self) -> (r: Option<Player>)
        ensures
            r == self@.winner(),
    {
        match *self {
            GameState::Playing { .. } => None,
            GameState::Finished { winner, .. } => Some(winner),
        }
    }

    /// Plays `m` in this game and gives the state that follows; the state
    /// itself is left as it was. A finished game accepts no move.
    pub fn try_move(&self, m: Move) -> (r: Result<GameState, RuleError>)
        ensures
            match r {
                Ok(next) => self@.attempt(m) == Ok::<StateModel, RuleError>(next@),
                Err(e) => self@.attempt(m) == Err::<StateModel, RuleError>(e),
            },
            r is Ok <==> self@ is Playing && self@.board().legal(m),
            self@.wf() ==> (r matches Ok(next) ==> next@.wf()),
    {
        match *self {
            GameState::Playing { board } => board.make_move(m),
            GameState::Finished { .. } => Err(RuleError::GameFinished),
        }
    }

    /// The picture of the game for display.
    pub fn snapshot(&self) -> (r: GameView)
        ensures
            r.shows(self@),
    {
        let board = self.board();
        let mut grid = [[Square::Empty;5];5];
        let mut row: usize = 0;
        while row < 5
            invariant
                row <= 5,
                forall|i: int, j: int|
                    0 <= i < row && 0 <= j < 5 ==> (#[trigger] grid@[i]@[j]) == board@.squares[i * 5
                        + j],
            decreases 5 - row,
        {
            let base: usize = row * 5;
            let line = [
                board.grid[base],
                board.grid[base + 1],
                board.grid[base + 2],
                board.grid[base + 3],
                board.grid[base + 4],
            ];
            grid[row] = line;
            row += 1;
        }
        GameView {
            grid,
            red_cards: board.red_cards,
            blue_cards: board.blue_cards,
            spare_card: board.spare_card,
            turn: board.turn,
            winner: self.winner(),
        }
    }
}

} // verus!
