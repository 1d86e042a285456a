use onitama::cards::Card;
use onitama::game::Game;
use onitama::messages::GameError;
use onitama::models::{Move, Player, Pos, RuleError};
use onitama::state::GameState;

fn pos(row: u8, col: u8) -> Pos {
    Pos { row, col }
}

fn mv(card: Card, from: (u8, u8), to: (u8, u8)) -> Move {
    Move { card, source: pos(from.0, from.1), destination: pos(to.0, to.1) }
}

#[test]
fn new_game_shows_the_opening_position() {
    let game = Game::new();
    assert_eq!(game.export(), GameState::new());
    assert_eq!(game.get_state(), GameState::new().snapshot());
}

#[test]
fn accepted_move_replaces_the_state() {
    let mut game = Game::new();
    let m = mv(Card::Frog, (0, 0), (1, 1));
    let view = game.play_move(Ok(m)).unwrap();
    let expected = GameState::new().try_move(m).unwrap();
    assert_eq!(game.export(), expected);
    assert_eq!(view, expected.snapshot());
    assert_eq!(view.turn, Player::Red);
    assert_eq!(view.spare_card, Card::Frog);
}

#[test]
fn refused_move_leaves_the_state() {
    let mut game = Game::new();
    let answer = game.play_move(Ok(mv(Card::Frog, (4, 0), (3, 1))));
    assert_eq!(answer, Err(GameError::Rule { reason: RuleError::NotYourPiece }));
    assert_eq!(game.export(), GameState::new());
}

#[test]
fn unreadable_move_is_reported_with_the_readers_words() {
    let mut game = Game::new();
    let answer = game.play_move(Err("missing field `card`".to_string()));
    let error = answer.unwrap_err();
    assert_eq!(error, GameError::Malformed { message: "missing field `card`".to_string() });
    assert_eq!(error.message(), "missing field `card`");
    assert_eq!(game.export(), GameState::new());
}

#[test]
fn move_in_a_finished_game_is_refused() {
    let mut game = Game::new();
    let over = GameState::Finished { winner: Player::Red, board: GameState::new().board() };
    game.import(Ok(over)).unwrap();
    let answer = game.play_move(Ok(mv(Card::Frog, (0, 0), (1, 1))));
    assert_eq!(answer, Err(GameError::Rule { reason: RuleError::GameFinished }));
    assert_eq!(answer.unwrap_err().message(), "Game Finished");
    assert_eq!(game.export(), over);
}

#[test]
fn import_takes_any_state_that_was_read() {
    let mut game = Game::new();
    // a board that cannot arise in play: the same card five times
    let mut board = GameState::new().board();
    board.red_cards = [Card::Ox, Card::Ox];
    board.blue_cards = [Card::Ox, Card::Ox];
    board.spare_card = Card::Ox;
    let odd = GameState::Playing { board };
    let view = game.import(Ok(odd)).unwrap();
    assert_eq!(view, odd.snapshot());
    assert_eq!(game.export(), odd);
    assert_eq!(game.get_state().red_cards, [Card::Ox, Card::Ox]);
}

#[test]
fn unreadable_state_is_reported_and_nothing_changes() {
    let mut game = Game::new();
    let m = mv(Card::Frog, (0, 0), (1, 1));
    game.play_move(Ok(m)).unwrap();
    let before = game.export();
    let answer = game.import(Err("expected a map".to_string()));
    assert_eq!(answer, Err(GameError::Malformed { message: "expected a map".to_string() }));
    assert_eq!(game.export(), before);
}
