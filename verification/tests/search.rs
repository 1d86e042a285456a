use std::time::Duration;

use onitama::board::Board;
use onitama::cards::Card;
use onitama::models::{Move, PieceKind, Player, Pos, Square};
use onitama::search::{SCORE_LIMIT, WIN};
use onitama::state::GameState;

fn pos(row: u8, col: u8) -> Pos {
    Pos { row, col }
}

fn mv(card: Card, from: (u8, u8), to: (u8, u8)) -> Move {
    Move { card, source: pos(from.0, from.1), destination: pos(to.0, to.1) }
}

fn master(owner: Player) -> Square {
    Square::Occupied { kind: PieceKind::Master, owner }
}

fn student(owner: Player) -> Square {
    Square::Occupied { kind: PieceKind::Student, owner }
}

/// Plain minimax without pruning, written against the rules alone.
fn minimax(board: &Board, depth: u32) -> i64 {
    let moves = board.ordered_moves();
    if depth == 0 || moves.is_empty() {
        return board.evaluate();
    }
    moves.iter().map(|m| score(board, *m, depth)).max().unwrap()
}

fn score(board: &Board, m: Move, depth: u32) -> i64 {
    match board.make_move(m).unwrap() {
        GameState::Finished { winner, .. } => {
            if winner == board.turn {
                WIN + depth as i64
            } else {
                -(WIN + depth as i64)
            }
        }
        GameState::Playing { board: next } => -minimax(&next, depth - 1),
    }
}

fn sample_boards() -> Vec<Board> {
    let mut boards = vec![GameState::new().board(), GameState::deal(1).board(), GameState::deal(7).board()];
    let mut state = GameState::deal(2);
    for k in 0..6 {
        let moves = state.board().legal_moves();
        state = state.try_move(moves[(k * 3) % moves.len()]).unwrap();
        if let GameState::Playing { board } = state {
            boards.push(board);
        } else {
            break;
        }
    }
    boards
}

#[test]
fn evaluation_of_the_opening_position() {
    // Equal material and equally near masters; Blue, to move, has 8 moves and Red has 11.
    let board = GameState::new().board();
    assert_eq!(board.standing(Player::Blue), 10_000 + 400 + 40 + 8);
    assert_eq!(board.standing(Player::Red), 10_000 + 400 + 40 + 11);
    assert_eq!(board.evaluate(), -3);
    assert_eq!(board.with_turn(Player::Red).evaluate(), 3);
}

#[test]
fn evaluation_weighs_material_and_closeness() {
    let board = Board::empty(
        [Card::Tiger, Card::Crab],
        [Card::Monkey, Card::Crane],
        Card::Dragon,
        Player::Red,
    )
    .with_square(pos(1, 2), master(Player::Red))
    .with_square(pos(0, 0), master(Player::Blue))
    .with_square(pos(3, 3), student(Player::Red));
    assert_eq!(board.closeness(Player::Red), 7);
    assert_eq!(board.closeness(Player::Blue), 2);
    assert_eq!(board.count(student(Player::Red)), 1);
    let red_moves = board.legal_moves().len() as i64;
    let blue_moves = board.with_turn(Player::Blue).legal_moves().len() as i64;
    assert_eq!(board.standing(Player::Red), 10_000 + 100 + 70 + red_moves);
    assert_eq!(board.standing(Player::Blue), 10_000 + 20 + blue_moves);
    assert_eq!(board.evaluate(), 150 + red_moves - blue_moves);
    let gone = board.with_square(pos(1, 2), Square::Empty);
    assert_eq!(gone.closeness(Player::Red), 0);
}

#[test]
fn captures_are_tried_first() {
    let board = Board::empty(
        [Card::Tiger, Card::Crab],
        [Card::Monkey, Card::Crane],
        Card::Dragon,
        Player::Red,
    )
    .with_square(pos(4, 2), master(Player::Red))
    .with_square(pos(0, 0), master(Player::Blue))
    .with_square(pos(4, 4), student(Player::Blue))
    .with_square(pos(2, 2), student(Player::Blue));
    assert_eq!(
        board.legal_moves(),
        vec![
            mv(Card::Tiger, (4, 2), (2, 2)),
            mv(Card::Crab, (4, 2), (4, 0)),
            mv(Card::Crab, (4, 2), (4, 4)),
            mv(Card::Crab, (4, 2), (3, 2)),
        ]
    );
    assert_eq!(
        board.ordered_moves(),
        vec![
            mv(Card::Tiger, (4, 2), (2, 2)),
            mv(Card::Crab, (4, 2), (4, 4)),
            mv(Card::Crab, (4, 2), (4, 0)),
            mv(Card::Crab, (4, 2), (3, 2)),
        ]
    );
}

#[test]
fn search_agrees_with_plain_minimax() {
    for board in sample_boards() {
        for depth in 1..=3u32 {
            let expected = minimax(&board, depth);
            let (best, found) = board.search(depth).unwrap();
            assert_eq!(found, expected);
            assert_eq!(score(&board, best, depth), expected);
            // the first move in the search order that scores best
            let first = board
                .ordered_moves()
                .into_iter()
                .find(|m| score(&board, *m, depth) == expected)
                .unwrap();
            assert_eq!(best, first);
            assert_eq!(board.alpha_beta(depth, -SCORE_LIMIT, SCORE_LIMIT), expected);
        }
    }
}

#[test]
fn narrow_window_bounds_the_score() {
    for board in sample_boards() {
        let exact = minimax(&board, 2);
        for (alpha, beta) in [(-50, 50), (exact, exact + 1), (exact - 1, exact), (-1, 0), (100, 900)] {
            let found = board.alpha_beta(2, alpha, beta);
            if found <= alpha {
                assert!(exact <= found);
            } else if found >= beta {
                assert!(exact >= found);
            } else {
                assert_eq!(found, exact);
            }
        }
    }
}

#[test]
fn search_takes_the_master_when_it_can() {
    let board = Board::empty(
        [Card::Tiger, Card::Crab],
        [Card::Monkey, Card::Crane],
        Card::Dragon,
        Player::Red,
    )
    .with_square(pos(4, 2), master(Player::Red))
    .with_square(pos(2, 2), master(Player::Blue))
    .with_square(pos(4, 4), student(Player::Blue));
    for depth in 1..=4u32 {
        let (best, found) = board.search(depth).unwrap();
        assert_eq!(best, mv(Card::Tiger, (4, 2), (2, 2)));
        assert_eq!(found, WIN + depth as i64);
    }
}

#[test]
fn search_steps_onto_the_temple_when_it_can() {
    let board = Board::empty(
        [Card::Boar, Card::Crab],
        [Card::Monkey, Card::Crane],
        Card::Dragon,
        Player::Red,
    )
    .with_square(pos(0, 1), master(Player::Red))
    .with_square(pos(3, 4), master(Player::Blue));
    for depth in 1..=3u32 {
        let (best, found) = board.search(depth).unwrap();
        assert_eq!(best, mv(Card::Boar, (0, 1), (0, 2)));
        assert_eq!(found, WIN + depth as i64);
    }
}

#[test]
fn search_sees_a_loss_coming() {
    // Whatever Red does, Blue's master steps onto Red's temple.
    let board = Board::empty(
        [Card::Tiger, Card::Crab],
        [Card::Boar, Card::Horse],
        Card::Dragon,
        Player::Red,
    )
    .with_square(pos(2, 0), master(Player::Red))
    .with_square(pos(4, 1), master(Player::Blue));
    let (_, at_one) = board.search(1).unwrap();
    assert!(at_one.abs() < WIN);
    let (second, at_two) = board.search(2).unwrap();
    assert_eq!(at_two, -(WIN + 1));
    // what is decided stays decided, one further from zero for each ply more
    let (third, at_three) = board.search(3).unwrap();
    assert_eq!(at_three, -(WIN + 2));
    let (fourth, at_four) = board.search(4).unwrap();
    assert_eq!(at_four, -(WIN + 3));
    assert_eq!(third, second);
    assert_eq!(fourth, second);
}

#[test]
fn search_without_a_legal_move_finds_nothing() {
    // Red's only piece is hemmed in: the Tiger leads off the board or onto nothing it holds.
    let board = Board::empty(
        [Card::Tiger, Card::Tiger],
        [Card::Monkey, Card::Crane],
        Card::Dragon,
        Player::Red,
    )
    .with_square(pos(1, 0), master(Player::Red))
    .with_square(pos(2, 0), student(Player::Red))
    .with_square(pos(0, 4), master(Player::Blue));
    let lone = board.with_square(pos(2, 0), Square::Empty).with_square(pos(1, 0), Square::Empty);
    assert!(lone.legal_moves().is_empty());
    assert_eq!(lone.search(1), None);
    assert_eq!(lone.search(3), None);
    assert_eq!(lone.alpha_beta(3, -SCORE_LIMIT, SCORE_LIMIT), lone.evaluate());
    assert_eq!(GameState::Playing { board: lone }.iterative_deepening(Duration::from_millis(5)), None);
}

#[test]
fn deeper_choice_is_not_scored_below_the_shallower_one() {
    for board in sample_boards() {
        for (shallow, deep) in [(1u32, 2u32), (1, 3), (2, 3)] {
            let (first, at_shallow) = board.search(shallow).unwrap();
            let (second, at_deep) = board.search(deep).unwrap();
            assert!(score(&board, second, deep) >= score(&board, first, deep));
            assert_eq!(score(&board, second, deep), at_deep);
            if at_shallow >= WIN {
                assert_eq!(at_deep, at_shallow + (deep - shallow) as i64);
                assert_eq!(second, first);
            }
        }
    }
}

#[test]
fn search_is_repeatable() {
    let board = GameState::deal(4).board();
    let first = board.search(3);
    for _ in 0..3 {
        assert_eq!(board.search(3), first);
    }
}

#[test]
fn deepening_without_time_is_a_search_of_one_ply() {
    let state = GameState::new();
    let found = state.iterative_deepening(Duration::from_secs(0));
    assert_eq!(found, state.board().search(1));
    assert!(found.is_some());
}

#[test]
fn deepening_returns_the_result_of_some_depth() {
    let state = GameState::deal(5);
    let found = state.iterative_deepening(Duration::from_millis(30)).unwrap();
    let board = state.board();
    assert!(board.legal_moves().contains(&found.0));
    let mut matched = false;
    for depth in 1..=4u32 {
        if board.search(depth) == Some(found) {
            matched = true;
        }
    }
    // a deeper result than four plies is not recomputed here
    assert!(matched || found.1.abs() <= WIN + 64);
}

#[test]
fn deepening_finds_nothing_in_a_finished_game() {
    let state = GameState::Finished { winner: Player::Red, board: GameState::new().board() };
    assert_eq!(state.iterative_deepening(Duration::from_millis(5)), None);
}
