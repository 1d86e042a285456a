use onitama::board::Board;
use onitama::cards::{Card, Offset};
use onitama::models::{Move, Piece, PieceKind, Player, Pos, RuleError, Square};
use onitama::state::GameState;

fn pos(row: u8, col: u8) -> Pos {
    Pos { row, col }
}

fn mv(card: Card, from: (u8, u8), to: (u8, u8)) -> Move {
    Move { card, source: pos(from.0, from.1), destination: pos(to.0, to.1) }
}

fn master(owner: Player) -> Square {
    Square::Occupied { kind: PieceKind::Master, owner }
}

fn student(owner: Player) -> Square {
    Square::Occupied { kind: PieceKind::Student, owner }
}

fn all_cards() -> Vec<Card> {
    (0..16).map(Card::nth).collect()
}

/// A board with both masters at home and nothing else, Red to move.
fn masters_only() -> Board {
    Board::empty([Card::Tiger, Card::Crab], [Card::Monkey, Card::Crane], Card::Dragon, Player::Red)
        .with_square(pos(4, 2), master(Player::Red))
        .with_square(pos(0, 2), master(Player::Blue))
}

#[test]
fn opening_position_has_full_piece_sets() {
    let state = GameState::new();
    let board = state.board();
    assert!(matches!(state, GameState::Playing { .. }));
    assert_eq!(board.pieces().len(), 10);
    assert_eq!(board.count(master(Player::Red)), 1);
    assert_eq!(board.count(master(Player::Blue)), 1);
    assert_eq!(board.count(student(Player::Red)), 4);
    assert_eq!(board.count(student(Player::Blue)), 4);
    assert_eq!(board.count(Square::Empty), 15);
    assert_eq!(board.at(pos(0, 2)), master(Player::Blue));
    assert_eq!(board.at(pos(4, 2)), master(Player::Red));
    assert_eq!(board.at(pos(0, 0)), student(Player::Blue));
    assert_eq!(board.at(pos(4, 4)), student(Player::Red));
    assert_eq!(board.at(pos(2, 2)), Square::Empty);
}

#[test]
fn first_deal_is_the_first_five_cards() {
    let board = GameState::new().board();
    assert_eq!(board.red_cards, [Card::Tiger, Card::Dragon]);
    assert_eq!(board.blue_cards, [Card::Frog, Card::Rabbit]);
    assert_eq!(board.spare_card, Card::Crab);
    assert_eq!(board.turn, Player::Blue);
    assert_eq!(GameState::deal(0), GameState::new());
    assert_eq!(GameState::deal(16), GameState::new());
}

#[test]
fn second_deal_takes_the_next_five_cards() {
    let board = GameState::deal(1).board();
    assert_eq!(board.red_cards, [Card::Elephant, Card::Goose]);
    assert_eq!(board.blue_cards, [Card::Rooster, Card::Monkey]);
    assert_eq!(board.spare_card, Card::Mantis);
    assert_eq!(board.turn, Player::Red);
}

#[test]
fn deal_runs_round_the_deck() {
    let board = GameState::deal(3).board();
    assert_eq!(board.red_cards, [Card::Cobra, Card::Tiger]);
    assert_eq!(board.blue_cards, [Card::Dragon, Card::Frog]);
    assert_eq!(board.spare_card, Card::Rabbit);
}

#[test]
fn every_deal_has_five_different_cards() {
    for round in 0..40u64 {
        let b = GameState::deal(round).board();
        let cards = [b.red_cards[0], b.red_cards[1], b.blue_cards[0], b.blue_cards[1], b.spare_card];
        for i in 0..5 {
            for j in 0..i {
                assert_ne!(cards[i], cards[j]);
            }
        }
        assert_eq!(b.turn, b.spare_card.stamp());
    }
}

#[test]
fn pieces_are_listed_row_by_row() {
    let board = masters_only().with_square(pos(2, 3), student(Player::Blue));
    assert_eq!(
        board.pieces(),
        vec![
            Piece { kind: PieceKind::Master, owner: Player::Blue, position: pos(0, 2) },
            Piece { kind: PieceKind::Student, owner: Player::Blue, position: pos(2, 3) },
            Piece { kind: PieceKind::Master, owner: Player::Red, position: pos(4, 2) },
        ]
    );
}

#[test]
fn position_and_index_agree() {
    for i in 0..25usize {
        let p = Pos::from_index(i);
        assert!(p.in_bounds());
        assert_eq!(p.index(), i);
    }
    assert_eq!(Pos::from_index(7), pos(1, 2));
    assert_eq!(pos(4, 4).index(), 24);
    assert!(!pos(5, 0).in_bounds());
    assert!(!pos(0, 5).in_bounds());
}

#[test]
fn steps_are_mirrored_for_blue() {
    let forward_left = Offset { d_row: -1, d_col: -1 };
    assert_eq!(pos(2, 2).step(Player::Red, forward_left), Some(pos(1, 1)));
    assert_eq!(pos(2, 2).step(Player::Blue, forward_left), Some(pos(3, 3)));
    assert_eq!(pos(0, 0).step(Player::Red, forward_left), None);
    assert_eq!(pos(4, 4).step(Player::Blue, forward_left), None);
    assert_eq!(pos(4, 0).step(Player::Red, Offset { d_row: 0, d_col: -2 }), None);
    assert_eq!(pos(4, 0).step(Player::Blue, Offset { d_row: 0, d_col: -2 }), Some(pos(4, 2)));
}

#[test]
fn reaching_is_exact_arithmetic() {
    let back = Offset { d_row: 1, d_col: 0 };
    assert!(pos(4, 2).reaches(Player::Red, back, pos(5, 2)));
    assert!(!pos(4, 2).reaches(Player::Blue, back, pos(5, 2)));
    assert!(pos(4, 2).reaches(Player::Blue, back, pos(3, 2)));
    assert!(!pos(0, 0).reaches(Player::Red, Offset { d_row: -1, d_col: 0 }, pos(255, 0)));
    assert!(pos(200, 7).reaches(Player::Red, Offset { d_row: -2, d_col: 1 }, pos(198, 8)));
    assert_eq!(pos(200, 7).step(Player::Red, Offset { d_row: -2, d_col: 1 }), None);
    assert_eq!(pos(6, 2).step(Player::Red, Offset { d_row: -2, d_col: 0 }), Some(pos(4, 2)));
    assert_eq!(pos(2, 2).step(Player::Red, Offset { d_row: 127, d_col: -128 }), None);
    assert!(Board::card_reaches(Card::Tiger, Player::Red, pos(7, 0), pos(5, 0)));
}

#[test]
fn home_rows() {
    assert_eq!(Player::Red.home_row(), 4);
    assert_eq!(Player::Blue.home_row(), 0);
}

#[test]
fn cards_have_their_steps() {
    assert_eq!(
        Card::Tiger.moves(),
        vec![Offset { d_row: -2, d_col: 0 }, Offset { d_row: 1, d_col: 0 }]
    );
    assert_eq!(
        Card::Crab.moves(),
        vec![
            Offset { d_row: 0, d_col: -2 },
            Offset { d_row: 0, d_col: 2 },
            Offset { d_row: -1, d_col: 0 }
        ]
    );
    for card in all_cards() {
        let steps = card.moves();
        assert!(steps.len() >= 2 && steps.len() <= 4);
        for (i, o) in steps.iter().enumerate() {
            assert!(o.d_row != 0 || o.d_col != 0);
            assert!(o.d_row.abs() <= 2 && o.d_col.abs() <= 2);
            for earlier in &steps[..i] {
                assert_ne!(earlier, o);
            }
        }
    }
}

#[test]
fn cards_are_numbered_and_named() {
    for (n, card) in all_cards().into_iter().enumerate() {
        assert_eq!(card.ordinal() as usize, n);
        assert_eq!(Card::nth(n as u64 + 16), card);
    }
    assert_eq!(Card::Tiger.name(), "Tiger");
    assert_eq!(Card::Cobra.name(), "Cobra");
    assert_eq!(Card::Tiger.stamp(), Player::Blue);
    assert_eq!(Card::Dragon.stamp(), Player::Red);
}

#[test]
fn opponent_and_temples() {
    assert_eq!(Player::Red.opponent(), Player::Blue);
    assert_eq!(Player::Blue.opponent(), Player::Red);
    assert_eq!(Player::Red.temple(), pos(4, 2));
    assert_eq!(Player::Blue.temple(), pos(0, 2));
}

#[test]
fn legal_moves_of_the_opening_position() {
    let board = GameState::new().board();
    assert_eq!(
        board.legal_moves(),
        vec![
            mv(Card::Frog, (0, 0), (1, 1)),
            mv(Card::Frog, (0, 1), (1, 2)),
            mv(Card::Rabbit, (0, 1), (1, 0)),
            mv(Card::Frog, (0, 2), (1, 3)),
            mv(Card::Rabbit, (0, 2), (1, 1)),
            mv(Card::Frog, (0, 3), (1, 4)),
            mv(Card::Rabbit, (0, 3), (1, 2)),
            mv(Card::Rabbit, (0, 4), (1, 3)),
        ]
    );
}

#[test]
fn make_move_succeeds_exactly_on_the_listed_moves() {
    let mut boards = vec![GameState::new().board(), GameState::deal(1).board(), masters_only()];
    boards.push(
        masters_only()
            .with_square(pos(2, 2), student(Player::Blue))
            .with_square(pos(3, 2), student(Player::Red)),
    );
    for board in boards {
        let listed = board.legal_moves();
        let mut accepted = 0;
        for card in all_cards() {
            for from in 0..25usize {
                for to in 0..25usize {
                    let m = Move {
                        card,
                        source: Pos::from_index(from),
                        destination: Pos::from_index(to),
                    };
                    let ok = board.make_move(m).is_ok();
                    assert_eq!(ok, listed.contains(&m), "{:?}", m);
                    assert_eq!(ok, board.violation(m).is_none());
                    if ok {
                        accepted += 1;
                    }
                }
            }
        }
        assert_eq!(accepted, listed.len());
    }
}

#[test]
fn move_off_the_board_is_out_of_bounds() {
    let board = masters_only();
    assert_eq!(
        board.make_move(mv(Card::Tiger, (4, 2), (5, 2))),
        Err(RuleError::OutOfBounds)
    );
    assert_eq!(
        board.make_move(mv(Card::Tiger, (7, 7), (4, 2))),
        Err(RuleError::OutOfBounds)
    );
    assert_eq!(
        board.make_move(mv(Card::Tiger, (4, 255), (2, 2))),
        Err(RuleError::OutOfBounds)
    );
}

#[test]
fn move_from_an_empty_or_foreign_square_is_not_your_piece() {
    let board = masters_only();
    assert_eq!(
        board.make_move(mv(Card::Tiger, (3, 2), (1, 2))),
        Err(RuleError::NotYourPiece)
    );
    assert_eq!(
        board.make_move(mv(Card::Monkey, (0, 2), (1, 1))),
        Err(RuleError::NotYourPiece)
    );
}

#[test]
fn move_with_a_card_of_the_opponent_or_the_spare_is_refused() {
    let board = masters_only();
    assert_eq!(
        board.make_move(mv(Card::Monkey, (4, 2), (3, 1))),
        Err(RuleError::CardNotInHand)
    );
    assert_eq!(
        board.make_move(mv(Card::Dragon, (4, 2), (3, 0))),
        Err(RuleError::CardNotInHand)
    );
    assert_eq!(
        board.make_move(mv(Card::Boar, (4, 2), (3, 2))),
        Err(RuleError::CardNotInHand)
    );
}

#[test]
fn move_by_a_step_the_card_lacks_is_refused() {
    let board = masters_only();
    assert_eq!(board.make_move(mv(Card::Tiger, (4, 2), (3, 2))), Err(RuleError::NotOnCard));
    assert_eq!(board.make_move(mv(Card::Crab, (4, 2), (4, 2))), Err(RuleError::NotOnCard));
}

#[test]
fn move_onto_an_own_piece_is_refused() {
    let board = masters_only().with_square(pos(2, 2), student(Player::Red));
    assert_eq!(
        board.make_move(mv(Card::Tiger, (4, 2), (2, 2))),
        Err(RuleError::OwnPieceAtDestination)
    );
}

#[test]
fn quiet_move_relocates_the_piece_and_swaps_the_card() {
    let board = masters_only();
    let state = board.make_move(mv(Card::Crab, (4, 2), (4, 0))).unwrap();
    let after = match state {
        GameState::Playing { board } => board,
        other => panic!("{:?}", other),
    };
    assert_eq!(after.at(pos(4, 2)), Square::Empty);
    assert_eq!(after.at(pos(4, 0)), master(Player::Red));
    assert_eq!(after.at(pos(0, 2)), master(Player::Blue));
    assert_eq!(after.red_cards, [Card::Tiger, Card::Dragon]);
    assert_eq!(after.blue_cards, [Card::Monkey, Card::Crane]);
    assert_eq!(after.spare_card, Card::Crab);
    assert_eq!(after.turn, Player::Blue);
    // the board that was moved on is as it was
    assert_eq!(board, masters_only());
}

#[test]
fn first_card_of_the_hand_is_replaced_in_its_slot() {
    let board = masters_only();
    let after = board.make_move(mv(Card::Tiger, (4, 2), (2, 2))).unwrap().board();
    assert_eq!(after.red_cards, [Card::Dragon, Card::Crab]);
    assert_eq!(after.spare_card, Card::Tiger);
}

#[test]
fn capture_and_turnover() {
    // Blue's student on (2, 2) takes Red's student on (3, 1) with the Monkey.
    let board = masters_only()
        .with_turn(Player::Blue)
        .with_square(pos(2, 2), student(Player::Blue))
        .with_square(pos(3, 1), student(Player::Red))
        .with_square(pos(3, 3), student(Player::Red));
    let m = mv(Card::Monkey, (2, 2), (3, 1));
    let state = board.make_move(m).unwrap();
    let after = match state {
        GameState::Playing { board } => board,
        other => panic!("{:?}", other),
    };
    assert_eq!(after.at(pos(3, 1)), student(Player::Blue));
    assert_eq!(after.at(pos(2, 2)), Square::Empty);
    assert_eq!(after.count(student(Player::Red)), 1);
    assert_eq!(after.count(student(Player::Blue)), 1);
    assert_eq!(after.spare_card, Card::Monkey);
    assert_eq!(after.blue_cards, [Card::Dragon, Card::Crane]);
    assert_eq!(after.red_cards, [Card::Tiger, Card::Crab]);
    assert_eq!(after.turn, Player::Red);
    // no other square changed
    for i in 0..25usize {
        let p = Pos::from_index(i);
        if p != m.source && p != m.destination {
            assert_eq!(after.at(p), board.at(p));
        }
    }
}

#[test]
fn the_five_cards_stay_the_same_five() {
    let mut state = GameState::new();
    let mut expected: Vec<u8> = vec![0, 1, 2, 3, 4];
    expected.sort();
    for _ in 0..12 {
        let board = state.board();
        let moves = board.legal_moves();
        if moves.is_empty() {
            break;
        }
        state = state.try_move(moves[moves.len() / 2]).unwrap();
        let b = state.board();
        let mut cards: Vec<u8> = vec![
            b.red_cards[0].ordinal(),
            b.red_cards[1].ordinal(),
            b.blue_cards[0].ordinal(),
            b.blue_cards[1].ordinal(),
            b.spare_card.ordinal(),
        ];
        cards.sort();
        assert_eq!(cards, expected);
        if matches!(state, GameState::Finished { .. }) {
            break;
        }
    }
}

#[test]
fn temple_win() {
    // Red's master stands next to Blue's temple and holds the Boar, which steps sideways.
    let board = Board::empty(
        [Card::Boar, Card::Crab],
        [Card::Monkey, Card::Crane],
        Card::Dragon,
        Player::Red,
    )
    .with_square(pos(0, 1), master(Player::Red))
    .with_square(pos(2, 4), master(Player::Blue));
    let state = board.make_move(mv(Card::Boar, (0, 1), (0, 2))).unwrap();
    match state {
        GameState::Finished { winner, board } => {
            assert_eq!(winner, Player::Red);
            assert_eq!(board.at(pos(0, 2)), master(Player::Red));
            assert_eq!(board.winner(), Some(Player::Red));
        }
        other => panic!("{:?}", other),
    }
}

#[test]
fn capturing_the_master_wins() {
    let board = masters_only().with_square(pos(2, 2), master(Player::Blue)).with_square(
        pos(0, 2),
        Square::Empty,
    );
    let state = board.make_move(mv(Card::Tiger, (4, 2), (2, 2))).unwrap();
    match state {
        GameState::Finished { winner, board } => {
            assert_eq!(winner, Player::Red);
            assert!(!board.has_master(Player::Blue));
            assert!(board.has_master(Player::Red));
            assert!(board.wins(Player::Red));
            assert!(!board.wins(Player::Blue));
        }
        other => panic!("{:?}", other),
    }
}

#[test]
fn a_student_on_the_temple_does_not_win() {
    let board = masters_only()
        .with_square(pos(0, 2), Square::Empty)
        .with_square(pos(0, 4), master(Player::Blue))
        .with_square(pos(2, 2), student(Player::Red));
    let state = board.make_move(mv(Card::Tiger, (2, 2), (0, 2))).unwrap();
    assert!(matches!(state, GameState::Playing { .. }));
    assert_eq!(state.board().winner(), None);
}

#[test]
fn finished_game_accepts_no_move() {
    let board = masters_only();
    let state = GameState::Finished { winner: Player::Blue, board };
    assert_eq!(state.try_move(mv(Card::Crab, (4, 2), (4, 0))), Err(RuleError::GameFinished));
    assert_eq!(state.winner(), Some(Player::Blue));
    assert_eq!(GameState::Playing { board }.winner(), None);
}

#[test]
fn reasons_are_worded() {
    assert_eq!(RuleError::GameFinished.reason(), "Game Finished");
    assert_eq!(RuleError::OutOfBounds.reason(), "the move leaves the board");
    assert_eq!(
        RuleError::NotYourPiece.reason(),
        "the source square holds no piece of the player to move"
    );
    assert_eq!(RuleError::CardNotInHand.reason(), "the player to move does not hold this card");
    assert_eq!(RuleError::NotOnCard.reason(), "the card does not offer this step");
    assert_eq!(
        RuleError::OwnPieceAtDestination.reason(),
        "the destination holds a piece of the same player"
    );
}

#[test]
fn snapshot_shows_the_board_in_rows() {
    let state = GameState::new();
    let view = state.snapshot();
    let board = state.board();
    for row in 0..5u8 {
        for col in 0..5u8 {
            assert_eq!(view.grid[row as usize][col as usize], board.at(pos(row, col)));
        }
    }
    assert_eq!(view.grid[0][2], master(Player::Blue));
    assert_eq!(view.grid[4][2], master(Player::Red));
    assert_eq!(view.red_cards, board.red_cards);
    assert_eq!(view.blue_cards, board.blue_cards);
    assert_eq!(view.spare_card, board.spare_card);
    assert_eq!(view.turn, board.turn);
    assert_eq!(view.winner, None);
    let over = GameState::Finished { winner: Player::Red, board };
    assert_eq!(over.snapshot().winner, Some(Player::Red));
}

#[test]
fn hands_and_holding() {
    let board = masters_only();
    assert_eq!(board.hand(Player::Red), [Card::Tiger, Card::Crab]);
    assert_eq!(board.hand(Player::Blue), [Card::Monkey, Card::Crane]);
    assert!(board.holds(Player::Red, Card::Crab));
    assert!(!board.holds(Player::Red, Card::Monkey));
    assert!(!board.holds(Player::Blue, Card::Dragon));
    assert!(Board::card_reaches(Card::Tiger, Player::Red, pos(4, 2), pos(2, 2)));
    assert!(!Board::card_reaches(Card::Tiger, Player::Blue, pos(4, 2), pos(2, 2)));
    assert!(Board::card_reaches(Card::Tiger, Player::Blue, pos(2, 2), pos(4, 2)));
}
