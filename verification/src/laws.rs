//! What holds of the rules on every board: theorems about the models that the
//! contracts of the executable functions speak of.

use vstd::prelude::*;

use crate::agents::{next_round, AgentException, AgentModel};
use crate::board::{count_of, BoardModel};
use crate::cards::lemma_card_shape;
use crate::eval::lemma_evaluate_bounds;
use crate::messages::MessageModel;
use crate::models::{Move, Player, Pos, Square};
use crate::movegen::lemma_listed_iff_legal;
use crate::rules::{lemma_attempt_keeps_wf, lemma_count_update};
use crate::search::{
    decided, lemma_best_index, lemma_best_index_stays, lemma_best_score_covers,
    lemma_position_deepens, lemma_position_score_bounds, lemma_search_order, WIN,
};
use crate::state::{lemma_opening_wf, StateModel};

verus! {

/// A move breaks no rule exactly when it is among the listed legal moves: so
/// playing a move succeeds exactly when the move is listed.
pub proof fn lemma_accepted_iff_listed(b: BoardModel, m: Move)
    requires
        b.shaped(),
    ensures
        b.violation(m) is None <==> b.legal_move_seq().contains(m),
{
    lemma_listed_iff_legal(b, m);
}

/// A legal move leaves two cards in each hand and one spare card, and the
/// five cards in play are the same five as before.
pub proof fn lemma_cards_conserved(b: BoardModel, m: Move)
    requires
        b.shaped(),
        b.legal(m),
    ensures
        b.after(m).red_cards.len() == 2,
        b.after(m).blue_cards.len() == 2,
        b.after(m).pool() == b.pool(),
        b.cards_distinct() ==> b.after(m).cards_distinct(),
{
    assert(b.after(m).pool() =~= b.pool());
}

/// A legal move changes two squares and no other: the source becomes empty
/// and the destination holds the piece that moved.
pub proof fn lemma_move_changes_two_squares(b: BoardModel, m: Move)
    requires
        b.shaped(),
        b.legal(m),
    ensures
        b.after(m).at(m.source) == Square::Empty,
        b.after(m).at(m.destination) == b.at(m.source),
        forall|p: Pos|
            p.spec_in_bounds() && p != m.source && p != m.destination ==> #[trigger] b.after(m).at(
                p,
            ) == b.at(p),
{
    lemma_card_shape(m.card);
}

/// A legal move onto a piece of the opponent removes that piece: the board
/// holds one piece of its kind less, and as many of every other kind as before.
pub proof fn lemma_capture_removes_one(b: BoardModel, m: Move, kind: Square)
    requires
        b.shaped(),
        b.legal(m),
        b.at(m.destination) != Square::Empty,
        kind != Square::Empty,
    ensures
        count_of(b.after(m).squares, kind) == count_of(b.squares, kind) - if kind == b.at(
            m.destination,
        ) {
            1int
        } else {
            0int
        },
{
    lemma_card_shape(m.card);
    let src = m.source.spec_index();
    let dst = m.destination.spec_index();
    let mid = b.squares.update(src, Square::Empty);
    lemma_count_update(b.squares, src, Square::Empty, kind);
    lemma_count_update(mid, dst, b.at(m.source), kind);
}

/// A legal move onto an empty square removes nothing.
pub proof fn lemma_quiet_move_keeps_counts(b: BoardModel, m: Move, kind: Square)
    requires
        b.shaped(),
        b.legal(m),
        b.at(m.destination) == Square::Empty,
        kind != Square::Empty,
    ensures
        count_of(b.after(m).squares, kind) == count_of(b.squares, kind),
{
    lemma_card_shape(m.card);
    let src = m.source.spec_index();
    let dst = m.destination.spec_index();
    let mid = b.squares.update(src, Square::Empty);
    lemma_count_update(b.squares, src, Square::Empty, kind);
    lemma_count_update(mid, dst, b.at(m.source), kind);
}

/// A square that occurs in a sequence is counted at least once.
pub proof fn lemma_count_positive(s: Seq<Square>, i: int, x: Square)
    requires
        0 <= i < s.len(),
        s[i] == x,
    ensures
        count_of(s, x) >= 1,
    decreases s.len(),
{
    if i < s.len() - 1 {
        lemma_count_positive(s.drop_last(), i, x);
    }
}

/// A board on which one master stands and the other does not is won for the
/// player whose master stands.
pub proof fn lemma_lone_master_wins(b: BoardModel, survivor: Player)
    requires
        b.shaped(),
        b.has_master(survivor),
        !b.has_master(survivor.spec_opponent()),
    ensures
        b.victor() == Some(survivor),
        b.resolve() == (StateModel::Finished { winner: survivor, board: b }),
{
}

/// On a well-formed board, a legal move onto the opponent's master ends the
/// game, and the mover has won.
pub proof fn lemma_master_capture_wins(b: BoardModel, m: Move)
    requires
        b.wf(),
        b.legal(m),
        b.at(m.destination) == Square::master(b.turn.spec_opponent()),
    ensures
        !b.after(m).has_master(b.turn.spec_opponent()),
        b.after(m).resolve() == (StateModel::Finished { winner: b.turn, board: b.after(m) }),
{
    let loser = b.turn.spec_opponent();
    let a = b.after(m);
    lemma_count_positive(b.squares, m.destination.spec_index(), Square::master(loser));
    lemma_capture_removes_one(b, m, Square::master(loser));
    if a.has_master(loser) {
        let i = choose|i: int| 0 <= i < 25 && #[trigger] a.squares[i] == Square::master(loser);
        lemma_count_positive(a.squares, i, Square::master(loser));
    }
}

/// A legal move of the master onto the opponent's temple ends the game, and
/// the mover has won.
pub proof fn lemma_temple_wins(b: BoardModel, m: Move)
    requires
        b.shaped(),
        b.legal(m),
        b.at(m.source) == Square::master(b.turn),
        m.destination == b.turn.spec_opponent().spec_temple(),
    ensures
        b.after(m).resolve() == (StateModel::Finished { winner: b.turn, board: b.after(m) }),
{
}

/// In a game being played that arose in play, each player has exactly one master.
pub proof fn lemma_playing_has_both_masters(s: StateModel, player: Player)
    requires
        s.wf(),
        s is Playing,
    ensures
        count_of(s.board().squares, Square::master(player)) == 1,
{
    let b = s.board();
    assert(b.has_master(player)) by {
        assert(b.wins(player.spec_opponent()) || !b.has_master(player)
            ==> b.victor() is Some);
    }
    let i = choose|i: int| 0 <= i < 25 && #[trigger] b.squares[i] == Square::master(player);
    lemma_count_positive(b.squares, i, Square::master(player));
}

/// A state that arises in play is finished exactly when a master is gone or
/// stands on the opposing temple.
pub proof fn lemma_finished_iff_decided(s: StateModel)
    requires
        s.wf(),
    ensures
        s is Finished <==> s.board().wins(Player::Red) || s.board().wins(Player::Blue),
{
}

/// A finished game accepts no move.
pub proof fn lemma_finished_accepts_no_move(s: StateModel, m: Move)
    requires
        s is Finished,
    ensures
        s.attempt(m) is Err,
{
}

/// Where a move wins at once, a search of any depth scores the position as
/// won at the first ply: no score is higher.
pub proof fn lemma_winning_move_scores_win(b: BoardModel, m: Move, depth: nat)
    requires
        b.shaped(),
        b.legal(m),
        b.after(m).victor() == Some(b.turn),
        depth >= 1,
    ensures
        b.position_score(depth) == WIN + depth,
        b.search_result(depth) is Some,
        b.after(b.best_move(depth)).victor() == Some(b.turn),
{
    let moves = b.search_order();
    let n = moves.len() as int;
    lemma_search_order(b);
    assert(moves.contains(m));
    let j = choose|j: int| 0 <= j < moves.len() && moves[j] == m;
    lemma_best_score_covers(b, moves, j, n, depth);
    lemma_position_score_bounds(b, depth);
    lemma_best_index(b, moves, n, depth);
    let chosen = b.best_move(depth);
    assert(b.legal(chosen));
    if b.after(chosen).victor() != Some(b.turn) {
        if b.after(chosen).victor() is None {
            lemma_position_score_bounds(b.after(chosen), (depth - 1) as nat);
        }
    }
}

/// On a well-formed board, where the player to move can take the opposing
/// master, the search scores the position as won.
pub proof fn lemma_master_in_reach_scores_win(b: BoardModel, m: Move, depth: nat)
    requires
        b.wf(),
        b.legal(m),
        b.at(m.destination) == Square::master(b.turn.spec_opponent()),
        depth >= 1,
    ensures
        b.position_score(depth) == WIN + depth,
{
    lemma_master_capture_wins(b, m);
    lemma_winning_move_scores_win(b, m, depth);
}

/// Where the master of the player to move can step onto the opposing
/// temple, the search scores the position as won.
pub proof fn lemma_temple_in_reach_scores_win(b: BoardModel, m: Move, depth: nat)
    requires
        b.shaped(),
        b.legal(m),
        b.at(m.source) == Square::master(b.turn),
        m.destination == b.turn.spec_opponent().spec_temple(),
        depth >= 1,
    ensures
        b.position_score(depth) == WIN + depth,
{
    lemma_temple_wins(b, m);
    lemma_winning_move_scores_win(b, m, depth);
}

/// A deeper search does not take back what a shallower one has decided: a
/// position scored as won stays won and a position scored as lost stays lost,
/// each ply more moving the score one further from zero.
pub proof fn lemma_decided_score_stays(b: BoardModel, shallow: nat, deep: nat)
    requires
        b.shaped(),
        shallow <= deep,
    ensures
        b.position_score(shallow) >= WIN ==> b.position_score(deep) == b.position_score(shallow)
            + (deep - shallow),
        b.position_score(shallow) <= -WIN ==> b.position_score(deep) == b.position_score(shallow)
            - (deep - shallow),
    decreases deep - shallow,
{
    if shallow < deep {
        lemma_decided_score_stays(b, shallow, (deep - 1) as nat);
        lemma_position_deepens(b, (deep - 1) as nat);
    }
}

/// Once a search has decided a position, every deeper search chooses the
/// same move.
pub proof fn lemma_decided_choice_stays(b: BoardModel, shallow: nat, deep: nat)
    requires
        b.shaped(),
        1 <= shallow <= deep,
        decided(b.position_score(shallow)),
    ensures
        b.best_move(deep) == b.best_move(shallow),
        decided(b.position_score(deep)),
    decreases deep - shallow,
{
    if shallow < deep {
        let before = (deep - 1) as nat;
        lemma_decided_choice_stays(b, shallow, before);
        lemma_decided_score_stays(b, shallow, before);
        lemma_decided_score_stays(b, shallow, deep);
        lemma_search_order(b);
        lemma_evaluate_bounds(b);
        let moves = b.search_order();
        lemma_best_index_stays(b, moves, moves.len() as int, before);
    }
}

/// A deeper search never chooses a move that it scores below the choice of
/// a shallower search; and where the shallower search scored its choice as
/// won, the deeper search scores its own choice as won.
pub proof fn lemma_deeper_choice_not_worse(b: BoardModel, shallow: nat, deep: nat)
    requires
        b.shaped(),
        1 <= shallow <= deep,
        exists|m: Move| b.legal(m),
    ensures
        b.move_score(b.best_move(deep), deep) >= b.move_score(b.best_move(shallow), deep),
        b.move_score(b.best_move(shallow), shallow) >= WIN ==> b.move_score(
            b.best_move(deep),
            deep,
        ) >= WIN,
{
    lemma_search_finds_best(b, shallow);
    lemma_search_finds_best(b, deep);
    lemma_decided_score_stays(b, shallow, deep);
}

/// The move a search returns is legal, and no legal move scores higher at
/// that depth: a search finds a move exactly when there is a legal one.
pub proof fn lemma_search_finds_best(b: BoardModel, depth: nat)
    requires
        b.shaped(),
        depth >= 1,
    ensures
        b.search_result(depth) is Some <==> exists|m: Move| b.legal(m),
        b.search_result(depth) is Some ==> {
            &&& b.legal(b.best_move(depth))
            &&& b.move_score(b.best_move(depth), depth) == b.position_score(depth)
            &&& forall|m: Move| b.legal(m) ==> b.move_score(m, depth) <= b.position_score(depth)
        },
{
    let moves = b.search_order();
    let n = moves.len() as int;
    lemma_search_order(b);
    if n > 0 {
        lemma_best_index(b, moves, n, depth);
        assert(b.legal(moves[0]));
        assert forall|m: Move| b.legal(m) implies b.move_score(m, depth) <= b.position_score(
            depth,
        ) by {
            assert(moves.contains(m));
            let j = choose|j: int| 0 <= j < moves.len() && moves[j] == m;
            lemma_best_score_covers(b, moves, j, n, depth);
        }
    } else {
        assert forall|m: Move| !b.legal(m) by {
            if b.legal(m) {
                assert(moves.contains(m));
            }
        }
    }
}

/// Whatever message arrives, a session whose game is in a state that arises
/// in play stays such a session.
pub proof fn lemma_step_keeps_wf(a: AgentModel, msg: MessageModel, depth: nat)
    requires
        a.wf(),
    ensures
        a.step(msg, depth).0.wf(),
{
    match msg {
        MessageModel::RequestRematch => {
            lemma_opening_wf((next_round(a.round) % 16) as int);
        },
        MessageModel::Move { game_move } => {
            if a.state is Playing && a.state.attempt(game_move) is Ok {
                lemma_attempt_keeps_wf(a.state, game_move);
                let next = a.state.attempt(game_move)->Ok_0;
                if next is Playing {
                    match next.board().search_result(depth) {
                        Some(choice) => {
                            if next.attempt(choice.0) is Ok {
                                lemma_attempt_keeps_wf(next, choice.0);
                            }
                        },
                        None => {},
                    }
                }
            }
        },
        _ => {},
    }
}

/// A refused message leaves the state of the game as it was: only a winning
/// move changes the state without an answering message. A message refused
/// for what it is, or for a rule it breaks, leaves the whole session as it was.
pub proof fn lemma_refusal_changes_nothing(a: AgentModel, msg: MessageModel, depth: nat)
    ensures
        a.step(msg, depth).1 matches Err(e) && e != AgentException::GameFinished ==> a.step(
            msg,
            depth,
        ).0.state == a.state,
        a.step(msg, depth).1 matches Err(e) && (e == AgentException::IllegalMove || e
            == AgentException::InvalidMessageForState) ==> a.step(msg, depth).0 == a,
{
}

/// A session that has failed to reply stays so and plays no reply any more:
/// a move of the peer it answers by a refusal or by the end of the game,
/// never by a move.
pub proof fn lemma_fault_is_final(a: AgentModel, msg: MessageModel, depth: nat)
    requires
        a.faulted,
    ensures
        a.step(msg, depth).0.faulted,
        msg is Move ==> a.step(msg, depth).1 is Err,
        a.step(msg, depth).1 == Err::<MessageModel, AgentException>(AgentException::AgentError)
            ==> a.step(msg, depth).0 == a,
{
}

/// In a game being played a move is refused as illegal exactly when it
/// breaks a rule, whatever went before in the session.
pub proof fn lemma_illegal_move_is_refused(a: AgentModel, game_move: Move, depth: nat)
    requires
        a.state is Playing,
    ensures
        a.step(MessageModel::Move { game_move }, depth).1 == Err::<
            MessageModel,
            AgentException,
        >(AgentException::IllegalMove) <==> !a.state.board().legal(game_move),
        !a.state.board().legal(game_move) ==> a.step(MessageModel::Move { game_move }, depth).0
            == a,
{
}

/// In a game being played a legal move that wins is played, whatever went
/// before in the session: the game is finished with the mover as winner, no
/// reply is searched, and a rematch is then accepted.
pub proof fn lemma_winning_move_finishes(a: AgentModel, game_move: Move, depth: nat)
    requires
        a.state is Playing,
        a.state.board().legal(game_move),
        a.state.board().after(game_move).victor() == Some(a.state.board().turn),
    ensures
        a.step(MessageModel::Move { game_move }, depth) == (
            AgentModel {
                state: StateModel::Finished {
                    winner: a.state.board().turn,
                    board: a.state.board().after(game_move),
                },
                ..a
            },
            Err::<MessageModel, AgentException>(AgentException::GameFinished),
        ),
        a.step(MessageModel::Move { game_move }, depth).0.step(
            MessageModel::RequestRematch,
            depth,
        ).1 is Ok,
{
}

/// A session that has not failed before fails to reply only where the
/// player it answers for has no legal move: its own reply is never refused.
pub proof fn lemma_agent_error_only_without_moves(a: AgentModel, game_move: Move, depth: nat)
    requires
        a.state.board().shaped(),
        !a.faulted,
        depth >= 1,
    ensures
        a.step(MessageModel::Move { game_move }, depth).1 == Err::<
            MessageModel,
            AgentException,
        >(AgentException::AgentError) <==> {
            &&& a.state is Playing
            &&& a.state.board().legal(game_move)
            &&& a.state.board().after(game_move).victor() is None
            &&& forall|m: Move| !a.state.board().after(game_move).legal(m)
        },
{
    if a.state is Playing && a.state.board().legal(game_move) {
        let reached = a.state.board().after(game_move);
        assert(reached.shaped());
        lemma_search_finds_best(reached, depth);
    }
}

/// Whether `sessions` and `answers` are what a fresh session goes through
/// and answers when it reads `msgs` in order, with every reply searched
/// `depth` plies deep. Time plays no part at a fixed depth: the session's
/// budget is left open.
pub open spec fn is_run(
    sessions: Seq<AgentModel>,
    answers: Seq<Result<MessageModel, AgentException>>,
    msgs: Seq<MessageModel>,
    depth: nat,
) -> bool {
    &&& sessions.len() == msgs.len() + 1
    &&& answers.len() == msgs.len()
    &&& sessions[0] == AgentModel::fresh(sessions[0].budget)
    &&& forall|i: int|
        0 <= i < msgs.len() ==> (sessions[i + 1], #[trigger] answers[i]) == sessions[i].step(
            msgs[i],
            depth,
        )
}

/// Two runs over the same messages at the same depth agree up to any point.
proof fn lemma_runs_agree(
    msgs: Seq<MessageModel>,
    depth: nat,
    first: Seq<AgentModel>,
    first_answers: Seq<Result<MessageModel, AgentException>>,
    second: Seq<AgentModel>,
    second_answers: Seq<Result<MessageModel, AgentException>>,
    upto: int,
)
    requires
        is_run(first, first_answers, msgs, depth),
        is_run(second, second_answers, msgs, depth),
        first[0].budget == second[0].budget,
        0 <= upto <= msgs.len(),
    ensures
        first[upto] == second[upto],
        upto > 0 ==> first_answers[upto - 1] == second_answers[upto - 1],
    decreases upto,
{
    if upto > 0 {
        lemma_runs_agree(msgs, depth, first, first_answers, second, second_answers, upto - 1);
        let i = upto - 1;
        assert((first[i + 1], first_answers[i]) == first[i].step(msgs[i], depth));
        assert((second[i + 1], second_answers[i]) == second[i].step(msgs[i], depth));
    }
}

/// Replaying the same messages in the same order against a fresh session of
/// the same budget, with replies searched to the same depth, gives the same
/// answers and leaves the session in the same state.
pub proof fn lemma_replay_is_deterministic(
    msgs: Seq<MessageModel>,
    depth: nat,
    first: Seq<AgentModel>,
    first_answers: Seq<Result<MessageModel, AgentException>>,
    second: Seq<AgentModel>,
    second_answers: Seq<Result<MessageModel, AgentException>>,
)
    requires
        is_run(first, first_answers, msgs, depth),
        is_run(second, second_answers, msgs, depth),
        first[0].budget == second[0].budget,
    ensures
        first == second,
        first_answers == second_answers,
{
    assert forall|i: int| 0 <= i < first.len() implies first[i] == second[i] by {
        lemma_runs_agree(msgs, depth, first, first_answers, second, second_answers, i);
    }
    assert forall|i: int| 0 <= i < first_answers.len() implies first_answers[i]
        == second_answers[i] by {
        lemma_runs_agree(msgs, depth, first, first_answers, second, second_answers, i + 1);
    }
    assert(first =~= second);
    assert(first_answers =~= second_answers);
}

/// Every session of a run is one whose game is in a state that arises in play.
pub proof fn lemma_run_keeps_wf(
    msgs: Seq<MessageModel>,
    depth: nat,
    sessions: Seq<AgentModel>,
    answers: Seq<Result<MessageModel, AgentException>>,
    i: int,
)
    requires
        is_run(sessions, answers, msgs, depth),
        0 <= i <= msgs.len(),
    ensures
        sessions[i].wf(),
    decreases i,
{
    if i == 0 {
        lemma_opening_wf(0);
    } else {
        lemma_run_keeps_wf(msgs, depth, sessions, answers, i - 1);
        lemma_step_keeps_wf(sessions[i - 1], msgs[i - 1], depth);
        assert((sessions[i - 1 + 1], answers[i - 1]) == sessions[i - 1].step(msgs[i - 1], depth));
    }
}

} // verus!
