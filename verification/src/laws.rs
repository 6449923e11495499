//! What holds of the session, the game and the turn log together.

use vstd::prelude::*;
use crate::aictrl::{first_fresh, AiControllerView, AiRequestView, AiResponseView};
use crate::config::GameSettingsView;
use crate::db::{
    game_index, play_record_row, row_record, row_state, rows_fit, rows_turn, state_row,
    variant_index, DbView, SavedGameView,
};
use crate::variants::VariantView;
use crate::error::DbError;
use crate::game::{new_game, play_result, GameView, TurnView};
use crate::gamectrl::{follow, follow_all, follow_all_single, ActionView, ControllerView};
use crate::pieces::Side;
use crate::play::{Play, PlayRecordView};
use crate::state::GameStateView;

verus! {

/// The game that the engine sets up is well formed.
pub proof fn new_game_is_wf(rules: Seq<char>, board: Seq<char>)
    requires
        new_game(rules, board) is Some,
    ensures
        new_game(rules, board)->0.wf(),
        new_game(rules, board)->0.turn() == 0,
{
}

/// A play that is made adds exactly one turn: the turn index of the game
/// grows by one, and the new state carries it.
pub proof fn play_adds_one_turn(game: GameView, play: Play)
    requires
        game.wf(),
        play_result(game, play) is Ok,
    ensures
        play_result(game, play)->Ok_0.turn() == game.turn() + 1,
        play_result(game, play)->Ok_0.state().turn == game.state().turn + 1,
        play_result(game, play)->Ok_0.wf(),
{
    let after = play_result(game, play)->Ok_0;
    let turn = after.turns.last();
    assert(after.turns =~= game.turns.push(turn));
    assert forall|i: int| 0 <= i < after.turns.len() implies #[trigger] after.follows(i) by {
        if i < game.turns.len() {
            assert(game.follows(i));
            assert(after.state_at(i) == game.state_at(i));
        } else {
            assert(after.state_at(i) == game.state());
        }
    }
    if game.turns.len() > 0 {
        assert(game.fits(game.turns[game.turns.len() - 1].state, game.turns.len() as int));
    }
}

/// Taking back a play takes exactly one turn away, and never more than were
/// made: the turn index of a game in which no play was made stays at zero.
pub proof fn undo_takes_one_turn(game: GameView)
    requires
        game.wf(),
    ensures
        game.turn() > 0 ==> game.undone().turn() == game.turn() - 1,
        game.turn() == 0 ==> game.undone() == game,
        game.undone().wf(),
{
    let after = game.undone();
    if game.turns.len() > 0 {
        assert forall|i: int| 0 <= i < after.turns.len() implies #[trigger] after.follows(i) by {
            assert(game.follows(i));
            assert(after.state_at(i) == game.state_at(i));
        }
        assert forall|i: int| 0 <= i < after.turns.len() implies after.fits(
            (#[trigger] after.turns[i]).state,
            i + 1,
        ) by {
            assert(game.fits(game.turns[i].state, i + 1));
        }
    }
}

/// Taking back a play that was just made gives the game as it was before the
/// play, and with it the state as it was, in every field.
pub proof fn undo_restores_game(game: GameView, play: Play)
    requires
        game.wf(),
        play_result(game, play) is Ok,
    ensures
        play_result(game, play)->Ok_0.undone() == game,
        play_result(game, play)->Ok_0.undone().state() == game.state(),
{
    let after = play_result(game, play)->Ok_0;
    assert(after.turns.drop_last() =~= game.turns);
}

/// In a session, taking back a play that was just made gives the game as it
/// was before the play, and leaves nothing selected.
pub proof fn undo_restores_session_state(session: ControllerView, play: Play)
    requires
        session.wf(),
        play_result(session.game, play) is Ok,
    ensures
        session.after_attempt(play).after_undo().game == session.game,
        session.after_attempt(play).after_undo().game.state() == session.game.state(),
        session.after_attempt(play).selection is None,
        session.after_attempt(play).after_undo().selection is None,
{
    undo_restores_game(session.game, play);
    let after = play_result(session.game, play)->Ok_0;
    assert(after.turns.len() > 0);
}

/// Nothing is selected after a play was made or taken back.
pub proof fn changes_clear_selection(session: ControllerView, play: Play)
    requires
        session.wf(),
    ensures
        play_result(session.game, play) is Ok ==> session.after_attempt(play).selection is None,
        play_result(session.game, play) is Err ==> session.after_attempt(play) == session,
        session.game.turn() > 0 ==> session.after_undo().selection is None,
        session.after_write_failed().game != session.game
            ==> session.after_write_failed().selection is None,
{
}

/// A response that was computed for another state than the game's is never
/// received for the state of the game: whatever is received for a state was
/// computed for that state.
pub proof fn received_play_is_fresh(ai: AiControllerView, side: Side, state: GameStateView)
    requires
        ai.received_play(side, state) is Some,
    ensures
        exists|i: int|
            0 <= i < ai.channel(side)->0.responses.len() && (
            #[trigger] ai.channel(side)->0.responses[i]).game_state == state && ai.channel(
                side,
            )->0.responses[i].play == ai.received_play(side, state)->0,
{
    let responses = ai.channel(side)->0.responses;
    first_fresh_is_fresh(responses, state);
    let i = first_fresh(responses, state);
    assert(responses[i].game_state == state);
}

/// The first response computed for a state, where there is one, was computed
/// for that state, and none before it was.
proof fn first_fresh_is_fresh(responses: Seq<AiResponseView>, state: GameStateView)
    ensures
        0 <= first_fresh(responses, state) <= responses.len(),
        first_fresh(responses, state) < responses.len() ==> responses[first_fresh(
            responses,
            state,
        )].game_state == state,
        forall|j: int| 0 <= j < first_fresh(responses, state) ==> responses[j].game_state != state,
    decreases responses.len(),
{
    if responses.len() > 0 && responses[0].game_state != state {
        let rest = responses.drop_first();
        first_fresh_is_fresh(rest, state);
        assert forall|j: int| 0 <= j < first_fresh(responses, state) implies responses[j].game_state
            != state by {
            if j > 0 {
                assert(rest[j - 1] == responses[j]);
            }
        }
    }
}

/// The row that is written for a state holds that state: reading the row
/// gives the state back, in every field.
pub proof fn state_row_round_trip(game_id: i64, state: GameStateView)
    requires
        state.turn <= usize::MAX,
        state.plays_since_capture <= usize::MAX,
        state_row(game_id, state) is Some,
    ensures
        row_state(state_row(game_id, state)->0) == Some(state),
{
}

/// The row that is written for the record of a play holds that record.
pub proof fn play_record_row_round_trip(game_id: i64, turn: i64, record: PlayRecordView)
    ensures
        row_record(play_record_row(game_id, turn, record)) == record,
{
}

/// The two rows that are written for a turn are the rows of that turn, and
/// hold it: where the turn is the one that the play after `i` plays made, the
/// rows fit the place `i` of the session's log, and reading them gives the
/// turn back.
pub proof fn turn_rows_round_trip(game_id: i64, turn: TurnView, i: int)
    requires
        turn.state.turn == i + 1,
        turn.state.turn <= usize::MAX,
        turn.state.plays_since_capture <= usize::MAX,
        state_row(game_id, turn.state) is Some,
    ensures
        rows_fit(
            game_id,
            state_row(game_id, turn.state)->0,
            play_record_row(game_id, (i + 1) as i64, turn.record),
            i,
        ),
        rows_turn(
            state_row(game_id, turn.state)->0,
            play_record_row(game_id, (i + 1) as i64, turn.record),
        ) == turn,
{
}

/// The request that is made after a change of the game carries the time of
/// the player whose turn it is: where the game runs and the side to play is
/// an AI with a time for its plays, that side's mailbox holds a request for
/// the state of the game with that time, and the other mailbox is as it was.
pub proof fn request_carries_players_time(session: ControllerView, game: GameView)
    requires
        session.wf(),
        game.state().status.spec_is_ongoing(),
        session.settings.player(game.state().side_to_play).ai_play_time is Some,
    ensures
        session.ai_asked(game).channel(game.state().side_to_play) matches Some(c) && c.pending
            == Some(
            AiRequestView {
                game_state: game.state(),
                time_to_play: session.settings.player(
                    game.state().side_to_play,
                ).ai_play_time->0,
            },
        ),
        session.ai_asked(game).channel(game.state().side_to_play.spec_other())
            == session.ai.channel(game.state().side_to_play.spec_other()),
{
}

/// Where the side to play is no AI, or the game is over, no request is made.
pub proof fn no_request_without_ai(session: ControllerView, game: GameView)
    requires
        session.wf(),
        !game.state().status.spec_is_ongoing() || session.settings.player(
            game.state().side_to_play,
        ).ai_play_time is None,
    ensures
        session.ai_asked(game) == session.ai,
{
}

/// Each side has at most one request that waits for its worker.
pub proof fn at_most_one_outstanding(ai: AiControllerView, side: Side)
    ensures
        ai.outstanding(side) <= 1,
{
}

/// Whether the log of a session is in step with a game: the log holds the
/// turns of the game, and the engine sets up the game's rules and starting
/// state for the variant that the store holds for the session.
pub open spec fn in_step(db: DbView, id: i64, game: GameView) -> bool {
    &&& db.wf()
    &&& game.wf()
    &&& db.game(id) matches Some(entry) && entry.turns == game.turns
    &&& db.settings(id) matches Some(settings) && new_game(
        settings.variant.rules,
        settings.variant.starting_board,
    ) == Some(game.with_turns(Seq::empty()))
}

/// A session that is added at the end of the store under a number that no
/// session has yet is found at the end.
proof fn index_of_added(games: Seq<SavedGameView>, entry: SavedGameView)
    requires
        forall|i: int| 0 <= i < games.len() ==> (#[trigger] games[i]).id != entry.id,
    ensures
        game_index(games.push(entry), entry.id) == games.len(),
    decreases games.len(),
{
    if games.len() > 0 {
        let rest = games.drop_first();
        assert forall|i: int| 0 <= i < rest.len() implies (#[trigger] rest[i]).id != entry.id by {
            assert(rest[i] == games[i + 1]);
        }
        index_of_added(rest, entry);
        assert(games.push(entry).drop_first() =~= rest.push(entry));
        assert(games.push(entry)[0] == games[0]);
    }
}

/// A variant that is added at the end of the store's variants under a name
/// that none has yet is found at the end.
proof fn variant_index_of_added(variants: Seq<VariantView>, variant: VariantView)
    requires
        variant_index(variants, variant.name) >= variants.len(),
    ensures
        variant_index(variants.push(variant), variant.name) == variants.len(),
    decreases variants.len(),
{
    if variants.len() > 0 {
        let rest = variants.drop_first();
        variant_index_of_added(rest, variant);
        assert(variants.push(variant).drop_first() =~= rest.push(variant));
        assert(variants.push(variant)[0] == variants[0]);
    }
}

/// A session that was just added is in step with the game that the engine
/// sets up for its variant, provided the store holds that very variant under
/// the variant's name: the name was free, or held the same variant.
pub proof fn added_session_is_in_step(db: DbView, settings: GameSettingsView, fresh: GameView)
    requires
        db.wf(),
        db.add_game(settings) is Ok,
        new_game(settings.variant.rules, settings.variant.starting_board) == Some(fresh),
        db.variant(settings.variant.name) is None || db.variant(settings.variant.name) == Some(
            settings.variant,
        ),
    ensures
        in_step(db.add_game(settings)->Ok_0, db.next_id, fresh),
        db.add_game(settings)->Ok_0.game(db.next_id)->0.turn == 0,
{
    new_game_is_wf(settings.variant.rules, settings.variant.starting_board);
    let after = db.add_game(settings)->Ok_0;
    let entry = db.first_entry(settings);
    assert forall|i: int| 0 <= i < db.games.len() implies (#[trigger] db.games[i]).id
        != entry.id by {
        assert(db.games[i].id < db.next_id);
    }
    index_of_added(db.games, entry);
    if db.variant(settings.variant.name) is None {
        variant_index_of_added(db.variants, settings.variant);
    }
    assert(after.variant(settings.variant.name) == Some(settings.variant));
    assert(fresh.turns =~= Seq::<TurnView>::empty());
    assert(fresh.with_turns(Seq::empty()) == fresh);
    assert forall|i: int, j: int| 0 <= i < j < after.games.len() implies (
    #[trigger] after.games[i]).id != (#[trigger] after.games[j]).id by {
        if j == db.games.len() {
            assert(db.games[i].id < db.next_id);
        } else {
            assert(db.games[i].id != db.games[j].id);
        }
    }
    assert forall|i: int| 0 <= i < after.games.len() implies (#[trigger] after.games[i]).id
        < after.next_id by {
        if i < db.games.len() {
            assert(db.games[i].id < db.next_id);
        }
    }
    assert forall|i: int| 0 <= i < after.games.len() implies (#[trigger] after.games[i]).wf() by {
        if i < db.games.len() {
            assert(db.games[i].wf());
        }
    }
}

/// The session that is found under a number has that number.
proof fn found_has_id(games: Seq<SavedGameView>, id: i64)
    requires
        game_index(games, id) < games.len(),
    ensures
        games[game_index(games, id) as int].id == id,
    decreases games.len(),
{
    if games[0].id != id {
        found_has_id(games.drop_first(), id);
    }
}

/// The session that stands at a place of the store keeps its place when it is
/// replaced by one of the same number.
proof fn index_after_update(games: Seq<SavedGameView>, id: i64, entry: SavedGameView)
    requires
        game_index(games, id) < games.len(),
        entry.id == id,
    ensures
        game_index(games.update(game_index(games, id) as int, entry), id) == game_index(games, id),
    decreases games.len(),
{
    let i = game_index(games, id) as int;
    if games[0].id != id {
        let rest = games.drop_first();
        index_after_update(rest, id, entry);
        assert(games.update(i, entry).drop_first() =~= rest.update(i - 1, entry));
    }
}

/// While the log is in step with a game, the number of its entries is the
/// turn index of the game, and reading the session back gives that very
/// game, and so its state in every field.
pub proof fn load_gives_game_in_step(db: DbView, id: i64, game: GameView)
    requires
        in_step(db, id, game),
    ensures
        db.game(id)->0.turn == game.turn(),
        db.logged_game(id) == Ok::<GameView, DbError>(game),
        db.logged_game(id)->Ok_0.state() == game.state(),
{
    let i = game_index(db.games, id) as int;
    assert(db.games[i].wf());
    let fresh = game.with_turns(Seq::empty());
    assert(fresh.with_turns(game.turns) == game);
}

/// Appending a turn with which the game stays well formed keeps the log in
/// step: where the log was in step with the game, the turn is written, and
/// the log is in step with the game with that turn.
pub proof fn append_turn_keeps_step(db: DbView, id: i64, game: GameView, turn: TurnView)
    requires
        in_step(db, id, game),
        game.with_turn(turn).wf(),
    ensures
        db.append_turn(id, turn) is Ok,
        in_step(db.append_turn(id, turn)->Ok_0, id, game.with_turn(turn)),
{
    let after = game.with_turn(turn);
    let i = game_index(db.games, id) as int;
    assert(db.games[i].wf());
    assert(after.turns.last() == turn);
    assert(after.fits(after.turns[after.turns.len() - 1].state, after.turns.len() as int));
    let entry = db.games[i].appended(turn);
    found_has_id(db.games, id);
    index_after_update(db.games, id, entry);
    updated_store_is_wf(db, i, entry);
    assert(after.with_turns(Seq::empty()) == game.with_turns(Seq::empty()));
}

/// Appending the turn of a play that was made keeps the log in step: where
/// the log was in step with the game before the play, the turn is written,
/// and the log is in step with the game after the play.
pub proof fn append_keeps_step(db: DbView, id: i64, game: GameView, play: Play)
    requires
        in_step(db, id, game),
        play_result(game, play) is Ok,
    ensures
        db.append_turn(id, play_result(game, play)->Ok_0.turns.last()) is Ok,
        in_step(
            db.append_turn(id, play_result(game, play)->Ok_0.turns.last())->Ok_0,
            id,
            play_result(game, play)->Ok_0,
        ),
{
    let after = play_result(game, play)->Ok_0;
    let turn = after.turns.last();
    play_adds_one_turn(game, play);
    assert(after.turns =~= game.turns.push(turn));
    assert(after == game.with_turn(turn));
    append_turn_keeps_step(db, id, game, turn);
}

/// Removing the last turn after a play was taken back keeps the log in step:
/// where the log was in step with the game before, the turn is removed, and
/// the log is in step with the game after.
pub proof fn truncate_keeps_step(db: DbView, id: i64, game: GameView)
    requires
        in_step(db, id, game),
        game.turn() > 0,
    ensures
        db.truncate_last_turn(id) is Ok,
        in_step(db.truncate_last_turn(id)->Ok_0, id, game.undone()),
{
    undo_takes_one_turn(game);
    let i = game_index(db.games, id) as int;
    assert(db.games[i].wf());
    let entry = db.games[i].truncated();
    found_has_id(db.games, id);
    index_after_update(db.games, id, entry);
    updated_store_is_wf(db, i, entry);
    assert(game.undone().with_turns(Seq::empty()) == game.with_turns(Seq::empty()));
}

/// Something that is done to a game: a play is tried, or the last play is
/// taken back.
pub enum Step {
    Play(Play),
    Undo,
}

/// The game after a step: after the play, where it is made, without its last
/// turn after an undo, and as it was where the play is refused.
pub open spec fn game_after_step(game: GameView, step: Step) -> GameView {
    match step {
        Step::Play(play) => match play_result(game, play) {
            Ok(after) => after,
            Err(_) => game,
        },
        Step::Undo => game.undone(),
    }
}

/// The store after the log of a session has followed a step of the game: the
/// turn of a play that was made is appended, the last turn is removed after a
/// play was taken back, and nothing is written where the game did not change.
pub open spec fn log_after_step(db: DbView, id: i64, game: GameView, step: Step) -> DbView {
    match step {
        Step::Play(play) => match play_result(game, play) {
            Ok(after) => match db.append_turn(id, after.turns.last()) {
                Ok(written) => written,
                Err(_) => db,
            },
            Err(_) => db,
        },
        Step::Undo => if game.turn() > 0 {
            match db.truncate_last_turn(id) {
                Ok(written) => written,
                Err(_) => db,
            }
        } else {
            db
        },
    }
}

/// The game after a sequence of steps, the first one first.
pub open spec fn game_after(game: GameView, steps: Seq<Step>) -> GameView
    decreases steps.len(),
{
    if steps.len() == 0 {
        game
    } else {
        game_after_step(game_after(game, steps.drop_last()), steps.last())
    }
}

/// The store after the log of a session has followed a sequence of steps of
/// the game, step by step.
pub open spec fn log_after(db: DbView, id: i64, game: GameView, steps: Seq<Step>) -> DbView
    decreases steps.len(),
{
    if steps.len() == 0 {
        db
    } else {
        log_after_step(
            log_after(db, id, game, steps.drop_last()),
            id,
            game_after(game, steps.drop_last()),
            steps.last(),
        )
    }
}

/// After any sequence of plays and undos that the log has followed, the log
/// is in step with the game: reading the session back gives the very game
/// that the steps led to, with its state in every field, and the number of
/// entries of the log is the turn index of the game.
pub proof fn load_gives_game_after_any_steps(db: DbView, id: i64, game: GameView, steps: Seq<Step>)
    requires
        in_step(db, id, game),
    ensures
        in_step(log_after(db, id, game, steps), id, game_after(game, steps)),
        log_after(db, id, game, steps).logged_game(id) == Ok::<GameView, DbError>(
            game_after(game, steps),
        ),
        log_after(db, id, game, steps).game(id)->0.turn == game_after(game, steps).turn(),
    decreases steps.len(),
{
    if steps.len() > 0 {
        let before_steps = steps.drop_last();
        load_gives_game_after_any_steps(db, id, game, before_steps);
        let before_game = game_after(game, before_steps);
        let before_db = log_after(db, id, game, before_steps);
        match steps.last() {
            Step::Play(play) => {
                if play_result(before_game, play) is Ok {
                    append_keeps_step(before_db, id, before_game, play);
                }
            },
            Step::Undo => {
                if before_game.turn() > 0 {
                    truncate_keeps_step(before_db, id, before_game);
                } else {
                    undo_takes_one_turn(before_game);
                }
            },
        }
    }
    load_gives_game_in_step(
        log_after(db, id, game, steps),
        id,
        game_after(game, steps),
    );
}

/// A store stays well formed when a session is replaced by one of the same
/// number whose pointer is in step with its log.
proof fn updated_store_is_wf(db: DbView, i: int, entry: SavedGameView)
    requires
        db.wf(),
        0 <= i < db.games.len(),
        entry.id == db.games[i].id,
        entry.wf(),
    ensures
        db.with_game(i, entry).wf(),
{
    let after = db.with_game(i, entry);
    assert forall|a: int, b: int| 0 <= a < b < after.games.len() implies (
    #[trigger] after.games[a]).id != (#[trigger] after.games[b]).id by {
        assert(db.games[a].id != db.games[b].id);
    }
    assert forall|a: int| 0 <= a < after.games.len() implies (#[trigger] after.games[a]).id
        < after.next_id by {
        assert(db.games[a].id < db.next_id);
    }
    assert forall|a: int| 0 <= a < after.games.len() implies (#[trigger] after.games[a]).wf() by {
        if a != i {
            assert(db.games[a].wf());
        }
    }
}

/// Where the log failed to follow, the session goes back to the game as the
/// log holds it, whatever is owed: however many plays were made or taken back
/// since the log last followed, the game is the log's game again, and
/// nothing is selected or owed.
pub proof fn failed_write_gives_logged_game(session: ControllerView)
    requires
        session.wf(),
        session.owed.len() > 0,
    ensures
        session.after_write_failed().game == session.logged,
        session.after_write_failed().owed.len() == 0,
        session.after_write_failed().selection is None,
{
}

/// While the log is in step with the game as the session takes the log to
/// hold it, a failed write leaves session and log at the same game, and so
/// at the same turn: the live turn index is the number of entries of the log.
pub proof fn failed_write_matches_log(db: DbView, session: ControllerView)
    requires
        session.wf(),
        in_step(db, session.db_id, session.logged),
    ensures
        in_step(db, session.db_id, session.after_write_failed().game),
        session.after_write_failed().game.turn() == db.game(session.db_id)->0.turn,
        db.logged_game(session.db_id) == Ok::<GameView, DbError>(
            session.after_write_failed().game,
        ),
{
    if session.owed.len() == 0 {
        assert(session.owed.take(0) =~= session.owed);
    }
    load_gives_game_in_step(db, session.db_id, session.after_write_failed().game);
}

/// Where the log follows the oldest owed action, it stays in step with the
/// game as the session takes the log to hold it: the turn of a play is
/// appended, the last turn is removed for an undo.
pub proof fn write_done_keeps_log_in_step(db: DbView, session: ControllerView)
    requires
        session.wf(),
        session.owed.len() > 0,
        in_step(db, session.db_id, session.logged),
    ensures
        match session.owed[0] {
            ActionView::Play(turn) => db.append_turn(session.db_id, turn) is Ok && in_step(
                db.append_turn(session.db_id, turn)->Ok_0,
                session.db_id,
                session.after_write_done().logged,
            ),
            ActionView::Undo => db.truncate_last_turn(session.db_id) is Ok && in_step(
                db.truncate_last_turn(session.db_id)->Ok_0,
                session.db_id,
                session.after_write_done().logged,
            ),
        },
{
    let first = session.owed.take(1);
    follow_all_single(session.logged, first);
    assert(follow_all(session.logged, first) == follow(session.logged, session.owed[0]));
    assert(follow_all(session.logged, first).wf());
    assert(session.owed.take(0) =~= Seq::<ActionView>::empty());
    match session.owed[0] {
        ActionView::Play(turn) => {
            append_turn_keeps_step(db, session.db_id, session.logged, turn);
        },
        ActionView::Undo => {
            assert(session.undos_wf());
            assert(follow_all(session.logged, session.owed.take(0)).turn() > 0);
            truncate_keeps_step(db, session.db_id, session.logged);
        },
    }
}

/// Where the turn of a play could not be appended, the session goes back to
/// what the log holds: the game is the game before the play again, its turn
/// index is the number of entries of the log, and nothing is owed to the log.
pub proof fn failed_append_rolls_back(db: DbView, session: ControllerView, play: Play)
    requires
        session.wf(),
        session.owed.len() == 0,
        in_step(db, session.db_id, session.game),
        play_result(session.game, play) is Ok,
    ensures
        session.after_attempt(play).owed.len() == 1,
        session.after_attempt(play).after_write_failed().game == session.game,
        session.after_attempt(play).after_write_failed().game.turn() == db.game(
            session.db_id,
        )->0.turn,
        session.after_attempt(play).after_write_failed().owed.len() == 0,
        in_step(db, session.db_id, session.after_attempt(play).after_write_failed().game),
{
    assert(session.owed.take(0) =~= session.owed);
    load_gives_game_in_step(db, session.db_id, session.game);
}

/// Where the last turn could not be removed after a play was taken back, the
/// session goes back to what the log holds: the play is put back, and the
/// game is the game before the undo again.
pub proof fn failed_truncate_rolls_forward(session: ControllerView)
    requires
        session.wf(),
        session.owed.len() == 0,
        session.game.turn() > 0,
    ensures
        session.after_undo().after_write_failed().game == session.game,
        session.after_undo().after_write_failed().owed.len() == 0,
{
    assert(session.owed.take(0) =~= session.owed);
}

} // verus!
