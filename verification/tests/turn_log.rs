use std::time::Duration;

use taflr::config::{GameSettings, Player};
use taflr::db::{add_to_db, save_to_db, DbController, PlayRecordRow, StateRow};
use taflr::engine::Preset;
use taflr::error::DbError;
use taflr::game::{Game, Turn};
use taflr::pieces::{Piece, PieceType, Side};
use taflr::play::{PlacedPiece, Play, PlayEffects, PlayRecord};
use taflr::repetitions::Repetitions;
use taflr::state::GameState;
use taflr::status::{DrawReason, GameOutcome, GameStatus};
use taflr::tiles::Tile;
use taflr::variants::Variant;

fn play(from: (u8, u8), to: (u8, u8)) -> Play {
    Play::from_tiles(Tile::new(from.0, from.1), Tile::new(to.0, to.1))
}

fn settings(kind: Preset, name: &str) -> GameSettings {
    GameSettings {
        variant: Variant::preset(kind),
        name: name.to_string(),
        attacker: Player { name: "Ubba".to_string(), ai_play_time: Some(Duration::from_secs(4)) },
        defender: Player { name: "Aella".to_string(), ai_play_time: None },
    }
}

fn played(kind: Preset, plays: &[Play]) -> Game {
    let mut g = Variant::preset(kind).start().unwrap();
    for p in plays {
        g.do_play(*p).unwrap();
    }
    g
}

#[test]
fn a_new_store_holds_the_four_shipped_variants() {
    let db = DbController::new();
    for name in ["Copenhagen", "Tablut", "Brandubh", "Magpie"] {
        let v = db.load_variant(name).unwrap();
        assert_eq!(v.name, name);
        assert!(!v.is_custom);
        assert_eq!(v, Variant::from_name(name).unwrap());
    }
    assert_eq!(db.load_variant("Fetlar"), Err(DbError::RowNotFound));
    assert!(db.load_saved_game_info().is_empty());
}

#[test]
fn a_variant_whose_name_is_taken_is_not_added_again() {
    let mut db = DbController::new();
    let mut other = Variant::preset(Preset::Tablut);
    other.name = "Brandubh".to_string();
    assert!(!db.add_variant(other));
    assert_eq!(db.load_variant("Brandubh").unwrap(), Variant::preset(Preset::Brandubh));
    let mut custom = Variant::preset(Preset::Tablut);
    custom.name = "Sea battle".to_string();
    custom.is_custom = true;
    assert!(db.add_variant(custom.clone()));
    assert_eq!(db.load_variant("Sea battle").unwrap(), custom);
    db.populate_tables();
    assert_eq!(db.load_variant("Sea battle").unwrap(), custom);
}

#[test]
fn add_game_numbers_the_sessions_from_one() {
    let mut db = DbController::new();
    assert_eq!(db.add_game(settings(Preset::Brandubh, "first")), Ok(1));
    assert_eq!(db.add_game(settings(Preset::Tablut, "second")), Ok(2));
    assert_eq!(db.turn_count(1), Some(0));
    assert_eq!(db.turn_count(2), Some(0));
    assert_eq!(db.turn_count(3), None);
    assert_eq!(db.load_settings(1).unwrap(), settings(Preset::Brandubh, "first"));
    assert_eq!(db.load_settings(2).unwrap(), settings(Preset::Tablut, "second"));
    assert_eq!(db.load_settings(3), Err(DbError::RowNotFound));
}

#[test]
fn add_turn_writes_the_turn_that_comes_next_and_no_other() {
    let mut db = DbController::new();
    let id = db.add_game(settings(Preset::Brandubh, "log")).unwrap();
    let g = played(Preset::Brandubh, &[play((0, 3), (0, 2)), play((2, 3), (2, 1))]);
    let first = g.turns()[0].clone();
    let second = g.turns()[1].clone();
    // the second turn cannot be written before the first
    assert_eq!(
        db.add_turn(id, second.record.clone(), second.state.clone()),
        Err(DbError::OutOfOrder)
    );
    assert_eq!(db.turn_count(id), Some(0));
    assert_eq!(db.add_turn(id, first.record.clone(), first.state.clone()), Ok(1));
    // nor can the first be written twice
    assert_eq!(
        db.add_turn(id, first.record.clone(), first.state.clone()),
        Err(DbError::OutOfOrder)
    );
    assert_eq!(db.turn_count(id), Some(1));
    assert_eq!(db.add_turn(id, second.record.clone(), second.state.clone()), Ok(2));
    assert_eq!(db.turn_count(id), Some(2));
    assert_eq!(
        db.add_turn(id + 1, first.record, first.state),
        Err(DbError::RowNotFound)
    );
    let (_, loaded) = db.load_game(id).unwrap();
    assert_eq!(loaded.turns(), g.turns());
    assert_eq!(loaded.state(), g.state());
}

#[test]
fn undo_turn_is_the_inverse_of_add_turn() {
    let mut db = DbController::new();
    let id = db.add_game(settings(Preset::Brandubh, "log")).unwrap();
    let g = played(Preset::Brandubh, &[play((0, 3), (0, 2)), play((2, 3), (2, 1))]);
    assert_eq!(db.undo_turn(id), Err(DbError::OutOfOrder));
    assert_eq!(db.undo_turn(id + 1), Err(DbError::RowNotFound));
    for t in g.turns() {
        db.add_turn(id, t.record.clone(), t.state.clone()).unwrap();
    }
    let before = db.load_game(id).unwrap().1;
    let extra = played(
        Preset::Brandubh,
        &[play((0, 3), (0, 2)), play((2, 3), (2, 1)), play((1, 3), (1, 1))],
    );
    let third = extra.turns()[2].clone();
    assert_eq!(db.add_turn(id, third.record, third.state), Ok(3));
    assert_eq!(db.undo_turn(id), Ok(2));
    let after = db.load_game(id).unwrap().1;
    assert_eq!(after.turns(), before.turns());
    assert_eq!(after.state(), before.state());
    assert_eq!(db.undo_turn(id), Ok(1));
    assert_eq!(db.undo_turn(id), Ok(0));
    assert_eq!(db.undo_turn(id), Err(DbError::OutOfOrder));
    assert_eq!(db.turn_count(id), Some(0));
}

#[test]
fn load_game_takes_the_state_from_the_last_entry() {
    let mut db = DbController::new();
    let id = db.add_game(settings(Preset::Brandubh, "log")).unwrap();
    let (_, fresh) = db.load_game(id).unwrap();
    assert_eq!(fresh.turn(), 0);
    assert_eq!(fresh.state(), Variant::preset(Preset::Brandubh).start().unwrap().state());
    let g = played(Preset::Brandubh, &[play((0, 3), (0, 2))]);
    let t = g.turns()[0].clone();
    db.add_turn(id, t.record.clone(), t.state.clone()).unwrap();
    let (loaded_settings, loaded) = db.load_game(id).unwrap();
    assert_eq!(loaded_settings, settings(Preset::Brandubh, "log"));
    assert_eq!(*loaded.state(), t.state);
    assert_eq!(loaded.turns()[0].record, t.record);
    assert!(matches!(db.load_game(id + 5), Err(DbError::RowNotFound)));
}

#[test]
fn load_game_refuses_a_log_that_makes_no_game() {
    let mut db = DbController::new();
    let id = db.add_game(settings(Preset::Brandubh, "log")).unwrap();
    let g = played(Preset::Brandubh, &[play((0, 3), (0, 2))]);
    let mut t = g.turns()[0].clone();
    // a board of another size
    t.state.board = "9/9/9/9/9/9/9/9/9".to_string();
    db.add_turn(id, t.record, t.state).unwrap();
    assert!(matches!(db.load_game(id), Err(DbError::Parse)));
    assert!(db.load_saved_game_info().is_empty());

    // a session of a variant whose board is no board
    let mut bad = settings(Preset::Brandubh, "bad");
    bad.variant.name = "Broken".to_string();
    bad.variant.starting_board = "3t3/3t3".to_string();
    let bad_id = db.add_game(bad).unwrap();
    assert!(matches!(db.load_game(bad_id), Err(DbError::Parse)));
}

#[test]
fn the_list_of_sessions_shows_whose_turn_it_is() {
    let mut db = DbController::new();
    let a = db.add_game(settings(Preset::Brandubh, "one")).unwrap();
    let b = db.add_game(settings(Preset::Tablut, "two")).unwrap();
    let g = played(Preset::Brandubh, &[play((0, 3), (0, 2))]);
    let t = g.turns()[0].clone();
    db.add_turn(a, t.record, t.state).unwrap();
    let infos = db.load_saved_game_info();
    assert_eq!(infos.len(), 2);
    assert_eq!(infos[0].id, a);
    assert_eq!(infos[0].game_name, "one");
    assert_eq!(infos[0].variant_name, "Brandubh");
    assert_eq!(infos[0].attacker.name, "Ubba");
    assert_eq!(infos[0].defender.name, "Aella");
    assert_eq!(infos[0].side_to_play, Side::Defender);
    assert_eq!(infos[1].id, b);
    assert_eq!(infos[1].variant_name, "Tablut");
    assert_eq!(infos[1].side_to_play, Side::Attacker);
}

#[test]
fn delete_game_removes_the_session_and_its_log() {
    let mut db = DbController::new();
    let a = db.add_game(settings(Preset::Brandubh, "one")).unwrap();
    let b = db.add_game(settings(Preset::Tablut, "two")).unwrap();
    assert_eq!(db.delete_game_from_db(a), Ok(()));
    assert_eq!(db.delete_game_from_db(a), Err(DbError::RowNotFound));
    assert_eq!(db.turn_count(a), None);
    assert_eq!(db.turn_count(b), Some(0));
    let infos = db.load_saved_game_info();
    assert_eq!(infos.len(), 1);
    assert_eq!(infos[0].id, b);
    // numbers are not given twice
    assert_eq!(db.add_game(settings(Preset::Magpie, "three")), Ok(3));
}

#[test]
fn a_state_and_its_row_say_the_same() {
    let state = GameState {
        board: "3t3/3t3/3T3/ttTKTtt/3T3/3t3/3t3".to_string(),
        side_to_play: Side::Defender,
        repetitions: Repetitions::fresh(),
        plays_since_capture: 3,
        status: GameStatus::Over(GameOutcome::Draw(DrawReason::NoPlays)),
        turn: 17,
    };
    let row = DbController::add_state(12, &state).unwrap();
    assert_eq!(
        row,
        StateRow {
            game_id: 12,
            turn: 17,
            board: "3t3/3t3/3T3/ttTKTtt/3T3/3t3/3t3".to_string(),
            side_to_play: Side::Defender,
            repetitions: Repetitions::fresh(),
            plays_since_capture: 3,
            status: GameStatus::Over(GameOutcome::Draw(DrawReason::NoPlays)),
        }
    );
    assert_eq!(row.state(), Some(state));
}

#[test]
fn a_number_that_does_not_fit_its_column_is_refused() {
    let mut state = GameState {
        board: "1".to_string(),
        side_to_play: Side::Attacker,
        repetitions: Repetitions::fresh(),
        plays_since_capture: 0,
        status: GameStatus::Ongoing,
        turn: usize::MAX,
    };
    assert_eq!(DbController::add_state(1, &state), Err(DbError::Range));
    state.turn = 1;
    state.plays_since_capture = usize::MAX;
    assert_eq!(DbController::add_state(1, &state), Err(DbError::Range));
    state.plays_since_capture = i64::MAX as usize;
    assert_eq!(DbController::add_state(1, &state).unwrap().plays_since_capture, i64::MAX);
    let mut row = DbController::add_state(1, &state).unwrap();
    row.turn = -1;
    assert_eq!(row.state(), None);
    row.turn = 1;
    row.plays_since_capture = -5;
    assert_eq!(row.state(), None);
}

#[test]
fn a_record_and_its_row_say_the_same() {
    let record = PlayRecord {
        side: Side::Attacker,
        play: play((1, 3), (1, 1)),
        effects: PlayEffects {
            captures: vec![PlacedPiece {
                tile: Tile::new(2, 1),
                piece: Piece { piece_type: PieceType::Soldier, side: Side::Defender },
            }],
            game_outcome: None,
        },
    };
    let row = DbController::add_play_record(4, 2, &record);
    assert_eq!(
        row,
        PlayRecordRow {
            game_id: 4,
            turn: 2,
            side: Side::Attacker,
            play: play((1, 3), (1, 1)),
            captures: vec![PlacedPiece {
                tile: Tile::new(2, 1),
                piece: Piece { piece_type: PieceType::Soldier, side: Side::Defender },
            }],
            game_outcome: None,
        }
    );
    assert_eq!(row.record(), record);
}

#[test]
fn the_rows_of_a_session_are_read_as_its_turns() {
    let g = played(Preset::Brandubh, &[play((0, 3), (0, 2)), play((2, 3), (2, 1)), play((1, 3), (1, 1))]);
    let mut states = Vec::new();
    let mut records = Vec::new();
    for t in g.turns() {
        let (state_row, record_row) = DbController::rows_of_turn(5, &t.record, &t.state).unwrap();
        assert_eq!(state_row, DbController::add_state(5, &t.state).unwrap());
        assert_eq!(record_row, DbController::add_play_record(5, state_row.turn, &t.record));
        records.push(record_row);
        states.push(state_row);
    }
    assert_eq!(states[0].turn, 1);
    assert_eq!(records[0].turn, 1);
    assert_eq!(states[2].turn, 3);
    assert_eq!(records[2].turn, 3);
    assert_eq!(DbController::turns_of_rows(5, &states, &records), Ok(g.turns().clone()));
    assert_eq!(DbController::turns_of_rows(5, &vec![], &vec![]), Ok(vec![]));
    // rows of another session
    assert_eq!(DbController::turns_of_rows(6, &states, &records), Err(DbError::Parse));
    // a row is missing
    assert_eq!(DbController::turns_of_rows(5, &states[..2].to_vec(), &records), Err(DbError::Parse));
    assert_eq!(DbController::turns_of_rows(5, &states[1..].to_vec(), &records[1..].to_vec()), Err(DbError::Parse));
    // a record under the wrong turn
    let mut shifted = records.clone();
    shifted[1].turn = 1;
    assert_eq!(DbController::turns_of_rows(5, &states, &shifted), Err(DbError::Parse));
    // a count that is no count
    let mut negative = states.clone();
    negative[2].plays_since_capture = -1;
    assert_eq!(DbController::turns_of_rows(5, &negative, &records), Err(DbError::Parse));
}

#[test]
fn a_session_is_put_back_with_the_number_it_had() {
    let g = played(Preset::Brandubh, &[play((0, 3), (0, 2)), play((2, 3), (2, 1))]);
    let mut db = DbController::new();
    assert_eq!(db.restore_game(4, settings(Preset::Brandubh, "four"), g.turns().clone()), Ok(()));
    assert_eq!(db.turn_count(4), Some(2));
    assert_eq!(db.load_game(4).unwrap().1.state(), g.state());
    assert_eq!(db.load_settings(4).unwrap().name, "four");
    // numbers go up
    assert_eq!(db.restore_game(4, settings(Preset::Brandubh, "again"), vec![]), Err(DbError::OutOfOrder));
    assert_eq!(db.restore_game(2, settings(Preset::Brandubh, "two"), vec![]), Err(DbError::OutOfOrder));
    assert_eq!(db.restore_game(i64::MAX, settings(Preset::Brandubh, "last"), vec![]), Err(DbError::Range));
    assert_eq!(db.restore_game(9, settings(Preset::Tablut, "nine"), vec![]), Ok(()));
    assert_eq!(db.add_game(settings(Preset::Magpie, "next")), Ok(10));
    assert_eq!(db.load_saved_game_info().len(), 3);
}

#[test]
fn whole_games_are_stored_under_numbers_of_their_own() {
    let mut db = DbController::new();
    let attacker = Player { name: "Ragnar".to_string(), ai_play_time: None };
    let defender = Player { name: "Charles".to_string(), ai_play_time: Some(Duration::from_secs(9)) };
    let g0 = played(Preset::Brandubh, &[]);
    let g1 = played(Preset::Brandubh, &[play((0, 3), (0, 2))]);
    assert_eq!(db.largest_snapshot_id(), 0);
    assert_eq!(add_to_db(&mut db, &g0, &attacker, &defender), 1);
    assert_eq!(add_to_db(&mut db, &g1, &attacker, &defender), 2);
    assert_eq!(db.largest_snapshot_id(), 2);
    let (loaded, a, d) = db.load_snapshot(2).unwrap();
    assert_eq!(loaded.state(), g1.state());
    assert_eq!(a, attacker);
    assert_eq!(d, defender);
    // saving under a number that is in use replaces what was there
    save_to_db(&mut db, 1, &g1, &defender, &attacker);
    let (replaced, a, d) = db.load_snapshot(1).unwrap();
    assert_eq!(replaced.turn(), 1);
    assert_eq!(a, defender);
    assert_eq!(d, attacker);
    assert_eq!(db.largest_snapshot_id(), 2);
    // saving under a number that is free adds it
    save_to_db(&mut db, 10, &g0, &attacker, &defender);
    assert_eq!(db.load_snapshot(10).unwrap().0.turn(), 0);
    assert_eq!(add_to_db(&mut db, &g0, &attacker, &defender), 11);
    assert!(db.load_snapshot(3).is_none());
}

#[test]
fn resume_checks_that_the_turns_make_a_game() {
    let v = Variant::preset(Preset::Brandubh);
    let g = played(Preset::Brandubh, &[play((0, 3), (0, 2)), play((2, 3), (2, 1))]);
    let turns: Vec<Turn> = g.turns().clone();
    assert!(Game::resume(&v.rules, &v.starting_board, turns.clone()).is_some());
    // a turn is missing
    assert!(Game::resume(&v.rules, &v.starting_board, vec![turns[1].clone()]).is_none());
    // the turns are out of order
    assert!(Game::resume(&v.rules, &v.starting_board, vec![turns[1].clone(), turns[0].clone()]).is_none());
    // the record names the wrong side
    let mut wrong_side = turns.clone();
    wrong_side[0].record.side = Side::Defender;
    assert!(Game::resume(&v.rules, &v.starting_board, wrong_side).is_none());
    // the record and the state disagree on the outcome
    let mut wrong_outcome = turns.clone();
    wrong_outcome[1].record.effects.game_outcome = Some(GameOutcome::Draw(DrawReason::Repetition));
    assert!(Game::resume(&v.rules, &v.starting_board, wrong_outcome).is_none());
    // more plays without a capture than plays
    let mut wrong_count = turns.clone();
    wrong_count[0].state.plays_since_capture = 2;
    assert!(Game::resume(&v.rules, &v.starting_board, wrong_count).is_none());
    // a game that went on after it was over
    let mut over_early = turns.clone();
    over_early[0].state.status = GameStatus::Over(GameOutcome::Draw(DrawReason::NoPlays));
    over_early[0].record.effects.game_outcome = Some(GameOutcome::Draw(DrawReason::NoPlays));
    assert!(Game::resume(&v.rules, &v.starting_board, over_early).is_none());
    // the rules cannot be read
    assert!(Game::resume("{}", &v.starting_board, turns).is_none());
}
