use std::time::Duration;

use taflr::aictrl::AiResponse;
use taflr::config::{GameSettings, Player};
use taflr::db::DbController;
use taflr::engine::Preset;
use taflr::gamectrl::{Action, Click, GameController};
use taflr::pieces::Side;
use taflr::play::Play;
use taflr::status::GameStatus;
use taflr::tiles::Tile;
use taflr::variants::Variant;

fn play(from: (u8, u8), to: (u8, u8)) -> Play {
    Play::from_tiles(Tile::new(from.0, from.1), Tile::new(to.0, to.1))
}

fn human(name: &str) -> Player {
    Player { name: name.to_string(), ai_play_time: None }
}

/// Writes what the session owes to the log, as the program around it does.
fn follow(db: &mut DbController, s: &mut GameController) -> bool {
    while let Some(action) = s.owed_action() {
        let ok = match action {
            Action::Play(turn) => db.add_turn(s.db_id(), turn.record, turn.state).is_ok(),
            Action::Undo => db.undo_turn(s.db_id()).is_ok(),
        };
        if ok {
            s.write_done();
        } else {
            s.write_failed();
            return false;
        }
    }
    true
}

#[test]
fn a_human_attacker_and_an_ai_defender_on_a_seven_by_seven_board() {
    // A 7x7 variant in which the attacker on (3, 0) has a free way to (3, 2).
    let mut variant = Variant::preset(Preset::Brandubh);
    variant.starting_board = "3t3/3t3/3T3/t2KTtt/3T3/3t3/3t3".to_string();
    variant.name = "Open flank".to_string();
    variant.is_custom = true;
    let game = variant.start().unwrap();
    assert_eq!(game.side_len(), 7);
    let settings = GameSettings {
        variant,
        name: "scenario".to_string(),
        attacker: human("Ubba"),
        defender: Player { name: "Aella".to_string(), ai_play_time: Some(Duration::from_secs(5)) },
    };
    let mut s = GameController::new(settings, game, 1);
    assert_eq!(s.state().turn, 0);
    assert_eq!(s.state().side_to_play, Side::Attacker);
    let turn_zero = s.state().clone();
    // no request is out before the human has played
    assert!(s.take_ai_request(Side::Defender).is_none());

    assert_eq!(s.handle_selection(Tile::new(3, 0)), Click::Selected);
    assert_eq!(s.handle_selection(Tile::new(3, 2)), Click::Played(Ok(GameStatus::Ongoing)));
    assert_eq!(s.state().turn, 1);
    assert_eq!(s.state().side_to_play, Side::Defender);

    let asked = s.take_ai_request(Side::Defender).unwrap();
    assert_eq!(asked.game_state, *s.state());
    assert_eq!(asked.time_to_play, Duration::from_secs(5));
    // exactly one request was out
    assert!(s.take_ai_request(Side::Defender).is_none());

    // a response that echoes the state of turn 0 is dropped
    let early = AiResponse { game_state: turn_zero, play: play((2, 3), (2, 2)) };
    assert_eq!(s.handle_ai_response(early), None);
    assert_eq!(s.state().turn, 1);
    assert_eq!(s.state().side_to_play, Side::Defender);

    // only the one that echoes the state of turn 1 is played
    let due = AiResponse { game_state: asked.game_state, play: play((2, 3), (2, 2)) };
    assert_eq!(s.handle_ai_response(due), Some(Ok(GameStatus::Ongoing)));
    assert_eq!(s.state().turn, 2);
    assert_eq!(s.state().side_to_play, Side::Attacker);
}

#[test]
fn undo_after_five_turns_gives_the_state_that_was_logged_at_turn_four() {
    let variant = Variant::preset(Preset::Brandubh);
    let game = variant.start().unwrap();
    let settings = GameSettings {
        variant,
        name: "five turns".to_string(),
        attacker: human("Brennus"),
        defender: human("Sulpicius"),
    };
    let mut db = DbController::new();
    let id = db.add_game(settings.clone()).unwrap();
    let mut s = GameController::new(settings, game, id);
    let plays = [
        play((0, 3), (0, 2)),
        play((2, 3), (2, 1)),
        play((1, 3), (1, 1)),
        play((3, 2), (2, 2)),
        play((6, 3), (6, 2)),
    ];
    for p in plays {
        s.apply_play(p).unwrap();
        assert!(follow(&mut db, &mut s));
    }
    assert_eq!(s.state().turn, 5);
    assert_eq!(db.turn_count(id), Some(5));
    let logged_at_four = db.load_game(id).unwrap().1.turns()[3].state.clone();
    assert_eq!(logged_at_four.turn, 4);

    assert!(s.undo_last_play());
    assert_eq!(*s.state(), logged_at_four);
    assert!(follow(&mut db, &mut s));
    assert_eq!(db.turn_count(id), Some(4));
    assert_eq!(*db.load_game(id).unwrap().1.state(), *s.state());
}

#[test]
fn loading_gives_the_live_state_after_plays_and_undos() {
    let variant = Variant::preset(Preset::Tablut);
    let game = variant.start().unwrap();
    let settings = GameSettings {
        variant,
        name: "tablut".to_string(),
        attacker: human("Brian"),
        defender: human("Sigtrygg"),
    };
    let mut db = DbController::new();
    let id = db.add_game(settings.clone()).unwrap();
    let mut s = GameController::new(settings, game, id);
    // at turn 0 the log is empty and loading gives the starting state
    assert_eq!(*db.load_game(id).unwrap().1.state(), *s.state());

    let mut played = 0;
    // play whatever the first piece that can move may do, several times over,
    // with an undo thrown in after every third play
    for round in 0..9 {
        let mut made = false;
        'squares: for row in 0..9u8 {
            for col in 0..9u8 {
                let from = Tile::new(row, col);
                let to = match s.game().destinations(from).first() {
                    Some(t) => *t,
                    None => continue,
                };
                assert!(s.apply_play(Play::from_tiles(from, to)).is_ok());
                made = true;
                break 'squares;
            }
        }
        assert!(made);
        played += 1;
        assert!(follow(&mut db, &mut s));
        assert_eq!(*db.load_game(id).unwrap().1.state(), *s.state());
        if round % 3 == 2 {
            assert!(s.undo_last_play());
            played -= 1;
            assert!(follow(&mut db, &mut s));
            assert_eq!(*db.load_game(id).unwrap().1.state(), *s.state());
        }
        assert_eq!(s.state().turn, played);
        assert_eq!(db.turn_count(id), Some(played));
    }
    let (loaded_settings, loaded) = db.load_game(id).unwrap();
    assert_eq!(loaded_settings.name, "tablut");
    assert_eq!(loaded.turns(), s.game().turns());
    assert_eq!(loaded.initial_state(), s.game().initial_state());
}

#[test]
fn a_failed_append_leaves_session_and_log_at_the_same_turn() {
    let variant = Variant::preset(Preset::Brandubh);
    let game = variant.start().unwrap();
    let settings = GameSettings {
        variant,
        name: "failing".to_string(),
        attacker: human("Medb"),
        defender: human("Cu Chulainn"),
    };
    let mut db = DbController::new();
    let id = db.add_game(settings.clone()).unwrap();
    let mut s = GameController::new(settings, game, id);
    s.apply_play(play((0, 3), (0, 2))).unwrap();
    assert!(follow(&mut db, &mut s));
    let logged = s.state().clone();

    // the session is removed from the store behind the session's back: the
    // next append fails
    let mut broken = DbController::new();
    s.apply_play(play((2, 3), (2, 1))).unwrap();
    assert_eq!(s.state().turn, 2);
    assert!(!follow(&mut broken, &mut s));
    assert_eq!(s.state().turn, 1);
    assert_eq!(db.turn_count(id), Some(1));
    assert_eq!(*s.state(), logged);
    assert_eq!(*db.load_game(id).unwrap().1.state(), *s.state());
    // and the game goes on from there
    s.apply_play(play((2, 3), (2, 2))).unwrap();
    assert!(follow(&mut db, &mut s));
    assert_eq!(db.turn_count(id), Some(2));
    assert_eq!(*db.load_game(id).unwrap().1.state(), *s.state());
}

#[test]
fn the_log_follows_several_owed_actions_in_their_order() {
    let variant = Variant::preset(Preset::Brandubh);
    let game = variant.start().unwrap();
    let settings = GameSettings {
        variant,
        name: "owed".to_string(),
        attacker: human("Ragnar"),
        defender: human("Charles"),
    };
    let mut db = DbController::new();
    let id = db.add_game(settings.clone()).unwrap();
    let mut s = GameController::new(settings, game, id);
    s.apply_play(play((0, 3), (0, 2))).unwrap();
    s.apply_play(play((2, 3), (2, 1))).unwrap();
    s.undo_last_play();
    s.apply_play(play((2, 3), (2, 2))).unwrap();
    assert_eq!(s.owed_count(), 4);
    assert!(follow(&mut db, &mut s));
    assert_eq!(s.owed_count(), 0);
    assert_eq!(db.turn_count(id), Some(2));
    let loaded = db.load_game(id).unwrap().1;
    assert_eq!(loaded.turns(), s.game().turns());
    assert_eq!(loaded.state(), s.state());
}
