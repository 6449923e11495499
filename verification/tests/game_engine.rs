use hnefatafl::board::state::BoardState;
use taflr::engine::{CaptureCode, PieceCode, Preset, RawState};
use taflr::error::PlayError;
use taflr::game::{captures_from_codes, state_from_raw, Game};
use taflr::pieces::{Piece, PieceType, Side};
use taflr::repetitions::{Axis, RawRepetitions, RawShortRecord, Repetitions, ShortPlayRecord};
use taflr::play::{PlacedPiece, Play, PlayInvalid};
use taflr::status::{DrawReason, GameOutcome, GameStatus, StatusCode, WinReason};
use taflr::tiles::Tile;
use taflr::variants::Variant;

fn brandubh() -> Game {
    let rules = serde_json::to_string(&hnefatafl::preset::rules::BRANDUBH).unwrap();
    Game::new(&rules, hnefatafl::preset::boards::BRANDUBH).unwrap()
}

#[test]
fn new_game_starts_at_turn_zero() {
    let g = brandubh();
    assert_eq!(g.turn(), 0);
    assert_eq!(g.side_len(), 7);
    assert_eq!(g.state().turn, 0);
    assert_eq!(g.state().side_to_play, Side::Attacker);
    assert_eq!(g.state().status, GameStatus::Ongoing);
    assert_eq!(g.state().board, "3t3/3t3/3T3/ttTKTtt/3T3/3t3/3t3");
    assert_eq!(g.state().plays_since_capture, 0);
}

#[test]
fn new_game_refuses_bad_texts() {
    let rules = serde_json::to_string(&hnefatafl::preset::rules::BRANDUBH).unwrap();
    assert!(Game::new(&rules, "3t3/3t3").is_none());
    assert!(Game::new(&rules, "").is_none());
    assert!(Game::new(&rules, "3k3/3t3/3T3/ttTKTtt/3T3/3t3/3t3").is_none());
    assert!(Game::new("no rules", hnefatafl::preset::boards::BRANDUBH).is_none());
}

#[test]
fn piece_at_reads_the_board() {
    let g = brandubh();
    assert_eq!(g.piece_at(Tile::new(3, 3)), Some(Piece { piece_type: PieceType::King, side: Side::Defender }));
    assert_eq!(g.piece_at(Tile::new(3, 0)), Some(Piece { piece_type: PieceType::Soldier, side: Side::Attacker }));
    assert_eq!(g.piece_at(Tile::new(2, 3)), Some(Piece { piece_type: PieceType::Soldier, side: Side::Defender }));
    assert_eq!(g.piece_at(Tile::new(0, 0)), None);
    assert_eq!(g.piece_at(Tile::new(7, 0)), None);
}

#[test]
fn destinations_of_an_outer_attacker() {
    let g = brandubh();
    let mut d = g.destinations(Tile::new(0, 3));
    d.sort_by_key(|t| (t.row, t.col));
    assert_eq!(d, vec![Tile::new(0, 1), Tile::new(0, 2), Tile::new(0, 4), Tile::new(0, 5)]);
    assert!(g.destinations(Tile::new(2, 3)).is_empty());
    assert!(g.destinations(Tile::new(0, 0)).is_empty());
    assert!(g.destinations(Tile::new(9, 9)).is_empty());
}

#[test]
fn do_play_advances_the_turn() {
    let mut g = brandubh();
    let before = g.state().clone();
    let r = g.do_play(Play::from_tiles(Tile::new(3, 0), Tile::new(2, 0)));
    assert_eq!(r, Ok(GameStatus::Ongoing));
    assert_eq!(g.turn(), 1);
    assert_eq!(g.state().turn, 1);
    assert_eq!(g.state().side_to_play, Side::Defender);
    assert_eq!(g.state().board, "3t3/3t3/t2T3/1tTKTtt/3T3/3t3/3t3");
    assert_eq!(g.state().plays_since_capture, 1);
    assert_ne!(*g.state(), before);
    assert_eq!(g.turns().len(), 1);
    assert_eq!(g.turns()[0].record.side, Side::Attacker);
    assert!(g.turns()[0].record.effects.captures.is_empty());
    assert_eq!(g.turns()[0].record.effects.game_outcome, None);
}

#[test]
fn do_play_gives_the_reason_of_a_refusal() {
    let mut g = brandubh();
    let before = g.state().clone();
    assert_eq!(g.do_play(Play::from_tiles(Tile::new(0, 0), Tile::new(0, 1))), Err(PlayError::Invalid(PlayInvalid::NoPiece)));
    assert_eq!(g.do_play(Play::from_tiles(Tile::new(2, 3), Tile::new(2, 1))), Err(PlayError::Invalid(PlayInvalid::WrongPlayer)));
    assert_eq!(g.do_play(Play::from_tiles(Tile::new(0, 3), Tile::new(2, 3))), Err(PlayError::Invalid(PlayInvalid::BlockedByPiece)));
    assert_eq!(g.do_play(Play::from_tiles(Tile::new(0, 3), Tile::new(1, 4))), Err(PlayError::Invalid(PlayInvalid::NoCommonAxis)));
    assert_eq!(g.do_play(Play::from_tiles(Tile::new(0, 3), Tile::new(0, 7))), Err(PlayError::Invalid(PlayInvalid::OutOfBounds)));
    assert_eq!(g.do_play(Play::from_tiles(Tile::new(0, 3), Tile::new(0, 0))), Err(PlayError::Invalid(PlayInvalid::MoveOntoBlockedTile)));
    assert_eq!(*g.state(), before);
    assert_eq!(g.turn(), 0);
}

#[test]
fn a_capture_is_recorded_and_leaves_the_board() {
    let rules = serde_json::to_string(&hnefatafl::preset::rules::BRANDUBH).unwrap();
    let mut g = Game::new(&rules, "7/1t5/1T5/7/1t3K1/7/7").unwrap();
    // The attacker on b5 (row 4, col 1) moves up to close on the defender at (2, 1).
    let r = g.do_play(Play::from_tiles(Tile::new(4, 1), Tile::new(3, 1)));
    assert_eq!(r, Ok(GameStatus::Ongoing));
    let rec = &g.turns()[0].record;
    assert_eq!(rec.effects.captures.len(), 1);
    assert_eq!(rec.effects.captures[0].tile, Tile::new(2, 1));
    assert_eq!(rec.effects.captures[0].piece, Piece { piece_type: PieceType::Soldier, side: Side::Defender });
    assert_eq!(g.piece_at(Tile::new(2, 1)), None);
    assert_eq!(g.state().plays_since_capture, 0);
}

#[test]
fn undo_returns_to_the_state_before() {
    let mut g = brandubh();
    let s0 = g.state().clone();
    g.do_play(Play::from_tiles(Tile::new(0, 3), Tile::new(0, 2))).unwrap();
    let s1 = g.state().clone();
    g.do_play(Play::from_tiles(Tile::new(2, 3), Tile::new(2, 1))).unwrap();
    let s2 = g.state().clone();
    g.do_play(Play::from_tiles(Tile::new(1, 3), Tile::new(1, 1))).unwrap();
    let undone = g.undo_last_play().unwrap();
    assert_eq!(undone.state.turn, 3);
    assert_eq!(*g.state(), s2);
    g.undo_last_play();
    assert_eq!(*g.state(), s1);
    g.undo_last_play();
    assert_eq!(*g.state(), s0);
    assert!(g.undo_last_play().is_none());
    assert_eq!(*g.state(), s0);
}


fn raw_slot(slot: Option<ShortPlayRecord>) -> Option<RawShortRecord> {
    slot.map(|p| RawShortRecord {
        side: p.side.code(),
        row: p.from.row,
        col: p.from.col,
        axis: match p.axis {
            Axis::Vertical => 0,
            Axis::Horizontal => 128,
        },
        displacement: p.displacement,
        captures: p.captures,
    })
}

fn raw_repetitions(r: &Repetitions) -> RawRepetitions {
    RawRepetitions {
        attacker_reps: r.attacker_reps,
        defender_reps: r.defender_reps,
        attacker_mid_pair: r.attacker_mid_pair,
        defender_mid_pair: r.defender_mid_pair,
        slot0: raw_slot(r.slot0),
        slot1: raw_slot(r.slot1),
        slot2: raw_slot(r.slot2),
        slot3: raw_slot(r.slot3),
        first_i: r.first_i,
    }
}

fn answer(g: &Game) -> RawState {
    RawState {
        board: g.state().board.clone(),
        side_to_play: 8,
        repetitions: raw_repetitions(&g.state().repetitions),
        plays_since_capture: 1,
        status: StatusCode { kind: 0, reason: 0, side: 0 },
    }
}

#[test]
fn the_engines_answer_becomes_the_next_turn() {
    let mut g = brandubh();
    let mut raw = answer(&g);
    raw.board = "2t4/3t3/3T3/ttTKTtt/3T3/3t3/3t3".to_string();
    let codes = vec![CaptureCode { tile: Tile::new(5, 5), piece: PieceCode { piece_type: 2, side: 8 } }];
    let r = g.record_play(Play::from_tiles(Tile::new(0, 3), Tile::new(0, 2)), raw, codes);
    assert_eq!(r, Ok(GameStatus::Ongoing));
    assert_eq!(g.turn(), 1);
    assert_eq!(g.state().turn, 1);
    assert_eq!(g.state().side_to_play, Side::Defender);
    assert_eq!(g.state().board, "2t4/3t3/3T3/ttTKTtt/3T3/3t3/3t3");
    assert_eq!(g.state().plays_since_capture, 1);
    let rec = &g.turns()[0].record;
    assert_eq!(rec.side, Side::Attacker);
    assert_eq!(rec.play, Play::from_tiles(Tile::new(0, 3), Tile::new(0, 2)));
    assert_eq!(
        rec.effects.captures,
        vec![PlacedPiece { tile: Tile::new(5, 5), piece: Piece { piece_type: PieceType::Soldier, side: Side::Defender } }]
    );
    assert_eq!(rec.effects.game_outcome, None);
}

#[test]
fn an_answer_with_an_outcome_ends_the_game() {
    let mut g = brandubh();
    let mut raw = answer(&g);
    raw.status = StatusCode { kind: 1, reason: 2, side: 0 };
    let r = g.record_play(Play::from_tiles(Tile::new(0, 3), Tile::new(0, 2)), raw, vec![]);
    let over = GameStatus::Over(GameOutcome::Win(WinReason::KingCaptured, Side::Attacker));
    assert_eq!(r, Ok(over));
    assert_eq!(g.state().status, over);
    assert_eq!(
        g.turns()[0].record.effects.game_outcome,
        Some(GameOutcome::Win(WinReason::KingCaptured, Side::Attacker))
    );
    // a game that is over takes up no further answer
    let again = answer(&g);
    assert_eq!(
        g.record_play(Play::from_tiles(Tile::new(2, 3), Tile::new(2, 2)), again, vec![]),
        Err(PlayError::NoGame)
    );
    assert_eq!(g.turn(), 1);
}

#[test]
fn an_answer_that_is_no_state_of_the_game_is_refused() {
    let p = Play::from_tiles(Tile::new(0, 3), Tile::new(0, 2));
    let mut g = brandubh();
    let before = g.state().clone();

    let mut bad_side = answer(&g);
    bad_side.side_to_play = 3;
    assert_eq!(g.record_play(p, bad_side, vec![]), Err(PlayError::NoGame));

    let mut bad_status = answer(&g);
    bad_status.status = StatusCode { kind: 1, reason: 9, side: 0 };
    assert_eq!(g.record_play(p, bad_status, vec![]), Err(PlayError::NoGame));

    let mut other_board = answer(&g);
    other_board.board = "9/9/9/9/9/9/9/9/9".to_string();
    assert_eq!(g.record_play(p, other_board, vec![]), Err(PlayError::NoGame));

    let mut no_board = answer(&g);
    no_board.board = "what".to_string();
    assert_eq!(g.record_play(p, no_board, vec![]), Err(PlayError::NoGame));

    let mut counted_too_far = answer(&g);
    counted_too_far.plays_since_capture = 2;
    assert_eq!(g.record_play(p, counted_too_far, vec![]), Err(PlayError::NoGame));

    let mut bad_ring = answer(&g);
    bad_ring.repetitions.first_i = 4;
    assert_eq!(g.record_play(p, bad_ring, vec![]), Err(PlayError::NoGame));

    let mut repeated_too_often = answer(&g);
    repeated_too_often.repetitions.defender_reps = 2;
    assert_eq!(g.record_play(p, repeated_too_often, vec![]), Err(PlayError::NoGame));

    let mut bad_slot = answer(&g);
    bad_slot.repetitions.slot2 = Some(RawShortRecord { side: 3, row: 0, col: 0, axis: 0, displacement: 1, captures: false });
    assert_eq!(g.record_play(p, bad_slot, vec![]), Err(PlayError::NoGame));

    let mut bad_axis = answer(&g);
    bad_axis.repetitions.slot0 = Some(RawShortRecord { side: 0, row: 0, col: 0, axis: 1, displacement: 1, captures: false });
    assert_eq!(g.record_play(p, bad_axis, vec![]), Err(PlayError::NoGame));

    let bad_piece = vec![CaptureCode { tile: Tile::new(1, 1), piece: PieceCode { piece_type: 3, side: 0 } }];
    assert_eq!(g.record_play(p, answer(&g), bad_piece), Err(PlayError::NoGame));

    assert_eq!(*g.state(), before);
    assert_eq!(g.turn(), 0);
}

#[test]
fn states_and_captures_are_read_from_the_engines_numbers() {
    let raw = RawState {
        board: "K".to_string(),
        side_to_play: 0,
        repetitions: RawRepetitions {
            attacker_reps: 2,
            defender_reps: 1,
            attacker_mid_pair: true,
            defender_mid_pair: false,
            slot0: None,
            slot1: Some(RawShortRecord { side: 8, row: 2, col: 3, axis: 128, displacement: -2, captures: true }),
            slot2: None,
            slot3: None,
            first_i: 2,
        },
        plays_since_capture: 4,
        status: StatusCode { kind: 2, reason: 0, side: 0 },
    };
    let s = state_from_raw(raw, 9).unwrap();
    assert_eq!(s.board, "K");
    assert_eq!(s.side_to_play, Side::Attacker);
    assert_eq!(
        s.repetitions,
        Repetitions {
            attacker_reps: 2,
            defender_reps: 1,
            attacker_mid_pair: true,
            defender_mid_pair: false,
            slot0: None,
            slot1: Some(ShortPlayRecord {
                side: Side::Defender,
                from: Tile::new(2, 3),
                axis: Axis::Horizontal,
                displacement: -2,
                captures: true,
            }),
            slot2: None,
            slot3: None,
            first_i: 2,
        }
    );
    assert_eq!(s.plays_since_capture, 4);
    assert_eq!(s.status, GameStatus::Over(GameOutcome::Draw(DrawReason::Repetition)));
    assert_eq!(s.turn, 9);
    let codes = vec![
        CaptureCode { tile: Tile::new(1, 2), piece: PieceCode { piece_type: 2, side: 0 } },
        CaptureCode { tile: Tile::new(3, 4), piece: PieceCode { piece_type: 1, side: 8 } },
    ];
    assert_eq!(
        captures_from_codes(&codes),
        Some(vec![
            PlacedPiece { tile: Tile::new(1, 2), piece: Piece { piece_type: PieceType::Soldier, side: Side::Attacker } },
            PlacedPiece { tile: Tile::new(3, 4), piece: Piece { piece_type: PieceType::King, side: Side::Defender } },
        ])
    );
    assert_eq!(captures_from_codes(&vec![]), Some(vec![]));
    let bad = vec![
        CaptureCode { tile: Tile::new(1, 2), piece: PieceCode { piece_type: 2, side: 0 } },
        CaptureCode { tile: Tile::new(3, 4), piece: PieceCode { piece_type: 1, side: 5 } },
    ];
    assert_eq!(captures_from_codes(&bad), None);
}

#[test]
fn the_library_and_the_engine_agree_play_by_play() {
    let plays = [
        ((0u8, 3u8), (0u8, 2u8)),
        ((2, 3), (2, 1)),
        ((1, 3), (1, 1)),
        ((3, 2), (2, 2)),
        ((6, 3), (6, 2)),
        ((3, 3), (2, 3)),
    ];
    let mut ours = brandubh();
    let mut theirs: hnefatafl::aliases::MediumBasicGame =
        hnefatafl::game::Game::new(hnefatafl::preset::rules::BRANDUBH, hnefatafl::preset::boards::BRANDUBH).unwrap();
    for (i, (from, to)) in plays.iter().enumerate() {
        let p = hnefatafl::play::Play::from_tiles(
            hnefatafl::tiles::Tile::new(from.0, from.1),
            hnefatafl::tiles::Tile::new(to.0, to.1),
        )
        .unwrap();
        theirs.do_play(p).unwrap();
        ours.do_play(Play::from_tiles(Tile::new(from.0, from.1), Tile::new(to.0, to.1))).unwrap();
        assert_eq!(ours.state().board, theirs.state.board.to_fen());
        assert_eq!(ours.state().turn, theirs.state.turn);
        assert_eq!(ours.state().turn, i + 1);
        assert_eq!(ours.state().plays_since_capture, theirs.state.plays_since_capture);
        assert_eq!(ours.state().side_to_play.code(), theirs.state.side_to_play as u8);
        assert_eq!(ours.state().repetitions.text(), serde_json::to_string(&theirs.state.repetitions).unwrap());
        assert_eq!(ours.state().status.is_ongoing(), theirs.state.status == hnefatafl::game::GameStatus::Ongoing);
        let record = &ours.turns()[i].record;
        let their_record = theirs.play_history.last().unwrap();
        let their_captures: Vec<(u8, u8)> =
            their_record.effects.captures.into_iter().map(|p| (p.tile.row, p.tile.col)).collect();
        let our_captures: Vec<(u8, u8)> =
            record.effects.captures.iter().map(|p| (p.tile.row, p.tile.col)).collect();
        assert_eq!(our_captures, their_captures);
    }
    assert_eq!(ours.turns()[2].record.effects.captures.len(), 1);
}

#[test]
fn a_slow_king_may_not_move_far() {
    let mut g = Variant::preset(Preset::Magpie).start().unwrap();
    g.do_play(Play::from_tiles(Tile::new(0, 3), Tile::new(0, 2))).unwrap();
    g.do_play(Play::from_tiles(Tile::new(2, 3), Tile::new(2, 1))).unwrap();
    g.do_play(Play::from_tiles(Tile::new(0, 2), Tile::new(0, 3))).unwrap();
    // the way up is free now, but the king of this variant moves one square at a time
    assert_eq!(
        g.do_play(Play::from_tiles(Tile::new(3, 3), Tile::new(1, 3))),
        Err(PlayError::Invalid(PlayInvalid::TooFar))
    );
    assert_eq!(g.do_play(Play::from_tiles(Tile::new(3, 3), Tile::new(2, 3))), Ok(GameStatus::Ongoing));
}

#[test]
fn the_throne_of_tablut_may_not_be_passed() {
    let rules = serde_json::to_string(&hnefatafl::preset::rules::TABLUT).unwrap();
    let mut g = Game::new(&rules, "9/9/9/9/t3K4/9/9/9/9").unwrap();
    assert_eq!(
        g.do_play(Play::from_tiles(Tile::new(4, 0), Tile::new(4, 3))),
        Ok(GameStatus::Ongoing)
    );
    let mut h = Game::new(&rules, "9/9/9/9/t8/9/9/9/4K4").unwrap();
    assert_eq!(
        h.do_play(Play::from_tiles(Tile::new(4, 0), Tile::new(4, 6))),
        Err(PlayError::Invalid(PlayInvalid::MoveThroughBlockedTile))
    );
    assert_eq!(
        h.do_play(Play::from_tiles(Tile::new(4, 0), Tile::new(4, 4))),
        Err(PlayError::Invalid(PlayInvalid::MoveOntoBlockedTile))
    );
}

#[test]
fn a_game_that_is_over_takes_no_play() {
    let rules = serde_json::to_string(&hnefatafl::preset::rules::BRANDUBH).unwrap();
    let mut g = Game::new(&rules, "1t5/7/7/7/7/7/5K1").unwrap();
    g.do_play(Play::from_tiles(Tile::new(0, 1), Tile::new(0, 2))).unwrap();
    let won = GameStatus::Over(GameOutcome::Win(WinReason::KingEscaped, Side::Defender));
    assert_eq!(g.do_play(Play::from_tiles(Tile::new(6, 5), Tile::new(6, 6))), Ok(won));
    assert_eq!(g.turns()[1].record.effects.game_outcome, Some(GameOutcome::Win(WinReason::KingEscaped, Side::Defender)));
    assert_eq!(
        g.do_play(Play::from_tiles(Tile::new(0, 2), Tile::new(0, 3))),
        Err(PlayError::Invalid(PlayInvalid::GameOver))
    );
    assert!(g.destinations(Tile::new(0, 2)).is_empty());
    // taking the last play back makes the game run again
    let undone = g.undo_last_play().unwrap();
    assert_eq!(undone.state.status, won);
    assert_eq!(g.state().status, GameStatus::Ongoing);
    assert!(!g.destinations(Tile::new(6, 5)).is_empty());
}

#[test]
fn a_turn_can_be_put_back() {
    let mut g = brandubh();
    g.do_play(Play::from_tiles(Tile::new(0, 3), Tile::new(0, 2))).unwrap();
    let after = g.state().clone();
    let turn = g.undo_last_play().unwrap();
    assert!(g.put_back(turn.clone()));
    assert_eq!(*g.state(), after);
    // the same turn does not come next a second time
    assert!(!g.put_back(turn));
    assert_eq!(g.turn(), 1);
    let copy = g.duplicate();
    assert_eq!(copy.turns(), g.turns());
    assert_eq!(copy.state(), g.state());
}

#[test]
fn the_record_of_repeated_plays_is_written_as_the_engine_reads_it() {
    let fresh = Repetitions::fresh();
    assert_eq!(
        fresh.text(),
        serde_json::to_string(&hnefatafl::game::state::RepetitionTracker::default()).unwrap()
    );
    assert!(fresh.wf());
    assert!(fresh.fits_turn(0));
    let r = Repetitions {
        attacker_reps: 12,
        defender_reps: 0,
        attacker_mid_pair: true,
        defender_mid_pair: false,
        slot0: Some(ShortPlayRecord {
            side: Side::Attacker,
            from: Tile::new(10, 3),
            axis: Axis::Vertical,
            displacement: -7,
            captures: false,
        }),
        slot1: None,
        slot2: Some(ShortPlayRecord {
            side: Side::Defender,
            from: Tile::new(0, 9),
            axis: Axis::Horizontal,
            displacement: 4,
            captures: true,
        }),
        slot3: None,
        first_i: 3,
    };
    assert_eq!(
        r.text(),
        "{\"attacker_reps\":12,\"defender_reps\":0,\"attacker_mid_pair\":true,\"defender_mid_pair\":false,\
\"recent_plays\":{\"queue\":[{\"side\":\"Attacker\",\"play\":{\"from\":{\"row\":10,\"col\":3},\
\"movement\":{\"axis\":\"Vertical\",\"displacement\":-7}},\"captures\":false},null,\
{\"side\":\"Defender\",\"play\":{\"from\":{\"row\":0,\"col\":9},\
\"movement\":{\"axis\":\"Horizontal\",\"displacement\":4}},\"captures\":true},null],\"first_i\":3}}"
    );
    // the engine reads the text and writes the same text back
    let read: hnefatafl::game::state::RepetitionTracker = serde_json::from_str(&r.text()).unwrap();
    assert_eq!(serde_json::to_string(&read).unwrap(), r.text());
    assert_eq!(Repetitions::from_raw(raw_repetitions(&r)), Some(r));
    assert!(r.fits_turn(12));
    assert!(!r.fits_turn(11));
    let low = Repetitions { slot0: Some(ShortPlayRecord { displacement: -128, ..r.slot0.unwrap() }), ..r };
    assert!(low.text().contains("\"displacement\":-128}"));
    let wide = Repetitions { attacker_reps: usize::MAX, ..fresh };
    assert!(wide.text().starts_with(&format!("{{\"attacker_reps\":{},", usize::MAX)));
    assert!(!wide.wf());
}

#[test]
fn a_record_with_a_place_outside_the_ring_never_reaches_the_engine() {
    let v = Variant::preset(Preset::Brandubh);
    let mut g = brandubh();
    g.do_play(Play::from_tiles(Tile::new(0, 3), Tile::new(0, 2))).unwrap();
    let mut turn = g.undo_last_play().unwrap();
    turn.state.repetitions.first_i = 9;
    assert!(!g.put_back(turn.clone()));
    assert!(Game::resume(&v.rules, &v.starting_board, vec![turn.clone()]).is_none());
    turn.state.repetitions.first_i = 1;
    turn.state.repetitions.attacker_reps = usize::MAX;
    assert!(!g.put_back(turn.clone()));
    assert!(Game::resume(&v.rules, &v.starting_board, vec![turn.clone()]).is_none());
    turn.state.repetitions.attacker_reps = 1;
    assert!(g.put_back(turn));
    assert_eq!(g.do_play(Play::from_tiles(Tile::new(2, 3), Tile::new(2, 1))), Ok(GameStatus::Ongoing));
}
