use hnefatafl::board::state::BoardState;
use taflr::board::board_side_len;
use taflr::display::record_text;
use taflr::engine::Preset;
use taflr::game::Game;
use taflr::play::Play;
use taflr::status::GameStatus;
use taflr::tiles::Tile;
use taflr::variants::Variant;

/// A small generator of numbers, the same on every run.
struct Dice(u64);

impl Dice {
    fn roll(&mut self, sides: usize) -> usize {
        self.0 = self.0.wrapping_mul(6364136223846793005).wrapping_add(1442695040888963407);
        ((self.0 >> 33) as usize) % sides
    }
}

fn engine_game(kind: Preset) -> hnefatafl::aliases::MediumBasicGame {
    let (rules, board) = match kind {
        Preset::Copenhagen => (hnefatafl::preset::rules::COPENHAGEN, hnefatafl::preset::boards::COPENHAGEN),
        Preset::Tablut => (hnefatafl::preset::rules::TABLUT, hnefatafl::preset::boards::TABLUT),
        Preset::Brandubh => (hnefatafl::preset::rules::BRANDUBH, hnefatafl::preset::boards::BRANDUBH),
        Preset::Magpie => (hnefatafl::preset::rules::MAGPIE, hnefatafl::preset::boards::MAGPIE),
    };
    hnefatafl::game::Game::new(rules, board).unwrap()
}

/// Plays a game with plays picked by the dice and holds the library against
/// the engine at every turn.
fn play_along(kind: Preset, seed: u64, turns: usize) {
    let mut dice = Dice(seed);
    let mut ours: Game = Variant::preset(kind).start().unwrap();
    let mut theirs = engine_game(kind);
    let n = ours.side_len();
    for turn in 1..=turns {
        if ours.state().status != GameStatus::Ongoing {
            break;
        }
        let mut choices: Vec<Play> = Vec::new();
        for row in 0..n {
            for col in 0..n {
                let from = Tile::new(row, col);
                let destinations = ours.destinations(from);
                let mut engine_destinations: Vec<(u8, u8)> = match theirs.iter_plays(hnefatafl::tiles::Tile::new(row, col)) {
                    Ok(plays) if theirs.state.board.get_piece(hnefatafl::tiles::Tile::new(row, col)).unwrap().side == theirs.state.side_to_play => {
                        plays.map(|p| (p.play.to().row, p.play.to().col)).collect()
                    }
                    _ => Vec::new(),
                };
                let mut got: Vec<(u8, u8)> = destinations.iter().map(|t| (t.row, t.col)).collect();
                got.sort();
                engine_destinations.sort();
                assert_eq!(got, engine_destinations);
                for to in destinations {
                    assert!(to.within(n));
                    assert!(from.in_line_with(to));
                    choices.push(Play::from_tiles(from, to));
                }
            }
        }
        if choices.is_empty() {
            break;
        }
        let play = choices[dice.roll(choices.len())];
        let before = ours.state().clone();
        let status = ours.do_play(play).unwrap();
        let engine_play = hnefatafl::play::Play::from_tiles(
            hnefatafl::tiles::Tile::new(play.from.row, play.from.col),
            hnefatafl::tiles::Tile::new(play.to.row, play.to.col),
        )
        .unwrap();
        let engine_status = theirs.do_play(engine_play).unwrap();
        assert_eq!(status.is_ongoing(), engine_status == hnefatafl::game::GameStatus::Ongoing);
        let state = ours.state();
        assert_eq!(state.turn, turn);
        assert_eq!(state.turn, before.turn + 1);
        assert_eq!(state.board, theirs.state.board.to_fen());
        assert_eq!(board_side_len(&state.board), Some(n));
        assert_eq!(state.side_to_play, before.side_to_play.other());
        assert_eq!(state.side_to_play.code(), theirs.state.side_to_play as u8);
        assert_eq!(state.plays_since_capture, theirs.state.plays_since_capture);
        assert!(state.plays_since_capture <= before.plays_since_capture + 1);
        assert!(state.plays_since_capture <= state.turn);
        assert_eq!(state.repetitions.text(), serde_json::to_string(&theirs.state.repetitions).unwrap());
        assert!(state.repetitions.fits_turn(turn));
        // the board follows from the play
        let moved = theirs.state.board.get_piece(hnefatafl::tiles::Tile::new(play.to.row, play.to.col));
        assert_eq!(ours.piece_at(play.to).map(|p| p.side.code()), moved.map(|p| p.side as u8));
        assert_eq!(ours.piece_at(play.to).map(|p| p.side), Some(before.side_to_play));
        assert_eq!(state.status, status);
        let record = &ours.turns()[turn - 1].record;
        assert_eq!(record.side, before.side_to_play);
        assert_eq!(record.play, play);
        assert_eq!(record.effects.game_outcome, status.outcome());
        let engine_record = theirs.play_history.last().unwrap();
        let engine_captures: Vec<(u8, u8, u8, u8)> = engine_record
            .effects
            .captures
            .into_iter()
            .map(|p| (p.tile.row, p.tile.col, p.piece.piece_type as u8, p.piece.side as u8))
            .collect();
        let captures: Vec<(u8, u8, u8, u8)> = record
            .effects
            .captures
            .iter()
            .map(|p| (p.tile.row, p.tile.col, p.piece.piece_type.code(), p.piece.side.code()))
            .collect();
        assert_eq!(captures, engine_captures);
        assert_eq!(record_text(record), engine_record.to_string());
        for capture in &record.effects.captures {
            assert_eq!(ours.piece_at(capture.tile), None);
            assert!(capture.tile.within(n));
        }
        assert!(ours.piece_at(play.from).is_none());
    }
    // the whole game can be taken back, turn by turn
    let mut states: Vec<_> = ours.turns().iter().map(|t| t.state.clone()).collect();
    while let Some(last) = states.pop() {
        let undone = ours.undo_last_play().unwrap();
        assert_eq!(undone.state, last);
        match states.last() {
            Some(previous) => assert_eq!(ours.state(), previous),
            None => assert_eq!(ours.state(), ours.initial_state()),
        }
    }
    assert_eq!(ours.turn(), 0);
}

#[test]
fn a_long_game_of_brandubh() {
    play_along(Preset::Brandubh, 1, 120);
    play_along(Preset::Brandubh, 2, 120);
    play_along(Preset::Brandubh, 3, 120);
}

#[test]
fn a_long_game_of_magpie() {
    play_along(Preset::Magpie, 4, 120);
    play_along(Preset::Magpie, 5, 120);
}

#[test]
fn a_long_game_of_tablut() {
    play_along(Preset::Tablut, 6, 80);
    play_along(Preset::Tablut, 7, 80);
}

#[test]
fn a_long_game_of_copenhagen() {
    play_along(Preset::Copenhagen, 8, 50);
    play_along(Preset::Copenhagen, 9, 50);
}
