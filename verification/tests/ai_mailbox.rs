use std::time::Duration;

use taflr::aictrl::{search_outcome, AiChannel, AiController, AiError, AiRequest, AiResponse};
use taflr::engine::Preset;
use taflr::game::Game;
use taflr::pieces::Side;
use taflr::play::Play;
use taflr::state::GameState;
use taflr::tiles::Tile;
use taflr::variants::Variant;

fn play(from: (u8, u8), to: (u8, u8)) -> Play {
    Play::from_tiles(Tile::new(from.0, from.1), Tile::new(to.0, to.1))
}

fn game() -> Game {
    Variant::preset(Preset::Brandubh).start().unwrap()
}

fn state_at(turn: usize) -> GameState {
    let mut s = game().state().clone();
    s.turn = turn;
    s
}

#[test]
fn a_side_without_a_time_has_no_mailbox() {
    let mut ai = AiController::new(None, Some(Duration::from_secs(5)));
    let g = game();
    // the attacker is to play and is no AI
    assert!(!ai.request_ai_play(&g));
    assert!(ai.take_request(Side::Attacker).is_none());
    assert!(ai.take_request(Side::Defender).is_none());
    assert!(!ai.deliver(Side::Attacker, AiResponse { game_state: g.state().clone(), play: play((0, 3), (0, 2)) }));
    assert_eq!(ai.receive_ai_play(Side::Attacker, g.state()), None);
    assert_eq!(ai.poll_response(Side::Attacker), None);
}

#[test]
fn a_request_holds_the_state_and_the_sides_time() {
    let mut ai = AiController::new(Some(Duration::from_secs(2)), Some(Duration::from_secs(5)));
    let mut g = game();
    assert!(ai.request_ai_play(&g));
    let req = ai.take_request(Side::Attacker).unwrap();
    assert_eq!(req, AiRequest { game_state: g.state().clone(), time_to_play: Duration::from_secs(2) });
    assert!(ai.take_request(Side::Attacker).is_none());
    g.do_play(play((0, 3), (0, 2))).unwrap();
    assert!(ai.request_ai_play(&g));
    assert!(ai.take_request(Side::Attacker).is_none());
    let req = ai.take_request(Side::Defender).unwrap();
    assert_eq!(req.game_state, *g.state());
    assert_eq!(req.time_to_play, Duration::from_secs(5));
}

#[test]
fn at_most_one_request_waits_for_a_side() {
    let mut ai = AiController::new(Some(Duration::from_secs(2)), None);
    assert!(ai.request(&state_at(0)));
    assert!(ai.request(&state_at(2)));
    assert!(ai.request(&state_at(4)));
    // the newest request took the place of the older ones
    let req = ai.take_request(Side::Attacker).unwrap();
    assert_eq!(req.game_state.turn, 4);
    assert!(ai.take_request(Side::Attacker).is_none());
}

#[test]
fn responses_come_out_in_the_order_in_which_they_went_in() {
    let mut ai = AiController::new(Some(Duration::from_secs(2)), None);
    for turn in [0usize, 2, 4] {
        assert!(ai.deliver(Side::Attacker, AiResponse { game_state: state_at(turn), play: play((0, 3), (0, 2)) }));
    }
    assert_eq!(ai.poll_response(Side::Attacker).unwrap().game_state.turn, 0);
    assert_eq!(ai.poll_response(Side::Attacker).unwrap().game_state.turn, 2);
    assert_eq!(ai.poll_response(Side::Attacker).unwrap().game_state.turn, 4);
    assert_eq!(ai.poll_response(Side::Attacker), None);
}

#[test]
fn receive_drops_what_was_computed_for_another_state() {
    let mut ai = AiController::new(Some(Duration::from_secs(2)), None);
    ai.deliver(Side::Attacker, AiResponse { game_state: state_at(0), play: play((0, 3), (0, 1)) });
    ai.deliver(Side::Attacker, AiResponse { game_state: state_at(2), play: play((0, 3), (0, 2)) });
    ai.deliver(Side::Attacker, AiResponse { game_state: state_at(4), play: play((0, 3), (0, 4)) });
    ai.deliver(Side::Attacker, AiResponse { game_state: state_at(2), play: play((0, 3), (0, 5)) });
    // the first response for turn 2 is received, the one before it is gone
    assert_eq!(ai.receive_ai_play(Side::Attacker, &state_at(2)), Some(play((0, 3), (0, 2))));
    // what came after it is still there
    assert_eq!(ai.poll_response(Side::Attacker).unwrap().game_state.turn, 4);
    assert_eq!(ai.receive_ai_play(Side::Attacker, &state_at(2)), Some(play((0, 3), (0, 5))));
    assert_eq!(ai.receive_ai_play(Side::Attacker, &state_at(2)), None);
}

#[test]
fn receive_without_a_fresh_response_empties_the_mailbox() {
    let mut ai = AiController::new(None, Some(Duration::from_secs(2)));
    ai.deliver(Side::Defender, AiResponse { game_state: state_at(1), play: play((2, 3), (2, 1)) });
    ai.deliver(Side::Defender, AiResponse { game_state: state_at(3), play: play((2, 3), (2, 2)) });
    assert_eq!(ai.receive_ai_play(Side::Defender, &state_at(5)), None);
    assert_eq!(ai.poll_response(Side::Defender), None);
    assert_eq!(ai.receive_ai_play(Side::Defender, &state_at(1)), None);
}

#[test]
fn a_channel_on_its_own() {
    let mut c = AiChannel::new(Duration::from_millis(1500));
    assert!(c.take_request().is_none());
    c.request(&state_at(0));
    let req = c.take_request().unwrap();
    assert_eq!(req.time_to_play, Duration::from_millis(1500));
    assert_eq!(req.game_state, state_at(0));
    c.deliver(AiResponse { game_state: state_at(0), play: play((0, 3), (0, 2)) });
    assert_eq!(c.receive(&state_at(0)), Some(play((0, 3), (0, 2))));
    assert_eq!(c.poll_response(), None);
}

#[test]
fn an_answer_echoes_the_state_of_the_request() {
    let req = AiRequest { game_state: state_at(6), time_to_play: Duration::from_secs(1) };
    let resp = req.duplicate().answer(Ok(play((0, 3), (0, 2)))).unwrap();
    assert_eq!(resp, AiResponse { game_state: state_at(6), play: play((0, 3), (0, 2)) });
    assert!(resp.is_for(&state_at(6)));
    assert!(!resp.is_for(&state_at(7)));
    assert_eq!(req.duplicate().answer(Err(AiError::SearchFailed)), Err(AiError::SearchFailed));
    assert_eq!(req.answer(Err(AiError::NoAiConfigured)), Err(AiError::NoAiConfigured));
}

#[test]
fn the_errors_of_the_ai_have_their_messages() {
    assert_eq!(AiError::NoAiConfigured.message(), "No AI set");
    assert_eq!(AiError::SearchFailed.message(), "Bad AI play");
    assert_eq!(AiError::WorkerLost.message(), "AI error");
}

#[test]
fn a_search_ends_in_a_play_or_in_the_error_that_says_why_not() {
    let p = play((0, 3), (0, 2));
    assert_eq!(search_outcome(true, Some(p)), Ok(p));
    assert_eq!(search_outcome(true, None), Err(AiError::SearchFailed));
    assert_eq!(search_outcome(false, None), Err(AiError::NoAiConfigured));
    assert_eq!(search_outcome(false, Some(p)), Err(AiError::NoAiConfigured));
}
