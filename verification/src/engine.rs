//! The bridge to the rules engine.
//!
//! The rules of play are those of the `hnefatafl` crate. This module holds
//! every call into it. Each call is a small function whose contract Verus
//! believes without proof; the rest of the crate is proved against those
//! contracts. What the engine answers is a function of what it is asked, so
//! each answer has a name, and the contracts of the crate speak of the
//! answers through those names.
//!
//! The engine answers a play with a text of its own (its new state and the
//! record of the play, as `serde_json` writes them), which [`read_state`] and
//! [`read_captures`] take apart. The record of repeated plays goes to the
//! engine as a text that this crate writes from its fields. Enumerations come over as the numbers that
//! the engine gives their variants.

use vstd::prelude::*;
use hnefatafl::aliases::MediumBasicBoardState as EngineBoard;
use hnefatafl::aliases::MediumBasicGame as EngineGame;
use hnefatafl::aliases::MediumBasicGameState as EngineState;
use hnefatafl::aliases::MediumPlayRecord as EngineRecord;
use hnefatafl::board::state::BoardState;
use hnefatafl::game::GameOutcome as EngineOutcome;
use hnefatafl::game::GameStatus as EngineStatus;
use hnefatafl::pieces::Side as EngineSide;
use hnefatafl::play::Play as EnginePlay;
use hnefatafl::preset::boards;
use hnefatafl::preset::rules;
use hnefatafl::tiles::Tile as EngineTile;
use crate::board::spec_board_side_len;
use crate::pieces::{Piece, Side};
use crate::repetitions::{
    RawRepetitions, RawShortRecord, Repetitions, ShortPlayRecord, RECENT_PLAYS,
};
use crate::play::Play;
use crate::state::{GameState, GameStateView};
use crate::status::{GameStatus, StatusCode};
use crate::tiles::Tile;

verus! {

/// The variants that the engine ships rules and a starting board for.
#[derive(Clone, Copy, Debug, PartialEq, Eq, Hash, Structural)]
pub enum Preset {
    Copenhagen,
    Tablut,
    Brandubh,
    Magpie,
}

/// A piece as the engine numbers it: its kind and its side.
#[derive(Clone, Copy, Debug, PartialEq, Eq, Structural)]
pub struct PieceCode {
    pub piece_type: u8,
    pub side: u8,
}

/// A captured piece as the engine numbers it, with the square it stood on.
#[derive(Clone, Copy, Debug, PartialEq, Eq, Structural)]
pub struct CaptureCode {
    pub tile: Tile,
    pub piece: PieceCode,
}

/// What an answer of the engine holds of its state but for the record of
/// repeated plays, enumerations as numbers.
pub struct RawPosition {
    pub board: String,
    pub side_to_play: u8,
    pub plays_since_capture: usize,
    pub status: StatusCode,
}

/// A [`RawPosition`] as a value of mathematics.
pub struct RawPositionView {
    pub board: Seq<char>,
    pub side_to_play: u8,
    pub plays_since_capture: usize,
    pub status: StatusCode,
}

impl View for RawPosition {
    type V = RawPositionView;

    open spec fn view(&self) -> RawPositionView {
        RawPositionView {
            board: self.board@,
            side_to_play: self.side_to_play,
            plays_since_capture: self.plays_since_capture,
            status: self.status,
        }
    }
}

/// The counts, the flags and the index of the record of repeated plays in an
/// answer of the engine.
#[derive(Clone, Copy, Debug, PartialEq, Eq)]
pub struct RawCounts {
    pub attacker_reps: usize,
    pub defender_reps: usize,
    pub attacker_mid_pair: bool,
    pub defender_mid_pair: bool,
    pub first_i: usize,
}

/// The state that an answer of the engine holds, enumerations as numbers.
pub struct RawState {
    pub board: String,
    pub side_to_play: u8,
    pub repetitions: RawRepetitions,
    pub plays_since_capture: usize,
    pub status: StatusCode,
}

/// A [`RawState`] as a value of mathematics.
pub struct RawStateView {
    pub board: Seq<char>,
    pub side_to_play: u8,
    pub repetitions: RawRepetitions,
    pub plays_since_capture: usize,
    pub status: StatusCode,
}

impl View for RawState {
    type V = RawStateView;

    open spec fn view(&self) -> RawStateView {
        RawStateView {
            board: self.board@,
            side_to_play: self.side_to_play,
            repetitions: self.repetitions,
            plays_since_capture: self.plays_since_capture,
            status: self.status,
        }
    }
}

/// The rules that the engine ships for a variant, as `serde_json` writes
/// them.
pub uninterp spec fn preset_rules(preset: Preset) -> Seq<char>;

/// The starting board that the engine ships for a variant.
pub open spec fn preset_board(preset: Preset) -> Seq<char> {
    match preset {
        Preset::Copenhagen =>
            "3ttttt3/5t5/11/t4T4t/t3TTT3t/tt1TTKTT1tt/t3TTT3t/t4T4t/11/5t5/3ttttt3"@,
        Preset::Tablut => "3ttt3/4t4/4T4/t3T3t/ttTTKTTtt/t3T3t/4T4/4t4/3ttt3"@,
        Preset::Brandubh => "3t3/3t3/3T3/ttTKTtt/3T3/3t3/3t3"@,
        Preset::Magpie => "3t3/1t3t1/3T3/t1TKT1t/3T3/1t3t1/3t3"@,
    }
}

/// The engine's answer when a game is set up from rules and a starting board:
/// `None` where it cannot read one of them.
pub uninterp spec fn engine_initial(rules: Seq<char>, board: Seq<char>) -> Option<Seq<char>>;

/// The engine's answer to a play in a running game: `None` where it cannot
/// read the rules or the state, the number of its reason where it refuses the
/// play, and else the text that holds the new state and the play's record.
pub uninterp spec fn engine_verdict(rules: Seq<char>, state: GameStateView, play: Play) -> Option<
    Result<Seq<char>, u8>,
>;

/// What an answer of the engine holds of its state but for the record of
/// repeated plays.
pub uninterp spec fn answer_position(answer: Seq<char>) -> RawPositionView;

/// The counts, the flags and the index of the record of repeated plays in an
/// answer of the engine.
pub uninterp spec fn answer_counts(answer: Seq<char>) -> RawCounts;

/// The play at a place of the ring of the last plays in an answer of the
/// engine, `None` for an empty place.
pub uninterp spec fn answer_recent(answer: Seq<char>, place: usize) -> Option<RawShortRecord>;

/// The state that an answer of the engine holds.
pub open spec fn answer_state(answer: Seq<char>) -> RawStateView {
    RawStateView {
        board: answer_position(answer).board,
        side_to_play: answer_position(answer).side_to_play,
        repetitions: RawRepetitions {
            attacker_reps: answer_counts(answer).attacker_reps,
            defender_reps: answer_counts(answer).defender_reps,
            attacker_mid_pair: answer_counts(answer).attacker_mid_pair,
            defender_mid_pair: answer_counts(answer).defender_mid_pair,
            slot0: answer_recent(answer, 0),
            slot1: answer_recent(answer, 1),
            slot2: answer_recent(answer, 2),
            slot3: answer_recent(answer, 3),
            first_i: answer_counts(answer).first_i,
        },
        plays_since_capture: answer_position(answer).plays_since_capture,
        status: answer_position(answer).status,
    }
}

/// The captures that an answer of the engine declares, in the engine's order.
pub uninterp spec fn answer_captures(answer: Seq<char>) -> Seq<CaptureCode>;

/// The squares to which the engine lets the piece on `from` move.
pub uninterp spec fn engine_destinations(rules: Seq<char>, state: GameStateView, from: Tile) -> Set<
    Tile,
>;

/// The piece that a board text puts on a square, if any.
pub uninterp spec fn engine_piece(board: Seq<char>, tile: Tile) -> Option<PieceCode>;

/// Whether a text is an answer that the engine gave to a set-up or to a play.
pub open spec fn is_answer(text: Seq<char>) -> bool {
    ||| exists|rules: Seq<char>, board: Seq<char>| #[trigger]
        engine_initial(rules, board) == Some(text)
    ||| exists|rules: Seq<char>, state: GameStateView, play: Play| #[trigger]
        engine_verdict(rules, state, play) == Some(Ok::<Seq<char>, u8>(text))
}

/// Whether one of the captures stood on the square.
pub open spec fn captured_on(captures: Seq<CaptureCode>, tile: Tile) -> bool {
    exists|i: int| 0 <= i < captures.len() && (#[trigger] captures[i]).tile == tile
}

/// What holds of the board in the engine's answer to a play that it accepts:
/// the piece that stood on the origin stands on the destination, the origin is
/// empty, every capture names a piece of the other side that stood on its
/// square, which is empty now, and every other square of the board is as it
/// was.
pub open spec fn board_follows(
    before: GameStateView,
    play: Play,
    after: Seq<char>,
    captures: Seq<CaptureCode>,
) -> bool {
    &&& engine_piece(after, play.from) is None
    &&& engine_piece(after, play.to) == engine_piece(before.board, play.from)
    &&& forall|i: int|
        0 <= i < captures.len() ==> {
            let c = #[trigger] captures[i];
            &&& spec_board_side_len(before.board) matches Some(n) && c.tile.within(n)
            &&& engine_piece(after, c.tile) is None
            &&& engine_piece(before.board, c.tile) == Some(c.piece)
            &&& c.piece.side == before.side_to_play.spec_other().spec_code()
        }
    &&& forall|tile: Tile|
        (spec_board_side_len(before.board) matches Some(n) && tile.within(n)) && tile
            != play.from && tile != play.to && !captured_on(captures, tile) ==> #[trigger]
            engine_piece(after, tile) == engine_piece(before.board, tile)
}

/// What holds of the engine's answer to a play that it accepts: the other
/// side is to play, the count of plays without a capture has grown by one at
/// most, the board keeps its side length and follows from the play, and the
/// record of repeated plays keeps its ring and has counted one repetition
/// more at most for each side.
pub open spec fn play_follows(before: GameStateView, play: Play, answer: Seq<char>) -> bool {
    let after = answer_state(answer);
    &&& after.side_to_play == before.side_to_play.spec_other().spec_code()
    &&& after.plays_since_capture <= before.plays_since_capture + 1
    &&& spec_board_side_len(after.board) == spec_board_side_len(before.board)
    &&& board_follows(before, play, after.board, answer_captures(answer))
    &&& after.repetitions.first_i < RECENT_PLAYS
    &&& after.repetitions.attacker_reps <= before.repetitions.attacker_reps + 1
    &&& after.repetitions.defender_reps <= before.repetitions.defender_reps + 1
}

/// Whether the engine accepts the play in the state.
pub open spec fn accepted(rules: Seq<char>, state: GameStateView, play: Play) -> bool {
    engine_verdict(rules, state, play) matches Some(Ok(_))
}

/// Whether the piece on `from`, if there is one, belongs to the side to play.
pub open spec fn own_piece_on(state: GameStateView, from: Tile) -> bool {
    engine_piece(state.board, from) matches Some(p) && p.side == state.side_to_play.spec_code()
}

/// Hands out hnefatafl's constants `preset::rules::*` and `preset::boards::*`
/// for a variant, the rules written by `serde_json::to_string`. Claims that
/// the rules are the text that [`preset_rules`] names, and that the board is
/// the text of the constant, which [`preset_board`] spells out.
#[verifier::external_body]
pub(crate) fn preset(kind: Preset) -> (r: (String, String))
    ensures
        r.0@ == preset_rules(kind),
        r.1@ == preset_board(kind),
{
    let (r, b) = match kind {
        Preset::Copenhagen => (rules::COPENHAGEN, boards::COPENHAGEN),
        Preset::Tablut => (rules::TABLUT, boards::TABLUT),
        Preset::Brandubh => (rules::BRANDUBH, boards::BRANDUBH),
        Preset::Magpie => (rules::MAGPIE, boards::MAGPIE),
    };
    (serde_json::to_string(&r).unwrap(), b.to_string())
}

/// Calls hnefatafl's `Game::new` on rules read by `serde_json::from_str` and
/// a starting board, and writes the new game's state with
/// `serde_json::to_string`. Claims only that the result is the answer that
/// [`engine_initial`] names, `None` where the rules or the board cannot be
/// read. A board of side length 0 makes `GameLogic::new` underflow, and a
/// board wider than the bit field makes the reader of the text overflow: both
/// are left out.
#[verifier::external_body]
pub(crate) fn ask_initial(rules: &str, board: &str) -> (r: Option<String>)
    requires
        spec_board_side_len(board@) is Some,
    ensures
        r is None <==> engine_initial(rules@, board@) is None,
        r matches Some(t) ==> engine_initial(rules@, board@) == Some(t@),
{
    let g = EngineGame::new(serde_json::from_str(rules).ok()?, board).ok()?;
    serde_json::to_string(&(g.state, None::<EngineRecord>)).ok()
}

/// Calls hnefatafl's `Game::do_play`, on a game made by `Game::new` from the
/// rules and the state's board and then given the state's side to play, its
/// count of plays without a capture, and the record of repeated plays that
/// `serde_json::from_str` reads from `tracker`. That text is written by this
/// crate from the fields of the state's record, under the names and in the
/// order of the fields of hnefatafl's `RepetitionTracker`, `PlayRecQueue` and
/// `ShortPlayRecord`, which is how serde's derive reads a struct. The
/// engine's own count of turns is not used: the turn of a state is kept by
/// this crate.
/// Claims that the result is the verdict that [`engine_verdict`] names:
/// `None` where `serde_json` or `Game::new` cannot read a text, the place of
/// the `PlayInvalid` in its enumeration where the play is refused, and else
/// the new state and the last record of the game, written by
/// `serde_json::to_string`. Claims of an acceptance what [`play_follows`]
/// says, as `GameLogic::do_valid_play` shows it: it moves the piece, takes
/// the captured pieces off the board, which `GameLogic::get_captures` and
/// `detect_shieldwall` find among the pieces of the other side, adds one to
/// `plays_since_capture` where nothing was captured, lets
/// `RepetitionTracker::track_play` add one to a count at most and move the
/// index round the four places, and hands the turn to the other side.
/// Left out are plays that `Play::from_tiles` refuses or that leave the bit
/// field, counts that would overflow, and a record whose index is outside the
/// ring, which `PlayRecQueue::push` would index with.
#[verifier::external_body]
pub(crate) fn ask_apply(rules: &str, s: &GameState, tracker: &str, from: Tile, to: Tile) -> (r:
    Option<Result<String, u8>>)
    requires
        s.status is Ongoing,
        spec_board_side_len(s.board@) matches Some(n) && from.within(n) && to.within(n),
        from.in_line_with(to),
        s.plays_since_capture < usize::MAX,
        s.repetitions.wf(),
        tracker@ == s.repetitions.spec_text(),
    ensures
        r is None <==> engine_verdict(rules@, s@, Play { from, to }) is None,
        r matches Some(Err(c)) ==> engine_verdict(rules@, s@, Play { from, to }) == Some(
            Err::<Seq<char>, u8>(c),
        ),
        r matches Some(Ok(t)) ==> engine_verdict(rules@, s@, Play { from, to }) == Some(
            Ok::<Seq<char>, u8>(t@),
        ) && play_follows(s@, Play { from, to }, t@),
{
    let mut g = EngineGame::new(serde_json::from_str(rules).ok()?, &s.board).ok()?;
    g.state.side_to_play = match s.side_to_play {
        Side::Attacker => EngineSide::Attacker,
        Side::Defender => EngineSide::Defender,
    };
    g.state.repetitions = serde_json::from_str(tracker).ok()?;
    g.state.plays_since_capture = s.plays_since_capture;
    let to = EngineTile::new(to.row, to.col);
    match g.do_play(EnginePlay::from_tiles(EngineTile::new(from.row, from.col), to).ok()?) {
        Ok(_) => serde_json::to_string(&(g.state, g.play_history.last())).ok().map(Ok),
        Err(e) => Some(Err(e as u8)),
    }
}

/// Reads the state, but for the record of repeated plays, out of an answer
/// of the engine with `serde_json::from_str`, the board written by
/// `BoardState::to_fen`. Claims that the result is what [`answer_position`]
/// names, and that its numbers stand for a side and a status: they are the
/// discriminants of hnefatafl's `Side`, `WinReason` and `DrawReason`.
#[verifier::external_body]
pub(crate) fn read_position(answer: &str) -> (r: RawPosition)
    requires
        is_answer(answer@),
    ensures
        r@ == answer_position(answer@),
        Side::spec_from_code(r.side_to_play) is Some,
        GameStatus::spec_from_code(r.status) is Some,
{
    let (st, _): (EngineState, Option<EngineRecord>) =
        serde_json::from_str(answer).unwrap();
    RawPosition {
        board: st.board.to_fen(),
        side_to_play: st.side_to_play as u8,
        plays_since_capture: st.plays_since_capture,
        status: match st.status {
            EngineStatus::Ongoing => StatusCode { kind: 0, reason: 0, side: 0 },
            EngineStatus::Over(EngineOutcome::Win(w, s)) => StatusCode { kind: 1, reason: w as u8, side: s as u8 },
            EngineStatus::Over(EngineOutcome::Draw(d)) => StatusCode { kind: 2, reason: d as u8, side: 0 },
        },
    }
}

/// Reads the counts, the flags and the index of the record of repeated plays
/// out of an answer of the engine, with `serde_json::from_str` and by the
/// names of the fields of hnefatafl's `RepetitionTracker` and `PlayRecQueue`,
/// under which serde's derive wrote them. Claims only that the result is what
/// [`answer_counts`] names.
#[verifier::external_body]
pub(crate) fn read_counts(answer: &str) -> (r: RawCounts)
    requires
        is_answer(answer@),
    ensures
        r == answer_counts(answer@),
{
    let v: serde_json::Value = serde_json::from_str(answer).unwrap();
    let r = &v[0]["repetitions"];
    RawCounts {
        attacker_reps: r["attacker_reps"].as_u64().unwrap() as usize,
        defender_reps: r["defender_reps"].as_u64().unwrap() as usize,
        attacker_mid_pair: r["attacker_mid_pair"].as_bool().unwrap(),
        defender_mid_pair: r["defender_mid_pair"].as_bool().unwrap(),
        first_i: r["recent_plays"]["first_i"].as_u64().unwrap() as usize,
    }
}

/// Reads the play at a place of the ring of the last plays out of an answer
/// of the engine, with `serde_json::from_str` and `serde_json::from_value`,
/// by the names of the fields of hnefatafl's `PlayRecQueue` and
/// `ShortPlayRecord`. Claims that the result is what [`answer_recent`] names,
/// `None` for an empty place, and that its numbers stand for a side and an
/// axis: they are the discriminants of hnefatafl's `Side` and `Axis`.
#[verifier::external_body]
pub(crate) fn read_recent(answer: &str, place: usize) -> (r: Option<RawShortRecord>)
    requires
        is_answer(answer@),
        place < RECENT_PLAYS,
    ensures
        r == answer_recent(answer@, place),
        r matches Some(p) ==> ShortPlayRecord::spec_from_raw(p) is Some,
{
    let v: serde_json::Value = serde_json::from_str(answer).ok()?;
    let p = &v[0]["repetitions"]["recent_plays"]["queue"][place];
    let play: EnginePlay = serde_json::from_value(p["play"].clone()).ok()?;
    let side: EngineSide = serde_json::from_value(p["side"].clone()).ok()?;
    Some(RawShortRecord {
        side: side as u8,
        row: play.from.row,
        col: play.from.col,
        axis: play.movement.axis as u8,
        displacement: play.movement.displacement,
        captures: p["captures"].as_bool()?,
    })
}

/// Reads the whole state out of an answer of the engine.
pub(crate) fn read_state(answer: &str) -> (r: RawState)
    requires
        is_answer(answer@),
    ensures
        r@ == answer_state(answer@),
        Side::spec_from_code(r.side_to_play) is Some,
        GameStatus::spec_from_code(r.status) is Some,
        Repetitions::spec_from_raw(r.repetitions) is Some,
{
    let position = read_position(answer);
    let counts = read_counts(answer);
    let repetitions = RawRepetitions {
        attacker_reps: counts.attacker_reps,
        defender_reps: counts.defender_reps,
        attacker_mid_pair: counts.attacker_mid_pair,
        defender_mid_pair: counts.defender_mid_pair,
        slot0: read_recent(answer, 0),
        slot1: read_recent(answer, 1),
        slot2: read_recent(answer, 2),
        slot3: read_recent(answer, 3),
        first_i: counts.first_i,
    };
    RawState {
        board: position.board,
        side_to_play: position.side_to_play,
        repetitions,
        plays_since_capture: position.plays_since_capture,
        status: position.status,
    }
}

/// Reads the captures out of an answer of the engine with
/// `serde_json::from_str`, in the order in which hnefatafl's piece map hands
/// them out. Claims that the result is what [`answer_captures`] names, and
/// that the numbers of each piece stand for a piece: they are the
/// discriminants of hnefatafl's `PieceType` and `Side`.
#[verifier::external_body]
pub(crate) fn read_captures(answer: &str) -> (r: Vec<CaptureCode>)
    requires
        is_answer(answer@),
    ensures
        r@ == answer_captures(answer@),
        forall|i: int|
            0 <= i < r.len() ==> Piece::spec_from_codes(
                (#[trigger] r[i]).piece.piece_type,
                r[i].piece.side,
            ) is Some,
{
    let (_, rec): (EngineState, Option<EngineRecord>) =
        serde_json::from_str(answer).unwrap();
    rec.map_or(Vec::new(), |r| r.effects.captures.into_iter().map(|p| CaptureCode {
        tile: Tile { row: p.tile.row, col: p.tile.col },
        piece: PieceCode { piece_type: p.piece.piece_type as u8, side: p.piece.side as u8 },
    }).collect())
}

/// Calls hnefatafl's `Game::iter_plays` for the piece on `from`, on a game
/// made by `Game::new` from the rules and the state's board and given the
/// state's side to play, and collects the squares on which the plays end. The
/// record of repeated plays is left as `Game::new` makes it: the iterator
/// and `GameLogic::validate_play_for_side` do not read it.
/// Claims that the squares are those that [`engine_destinations`] names, none
/// where the engine cannot read a text or finds no piece on `from`, and that
/// no square comes twice: the iterator walks each of the four directions once,
/// a square further at every step. Claims of each square that it is on the
/// board and in line with `from`, as the iterator builds it, and that the
/// engine accepts the play to it where the piece belongs to the side to play
/// and [`ask_apply`] can be asked, with a sound record of repeated plays and a
/// count that has room: the iterator hands out a square only where
/// `GameLogic::validate_play_for_side` accepts the play for the piece's side,
/// and `Game::do_play` asks the same function for the side to play.
#[verifier::external_body]
pub(crate) fn ask_destinations(rules: &str, s: &GameState, from: Tile) -> (r: Option<Vec<Tile>>)
    requires
        s.status is Ongoing,
        spec_board_side_len(s.board@) matches Some(n) && from.within(n),
    ensures
        r is None ==> engine_destinations(rules@, s@, from) == Set::<Tile>::empty(),
        r matches Some(v) ==> v@.to_set() == engine_destinations(rules@, s@, from),
        r matches Some(v) ==> v@.no_duplicates(),
        r matches Some(v) ==> forall|i: int|
            0 <= i < v.len() ==> {
                &&& spec_board_side_len(s.board@) matches Some(n) && (#[trigger] v[i]).within(n)
                &&& from.in_line_with(v[i])
                &&& own_piece_on(s@, from) && s.plays_since_capture < usize::MAX
                    && s.repetitions.wf() ==> accepted(rules@, s@, Play { from, to: v[i] })
            },
{
    let mut g = EngineGame::new(serde_json::from_str(rules).ok()?, &s.board).ok()?;
    g.state.side_to_play = match s.side_to_play {
        Side::Attacker => EngineSide::Attacker,
        Side::Defender => EngineSide::Defender,
    };
    let plays = g.iter_plays(EngineTile::new(from.row, from.col)).ok()?;
    Some(plays.map(|p| Tile { row: p.play.to().row, col: p.play.to().col }).collect())
}

/// Reads a board text with hnefatafl's `BoardState::from_fen` and asks
/// `BoardState::get_piece` for a square. Claims only that the result is the
/// piece that [`engine_piece`] names, `None` for an empty square: its numbers
/// are the discriminants of hnefatafl's `PieceType` and `Side`. Left out are
/// texts on which the reader overflows and squares outside the bit field.
#[verifier::external_body]
pub(crate) fn ask_piece(board: &str, tile: Tile) -> (r: Option<PieceCode>)
    requires
        spec_board_side_len(board@) matches Some(n) && tile.within(n),
    ensures
        r == engine_piece(board@, tile),
{
    let b = EngineBoard::from_fen(board).ok()?;
    b.get_piece(EngineTile::new(tile.row, tile.col)).map(|p| PieceCode {
        piece_type: p.piece_type as u8,
        side: p.side as u8,
    })
}

} // verus!
