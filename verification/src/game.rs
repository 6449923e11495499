//! A game: its rules, its starting state and the turns played so far.

use vstd::prelude::*;
use crate::board::{board_side_len, spec_board_side_len};
use crate::engine::{
    accepted, answer_captures, answer_state, ask_apply, ask_destinations, ask_initial,
    ask_piece, board_follows, captured_on, engine_destinations, engine_initial, engine_piece,
    engine_verdict, is_answer, own_piece_on, read_captures, read_state, CaptureCode, RawState,
    RawStateView,
};
use crate::error::PlayError;
use crate::pieces::{Piece, Side};
use crate::repetitions::Repetitions;
use crate::play::{PlacedPiece, Play, PlayEffects, PlayInvalid, PlayRecord, PlayRecordView};
use crate::state::{GameState, GameStateView};
use crate::status::GameStatus;
use crate::tiles::{Tile, MAX_SIDE_LEN};

verus! {

/// One turn of a game: the play that was made, and the state it led to.
#[derive(Clone, Debug, PartialEq, Eq)]
pub struct Turn {
    pub record: PlayRecord,
    pub state: GameState,
}

/// A turn as a value of mathematics.
pub struct TurnView {
    pub record: PlayRecordView,
    pub state: GameStateView,
}

impl View for Turn {
    type V = TurnView;

    open spec fn view(&self) -> TurnView {
        TurnView { record: self.record@, state: self.state@ }
    }
}

impl Turn {
    /// A copy of the turn.
    pub fn duplicate(&self) -> (r: Turn)
        ensures
            r@ == self@,
    {
        Turn { record: self.record.duplicate(), state: self.state.duplicate() }
    }
}

/// The turns of a sequence as values of mathematics.
pub open spec fn turn_views(turns: Seq<Turn>) -> Seq<TurnView> {
    turns.map_values(|t: Turn| t@)
}

/// A game as a value of mathematics.
pub struct GameView {
    /// The rules, as the engine reads them.
    pub rules: Seq<char>,
    /// The side length of the board.
    pub side_len: u8,
    /// The state before the first play.
    pub initial: GameStateView,
    /// The turns played, the first one first.
    pub turns: Seq<TurnView>,
}

impl GameView {
    /// The number of plays made.
    pub open spec fn turn(self) -> nat {
        self.turns.len()
    }

    /// The state after `turn` plays.
    pub open spec fn state_at(self, turn: int) -> GameStateView {
        if turn <= 0 {
            self.initial
        } else {
            self.turns[turn - 1].state
        }
    }

    /// The state that the game is in.
    pub open spec fn state(self) -> GameStateView {
        self.state_at(self.turns.len() as int)
    }

    /// Whether a state can stand after `turn` plays of a game on this board:
    /// it carries that turn, has counted no more plays without a capture and
    /// no more repeated plays than were made, the ring of its record of
    /// repeated plays is sound, and its board has the game's side length.
    pub open spec fn fits(self, state: GameStateView, turn: int) -> bool {
        &&& state.turn == turn
        &&& state.plays_since_capture <= turn
        &&& state.repetitions.fits(turn)
        &&& spec_board_side_len(state.board) == Some(self.side_len)
    }

    /// Whether the turn at a place follows on the state before it: the side
    /// that was to play made the play, from a running game, and the outcome
    /// that the record declares is the one that the state is in.
    pub open spec fn follows(self, i: int) -> bool {
        let turn = self.turns[i];
        let before = self.state_at(i);
        &&& before.status is Ongoing
        &&& turn.record.side == before.side_to_play
        &&& turn.record.game_outcome == turn.state.status.spec_outcome()
    }

    /// Whether the game is well formed: the board is between 1 and
    /// [`MAX_SIDE_LEN`] squares wide, every state fits its turn, and every
    /// turn follows on the state before it.
    pub open spec fn wf(self) -> bool {
        &&& 1 <= self.side_len <= MAX_SIDE_LEN
        &&& self.turns.len() < usize::MAX
        &&& self.fits(self.initial, 0)
        &&& forall|i: int|
            0 <= i < self.turns.len() ==> self.fits((#[trigger] self.turns[i]).state, i + 1)
        &&& forall|i: int| 0 <= i < self.turns.len() ==> #[trigger] self.follows(i)
    }

    /// Whether the count of turns can grow by one.
    pub open spec fn has_room(self) -> bool {
        self.turns.len() + 1 < usize::MAX
    }

    /// The game with one more turn.
    pub open spec fn with_turn(self, turn: TurnView) -> GameView {
        GameView { turns: self.turns.push(turn), ..self }
    }

    /// The game with the given turns in place of its own.
    pub open spec fn with_turns(self, turns: Seq<TurnView>) -> GameView {
        GameView { turns, ..self }
    }

    /// The game without its last turn; the game itself where no play was made.
    pub open spec fn undone(self) -> GameView {
        if self.turns.len() == 0 {
            self
        } else {
            GameView { turns: self.turns.drop_last(), ..self }
        }
    }
}

/// The state that an answer of the engine stands for at a turn, if its numbers
/// stand for a side, a status and a record of repeated plays.
pub open spec fn state_of_raw(raw: RawStateView, turn: nat) -> Option<GameStateView> {
    match (
        Side::spec_from_code(raw.side_to_play),
        GameStatus::spec_from_code(raw.status),
        Repetitions::spec_from_raw(raw.repetitions),
    ) {
        (Some(side), Some(status), Some(repetitions)) => Some(
            GameStateView {
                board: raw.board,
                side_to_play: side,
                repetitions,
                plays_since_capture: raw.plays_since_capture as nat,
                status,
                turn,
            },
        ),
        _ => None,
    }
}

/// The captured pieces that a sequence of the engine's numbers stands for, if
/// each of them stands for a piece.
pub open spec fn captures_of_codes(codes: Seq<CaptureCode>) -> Option<Seq<PlacedPiece>>
    decreases codes.len(),
{
    if codes.len() == 0 {
        Some(Seq::empty())
    } else {
        match (
            captures_of_codes(codes.drop_last()),
            Piece::spec_from_codes(codes.last().piece.piece_type, codes.last().piece.side),
        ) {
            (Some(before), Some(piece)) => Some(
                before.push(PlacedPiece { tile: codes.last().tile, piece }),
            ),
            _ => None,
        }
    }
}

/// The turn that the engine's answer to a play adds to a game: `None` where
/// the game is over or has no room for another turn, the answer's numbers
/// stand for nothing, or its state does not fit the game at the next turn.
pub open spec fn next_turn(
    game: GameView,
    play: Play,
    raw: RawStateView,
    codes: Seq<CaptureCode>,
) -> Option<TurnView> {
    match (state_of_raw(raw, game.turn() + 1), captures_of_codes(codes)) {
        (Some(state), Some(captures)) => if game.has_room() && game.state().status.spec_is_ongoing()
            && game.fits(state, game.turn() as int + 1) {
            Some(
                TurnView {
                    record: PlayRecordView {
                        side: game.state().side_to_play,
                        play,
                        captures,
                        game_outcome: state.status.spec_outcome(),
                    },
                    state,
                },
            )
        } else {
            None
        },
        _ => None,
    }
}

/// What a play does to a game: the reason for which it is not made, or the
/// game with the new turn. A game that is over takes no play; a play that
/// leaves the board or runs along no line is refused before the engine is
/// asked; else the engine decides.
pub open spec fn play_result(game: GameView, play: Play) -> Result<GameView, PlayError> {
    if !game.state().status.spec_is_ongoing() {
        Err(PlayError::Invalid(PlayInvalid::GameOver))
    } else if !play.from.within(game.side_len) || !play.to.within(game.side_len) {
        Err(PlayError::Invalid(PlayInvalid::OutOfBounds))
    } else if !play.from.in_line_with(play.to) {
        Err(PlayError::Invalid(PlayInvalid::NoCommonAxis))
    } else {
        match engine_verdict(game.rules, game.state(), play) {
            None => Err(PlayError::NoGame),
            Some(Err(code)) => match PlayInvalid::spec_from_code(code) {
                Some(reason) => Err(PlayError::Invalid(reason)),
                None => Err(PlayError::NoGame),
            },
            Some(Ok(answer)) => match next_turn(
                game,
                play,
                answer_state(answer),
                answer_captures(answer),
            ) {
                Some(turn) => Ok(game.with_turn(turn)),
                None => Err(PlayError::NoGame),
            },
        }
    }
}

/// Whether one of the captured pieces stood on the square.
pub open spec fn captured_at(captures: Seq<PlacedPiece>, tile: Tile) -> bool {
    exists|i: int| 0 <= i < captures.len() && (#[trigger] captures[i]).tile == tile
}

/// Whether a turn follows on the state before it as a play does: the other
/// side is to play; the piece that stood on the origin stands on the
/// destination and the origin is empty; every capture of the record names a
/// piece of the other side that stood on its square, which is empty now; and
/// every other square of the board is as it was.
pub open spec fn turn_follows_play(before: GameStateView, side_len: u8, turn: TurnView) -> bool {
    let play = turn.record.play;
    let captures = turn.record.captures;
    let after = turn.state.board;
    &&& turn.state.side_to_play == before.side_to_play.spec_other()
    &&& piece_on(after, side_len, play.from) is None
    &&& piece_on(after, side_len, play.to) == piece_on(before.board, side_len, play.from)
    &&& forall|i: int|
        0 <= i < captures.len() ==> {
            let c = #[trigger] captures[i];
            &&& c.tile.within(side_len)
            &&& piece_on(after, side_len, c.tile) is None
            &&& piece_on(before.board, side_len, c.tile) == Some(c.piece)
            &&& c.piece.side == before.side_to_play.spec_other()
        }
    &&& forall|tile: Tile|
        tile.within(side_len) && tile != play.from && tile != play.to && !captured_at(
            captures,
            tile,
        ) ==> #[trigger] piece_on(after, side_len, tile) == piece_on(
            before.board,
            side_len,
            tile,
        )
}

/// Whether the engine is asked about the play and accepts it, and the game has
/// room for the turn.
pub open spec fn playable(game: GameView, play: Play) -> bool {
    &&& game.has_room()
    &&& game.state().status.spec_is_ongoing()
    &&& play.from.within(game.side_len)
    &&& play.to.within(game.side_len)
    &&& play.from.in_line_with(play.to)
    &&& accepted(game.rules, game.state(), play)
}

/// The squares to which the piece on `from` may move: none where the game is
/// over, `from` is off the board, or no piece of the side to play stands on
/// it; else those that the engine names.
pub open spec fn legal_destinations(game: GameView, from: Tile) -> Set<Tile> {
    if game.state().status.spec_is_ongoing() && from.within(game.side_len) && own_piece_on(
        game.state(),
        from,
    ) {
        engine_destinations(game.rules, game.state(), from)
    } else {
        Set::empty()
    }
}

/// The game that the engine sets up from rules and a starting board: `None`
/// where the board text is no board, the engine cannot read the rules, or its
/// answer is no first state of a game on that board.
pub open spec fn new_game(rules: Seq<char>, board: Seq<char>) -> Option<GameView> {
    match (spec_board_side_len(board), engine_initial(rules, board)) {
        (Some(side_len), Some(answer)) => match state_of_raw(answer_state(answer), 0) {
            Some(initial) => {
                let game = GameView { rules, side_len, initial, turns: Seq::empty() };
                if game.fits(initial, 0) {
                    Some(game)
                } else {
                    None
                }
            },
            None => None,
        },
        _ => None,
    }
}

/// A game of tafl: the rules, the starting state, and every turn played.
#[derive(Debug)]
pub struct Game {
    rules: String,
    side_len: u8,
    initial: GameState,
    turns: Vec<Turn>,
}

impl View for Game {
    type V = GameView;

    closed spec fn view(&self) -> GameView {
        GameView {
            rules: self.rules@,
            side_len: self.side_len,
            initial: self.initial@,
            turns: turn_views(self.turns@),
        }
    }
}

impl Game {
    /// Whether the game is well formed. Every game that this crate hands out
    /// is, and stays so.
    pub open spec fn wf(&self) -> bool {
        self@.wf()
    }

    /// Sets up a game from rules, as the engine reads them, and a starting
    /// board.
    pub fn new(rules: &str, starting_board: &str) -> (r: Option<Game>)
        ensures
            r is None <==> new_game(rules@, starting_board@) is None,
            r matches Some(g) ==> new_game(rules@, starting_board@) == Some(g@) && g.wf(),
    {
        let side_len = match board_side_len(starting_board) {
            Some(n) => n,
            None => return None,
        };
        let answer = match ask_initial(rules, starting_board) {
            Some(a) => a,
            None => return None,
        };
        assert(is_answer(answer@)) by {
            assert(engine_initial(rules@, starting_board@) == Some(answer@));
        }
        let raw = read_state(answer.as_str());
        let initial = match state_from_raw(raw, 0) {
            Some(s) => s,
            None => return None,
        };
        if initial.plays_since_capture != 0 || !initial.repetitions.fits_turn(0) {
            return None;
        }
        match board_side_len(initial.board.as_str()) {
            Some(n) => if n != side_len {
                return None;
            },
            None => return None,
        }
        let game = Game {
            rules: String::from_str(rules),
            side_len,
            initial,
            turns: Vec::new(),
        };
        assert(game@.turns =~= Seq::empty());
        Some(game)
    }

    /// Takes up a game that was played before: sets it up as [`Game::new`]
    /// does and gives it the turns, which have to make a well-formed game.
    pub fn resume(rules: &str, starting_board: &str, turns: Vec<Turn>) -> (r: Option<Game>)
        ensures
            r is Some <==> (new_game(rules@, starting_board@) matches Some(fresh)
                && fresh.with_turns(turn_views(turns@)).wf()),
            r matches Some(g) ==> (new_game(rules@, starting_board@) matches Some(fresh) && g@
                == fresh.with_turns(turn_views(turns@)) && g.wf()),
    {
        let fresh = match Game::new(rules, starting_board) {
            Some(g) => g,
            None => return None,
        };
        let ghost whole = fresh@.with_turns(turn_views(turns@));
        if turns.len() >= usize::MAX {
            return None;
        }
        let mut i: usize = 0;
        while i < turns.len()
            invariant
                i <= turns.len() < usize::MAX,
                fresh@.wf(),
                fresh@.turns.len() == 0,
                new_game(rules@, starting_board@) == Some(fresh@),
                whole == fresh@.with_turns(turn_views(turns@)),
                forall|k: int| 0 <= k < i ==> whole.fits((#[trigger] whole.turns[k]).state, k + 1),
                forall|k: int| 0 <= k < i ==> #[trigger] whole.follows(k),
            decreases turns.len() - i,
        {
            let turn = &turns[i];
            let ghost view = whole.turns[i as int];
            assert(view == turn@);
            let before = if i == 0 {
                &fresh.initial
            } else {
                &turns[i - 1].state
            };
            assert(before@ == whole.state_at(i as int));
            let fits = turn.state.turn == i + 1 && turn.state.plays_since_capture <= i + 1
                && turn.state.repetitions.fits_turn(i + 1) && match board_side_len(turn.state.board.as_str()) {
                Some(n) => n == fresh.side_len,
                None => false,
            };
            let follows = before.status.is_ongoing() && turn.record.side == before.side_to_play
                && turn.record.effects.game_outcome == turn.state.status.outcome();
            if !fits || !follows {
                assert(!whole.fits(whole.turns[i as int].state, i + 1) || !whole.follows(i as int));
                return None;
            }
            i += 1;
        }
        let game = Game {
            rules: fresh.rules,
            side_len: fresh.side_len,
            initial: fresh.initial,
            turns,
        };
        assert(game@ == whole);
        Some(game)
    }

    /// A copy of the game.
    pub fn duplicate(&self) -> (r: Game)
        ensures
            r@ == self@,
            self.wf() ==> r.wf(),
    {
        let mut turns: Vec<Turn> = Vec::new();
        let mut k: usize = 0;
        while k < self.turns.len()
            invariant
                k <= self.turns.len(),
                turn_views(turns@) == turn_views(self.turns@).subrange(0, k as int),
            decreases self.turns.len() - k,
        {
            let ghost so_far = turn_views(turns@);
            turns.push(self.turns[k].duplicate());
            assert(turn_views(turns@) =~= so_far.push(self.turns@[k as int]@));
            assert(turn_views(turns@) =~= turn_views(self.turns@).subrange(0, k + 1));
            k += 1;
        }
        assert(turn_views(turns@) == turn_views(self.turns@));
        Game {
            rules: self.rules.clone(),
            side_len: self.side_len,
            initial: self.initial.duplicate(),
            turns,
        }
    }

    /// The rules of the game, as the engine reads them.
    pub fn rules(&self) -> (r: &str)
        ensures
            r@ == self@.rules,
    {
        self.rules.as_str()
    }

    /// The side length of the board.
    pub fn side_len(&self) -> (r: u8)
        requires
            self.wf(),
        ensures
            r == self@.side_len,
            1 <= r <= MAX_SIDE_LEN,
    {
        self.side_len
    }

    /// The number of plays made.
    pub fn turn(&self) -> (r: usize)
        requires
            self.wf(),
        ensures
            r == self@.turn(),
            r == self@.state().turn,
    {
        self.turns.len()
    }

    /// The state that the game is in.
    pub fn state(&self) -> (s: &GameState)
        requires
            self.wf(),
        ensures
            s@ == self@.state(),
    {
        if self.turns.len() == 0 {
            &self.initial
        } else {
            &self.turns[self.turns.len() - 1].state
        }
    }

    /// The state before the first play.
    pub fn initial_state(&self) -> (s: &GameState)
        ensures
            s@ == self@.initial,
    {
        &self.initial
    }

    /// The turns played, the first one first.
    pub fn turns(&self) -> (r: &Vec<Turn>)
        ensures
            turn_views(r@) == self@.turns,
    {
        &self.turns
    }

    /// Asks the engine to make a play, and takes up its answer.
    pub fn do_play(&mut self, play: Play) -> (r: Result<GameStatus, PlayError>)
        requires
            old(self).wf(),
        ensures
            final(self).wf(),
            match play_result(old(self)@, play) {
                Ok(game) => r == Ok::<GameStatus, PlayError>(game.state().status) && final(self)@
                    == game,
                Err(e) => r == Err::<GameStatus, PlayError>(e) && final(self)@ == old(self)@,
            },
            playable(old(self)@, play) ==> r is Ok,
            r is Ok ==> final(self)@.turn() == old(self)@.turn() + 1 && turn_follows_play(
                old(self)@.state(),
                old(self)@.side_len,
                final(self)@.turns.last(),
            ),
    {
        let answer = {
            let state = self.state();
            if !state.status.is_ongoing() {
                return Err(PlayError::Invalid(PlayInvalid::GameOver));
            }
            if !play.from.within(self.side_len) || !play.to.within(self.side_len) {
                return Err(PlayError::Invalid(PlayInvalid::OutOfBounds));
            }
            if !play.from.in_line_with(play.to) {
                return Err(PlayError::Invalid(PlayInvalid::NoCommonAxis));
            }
            let tracker = state.repetitions.text();
            match ask_apply(self.rules.as_str(), state, tracker.as_str(), play.from, play.to) {
                None => return Err(PlayError::NoGame),
                Some(Err(code)) => match PlayInvalid::from_code(code) {
                    Some(reason) => return Err(PlayError::Invalid(reason)),
                    None => return Err(PlayError::NoGame),
                },
                Some(Ok(answer)) => answer,
            }
        };
        assert(is_answer(answer@)) by {
            assert(engine_verdict(self@.rules, self@.state(), play) == Some(
                Ok::<Seq<char>, u8>(answer@),
            ));
        }
        let raw = read_state(answer.as_str());
        let codes = read_captures(answer.as_str());
        let ghost before = self@;
        let ghost raw_view = raw@;
        let ghost code_view = codes@;
        proof {
            captures_of_valid_codes(codes@);
            captures_keep_tiles(codes@);
        }
        let r = self.record_play(play, raw, codes);
        proof {
            if r is Ok {
                play_follows_on_board(before, play, raw_view, code_view);
            }
        }
        r
    }

    /// Takes up the engine's answer to a play: adds the turn that the answer
    /// stands for, if it stands for one.
    pub fn record_play(&mut self, play: Play, raw: RawState, codes: Vec<CaptureCode>) -> (r: Result<
        GameStatus,
        PlayError,
    >)
        requires
            old(self).wf(),
        ensures
            final(self).wf(),
            match next_turn(old(self)@, play, raw@, codes@) {
                Some(turn) => r == Ok::<GameStatus, PlayError>(turn.state.status) && final(self)@
                    == old(self)@.with_turn(turn),
                None => r == Err::<GameStatus, PlayError>(PlayError::NoGame) && final(self)@ == old(
                    self,
                )@,
            },
    {
        let turn_index = self.turns.len() + 1;
        let side = self.state().side_to_play;
        let ongoing = self.state().status.is_ongoing();
        let captures = match captures_from_codes(&codes) {
            Some(c) => c,
            None => return Err(PlayError::NoGame),
        };
        let state = match state_from_raw(raw, turn_index) {
            Some(s) => s,
            None => return Err(PlayError::NoGame),
        };
        if !ongoing || state.plays_since_capture > turn_index || turn_index >= usize::MAX
            || !state.repetitions.fits_turn(turn_index) {
            return Err(PlayError::NoGame);
        }
        match board_side_len(state.board.as_str()) {
            Some(n) => if n != self.side_len {
                return Err(PlayError::NoGame);
            },
            None => return Err(PlayError::NoGame),
        }
        let status = state.status;
        let turn = Turn {
            record: PlayRecord {
                side,
                play,
                effects: PlayEffects { captures, game_outcome: status.outcome() },
            },
            state,
        };
        let ghost before = self@;
        let ghost added = turn@;
        self.turns.push(turn);
        proof {
            assert(self@.turns =~= before.turns.push(added));
            assert(self@ == before.with_turn(added));
            assert forall|i: int| 0 <= i < self@.turns.len() implies #[trigger] self@.follows(
                i,
            ) by {
                if i < before.turns.len() {
                    assert(before.follows(i));
                    assert(self@.state_at(i) == before.state_at(i));
                } else {
                    assert(self@.state_at(i) == before.state());
                }
            }
        }
        Ok(status)
    }

    /// Takes back the last play, and hands out the turn that it made; `None`
    /// where no play was made.
    pub fn undo_last_play(&mut self) -> (r: Option<Turn>)
        requires
            old(self).wf(),
        ensures
            final(self).wf(),
            final(self)@ == old(self)@.undone(),
            old(self)@.turns.len() == 0 ==> r is None,
            old(self)@.turns.len() > 0 ==> (r matches Some(t) && t@ == old(self)@.turns.last()),
    {
        let ghost before = self@;
        let r = self.turns.pop();
        proof {
            if before.turns.len() > 0 {
                assert(self@.turns =~= before.turns.drop_last());
                assert forall|i: int| 0 <= i < self@.turns.len() implies #[trigger] self@.follows(
                    i,
                ) by {
                    assert(before.follows(i));
                    assert(self@.state_at(i) == before.state_at(i));
                }
            } else {
                assert(self@.turns =~= before.turns);
            }
        }
        r
    }

    /// Puts a turn back that was taken back before, if it makes a well-formed
    /// game again. Returns whether it did.
    pub fn put_back(&mut self, turn: Turn) -> (r: bool)
        requires
            old(self).wf(),
        ensures
            final(self).wf(),
            r == old(self)@.with_turn(turn@).wf(),
            r ==> final(self)@ == old(self)@.with_turn(turn@),
            !r ==> final(self)@ == old(self)@,
    {
        let index = self.turns.len();
        let ghost before = self@;
        let ghost added = turn@;
        let ghost whole = before.with_turn(added);
        assert(whole.turns[index as int] == added);
        assert forall|i: int| 0 <= i < index implies whole.state_at(i) == before.state_at(i) by {}
        assert(whole.state_at(index as int) == before.state());
        assert forall|i: int| 0 <= i < index implies #[trigger] whole.follows(i) by {
            assert(before.follows(i));
        }
        let fits = index + 1 < usize::MAX && turn.state.turn == index + 1
            && turn.state.plays_since_capture <= index + 1 && turn.state.repetitions.fits_turn(
            index + 1,
        ) && match board_side_len(
            turn.state.board.as_str(),
        ) {
            Some(n) => n == self.side_len,
            None => false,
        };
        let before_state = self.state();
        let follows = before_state.status.is_ongoing() && turn.record.side
            == before_state.side_to_play && turn.record.effects.game_outcome
            == turn.state.status.outcome();
        if !fits || !follows {
            assert(!whole.fits(whole.turns[index as int].state, index + 1) || !whole.follows(
                index as int,
            ) || !(whole.turns.len() < usize::MAX));
            return false;
        }
        self.turns.push(turn);
        assert(self@.turns =~= whole.turns);
        true
    }

    /// The piece on a square of the board, if there is one.
    pub fn piece_at(&self, tile: Tile) -> (r: Option<Piece>)
        requires
            self.wf(),
        ensures
            r == piece_on(self@.state().board, self@.side_len, tile),
    {
        if !tile.within(self.side_len) {
            return None;
        }
        match ask_piece(self.state().board.as_str(), tile) {
            Some(code) => Piece::from_codes(code.piece_type, code.side),
            None => None,
        }
    }

    /// The squares to which the piece on `from` may move, each of them once,
    /// in the order in which the engine finds them. Each of them is on
    /// the board and in line with `from`, and the engine accepts the play to
    /// it: while the game has room for a turn, [`Game::do_play`] makes it.
    pub fn destinations(&self, from: Tile) -> (r: Vec<Tile>)
        requires
            self.wf(),
        ensures
            r@.to_set() == legal_destinations(self@, from),
            r@.no_duplicates(),
            self@.has_room() ==> forall|i: int|
                0 <= i < r.len() ==> playable(self@, Play { from, to: #[trigger] r[i] }),
            self@.has_room() ==> forall|to: Tile| #[trigger]
                legal_destinations(self@, from).contains(to) ==> playable(
                    self@,
                    Play { from, to },
                ),
    {
        let state = self.state();
        if !state.status.is_ongoing() || !from.within(self.side_len) {
            let none: Vec<Tile> = Vec::new();
            assert(none@.to_set() =~= Set::<Tile>::empty());
            return none;
        }
        let own = match ask_piece(state.board.as_str(), from) {
            Some(code) => code.side == state.side_to_play.code(),
            None => false,
        };
        if !own {
            let none: Vec<Tile> = Vec::new();
            assert(none@.to_set() =~= Set::<Tile>::empty());
            return none;
        }
        match ask_destinations(self.rules.as_str(), state, from) {
            Some(found) => found,
            None => {
                let none: Vec<Tile> = Vec::new();
                assert(none@.to_set() =~= Set::<Tile>::empty());
                none
            },
        }
    }
}

/// The piece that a board text puts on a square of a board of the given side
/// length: none off the board, and none where the engine's numbers stand for
/// no piece.
pub open spec fn piece_on(board: Seq<char>, side_len: u8, tile: Tile) -> Option<Piece> {
    if tile.within(side_len) {
        match engine_piece(board, tile) {
            Some(code) => Piece::spec_from_codes(code.piece_type, code.side),
            None => None,
        }
    } else {
        None
    }
}

/// Reads a state out of the engine's numbers.
pub fn state_from_raw(raw: RawState, turn: usize) -> (r: Option<GameState>)
    ensures
        r is None <==> state_of_raw(raw@, turn as nat) is None,
        r matches Some(s) ==> state_of_raw(raw@, turn as nat) == Some(s@),
{
    match (
        Side::from_code(raw.side_to_play),
        GameStatus::from_code(raw.status),
        Repetitions::from_raw(raw.repetitions),
    ) {
        (Some(side), Some(status), Some(repetitions)) => Some(
            GameState {
                board: raw.board,
                side_to_play: side,
                repetitions,
                plays_since_capture: raw.plays_since_capture,
                status,
                turn,
            },
        ),
        _ => None,
    }
}

/// Reads the captured pieces out of the engine's numbers.
pub fn captures_from_codes(codes: &Vec<CaptureCode>) -> (r: Option<Vec<PlacedPiece>>)
    ensures
        r is None <==> captures_of_codes(codes@) is None,
        r matches Some(v) ==> captures_of_codes(codes@) == Some(v@),
{
    let mut out: Vec<PlacedPiece> = Vec::new();
    let mut i: usize = 0;
    while i < codes.len()
        invariant
            i <= codes.len(),
            captures_of_codes(codes@.subrange(0, i as int)) == Some(out@),
        decreases codes.len() - i,
    {
        let code = codes[i];
        proof {
            let longer = codes@.subrange(0, i + 1);
            assert(longer.drop_last() == codes@.subrange(0, i as int));
            assert(longer.last() == code);
            if captures_of_codes(longer) is None {
                captures_stay_none(codes@, i + 1);
            }
        }
        match Piece::from_codes(code.piece.piece_type, code.piece.side) {
            Some(piece) => out.push(PlacedPiece { tile: code.tile, piece }),
            None => return None,
        }
        i += 1;
    }
    assert(codes@.subrange(0, i as int) == codes@);
    Some(out)
}

/// Numbers whose beginning stands for no captures stand for none as a whole.
proof fn captures_stay_none(codes: Seq<CaptureCode>, k: int)
    requires
        0 <= k <= codes.len(),
        captures_of_codes(codes.subrange(0, k)) is None,
    ensures
        captures_of_codes(codes) is None,
    decreases codes.len() - k,
{
    if k < codes.len() {
        let longer = codes.subrange(0, k + 1);
        assert(longer.drop_last() == codes.subrange(0, k));
        captures_stay_none(codes, k + 1);
    } else {
        assert(codes.subrange(0, k) == codes);
    }
}

/// The captures stand on the squares that the numbers name, in their order.
proof fn captures_keep_tiles(codes: Seq<CaptureCode>)
    requires
        captures_of_codes(codes) is Some,
    ensures
        captures_of_codes(codes)->0.len() == codes.len(),
        forall|i: int|
            0 <= i < codes.len() ==> (#[trigger] captures_of_codes(codes)->0[i]).tile
                == codes[i].tile && Piece::spec_from_codes(
                codes[i].piece.piece_type,
                codes[i].piece.side,
            ) == Some(captures_of_codes(codes)->0[i].piece),
    decreases codes.len(),
{
    if codes.len() > 0 {
        captures_keep_tiles(codes.drop_last());
    }
}

/// What the engine's answer says of the board holds of the turn that the
/// answer stands for.
proof fn play_follows_on_board(
    game: GameView,
    play: Play,
    raw: RawStateView,
    codes: Seq<CaptureCode>,
)
    requires
        game.wf(),
        play.from.within(game.side_len),
        play.to.within(game.side_len),
        next_turn(game, play, raw, codes) is Some,
        raw.side_to_play == game.state().side_to_play.spec_other().spec_code(),
        board_follows(game.state(), play, raw.board, codes),
    ensures
        turn_follows_play(game.state(), game.side_len, next_turn(game, play, raw, codes)->0),
{
    let turn = next_turn(game, play, raw, codes)->0;
    let before = game.state();
    let n = game.side_len;
    let captures = turn.record.captures;
    captures_keep_tiles(codes);
    if game.turns.len() > 0 {
        assert(game.fits(game.turns[game.turns.len() - 1].state, game.turns.len() as int));
    }
    assert(spec_board_side_len(before.board) == Some(n));
    assert forall|i: int| 0 <= i < captures.len() implies {
        let c = #[trigger] captures[i];
        &&& c.tile.within(n)
        &&& piece_on(raw.board, n, c.tile) is None
        &&& piece_on(before.board, n, c.tile) == Some(c.piece)
        &&& c.piece.side == before.side_to_play.spec_other()
    } by {
        let code = codes[i];
        assert(captures[i].tile == code.tile);
        assert(Side::spec_from_code(code.piece.side) == Some(captures[i].piece.side));
    }
    assert forall|tile: Tile|
        tile.within(n) && tile != play.from && tile != play.to && !captured_at(
            captures,
            tile,
        ) implies #[trigger] piece_on(raw.board, n, tile) == piece_on(before.board, n, tile) by {
        if captured_on(codes, tile) {
            let i = choose|i: int| 0 <= i < codes.len() && (#[trigger] codes[i]).tile == tile;
            assert(captures[i].tile == tile);
        }
        assert(engine_piece(raw.board, tile) == engine_piece(before.board, tile));
    }
}

/// Numbers that each stand for a piece stand for captures as a whole.
proof fn captures_of_valid_codes(codes: Seq<CaptureCode>)
    requires
        forall|i: int|
            0 <= i < codes.len() ==> Piece::spec_from_codes(
                (#[trigger] codes[i]).piece.piece_type,
                codes[i].piece.side,
            ) is Some,
    ensures
        captures_of_codes(codes) is Some,
    decreases codes.len(),
{
    if codes.len() > 0 {
        captures_of_valid_codes(codes.drop_last());
    }
}

} // verus!
