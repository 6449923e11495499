//! The session: the live game, what the user has selected, the AI players'
//! mailboxes, and what is owed to the turn log.
//!
//! Every change of the game goes through [`GameController::apply_play`] or
//! [`GameController::undo_last_play`]. Both clear the selection, note what
//! has to be written to the log, and ask the AI for a play where the side to
//! play is one. A response of an AI is taken up only if the state it was
//! computed for is the state of the game; any other response is dropped
//! without a trace.

use vstd::prelude::*;
use std::time::{Duration, Instant};
use crate::aictrl::{AiController, AiControllerView, AiRequest, AiResponse};
use crate::config::{GameSettings, GameSettingsView, Player};
use crate::error::PlayError;
use crate::game::{
    legal_destinations, play_result, playable, turn_follows_play, Game, GameView, Turn,
    TurnView,
};
use crate::pieces::Side;
use crate::play::Play;
use crate::state::GameState;
use crate::status::GameStatus;
use crate::tiles::Tile;

verus! {

/// A moment of the machine's clock.
#[verifier::external_type_specification]
#[verifier::external_body]
pub struct ExInstant(Instant);

/// Calls `Instant::now`. Nothing is claimed of the moment it returns.
#[verifier::external_body]
pub(crate) fn now() -> Instant {
    Instant::now()
}

/// Calls `Instant::elapsed`. Nothing is claimed of the time it returns.
#[verifier::external_body]
pub(crate) fn elapsed(since: &Instant) -> Duration {
    since.elapsed()
}

/// Something that changed the game, and that the turn log has to follow.
#[derive(Clone, Debug, PartialEq, Eq)]
pub enum Action {
    /// A play was made: its turn has to be appended.
    Play(Turn),
    /// A play was taken back: the last turn has to be removed.
    Undo,
}

/// An [`Action`] as a value of mathematics.
pub enum ActionView {
    Play(TurnView),
    Undo,
}

impl View for Action {
    type V = ActionView;

    open spec fn view(&self) -> ActionView {
        match self {
            Action::Play(t) => ActionView::Play(t@),
            Action::Undo => ActionView::Undo,
        }
    }
}

impl Action {
    /// A copy of the action.
    pub fn duplicate(&self) -> (r: Action)
        ensures
            r@ == self@,
    {
        match self {
            Action::Play(t) => Action::Play(t.duplicate()),
            Action::Undo => Action::Undo,
        }
    }
}

/// The actions of a sequence as values of mathematics.
pub open spec fn action_views(actions: Seq<Action>) -> Seq<ActionView> {
    actions.map_values(|a: Action| a@)
}

/// The game after the log's game has followed an action: with the turn of a
/// play appended, or without its last turn.
pub open spec fn follow(game: GameView, action: ActionView) -> GameView {
    match action {
        ActionView::Play(turn) => game.with_turn(turn),
        ActionView::Undo => game.undone(),
    }
}

/// The game after the log's game has followed a sequence of actions, the
/// first one first.
pub open spec fn follow_all(game: GameView, actions: Seq<ActionView>) -> GameView
    decreases actions.len(),
{
    if actions.len() == 0 {
        game
    } else {
        follow(follow_all(game, actions.drop_last()), actions.last())
    }
}

/// Following a single action.
pub proof fn follow_all_single(game: GameView, actions: Seq<ActionView>)
    requires
        actions.len() == 1,
    ensures
        follow_all(game, actions) == follow(game, actions[0]),
{
    let none = actions.drop_last();
    assert(none.len() == 0);
    assert(follow_all(game, none) == game);
    assert(follow_all(game, actions) == follow(follow_all(game, none), actions.last()));
}

/// Following the first action and then the rest is following them all.
pub proof fn follow_all_from_first(game: GameView, actions: Seq<ActionView>)
    requires
        actions.len() > 0,
    ensures
        follow_all(follow(game, actions[0]), actions.drop_first()) == follow_all(game, actions),
    decreases actions.len(),
{
    if actions.len() == 1 {
        follow_all_single(game, actions);
        assert(actions.drop_first().len() == 0);
        assert(follow_all(follow(game, actions[0]), actions.drop_first()) == follow(
            game,
            actions[0],
        ));
    } else {
        let shorter = actions.drop_last();
        let rest = actions.drop_first();
        follow_all_from_first(game, shorter);
        assert(rest.drop_last() =~= shorter.drop_first());
        assert(rest.last() == actions.last());
        assert(shorter[0] == actions[0]);
        assert(follow_all(follow(game, actions[0]), rest) == follow(
            follow_all(follow(game, actions[0]), rest.drop_last()),
            rest.last(),
        ));
        assert(follow_all(game, actions) == follow(follow_all(game, shorter), actions.last()));
    }
}

/// A selected square and the squares to which its piece may move.
pub struct SelectionView {
    pub tile: Tile,
    pub destinations: Seq<Tile>,
}

/// A session as a value of mathematics. The moment of the last play is no
/// part of it.
pub struct ControllerView {
    pub settings: GameSettingsView,
    pub game: GameView,
    /// What is selected, if anything.
    pub selection: Option<SelectionView>,
    /// The number under which the session is stored.
    pub db_id: i64,
    /// The game as the turn log holds it: the game before the owed actions.
    pub logged: GameView,
    /// What the turn log has to follow yet, the oldest action first.
    pub owed: Seq<ActionView>,
    pub ai: AiControllerView,
}

/// Whether a mailbox is the one of a player: there is one exactly for an AI,
/// and it carries the player's time for a play.
pub open spec fn mailbox_fits(
    channel: Option<crate::aictrl::AiChannelView>,
    time: Option<Duration>,
) -> bool {
    match (channel, time) {
        (Some(c), Some(t)) => c.time_to_play == t,
        (None, None) => true,
        _ => false,
    }
}

impl ControllerView {
    /// Whether the side to play is an AI.
    pub open spec fn is_ai_turn(self) -> bool {
        self.settings.player(self.game.state().side_to_play).ai_play_time is Some
    }

    /// Whether the selection is sound: its squares are all of the piece's
    /// legal destinations, there is at least one, and it is a human's turn.
    pub open spec fn selection_wf(self) -> bool {
        self.selection matches Some(sel) ==> {
            &&& sel.destinations.len() > 0
            &&& sel.destinations.no_duplicates()
            &&& sel.destinations.to_set() == legal_destinations(self.game, sel.tile)
            &&& !self.is_ai_turn()
            &&& self.game.has_room() ==> forall|i: int|
                0 <= i < sel.destinations.len() ==> playable(
                    self.game,
                    Play { from: sel.tile, to: #[trigger] sel.destinations[i] },
                )
        }
    }

    /// Whether what is owed to the log is sound: the game is the log's game
    /// after all that is owed, a well-formed game stands after each of the
    /// owed actions, and each owed removal takes a turn away.
    pub open spec fn owed_wf(self) -> bool {
        &&& self.logged.wf()
        &&& self.game == follow_all(self.logged, self.owed)
        &&& forall|k: int|
            0 <= k <= self.owed.len() ==> (#[trigger] follow_all(
                self.logged,
                self.owed.take(k),
            )).wf()
        &&& self.undos_wf()
    }

    /// Whether every removal that is owed takes a turn away: a play had been
    /// made when the play was taken back.
    pub open spec fn undos_wf(self) -> bool {
        forall|k: int|
            0 <= k < self.owed.len() && self.owed[k] is Undo ==> (#[trigger] follow_all(
                self.logged,
                self.owed.take(k),
            )).turn() > 0
    }

    /// Whether the session is well formed: the game is, each side has a
    /// mailbox exactly if it is an AI, with the player's time for a play, the
    /// selection is sound, and so is what is owed to the log.
    pub open spec fn wf(self) -> bool {
        &&& self.game.wf()
        &&& mailbox_fits(self.ai.attacker, self.settings.attacker.ai_play_time)
        &&& mailbox_fits(self.ai.defender, self.settings.defender.ai_play_time)
        &&& self.selection_wf()
        &&& self.owed_wf()
    }

    /// The mailboxes after a play was asked for where it is due: in a running
    /// game, of the side to play, if it is an AI.
    pub open spec fn ai_asked(self, game: GameView) -> AiControllerView {
        if game.state().status.spec_is_ongoing() {
            self.ai.requested(game.state())
        } else {
            self.ai
        }
    }

    /// The session after a play led to the given game: nothing is selected,
    /// the log is owed the new turn, and the AI is asked where it is due.
    pub open spec fn after_play(self, game: GameView) -> ControllerView {
        ControllerView {
            game,
            selection: None,
            owed: self.owed.push(ActionView::Play(game.turns.last())),
            ai: self.ai_asked(game),
            ..self
        }
    }

    /// The session after an attempt to make a play.
    pub open spec fn after_attempt(self, play: Play) -> ControllerView {
        match play_result(self.game, play) {
            Ok(game) => self.after_play(game),
            Err(_) => self,
        }
    }

    /// The session after the last play was taken back: nothing is selected,
    /// the log is owed the removal, and the AI is asked where it is due. A
    /// session in which no play was made stays as it is.
    pub open spec fn after_undo(self) -> ControllerView {
        if self.game.turns.len() == 0 {
            self
        } else {
            ControllerView {
                game: self.game.undone(),
                selection: None,
                owed: self.owed.push(ActionView::Undo),
                ai: self.ai_asked(self.game.undone()),
                ..self
            }
        }
    }

    /// The session after the log has followed the oldest owed action: the
    /// log's game has followed it, and it is owed no more.
    pub open spec fn after_write_done(self) -> ControllerView {
        if self.owed.len() == 0 {
            self
        } else {
            ControllerView {
                logged: follow(self.logged, self.owed[0]),
                owed: self.owed.drop_first(),
                ..self
            }
        }
    }

    /// The session after the log failed to follow the oldest owed action. The
    /// log is the truth, and nothing that is owed was written, so the session
    /// goes back to the game as the log holds it, whatever was done since:
    /// plays that were not appended are taken back, plays whose removal was
    /// not written are put back. Nothing is selected and nothing is owed
    /// afterwards, and the AI is asked where it is due.
    pub open spec fn after_write_failed(self) -> ControllerView {
        if self.owed.len() == 0 {
            self
        } else {
            ControllerView {
                game: self.logged,
                selection: None,
                owed: Seq::empty(),
                ai: self.ai_asked(self.logged),
                ..self
            }
        }
    }
}

/// A selected square and the squares to which its piece may move.
#[derive(Clone, Debug, PartialEq, Eq)]
pub struct Selection {
    pub tile: Tile,
    pub destinations: Vec<Tile>,
}

impl View for Selection {
    type V = SelectionView;

    open spec fn view(&self) -> SelectionView {
        SelectionView { tile: self.tile, destinations: self.destinations@ }
    }
}

/// What a click on a square led to.
#[derive(Clone, Copy, Debug, PartialEq, Eq)]
pub enum Click {
    /// Nothing changed.
    Ignored,
    /// The piece on the square is selected now.
    Selected,
    /// The selected piece was asked to move to the square, with this result.
    Played(Result<GameStatus, PlayError>),
}

/// A session of the game.
#[derive(Debug)]
pub struct GameController {
    settings: GameSettings,
    game: Game,
    selection: Option<Selection>,
    last_move_time: Instant,
    db_id: i64,
    logged: Game,
    owed: Vec<Action>,
    ai: AiController,
}

impl View for GameController {
    type V = ControllerView;

    closed spec fn view(&self) -> ControllerView {
        ControllerView {
            settings: self.settings@,
            game: self.game@,
            selection: match self.selection {
                Some(s) => Some(s@),
                None => None,
            },
            db_id: self.db_id,
            logged: self.logged@,
            owed: action_views(self.owed@),
            ai: self.ai@,
        }
    }
}

/// The session that starts from settings and a game: nothing is selected,
/// nothing is owed to the log, and the AI is asked where it is due.
pub open spec fn fresh_session(settings: GameSettingsView, game: GameView, db_id: i64) -> ControllerView {
    let idle = ControllerView {
        settings,
        game,
        selection: None,
        db_id,
        logged: game,
        owed: Seq::empty(),
        ai: AiControllerView {
            attacker: crate::aictrl::fresh_channel(settings.attacker.ai_play_time),
            defender: crate::aictrl::fresh_channel(settings.defender.ai_play_time),
        },
    };
    ControllerView { ai: idle.ai_asked(game), ..idle }
}

impl GameController {
    /// Whether the session is well formed. Every session that this crate
    /// hands out is, and stays so.
    pub closed spec fn wf(&self) -> bool {
        self@.wf() && self.game.wf() && self.logged.wf()
    }

    /// What holds of every well-formed session.
    pub proof fn wf_view(&self)
        requires
            self.wf(),
        ensures
            self@.wf(),
    {
    }

    /// Starts a session on a game, new or taken up again, under the number
    /// under which it is stored.
    pub fn new(settings: GameSettings, game: Game, db_id: i64) -> (r: GameController)
        requires
            game.wf(),
        ensures
            r.wf(),
            r@ == fresh_session(settings@, game@, db_id),
    {
        let mut ai = AiController::new(settings.attacker.ai_play_time, settings.defender.ai_play_time);
        if game.state().status.is_ongoing() {
            ai.request_ai_play(&game);
        }
        let logged = game.duplicate();
        let r = GameController {
            settings,
            game,
            selection: None,
            last_move_time: now(),
            db_id,
            logged,
            owed: Vec::new(),
            ai,
        };
        proof {
            assert(r@.owed =~= Seq::<ActionView>::empty());
            assert forall|k: int| 0 <= k <= r@.owed.len() implies (#[trigger] follow_all(
                r@.logged,
                r@.owed.take(k),
            )).wf() by {
                assert(r@.owed.take(k) =~= Seq::<ActionView>::empty());
            }
        }
        r
    }

    /// The settings of the session.
    pub fn settings(&self) -> (r: &GameSettings)
        ensures
            r@ == self@.settings,
    {
        &self.settings
    }

    /// The game of the session.
    pub fn game(&self) -> (r: &Game)
        requires
            self.wf(),
        ensures
            r@ == self@.game,
            r.wf(),
    {
        &self.game
    }

    /// The state of the game.
    pub fn state(&self) -> (r: &GameState)
        requires
            self.wf(),
        ensures
            r@ == self@.game.state(),
    {
        self.game.state()
    }

    /// The number under which the session is stored.
    pub fn db_id(&self) -> (r: i64)
        ensures
            r == self@.db_id,
    {
        self.db_id
    }

    /// The selected square, if one is selected.
    pub fn selected(&self) -> (r: Option<Tile>)
        ensures
            match self@.selection {
                Some(sel) => r == Some(sel.tile),
                None => r is None,
            },
    {
        match &self.selection {
            Some(sel) => Some(sel.tile),
            None => None,
        }
    }

    /// The squares to which the selected piece may move; none where nothing
    /// is selected.
    pub fn movable(&self) -> (r: Vec<Tile>)
        ensures
            match self@.selection {
                Some(sel) => r@ == sel.destinations,
                None => r@.len() == 0,
            },
    {
        let mut out: Vec<Tile> = Vec::new();
        if let Some(sel) = &self.selection {
            let mut i: usize = 0;
            while i < sel.destinations.len()
                invariant
                    i <= sel.destinations.len(),
                    out@ == sel.destinations@.subrange(0, i as int),
                decreases sel.destinations.len() - i,
            {
                out.push(sel.destinations[i]);
                i += 1;
            }
            assert(out@ == sel.destinations@);
        }
        out
    }

    /// The oldest action that the turn log has to follow yet, if there is one.
    pub fn owed_action(&self) -> (r: Option<Action>)
        ensures
            match r {
                Some(a) => self@.owed.len() > 0 && a@ == self@.owed[0],
                None => self@.owed.len() == 0,
            },
    {
        if self.owed.len() == 0 {
            None
        } else {
            Some(self.owed[0].duplicate())
        }
    }

    /// The number of actions that the turn log has to follow yet.
    pub fn owed_count(&self) -> (r: usize)
        ensures
            r == self@.owed.len(),
    {
        self.owed.len()
    }

    /// The game as the turn log holds it.
    pub fn logged_game(&self) -> (r: &Game)
        requires
            self.wf(),
        ensures
            r@ == self@.logged,
            r.wf(),
    {
        &self.logged
    }

    /// Takes the waiting request of a side out of its mailbox, for the
    /// worker that searches for its plays.
    pub fn take_ai_request(&mut self, side: Side) -> (r: Option<AiRequest>)
        requires
            old(self).wf(),
        ensures
            final(self).wf(),
            final(self)@ == (ControllerView { ai: old(self)@.ai.taken(side), ..old(self)@ }),
            match r {
                Some(req) => old(self)@.ai.channel(side) matches Some(c) && c.pending == Some(
                    req@,
                ),
                None => old(self)@.ai.outstanding(side) == 0,
            },
    {
        self.ai.take_request(side)
    }

    /// Puts the response of a side's worker into the side's mailbox. Returns
    /// whether the side has one. The game is not touched: the response is
    /// looked at when it is received.
    pub fn deliver_ai_response(&mut self, side: Side, response: AiResponse) -> (r: bool)
        requires
            old(self).wf(),
        ensures
            final(self).wf(),
            final(self)@ == (ControllerView {
                ai: old(self)@.ai.delivered(side, response@),
                ..old(self)@
            }),
            r == old(self)@.ai.channel(side).is_some(),
    {
        self.ai.deliver(side, response)
    }

    /// Looks into the mailbox of the side to play, and makes the play that
    /// its AI chose for the state of the game, if it has delivered one.
    /// Responses that were computed for another state are dropped on the way.
    /// Never waits: `None` says that no such response was there.
    pub fn poll_ai_play(&mut self) -> (r: Option<Result<GameStatus, PlayError>>)
        requires
            old(self).wf(),
        ensures
            final(self).wf(),
            match old(self)@.ai.received_play(
                old(self)@.game.state().side_to_play,
                old(self)@.game.state(),
            ) {
                Some(play) => final(self)@ == old(self)@.polled().after_attempt(play)
                    && match play_result(old(self)@.game, play) {
                    Ok(game) => r == Some(Ok::<GameStatus, PlayError>(game.state().status)),
                    Err(e) => r == Some(Err::<GameStatus, PlayError>(e)),
                },
                None => r is None && final(self)@ == old(self)@.polled(),
            },
            old(self)@.ai.received_play(
                old(self)@.game.state().side_to_play,
                old(self)@.game.state(),
            ) matches Some(play) && playable(old(self)@.game, play) ==> r matches Some(Ok(_)),
            r matches Some(Ok(_)) ==> final(self)@.game.turn() == old(self)@.game.turn() + 1
                && turn_follows_play(
                old(self)@.game.state(),
                old(self)@.game.side_len,
                final(self)@.game.turns.last(),
            ),
    {
        let side = self.game.state().side_to_play;
        match self.ai.receive_ai_play(side, self.game.state()) {
            Some(play) => Some(self.apply_play(play)),
            None => None,
        }
    }

    /// The player whose turn it is.
    pub fn current_player(&self) -> (r: &Player)
        requires
            self.wf(),
        ensures
            r@ == self@.settings.player(self@.game.state().side_to_play),
    {
        self.settings.player(self.game.state().side_to_play)
    }

    /// Whether the side to play is an AI.
    pub fn is_ai_turn(&self) -> (r: bool)
        requires
            self.wf(),
        ensures
            r == self@.is_ai_turn(),
    {
        self.current_player().is_ai()
    }

    /// The time that the side to play has for a play, if it is an AI.
    pub fn ai_play_time(&self) -> (r: Option<Duration>)
        requires
            self.wf(),
        ensures
            r == self@.settings.player(self@.game.state().side_to_play).ai_play_time,
    {
        self.current_player().ai_play_time
    }

    /// The time that has passed since the last play was made or taken back.
    pub fn time_since_last_play(&self) -> Duration {
        elapsed(&self.last_move_time)
    }

    /// The request that is due now: for a play in the state of the game, with
    /// the time of the side to play, where the game runs and that side is an
    /// AI. The request is put into the side's mailbox as well.
    pub fn request_ai_play(&mut self) -> (r: Option<AiRequest>)
        requires
            old(self).wf(),
        ensures
            final(self).wf(),
            final(self)@ == (ControllerView { ai: old(self)@.ai_asked(old(self)@.game), ..old(self)@ }),
            match r {
                Some(req) => old(self)@.game.state().status.spec_is_ongoing() && old(
                    self,
                )@.is_ai_turn() && req@.game_state == old(self)@.game.state() && Some(
                    req@.time_to_play,
                ) == old(self)@.settings.player(old(self)@.game.state().side_to_play).ai_play_time,
                None => !old(self)@.game.state().status.spec_is_ongoing() || !old(
                    self,
                )@.is_ai_turn(),
            },
    {
        if !self.game.state().status.is_ongoing() {
            return None;
        }
        self.ai.request_ai_play(&self.game);
        match self.current_player().ai_play_time {
            Some(time_to_play) => Some(
                AiRequest { game_state: self.game.state().duplicate(), time_to_play },
            ),
            None => None,
        }
    }

    /// Makes a play, if the rules allow it. On success nothing is selected
    /// any more, the log is owed the new turn, and the AI is asked for the
    /// next play where the game runs on and the side to play is an AI. On
    /// failure nothing changes.
    pub fn apply_play(&mut self, play: Play) -> (r: Result<GameStatus, PlayError>)
        requires
            old(self).wf(),
        ensures
            final(self).wf(),
            final(self)@ == old(self)@.after_attempt(play),
            match play_result(old(self)@.game, play) {
                Ok(game) => r == Ok::<GameStatus, PlayError>(game.state().status),
                Err(e) => r == Err::<GameStatus, PlayError>(e),
            },
            playable(old(self)@.game, play) ==> r is Ok,
            r is Ok ==> final(self)@.game.turn() == old(self)@.game.turn() + 1
                && turn_follows_play(
                old(self)@.game.state(),
                old(self)@.game.side_len,
                final(self)@.game.turns.last(),
            ),
    {
        let status = match self.game.do_play(play) {
            Ok(status) => status,
            Err(e) => return Err(e),
        };
        self.selection = None;
        self.last_move_time = now();
        let turns = self.game.turns();
        let turn = turns[turns.len() - 1].duplicate();
        let ghost before = old(self)@;
        let ghost owed = self@.owed;
        let ghost added = ActionView::Play(turn@);
        self.owed.push(Action::Play(turn));
        proof {
            assert(self@.owed =~= owed.push(added));
            assert(self@.game.turns =~= before.game.turns.push(self@.game.turns.last()));
            owed_after_push(before, added, self@.game);
        }
        if status.is_ongoing() {
            self.ai.request_ai_play(&self.game);
        }
        Ok(status)
    }

    /// Takes back the last play. Nothing is selected afterwards, the log is
    /// owed the removal of its last turn, and the AI is asked anew where the
    /// side to play is one: a request that was made for the state before is
    /// answered for a state that is no longer the game's, and its response is
    /// dropped when it comes. Returns whether there was a play to take back.
    pub fn undo_last_play(&mut self) -> (r: bool)
        requires
            old(self).wf(),
        ensures
            final(self).wf(),
            final(self)@ == old(self)@.after_undo(),
            r == (old(self)@.game.turns.len() > 0),
    {
        match self.game.undo_last_play() {
            None => false,
            Some(_) => {
                self.selection = None;
                self.last_move_time = now();
                let ghost before = old(self)@;
                let ghost owed = self@.owed;
                self.owed.push(Action::Undo);
                proof {
                    let g = before.game;
                    assert(g.follows(g.turns.len() - 1));
                    assert(self@.owed =~= owed.push(ActionView::Undo));
                    owed_after_push(before, ActionView::Undo, self@.game);
                }
                self.ai.request_ai_play(&self.game);
                true
            },
        }
    }

    /// Takes up a response of an AI. The play is made only if the response
    /// was computed for the very state that the game is in; `None` says that
    /// it was not, and then nothing at all has changed. A play that the rules
    /// refuse changes nothing either, and the AI is not asked again.
    pub fn handle_ai_response(&mut self, ai_resp: AiResponse) -> (r: Option<
        Result<GameStatus, PlayError>,
    >)
        requires
            old(self).wf(),
        ensures
            final(self).wf(),
            ai_resp@.game_state != old(self)@.game.state() ==> r is None && final(self)@ == old(
                self,
            )@,
            ai_resp@.game_state == old(self)@.game.state() ==> final(self)@ == old(
                self,
            )@.after_attempt(ai_resp@.play) && match play_result(old(self)@.game, ai_resp@.play) {
                Ok(game) => r == Some(Ok::<GameStatus, PlayError>(game.state().status)),
                Err(e) => r == Some(Err::<GameStatus, PlayError>(e)),
            },
            ai_resp@.game_state == old(self)@.game.state() && playable(
                old(self)@.game,
                ai_resp@.play,
            ) ==> r matches Some(Ok(_)),
            r matches Some(Ok(_)) ==> final(self)@.game.turn() == old(self)@.game.turn() + 1
                && turn_follows_play(
                old(self)@.game.state(),
                old(self)@.game.side_len,
                final(self)@.game.turns.last(),
            ),
    {
        if ai_resp.is_for(self.game.state()) {
            Some(self.apply_play(ai_resp.play))
        } else {
            None
        }
    }

    /// Takes up a click on a square. Nothing happens on an AI's turn. A click
    /// on a destination of the selected piece makes the play. A click on a
    /// piece of the side to play that can move selects it, with all its
    /// destinations. Any other click changes nothing.
    pub fn handle_selection(&mut self, tile: Tile) -> (r: Click)
        requires
            old(self).wf(),
        ensures
            final(self).wf(),
            old(self)@.is_ai_turn() ==> r == Click::Ignored && final(self)@ == old(self)@,
            !old(self)@.is_ai_turn() && old(self)@.plays_to(tile) ==> {
                let play = Play { from: old(self)@.selection->0.tile, to: tile };
                &&& final(self)@ == old(self)@.after_attempt(play)
                &&& match play_result(old(self)@.game, play) {
                    Ok(game) => r == Click::Played(Ok(game.state().status)),
                    Err(e) => r == Click::Played(Err(e)),
                }
                &&& old(self)@.game.has_room() ==> r matches Click::Played(Ok(_))
            },
            !old(self)@.is_ai_turn() && !old(self)@.plays_to(tile) && legal_destinations(
                old(self)@.game,
                tile,
            ) != Set::<Tile>::empty() ==> {
                &&& r == Click::Selected
                &&& final(self)@.selection matches Some(sel) && sel.tile == tile
                    && sel.destinations.no_duplicates() && sel.destinations.to_set()
                    == legal_destinations(old(self)@.game, tile)
                &&& final(self)@ == (ControllerView {
                    selection: final(self)@.selection,
                    ..old(self)@
                })
            },
            !old(self)@.is_ai_turn() && !old(self)@.plays_to(tile) && legal_destinations(
                old(self)@.game,
                tile,
            ) == Set::<Tile>::empty() ==> r == Click::Ignored && final(self)@ == old(self)@,
    {
        if self.is_ai_turn() {
            return Click::Ignored;
        }
        let from = match &self.selection {
            Some(sel) => if contains_tile(&sel.destinations, tile) {
                Some(sel.tile)
            } else {
                None
            },
            None => None,
        };
        if let Some(from) = from {
            return Click::Played(self.apply_play(Play { from, to: tile }));
        }
        let destinations = self.game.destinations(tile);
        if destinations.len() == 0 {
            assert(destinations@.to_set() =~= Set::<Tile>::empty());
            return Click::Ignored;
        }
        assert(destinations@.to_set().contains(destinations@[0]));
        self.selection = Some(Selection { tile, destinations });
        Click::Selected
    }

    /// Tells the session that the log has followed the oldest owed action.
    pub fn write_done(&mut self)
        requires
            old(self).wf(),
        ensures
            final(self).wf(),
            final(self)@ == old(self)@.after_write_done(),
    {
        if self.owed.len() == 0 {
            return ;
        }
        let ghost before = self@;
        let action = self.owed.remove(0);
        proof {
            assert(self@.owed =~= before.owed.drop_first());
            follow_all_single(before.logged, before.owed.take(1));
            assert(follow_all(before.logged, before.owed.take(1)) == follow(
                before.logged,
                before.owed[0],
            ));
            follow_all_from_first(before.logged, before.owed);
            assert forall|k: int| 0 <= k <= self@.owed.len() implies (#[trigger] follow_all(
                follow(before.logged, before.owed[0]),
                self@.owed.take(k),
            )).wf() by {
                let longer = before.owed.take(k + 1);
                follow_all_from_first(before.logged, longer);
                assert(longer.drop_first() =~= self@.owed.take(k));
                assert(follow_all(before.logged, longer).wf());
            }
            assert forall|k: int|
                0 <= k < self@.owed.len() && self@.owed[k] is Undo implies (#[trigger] follow_all(
                follow(before.logged, before.owed[0]),
                self@.owed.take(k),
            )).turn() > 0 by {
                let longer = before.owed.take(k + 1);
                follow_all_from_first(before.logged, longer);
                assert(longer.drop_first() =~= self@.owed.take(k));
                assert(before.undos_wf());
                assert(before.owed[k + 1] is Undo);
                assert(follow_all(before.logged, before.owed.take(k + 1)).turn() > 0);
            }
        }
        match action {
            Action::Play(turn) => {
                let put = self.logged.put_back(turn);
                assert(put);
            },
            Action::Undo => {
                self.logged.undo_last_play();
            },
        }
    }

    /// Tells the session that the log failed to follow the oldest owed
    /// action, and brings the session back to the game as the log holds it,
    /// whatever was done since. Returns whether anything was owed.
    pub fn write_failed(&mut self) -> (r: bool)
        requires
            old(self).wf(),
        ensures
            final(self).wf(),
            final(self)@ == old(self)@.after_write_failed(),
            r == (old(self)@.owed.len() > 0),
    {
        if self.owed.len() == 0 {
            return false;
        }
        self.game = self.logged.duplicate();
        self.owed = Vec::new();
        self.selection = None;
        self.last_move_time = now();
        proof {
            assert(self@.owed =~= Seq::<ActionView>::empty());
            assert forall|k: int| 0 <= k <= self@.owed.len() implies (#[trigger] follow_all(
                self@.logged,
                self@.owed.take(k),
            )).wf() by {
                assert(self@.owed.take(k) =~= Seq::<ActionView>::empty());
            }
        }
        if self.game.state().status.is_ongoing() {
            self.ai.request_ai_play(&self.game);
        }
        true
    }
}

/// What is owed to the log stays sound when the game follows one more action
/// and the log is owed it.
proof fn owed_after_push(before: ControllerView, action: ActionView, game: GameView)
    requires
        before.owed_wf(),
        game == follow(before.game, action),
        game.wf(),
        action is Undo ==> before.game.turn() > 0,
    ensures
        (ControllerView { game, owed: before.owed.push(action), ..before }).owed_wf(),
{
    let owed = before.owed.push(action);
    let after = ControllerView { game, owed, ..before };
    assert(owed.drop_last() =~= before.owed);
    assert forall|k: int| 0 <= k < owed.len() && owed[k] is Undo implies (#[trigger] follow_all(
        before.logged,
        owed.take(k),
    )).turn() > 0 by {
        assert(owed.take(k) =~= before.owed.take(k));
        if k < before.owed.len() {
            assert(before.undos_wf());
            assert(before.owed[k] is Undo);
        } else {
            assert(before.owed.take(k) =~= before.owed);
        }
    }
    assert(after.undos_wf());
    assert forall|k: int| 0 <= k <= owed.len() implies (#[trigger] follow_all(
        before.logged,
        owed.take(k),
    )).wf() by {
        if k <= before.owed.len() {
            assert(owed.take(k) =~= before.owed.take(k));
        } else {
            assert(owed.take(k) =~= owed);
        }
    }
}

impl ControllerView {
    /// The session after the mailbox of the side to play was looked into for
    /// a play in the state of the game.
    pub open spec fn polled(self) -> ControllerView {
        ControllerView {
            ai: self.ai.received(self.game.state().side_to_play, self.game.state()),
            ..self
        }
    }

    /// Whether a click on the square asks the selected piece to move there.
    pub open spec fn plays_to(self, tile: Tile) -> bool {
        self.selection matches Some(sel) && sel.destinations.contains(tile)
    }
}

/// Whether the square is among the given ones.
pub fn contains_tile(tiles: &Vec<Tile>, tile: Tile) -> (r: bool)
    ensures
        r == tiles@.contains(tile),
{
    let mut i: usize = 0;
    while i < tiles.len()
        invariant
            i <= tiles.len(),
            forall|k: int| 0 <= k < i ==> tiles@[k] != tile,
        decreases tiles.len() - i,
    {
        if tiles[i] == tile {
            return true;
        }
        i += 1;
    }
    false
}

} // verus!
