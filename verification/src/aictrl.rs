//! The AI players: what is asked of them, what they answer, and the mailbox
//! through which a session and the workers that search for plays talk.
//!
//! A worker never sees the session. It takes a request, which holds a copy of
//! the state, and delivers a response, which holds that copy again beside the
//! play it chose. Whether a response still fits the game is decided when it
//! is received, by comparing the copy with the state of the game.

use vstd::prelude::*;
use std::time::Duration;
use vstd::string::*;
use crate::game::Game;
use crate::pieces::Side;
use crate::play::Play;
use crate::state::{GameState, GameStateView};

verus! {

/// A request for a play: the state to play in, and the time there is for it.
#[derive(Debug, PartialEq, Eq)]
pub struct AiRequest {
    pub game_state: GameState,
    pub time_to_play: Duration,
}

/// A request as a value of mathematics.
pub struct AiRequestView {
    pub game_state: GameStateView,
    pub time_to_play: Duration,
}

impl View for AiRequest {
    type V = AiRequestView;

    open spec fn view(&self) -> AiRequestView {
        AiRequestView { game_state: self.game_state@, time_to_play: self.time_to_play }
    }
}

/// A response to a request: the state that the request held, and the play
/// chosen in it.
#[derive(Clone, Debug, PartialEq, Eq)]
pub struct AiResponse {
    pub game_state: GameState,
    pub play: Play,
}

/// A response as a value of mathematics.
pub struct AiResponseView {
    pub game_state: GameStateView,
    pub play: Play,
}

impl View for AiResponse {
    type V = AiResponseView;

    open spec fn view(&self) -> AiResponseView {
        AiResponseView { game_state: self.game_state@, play: self.play }
    }
}

/// Why a worker has no play to offer.
#[derive(Clone, Copy, Debug, PartialEq, Eq, Structural)]
pub enum AiError {
    /// No AI is set up for the side.
    NoAiConfigured,
    /// The search found no play.
    SearchFailed,
    /// The worker is gone.
    WorkerLost,
}

impl AiError {
    /// The message that is shown for the error.
    pub open spec fn spec_message(self) -> Seq<char> {
        match self {
            AiError::NoAiConfigured => "No AI set"@,
            AiError::SearchFailed => "Bad AI play"@,
            AiError::WorkerLost => "AI error"@,
        }
    }

    /// The message that is shown for the error.
    pub fn message(self) -> (r: String)
        ensures
            r@ == self.spec_message(),
    {
        match self {
            AiError::NoAiConfigured => String::from_str("No AI set"),
            AiError::SearchFailed => String::from_str("Bad AI play"),
            AiError::WorkerLost => String::from_str("AI error"),
        }
    }
}

/// What a search for a play ended in: the play that it found, or the error
/// that says why there is none. Without an AI for the side nothing was
/// searched; an AI that found no play has failed.
pub open spec fn spec_search_outcome(configured: bool, found: Option<Play>) -> Result<Play, AiError> {
    if !configured {
        Err(AiError::NoAiConfigured)
    } else {
        match found {
            Some(play) => Ok(play),
            None => Err(AiError::SearchFailed),
        }
    }
}

/// What a search for a play ended in: the play that it found, or the error
/// that says why there is none.
pub fn search_outcome(configured: bool, found: Option<Play>) -> (r: Result<Play, AiError>)
    ensures
        r == spec_search_outcome(configured, found),
{
    if !configured {
        Err(AiError::NoAiConfigured)
    } else {
        match found {
            Some(play) => Ok(play),
            None => Err(AiError::SearchFailed),
        }
    }
}

impl AiRequest {
    /// A copy of the request.
    pub fn duplicate(&self) -> (r: AiRequest)
        ensures
            r@ == self@,
    {
        AiRequest { game_state: self.game_state.duplicate(), time_to_play: self.time_to_play }
    }

    /// The response that a worker gives to the request once its search has
    /// ended: the state of the request with the play found, or the error of
    /// the search.
    pub fn answer(self, found: Result<Play, AiError>) -> (r: Result<AiResponse, AiError>)
        ensures
            match found {
                Ok(play) => r matches Ok(resp) && resp@ == (AiResponseView {
                    game_state: self@.game_state,
                    play,
                }),
                Err(e) => r == Err::<AiResponse, AiError>(e),
            },
    {
        match found {
            Ok(play) => Ok(AiResponse { game_state: self.game_state, play }),
            Err(e) => Err(e),
        }
    }
}

impl AiResponse {
    /// Whether the response was computed for the given state.
    pub fn is_for(&self, state: &GameState) -> (r: bool)
        ensures
            r == (self@.game_state == state@),
    {
        self.game_state.same_as(state)
    }
}

/// The mailbox of one AI player.
#[derive(Debug)]
pub struct AiChannel {
    time_to_play: Duration,
    pending: Option<AiRequest>,
    responses: Vec<AiResponse>,
}

/// A mailbox as a value of mathematics.
pub struct AiChannelView {
    /// The time that the player has for a play.
    pub time_to_play: Duration,
    /// The request that waits for the worker, if one does.
    pub pending: Option<AiRequestView>,
    /// The responses that the worker has delivered and that were not yet
    /// received, the oldest first.
    pub responses: Seq<AiResponseView>,
}

/// The responses of a sequence as values of mathematics.
pub open spec fn response_views(responses: Seq<AiResponse>) -> Seq<AiResponseView> {
    responses.map_values(|r: AiResponse| r@)
}

/// The place of the first response that was computed for the state, or the
/// number of responses where none was.
pub open spec fn first_fresh(responses: Seq<AiResponseView>, state: GameStateView) -> int
    decreases responses.len(),
{
    if responses.len() == 0 || responses[0].game_state == state {
        0
    } else {
        1 + first_fresh(responses.drop_first(), state)
    }
}

impl AiChannelView {
    /// The mailbox after a request was put in: it takes the place of a
    /// request that still waited.
    pub open spec fn requested(self, state: GameStateView) -> AiChannelView {
        AiChannelView {
            pending: Some(AiRequestView { game_state: state, time_to_play: self.time_to_play }),
            ..self
        }
    }

    /// The mailbox after the worker took the waiting request.
    pub open spec fn taken(self) -> AiChannelView {
        AiChannelView { pending: None, ..self }
    }

    /// The mailbox after the worker delivered a response.
    pub open spec fn delivered(self, response: AiResponseView) -> AiChannelView {
        AiChannelView { responses: self.responses.push(response), ..self }
    }

    /// The play that is received for a state: that of the first response
    /// computed for it.
    pub open spec fn received_play(self, state: GameStateView) -> Option<Play> {
        let i = first_fresh(self.responses, state);
        if i < self.responses.len() {
            Some(self.responses[i].play)
        } else {
            None
        }
    }

    /// The mailbox after a play was received for a state: the responses up to
    /// the first one computed for the state are gone, that one included.
    pub open spec fn received(self, state: GameStateView) -> AiChannelView {
        let i = first_fresh(self.responses, state);
        if i < self.responses.len() {
            AiChannelView {
                responses: self.responses.subrange(i + 1, self.responses.len() as int),
                ..self
            }
        } else {
            AiChannelView { responses: Seq::empty(), ..self }
        }
    }
}

impl View for AiChannel {
    type V = AiChannelView;

    closed spec fn view(&self) -> AiChannelView {
        AiChannelView {
            time_to_play: self.time_to_play,
            pending: match self.pending {
                Some(r) => Some(r@),
                None => None,
            },
            responses: response_views(self.responses@),
        }
    }
}

impl AiChannel {
    /// An empty mailbox for a player with the given time for a play.
    pub fn new(time_to_play: Duration) -> (r: AiChannel)
        ensures
            r@ == (AiChannelView {
                time_to_play,
                pending: None,
                responses: Seq::empty(),
            }),
    {
        let r = AiChannel { time_to_play, pending: None, responses: Vec::new() };
        assert(r@.responses =~= Seq::empty());
        r
    }

    /// Puts in a request for a play in the given state.
    pub fn request(&mut self, state: &GameState)
        ensures
            final(self)@ == old(self)@.requested(state@),
    {
        self.pending = Some(
            AiRequest { game_state: state.duplicate(), time_to_play: self.time_to_play },
        );
    }

    /// Takes the waiting request out, if one waits.
    pub fn take_request(&mut self) -> (r: Option<AiRequest>)
        ensures
            final(self)@ == old(self)@.taken(),
            match r {
                Some(req) => old(self)@.pending == Some(req@),
                None => old(self)@.pending is None,
            },
    {
        self.pending.take()
    }

    /// Puts in a response of the worker.
    pub fn deliver(&mut self, response: AiResponse)
        ensures
            final(self)@ == old(self)@.delivered(response@),
    {
        let ghost before = self@;
        let ghost added = response@;
        self.responses.push(response);
        assert(self@.responses =~= before.responses.push(added));
    }

    /// Takes the oldest response out, if there is one.
    pub fn poll_response(&mut self) -> (r: Option<AiResponse>)
        ensures
            match r {
                Some(resp) => old(self)@.responses.len() > 0 && resp@ == old(self)@.responses[0]
                    && final(self)@ == (AiChannelView {
                    responses: old(self)@.responses.drop_first(),
                    ..old(self)@
                }),
                None => old(self)@.responses.len() == 0 && final(self)@ == old(self)@,
            },
    {
        if self.responses.len() == 0 {
            return None;
        }
        let ghost before = self@;
        let resp = self.responses.remove(0);
        assert(self@.responses =~= before.responses.drop_first());
        Some(resp)
    }

    /// Receives the play for a state: takes responses out, the oldest first,
    /// until one was computed for the state, and hands out its play. The
    /// responses before it were computed for other states and are dropped.
    pub fn receive(&mut self, state: &GameState) -> (r: Option<Play>)
        ensures
            r == old(self)@.received_play(state@),
            final(self)@ == old(self)@.received(state@),
    {
        let ghost before = self@;
        let mut dropped: usize = 0;
        assert(before.responses.subrange(0, before.responses.len() as int) == before.responses);
        assert(before.responses.len() == self.responses.len());
        loop
            invariant
                before == old(self)@,
                before.responses.len() <= usize::MAX,
                self@.time_to_play == before.time_to_play,
                self@.pending == before.pending,
                dropped <= before.responses.len(),
                self@.responses == before.responses.subrange(
                    dropped as int,
                    before.responses.len() as int,
                ),
                first_fresh(before.responses, state@) == dropped + first_fresh(
                    self@.responses,
                    state@,
                ),
            decreases before.responses.len() - dropped,
        {
            let ghost now = self@;
            match self.poll_response() {
                None => {
                    assert(first_fresh(now.responses, state@) == 0);
                    assert(self@.responses =~= Seq::empty());
                    return None;
                },
                Some(resp) => {
                    assert(now.responses.len() > 0);
                    assert(before.responses[dropped as int] == now.responses[0]);
                    assert(self@.responses =~= before.responses.subrange(
                        dropped + 1,
                        before.responses.len() as int,
                    ));
                    if resp.is_for(state) {
                        assert(first_fresh(now.responses, state@) == 0);
                        return Some(resp.play);
                    }
                    assert(first_fresh(now.responses, state@) == 1 + first_fresh(
                        now.responses.drop_first(),
                        state@,
                    ));
                    dropped += 1;
                },
            }
        }
    }
}

/// The mailboxes of the two sides; a side that a human plays has none.
#[derive(Debug)]
pub struct AiController {
    attacker: Option<AiChannel>,
    defender: Option<AiChannel>,
}

/// The mailboxes as a value of mathematics.
pub struct AiControllerView {
    pub attacker: Option<AiChannelView>,
    pub defender: Option<AiChannelView>,
}

impl AiControllerView {
    /// The mailbox of a side.
    pub open spec fn channel(self, side: Side) -> Option<AiChannelView> {
        match side {
            Side::Attacker => self.attacker,
            Side::Defender => self.defender,
        }
    }

    /// The mailboxes with the one of a side replaced.
    pub open spec fn with_channel(self, side: Side, channel: AiChannelView) -> AiControllerView {
        match side {
            Side::Attacker => AiControllerView { attacker: Some(channel), ..self },
            Side::Defender => AiControllerView { defender: Some(channel), ..self },
        }
    }

    /// The mailboxes after a play was asked for in a state: the request is in
    /// the mailbox of the side to play, if that side has one.
    pub open spec fn requested(self, state: GameStateView) -> AiControllerView {
        match self.channel(state.side_to_play) {
            Some(c) => self.with_channel(state.side_to_play, c.requested(state)),
            None => self,
        }
    }

    /// The mailboxes after a worker took the request of a side.
    pub open spec fn taken(self, side: Side) -> AiControllerView {
        match self.channel(side) {
            Some(c) => self.with_channel(side, c.taken()),
            None => self,
        }
    }

    /// The mailboxes after a worker delivered a response for a side.
    pub open spec fn delivered(self, side: Side, response: AiResponseView) -> AiControllerView {
        match self.channel(side) {
            Some(c) => self.with_channel(side, c.delivered(response)),
            None => self,
        }
    }

    /// The play that is received for a side and a state.
    pub open spec fn received_play(self, side: Side, state: GameStateView) -> Option<Play> {
        match self.channel(side) {
            Some(c) => c.received_play(state),
            None => None,
        }
    }

    /// The mailboxes after a play was received for a side and a state.
    pub open spec fn received(self, side: Side, state: GameStateView) -> AiControllerView {
        match self.channel(side) {
            Some(c) => self.with_channel(side, c.received(state)),
            None => self,
        }
    }

    /// The number of requests of a side that wait for its worker: never more
    /// than one.
    pub open spec fn outstanding(self, side: Side) -> nat {
        match self.channel(side) {
            Some(c) => if c.pending is Some {
                1
            } else {
                0
            },
            None => 0,
        }
    }
}

impl View for AiController {
    type V = AiControllerView;

    closed spec fn view(&self) -> AiControllerView {
        AiControllerView {
            attacker: match self.attacker {
                Some(c) => Some(c@),
                None => None,
            },
            defender: match self.defender {
                Some(c) => Some(c@),
                None => None,
            },
        }
    }
}

/// The empty mailbox of a player with the given time, none for a human.
pub open spec fn fresh_channel(time: Option<Duration>) -> Option<AiChannelView> {
    match time {
        Some(t) => Some(AiChannelView { time_to_play: t, pending: None, responses: Seq::empty() }),
        None => None,
    }
}

impl AiController {
    /// The mailboxes of a session: one for each side that has a time for its
    /// plays, which is what makes it an AI.
    pub fn new(attacker_ai_time: Option<Duration>, defender_ai_time: Option<Duration>) -> (r:
        AiController)
        ensures
            r@ == (AiControllerView {
                attacker: fresh_channel(attacker_ai_time),
                defender: fresh_channel(defender_ai_time),
            }),
    {
        let attacker = match attacker_ai_time {
            Some(d) => Some(AiChannel::new(d)),
            None => None,
        };
        let defender = match defender_ai_time {
            Some(d) => Some(AiChannel::new(d)),
            None => None,
        };
        AiController { attacker, defender }
    }

    /// Asks the AI of the side to play for a play in the state of the game.
    /// Returns whether that side has an AI.
    pub fn request_ai_play(&mut self, game: &Game) -> (r: bool)
        requires
            game.wf(),
        ensures
            final(self)@ == old(self)@.requested(game@.state()),
            r == old(self)@.channel(game@.state().side_to_play).is_some(),
    {
        self.request(game.state())
    }

    /// Asks the AI of the side to play for a play in the given state. Returns
    /// whether that side has an AI.
    pub fn request(&mut self, state: &GameState) -> (r: bool)
        ensures
            final(self)@ == old(self)@.requested(state@),
            r == old(self)@.channel(state@.side_to_play).is_some(),
    {
        match state.side_to_play {
            Side::Attacker => match &mut self.attacker {
                Some(c) => {
                    c.request(state);
                    true
                },
                None => false,
            },
            Side::Defender => match &mut self.defender {
                Some(c) => {
                    c.request(state);
                    true
                },
                None => false,
            },
        }
    }

    /// Takes the waiting request of a side out, for its worker.
    pub fn take_request(&mut self, side: Side) -> (r: Option<AiRequest>)
        ensures
            final(self)@ == old(self)@.taken(side),
            match r {
                Some(req) => old(self)@.channel(side) matches Some(c) && c.pending == Some(req@),
                None => old(self)@.outstanding(side) == 0,
            },
    {
        match side {
            Side::Attacker => match &mut self.attacker {
                Some(c) => c.take_request(),
                None => None,
            },
            Side::Defender => match &mut self.defender {
                Some(c) => c.take_request(),
                None => None,
            },
        }
    }

    /// Puts the response of a side's worker into its mailbox. Returns whether
    /// the side has one.
    pub fn deliver(&mut self, side: Side, response: AiResponse) -> (r: bool)
        ensures
            final(self)@ == old(self)@.delivered(side, response@),
            r == old(self)@.channel(side).is_some(),
    {
        match side {
            Side::Attacker => match &mut self.attacker {
                Some(c) => {
                    c.deliver(response);
                    true
                },
                None => false,
            },
            Side::Defender => match &mut self.defender {
                Some(c) => {
                    c.deliver(response);
                    true
                },
                None => false,
            },
        }
    }

    /// Takes the oldest response of a side out, if there is one. Never waits.
    pub fn poll_response(&mut self, side: Side) -> (r: Option<AiResponse>)
        ensures
            match r {
                Some(resp) => old(self)@.channel(side) matches Some(c) && c.responses.len() > 0
                    && resp@ == c.responses[0] && final(self)@ == old(self)@.with_channel(
                    side,
                    AiChannelView { responses: c.responses.drop_first(), ..c },
                ),
                None => final(self)@ == old(self)@ && (old(self)@.channel(side) matches Some(c)
                    ==> c.responses.len() == 0),
            },
    {
        match side {
            Side::Attacker => match &mut self.attacker {
                Some(c) => c.poll_response(),
                None => None,
            },
            Side::Defender => match &mut self.defender {
                Some(c) => c.poll_response(),
                None => None,
            },
        }
    }

    /// Receives the play that the AI of a side chose for the given state, if
    /// it has delivered one. Responses that were computed for another state
    /// are dropped on the way.
    pub fn receive_ai_play(&mut self, side_to_play: Side, current_state: &GameState) -> (r: Option<
        Play,
    >)
        ensures
            r == old(self)@.received_play(side_to_play, current_state@),
            final(self)@ == old(self)@.received(side_to_play, current_state@),
    {
        match side_to_play {
            Side::Attacker => match &mut self.attacker {
                Some(c) => c.receive(current_state),
                None => None,
            },
            Side::Defender => match &mut self.defender {
                Some(c) => c.receive(current_state),
                None => None,
            },
        }
    }
}

} // verus!
