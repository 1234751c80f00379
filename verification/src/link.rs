//! The decisions of the client's connection loop: fetch the initial state until it
//! arrives, then keep an event stream open, reconnecting after a pause whenever it
//! fails. The loop's runner performs each action and reports what came of it.

use vstd::prelude::*;
use crate::client::{client_update_views, event_applied, state_applied, unchanged, Client, ClientUpdate, EventMessage};
use crate::keyboard::RawState;

verus! {

/// Where the connection loop stands.
#[derive(Debug, Clone, Copy, PartialEq, Eq, Structural)]
pub enum Phase {
    /// Fetching the initial state.
    LoadingState,
    /// Opening the event stream.
    Connecting,
    /// Reading the event stream.
    Streaming,
}

/// What came of the last action.
#[derive(Debug, Clone)]
pub enum LinkEvent {
    /// The state request was answered.
    StateLoaded(RawState),
    /// The state request failed.
    StateFailed,
    /// The event stream is open.
    Connected,
    /// The event stream could not be opened.
    ConnectFailed,
    /// The event stream delivered a message.
    Received(EventMessage),
    /// Reading or decoding the event stream failed.
    StreamFailed,
    /// The event stream ended.
    StreamClosed,
}

/// What the runner does next; `pause` asks it to wait a second first.
#[derive(Debug, Clone, Copy, PartialEq, Eq, Structural)]
pub enum LinkAction {
    RequestState { pause: bool },
    Connect { pause: bool },
    ReadNext,
}

/// The event answers an action that the phase asks for.
pub open spec fn event_fits(phase: Phase, event: LinkEvent) -> bool {
    match event {
        LinkEvent::StateLoaded(_) | LinkEvent::StateFailed => phase == Phase::LoadingState,
        LinkEvent::Connected | LinkEvent::ConnectFailed => phase == Phase::Connecting,
        LinkEvent::Received(_) | LinkEvent::StreamFailed | LinkEvent::StreamClosed => phase
            == Phase::Streaming,
    }
}

/// The action that carries on in a phase after an event that does not belong to it.
pub open spec fn resume_action(phase: Phase) -> LinkAction {
    match phase {
        Phase::LoadingState => LinkAction::RequestState { pause: true },
        Phase::Connecting => LinkAction::Connect { pause: true },
        Phase::Streaming => LinkAction::ReadNext,
    }
}

/// The phase after `event`: the initial state leads to connecting, an open stream to
/// streaming, a failed or closed stream back to connecting; failed requests and
/// connections are retried in the same phase, and an event that does not fit the
/// phase changes nothing.
pub open spec fn next_phase(phase: Phase, event: LinkEvent) -> Phase {
    if !event_fits(phase, event) {
        phase
    } else {
        match event {
            LinkEvent::StateLoaded(_) => Phase::Connecting,
            LinkEvent::StateFailed => Phase::LoadingState,
            LinkEvent::Connected => Phase::Streaming,
            LinkEvent::ConnectFailed => Phase::Connecting,
            LinkEvent::Received(_) => Phase::Streaming,
            LinkEvent::StreamFailed | LinkEvent::StreamClosed => Phase::Connecting,
        }
    }
}

/// The action after `event`: every failure, and the end of the stream, is followed by
/// a pause; the initial state is followed at once by a connection, and an open stream
/// or a delivered message by the next read.
pub open spec fn next_action(phase: Phase, event: LinkEvent) -> LinkAction {
    if !event_fits(phase, event) {
        resume_action(phase)
    } else {
        match event {
            LinkEvent::StateLoaded(_) => LinkAction::Connect { pause: false },
            LinkEvent::StateFailed => LinkAction::RequestState { pause: true },
            LinkEvent::Connected => LinkAction::ReadNext,
            LinkEvent::ConnectFailed => LinkAction::Connect { pause: true },
            LinkEvent::Received(_) => LinkAction::ReadNext,
            LinkEvent::StreamFailed | LinkEvent::StreamClosed => LinkAction::Connect {
                pause: true,
            },
        }
    }
}

/// The action waits a second before it starts.
pub open spec fn pauses(a: LinkAction) -> bool {
    match a {
        LinkAction::RequestState { pause } => pause,
        LinkAction::Connect { pause } => pause,
        LinkAction::ReadNext => false,
    }
}

/// The loop leaves the loading phase only once the initial state has arrived, so the
/// event stream is never opened before the initial state was applied.
pub proof fn law_stream_opens_after_initial_state(phase: Phase, event: LinkEvent)
    requires
        phase == Phase::LoadingState,
        next_phase(phase, event) != Phase::LoadingState,
    ensures
        event is StateLoaded,
{
}

/// After a failed request, a failed connection, a failed read or the end of the stream,
/// the loop waits before it tries again; after success it never waits.
pub proof fn law_retries_wait(phase: Phase, event: LinkEvent)
    requires
        event_fits(phase, event),
    ensures
        pauses(next_action(phase, event)) <==> (event is StateFailed || event is ConnectFailed
            || event is StreamFailed || event is StreamClosed),
{
}

/// Every step of the loop, for every phase and event: it keeps fetching the state until
/// the state arrives; it reads the stream from the moment the stream is open until a
/// read fails or the stream ends, and then reconnects; an event that does not belong to
/// the phase changes nothing. The action always serves the phase the loop is then in,
/// and it waits first exactly when it repeats an attempt, except that the first
/// connection after the initial state is made at once.
pub proof fn law_loop_transitions(phase: Phase, event: LinkEvent)
    ensures
        next_phase(phase, event) == Phase::LoadingState <==> (phase == Phase::LoadingState && !(event is StateLoaded)),
        next_phase(phase, event) == Phase::Streaming <==> ((phase == Phase::Connecting && event is Connected) || (
        phase == Phase::Streaming && !(event is StreamFailed) && !(event is StreamClosed))),
        next_action(phase, event) is RequestState <==> next_phase(phase, event) == Phase::LoadingState,
        next_action(phase, event) is Connect <==> next_phase(phase, event) == Phase::Connecting,
        next_action(phase, event) is ReadNext <==> next_phase(phase, event) == Phase::Streaming,
        pauses(next_action(phase, event)) <==> (!(next_action(phase, event) is ReadNext) && !(phase
            == Phase::LoadingState && event is StateLoaded)),
{
}

/// The connection loop's state.
#[derive(Debug)]
pub struct Supervisor {
    phase: Phase,
}

impl Supervisor {
    /// The phase the loop is in.
    pub closed spec fn phase(self) -> Phase {
        self.phase
    }

    /// The loop at its start, and its first action: ask for the state at once.
    pub fn start() -> (r: (Supervisor, LinkAction))
        ensures
            r.0.phase() == Phase::LoadingState,
            r.1 == (LinkAction::RequestState { pause: false }),
    {
        (Supervisor { phase: Phase::LoadingState }, LinkAction::RequestState { pause: false })
    }

    /// The phase the loop is in.
    pub fn current_phase(&self) -> (p: Phase)
        ensures
            p == self.phase(),
    {
        self.phase
    }

    /// Takes in what came of the last action: the initial state and each delivered
    /// message are applied to `client`; returns the next action and what to announce.
    pub fn step(&mut self, client: &mut Client, event: LinkEvent) -> (r: (LinkAction, Vec<ClientUpdate>))
        ensures
            final(self).phase() == next_phase(old(self).phase(), event),
            r.0 == next_action(old(self).phase(), event),
            match event {
                LinkEvent::StateLoaded(state) if event_fits(old(self).phase(), event) => state_applied(
                    *old(client),
                    *final(client),
                    state,
                    client_update_views(r.1@),
                ),
                LinkEvent::Received(message) if event_fits(old(self).phase(), event) => event_applied(
                    *old(client),
                    *final(client),
                    message,
                    client_update_views(r.1@),
                ),
                _ => unchanged(*old(client), *final(client)) && r.1@.len() == 0,
            },
    {
        let phase = self.phase;
        match event {
            LinkEvent::StateLoaded(state) => {
                if phase == Phase::LoadingState {
                    let updates = client.apply_state(state);
                    self.phase = Phase::Connecting;
                    (LinkAction::Connect { pause: false }, updates)
                } else {
                    (self.resume(), Vec::new())
                }
            },
            LinkEvent::StateFailed => {
                if phase == Phase::LoadingState {
                    (LinkAction::RequestState { pause: true }, Vec::new())
                } else {
                    (self.resume(), Vec::new())
                }
            },
            LinkEvent::Connected => {
                if phase == Phase::Connecting {
                    self.phase = Phase::Streaming;
                    (LinkAction::ReadNext, Vec::new())
                } else {
                    (self.resume(), Vec::new())
                }
            },
            LinkEvent::ConnectFailed => {
                if phase == Phase::Connecting {
                    (LinkAction::Connect { pause: true }, Vec::new())
                } else {
                    (self.resume(), Vec::new())
                }
            },
            LinkEvent::Received(message) => {
                if phase == Phase::Streaming {
                    let updates = client.apply_event(message);
                    (LinkAction::ReadNext, updates)
                } else {
                    (self.resume(), Vec::new())
                }
            },
            LinkEvent::StreamFailed | LinkEvent::StreamClosed => {
                if phase == Phase::Streaming {
                    self.phase = Phase::Connecting;
                    (LinkAction::Connect { pause: true }, Vec::new())
                } else {
                    (self.resume(), Vec::new())
                }
            },
        }
    }

    fn resume(&self) -> (a: LinkAction)
        ensures
            a == resume_action(self.phase()),
    {
        match self.phase {
            Phase::LoadingState => LinkAction::RequestState { pause: true },
            Phase::Connecting => LinkAction::Connect { pause: true },
            Phase::Streaming => LinkAction::ReadNext,
        }
    }
}

} // verus!
