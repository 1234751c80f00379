//! Triad's IPC protocol: the requests this client sends, and how replies and
//! event-stream messages are classified once they have been read.

use vstd::prelude::*;
use crate::keyboard::RawState;

verus! {

/// The protocol version every request carries.
pub const PROTOCOL_VERSION: i64 = 1;

/// The socket's file name inside the runtime directory.
pub const SOCKET_FILE_NAME: &'static str = "triad.sock";

/// The socket's path when neither the environment nor a runtime directory names one.
pub const FALLBACK_SOCKET_PATH: &'static str = "/tmp/triad.sock";

/// A value in a request's `triad` object.
#[derive(Debug, Clone)]
pub enum RequestValue {
    Int(i64),
    Text(String),
    TextList(Vec<String>),
}

/// The mathematical value of a `RequestValue`.
pub enum RequestValueView {
    Int(i64),
    Text(Seq<char>),
    TextList(Seq<Seq<char>>),
}

impl View for RequestValue {
    type V = RequestValueView;

    open spec fn view(&self) -> RequestValueView {
        match self {
            RequestValue::Int(i) => RequestValueView::Int(*i),
            RequestValue::Text(s) => RequestValueView::Text(s@),
            RequestValue::TextList(l) => RequestValueView::TextList(
                l@.map_values(|s: String| s@),
            ),
        }
    }
}

/// The value of a list of named request fields.
pub open spec fn field_views(f: Seq<(String, RequestValue)>) -> Seq<(Seq<char>, RequestValueView)> {
    f.map_values(|e: (String, RequestValue)| (e.0@, e.1@))
}

/// A request to Triad.
#[derive(Debug, Clone)]
pub enum StateRequest {
    /// Ask for the full state.
    State,
    /// Run an action, with fields that go beside the action's name.
    Action { action: String, extra: Vec<(String, RequestValue)> },
}

/// The fields of the `triad` object that a request is sent as, in order; where a name
/// occurs twice the later field wins.
pub open spec fn spec_request_fields(r: StateRequest) -> Seq<(Seq<char>, RequestValueView)> {
    match r {
        StateRequest::State => seq![
            ("version"@, RequestValueView::Int(1)),
            ("request"@, RequestValueView::Text("state"@)),
        ],
        StateRequest::Action { action, extra } => seq![
            ("version"@, RequestValueView::Int(1)),
            ("request"@, RequestValueView::Text("action"@)),
            ("action"@, RequestValueView::Text(action@)),
        ] + field_views(extra@),
    }
}

fn text(s: &str) -> (t: String)
    ensures
        t@ == s@,
{
    String::from_str(s)
}

fn push_field(fields: &mut Vec<(String, RequestValue)>, name: &str, value: RequestValue)
    ensures
        field_views(final(fields)@) == field_views(old(fields)@).push((name@, value@)),
{
    let ghost before = fields@;
    fields.push((text(name), value));
    assert(field_views(fields@) =~= field_views(before).push((name@, value@)));
}

impl StateRequest {
    /// The fields of the `triad` object this request is sent as.
    pub fn into_fields(self) -> (fields: Vec<(String, RequestValue)>)
        ensures
            field_views(fields@) == spec_request_fields(self),
    {
        proof {
            reveal_strlit("version");
            reveal_strlit("request");
            reveal_strlit("state");
            reveal_strlit("action");
        }
        let mut fields: Vec<(String, RequestValue)> = Vec::new();
        push_field(&mut fields, "version", RequestValue::Int(PROTOCOL_VERSION));
        match self {
            StateRequest::State => {
                push_field(&mut fields, "request", RequestValue::Text(text("state")));
                assert(field_views(fields@) =~= spec_request_fields(self));
            },
            StateRequest::Action { action, extra } => {
                let ghost extra_view = field_views(extra@);
                let ghost action_view = action@;
                push_field(&mut fields, "request", RequestValue::Text(text("action")));
                push_field(&mut fields, "action", RequestValue::Text(action));
                let ghost head = field_views(fields@);
                for e in it: extra.into_iter()
                    invariant
                        it.seq() == extra@,
                        field_views(fields@) == head + field_views(it.seq().take(it.index() as int)),
                {
                    let ghost before = fields@;
                    let ghost prefix = it.seq().take(it.index() as int);
                    fields.push(e);
                    assert(field_views(fields@) =~= field_views(before).push((e.0@, e.1@)));
                    assert(it.seq().take(it.index() + 1) =~= prefix.push(e));
                    assert(field_views(prefix.push(e)) =~= field_views(prefix).push((e.0@, e.1@)));
                }
                assert(extra@.take(extra@.len() as int) =~= extra@);
                assert(field_views(fields@) =~= spec_request_fields(self));
            },
        }
        fields
    }
}

/// The request that focuses the workspace with id `id`.
pub fn focus_request(id: i64) -> (r: StateRequest)
    ensures
        r is Action,
        spec_request_fields(r) == seq![
            ("version"@, RequestValueView::Int(1)),
            ("request"@, RequestValueView::Text("action"@)),
            ("action"@, RequestValueView::Text("focus-tag"@)),
            ("tag"@, RequestValueView::Int(id)),
        ],
{
    proof {
        reveal_strlit("focus-tag");
        reveal_strlit("tag");
    }
    let mut extra: Vec<(String, RequestValue)> = Vec::new();
    push_field(&mut extra, "tag", RequestValue::Int(id));
    let r = StateRequest::Action { action: text("focus-tag"), extra };
    assert(spec_request_fields(r) =~= seq![
        ("version"@, RequestValueView::Int(1)),
        ("request"@, RequestValueView::Text("action"@)),
        ("action"@, RequestValueView::Text("focus-tag"@)),
        ("tag"@, RequestValueView::Int(id)),
    ]);
    r
}

/// The request that switches to the next keyboard layout.
pub fn next_layout_request() -> (r: StateRequest)
    ensures
        r is Action,
        spec_request_fields(r) == seq![
            ("version"@, RequestValueView::Int(1)),
            ("request"@, RequestValueView::Text("action"@)),
            ("action"@, RequestValueView::Text("switch-keyboard-layout"@)),
            ("layout"@, RequestValueView::Text("next"@)),
        ],
{
    proof {
        reveal_strlit("switch-keyboard-layout");
        reveal_strlit("layout");
        reveal_strlit("next");
    }
    let mut extra: Vec<(String, RequestValue)> = Vec::new();
    push_field(&mut extra, "layout", RequestValue::Text(text("next")));
    let r = StateRequest::Action { action: text("switch-keyboard-layout"), extra };
    assert(spec_request_fields(r) =~= seq![
        ("version"@, RequestValueView::Int(1)),
        ("request"@, RequestValueView::Text("action"@)),
        ("action"@, RequestValueView::Text("switch-keyboard-layout"@)),
        ("layout"@, RequestValueView::Text("next"@)),
    ]);
    r
}

/// The fields of the `triad` object that opens an event stream for state and layout events.
pub fn event_stream_fields() -> (fields: Vec<(String, RequestValue)>)
    ensures
        field_views(fields@) == seq![
            ("version"@, RequestValueView::Int(1)),
            ("request"@, RequestValueView::Text("event-stream"@)),
            ("events"@, RequestValueView::TextList(seq!["state"@, "layout"@])),
        ],
{
    proof {
        reveal_strlit("version");
        reveal_strlit("request");
        reveal_strlit("event-stream");
        reveal_strlit("events");
        reveal_strlit("state");
        reveal_strlit("layout");
    }
    let mut events: Vec<String> = Vec::new();
    events.push(text("state"));
    events.push(text("layout"));
    assert(events@.map_values(|s: String| s@) =~= seq!["state"@, "layout"@]);
    let mut fields: Vec<(String, RequestValue)> = Vec::new();
    push_field(&mut fields, "version", RequestValue::Int(PROTOCOL_VERSION));
    push_field(&mut fields, "request", RequestValue::Text(text("event-stream")));
    push_field(&mut fields, "events", RequestValue::TextList(events));
    assert(field_views(fields@) =~= seq![
        ("version"@, RequestValueView::Int(1)),
        ("request"@, RequestValueView::Text("event-stream"@)),
        ("events"@, RequestValueView::TextList(seq!["state"@, "layout"@])),
    ]);
    fields
}

/// The body of a successful reply.
#[derive(Debug, Clone)]
pub struct NativeReply {
    pub state: RawState,
}

/// A reply as read from the socket: its `ok` flag, its error text, and its body.
#[derive(Debug, Clone)]
pub struct NativeEnvelope {
    pub ok: bool,
    pub error: Option<String>,
    pub triad: Option<NativeReply>,
}

/// Why a reply carries no usable body.
#[derive(Debug, Clone)]
pub enum ReplyError {
    /// Triad refused the request, with its explanation.
    Failed(String),
    /// Triad accepted the request but sent no body.
    MissingResponse,
}

/// The explanation a refused reply is reported with: Triad's own, or a generic one.
pub open spec fn failure_text(error: Option<String>) -> Seq<char> {
    match error {
        Some(e) => e@,
        None => "Triad request failed"@,
    }
}

impl ReplyError {
    /// The text of the error, as the client reports it.
    pub open spec fn spec_message(self) -> Seq<char> {
        match self {
            ReplyError::Failed(m) => m@,
            ReplyError::MissingResponse => "missing Triad response"@,
        }
    }

    /// The text of the error, as the client reports it.
    pub fn message(&self) -> (m: String)
        ensures
            m@ == self.spec_message(),
    {
        proof {
            reveal_strlit("missing Triad response");
        }
        match self {
            ReplyError::Failed(m) => m.clone(),
            ReplyError::MissingResponse => text("missing Triad response"),
        }
    }
}

/// The body of a reply: an error when Triad refused the request or sent no body.
pub fn decode_reply(envelope: NativeEnvelope) -> (r: Result<NativeReply, ReplyError>)
    ensures
        !envelope.ok ==> (r matches Err(ReplyError::Failed(m)) && m@ == failure_text(envelope.error)),
        envelope.ok ==> r == (match envelope.triad {
            Some(reply) => Ok(reply),
            None => Err(ReplyError::MissingResponse),
        }),
{
    proof {
        reveal_strlit("Triad request failed");
    }
    if !envelope.ok {
        let message = match envelope.error {
            Some(e) => e,
            None => text("Triad request failed"),
        };
        return Err(ReplyError::Failed(message));
    }
    match envelope.triad {
        Some(reply) => Ok(reply),
        None => Err(ReplyError::MissingResponse),
    }
}

/// The head of an event-stream message: the event's name, and its payload still
/// undecoded (`P` is whatever the reader holds the payload as).
#[derive(Debug, Clone)]
pub struct EventPayload<P> {
    pub event: Option<String>,
    pub state: Option<P>,
}

/// What an event-stream message is, with its payload still undecoded.
#[derive(Debug, Clone)]
pub enum DecodedEvent<P> {
    /// A full state report, to be read as a `RawState`.
    State(P),
    /// A workspace report, to be read as a `RawLayout`.
    Layout(P),
    /// Any other event, with its name if it had one.
    Unknown(Option<String>),
}

/// Why an event-stream message cannot be used.
#[derive(Debug, Clone, Copy, PartialEq, Eq, Structural)]
pub enum EventError {
    MissingStatePayload,
    MissingLayoutPayload,
}

impl EventError {
    /// The text of the error, as the client reports it.
    pub open spec fn spec_message(self) -> Seq<char> {
        match self {
            EventError::MissingStatePayload => "missing Triad state event payload"@,
            EventError::MissingLayoutPayload => "missing Triad layout event payload"@,
        }
    }

    /// The text of the error, as the client reports it.
    pub fn message(&self) -> (m: String)
        ensures
            m@ == self.spec_message(),
    {
        proof {
            reveal_strlit("missing Triad state event payload");
            reveal_strlit("missing Triad layout event payload");
        }
        match self {
            EventError::MissingStatePayload => text("missing Triad state event payload"),
            EventError::MissingLayoutPayload => text("missing Triad layout event payload"),
        }
    }
}

/// What an event-stream message means: a `state-changed` event carries a state report
/// and a `layout-state-changed` event a workspace report, each of which must be
/// present; any other event, or one without a name, is passed on as unknown.
pub open spec fn spec_decode_event<P>(payload: EventPayload<P>) -> Result<DecodedEvent<P>, EventError> {
    match payload.event {
        Some(name) if name@ == "state-changed"@ => match payload.state {
            Some(p) => Ok(DecodedEvent::State(p)),
            None => Err(EventError::MissingStatePayload),
        },
        Some(name) if name@ == "layout-state-changed"@ => match payload.state {
            Some(p) => Ok(DecodedEvent::Layout(p)),
            None => Err(EventError::MissingLayoutPayload),
        },
        _ => Ok(DecodedEvent::Unknown(payload.event)),
    }
}

/// Classifies an event-stream message by its event name.
pub fn decode_event<P>(payload: EventPayload<P>) -> (r: Result<DecodedEvent<P>, EventError>)
    ensures
        r == spec_decode_event(payload),
{
    proof {
        reveal_strlit("state-changed");
        reveal_strlit("layout-state-changed");
    }
    let state_changed = text("state-changed");
    let layout_changed = text("layout-state-changed");
    let (is_state, is_layout) = match &payload.event {
        Some(name) => (*name == state_changed, *name == layout_changed),
        None => (false, false),
    };
    if is_state {
        match payload.state {
            Some(p) => Ok(DecodedEvent::State(p)),
            None => Err(EventError::MissingStatePayload),
        }
    } else if is_layout {
        match payload.state {
            Some(p) => Ok(DecodedEvent::Layout(p)),
            None => Err(EventError::MissingLayoutPayload),
        }
    } else {
        Ok(DecodedEvent::Unknown(payload.event))
    }
}

/// Where the client looks for Triad's socket.
#[derive(Debug, Clone)]
pub enum SocketLocation {
    /// The path that the `TRIAD_SOCKET` variable names.
    Explicit(String),
    /// `SOCKET_FILE_NAME` inside the runtime directory.
    RuntimeDir,
    /// `FALLBACK_SOCKET_PATH`.
    Fallback,
}

/// Chooses the socket: `TRIAD_SOCKET` when it is set to a non-empty path (`triad_socket`
/// is its value, if it is set and readable), else the runtime directory when
/// `XDG_RUNTIME_DIR` is set, else the fallback path.
pub fn socket_location(triad_socket: Option<String>, runtime_dir_set: bool) -> (l: SocketLocation)
    ensures
        match triad_socket {
            Some(p) if p@.len() > 0 => l == SocketLocation::Explicit(p),
            _ => l == (if runtime_dir_set {
                SocketLocation::RuntimeDir
            } else {
                SocketLocation::Fallback
            }),
        },
{
    if let Some(p) = triad_socket {
        if !p.as_str().is_empty() {
            return SocketLocation::Explicit(p);
        }
    }
    if runtime_dir_set {
        SocketLocation::RuntimeDir
    } else {
        SocketLocation::Fallback
    }
}

/// How an event-stream message is classified: by its name alone, `state-changed` and
/// `layout-state-changed` carry their payload on, or fail without one; every other
/// message, named or not, is unknown and keeps its name.
pub proof fn law_event_classification<P>(payload: EventPayload<P>)
    ensures
        (payload.event is Some && (payload.event->0)@ == "state-changed"@) ==> spec_decode_event(payload)
            == (if payload.state is Some {
            Ok(DecodedEvent::State(payload.state->0))
        } else {
            Err(EventError::MissingStatePayload)
        }),
        (payload.event is Some && (payload.event->0)@ == "layout-state-changed"@) ==> spec_decode_event(
            payload,
        ) == (if payload.state is Some {
            Ok(DecodedEvent::Layout(payload.state->0))
        } else {
            Err(EventError::MissingLayoutPayload)
        }),
        (payload.event is None || ((payload.event->0)@ != "state-changed"@ && (payload.event->0)@
            != "layout-state-changed"@)) ==> spec_decode_event(payload) == Ok::<DecodedEvent<P>, EventError>(
            DecodedEvent::Unknown(payload.event),
        ),
{
    reveal_strlit("state-changed");
    reveal_strlit("layout-state-changed");
    assert("state-changed"@[0] != "layout-state-changed"@[0]);
}

/// The texts errors are reported with: a refused reply with Triad's own explanation,
/// or "Triad request failed" without one, and fixed texts for the other errors.
pub proof fn law_error_texts(error: Option<String>, e: EventError, r: ReplyError)
    ensures
        error is Some ==> failure_text(error) == (error->0)@,
        error is None ==> failure_text(error) == "Triad request failed"@,
        r is Failed ==> r.spec_message() == (r->Failed_0)@,
        r is MissingResponse ==> r.spec_message() == "missing Triad response"@,
        e == EventError::MissingStatePayload ==> e.spec_message() == "missing Triad state event payload"@,
        e == EventError::MissingLayoutPayload ==> e.spec_message() == "missing Triad layout event payload"@,
{
}

/// The shape of every request: the protocol version first, then the kind of request;
/// a state request has nothing more, and an action request then names the action and
/// carries its extra fields, in their order.
pub proof fn law_request_shape(r: StateRequest)
    ensures
        spec_request_fields(r).len() >= 2,
        spec_request_fields(r)[0] == ("version"@, RequestValueView::Int(1)),
        r is State ==> spec_request_fields(r).len() == 2 && spec_request_fields(r)[1] == ("request"@,
            RequestValueView::Text("state"@)),
        r is Action ==> {
            &&& spec_request_fields(r).len() == 3 + r->extra@.len()
            &&& spec_request_fields(r)[1] == ("request"@, RequestValueView::Text("action"@))
            &&& spec_request_fields(r)[2] == ("action"@, RequestValueView::Text(r->action@))
            &&& forall|j: int|
                0 <= j < r->extra@.len() ==> #[trigger] spec_request_fields(r)[3 + j] == (
                r->extra@[j].0@,
                r->extra@[j].1@,
            )
        },
{
}

} // verus!
