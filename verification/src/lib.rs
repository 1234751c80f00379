//! The verified core of a client for the Triad compositor's IPC protocol:
//! workspace and keyboard-layout bookkeeping, the diff that turns two
//! workspace snapshots into update events, request construction, reply and
//! event classification, and the reconnecting supervisor's decisions.

pub mod decimal;
pub mod workspace;
pub mod updates;
pub mod keyboard;
pub mod client;
pub mod protocol;
pub mod link;
pub mod laws;

pub use client::{Client, ClientUpdate, EventMessage};
pub use keyboard::{KeyboardLayoutUpdate, KeyboardLayouts, RawLayout, RawState};
pub use link::{LinkAction, LinkEvent, Phase, Supervisor};
pub use protocol::{
    decode_event, decode_reply, event_stream_fields, focus_request, next_layout_request,
    socket_location, DecodedEvent, EventError, EventPayload, NativeEnvelope, NativeReply,
    ReplyError, RequestValue, SocketLocation, StateRequest,
};
pub use updates::{workspace_updates, WorkspaceUpdate};
pub use workspace::{RawWorkspace, TriadWorkspace, Visibility, Workspace};
