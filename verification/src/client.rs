//! The client's view of the compositor: the known workspaces and keyboard layout,
//! and how each report from Triad changes them and what it announces.

use vstd::prelude::*;
use crate::keyboard::{KeyboardLayoutUpdate, RawLayout, RawState};
use crate::updates::{
    plain_workspaces, spec_workspace_updates, update_views, workspace_updates, UpdateView,
    WorkspaceUpdate,
};
use crate::workspace::{RawWorkspace, TriadWorkspace};

verus! {

/// What the client announces to its subscribers.
#[derive(Debug, Clone)]
pub enum ClientUpdate {
    Workspace(WorkspaceUpdate),
    KeyboardLayout(KeyboardLayoutUpdate),
}

/// The mathematical value of a `ClientUpdate`.
pub enum ClientUpdateView {
    Workspace(UpdateView),
    KeyboardLayout(KeyboardLayoutUpdate),
}

impl View for ClientUpdate {
    type V = ClientUpdateView;

    open spec fn view(&self) -> ClientUpdateView {
        match self {
            ClientUpdate::Workspace(u) => ClientUpdateView::Workspace(u@),
            ClientUpdate::KeyboardLayout(l) => ClientUpdateView::KeyboardLayout(*l),
        }
    }
}

impl ClientUpdate {
    /// The workspace update this is, for a workspace subscriber; `None` for a layout update.
    pub fn into_workspace_update(self) -> (u: Option<WorkspaceUpdate>)
        ensures
            u == (match self {
                ClientUpdate::Workspace(w) => Some(w),
                ClientUpdate::KeyboardLayout(_) => None,
            }),
    {
        match self {
            ClientUpdate::Workspace(w) => Some(w),
            ClientUpdate::KeyboardLayout(_) => None,
        }
    }

    /// The keyboard layout update this is, for a layout subscriber; `None` for a workspace update.
    pub fn into_keyboard_layout_update(self) -> (l: Option<KeyboardLayoutUpdate>)
        ensures
            l == (match self {
                ClientUpdate::Workspace(_) => None,
                ClientUpdate::KeyboardLayout(k) => Some(k),
            }),
    {
        match self {
            ClientUpdate::Workspace(_) => None,
            ClientUpdate::KeyboardLayout(k) => Some(k),
        }
    }
}

/// The values of a sequence of client updates.
pub open spec fn client_update_views(s: Seq<ClientUpdate>) -> Seq<ClientUpdateView> {
    s.map_values(|u: ClientUpdate| u@)
}

/// Workspace updates as client updates.
pub open spec fn as_client_updates(s: Seq<UpdateView>) -> Seq<ClientUpdateView> {
    s.map_values(|u: UpdateView| ClientUpdateView::Workspace(u))
}

/// A report from Triad's event stream.
#[derive(Debug, Clone)]
pub enum EventMessage {
    /// A full state report.
    State(RawState),
    /// A report of the workspaces alone.
    Layout(RawLayout),
    /// An event this client does not handle, with its name if it had one.
    Unknown(Option<String>),
}

/// Two optional layouts name the same layout, or both are absent.
pub open spec fn same_layout(a: Option<KeyboardLayoutUpdate>, b: Option<KeyboardLayoutUpdate>) -> bool {
    match (a, b) {
        (None, None) => true,
        (Some(x), Some(y)) => x.0@ == y.0@,
        _ => false,
    }
}

/// The layout announced when `incoming` is reported while `current` is known:
/// nothing if it names the same layout, else the incoming layout if there is one.
pub open spec fn layout_change(
    current: Option<KeyboardLayoutUpdate>,
    incoming: Option<KeyboardLayoutUpdate>,
) -> Option<KeyboardLayoutUpdate> {
    if same_layout(incoming, current) {
        None
    } else {
        incoming
    }
}

/// The layout known after `incoming` is reported while `current` is known.
pub open spec fn layout_after(
    current: Option<KeyboardLayoutUpdate>,
    incoming: Option<KeyboardLayoutUpdate>,
) -> Option<KeyboardLayoutUpdate> {
    if same_layout(incoming, current) {
        current
    } else {
        incoming
    }
}

/// The announcement of an optional layout change.
pub open spec fn layout_announcement(change: Option<KeyboardLayoutUpdate>) -> Seq<ClientUpdateView> {
    match change {
        Some(l) => seq![ClientUpdateView::KeyboardLayout(l)],
        None => Seq::empty(),
    }
}

/// `ws` is `raw`, each workspace converted.
pub open spec fn converts_all(ws: Seq<TriadWorkspace>, raw: Seq<RawWorkspace>) -> bool {
    &&& ws.len() == raw.len()
    &&& forall|i: int| 0 <= i < ws.len() ==> #[trigger] ws[i].converted_from(raw[i])
}

/// The update a new workspace subscriber receives first, given the known workspaces.
pub open spec fn spec_workspace_snapshot(known: Seq<TriadWorkspace>) -> Option<UpdateView> {
    if known.len() == 0 {
        None
    } else {
        Some(UpdateView::Init(plain_workspaces(known)))
    }
}

/// The value of an optional workspace update.
pub open spec fn optional_update_view(u: Option<WorkspaceUpdate>) -> Option<UpdateView> {
    match u {
        Some(x) => Some(x@),
        None => None,
    }
}

/// The client's knowledge of the compositor.
#[derive(Debug)]
pub struct Client {
    workspaces: Vec<TriadWorkspace>,
    keyboard_layout: Option<KeyboardLayoutUpdate>,
}

/// `after` is `before` once the workspaces `raw` were reported, and `updates`
/// is what that report announces.
pub open spec fn workspaces_applied(
    before: Client,
    after: Client,
    raw: Seq<RawWorkspace>,
    updates: Seq<ClientUpdateView>,
) -> bool {
    &&& converts_all(after.known_workspaces(), raw)
    &&& after.current_layout() == before.current_layout()
    &&& updates == as_client_updates(
        spec_workspace_updates(before.known_workspaces(), after.known_workspaces()),
    )
}

/// `after` is `before` once the state report `state` arrived, and `updates` is
/// what that report announces: the layout change first, then the workspace updates.
pub open spec fn state_applied(
    before: Client,
    after: Client,
    state: RawState,
    updates: Seq<ClientUpdateView>,
) -> bool {
    let incoming = state.spec_keyboard_layout();
    &&& converts_all(after.known_workspaces(), state.layout.workspaces@)
    &&& after.current_layout() == layout_after(before.current_layout(), incoming)
    &&& updates == layout_announcement(layout_change(before.current_layout(), incoming))
        + as_client_updates(
        spec_workspace_updates(before.known_workspaces(), after.known_workspaces()),
    )
}

/// `after` is `before` once the event-stream report `message` arrived, and `updates`
/// is what it announces: a state report as `state_applied` says, a workspace report
/// as `workspaces_applied` says, and an unhandled event changes and announces nothing.
pub open spec fn event_applied(
    before: Client,
    after: Client,
    message: EventMessage,
    updates: Seq<ClientUpdateView>,
) -> bool {
    match message {
        EventMessage::State(state) => state_applied(before, after, state, updates),
        EventMessage::Layout(layout) => workspaces_applied(before, after, layout.workspaces@, updates),
        EventMessage::Unknown(_) => {
            &&& unchanged(before, after)
            &&& updates.len() == 0
        },
    }
}

/// `after` knows what `before` knew.
pub open spec fn unchanged(before: Client, after: Client) -> bool {
    &&& after.known_workspaces() == before.known_workspaces()
    &&& after.current_layout() == before.current_layout()
}

impl Client {
    /// The workspaces the client knows of, in Triad's order.
    pub closed spec fn known_workspaces(self) -> Seq<TriadWorkspace> {
        self.workspaces@
    }

    /// The keyboard layout the client knows to be in use.
    pub closed spec fn current_layout(self) -> Option<KeyboardLayoutUpdate> {
        self.keyboard_layout
    }

    /// A client that knows of no workspace and no layout yet.
    pub fn new() -> (c: Client)
        ensures
            c.known_workspaces() == Seq::<TriadWorkspace>::empty(),
            c.current_layout() is None,
    {
        Client { workspaces: Vec::new(), keyboard_layout: None }
    }

    /// The workspaces the client knows of.
    pub fn workspaces(&self) -> (w: &[TriadWorkspace])
        ensures
            w@ == self.known_workspaces(),
    {
        self.workspaces.as_slice()
    }

    /// The keyboard layout the client knows to be in use.
    pub fn keyboard_layout(&self) -> (l: &Option<KeyboardLayoutUpdate>)
        ensures
            *l == self.current_layout(),
    {
        &self.keyboard_layout
    }

    /// Records the layout Triad reports; returns the layout to announce, which is
    /// none when the report names the layout already known.
    pub fn apply_keyboard_layout(&mut self, layout: Option<KeyboardLayoutUpdate>) -> (sent: Option<
        KeyboardLayoutUpdate,
    >)
        ensures
            sent == layout_change(old(self).current_layout(), layout),
            final(self).current_layout() == layout_after(old(self).current_layout(), layout),
            final(self).known_workspaces() == old(self).known_workspaces(),
    {
        let same = match &layout {
            None => self.keyboard_layout.is_none(),
            Some(new_layout) => match &self.keyboard_layout {
                Some(known) => new_layout.0 == known.0,
                None => false,
            },
        };
        if same {
            return None;
        }
        self.keyboard_layout = match &layout {
            Some(l) => Some(l.duplicate()),
            None => None,
        };
        layout
    }

    /// Records the workspaces Triad reports and returns the updates that announce them.
    pub fn apply_workspaces(&mut self, raw_workspaces: Vec<RawWorkspace>) -> (updates: Vec<
        WorkspaceUpdate,
    >)
        ensures
            converts_all(final(self).known_workspaces(), raw_workspaces@),
            final(self).current_layout() == old(self).current_layout(),
            update_views(updates@) == spec_workspace_updates(
                old(self).known_workspaces(),
                final(self).known_workspaces(),
            ),
    {
        let mut next: Vec<TriadWorkspace> = Vec::new();
        let mut i: usize = 0;
        while i < raw_workspaces.len()
            invariant
                i <= raw_workspaces@.len(),
                next@.len() == i,
                forall|k: int| 0 <= k < i ==> #[trigger] next@[k].converted_from(raw_workspaces@[k]),
            decreases raw_workspaces@.len() - i,
        {
            next.push(TriadWorkspace::from_raw(&raw_workspaces[i]));
            i = i + 1;
        }
        let updates = workspace_updates(self.workspaces.as_slice(), next.as_slice());
        self.workspaces = next;
        updates
    }

    /// Records a full state report: the keyboard layout first, then the workspaces.
    /// Returns what the report announces, in that order.
    pub fn apply_state(&mut self, state: RawState) -> (updates: Vec<ClientUpdate>)
        ensures
            state_applied(*old(self), *final(self), state, client_update_views(updates@)),
    {
        let mut updates: Vec<ClientUpdate> = Vec::new();
        let layout = state.keyboard_layout();
        let sent = self.apply_keyboard_layout(layout);
        if let Some(l) = sent {
            updates.push(ClientUpdate::KeyboardLayout(l));
        }
        let ghost announced = client_update_views(updates@);
        assert(announced =~= layout_announcement(
            layout_change(old(self).current_layout(), state.spec_keyboard_layout()),
        ));
        let RawState { layout: raw_layout, .. } = state;
        let workspace_changes = self.apply_workspaces(raw_layout.workspaces);
        append_workspace_updates(&mut updates, workspace_changes);
        updates
    }

    /// Records a report from the event stream and returns what it announces: a state
    /// report as `apply_state` does, a layout report as `apply_workspaces` does, and
    /// nothing for an event this client does not handle.
    pub fn apply_event(&mut self, message: EventMessage) -> (updates: Vec<ClientUpdate>)
        ensures
            event_applied(*old(self), *final(self), message, client_update_views(updates@)),
    {
        match message {
            EventMessage::State(state) => self.apply_state(state),
            EventMessage::Layout(layout) => {
                let mut updates: Vec<ClientUpdate> = Vec::new();
                let workspace_changes = self.apply_workspaces(layout.workspaces);
                append_workspace_updates(&mut updates, workspace_changes);
                updates
            },
            EventMessage::Unknown(_) => Vec::new(),
        }
    }

    /// The update a new workspace subscriber receives first: the full list of known
    /// workspaces, or nothing while none is known.
    pub fn workspace_snapshot(&self) -> (u: Option<WorkspaceUpdate>)
        ensures
            optional_update_view(u) == spec_workspace_snapshot(self.known_workspaces()),
    {
        if self.workspaces.len() == 0 {
            return None;
        }
        let mut all: Vec<crate::workspace::Workspace> = Vec::new();
        let mut i: usize = 0;
        while i < self.workspaces.len()
            invariant
                i <= self.workspaces@.len(),
                all@ =~= plain_workspaces(self.workspaces@.take(i as int)),
            decreases self.workspaces@.len() - i,
        {
            all.push(self.workspaces[i].workspace.duplicate());
            i = i + 1;
            assert(all@ =~= plain_workspaces(self.workspaces@.take(i as int)));
        }
        assert(self.workspaces@.take(i as int) =~= self.workspaces@);
        Some(WorkspaceUpdate::Init(all))
    }

    /// The layout a new keyboard layout subscriber receives first, if one is known.
    pub fn layout_snapshot(&self) -> (l: Option<KeyboardLayoutUpdate>)
        ensures
            l == self.current_layout(),
    {
        match &self.keyboard_layout {
            Some(l) => Some(l.duplicate()),
            None => None,
        }
    }
}

/// Appends workspace updates, in order, as client updates.
fn append_workspace_updates(out: &mut Vec<ClientUpdate>, updates: Vec<WorkspaceUpdate>)
    ensures
        client_update_views(final(out)@) == client_update_views(old(out)@) + as_client_updates(
            update_views(updates@),
        ),
{
    let ghost start = client_update_views(out@);
    let ghost all = updates@;
    for u in it: updates.into_iter()
        invariant
            it.seq() == all,
            client_update_views(out@) == start + as_client_updates(
                update_views(all.take(it.index() as int)),
            ),
    {
        let ghost before = out@;
        out.push(ClientUpdate::Workspace(u));
        assert(all.take(it.index() + 1) =~= all.take(it.index() as int).push(u));
        assert(client_update_views(out@) =~= client_update_views(before).push(ClientUpdateView::Workspace(u@)));
        assert(as_client_updates(update_views(all.take(it.index() + 1))) =~= as_client_updates(update_views(all.take(it.index() as int))).push(ClientUpdateView::Workspace(u@)));
    }
    assert(all.take(all.len() as int) =~= all);
}

} // verus!
