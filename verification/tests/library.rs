use triad_client::{
    decode_event, decode_reply, event_stream_fields, focus_request, next_layout_request,
    socket_location, workspace_updates, Client, ClientUpdate, DecodedEvent, EventError,
    EventMessage, EventPayload, KeyboardLayoutUpdate, KeyboardLayouts, LinkAction, LinkEvent,
    NativeEnvelope, NativeReply, Phase, RawLayout, RawState, RawWorkspace, ReplyError,
    RequestValue, SocketLocation, StateRequest, Supervisor, TriadWorkspace, Visibility, Workspace,
    WorkspaceUpdate,
};
use triad_client::decimal::u32_to_decimal;

fn raw(tag_id: u64, idx: u32) -> RawWorkspace {
    RawWorkspace { tag_id, workspace_idx: idx, ..RawWorkspace::default() }
}

fn tw(raw: RawWorkspace) -> TriadWorkspace {
    TriadWorkspace::from(raw)
}

fn field_names(fields: &[(String, RequestValue)]) -> Vec<&str> {
    fields.iter().map(|(k, _)| k.as_str()).collect()
}

fn state_with_layouts(names: &[&str], current: Option<u32>, idx: u32) -> RawState {
    RawState {
        layout: RawLayout::default(),
        keyboard_layouts: KeyboardLayouts {
            names: names.iter().map(|s| s.to_string()).collect(),
            current_idx: idx,
        },
        current_keyboard_layout_idx: current,
    }
}

#[test]
fn decimal_rendering_matches_std() {
    for n in [0u32, 7, 9, 10, 42, 100, 65535, u32::MAX] {
        assert_eq!(u32_to_decimal(n), n.to_string());
    }
}

#[test]
fn unnamed_workspace_is_named_by_index_and_has_no_monitor() {
    let w = Workspace::from(raw(5, 12));
    assert_eq!(w.name, "12");
    assert_eq!(w.monitor, "");
    assert_eq!(w.id, 5);
    assert_eq!(w.index, 12);
    assert_eq!(w.visibility, Visibility::Hidden);
}

#[test]
fn named_workspace_keeps_name_and_output() {
    let w = Workspace::from(RawWorkspace {
        name: Some("web".into()),
        output: Some("DP-1".into()),
        ..raw(1, 3)
    });
    assert_eq!(w.name, "web");
    assert_eq!(w.monitor, "DP-1");
}

#[test]
fn active_wins_over_output_visible() {
    let w = Workspace::from(RawWorkspace { is_active: true, is_output_visible: true, ..raw(1, 1) });
    assert_eq!(w.visibility, Visibility::focused());
    let v = Workspace::from(RawWorkspace { is_output_visible: true, ..raw(1, 1) });
    assert_eq!(v.visibility, Visibility::visible());
    assert!(!v.visibility.is_focused());
}

#[test]
fn large_tag_id_wraps_to_negative_id() {
    let w = Workspace::from(raw(u64::MAX, 0));
    assert_eq!(w.id, -1);
}

#[test]
fn first_snapshot_is_announced_whole() {
    let new = vec![tw(raw(1, 1)), tw(raw(2, 2))];
    let updates = workspace_updates(&[], &new);
    assert_eq!(updates.len(), 1);
    match &updates[0] {
        WorkspaceUpdate::Init(list) => {
            assert_eq!(list.iter().map(|w| w.id).collect::<Vec<_>>(), vec![1, 2]);
        }
        other => panic!("unexpected {other:?}"),
    }
}

#[test]
fn empty_to_empty_announces_empty_init() {
    let updates = workspace_updates(&[], &[]);
    assert!(matches!(&updates[..], [WorkspaceUpdate::Init(list)] if list.is_empty()));
}

#[test]
fn added_and_removed_workspaces() {
    let old = vec![tw(raw(1, 1)), tw(raw(2, 2))];
    let new = vec![tw(raw(2, 2)), tw(raw(3, 3))];
    let updates = workspace_updates(&old, &new);
    assert_eq!(updates.len(), 2);
    assert!(matches!(&updates[0], WorkspaceUpdate::Add(w) if w.id == 3));
    assert!(matches!(&updates[1], WorkspaceUpdate::Remove(1)));
}

#[test]
fn rename_move_focus_urgent_in_order() {
    let old = vec![
        tw(RawWorkspace { is_active: true, ..raw(1, 1) }),
        tw(raw(2, 2)),
    ];
    let new = vec![
        tw(raw(1, 1)),
        tw(RawWorkspace {
            name: Some("mail".into()),
            output: Some("HDMI-1".into()),
            is_active: true,
            is_urgent: true,
            ..raw(2, 2)
        }),
    ];
    let updates = workspace_updates(&old, &new);
    assert_eq!(updates.len(), 4, "{updates:?}");
    assert!(matches!(&updates[0], WorkspaceUpdate::Rename { id: 2, name } if name == "mail"));
    assert!(matches!(&updates[1], WorkspaceUpdate::Move(w) if w.id == 2 && w.monitor == "HDMI-1"));
    match &updates[2] {
        WorkspaceUpdate::Focus { old: Some(o), new } => {
            assert_eq!(o.id, 1);
            assert_eq!(new.id, 2);
        }
        other => panic!("unexpected {other:?}"),
    }
    assert!(matches!(&updates[3], WorkspaceUpdate::Urgent { id: 2, urgent: true }));
}

#[test]
fn focus_without_previous_focus() {
    let old = vec![tw(raw(1, 1))];
    let new = vec![tw(RawWorkspace { is_active: true, ..raw(1, 1) })];
    let updates = workspace_updates(&old, &new);
    assert!(matches!(&updates[..], [WorkspaceUpdate::Focus { old: None, new }] if new.id == 1));
}

#[test]
fn index_change_is_a_move() {
    let old = vec![tw(RawWorkspace { name: Some("a".into()), ..raw(1, 1) })];
    let new = vec![tw(RawWorkspace { name: Some("a".into()), ..raw(1, 4) })];
    let updates = workspace_updates(&old, &new);
    assert!(matches!(&updates[..], [WorkspaceUpdate::Move(w)] if w.index == 4));
}

#[test]
fn same_report_twice_is_quiet() {
    let mut client = Client::new();
    let report = vec![raw(1, 1), RawWorkspace { is_active: true, ..raw(2, 2) }];
    let first = client.apply_workspaces(report.clone());
    assert_eq!(first.len(), 1);
    let second = client.apply_workspaces(report);
    assert!(second.is_empty());
}

#[test]
fn duplicate_tags_are_not_quiet() {
    let report = vec![
        RawWorkspace { name: Some("x".into()), ..raw(1, 1) },
        RawWorkspace { name: Some("y".into()), ..raw(1, 2) },
    ];
    let snapshot: Vec<TriadWorkspace> = report.iter().cloned().map(tw).collect();
    let updates = workspace_updates(&snapshot, &snapshot);
    assert!(!updates.is_empty());
}

#[test]
fn keyboard_layout_selection() {
    assert_eq!(
        state_with_layouts(&["us", "de"], None, 1).keyboard_layout().map(|l| l.0),
        Some("de".to_string())
    );
    assert_eq!(
        state_with_layouts(&["us", "de"], Some(0), 1).keyboard_layout().map(|l| l.0),
        Some("us".to_string())
    );
    assert!(state_with_layouts(&["us", "de"], Some(2), 0).keyboard_layout().is_none());
    assert!(state_with_layouts(&[], None, 0).keyboard_layout().is_none());
}

#[test]
fn names_form_starts_at_first_layout() {
    let k = KeyboardLayouts::from_names(vec!["us".into(), "fr".into()]);
    assert_eq!(k.current_idx, 0);
    assert_eq!(k.names.len(), 2);
}

#[test]
fn keyboard_layout_change_is_announced_once() {
    let mut client = Client::new();
    let de = Some(KeyboardLayoutUpdate("de".into()));
    assert_eq!(client.apply_keyboard_layout(de.clone()).map(|l| l.0), Some("de".into()));
    assert!(client.apply_keyboard_layout(de).is_none());
    assert!(client.apply_keyboard_layout(None).is_none());
    assert!(client.keyboard_layout().is_none());
    assert!(client.layout_snapshot().is_none());
}

#[test]
fn state_report_announces_layout_then_workspaces() {
    let mut client = Client::new();
    let mut state = state_with_layouts(&["us"], None, 0);
    state.layout.workspaces = vec![raw(7, 1)];
    let updates = client.apply_event(EventMessage::State(state));
    assert_eq!(updates.len(), 2);
    assert!(matches!(&updates[0], ClientUpdate::KeyboardLayout(l) if l.0 == "us"));
    assert!(matches!(&updates[1], ClientUpdate::Workspace(WorkspaceUpdate::Init(l)) if l.len() == 1));
    assert_eq!(client.layout_snapshot().map(|l| l.0), Some("us".into()));
    assert!(matches!(client.workspace_snapshot(), Some(WorkspaceUpdate::Init(l)) if l[0].id == 7));
}

#[test]
fn unknown_event_changes_nothing() {
    let mut client = Client::new();
    let updates = client.apply_event(EventMessage::Unknown(Some("window-changed".into())));
    assert!(updates.is_empty());
    assert!(client.workspaces().is_empty());
    assert!(client.workspace_snapshot().is_none());
}

#[test]
fn layout_event_keeps_keyboard_layout() {
    let mut client = Client::new();
    client.apply_keyboard_layout(Some(KeyboardLayoutUpdate("us".into())));
    let updates = client.apply_event(EventMessage::Layout(RawLayout { workspaces: vec![raw(1, 1)] }));
    assert_eq!(updates.len(), 1);
    assert_eq!(client.layout_snapshot().map(|l| l.0), Some("us".into()));
}

#[test]
fn subscribers_see_only_their_updates() {
    let w = ClientUpdate::Workspace(WorkspaceUpdate::Remove(3));
    let k = ClientUpdate::KeyboardLayout(KeyboardLayoutUpdate("de".into()));
    assert!(matches!(w.clone().into_workspace_update(), Some(WorkspaceUpdate::Remove(3))));
    assert!(w.into_keyboard_layout_update().is_none());
    assert!(k.clone().into_workspace_update().is_none());
    assert_eq!(k.into_keyboard_layout_update().map(|l| l.0), Some("de".into()));
}

#[test]
fn requests_carry_their_fields() {
    let fields = StateRequest::State.into_fields();
    assert_eq!(field_names(&fields), vec!["version", "request"]);
    assert!(matches!(&fields[0].1, RequestValue::Int(1)));
    assert!(matches!(&fields[1].1, RequestValue::Text(t) if t == "state"));

    let fields = focus_request(4).into_fields();
    assert_eq!(field_names(&fields), vec!["version", "request", "action", "tag"]);
    assert!(matches!(&fields[2].1, RequestValue::Text(t) if t == "focus-tag"));
    assert!(matches!(&fields[3].1, RequestValue::Int(4)));

    let fields = next_layout_request().into_fields();
    assert_eq!(field_names(&fields), vec!["version", "request", "action", "layout"]);
    assert!(matches!(&fields[2].1, RequestValue::Text(t) if t == "switch-keyboard-layout"));
    assert!(matches!(&fields[3].1, RequestValue::Text(t) if t == "next"));

    let fields = event_stream_fields();
    assert_eq!(field_names(&fields), vec!["version", "request", "events"]);
    assert!(matches!(&fields[1].1, RequestValue::Text(t) if t == "event-stream"));
    assert!(matches!(&fields[2].1, RequestValue::TextList(l) if l == &vec!["state".to_string(), "layout".to_string()]));
}

#[test]
fn reply_errors() {
    let refused = decode_reply(NativeEnvelope { ok: false, error: Some("no such tag".into()), triad: None });
    assert!(matches!(&refused, Err(ReplyError::Failed(m)) if m == "no such tag"));
    let refused = decode_reply(NativeEnvelope {
        ok: false,
        error: None,
        triad: Some(NativeReply { state: RawState::default() }),
    });
    match refused {
        Err(e) => assert_eq!(e.message(), "Triad request failed"),
        Ok(_) => panic!("expected refusal"),
    }
    match decode_reply(NativeEnvelope { ok: true, error: None, triad: None }) {
        Err(e) => {
            assert!(matches!(e, ReplyError::MissingResponse));
            assert_eq!(e.message(), "missing Triad response");
        }
        Ok(_) => panic!("expected missing response"),
    }
    let mut state = RawState::default();
    state.current_keyboard_layout_idx = Some(3);
    let reply = decode_reply(NativeEnvelope { ok: true, error: Some("ignored".into()), triad: Some(NativeReply { state }) });
    assert_eq!(reply.expect("reply").state.current_keyboard_layout_idx, Some(3));
}

#[test]
fn event_errors() {
    let missing = decode_event::<u8>(EventPayload { event: Some("state-changed".into()), state: None });
    assert_eq!(missing.err(), Some(EventError::MissingStatePayload));
    let missing = decode_event::<u8>(EventPayload { event: Some("layout-state-changed".into()), state: None });
    let error = missing.err().expect("error");
    assert_eq!(error, EventError::MissingLayoutPayload);
    assert_eq!(error.message(), "missing Triad layout event payload");
    assert_eq!(EventError::MissingStatePayload.message(), "missing Triad state event payload");
    let unnamed = decode_event(EventPayload { event: None, state: Some(1u8) });
    assert!(matches!(unnamed, Ok(DecodedEvent::Unknown(None))));
    let state = decode_event(EventPayload { event: Some("state-changed".into()), state: Some(9u8) });
    assert!(matches!(state, Ok(DecodedEvent::State(9))));
}

#[test]
fn socket_choice() {
    assert!(matches!(socket_location(Some("/run/t.sock".into()), true), SocketLocation::Explicit(p) if p == "/run/t.sock"));
    assert!(matches!(socket_location(Some(String::new()), true), SocketLocation::RuntimeDir));
    assert!(matches!(socket_location(None, true), SocketLocation::RuntimeDir));
    assert!(matches!(socket_location(None, false), SocketLocation::Fallback));
}

#[test]
fn supervisor_loads_then_streams_and_reconnects() {
    let mut client = Client::new();
    let (mut sup, first) = Supervisor::start();
    assert_eq!(first, LinkAction::RequestState { pause: false });
    let (a, u) = sup.step(&mut client, LinkEvent::StateFailed);
    assert_eq!(a, LinkAction::RequestState { pause: true });
    assert!(u.is_empty());
    let mut state = RawState::default();
    state.layout.workspaces = vec![raw(1, 1)];
    let (a, u) = sup.step(&mut client, LinkEvent::StateLoaded(state));
    assert_eq!(a, LinkAction::Connect { pause: false });
    assert_eq!(u.len(), 1);
    assert_eq!(sup.current_phase(), Phase::Connecting);
    let (a, _) = sup.step(&mut client, LinkEvent::ConnectFailed);
    assert_eq!(a, LinkAction::Connect { pause: true });
    let (a, _) = sup.step(&mut client, LinkEvent::Connected);
    assert_eq!(a, LinkAction::ReadNext);
    let (a, u) = sup.step(
        &mut client,
        LinkEvent::Received(EventMessage::Layout(RawLayout { workspaces: vec![raw(1, 1), raw(2, 2)] })),
    );
    assert_eq!(a, LinkAction::ReadNext);
    assert!(matches!(&u[..], [ClientUpdate::Workspace(WorkspaceUpdate::Add(w))] if w.id == 2));
    let (a, _) = sup.step(&mut client, LinkEvent::StreamClosed);
    assert_eq!(a, LinkAction::Connect { pause: true });
    assert_eq!(sup.current_phase(), Phase::Connecting);
}

#[test]
fn supervisor_ignores_events_of_other_phases() {
    let mut client = Client::new();
    let (mut sup, _) = Supervisor::start();
    let (a, u) = sup.step(
        &mut client,
        LinkEvent::Received(EventMessage::Layout(RawLayout { workspaces: vec![raw(1, 1)] })),
    );
    assert_eq!(a, LinkAction::RequestState { pause: true });
    assert!(u.is_empty());
    assert!(client.workspaces().is_empty());
    assert_eq!(sup.current_phase(), Phase::LoadingState);
}
