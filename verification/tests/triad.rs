use serde_json::Value;
use triad_client::{
    decode_event, workspace_updates, DecodedEvent, EventPayload, KeyboardLayouts, RawLayout,
    RawState, RawWorkspace, TriadWorkspace, Workspace, WorkspaceUpdate,
};

fn text(value: Option<&Value>) -> Option<String> {
    value.and_then(Value::as_str).map(str::to_string)
}

fn raw_workspace(value: &Value) -> RawWorkspace {
    let flag = |key: &str| value.get(key).and_then(Value::as_bool).unwrap_or(false);
    RawWorkspace {
        tag_id: value.get("tag_id").and_then(Value::as_u64).unwrap_or(0),
        workspace_idx: value
            .get("workspace_idx")
            .and_then(Value::as_u64)
            .map(|v| v as u32)
            .unwrap_or(0),
        name: text(value.get("name")),
        output: text(value.get("output")),
        is_active: flag("is_active"),
        is_output_visible: flag("is_output_visible"),
        is_urgent: flag("is_urgent"),
    }
}

fn raw_layout(value: &Value) -> RawLayout {
    RawLayout {
        workspaces: value
            .get("workspaces")
            .and_then(Value::as_array)
            .map(|list| list.iter().map(raw_workspace).collect())
            .unwrap_or_default(),
    }
}

fn names(value: &Value) -> Vec<String> {
    value
        .as_array()
        .map(|list| list.iter().filter_map(Value::as_str).map(str::to_string).collect())
        .unwrap_or_default()
}

fn raw_state(value: &Value) -> RawState {
    let keyboard_layouts = match value.get("keyboard_layouts") {
        Some(Value::Array(_)) => KeyboardLayouts::from_names(names(&value["keyboard_layouts"])),
        Some(object @ Value::Object(_)) => KeyboardLayouts {
            names: object.get("names").map(names).unwrap_or_default(),
            current_idx: object
                .get("current_idx")
                .and_then(Value::as_u64)
                .map(|v| v as u32)
                .unwrap_or(0),
        },
        _ => KeyboardLayouts::default(),
    };
    RawState {
        layout: value.get("layout").map(raw_layout).unwrap_or_default(),
        keyboard_layouts,
        current_keyboard_layout_idx: value
            .get("current_keyboard_layout_idx")
            .and_then(Value::as_u64)
            .map(|v| v as u32),
    }
}

fn payload(line: &str) -> EventPayload<Value> {
    let envelope: Value = serde_json::from_str(line).expect("event to parse");
    let triad = &envelope["triad"];
    EventPayload {
        event: text(triad.get("event")),
        state: triad.get("state").cloned(),
    }
}

#[test]
fn parses_keyboard_layouts_from_vector_form() {
    let value: Value = serde_json::from_str(
        r#"{"keyboard_layouts":["us","de"],"current_keyboard_layout_idx":1}"#,
    )
    .expect("state to parse");
    let state = raw_state(&value);

    assert_eq!(
        state.keyboard_layout().map(|layout| layout.0),
        Some("de".into())
    );
}

#[test]
fn parses_keyboard_layouts_from_object_form() {
    let value: Value = serde_json::from_str(
        r#"{"keyboard_layouts":{"names":["us","de"],"current_idx":1}}"#,
    )
    .expect("state to parse");
    let state = raw_state(&value);

    assert_eq!(
        state.keyboard_layout().map(|layout| layout.0),
        Some("de".into())
    );
}

#[test]
fn maps_workspace_visibility() {
    let focused = Workspace::from(RawWorkspace {
        tag_id: 1,
        workspace_idx: 1,
        is_active: true,
        ..RawWorkspace::default()
    });
    let visible = Workspace::from(RawWorkspace {
        tag_id: 2,
        workspace_idx: 2,
        is_output_visible: true,
        ..RawWorkspace::default()
    });
    let hidden = Workspace::from(RawWorkspace {
        tag_id: 3,
        workspace_idx: 3,
        ..RawWorkspace::default()
    });

    assert!(focused.visibility.is_focused());
    assert!(visible.visibility.is_visible());
    assert!(!hidden.visibility.is_visible());
}

#[test]
fn decodes_layout_event_payload() {
    let event = decode_event(payload(
        r#"{"triad":{"version":1,"event":"layout-state-changed","state":{"workspaces":[{"tag_id":2,"workspace_idx":2,"is_output_visible":true}]}}}"#,
    ))
    .expect("event to parse");

    let DecodedEvent::Layout(layout) = event else {
        panic!("expected layout event");
    };
    let layout = raw_layout(&layout);

    assert_eq!(layout.workspaces.len(), 1);
    assert_eq!(layout.workspaces[0].tag_id, 2);
}

#[test]
fn decodes_state_event_payload() {
    let event = decode_event(payload(
        r#"{"triad":{"version":1,"event":"state-changed","state":{"layout":{"workspaces":[{"tag_id":3,"workspace_idx":3,"is_active":true}]}}}}"#,
    ))
    .expect("event to parse");

    let DecodedEvent::State(state) = event else {
        panic!("expected state event");
    };
    let state = raw_state(&state);

    assert_eq!(state.layout.workspaces.len(), 1);
    assert_eq!(state.layout.workspaces[0].tag_id, 3);
}

#[test]
fn ignores_unknown_event_payload() {
    let event = decode_event(payload(
        r#"{"triad":{"version":1,"event":"window-changed","window":{"id":1,"title":"Changed"}}}"#,
    ))
    .expect("event to parse");

    let DecodedEvent::Unknown(event) = event else {
        panic!("expected unknown event");
    };

    assert_eq!(event.as_deref(), Some("window-changed"));
}

#[test]
fn reports_workspace_urgent_updates() {
    let old_workspaces = vec![TriadWorkspace::from(RawWorkspace {
        tag_id: 1,
        workspace_idx: 1,
        is_urgent: false,
        ..RawWorkspace::default()
    })];
    let new_workspaces = vec![TriadWorkspace::from(RawWorkspace {
        tag_id: 1,
        workspace_idx: 1,
        is_urgent: true,
        ..RawWorkspace::default()
    })];

    let updates = workspace_updates(&old_workspaces, &new_workspaces);

    assert!(updates.iter().any(|update| {
        matches!(
            update,
            WorkspaceUpdate::Urgent {
                id: 1,
                urgent: true
            }
        )
    }));
}
