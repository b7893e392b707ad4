use herdr_dock::chrome::{MouseButton, MouseEvent, MouseEventKind};
use herdr_dock::client::{
    ClientEndpointId, ClientMessage, ClientShellAction, ClientShellConfig, ClientShellEndpointError, ClientShellInput,
    ClientShellState, EndpointMethod, PendingEndpointKind, ResponseResult,
};
use herdr_dock::dock::{PaneDock, TabIdentities, WorkspaceArea};
use herdr_dock::geometry::Rect;
use herdr_dock::persistent_area::{DockPlacement, PersistentAreaSettings};
use herdr_dock::snapshot::{ClientShellSnapshot, PaneSummary, TabSummary};
use herdr_dock::str_map::StrMap;

fn snapshot() -> ClientShellSnapshot {
    ClientShellSnapshot {
        boot_id: "boot-1".into(),
        revision: 1,
        focused_workspace_id: Some("ws_1".into()),
        focused_tab_id: Some("tab_1".into()),
        focused_pane_id: Some("pane_1".into()),
        tabs: vec![TabSummary { tab_id: "tab_1".into(), workspace_id: "ws_1".into(), focused: true }],
        panes: vec![PaneSummary { pane_id: "pane_1".into(), tab_id: "tab_1".into(), workspace_id: "ws_1".into() }],
    }
}

fn projected() -> ClientShellSnapshot {
    let mut snap = snapshot();
    let mut tab = snap.tabs[0].clone();
    tab.tab_id = "tab_persistent".into();
    tab.focused = false;
    snap.tabs.push(tab);
    let mut pane = snap.panes[0].clone();
    pane.pane_id = "persistent_pane".into();
    pane.tab_id = "tab_persistent".into();
    snap.panes.push(pane);
    snap
}

fn identities() -> TabIdentities {
    let mut ids = StrMap::new();
    ids.insert("tab_persistent".into(), "durable-tab-token".into());
    TabIdentities { persistent_tab_ids: ids }
}

fn local() -> String {
    ClientEndpointId::Local.storage_key()
}

fn install_area(state: &mut ClientShellState, snap: &ClientShellSnapshot, placement: DockPlacement) {
    state.set_sticky_supported(&ClientEndpointId::Local, true);
    state.accept_persistent_identities(&ClientEndpointId::Local, 1, snap, identities());
    state.set_snapshot(snap.clone());
    let mut settings = PersistentAreaSettings::default();
    settings.placement = placement;
    settings.set_percent(40);
    let mut areas = StrMap::new();
    areas.insert("ws_1".into(), WorkspaceArea { tab_id: "tab_persistent".into(), enabled: true, settings });
    state.sticky.insert(
        local(),
        PaneDock { boot_id: snap.boot_id.clone(), areas, pane_ids: Vec::new(), focus: None },
    );
}

#[test]
fn persistent_preferences_survive_client_and_server_restart_without_creation() {
    let mut original = ClientShellState::new(ClientShellConfig::default());
    let mut snap = projected();
    install_area(&mut original, &snap, DockPlacement::Bottom);
    let mut sent = ClientShellInput::default();
    original.send_sticky(&mut sent);
    assert!(matches!(sent.requests.last(), Some(ClientMessage::EndpointControl { .. })));
    // What sending the dock saved, and marked for writing to the preferences file.
    assert!(original.preferences_dirty);
    let saved = original.config.persistent_areas.clone();
    assert_eq!(saved.len(), 1);
    assert_eq!(saved[0].persistent_tab_id, "durable-tab-token");
    for new_boot in [false, true] {
        let mut restored = ClientShellState::new(ClientShellConfig { persistent_areas: saved.clone() });
        if new_boot {
            snap.boot_id = "new-boot".into();
        }
        restored.set_sticky_supported(&ClientEndpointId::Local, true);
        restored.accept_persistent_identities(&ClientEndpointId::Local, 2, &snap, identities());
        restored.set_snapshot(snap.clone());
        let area = restored.persistent_area().unwrap();
        assert_eq!(area.settings, saved[0].area.settings);
        assert!(restored.persistent_tab_is_hidden(&"tab_persistent".to_string()));
        assert!(restored.pending_requests.is_empty(), "restore never creates a tab");
        assert!(restored.persistent_replay().is_some());
        assert!(restored.persistent_replay().is_none(), "no feedback loop");
        restored.set_sticky_supported(&ClientEndpointId::Local, true);
        restored.accept_persistent_identities(&ClientEndpointId::Local, 3, &snap, identities());
        assert!(restored.persistent_replay().is_some(), "same-boot reconnect replays");
        restored.toggle_persistent_area(&mut ClientShellInput::default());
        assert!(!restored.persistent_area().unwrap().enabled);
        restored.toggle_persistent_area(&mut ClientShellInput::default());
        assert!(restored.pending_requests.is_empty(), "reuse backing tab");
    }
}

#[test]
fn persistent_restore_rejects_recycled_ids_missing_capability_and_other_endpoints() {
    let mut state = ClientShellState::new(ClientShellConfig::default());
    let snap = projected();
    install_area(&mut state, &snap, DockPlacement::Right);
    state.persist_persistent_areas();
    let prefs = state.config.persistent_areas.clone();
    for (supported, endpoint, token) in [
        (false, "local", "durable-tab-token"),
        (true, "other", "durable-tab-token"),
        (true, "local", "new-unrelated-tab"),
    ] {
        let mut config = ClientShellConfig { persistent_areas: prefs.clone() };
        config.persistent_areas[0].endpoint = endpoint.into();
        let mut restored = ClientShellState::new(config);
        restored.set_sticky_supported(&ClientEndpointId::Local, supported);
        let mut ids = identities();
        ids.persistent_tab_ids.insert("tab_persistent".into(), token.into());
        restored.accept_persistent_identities(&ClientEndpointId::Local, 1, &snap, ids);
        restored.set_snapshot(snap.clone());
        assert!(restored.persistent_area().is_none());
        assert!(restored.pending_requests.is_empty());
    }
}

#[test]
fn stale_identities_are_ignored_and_ambiguous_tokens_adopt_nothing() {
    let mut state = ClientShellState::new(ClientShellConfig::default());
    let snap = projected();
    install_area(&mut state, &snap, DockPlacement::Right);
    state.persist_persistent_areas();
    let prefs = state.config.persistent_areas.clone();
    // Two tabs of the workspace carry the saved token: nothing is adopted.
    let mut twice = projected();
    let mut extra = twice.tabs[1].clone();
    extra.tab_id = "tab_copy".into();
    twice.tabs.push(extra);
    let mut restored = ClientShellState::new(ClientShellConfig { persistent_areas: prefs.clone() });
    restored.set_sticky_supported(&ClientEndpointId::Local, true);
    let mut ids = identities();
    ids.persistent_tab_ids.insert("tab_copy".into(), "durable-tab-token".into());
    restored.accept_persistent_identities(&ClientEndpointId::Local, 1, &twice, ids);
    restored.set_snapshot(twice.clone());
    assert!(restored.persistent_area().is_none());
    // Identities of an older generation do not replace newer ones.
    let mut restored = ClientShellState::new(ClientShellConfig { persistent_areas: prefs });
    restored.set_sticky_supported(&ClientEndpointId::Local, true);
    restored.accept_persistent_identities(&ClientEndpointId::Local, 5, &snap, identities());
    let before = restored.persistent_identities.get(&local()).unwrap().generation;
    restored.accept_persistent_identities(&ClientEndpointId::Local, 4, &snap, TabIdentities { persistent_tab_ids: StrMap::new() });
    assert_eq!(before, 5);
    assert_eq!(restored.persistent_identities.get(&local()).unwrap().generation, 5);
}

#[test]
fn toggle_creates_then_completes_and_shows_the_area() {
    let mut state = ClientShellState::new(ClientShellConfig::default());
    state.set_snapshot(snapshot());
    state.set_sticky_supported(&ClientEndpointId::Local, true);
    let mut outcome = ClientShellInput::default();
    state.toggle_persistent_area(&mut outcome);
    assert!(outcome.repaint);
    assert!(matches!(&outcome.actions[..], [ClientShellAction::Endpoint { request: EndpointMethod::TabCreate { label, focus: false, workspace_id }, .. }]
        if label == "Persistent" && workspace_id == "ws_1"));
    // A second toggle while the creation is awaited does nothing.
    let mut again = ClientShellInput::default();
    state.toggle_persistent_area(&mut again);
    assert!(again.actions.is_empty());
    let (done, actions) = state.complete_persistent_create(
        "ws_1".into(),
        Some("pane_1".into()),
        Ok(ResponseResult::TabCreated { tab_id: "tab_new".into(), root_pane_id: "pane_new".into() }),
    );
    assert!(done);
    assert_eq!(actions.len(), 2);
    assert!(matches!(&actions[0], ClientShellAction::PaneDock { dock, .. } if dock.pane_ids == vec!["pane_new".to_string()]));
    assert!(matches!(&actions[1], ClientShellAction::Endpoint { request: EndpointMethod::PaneMove { pane_id, tab_id, focus: false }, .. }
        if pane_id == "pane_1" && tab_id == "tab_new"));
    let area = state.persistent_area().unwrap();
    assert!(area.enabled);
    assert_eq!(area.tab_id, "tab_new");
    assert_eq!(area.settings, PersistentAreaSettings::default());
    // Failed responses are consumed without effect.
    let (done, actions) = state.complete_persistent_create(
        "ws_1".into(),
        None,
        Err(ClientShellEndpointError { message: "nope".into() }),
    );
    assert!(done && actions.is_empty());
}

#[test]
fn completion_waits_for_a_snapshot() {
    let mut state = ClientShellState::new(ClientShellConfig::default());
    let (done, actions) = state.complete_persistent_create(
        "ws_1".into(),
        None,
        Ok(ResponseResult::TabCreated { tab_id: "t".into(), root_pane_id: "p".into() }),
    );
    assert!(!done && actions.is_empty());
}

#[test]
fn placement_rotation_resize_and_hit_testing() {
    let mut state = ClientShellState::new(ClientShellConfig::default());
    let snap = projected();
    install_area(&mut state, &snap, DockPlacement::Right);
    let mut outcome = ClientShellInput::default();
    state.change_persistent_placement(&mut outcome);
    assert_eq!(state.persistent_area().unwrap().settings.placement, DockPlacement::Bottom);
    assert_eq!(outcome.requests.len(), 1);
    match &outcome.requests[0] {
        ClientMessage::EndpointControl { kind, dock } => {
            assert_eq!(kind, "shell.pane-dock.v1");
            assert_eq!(dock.areas.get(&"ws_1".to_string()).unwrap().settings.placement, DockPlacement::Bottom);
        },
    }
    state.change_persistent_placement(&mut outcome);
    assert_eq!(state.persistent_area().unwrap().settings.placement, DockPlacement::Right);
    // Dragging the divider to column 60 of a 101-wide surface: 40 of the
    // 100 usable columns lie after it.
    let surface = Rect::new(0, 0, 101, 20);
    state.resize_persistent_area(Some(surface), (60, 5), &mut outcome);
    assert_eq!(state.persistent_area().unwrap().settings.percent(), 40);
    // Dragging beyond the range clamps.
    state.resize_persistent_area(Some(surface), (1, 5), &mut outcome);
    assert_eq!(state.persistent_area().unwrap().settings.percent(), 75);
    // The persistent region (right 75 columns of 100) maps to its tab.
    let layout = state.persistent_area().unwrap().settings.layout(surface);
    assert_eq!(layout.persistent, Rect::new(26, 0, 75, 20));
    assert_eq!(state.persistent_tab_at(Some(surface), (50, 3)).as_deref(), Some("tab_persistent"));
    assert_eq!(state.persistent_tab_at(Some(surface), (10, 3)), None);
    assert_eq!(state.persistent_tab_at(None, (50, 3)), None);
}

#[test]
fn moving_panes_into_and_out_of_the_area() {
    let mut state = ClientShellState::new(ClientShellConfig::default());
    let snap = projected();
    install_area(&mut state, &snap, DockPlacement::Right);
    let mut outcome = ClientShellInput::default();
    // A pane of the focused tab moves into the area's tab.
    state.move_to_persistent_area("pane_1".into(), &mut outcome);
    assert!(matches!(&outcome.actions[..], [ClientShellAction::Endpoint { request: EndpointMethod::PaneMove { tab_id, .. }, .. }]
        if tab_id == "tab_persistent"));
    assert_eq!(outcome.requests.len(), 1);
    // A pane of the area moves back to the focused tab.
    let mut back = ClientShellInput::default();
    state.move_to_persistent_area("persistent_pane".into(), &mut back);
    assert!(matches!(&back.actions[..], [ClientShellAction::Endpoint { request: EndpointMethod::PaneMove { tab_id, .. }, .. }]
        if tab_id == "tab_1"));
    assert!(state.pending_requests.iter().all(|p| matches!(p.kind, PendingEndpointKind::Request)));
}

#[test]
fn sending_the_dock_saves_the_area_except_while_dragging() {
    let mut state = ClientShellState::new(ClientShellConfig::default());
    let snap = projected();
    install_area(&mut state, &snap, DockPlacement::Right);
    state.persistent_drag = true;
    let mut outcome = ClientShellInput::default();
    state.send_sticky(&mut outcome);
    assert_eq!(outcome.requests.len(), 1);
    assert!(state.config.persistent_areas.is_empty(), "no writes during a drag");
    assert!(!state.preferences_dirty);
    state.persistent_drag = false;
    state.send_sticky(&mut outcome);
    assert_eq!(outcome.requests.len(), 2);
    assert_eq!(state.config.persistent_areas.len(), 1);
    assert_eq!(state.config.persistent_areas[0].workspace_id, "ws_1");
    assert_eq!(state.config.persistent_areas[0].area.settings.percent(), 40);
    assert!(state.preferences_dirty);
}

#[test]
fn releasing_a_drag_on_the_last_row_resizes_a_right_area() {
    let mut state = ClientShellState::new(ClientShellConfig::default());
    let snap = projected();
    install_area(&mut state, &snap, DockPlacement::Right);
    state.persistent_drag = true;
    let surface = Rect::new(0, 0, 100, 20);
    let mut outcome = ClientShellInput::default();
    let release = MouseEvent { kind: MouseEventKind::Up(MouseButton::Left), column: 60, row: u16::MAX };
    assert!(state.handle_persistent_mouse(release, Some(surface), &mut outcome));
    assert!(!state.persistent_drag);
    // 39 of the 99 usable columns lie after column 60.
    assert_eq!(state.persistent_area().unwrap().settings.percent(), 39);
    // The release also saves the new share.
    assert_eq!(state.config.persistent_areas[0].area.settings.percent(), 39);
    assert!(state.resize_point_in_range(Some(surface), (60, u16::MAX)));
    assert!(!state.resize_point_in_range(Some(surface), (u16::MAX, 3)));
}
