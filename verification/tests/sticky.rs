use herdr_dock::client::{
    ClientEndpointId, ClientShellAction, ClientShellConfig, ClientShellInput, ClientShellState, EndpointMethod,
    PendingEndpointKind,
};
use herdr_dock::menu::ClientContextMenuAction;
use herdr_dock::snapshot::{ClientShellSnapshot, PaneSummary, TabSummary};

fn snapshot() -> ClientShellSnapshot {
    ClientShellSnapshot {
        boot_id: "boot-1".into(),
        revision: 1,
        focused_workspace_id: Some("ws_1".into()),
        focused_tab_id: Some("tab_1".into()),
        focused_pane_id: Some("pane_1".into()),
        tabs: vec![TabSummary { tab_id: "tab_1".into(), workspace_id: "ws_1".into(), focused: true }],
        panes: vec![PaneSummary { pane_id: "pane_1".into(), tab_id: "tab_1".into(), workspace_id: "ws_1".into() }],
    }
}

fn sticky_shell() -> ClientShellState {
    let mut state = ClientShellState::new(ClientShellConfig::default());
    state.set_snapshot(snapshot());
    state.set_sticky_supported(&ClientEndpointId::Local, true);
    state
}

#[test]
fn persistent_menu_creates_an_area_and_queues_move() {
    let mut state = sticky_shell();
    let items = state.dock_menu_items(&"pane_1".to_string());
    let index = items.iter().position(|item| item.label == "Move to persistent area").unwrap();
    let mut outcome = ClientShellInput::default();
    match items[index].action {
        ClientContextMenuAction::MoveToPersistentArea => state.move_to_persistent_area("pane_1".into(), &mut outcome),
        ClientContextMenuAction::ToggleSticky => state.toggle_sticky("pane_1".into(), &mut outcome),
    }
    assert!(matches!(&outcome.actions[..], [ClientShellAction::Endpoint { request, .. }]
        if matches!(request, EndpointMethod::TabCreate { focus, .. } if !focus)));
    assert!(state.pending_requests.iter().any(|pending| matches!(&pending.kind,
        PendingEndpointKind::PersistentCreate { move_pane: Some(pane), .. } if pane == "pane_1")));
}

#[test]
fn sticky_focus_does_not_navigate_and_is_scoped_to_workspace_and_tab() {
    let mut state = sticky_shell();
    state.toggle_sticky("pane_1".into(), &mut ClientShellInput::default());
    let mut update = snapshot();
    let mut second = update.panes[0].clone();
    second.pane_id = "pane_2".into();
    second.tab_id = "tab_2".into();
    update.panes.push(second);
    update.focused_tab_id = Some("tab_2".into());
    update.focused_pane_id = Some("pane_2".into());
    state.set_snapshot(update.clone());
    let mut outcome = ClientShellInput::default();
    state.focus_pane("pane_1".into(), &mut outcome);
    assert!(outcome.actions.is_empty(), "must not invoke shared PaneFocus");
    assert_eq!(state.focused_pane_id().as_deref(), Some("pane_1"));
    assert_eq!(state.snapshot.as_ref().unwrap().focused_tab_id.as_deref(), Some("tab_2"));
    update.focused_workspace_id = Some("ws_2".into());
    update.focused_tab_id = Some("tab_3".into());
    state.set_snapshot(update);
    assert!(!state.focus_sticky(&"pane_1".to_string(), &mut outcome));
    assert!(state.sticky_focus().is_none());
}

#[test]
fn sticky_cleanup_handles_close_restart_and_missing_capability() {
    let mut state = sticky_shell();
    state.toggle_sticky("pane_1".into(), &mut ClientShellInput::default());
    let mut update = snapshot();
    update.panes.clear();
    state.set_snapshot(update);
    assert!(!state.pane_is_sticky(&"pane_1".to_string()));
    state.set_snapshot(snapshot());
    state.toggle_sticky("pane_1".into(), &mut ClientShellInput::default());
    let mut update = snapshot();
    update.boot_id = "next-boot".into();
    state.set_snapshot(update);
    assert!(!state.pane_is_sticky(&"pane_1".to_string()));
    state.set_sticky_supported(&ClientEndpointId::Local, false);
    let items = state.dock_menu_items(&"pane_1".to_string());
    assert!(!items.iter().any(|item| item.action == ClientContextMenuAction::ToggleSticky));
}

#[test]
fn toggling_a_pane_twice_unsticks_it_and_sends_each_change() {
    let mut state = sticky_shell();
    let mut outcome = ClientShellInput::default();
    state.toggle_sticky("pane_1".into(), &mut outcome);
    assert!(state.pane_is_sticky(&"pane_1".to_string()));
    assert_eq!(outcome.requests.len(), 1);
    assert!(outcome.repaint);
    state.toggle_sticky("pane_1".into(), &mut outcome);
    assert!(!state.pane_is_sticky(&"pane_1".to_string()));
    assert_eq!(outcome.requests.len(), 2);
    let key = ClientEndpointId::Local.storage_key();
    assert_eq!(state.sticky.get(&key).unwrap().pane_ids.len(), 0);
    // Unknown panes are refused without a message.
    state.toggle_sticky("pane_9".into(), &mut outcome);
    assert_eq!(outcome.requests.len(), 2);
}

#[test]
fn sticky_panes_are_capped() {
    let mut state = ClientShellState::new(ClientShellConfig::default());
    let mut snap = snapshot();
    for i in 0..33 {
        snap.panes.push(PaneSummary { pane_id: format!("p{}", i), tab_id: "tab_2".into(), workspace_id: "ws_1".into() });
    }
    state.set_snapshot(snap);
    state.set_sticky_supported(&ClientEndpointId::Local, true);
    let mut outcome = ClientShellInput::default();
    for i in 0..32 {
        state.toggle_sticky(format!("p{}", i), &mut outcome);
    }
    assert!(state.endpoint_error.is_none());
    state.toggle_sticky("p32".into(), &mut outcome);
    assert_eq!(outcome.requests.len(), 32);
    assert!(state.endpoint_error.as_deref().unwrap().contains("32"));
    let key = ClientEndpointId::Local.storage_key();
    assert_eq!(state.sticky.get(&key).unwrap().pane_ids.len(), 32);
}

#[test]
fn unsupported_endpoint_never_gets_a_dock() {
    let mut state = ClientShellState::new(ClientShellConfig::default());
    state.set_snapshot(snapshot());
    let mut outcome = ClientShellInput::default();
    state.toggle_sticky("pane_1".into(), &mut outcome);
    state.toggle_persistent_area(&mut outcome);
    assert!(outcome.requests.is_empty() && outcome.actions.is_empty());
    assert!(state.dock_menu_items(&"pane_1".to_string()).is_empty());
    assert_eq!(ClientEndpointId::Local.storage_key(), "local");
    assert_eq!(ClientEndpointId::Remote("box".into()).storage_key(), "remote:box");
}

#[test]
fn reconcile_drops_closed_panes_and_clears_stale_focus() {
    let mut state = sticky_shell();
    let mut two = snapshot();
    two.panes.push(PaneSummary { pane_id: "pane_2".into(), tab_id: "tab_2".into(), workspace_id: "ws_1".into() });
    state.set_snapshot(two.clone());
    state.toggle_sticky("pane_2".into(), &mut ClientShellInput::default());
    assert!(state.focus_sticky(&"pane_2".to_string(), &mut ClientShellInput::default()));
    assert_eq!(state.sticky_focus().as_deref(), Some("pane_2"));
    // The focused tab changes: the dock focus is dropped.
    let mut other = two.clone();
    other.focused_tab_id = Some("tab_9".into());
    state.set_snapshot(other);
    assert!(state.sticky_focus().is_none());
    // The pane closes: it stops being sticky.
    state.set_snapshot(snapshot());
    let key = ClientEndpointId::Local.storage_key();
    assert!(state.sticky.get(&key).unwrap().pane_ids.is_empty());
}
