use herdr_dock::chrome::{control_hits, mouse_action, toggle_label, MouseButton, MouseEvent, MouseEventKind, PersistentMouseAction};
use herdr_dock::client::{ClientEndpointId, ClientShellConfig, ClientShellInput, ClientShellState, PersistentHits};
use herdr_dock::dock_layout::surface_focus;
use herdr_dock::geometry::Rect;
use herdr_dock::snapshot::{ClientShellSnapshot, PaneSummary, TabSummary};

#[test]
fn controls_are_right_aligned_in_the_bar() {
    let bar = Rect::new(0, 0, 100, 1);
    let hits = control_hits(bar, true, true);
    assert_eq!(hits.toggle, Rect::new(73, 0, 19, 1));
    assert_eq!(hits.placement, Rect::new(92, 0, 8, 1));
    assert_eq!(hits.divider, Rect::default());
    let hits = control_hits(bar, false, true);
    assert_eq!(hits.toggle, Rect::new(73, 0, 27, 1));
    assert_eq!(hits.placement, Rect::default());
    // Narrow bars use their whole width.
    let hits = control_hits(Rect::new(5, 2, 20, 3), true, true);
    assert_eq!(hits.toggle, Rect::new(5, 2, 12, 1));
    assert_eq!(hits.placement, Rect::new(17, 2, 8, 1));
    // Too narrow, empty, or unsupported: nothing.
    assert_eq!(control_hits(Rect::new(0, 0, 11, 1), true, true), PersistentHits::default());
    assert_eq!(control_hits(Rect::new(0, 0, 50, 0), true, true), PersistentHits::default());
    assert_eq!(control_hits(bar, true, false), PersistentHits::default());
    assert_eq!(toggle_label(true), " Persistent: on ");
    assert_eq!(toggle_label(false), " Persistent area + ");
}

fn at(kind: MouseEventKind, column: u16, row: u16) -> MouseEvent {
    MouseEvent { kind, column, row }
}

#[test]
fn mouse_actions_follow_the_controls_and_the_drag() {
    let hits = PersistentHits {
        toggle: Rect::new(10, 0, 5, 1),
        placement: Rect::new(15, 0, 3, 1),
        divider: Rect::new(30, 1, 1, 10),
    };
    let left = MouseButton::Left;
    assert_eq!(mouse_action(hits, false, false, at(MouseEventKind::Down(left), 11, 0)), PersistentMouseAction::Toggle);
    assert_eq!(mouse_action(hits, false, false, at(MouseEventKind::Down(left), 16, 0)), PersistentMouseAction::Rotate);
    assert_eq!(mouse_action(hits, false, false, at(MouseEventKind::Down(left), 30, 5)), PersistentMouseAction::StartDrag);
    assert_eq!(mouse_action(hits, false, false, at(MouseEventKind::Down(MouseButton::Right), 30, 5)), PersistentMouseAction::Ignore);
    assert_eq!(mouse_action(hits, true, false, at(MouseEventKind::Drag(left), 40, 5)), PersistentMouseAction::Resize);
    assert_eq!(mouse_action(hits, false, false, at(MouseEventKind::Drag(left), 40, 5)), PersistentMouseAction::Ignore);
    assert_eq!(mouse_action(hits, true, false, at(MouseEventKind::Up(left), 40, 5)), PersistentMouseAction::EndDrag);
    assert_eq!(mouse_action(hits, true, true, at(MouseEventKind::Up(left), 40, 5)), PersistentMouseAction::Ignore);
}

#[test]
fn overlay_takes_the_mouse_and_ends_the_drag() {
    let mut state = ClientShellState::new(ClientShellConfig::default());
    state.persistent_drag = true;
    state.overlay_open = true;
    let mut outcome = ClientShellInput::default();
    assert!(!state.handle_persistent_mouse(at(MouseEventKind::Drag(MouseButton::Left), 3, 3), None, &mut outcome));
    assert!(!state.persistent_drag);
    state.overlay_open = false;
    state.persistent_hits.divider = Rect::new(3, 0, 1, 9);
    assert!(state.handle_persistent_mouse(at(MouseEventKind::Down(MouseButton::Left), 3, 3), None, &mut outcome));
    assert!(state.persistent_drag);
    assert!(state.handle_persistent_mouse(at(MouseEventKind::Up(MouseButton::Left), 3, 3), None, &mut outcome));
    assert!(!state.persistent_drag);
}

#[test]
fn toggle_control_click_requests_the_backing_tab() {
    let mut state = ClientShellState::new(ClientShellConfig::default());
    state.set_snapshot(ClientShellSnapshot {
        boot_id: "b".into(),
        revision: 0,
        focused_workspace_id: Some("ws".into()),
        focused_tab_id: Some("t".into()),
        focused_pane_id: None,
        tabs: vec![TabSummary { tab_id: "t".into(), workspace_id: "ws".into(), focused: true }],
        panes: vec![PaneSummary { pane_id: "p".into(), tab_id: "t".into(), workspace_id: "ws".into() }],
    });
    state.set_sticky_supported(&ClientEndpointId::Local, true);
    state.persistent_hits = control_hits(Rect::new(0, 0, 40, 1), false, true);
    let mut outcome = ClientShellInput::default();
    assert!(state.handle_persistent_mouse(at(MouseEventKind::Down(MouseButton::Left), 20, 0), None, &mut outcome));
    assert_eq!(outcome.actions.len(), 1);
    assert_eq!(state.pending_requests.len(), 1);
}

#[test]
fn surface_focus_marks_the_dock_focus() {
    let tab = vec![(1, true), (2, false)];
    assert_eq!(surface_focus(&tab, &vec![7, 8], None, false), vec![true, false, false, false]);
    assert_eq!(surface_focus(&tab, &vec![7, 8], Some(8), false), vec![false, false, false, true]);
    assert_eq!(surface_focus(&tab, &vec![7, 8], Some(9), false), vec![true, false, false, false]);
    assert_eq!(surface_focus(&tab, &vec![7, 8], Some(9), true), vec![false, false, false, false]);
}
