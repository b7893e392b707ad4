use herdr_dock::dock::{PaneDock, WorkspaceArea};
use herdr_dock::persistent_area::{DockPlacement, PersistentAreaSettings};
use herdr_dock::server::{HeadlessServer, ServerClient, ServerPane, ServerTab, ServerWorkspace, TabSurfaceTarget};
use herdr_dock::str_map::StrMap;

fn pane(id: u64) -> ServerPane {
    ServerPane { id, public_id: format!("pane_{}", id) }
}

/// Workspace 0 ("ws_0") has tab_0 (panes 1, 2) and tab_1 (pane 3);
/// workspace 1 ("ws_1") has tab_2 (pane 4). Client 7 views tab_1.
fn server() -> HeadlessServer {
    HeadlessServer {
        client_shell_boot_id: "boot".into(),
        workspaces: vec![
            ServerWorkspace {
                public_id: "ws_0".into(),
                tabs: vec![
                    ServerTab { public_id: "tab_0".into(), panes: vec![pane(1), pane(2)] },
                    ServerTab { public_id: "tab_1".into(), panes: vec![pane(3)] },
                ],
            },
            ServerWorkspace {
                public_id: "ws_1".into(),
                tabs: vec![ServerTab { public_id: "tab_2".into(), panes: vec![pane(4)] }],
            },
        ],
        clients: vec![ServerClient {
            client_id: 7,
            active_shell: true,
            pane_dock: PaneDock::default(),
            shell_target: Some(TabSurfaceTarget { workspace_index: 0, tab_index: 1 }),
            needs_recompute: false,
            geometry_dirty: false,
        }],
    }
}

fn dock(pane_ids: &[&str]) -> PaneDock {
    PaneDock {
        boot_id: "boot".into(),
        areas: StrMap::new(),
        pane_ids: pane_ids.iter().map(|s| s.to_string()).collect(),
        focus: None,
    }
}

#[test]
fn sticky_panes_are_validated_deduplicated_and_shown_beside_the_tab() {
    let mut s = server();
    assert!(s.set_pane_dock(7, dock(&["pane_1", "pane_9", "pane_1", "pane_4"])));
    let kept = &s.clients[0].pane_dock.pane_ids;
    assert_eq!(kept, &vec!["pane_1".to_string(), "pane_4".to_string()]);
    assert!(s.clients[0].needs_recompute && s.clients[0].geometry_dirty);
    // Only panes of the viewed workspace outside the viewed tab are docked.
    assert_eq!(s.docked_panes(7), vec![1]);
    // Sending the same dock again changes nothing.
    assert!(!s.set_pane_dock(7, dock(&["pane_1", "pane_4"])));
}

#[test]
fn docks_of_other_boots_inactive_or_unknown_clients_are_refused() {
    let mut s = server();
    let mut other = dock(&["pane_1"]);
    other.boot_id = "old".into();
    assert!(!s.set_pane_dock(7, other));
    assert!(!s.set_pane_dock(8, dock(&["pane_1"])));
    let many: Vec<String> = (0..33).map(|i| format!("pane_{}", i)).collect();
    let refs: Vec<&str> = many.iter().map(|s| s.as_str()).collect();
    assert!(!s.set_pane_dock(7, dock(&refs)));
    s.clients[0].active_shell = false;
    assert!(!s.set_pane_dock(7, dock(&["pane_1"])));
    assert!(s.clients[0].pane_dock.pane_ids.is_empty());
}

#[test]
fn focus_survives_only_when_valid() {
    let mut s = server();
    let mut d = dock(&["pane_1"]);
    d.focus = Some(("tab_1".into(), "pane_1".into()));
    assert!(s.set_pane_dock(7, d));
    assert_eq!(s.dock_focus(7), Some(1));
    let mut d = dock(&["pane_1"]);
    d.focus = Some(("tab_0".into(), "pane_1".into()));
    assert!(s.set_pane_dock(7, d));
    assert!(s.clients[0].pane_dock.focus.is_none());
    assert_eq!(s.dock_focus(7), None);
}

#[test]
fn areas_replace_sticky_panes_and_target_the_backing_tab() {
    let mut s = server();
    let mut areas = StrMap::new();
    let settings = PersistentAreaSettings::new(DockPlacement::Bottom, 50);
    areas.insert("ws_0".into(), WorkspaceArea { tab_id: "tab_0".into(), enabled: true, settings });
    // An area whose tab is in another workspace is dropped.
    areas.insert("ws_1".into(), WorkspaceArea { tab_id: "tab_1".into(), enabled: true, settings });
    let d = PaneDock { boot_id: "boot".into(), areas, pane_ids: vec!["pane_4".into()], focus: None };
    assert!(s.set_pane_dock(7, d));
    let kept = &s.clients[0].pane_dock;
    assert_eq!(kept.areas.len(), 1);
    assert!(kept.areas.contains_key(&"ws_0".to_string()));
    assert_eq!(kept.pane_ids, vec!["pane_1".to_string(), "pane_2".to_string()]);
    let target = s.persistent_target(7).unwrap();
    assert_eq!(target.0, TabSurfaceTarget { workspace_index: 0, tab_index: 0 });
    assert_eq!(target.1, settings);
    assert_eq!(s.docked_panes(7), vec![1, 2]);
}

#[test]
fn lookups_follow_public_identifiers() {
    let s = server();
    assert_eq!(s.parse_tab_id(&"tab_2".to_string()), Some((1, 0)));
    assert_eq!(s.parse_tab_id(&"tab_9".to_string()), None);
    assert_eq!(s.parse_pane_id(&"pane_3".to_string()), Some((0, 3)));
    assert_eq!(s.parse_pane_id(&"pane_9".to_string()), None);
    assert_eq!(s.find_client(7), Some(0));
    assert_eq!(s.find_client(1), None);
}
