# herdr_dock

Persistent dock areas and sticky panes for a terminal workspace manager,
written in Verus: every function in `src/` carries a contract that Verus
proves, and the properties that span several calls are stated as public
proof functions (`lemma_*`).

- `src/geometry.rs`, `src/persistent_area.rs`, `src/dock_layout.rs`: cell
  rectangles, the split of a surface into a main and a persistent area, the
  presentation settings and the stacking of docked panes.
- `src/dock.rs`, `src/str_map.rs`, `src/snapshot.rs`: the dock a client
  sends, a string-keyed map with distinct keys, and the session snapshot.
- `src/client.rs`, `src/sticky.rs`, `src/client_area.rs`, `src/chrome.rs`,
  `src/restore.rs`, `src/menu.rs`: the client's rules for sticky panes, the
  persistent area, its controls, and the preferences that survive restarts.
- `src/server.rs`: how the server validates a dock and shows docked panes.
- `app/`: the edges around the library (JSON encoding, terminal input,
  drawing the controls, preference files); it is not verified.
- `tests/`: tests on concrete values.
