//! Persistent dock areas and sticky panes for a terminal workspace manager:
//! the geometry of the split, the presentation settings, and the client and
//! server rules that keep a dock consistent with the live session.

pub mod geometry;
pub mod persistent_area;
pub mod dock_layout;
pub mod str_map;
pub mod dock;
pub mod snapshot;
pub mod client;
pub mod sticky;
pub mod client_area;
pub mod chrome;
pub mod restore;
pub mod server;
pub mod menu;
