//! The dock entries of a pane's context menu.
use vstd::prelude::*;
use crate::client::ClientShellState;

verus! {

/// What a dock entry of a pane's context menu does.
#[derive(Clone, Copy, Debug, PartialEq, Eq, Structural)]
pub enum ClientContextMenuAction {
    /// Move the pane into the persistent area, or out of it.
    MoveToPersistentArea,
    /// Make the pane sticky, or stop it being sticky.
    ToggleSticky,
}

/// A context-menu entry.
#[derive(Debug)]
pub struct ClientContextMenuItem {
    pub label: String,
    pub action: ClientContextMenuAction,
}

impl ClientShellState {
    /// The pane lies in the backing tab of the persistent area.
    pub open spec fn pane_in_area(self, pane: Seq<char>) -> bool {
        match self.spec_persistent_area() {
            Some(a) => self.snapshot.unwrap()@.has_pane_in_tab(pane, a.tab_id@),
            None => false,
        }
    }

    /// The dock entries offered for `pane`: none without the dock
    /// capability or for an unknown pane; else moving it into the persistent
    /// area (or back to the tabbed area when it is in there) and toggling
    /// whether it is sticky.
    pub fn dock_menu_items(&self, pane: &String) -> (r: Vec<ClientContextMenuItem>)
        ensures
            ({
                let offered = self.supports(self.active_key()) && self.snapshot is Some
                    && self.snapshot.unwrap()@.has_pane(pane@);
                &&& !offered ==> r@.len() == 0
                &&& offered ==> {
                    &&& r@.len() == 2
                    &&& r@[0].action == ClientContextMenuAction::MoveToPersistentArea
                    &&& r@[0].label@ == (if self.pane_in_area(pane@) {
                        "Move to tabbed area"@
                    } else {
                        "Move to persistent area"@
                    })
                    &&& r@[1].action == ClientContextMenuAction::ToggleSticky
                    &&& r@[1].label@ == (if self.spec_pane_is_sticky(pane@) {
                        "Unstick pane"@
                    } else {
                        "Stick pane"@
                    })
                }
            }),
    {
        let mut items: Vec<ClientContextMenuItem> = Vec::new();
        let key = self.active_endpoint_id.storage_key();
        if !self.sticky_supported.contains_key(&key) {
            return items;
        }
        let in_area = match &self.snapshot {
            Some(s) => {
                if !s.has_pane(pane) {
                    return items;
                }
                match self.persistent_area() {
                    Some(a) => s.has_pane_in_tab(pane, &a.tab_id),
                    None => false,
                }
            },
            None => return items,
        };
        let move_label = if in_area {
            String::from_str("Move to tabbed area")
        } else {
            String::from_str("Move to persistent area")
        };
        items.push(ClientContextMenuItem { label: move_label, action: ClientContextMenuAction::MoveToPersistentArea });
        let sticky_label = if self.pane_is_sticky(pane) {
            String::from_str("Unstick pane")
        } else {
            String::from_str("Stick pane")
        };
        items.push(ClientContextMenuItem { label: sticky_label, action: ClientContextMenuAction::ToggleSticky });
        items
    }
}

} // verus!
