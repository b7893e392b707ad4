//! The persistent-area controls in the tab bar and the mouse input that
//! drives them: the toggle, the placement switch, and the divider drag.
use vstd::prelude::*;
use crate::client::{ClientShellInput, ClientShellState, PersistentHits};
use crate::geometry::{min_int, Rect};

verus! {

/// Columns that the controls take at most.
pub const CONTROL_WIDTH: u16 = 27;

/// Columns that the placement switch takes when the area is shown.
pub const PLACEMENT_WIDTH: u16 = 8;

/// Narrowest tab bar that shows the controls.
pub const MIN_BAR_WIDTH: u16 = 12;

/// Text of the placement switch.
pub const PLACEMENT_LABEL: &'static str = " rotate ";

/// Text of the toggle.
pub fn toggle_label(enabled: bool) -> (r: &'static str)
    ensures
        r@ == (if enabled {
            " Persistent: on "@
        } else {
            " Persistent area + "@
        }),
{
    if enabled {
        " Persistent: on "
    } else {
        " Persistent area + "
    }
}

/// Where the controls stand in `bar`: right-aligned, at most
/// `CONTROL_WIDTH` columns, the toggle first and (when the area is shown)
/// the placement switch in its last `PLACEMENT_WIDTH` columns. Nothing is
/// shown in a bar narrower than `MIN_BAR_WIDTH`, in an empty bar, or when
/// the endpoint lacks the dock capability.
pub open spec fn spec_control_hits(bar: Rect, enabled: bool, supported: bool) -> PersistentHits {
    if bar.width < MIN_BAR_WIDTH || bar.height == 0 || !supported {
        PersistentHits { toggle: Rect::spec_zero(), placement: Rect::spec_zero(), divider: Rect::spec_zero() }
    } else {
        let width = min_int(CONTROL_WIDTH as int, bar.width as int);
        let toggle_width = if enabled {
            width - PLACEMENT_WIDTH
        } else {
            width
        };
        let right = bar.spec_right();
        let toggle = Rect::spec_new(
            (if right > width {
                right - width
            } else {
                0
            }) as u16,
            bar.y,
            toggle_width as u16,
            1,
        );
        let placement = if enabled {
            Rect::spec_new(toggle.spec_right(), bar.y, (width - toggle.width) as u16, 1)
        } else {
            Rect::spec_zero()
        };
        PersistentHits { toggle, placement, divider: Rect::spec_zero() }
    }
}

/// The hit regions of the persistent-area controls in `bar`.
pub fn control_hits(bar: Rect, enabled: bool, supported: bool) -> (r: PersistentHits)
    ensures
        r == spec_control_hits(bar, enabled, supported),
{
    if bar.width < MIN_BAR_WIDTH || bar.height == 0 || !supported {
        return PersistentHits::default();
    }
    let width: u16 = if CONTROL_WIDTH <= bar.width {
        CONTROL_WIDTH
    } else {
        bar.width
    };
    let toggle_width: u16 = if enabled {
        width - PLACEMENT_WIDTH
    } else {
        width
    };
    let right = bar.right();
    let left: u16 = if right > width {
        right - width
    } else {
        0
    };
    let toggle = Rect::new(left, bar.y, toggle_width, 1);
    let placement = if enabled {
        Rect::new(toggle.right(), bar.y, width - toggle.width, 1)
    } else {
        Rect::zero()
    };
    PersistentHits { toggle, placement, divider: Rect::zero() }
}

/// Law: in a bar that fits the coordinate range, shown controls lie in the
/// bar's top row, right-aligned: the toggle, then directly after it the
/// placement switch when the area is shown, together `min(27, width)`
/// columns wide.
pub proof fn lemma_control_hits_in_bar(bar: Rect, enabled: bool, supported: bool)
    requires
        bar.fits(),
        bar.width >= MIN_BAR_WIDTH,
        bar.height > 0,
        supported,
    ensures
        ({
            let h = spec_control_hits(bar, enabled, supported);
            let width = min_int(CONTROL_WIDTH as int, bar.width as int);
            &&& bar.encloses(h.toggle)
            &&& h.toggle.y == bar.y && h.toggle.height == 1
            &&& enabled ==> {
                &&& bar.encloses(h.placement)
                &&& h.placement.x == h.toggle.x + h.toggle.width
                &&& h.placement.width == PLACEMENT_WIDTH
                &&& h.placement.x + h.placement.width == bar.x + bar.width
                &&& h.toggle.width + h.placement.width == width
            }
            &&& !enabled ==> h.toggle.x + h.toggle.width == bar.x + bar.width && h.toggle.width == width
        }),
{
}

/// The mouse buttons.
#[derive(Clone, Copy, Debug, PartialEq, Eq, Structural)]
pub enum MouseButton {
    Left,
    Right,
    Middle,
}

/// What happened to the mouse.
#[derive(Clone, Copy, Debug, PartialEq, Eq, Structural)]
pub enum MouseEventKind {
    Down(MouseButton),
    Up(MouseButton),
    Drag(MouseButton),
    Moved,
    ScrollDown,
    ScrollUp,
    ScrollLeft,
    ScrollRight,
}

/// A mouse event at a cell (column, row).
#[derive(Clone, Copy, Debug, PartialEq, Eq, Structural)]
pub struct MouseEvent {
    pub kind: MouseEventKind,
    pub column: u16,
    pub row: u16,
}

/// What a mouse event does to the persistent area.
#[derive(Clone, Copy, Debug, PartialEq, Eq, Structural)]
pub enum PersistentMouseAction {
    /// Not for the persistent area.
    Ignore,
    /// Show or hide the area.
    Toggle,
    /// Switch its placement.
    Rotate,
    /// Start dragging its divider.
    StartDrag,
    /// Follow the divider drag.
    Resize,
    /// Finish the divider drag at this point.
    EndDrag,
}

/// The action for a mouse event, given where the controls stand, whether a
/// divider drag is under way, and whether an overlay has the input.
pub open spec fn spec_mouse_action(
    hits: PersistentHits,
    dragging: bool,
    overlay_open: bool,
    mouse: MouseEvent,
) -> PersistentMouseAction {
    let point = (mouse.column, mouse.row);
    if overlay_open {
        PersistentMouseAction::Ignore
    } else {
        match mouse.kind {
            MouseEventKind::Down(MouseButton::Left) => if hits.toggle.spec_contains(point) {
                PersistentMouseAction::Toggle
            } else if hits.placement.spec_contains(point) {
                PersistentMouseAction::Rotate
            } else if hits.divider.spec_contains(point) {
                PersistentMouseAction::StartDrag
            } else {
                PersistentMouseAction::Ignore
            },
            MouseEventKind::Drag(MouseButton::Left) => if dragging {
                PersistentMouseAction::Resize
            } else {
                PersistentMouseAction::Ignore
            },
            MouseEventKind::Up(MouseButton::Left) => if dragging {
                PersistentMouseAction::EndDrag
            } else {
                PersistentMouseAction::Ignore
            },
            _ => PersistentMouseAction::Ignore,
        }
    }
}

/// Decides what a mouse event does to the persistent area.
pub fn mouse_action(hits: PersistentHits, dragging: bool, overlay_open: bool, mouse: MouseEvent) -> (r:
    PersistentMouseAction)
    ensures
        r == spec_mouse_action(hits, dragging, overlay_open, mouse),
{
    let point = (mouse.column, mouse.row);
    if overlay_open {
        return PersistentMouseAction::Ignore;
    }
    match mouse.kind {
        MouseEventKind::Down(MouseButton::Left) => {
            if hits.toggle.contains(point) {
                PersistentMouseAction::Toggle
            } else if hits.placement.contains(point) {
                PersistentMouseAction::Rotate
            } else if hits.divider.contains(point) {
                PersistentMouseAction::StartDrag
            } else {
                PersistentMouseAction::Ignore
            }
        },
        MouseEventKind::Drag(MouseButton::Left) => {
            if dragging {
                PersistentMouseAction::Resize
            } else {
                PersistentMouseAction::Ignore
            }
        },
        MouseEventKind::Up(MouseButton::Left) => {
            if dragging {
                PersistentMouseAction::EndDrag
            } else {
                PersistentMouseAction::Ignore
            }
        },
        _ => PersistentMouseAction::Ignore,
    }
}

impl ClientShellState {
    /// Handles a mouse event for the persistent area; returns whether the
    /// event was consumed. An open overlay takes the input and ends any
    /// divider drag. `surface` is the pane surface last composed, if any.
    /// A drag that resizes the area must leave a cell past the pointer on
    /// the area's axis (see `resize_in_range`).
    pub fn handle_persistent_mouse(
        &mut self,
        mouse: MouseEvent,
        surface: Option<Rect>,
        outcome: &mut ClientShellInput,
    ) -> (r: bool)
        requires
            ({
                let action = spec_mouse_action(
                    old(self).persistent_hits,
                    old(self).persistent_drag,
                    old(self).overlay_open,
                    mouse,
                );
                (action == PersistentMouseAction::Resize || action == PersistentMouseAction::EndDrag)
                    ==> old(self).resize_in_range(surface, (mouse.column, mouse.row))
            }),
        ensures
            ({
                let action = spec_mouse_action(
                    old(self).persistent_hits,
                    old(self).persistent_drag,
                    old(self).overlay_open,
                    mouse,
                );
                &&& r == (action != PersistentMouseAction::Ignore)
                &&& final(self).persistent_drag == (match action {
                    PersistentMouseAction::StartDrag => true,
                    PersistentMouseAction::EndDrag => false,
                    PersistentMouseAction::Ignore => old(self).persistent_drag && !old(self).overlay_open,
                    _ => old(self).persistent_drag,
                })
                &&& final(self).snapshot == old(self).snapshot
                &&& final(self).active_endpoint_id == old(self).active_endpoint_id
                &&& (action == PersistentMouseAction::Ignore || action == PersistentMouseAction::StartDrag)
                    ==> *final(self) == (ClientShellState {
                    persistent_drag: final(self).persistent_drag,
                    ..*old(self)
                }) && *final(outcome) == *old(outcome)
                &&& action == PersistentMouseAction::Toggle ==> old(self).toggled(
                    *final(self),
                    *old(outcome),
                    *final(outcome),
                )
                &&& action == PersistentMouseAction::Rotate ==> old(self).placement_changed(
                    *final(self),
                    *old(outcome),
                    *final(outcome),
                )
                &&& action == PersistentMouseAction::Resize ==> old(self).resized(
                    *final(self),
                    surface,
                    (mouse.column, mouse.row),
                    *old(outcome),
                    *final(outcome),
                )
                &&& action == PersistentMouseAction::EndDrag ==> (ClientShellState {
                    persistent_drag: false,
                    ..*old(self)
                }).resized(*final(self), surface, (mouse.column, mouse.row), *old(outcome), *final(outcome))
            }),
    {
        if self.overlay_open {
            self.persistent_drag = false;
            return false;
        }
        let point = (mouse.column, mouse.row);
        let action = mouse_action(self.persistent_hits, self.persistent_drag, self.overlay_open, mouse);
        if action == PersistentMouseAction::Ignore {
            return false;
        }
        if action == PersistentMouseAction::StartDrag {
            self.persistent_drag = true;
            return true;
        }
        if action == PersistentMouseAction::Toggle {
            self.toggle_persistent_area(outcome);
        } else if action == PersistentMouseAction::Rotate {
            self.change_persistent_placement(outcome);
        } else {
            if action == PersistentMouseAction::EndDrag {
                self.persistent_drag = false;
            }
            self.resize_persistent_area(surface, point, outcome);
        }
        true
    }
}

} // verus!
