//! The persistent area as a first-class part of a workspace, independent of
//! the currently selected tab: showing and hiding it, creating its backing
//! tab, moving panes into and out of it, and changing its presentation.
use vstd::prelude::*;
use crate::client::{
    create_action_pushed, create_pending_pushed, dock_updated, move_action_pushed, next_request, request_pending_pushed,
    sent_dock,
    ClientShellAction, ClientShellEndpointError, ClientShellInput, ClientShellState, EndpointMethod,
    PendingEndpointKind, ResponseResult,
};
use crate::dock::{AreaView, DockView, PaneDock, WorkspaceArea};
use crate::geometry::{Rect, CELL_MAX};
use crate::persistent_area::{spec_clamp_percent, spec_split, DockPlacement, PersistentAreaSettings};
use crate::snapshot::opt_str_view;
use crate::restore::prefs_saved;

verus! {

impl ClientShellState {
    /// A creation of the persistent area of `workspace` is awaited.
    pub open spec fn creating_area(self, workspace: Seq<char>) -> bool {
        exists|i: int|
            0 <= i < self.pending_requests@.len() && ((#[trigger] self.pending_requests@[i]).kind matches
                PendingEndpointKind::PersistentCreate { workspace_id, .. } && workspace_id@ == workspace)
    }

    fn is_creating_area(&self, workspace: &String) -> (r: bool)
        ensures
            r == self.creating_area(workspace@),
    {
        let n = self.pending_requests.len();
        let mut i: usize = 0;
        while i < n
            invariant
                n == self.pending_requests@.len(),
                i <= n,
                forall|j: int|
                    0 <= j < i ==> !(((#[trigger] self.pending_requests@[j]).kind matches
                        PendingEndpointKind::PersistentCreate { workspace_id, .. } && workspace_id@
                        == workspace@)),
            decreases n - i,
        {
            match &self.pending_requests[i].kind {
                PendingEndpointKind::PersistentCreate { workspace_id, .. } => {
                    if *workspace_id == *workspace {
                        return true;
                    }
                },
                PendingEndpointKind::Request => {},
            }
            i = i + 1;
        }
        false
    }

    /// Asks the endpoint for an unfocused tab labelled "Persistent" in
    /// `workspace`, to back that workspace's persistent area; `move_pane`
    /// is moved into it once it exists.
    pub fn create_persistent_area(
        &mut self,
        workspace: String,
        move_pane: Option<String>,
        outcome: &mut ClientShellInput,
    )
        ensures
            create_pending_pushed(
                old(self).pending_requests@,
                final(self).pending_requests@,
                old(self).next_request_id,
                workspace@,
                opt_str_view(move_pane),
            ),
            create_action_pushed(
                old(outcome).actions@,
                final(outcome).actions@,
                old(self).active_endpoint_id,
                old(self).next_request_id,
                workspace@,
            ),
            final(self).next_request_id == next_request(old(self).next_request_id),
            final(outcome).requests == old(outcome).requests,
            final(outcome).repaint == old(outcome).repaint,
            final(self).same_fixed(*old(self)),
            final(self).sticky == old(self).sticky,
    {
        let ghost before = self.pending_requests@;
        let ghost actions = outcome.actions@;
        let method = EndpointMethod::TabCreate {
            workspace_id: workspace.clone(),
            label: String::from_str("Persistent"),
            focus: false,
        };
        self.push_endpoint_method_with_kind(
            method,
            PendingEndpointKind::PersistentCreate { workspace_id: workspace, move_pane },
            outcome,
        );
        proof {
            assert(self.pending_requests@.take(before.len() as int) =~= before);
            assert(outcome.actions@.take(actions.len() as int) =~= actions);
        }
    }

    /// The persistent area of the focused workspace, when its backing tab
    /// is still part of the snapshot.
    pub open spec fn live_persistent_area(self) -> Option<WorkspaceArea> {
        match self.spec_persistent_area() {
            Some(a) => if self.snapshot.unwrap()@.has_tab(a.tab_id@) {
                Some(a)
            } else {
                None
            },
            None => None,
        }
    }

    /// Shows or hides the persistent area of the focused workspace. With no
    /// live area (none yet, or its backing tab is gone) a backing tab is
    /// requested instead, unless one is already being created.
    pub fn toggle_persistent_area(&mut self, outcome: &mut ClientShellInput)
        ensures
            old(self).toggled(*final(self), *old(outcome), *final(outcome)),
    {
        let key = self.active_endpoint_id.storage_key();
        if !self.sticky_supported.contains_key(&key) {
            return;
        }
        let workspace = match &self.snapshot {
            Some(s) => match &s.focused_workspace_id {
                Some(w) => w.clone(),
                None => return,
            },
            None => return,
        };
        if self.is_creating_area(&workspace) {
            return;
        }
        let existing = match self.persistent_area() {
            Some(area) => {
                let live = match &self.snapshot {
                    Some(s) => s.has_tab(&area.tab_id),
                    None => false,
                };
                if live {
                    Some(area.clone())
                } else {
                    None
                }
            },
            None => None,
        };
        match existing {
            Some(area) => {
                let next = match self.sticky.get(&key) {
                    Some(dock) => {
                        let mut next = dock.clone();
                        let flipped = WorkspaceArea {
                            tab_id: area.tab_id.clone(),
                            enabled: !area.enabled,
                            settings: area.settings,
                        };
                        next.areas.insert(workspace, flipped);
                        next.focus = None;
                        proof {
                            assert(next@.areas =~= dock@.areas.insert(
                                old(self).snapshot.unwrap().focused_workspace_id.unwrap()@,
                                AreaView { tab_id: area.tab_id@, enabled: !area.enabled, settings: area.settings },
                            ));
                        }
                        next
                    },
                    None => {
                        proof {
                            assert(false);
                        }
                        PaneDock::default()
                    },
                };
                self.sticky.insert(key, next);
                proof {
                    assert(self.sticky@.remove(self.active_key()) =~= old(self).sticky@.remove(self.active_key()));
                }
                self.send_sticky(outcome);
            },
            None => {
                self.create_persistent_area(workspace, None, outcome);
            },
        }
        outcome.repaint = true;
    }
}


/// `a - b`, or 0 when `b` is larger.
pub open spec fn saturating_cell_sub(a: u16, b: int) -> int {
    if a > b {
        a - b
    } else {
        0
    }
}

/// The percentage that dragging the divider to `point` asks for: the share
/// of the span (without the divider) that lies after the point, capped at
/// 100; none when the span has at most one cell.
pub open spec fn resize_target(surface: Rect, placement: DockPlacement, point: (u16, u16)) -> Option<u16> {
    let span = match placement {
        DockPlacement::Right => surface.width,
        DockPlacement::Bottom => surface.height,
    };
    let remaining = match placement {
        DockPlacement::Right => saturating_cell_sub(surface.spec_right(), point.0 + 1),
        DockPlacement::Bottom => saturating_cell_sub(surface.spec_bottom(), point.1 + 1),
    };
    if span > 1 {
        let share = remaining * 100 / (span - 1);
        Some(if share > 100 { 100u16 } else { share as u16 })
    } else {
        None
    }
}

impl ClientShellState {
    /// Following a divider drag to `point` looks one cell past the point on
    /// the axis of the focused workspace's area; that cell must still be in
    /// the cell range. The other coordinate is never read.
    pub open spec fn resize_in_range(self, surface: Option<Rect>, point: (u16, u16)) -> bool {
        match (surface, self.snapshot) {
            (Some(_), Some(s)) => match s.focused_workspace_id {
                Some(w) => match self.active_dock() {
                    Some(d) => d@.areas.contains_key(w@) ==> match d@.areas[w@].settings.placement_value() {
                        DockPlacement::Right => point.0 < CELL_MAX,
                        DockPlacement::Bottom => point.1 < CELL_MAX,
                    },
                    None => true,
                },
                None => true,
            },
            _ => true,
        }
    }

    /// Whether a divider drag to `point` can be followed (see
    /// `resize_in_range`).
    pub fn resize_point_in_range(&self, surface: Option<Rect>, point: (u16, u16)) -> (r: bool)
        ensures
            r == self.resize_in_range(surface, point),
    {
        if surface.is_none() {
            return true;
        }
        let workspace = match &self.snapshot {
            Some(s) => match &s.focused_workspace_id {
                Some(w) => w,
                None => return true,
            },
            None => return true,
        };
        let key = self.active_endpoint_id.storage_key();
        match self.sticky.get(&key) {
            Some(dock) => match dock.areas.get(workspace) {
                Some(a) => match a.settings.placement() {
                    DockPlacement::Right => point.0 < CELL_MAX,
                    DockPlacement::Bottom => point.1 < CELL_MAX,
                },
                None => true,
            },
            None => true,
        }
    }
}

/// Law: moving the divider toward the far edge of the surface never
/// enlarges the persistent area: a pointer further along the area's axis
/// asks for no larger a percentage, before and after clamping.
pub proof fn lemma_resize_target_monotone(surface: Rect, placement: DockPlacement, p: (u16, u16), q: (u16, u16))
    requires
        placement == DockPlacement::Right ==> p.0 <= q.0,
        placement == DockPlacement::Bottom ==> p.1 <= q.1,
        resize_target(surface, placement, p) is Some,
    ensures
        resize_target(surface, placement, q) is Some,
        resize_target(surface, placement, q).unwrap() <= resize_target(surface, placement, p).unwrap(),
        spec_clamp_percent(resize_target(surface, placement, q).unwrap()) <= spec_clamp_percent(
            resize_target(surface, placement, p).unwrap(),
        ),
{
    let span: int = match placement {
        DockPlacement::Right => surface.width as int,
        DockPlacement::Bottom => surface.height as int,
    };
    let rp = match placement {
        DockPlacement::Right => saturating_cell_sub(surface.spec_right(), p.0 + 1),
        DockPlacement::Bottom => saturating_cell_sub(surface.spec_bottom(), p.1 + 1),
    };
    let rq = match placement {
        DockPlacement::Right => saturating_cell_sub(surface.spec_right(), q.0 + 1),
        DockPlacement::Bottom => saturating_cell_sub(surface.spec_bottom(), q.1 + 1),
    };
    assert(0 <= rq <= rp);
    assert(rq * 100 / (span - 1) <= rp * 100 / (span - 1)) by (nonlinear_arith)
        requires
            0 <= rq <= rp,
            span > 1,
    {
        assert(rq * 100 <= rp * 100);
    }
}

/// The destination of moving a pane of tab `source_tab` when `area` is the
/// persistent area: out of the area into the focused tab, or into the area.
pub open spec fn move_destination(source_tab: Seq<char>, area_tab: Seq<char>, focused_tab: Option<Seq<char>>) -> Option<Seq<char>> {
    if source_tab == area_tab {
        match focused_tab {
            Some(t) => if t != area_tab {
                Some(t)
            } else {
                None
            },
            None => None,
        }
    } else {
        Some(area_tab)
    }
}

impl ClientShellState {
    /// Moves a pane into the persistent area of the focused workspace, or
    /// out of it into the focused tab, and shows the area. Without an area a
    /// backing tab is requested first, with the pane moved into it once it
    /// exists.
    pub fn move_to_persistent_area(&mut self, pane: String, outcome: &mut ClientShellInput)
        ensures
            ({
                let key = old(self).active_key();
                match old(self).snapshot {
                    None => *final(self) == *old(self) && *final(outcome) == *old(outcome),
                    Some(s) => if !s@.has_pane(pane@) {
                        *final(self) == *old(self) && *final(outcome) == *old(outcome)
                    } else {
                        let src = s@.panes[s@.first_pane_index(pane@)];
                        match old(self).spec_persistent_area() {
                            Some(a) => match move_destination(src.tab_id, a.tab_id@, s@.focused_tab_id) {
                                None => *final(self) == *old(self) && *final(outcome) == *old(outcome),
                                Some(t) => {
                                    let d = old(self).active_dock().unwrap()@;
                                    let next = DockView {
                                        boot_id: d.boot_id,
                                        areas: if d.areas.contains_key(src.workspace_id) {
                                            d.areas.insert(
                                                src.workspace_id,
                                                AreaView {
                                                    tab_id: d.areas[src.workspace_id].tab_id,
                                                    enabled: true,
                                                    settings: d.areas[src.workspace_id].settings,
                                                },
                                            )
                                        } else {
                                            d.areas
                                        },
                                        pane_ids: d.pane_ids,
                                        focus: None,
                                    };
                                    &&& request_pending_pushed(
                                        old(self).pending_requests@,
                                        final(self).pending_requests@,
                                        old(self).next_request_id,
                                    )
                                    &&& final(self).next_request_id == next_request(old(self).next_request_id)
                                    &&& move_action_pushed(
                                        old(outcome).actions@,
                                        final(outcome).actions@,
                                        old(self).active_endpoint_id,
                                        old(self).next_request_id,
                                        pane@,
                                        t,
                                    )
                                    &&& dock_updated(old(self).sticky@, final(self).sticky@, key, next)
                                    &&& sent_dock(old(outcome).requests@, final(outcome).requests@, next)
                                    &&& final(outcome).repaint
                                    &&& final(self).same_fixed_but_prefs(*old(self))
                                    &&& prefs_saved(old(self).config, old(self).preferences_dirty, *final(self))
                                },
                            },
                            None => {
                                &&& create_pending_pushed(
                                    old(self).pending_requests@,
                                    final(self).pending_requests@,
                                    old(self).next_request_id,
                                    src.workspace_id,
                                    Some(pane@),
                                )
                                &&& final(self).next_request_id == next_request(old(self).next_request_id)
                                &&& create_action_pushed(
                                    old(outcome).actions@,
                                    final(outcome).actions@,
                                    old(self).active_endpoint_id,
                                    old(self).next_request_id,
                                    src.workspace_id,
                                )
                                &&& final(outcome).requests == old(outcome).requests
                                &&& final(outcome).repaint == old(outcome).repaint
                                &&& final(self).sticky == old(self).sticky
                                &&& final(self).same_fixed(*old(self))
                            },
                        }
                    },
                }
            }),
    {
        let found = match &self.snapshot {
            Some(s) => s.find_pane(&pane),
            None => None,
        };
        let i = match found {
            Some(i) => i,
            None => return,
        };

        let (workspace, source_tab, focused_tab) = match &self.snapshot {
            Some(s) => (
                s.panes[i].workspace_id.clone(),
                s.panes[i].tab_id.clone(),
                crate::dock::clone_opt_string(&s.focused_tab_id),
            ),
            None => return,
        };
        proof {
            let s = old(self).snapshot.unwrap();
            assert(i == s@.first_pane_index(pane@));
            assert(s@.panes[i as int] == s.panes@[i as int]@);
        }
        let area_tab = match self.persistent_area() {
            Some(a) => Some(a.tab_id.clone()),
            None => None,
        };
        match area_tab {
            Some(area_tab) => {
                let destination = if source_tab == area_tab {
                    match focused_tab {
                        Some(t) => if t != area_tab {
                            Some(t)
                        } else {
                            None
                        },
                        None => None,
                    }
                } else {
                    Some(area_tab)
                };
                let tab_id = match destination {
                    Some(t) => t,
                    None => return,
                };
                let ghost actions = outcome.actions@;
                let ghost pending = self.pending_requests@;
                self.push_endpoint_method(EndpointMethod::PaneMove { pane_id: pane, tab_id, focus: false }, outcome);
                proof {
                    assert(outcome.actions@.take(actions.len() as int) =~= actions);
                    assert(self.pending_requests@.take(pending.len() as int) =~= pending);
                }
                let key = self.active_endpoint_id.storage_key();
                let next = match self.sticky.get(&key) {
                    Some(dock) => {
                        let mut next = dock.clone();
                        let shown = match next.areas.get(&workspace) {
                            Some(a) => Some(WorkspaceArea { tab_id: a.tab_id.clone(), enabled: true, settings: a.settings }),
                            None => None,
                        };
                        match shown {
                            Some(a) => {
                                next.areas.insert(workspace, a);
                            },
                            None => {},
                        }
                        next.focus = None;
                        Some(next)
                    },
                    None => None,
                };
                match next {
                    Some(next) => {
                        self.sticky.insert(key, next);
                        proof {
                            assert(self.sticky@.remove(self.active_key()) =~= old(self).sticky@.remove(
                                self.active_key(),
                            ));
                        }
                    },
                    None => {},
                }
                proof {
                    let d = old(self).active_dock().unwrap()@;
                    let w = old(self).snapshot.unwrap()@.panes[old(self).snapshot.unwrap()@.first_pane_index(pane@)].workspace_id;
                    if d.areas.contains_key(w) {
                        assert(self.sticky@[self.active_key()]@.areas =~= d.areas.insert(
                            w,
                            AreaView { tab_id: d.areas[w].tab_id, enabled: true, settings: d.areas[w].settings },
                        ));
                    } else {
                        assert(self.sticky@[self.active_key()]@.areas =~= d.areas);
                    }
                }
                self.send_sticky(outcome);
            },
            None => {
                self.create_persistent_area(workspace, Some(pane), outcome);
            },
        }
    }
}

impl ClientShellState {
    /// Handles the response to the creation of a persistent area's backing
    /// tab: records the shown area of `workspace` and the new tab's root
    /// pane in the active dock (a dock of another boot is replaced first),
    /// hands the dock to the caller, and moves `move_pane` into the new tab.
    /// Returns whether the response was consumed and the follow-up actions;
    /// without a snapshot the response is left for later.
    pub fn complete_persistent_create(
        &mut self,
        workspace: String,
        move_pane: Option<String>,
        result: Result<ResponseResult, ClientShellEndpointError>,
    ) -> (r: (bool, Vec<ClientShellAction>))
        ensures
            ({
                let key = old(self).active_key();
                match result {
                    Ok(ResponseResult::TabCreated { tab_id, root_pane_id }) => match old(self).snapshot {
                        None => !r.0 && r.1@.len() == 0 && *final(self) == *old(self),
                        Some(s) => {
                            let base = old(self).dock_base(s@);
                            let next = DockView {
                                boot_id: base.boot_id,
                                areas: base.areas.insert(
                                    workspace@,
                                    AreaView {
                                        tab_id: tab_id@,
                                        enabled: true,
                                        settings: PersistentAreaSettings::spec_default(),
                                    },
                                ),
                                pane_ids: base.pane_ids.push(root_pane_id@),
                                focus: base.focus,
                            };
                            &&& r.0
                            &&& dock_updated(old(self).sticky@, final(self).sticky@, key, next)
                            &&& final(self).same_fixed(*old(self))
                            &&& r.1@.len() >= 1
                            &&& r.1@[0] matches ClientShellAction::PaneDock { endpoint_id, dock }
                                && endpoint_id == old(self).active_endpoint_id && dock@ == next
                            &&& match move_pane {
                                None => r.1@.len() == 1 && final(self).pending_requests
                                    == old(self).pending_requests && final(self).next_request_id
                                    == old(self).next_request_id,
                                Some(p) => {
                                    &&& move_action_pushed(
                                        r.1@.take(1),
                                        r.1@,
                                        old(self).active_endpoint_id,
                                        old(self).next_request_id,
                                        p@,
                                        tab_id@,
                                    )
                                    &&& request_pending_pushed(
                                        old(self).pending_requests@,
                                        final(self).pending_requests@,
                                        old(self).next_request_id,
                                    )
                                    &&& final(self).next_request_id == next_request(old(self).next_request_id)
                                },
                            }
                        },
                    },
                    _ => r.0 && r.1@.len() == 0 && *final(self) == *old(self),
                }
            }),
    {
        let (tab_id, root_pane_id) = match result {
            Ok(ResponseResult::TabCreated { tab_id, root_pane_id }) => (tab_id, root_pane_id),
            _ => return (true, Vec::new()),
        };
        let boot = match &self.snapshot {
            Some(s) => s.boot_id.clone(),
            None => return (false, Vec::new()),
        };
        let mut dock = self.active_dock_for_boot(&boot);
        let ghost base = dock@;
        dock.areas.insert(workspace, WorkspaceArea::shown(tab_id.clone()));
        dock.pane_ids.push(root_pane_id);
        proof {
            assert(dock@.pane_ids =~= base.pane_ids.push(root_pane_id@));
            assert(dock@.areas =~= base.areas.insert(
                workspace@,
                AreaView { tab_id: tab_id@, enabled: true, settings: PersistentAreaSettings::spec_default() },
            ));
        }
        let key = self.active_endpoint_id.storage_key();
        let sent = dock.clone();
        self.sticky.insert(key, dock);
        proof {
            assert(self.sticky@.remove(self.active_key()) =~= old(self).sticky@.remove(self.active_key()));
        }
        let mut actions: Vec<ClientShellAction> = Vec::new();
        actions.push(ClientShellAction::PaneDock { endpoint_id: self.active_endpoint_id.clone(), dock: sent });
        match move_pane {
            Some(pane_id) => {
                let mut outcome = ClientShellInput::default();
                let ghost pending = self.pending_requests@;
                self.push_endpoint_method(EndpointMethod::PaneMove { pane_id, tab_id, focus: false }, &mut outcome);
                let mut more = outcome.actions;
                let ghost first = actions@;
                actions.append(&mut more);
                proof {
                    assert(actions@.take(1) =~= first);
                    assert(self.pending_requests@.take(pending.len() as int) =~= pending);
                }
            },
            None => {},
        }
        (true, actions)
    }

    /// Switches the persistent area of the focused workspace between right
    /// and bottom placement, and sends the dock.
    pub fn change_persistent_placement(&mut self, outcome: &mut ClientShellInput)
        ensures
            old(self).placement_changed(*final(self), *old(outcome), *final(outcome)),
    {
        let workspace = match &self.snapshot {
            Some(s) => match &s.focused_workspace_id {
                Some(w) => w.clone(),
                None => return,
            },
            None => return,
        };
        let key = self.active_endpoint_id.storage_key();
        let next = match self.sticky.get(&key) {
            Some(dock) => {
                let rotated = match dock.areas.get(&workspace) {
                    Some(a) => {
                        let mut settings = a.settings;
                        settings.set_placement(a.settings.placement().rotated());
                        Some(WorkspaceArea { tab_id: a.tab_id.clone(), enabled: a.enabled, settings })
                    },
                    None => None,
                };
                match rotated {
                    Some(area) => {
                        let mut next = dock.clone();
                        next.areas.insert(workspace, area);
                        Some(next)
                    },
                    None => None,
                }
            },
            None => None,
        };
        match next {
            Some(next) => {
                self.sticky.insert(key, next);
                proof {
                    assert(self.sticky@.remove(self.active_key()) =~= old(self).sticky@.remove(self.active_key()));
                    let d = old(self).active_dock().unwrap()@;
                    let w = old(self).snapshot.unwrap().focused_workspace_id.unwrap()@;
                    let a = d.areas[w];
                    assert(self.sticky@[self.active_key()]@.areas =~= d.areas.insert(
                        w,
                        AreaView {
                            tab_id: a.tab_id,
                            enabled: a.enabled,
                            settings: a.settings.with_placement(a.settings.placement_value().spec_rotated()),
                        },
                    ));
                }
            },
            None => {},
        }
        self.send_sticky(outcome);
    }
}

impl ClientShellState {
    /// The backing tab of the shown persistent area when `point` lies in
    /// the area's part of the pane surface.
    pub open spec fn spec_persistent_tab_at(self, surface: Option<Rect>, point: (u16, u16)) -> Option<Seq<char>> {
        match (surface, self.spec_persistent_area()) {
            (Some(sf), Some(a)) => if a.enabled && spec_split(
                sf,
                a.settings.placement_value(),
                a.settings.percent_value(),
            ).persistent.spec_contains(point) {
                Some(a.tab_id@)
            } else {
                None
            },
            _ => None,
        }
    }

    /// The backing tab under `point` when it lies in the shown persistent
    /// area; `surface` is the pane surface last composed, if any.
    pub fn persistent_tab_at(&self, surface: Option<Rect>, point: (u16, u16)) -> (r: Option<String>)
        ensures
            opt_str_view(r) == self.spec_persistent_tab_at(surface, point),
    {
        let surface = match surface {
            Some(sf) => sf,
            None => return None,
        };
        let area = match self.persistent_area() {
            Some(a) => a,
            None => return None,
        };
        if !area.enabled {
            return None;
        }
        if area.settings.layout(surface).persistent.contains(point) {
            Some(area.tab_id.clone())
        } else {
            None
        }
    }

    /// Follows a drag of the area's divider to `point`: the persistent area
    /// of the focused workspace takes the share of the surface after the
    /// point (clamped like any percentage), and the dock is sent.
    pub fn resize_persistent_area(&mut self, surface: Option<Rect>, point: (u16, u16), outcome: &mut ClientShellInput)
        requires
            old(self).resize_in_range(surface, point),
        ensures
            old(self).resized(*final(self), surface, point, *old(outcome), *final(outcome)),
    {
        let surface = match surface {
            Some(sf) => sf,
            None => return,
        };
        let workspace = match &self.snapshot {
            Some(s) => match &s.focused_workspace_id {
                Some(w) => w.clone(),
                None => return,
            },
            None => return,
        };
        let key = self.active_endpoint_id.storage_key();
        let next = match self.sticky.get(&key) {
            Some(dock) => {
                let resized = match dock.areas.get(&workspace) {
                    Some(a) => {
                        let (span, edge, pos) = match a.settings.placement() {
                            DockPlacement::Right => (surface.width, surface.right(), point.0 + 1),
                            DockPlacement::Bottom => (surface.height, surface.bottom(), point.1 + 1),
                        };
                        let remaining: u16 = if edge > pos {
                            edge - pos
                        } else {
                            0
                        };
                        if span > 1 {
                            let share: u32 = (remaining as u32) * 100 / ((span - 1) as u32);
                            let percent: u16 = if share > 100 {
                                100
                            } else {
                                share as u16
                            };
                            let mut settings = a.settings;
                            settings.set_percent(percent);
                            Some(WorkspaceArea { tab_id: a.tab_id.clone(), enabled: a.enabled, settings })
                        } else {
                            None
                        }
                    },
                    None => None,
                };
                match resized {
                    Some(area) => {
                        let mut next = dock.clone();
                        next.areas.insert(workspace, area);
                        Some(next)
                    },
                    None => None,
                }
            },
            None => None,
        };
        match next {
            Some(next) => {
                self.sticky.insert(key, next);
                proof {
                    assert(self.sticky@.remove(self.active_key()) =~= old(self).sticky@.remove(self.active_key()));
                    let d = old(self).active_dock().unwrap()@;
                    let w = old(self).snapshot.unwrap().focused_workspace_id.unwrap()@;
                    let a = d.areas[w];
                    let p = resize_target(surface, a.settings.placement_value(), point).unwrap();
                    assert(self.sticky@[self.active_key()]@.areas =~= d.areas.insert(
                        w,
                        AreaView {
                            tab_id: a.tab_id,
                            enabled: a.enabled,
                            settings: a.settings.with_percent(spec_clamp_percent(p)),
                        },
                    ));
                }
            },
            None => {},
        }
        self.send_sticky(outcome);
    }
}


impl ClientShellState {
    /// What showing or hiding the persistent area does: `after` and
    /// `out_after` follow `self` and `out` (see `toggle_persistent_area`).
    pub open spec fn toggled(self, after: Self, out: ClientShellInput, out_after: ClientShellInput) -> bool {
        let key = self.active_key();
        if !self.supports(key) || self.snapshot is None
            || self.snapshot.unwrap().focused_workspace_id is None || self.creating_area(
            self.snapshot.unwrap().focused_workspace_id.unwrap()@,
        ) {
            &&& after == self
            &&& out_after == out
        } else {
            let ws = self.snapshot.unwrap().focused_workspace_id.unwrap()@;
            &&& out_after.repaint
            &&& match self.live_persistent_area() {
                Some(a) => {
                    let d = self.active_dock().unwrap()@;
                    let next = DockView {
                        boot_id: d.boot_id,
                        areas: d.areas.insert(
                            ws,
                            AreaView { tab_id: a.tab_id@, enabled: !a.enabled, settings: a.settings },
                        ),
                        pane_ids: d.pane_ids,
                        focus: None,
                    };
                    &&& after.same_but_docks_and_prefs(self)
                    &&& prefs_saved(self.config, self.preferences_dirty, after)
                    &&& after.endpoint_error == self.endpoint_error
                    &&& dock_updated(self.sticky@, after.sticky@, key, next)
                    &&& sent_dock(out.requests@, out_after.requests@, next)
                    &&& out_after.actions == out.actions
                },
                None => {
                    &&& create_pending_pushed(
                        self.pending_requests@,
                        after.pending_requests@,
                        self.next_request_id,
                        ws,
                        None,
                    )
                    &&& after.next_request_id == next_request(self.next_request_id)
                    &&& create_action_pushed(
                        out.actions@,
                        out_after.actions@,
                        self.active_endpoint_id,
                        self.next_request_id,
                        ws,
                    )
                    &&& out_after.requests == out.requests
                    &&& after.sticky == self.sticky
                    &&& after.same_fixed(self)
                },
            }
        }
    }

    /// What switching the persistent area's placement does (see
    /// `change_persistent_placement`).
    pub open spec fn placement_changed(self, after: Self, out: ClientShellInput, out_after: ClientShellInput) -> bool {
        let key = self.active_key();
        match self.snapshot {
            Some(s) => match s.focused_workspace_id {
                Some(w) => {
                    &&& after.same_but_docks_and_prefs(self)
                    &&& prefs_saved(self.config, self.preferences_dirty, after)
                    &&& after.endpoint_error == self.endpoint_error
                    &&& match self.active_dock() {
                        Some(d) => {
                            let next = if d@.areas.contains_key(w@) {
                                let a = d@.areas[w@];
                                DockView {
                                    boot_id: d@.boot_id,
                                    areas: d@.areas.insert(
                                        w@,
                                        AreaView {
                                            tab_id: a.tab_id,
                                            enabled: a.enabled,
                                            settings: a.settings.with_placement(
                                                a.settings.placement_value().spec_rotated(),
                                            ),
                                        },
                                    ),
                                    pane_ids: d@.pane_ids,
                                    focus: d@.focus,
                                }
                            } else {
                                d@
                            };
                            &&& d@.areas.contains_key(w@) ==> dock_updated(
                                self.sticky@,
                                after.sticky@,
                                key,
                                next,
                            )
                            &&& !d@.areas.contains_key(w@) ==> after.sticky == self.sticky
                            &&& sent_dock(out.requests@, out_after.requests@, next)
                            &&& out_after.actions == out.actions
                            &&& out_after.repaint
                        },
                        None => after.sticky == self.sticky && out_after
                            == out,
                    }
                },
                None => after == self && out_after == out,
            },
            None => after == self && out_after == out,
        }
    }

    /// What following a divider drag to `point` on `surface` does (see
    /// `resize_persistent_area`).
    pub open spec fn resized(
        self,
        after: Self,
        surface: Option<Rect>,
        point: (u16, u16),
        out: ClientShellInput,
        out_after: ClientShellInput,
    ) -> bool {
        let key = self.active_key();
        match (surface, self.snapshot) {
            (Some(sf), Some(s)) => match s.focused_workspace_id {
                Some(w) => {
                    &&& after.same_but_docks_and_prefs(self)
                    &&& prefs_saved(self.config, self.preferences_dirty, after)
                    &&& after.endpoint_error == self.endpoint_error
                    &&& match self.active_dock() {
                        Some(d) => {
                            let changed = d@.areas.contains_key(w@) && resize_target(
                                sf,
                                d@.areas[w@].settings.placement_value(),
                                point,
                            ) is Some;
                            let next = if changed {
                                let a = d@.areas[w@];
                                let p = resize_target(sf, a.settings.placement_value(), point).unwrap();
                                DockView {
                                    boot_id: d@.boot_id,
                                    areas: d@.areas.insert(
                                        w@,
                                        AreaView {
                                            tab_id: a.tab_id,
                                            enabled: a.enabled,
                                            settings: a.settings.with_percent(spec_clamp_percent(p)),
                                        },
                                    ),
                                    pane_ids: d@.pane_ids,
                                    focus: d@.focus,
                                }
                            } else {
                                d@
                            };
                            &&& changed ==> dock_updated(self.sticky@, after.sticky@, key, next)
                            &&& !changed ==> after.sticky == self.sticky
                            &&& sent_dock(out.requests@, out_after.requests@, next)
                            &&& out_after.actions == out.actions
                            &&& out_after.repaint
                        },
                        None => after.sticky == self.sticky && out_after
                            == out,
                    }
                },
                None => after == self && out_after == out,
            },
            _ => after == self && out_after == out,
        }
    }
}


/// Law: a click reaches the persistent area's backing tab only while that
/// area is shown. When `persistent_tab_at` names a tab, the active dock (of
/// the snapshot's boot) holds a shown area for the focused workspace backed
/// by that tab; with a hidden area no point names a tab.
pub proof fn lemma_tab_at_needs_shown_area(s: ClientShellState, surface: Option<Rect>, point: (u16, u16))
    ensures
        s.spec_persistent_tab_at(surface, point) matches Some(tab) ==> {
            &&& surface is Some
            &&& s.snapshot is Some
            &&& s.snapshot.unwrap().focused_workspace_id is Some
            &&& s.sticky@.contains_key(s.active_key())
            &&& s.sticky@[s.active_key()].boot_id@ == s.snapshot.unwrap().boot_id@
            &&& s.sticky@[s.active_key()].areas@.contains_key(s.snapshot.unwrap().focused_workspace_id.unwrap()@)
            &&& s.sticky@[s.active_key()].areas@[s.snapshot.unwrap().focused_workspace_id.unwrap()@].enabled
            &&& s.sticky@[s.active_key()].areas@[s.snapshot.unwrap().focused_workspace_id.unwrap()@].tab_id@
                == tab
        },
{
}


/// Law: while the focused workspace's area is shown, a point in the
/// persistent region of the split surface reaches the area's backing tab.
pub proof fn lemma_tab_at_shown_area(s: ClientShellState, surface: Rect, point: (u16, u16))
    requires
        s.snapshot is Some,
        s.snapshot.unwrap().focused_workspace_id is Some,
        s.sticky@.contains_key(s.active_key()),
        s.sticky@[s.active_key()].boot_id@ == s.snapshot.unwrap().boot_id@,
        s.sticky@[s.active_key()].areas@.contains_key(s.snapshot.unwrap().focused_workspace_id.unwrap()@),
        s.sticky@[s.active_key()].areas@[s.snapshot.unwrap().focused_workspace_id.unwrap()@].enabled,
        ({
            let a = s.sticky@[s.active_key()].areas@[s.snapshot.unwrap().focused_workspace_id.unwrap()@];
            spec_split(surface, a.settings.placement_value(), a.settings.percent_value()).persistent.spec_contains(
                point,
            )
        }),
    ensures
        s.spec_persistent_tab_at(Some(surface), point) == Some(
            s.sticky@[s.active_key()].areas@[s.snapshot.unwrap().focused_workspace_id.unwrap()@].tab_id@,
        ),
{
}

} // verus!
