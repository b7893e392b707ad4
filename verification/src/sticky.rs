//! Sticky panes: a client keeps chosen panes of the focused workspace
//! visible beside its current tab, and may focus one of them without
//! navigating away from that tab.
use vstd::prelude::*;
use crate::client::{
    differs_from,
    dock_updated, empty_dock, is_extra_pane, next_request, live_pane_ids, reconciled, sent_dock, shown_pane_ids,
    toggled_pane_ids, without_string, ClientShellAction, ClientShellInput, ClientShellState,
    EndpointMethod, PendingEndpoint, PendingEndpointKind,
};
use crate::dock::{areas_view, clone_opt_string, clone_strings, contains_string, str_pair_view, str_seq, DockView, PaneDock, MAX_PANES};
use crate::snapshot::{opt_str_view, ClientShellSnapshot, SnapshotView};
use crate::restore::prefs_saved;

verus! {

impl ClientShellState {
    /// The view of the active dock after `pane` is toggled on `base`.
    pub open spec fn toggled_dock(base: DockView, pane: Seq<char>) -> DockView {
        let present = base.pane_ids.contains(pane);
        DockView {
            boot_id: base.boot_id,
            areas: base.areas,
            pane_ids: toggled_pane_ids(base.pane_ids, pane),
            focus: if present && (base.focus matches Some((_, p)) && p == pane) {
                None
            } else {
                base.focus
            },
        }
    }

    /// The error shown when a pane is refused because the dock is full.
    pub open spec fn sticky_full_message() -> Seq<char> {
        "At most 32 panes can be sticky in one connection"@
    }

    fn set_endpoint_error_full(&mut self)
        ensures
            final(self).same_but_docks(*old(self)),
            final(self).sticky == old(self).sticky,
            final(self).endpoint_error matches Some(m) && m@ == Self::sticky_full_message(),
    {
        self.endpoint_error = Some(String::from_str("At most 32 panes can be sticky in one connection"));
    }

    /// Makes `pane` sticky for the active endpoint, or stops it being
    /// sticky. Only panes of the current snapshot are accepted, and at most
    /// `MAX_PANES` panes can be sticky; past that the request is refused
    /// with an error message.
    pub fn toggle_sticky(&mut self, pane: String, outcome: &mut ClientShellInput)
        ensures
            ({
                let key = old(self).active_key();
                if !old(self).supports(key) || old(self).snapshot is None
                    || !old(self).snapshot.unwrap()@.has_pane(pane@) {
                    &&& *final(self) == *old(self)
                    &&& *final(outcome) == *old(outcome)
                } else {
                    let base = old(self).dock_base(old(self).snapshot.unwrap()@);
                    let full = !base.pane_ids.contains(pane@) && base.pane_ids.len() >= MAX_PANES;
                    let next = Self::toggled_dock(base, pane@);
                    &&& final(self).same_but_docks_and_prefs(*old(self))
                    &&& dock_updated(old(self).sticky@, final(self).sticky@, key, next)
                    &&& full ==> {
                        &&& final(self).endpoint_error matches Some(m) && m@ == Self::sticky_full_message()
                        &&& final(self).config == old(self).config
                        &&& final(self).preferences_dirty == old(self).preferences_dirty
                        &&& *final(outcome) == *old(outcome)
                    }
                    &&& !full ==> {
                        &&& prefs_saved(old(self).config, old(self).preferences_dirty, *final(self))
                        &&& final(self).endpoint_error == old(self).endpoint_error
                        &&& sent_dock(old(outcome).requests@, final(outcome).requests@, next)
                        &&& final(outcome).actions == old(outcome).actions
                        &&& final(outcome).repaint
                    }
                }
            }),
    {
        let key = self.active_endpoint_id.storage_key();
        if !self.sticky_supported.contains_key(&key) {
            return;
        }
        let boot = match &self.snapshot {
            Some(s) => {
                if !s.has_pane(&pane) {
                    return;
                }
                s.boot_id.clone()
            },
            None => return,
        };
        let ghost base = old(self).dock_base(old(self).snapshot.unwrap()@);
        let mut dock = self.active_dock_for_boot(&boot);
        assert(dock@ == base);
        if contains_string(&dock.pane_ids, &pane) {
            dock.pane_ids = without_string(&dock.pane_ids, &pane);
            let clear = match &dock.focus {
                Some((_, p)) => *p == pane,
                None => false,
            };
            if clear {
                dock.focus = None;
            }
        } else if dock.pane_ids.len() < MAX_PANES {
            dock.pane_ids.push(pane);
            proof {
                assert(str_seq(dock.pane_ids@) =~= base.pane_ids.push(pane@));
            }
        } else {
            self.sticky.insert(key, dock);
            self.set_endpoint_error_full();
            proof {
                assert(self.sticky@.remove(self.active_key()) =~= old(self).sticky@.remove(self.active_key()));
            }
            return;
        }
        proof {
            assert(dock@ == Self::toggled_dock(base, pane@));
        }
        self.sticky.insert(key, dock);
        proof {
            assert(self.sticky@.remove(self.active_key()) =~= old(self).sticky@.remove(self.active_key()));
        }
        self.send_sticky(outcome);
    }

    /// The spec of `sticky_focus`.
    pub open spec fn spec_sticky_focus(self) -> Option<Seq<char>> {
        match (self.snapshot, self.active_dock()) {
            (Some(s), Some(d)) => match d.focus {
                Some((t, p)) => if d.boot_id@ == s.boot_id@ && Some(t@) == s@.focused_tab_id
                    && s@.has_pane(p@) {
                    Some(p@)
                } else {
                    None
                },
                None => None,
            },
            _ => None,
        }
    }

    /// The extra pane that has the client's focus, while it still exists
    /// and the client still views the tab it was focused from.
    pub fn sticky_focus(&self) -> (r: Option<String>)
        ensures
            opt_str_view(r) == self.spec_sticky_focus(),
    {
        let snapshot = match &self.snapshot {
            Some(s) => s,
            None => return None,
        };
        let key = self.active_endpoint_id.storage_key();
        let dock = match self.sticky.get(&key) {
            Some(d) => d,
            None => return None,
        };
        match &dock.focus {
            Some((tab, pane)) => {
                let same_tab = match &snapshot.focused_tab_id {
                    Some(t) => *t == *tab,
                    None => false,
                };
                if dock.boot_id == snapshot.boot_id && same_tab && snapshot.has_pane(pane) {
                    Some(pane.clone())
                } else {
                    None
                }
            },
            None => None,
        }
    }

    /// A mouse focus on an extra pane must not navigate to its owning tab:
    /// the focus is kept in the dock instead. Returns whether `pane` is such
    /// an extra pane (sticky, in the focused workspace, outside the focused
    /// tab). Focusing anything else clears a dock focus.
    pub fn focus_sticky(&mut self, pane: &String, outcome: &mut ClientShellInput) -> (r: bool)
        ensures
            old(self).focus_recorded(pane@, r, *final(self), *old(outcome), *final(outcome)),
    {
        let extra = match &self.snapshot {
            Some(snapshot) => {
                if !self.pane_is_sticky(pane) {
                    false
                } else {
                    self.is_extra(snapshot, pane)
                }
            },
            None => return false,
        };
        let focus = match &self.snapshot {
            Some(snapshot) => match &snapshot.focused_tab_id {
                Some(tab) => Some((tab.clone(), pane.clone())),
                None => None,
            },
            None => None,
        };
        let key = self.active_endpoint_id.storage_key();
        let current = match self.sticky.get(&key) {
            Some(dock) => {
                if extra || dock.focus.is_some() {
                    let mut next = dock.clone();
                    next.focus = if extra { focus } else { None };
                    Some(next)
                } else {
                    None
                }
            },
            None => None,
        };
        match current {
            Some(next) => {
                self.sticky.insert(key, next);
                proof {
                    assert(self.sticky@.remove(self.active_key()) =~= old(self).sticky@.remove(self.active_key()));
                }
                self.send_sticky(outcome);
            },
            None => {},
        }
        extra
    }

    /// Whether the snapshot lists `pane` in the focused workspace outside
    /// the focused tab.
    fn is_extra(&self, snapshot: &ClientShellSnapshot, pane: &String) -> (r: bool)
        ensures
            r == is_extra_pane(snapshot@, pane@),
    {
        let n = snapshot.panes.len();
        let mut i: usize = 0;
        while i < n
            invariant
                n == snapshot.panes@.len(),
                i <= n,
                forall|j: int| 0 <= j < i ==> !({
                    let p = #[trigger] snapshot@.panes[j];
                    p.pane_id == pane@ && Some(p.workspace_id) == snapshot@.focused_workspace_id
                        && Some(p.tab_id) != snapshot@.focused_tab_id
                }),
            decreases n - i,
        {
            let p = &snapshot.panes[i];
            let in_workspace = match &snapshot.focused_workspace_id {
                Some(w) => p.workspace_id == *w,
                None => false,
            };
            let other_tab = match &snapshot.focused_tab_id {
                Some(t) => p.tab_id != *t,
                None => true,
            };
            proof {
                assert(snapshot@.panes[i as int] == snapshot.panes@[i as int]@);
            }
            if p.pane_id == *pane && in_workspace && other_tab {
                proof {
                    assert(snapshot@.panes[i as int].pane_id == pane@);
                }
                return true;
            }
            i = i + 1;
        }
        false
    }

    /// Brings the active dock in line with a new snapshot (see
    /// `reconciled`).
    pub fn reconcile_sticky(&mut self, snapshot: &ClientShellSnapshot)
        ensures
            final(self).same_but_docks(*old(self)),
            final(self).endpoint_error == old(self).endpoint_error,
            match old(self).active_dock() {
                Some(d) => dock_updated(
                    old(self).sticky@,
                    final(self).sticky@,
                    old(self).active_key(),
                    reconciled(d@, snapshot@),
                ),
                None => final(self).sticky == old(self).sticky,
            },
    {
        let key = self.active_endpoint_id.storage_key();
        let next = match self.sticky.get(&key) {
            Some(dock) => {
                if dock.boot_id != snapshot.boot_id {
                    let r = PaneDock::for_boot(snapshot.boot_id.clone());
                    proof {
                        assert(r@.areas =~= empty_dock(snapshot@.boot_id).areas);
                        assert(r@.pane_ids =~= empty_dock(snapshot@.boot_id).pane_ids);
                    }
                    r
                } else {
                    let base = if !dock.areas.is_empty() {
                        shown_pane_ids(&dock.areas, snapshot)
                    } else {
                        clone_strings(&dock.pane_ids)
                    };
                    let ids = live_pane_ids(&base, snapshot);
                    let clear = match &dock.focus {
                        Some((t, p)) => {
                            let other_tab = match &snapshot.focused_tab_id {
                                Some(ft) => *ft != *t,
                                None => true,
                            };
                            other_tab || !contains_string(&ids, p)
                        },
                        None => false,
                    };
                    let mut next = dock.clone();
                    next.pane_ids = ids;
                    if clear {
                        next.focus = None;
                    }
                    proof {
                        assert(areas_view(dock.areas@).dom() =~= dock.areas@.dom());
                        assert(next@ == reconciled(dock@, snapshot@));
                    }
                    next
                }
            },
            None => return,
        };
        self.sticky.insert(key, next);
        proof {
            assert(self.sticky@.remove(self.active_key()) =~= old(self).sticky@.remove(self.active_key()));
        }
    }

    /// Installs a new snapshot, reconciling the active dock with it first.
    pub fn set_snapshot(&mut self, snapshot: ClientShellSnapshot)
        ensures
            final(self).snapshot == Some(snapshot),
            final(self).endpoint_error == old(self).endpoint_error,
            final(self).config == old(self).config,
            final(self).active_endpoint_id == old(self).active_endpoint_id,
            final(self).sticky_supported == old(self).sticky_supported,
            final(self).sticky_replayed == old(self).sticky_replayed,
            final(self).persistent_identities == old(self).persistent_identities,
            final(self).pending_requests == old(self).pending_requests,
            final(self).next_request_id == old(self).next_request_id,
            final(self).preferences_dirty == old(self).preferences_dirty,
            final(self).persistent_drag == old(self).persistent_drag,
            final(self).overlay_open == old(self).overlay_open,
            final(self).persistent_hits == old(self).persistent_hits,
            match old(self).active_dock() {
                Some(d) => dock_updated(
                    old(self).sticky@,
                    final(self).sticky@,
                    old(self).active_key(),
                    reconciled(d@, snapshot@),
                ),
                None => final(self).sticky == old(self).sticky,
            },
    {
        self.reconcile_sticky(&snapshot);
        self.snapshot = Some(snapshot);
    }

    /// The focused pane: the dock's focused extra pane, else the
    /// snapshot's focused pane.
    pub fn focused_pane_id(&self) -> (r: Option<String>)
        ensures
            opt_str_view(r) == match self.spec_sticky_focus() {
                Some(p) => Some(p),
                None => match self.snapshot {
                    Some(s) => s@.focused_pane_id,
                    None => None,
                },
            },
    {
        match self.sticky_focus() {
            Some(p) => Some(p),
            None => match &self.snapshot {
                Some(s) => clone_opt_string(&s.focused_pane_id),
                None => None,
            },
        }
    }

    /// Sends `request` to the active endpoint, awaiting its response as
    /// `kind`.
    pub fn push_endpoint_method_with_kind(
        &mut self,
        request: EndpointMethod,
        kind: PendingEndpointKind,
        outcome: &mut ClientShellInput,
    )
        ensures
            final(self).pending_requests@ == old(self).pending_requests@.push(
                PendingEndpoint { request_id: old(self).next_request_id, kind },
            ),
            final(self).next_request_id == next_request(old(self).next_request_id),
            final(outcome).actions@ == old(outcome).actions@.push(
                ClientShellAction::Endpoint {
                    endpoint_id: old(self).active_endpoint_id,
                    request_id: old(self).next_request_id,
                    request,
                },
            ),
            final(outcome).requests == old(outcome).requests,
            final(outcome).repaint == old(outcome).repaint,
            final(self).same_fixed(*old(self)),
            final(self).sticky == old(self).sticky,
    {
        let id = self.next_request_id;
        self.next_request_id = if id == u64::MAX {
            0
        } else {
            id + 1
        };
        self.pending_requests.push(PendingEndpoint { request_id: id, kind });
        outcome.actions.push(
            ClientShellAction::Endpoint { endpoint_id: self.active_endpoint_id.clone(), request_id: id, request },
        );
    }

    /// Sends `request` to the active endpoint.
    pub fn push_endpoint_method(&mut self, request: EndpointMethod, outcome: &mut ClientShellInput)
        ensures
            old(self).request_pushed(*final(self), *old(outcome), *final(outcome), request),
    {
        self.push_endpoint_method_with_kind(request, PendingEndpointKind::Request, outcome);
    }

    /// Focuses a pane. An extra pane is focused in the dock, without a
    /// shared focus request; any other pane is focused through the
    /// endpoint.
    pub fn focus_pane(&mut self, pane: String, outcome: &mut ClientShellInput) -> (r: bool)
        ensures
            r == (old(self).snapshot is Some && old(self).spec_pane_is_sticky(pane@) && is_extra_pane(
                old(self).snapshot.unwrap()@,
                pane@,
            )),
            r ==> old(self).focus_recorded(pane@, true, *final(self), *old(outcome), *final(outcome)),
            !r ==> exists|mid: Self, mid_out: ClientShellInput|
                {
                    &&& #[trigger] old(self).focus_recorded(pane@, false, mid, *old(outcome), mid_out)
                    &&& mid.request_pushed(
                        *final(self),
                        mid_out,
                        *final(outcome),
                        EndpointMethod::PaneFocus { pane_id: pane },
                    )
                },
    {
        if self.focus_sticky(&pane, outcome) {
            true
        } else {
            let ghost mid = *self;
            let ghost mid_out = *outcome;
            let ghost request = EndpointMethod::PaneFocus { pane_id: pane };
            self.push_endpoint_method(EndpointMethod::PaneFocus { pane_id: pane }, outcome);
            proof {
                assert(old(self).focus_recorded(pane@, false, mid, *old(outcome), mid_out));
                assert(mid.request_pushed(*self, mid_out, *outcome, request));
            }
            false
        }
    }
}

impl ClientShellState {
    /// What focusing `pane` in the dock does, `r` telling whether it is an
    /// extra pane (see `focus_sticky`).
    pub open spec fn focus_recorded(
        self,
        pane: Seq<char>,
        r: bool,
        after: Self,
        out: ClientShellInput,
        out_after: ClientShellInput,
    ) -> bool {
        let key = self.active_key();
        match self.snapshot {
            None => !r && after == self && out_after == out,
            Some(s) => {
                let extra = self.spec_pane_is_sticky(pane) && is_extra_pane(s@, pane);
                &&& r == extra
                &&& after.same_but_docks_and_prefs(self)
                &&& after.endpoint_error == self.endpoint_error
                &&& match self.active_dock() {
                    Some(d) => {
                        let focus = match s@.focused_tab_id {
                            Some(t) => Some((t, pane)),
                            None => None,
                        };
                        if extra || d.focus is Some {
                            let next = DockView {
                                boot_id: d@.boot_id,
                                areas: d@.areas,
                                pane_ids: d@.pane_ids,
                                focus: if extra { focus } else { None },
                            };
                            &&& dock_updated(self.sticky@, after.sticky@, key, next)
                            &&& prefs_saved(self.config, self.preferences_dirty, after)
                            &&& sent_dock(out.requests@, out_after.requests@, next)
                            &&& out_after.actions == out.actions
                            &&& out_after.repaint
                        } else {
                            &&& after == self
                            &&& out_after == out
                        }
                    },
                    None => {
                        &&& after == self
                        &&& out_after == out
                    },
                }
            },
        }
    }

    /// What sending `request` to the active endpoint does (see
    /// `push_endpoint_method`).
    pub open spec fn request_pushed(
        self,
        after: Self,
        out: ClientShellInput,
        out_after: ClientShellInput,
        request: EndpointMethod,
    ) -> bool {
        &&& after.pending_requests@ == self.pending_requests@.push(
            PendingEndpoint { request_id: self.next_request_id, kind: PendingEndpointKind::Request },
        )
        &&& after.next_request_id == next_request(self.next_request_id)
        &&& out_after.actions@ == out.actions@.push(
            ClientShellAction::Endpoint {
                endpoint_id: self.active_endpoint_id,
                request_id: self.next_request_id,
                request,
            },
        )
        &&& out_after.requests == out.requests
        &&& out_after.repaint == out.repaint
        &&& after.same_fixed(self)
        &&& after.sticky == self.sticky
    }
}

/// Law: toggling a pane that is not sticky, with room for it, and then
/// toggling it again restores the sticky panes.
pub proof fn lemma_toggle_twice_restores(ids: Seq<Seq<char>>, pane: Seq<char>)
    requires
        !ids.contains(pane),
        ids.len() < MAX_PANES,
    ensures
        toggled_pane_ids(toggled_pane_ids(ids, pane), pane) == ids,
{
    let pushed = ids.push(pane);
    assert(pushed.contains(pane)) by {
        assert(pushed[ids.len() as int] == pane);
    }
    let pred = differs_from(pane);
    crate::snapshot::lemma_filter_take_step(pushed, pred, ids.len() as int);
    assert(pushed.take(ids.len() as int) =~= ids);
    assert(pushed.take(ids.len() as int + 1) =~= pushed);
    assert forall|i: int| 0 <= i < ids.len() implies pred(#[trigger] ids[i]) by {
        assert(ids.contains(ids[i]));
    }
    lemma_filter_keeps_all(ids, pred);
    assert(!pred(pushed[ids.len() as int]));
    assert(pushed.filter(pred) == ids.filter(pred));
    assert(toggled_pane_ids(ids, pane) == pushed);

}

/// Filtering with a predicate that every element passes changes nothing.
pub proof fn lemma_filter_keeps_all(s: Seq<Seq<char>>, pred: spec_fn(Seq<char>) -> bool)
    requires
        forall|i: int| 0 <= i < s.len() ==> pred(#[trigger] s[i]),
    ensures
        s.filter(pred) == s,
    decreases s.len(),
{
    reveal(Seq::filter);
    if s.len() > 0 {
        lemma_filter_keeps_all(s.drop_last(), pred);
        assert(s.drop_last().push(s.last()) =~= s);
    }
}

/// Law: toggling never lets a dock hold more than `MAX_PANES` sticky
/// panes, and a toggled pane is sticky afterwards exactly when it was not
/// before (unless the dock was full).
pub proof fn lemma_toggle_bounded(ids: Seq<Seq<char>>, pane: Seq<char>)
    requires
        ids.len() <= MAX_PANES,
    ensures
        toggled_pane_ids(ids, pane).len() <= MAX_PANES,
        ids.contains(pane) ==> !toggled_pane_ids(ids, pane).contains(pane),
        (!ids.contains(pane) && ids.len() < MAX_PANES) ==> toggled_pane_ids(ids, pane).contains(pane),
{
    broadcast use vstd::seq_lib::group_filter_ensures;

    let pred = differs_from(pane);
    if ids.contains(pane) {
        let f = ids.filter(pred);
        if f.contains(pane) {
            let k = choose|k: int| 0 <= k < f.len() && f[k] == pane;
            assert(pred(f[k]));
        }
    } else if ids.len() < MAX_PANES {
        assert(ids.push(pane)[ids.len() as int] == pane);
    }
}

/// Law: after reconciliation every sticky pane exists in the snapshot, and
/// a remaining focus is on a sticky pane of the focused tab; a dock of
/// another boot is reset.
pub proof fn lemma_reconciled_consistent(d: DockView, snap: SnapshotView)
    ensures
        ({
            let r = reconciled(d, snap);
            &&& r.boot_id == snap.boot_id
            &&& forall|k: int| 0 <= k < r.pane_ids.len() ==> snap.has_pane(#[trigger] r.pane_ids[k])
            &&& r.focus matches Some((t, p)) ==> Some(t) == snap.focused_tab_id && r.pane_ids.contains(p)
            &&& d.boot_id != snap.boot_id ==> r == empty_dock(snap.boot_id)
        }),
{
    broadcast use vstd::seq_lib::group_filter_ensures;

    if d.boot_id == snap.boot_id {
        let r = reconciled(d, snap);
        let pred = |id: Seq<char>| snap.has_pane(id);
        assert forall|k: int| 0 <= k < r.pane_ids.len() implies snap.has_pane(#[trigger] r.pane_ids[k]) by {
            assert(pred(r.pane_ids[k]));
        }
    }
}


/// Law: focusing a pane that is not an extra pane clears the dock focus.
/// After `focus_sticky` answers false with a snapshot present, the active
/// dock holds no focus, so no extra pane keeps the client's focus.
pub proof fn lemma_focus_elsewhere_clears(
    s: ClientShellState,
    pane: Seq<char>,
    after: ClientShellState,
    out: ClientShellInput,
    out_after: ClientShellInput,
)
    requires
        s.snapshot is Some,
        s.focus_recorded(pane, false, after, out, out_after),
    ensures
        after.sticky@.contains_key(after.active_key()) ==> after.sticky@[after.active_key()].focus is None,
        after.spec_sticky_focus() is None,
{
    let key = s.active_key();
    if s.sticky@.contains_key(key) {
        let d = s.sticky@[key];
        if d.focus is Some {
            assert(after.sticky@[key]@.focus is None);
        }
    }
}


/// Law: focusing an extra pane keeps the focus in the dock, on that pane
/// and from the tab being viewed, without navigating: the snapshot and the
/// awaited requests are unchanged.
pub proof fn lemma_focus_extra_records(
    s: ClientShellState,
    pane: Seq<char>,
    after: ClientShellState,
    out: ClientShellInput,
    out_after: ClientShellInput,
)
    requires
        s.focus_recorded(pane, true, after, out, out_after),
    ensures
        s.snapshot is Some,
        after.sticky@.contains_key(after.active_key()),
        str_pair_view(after.sticky@[after.active_key()].focus) == match s.snapshot.unwrap()@.focused_tab_id {
            Some(t) => Some((t, pane)),
            None => None,
        },
        after.snapshot == s.snapshot,
        after.pending_requests == s.pending_requests,
        out_after.actions == out.actions,
{
}

} // verus!
