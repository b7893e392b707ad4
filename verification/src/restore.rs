//! Durable presentation preferences. Only opaque session identities cross
//! boots; leases, focus and public pane identifiers are always rebuilt from
//! the current snapshot.
use vstd::prelude::*;
use crate::client::{
    area_pane_ids, dock_updated, empty_dock, sent_dock, shown_pane_ids, ClientEndpointId, ClientMessage,
    ClientShellConfig, ClientShellInput, ClientShellState, PersistentAreaPreference, PersistentIdentity,
};
use crate::dock::{areas_view, same_dock, AreaView, DockView, PaneDock, WorkspaceArea, KIND};
use crate::snapshot::{lemma_filter_take_step, lemma_take_full, ClientShellSnapshot, SnapshotView, TabSummary, TabView};
use crate::str_map::StrMap;

verus! {

/// What a saved preference means.
pub struct PrefView {
    pub endpoint: Seq<char>,
    pub workspace_id: Seq<char>,
    pub persistent_tab_id: Seq<char>,
    pub area: AreaView,
}

impl View for PersistentAreaPreference {
    type V = PrefView;

    open spec fn view(&self) -> PrefView {
        PrefView {
            endpoint: self.endpoint@,
            workspace_id: self.workspace_id@,
            persistent_tab_id: self.persistent_tab_id@,
            area: self.area@,
        }
    }
}

pub open spec fn prefs_view(v: Seq<PersistentAreaPreference>) -> Seq<PrefView> {
    v.map_values(|p: PersistentAreaPreference| p@)
}

pub open spec fn ids_view(m: Map<Seq<char>, String>) -> Map<Seq<char>, Seq<char>> {
    m.map_values(|s: String| s@)
}

/// The identities already accepted from the endpoint are newer: a later
/// generation, or the same generation and boot with a later revision.
pub open spec fn identities_stale(prev: Option<PersistentIdentity>, generation: u64, snap: SnapshotView) -> bool {
    match prev {
        Some(p) => p.generation > generation || (p.generation == generation && p.boot_id@ == snap.boot_id
            && p.revision > snap.revision),
        None => false,
    }
}

/// An area survives new identities unless its backing tab was known before
/// and is no longer a tab of its workspace. A just-created backing tab that
/// no snapshot has shown yet is kept.
pub open spec fn kept_area(
    prev_ids: Option<Map<Seq<char>, Seq<char>>>,
    snap: SnapshotView,
    ws: Seq<char>,
    area: AreaView,
) -> bool {
    let known = match prev_ids {
        Some(ids) => ids.contains_key(area.tab_id),
        None => false,
    };
    !known || snap.has_tab_in_workspace(area.tab_id, ws)
}

pub open spec fn kept_areas(
    prev_ids: Option<Map<Seq<char>, Seq<char>>>,
    snap: SnapshotView,
    areas: Map<Seq<char>, AreaView>,
) -> Map<Seq<char>, AreaView> {
    Map::new(
        |ws: Seq<char>| areas.contains_key(ws) && kept_area(prev_ids, snap, ws, areas[ws]),
        |ws: Seq<char>| areas[ws],
    )
}

/// The tab belongs to `ws` and has the durable identity `token`.
pub open spec fn tab_matches(ids: Map<Seq<char>, Seq<char>>, ws: Seq<char>, token: Seq<char>, t: TabView) -> bool {
    &&& t.workspace_id == ws
    &&& ids.contains_key(t.tab_id)
    &&& ids[t.tab_id] == token
}

pub open spec fn matching_tabs(
    snap: SnapshotView,
    ids: Map<Seq<char>, Seq<char>>,
    ws: Seq<char>,
    token: Seq<char>,
) -> Seq<TabView> {
    snap.tabs.filter(|t: TabView| tab_matches(ids, ws, token, t))
}

/// The areas after the saved preferences of endpoint `key` are applied in
/// order: a workspace without an area gets the saved one when exactly one
/// tab of the workspace carries the saved durable identity. Ownership is
/// never inferred from a label, a public number or tab order.
pub open spec fn restored_areas(
    prefs: Seq<PrefView>,
    key: Seq<char>,
    ids: Map<Seq<char>, Seq<char>>,
    snap: SnapshotView,
    areas: Map<Seq<char>, AreaView>,
) -> Map<Seq<char>, AreaView>
    decreases prefs.len(),
{
    if prefs.len() == 0 {
        areas
    } else {
        let prev = restored_areas(prefs.drop_last(), key, ids, snap, areas);
        let saved = prefs.last();
        if saved.endpoint != key || prev.contains_key(saved.workspace_id) {
            prev
        } else {
            let m = matching_tabs(snap, ids, saved.workspace_id, saved.persistent_tab_id);
            if m.len() == 1 {
                prev.insert(
                    saved.workspace_id,
                    AreaView { tab_id: m[0].tab_id, enabled: saved.area.enabled, settings: saved.area.settings },
                )
            } else {
                prev
            }
        }
    }
}

/// The dock of endpoint `key` that new identities start from.
pub open spec fn dock_base_for(docks: Map<Seq<char>, PaneDock>, key: Seq<char>, boot: Seq<char>) -> DockView {
    if docks.contains_key(key) && docks[key].boot_id@ == boot {
        docks[key]@
    } else {
        empty_dock(boot)
    }
}

/// The dock after new identities are accepted.
pub open spec fn restored_dock(
    base: DockView,
    prefs: Seq<PrefView>,
    key: Seq<char>,
    ids: Map<Seq<char>, Seq<char>>,
    prev_ids: Option<Map<Seq<char>, Seq<char>>>,
    snap: SnapshotView,
) -> DockView {
    let areas = restored_areas(prefs, key, ids, snap, kept_areas(prev_ids, snap, base.areas));
    DockView {
        boot_id: base.boot_id,
        areas,
        pane_ids: if areas.dom() != Set::<Seq<char>>::empty() {
            area_pane_ids(areas, snap.panes)
        } else {
            base.pane_ids
        },
        focus: base.focus,
    }
}

/// True when the tab belongs to `ws` and carries the identity `token`.
fn tab_matches_exec(ids: &StrMap<String>, ws: &String, token: &String, tab: &TabSummary) -> (r: bool)
    ensures
        r == tab_matches(ids_view(ids@), ws@, token@, tab@),
{
    if tab.workspace_id != *ws {
        return false;
    }
    match ids.get(&tab.tab_id) {
        Some(v) => *v == *token,
        None => false,
    }
}

/// The only tab of `ws` that carries `token`, if exactly one does.
fn unique_matching_tab(snap: &ClientShellSnapshot, ids: &StrMap<String>, ws: &String, token: &String) -> (r:
    Option<String>)
    ensures
        ({
            let m = matching_tabs(snap@, ids_view(ids@), ws@, token@);
            match r {
                Some(t) => m.len() == 1 && t@ == m[0].tab_id,
                None => m.len() != 1,
            }
        }),
{
    let ghost tabs = snap@.tabs;
    let ghost pred = |t: TabView| tab_matches(ids_view(ids@), ws@, token@, t);
    let n = snap.tabs.len();
    let mut count: usize = 0;
    let mut first: Option<String> = None;
    let mut i: usize = 0;
    while i < n
        invariant
            n == snap.tabs@.len(),
            tabs == snap@.tabs,
            pred == (|t: TabView| tab_matches(ids_view(ids@), ws@, token@, t)),
            i <= n,
            count == tabs.take(i as int).filter(pred).len(),
            count <= i,
            count > 0 <==> first is Some,
            count > 0 ==> first.unwrap()@ == tabs.take(i as int).filter(pred)[0].tab_id,
        decreases n - i,
    {
        proof {
            lemma_filter_take_step(tabs, pred, i as int);
            assert(tabs[i as int] == snap.tabs@[i as int]@);
        }
        if tab_matches_exec(ids, ws, token, &snap.tabs[i]) {
            if count == 0 {
                first = Some(snap.tabs[i].tab_id.clone());
            }
            count = count + 1;
        }
        i = i + 1;
    }
    proof {
        lemma_take_full(tabs);
    }
    if count == 1 {
        first
    } else {
        None
    }
}

/// The kept areas of `dock` (see `kept_area`), by entry.
fn keep_mask(areas: &StrMap<WorkspaceArea>, prev: Option<&StrMap<String>>, snap: &ClientShellSnapshot) -> (r: Vec<bool>)
    ensures
        r@.len() == areas.keys().len(),
        areas.well_indexed(),
        forall|i: int|
            0 <= i < r@.len() ==> r@[i] == kept_area(
                match prev {
                    Some(ids) => Some(ids_view(ids@)),
                    None => None,
                },
                snap@,
                areas.keys()[i],
                areas@[areas.keys()[i]]@,
            ),
{
    let n = areas.len();
    let mut keep: Vec<bool> = Vec::new();
    let mut i: usize = 0;
    while i < n
        invariant
            n == areas.keys().len(),
            areas.well_indexed(),
            i <= n,
            keep@.len() == i,
            forall|j: int|
                0 <= j < i ==> keep@[j] == kept_area(
                    match prev {
                        Some(ids) => Some(ids_view(ids@)),
                        None => None,
                    },
                    snap@,
                    areas.keys()[j],
                    areas@[areas.keys()[j]]@,
                ),
        decreases n - i,
    {
        let ws = areas.key_at(i);
        let area = areas.value_at(i);
        let known = match prev {
            Some(ids) => ids.contains_key(&area.tab_id),
            None => false,
        };
        keep.push(!known || snap.has_tab_in_workspace(&area.tab_id, ws));
        i = i + 1;
    }
    keep
}

impl ClientShellState {
    /// Accepts the durable tab identities that endpoint `endpoint` sent with
    /// a snapshot of generation `generation`. Stale identities are ignored.
    /// The endpoint's dock is rebuilt for the snapshot's boot: areas whose
    /// known backing tab left their workspace are dropped, saved areas are
    /// restored where exactly one tab carries their durable identity, and
    /// the sticky panes become the panes that enabled areas show. A change
    /// of generation or boot makes the dock be replayed again. Restoring
    /// never creates a tab.
    pub fn accept_persistent_identities(
        &mut self,
        endpoint: &ClientEndpointId,
        generation: u64,
        snapshot: &ClientShellSnapshot,
        identities: crate::dock::TabIdentities,
    )
        ensures
            ({
                let key = endpoint.key_view();
                let prev = if old(self).persistent_identities@.contains_key(key) {
                    Some(old(self).persistent_identities@[key])
                } else {
                    None
                };
                if !old(self).supports(key) || identities_stale(prev, generation, snapshot@) {
                    *final(self) == *old(self)
                } else {
                    let prev_ids = match prev {
                        Some(p) => Some(ids_view(p.tab_ids@)),
                        None => None,
                    };
                    let next = restored_dock(
                        dock_base_for(old(self).sticky@, key, snapshot@.boot_id),
                        prefs_view(old(self).config.persistent_areas@),
                        key,
                        ids_view(identities.persistent_tab_ids@),
                        prev_ids,
                        snapshot@,
                    );
                    let replay_reset = match prev {
                        Some(p) => p.generation != generation || p.boot_id@ != snapshot@.boot_id,
                        None => false,
                    };
                    &&& dock_updated(old(self).sticky@, final(self).sticky@, key, next)
                    &&& final(self).persistent_identities@.contains_key(key)
                    &&& final(self).persistent_identities@[key].boot_id@ == snapshot@.boot_id
                    &&& final(self).persistent_identities@[key].generation == generation
                    &&& final(self).persistent_identities@[key].revision == snapshot@.revision
                    &&& final(self).persistent_identities@[key].tab_ids == identities.persistent_tab_ids
                    &&& final(self).persistent_identities@.remove(key) == old(self).persistent_identities@.remove(key)
                    &&& final(self).sticky_replayed@ == (if replay_reset {
                        old(self).sticky_replayed@.remove(key)
                    } else {
                        old(self).sticky_replayed@
                    })
                    &&& final(self).config == old(self).config
                    &&& final(self).snapshot == old(self).snapshot
                    &&& final(self).active_endpoint_id == old(self).active_endpoint_id
                    &&& final(self).sticky_supported == old(self).sticky_supported
                    &&& final(self).pending_requests == old(self).pending_requests
                    &&& final(self).next_request_id == old(self).next_request_id
                    &&& final(self).preferences_dirty == old(self).preferences_dirty
                    &&& final(self).persistent_drag == old(self).persistent_drag
                    &&& final(self).overlay_open == old(self).overlay_open
                    &&& final(self).persistent_hits == old(self).persistent_hits
                    &&& final(self).endpoint_error == old(self).endpoint_error
                }
            }),
    {
        let key = endpoint.storage_key();
        if !self.sticky_supported.contains_key(&key) {
            return;
        }
        let ghost key_v = key@;
        let ghost prev_ids = if self.persistent_identities@.contains_key(key_v) {
            Some(ids_view(self.persistent_identities@[key_v].tab_ids@))
        } else {
            None
        };
        let (stale, replay_reset) = match self.persistent_identities.get(&key) {
            Some(p) => (
                p.generation > generation || (p.generation == generation && p.boot_id == snapshot.boot_id
                    && p.revision > snapshot.revision),
                p.generation != generation || p.boot_id != snapshot.boot_id,
            ),
            None => (false, false),
        };
        if stale {
            return;
        }
        let mut dock = match self.sticky.get(&key) {
            Some(d) => {
                if d.boot_id == snapshot.boot_id {
                    d.clone()
                } else {
                    PaneDock::for_boot(snapshot.boot_id.clone())
                }
            },
            None => PaneDock::for_boot(snapshot.boot_id.clone()),
        };
        let ghost base = dock_base_for(self.sticky@, key_v, snapshot@.boot_id);
        proof {
            assert(dock@.areas =~= base.areas);
            assert(dock@.pane_ids =~= base.pane_ids);
            assert(dock@ == base);
        }
        let keep = match self.persistent_identities.get(&key) {
            Some(p) => keep_mask(&dock.areas, Some(&p.tab_ids), snapshot),
            None => keep_mask(&dock.areas, None, snapshot),
        };
        let ghost before_retain = dock.areas;
        dock.areas.retain_mask(&keep);
        proof {
            let kept = kept_areas(prev_ids, snapshot@, base.areas);
            assert(areas_view(before_retain@) == base.areas);
            assert forall|ws: Seq<char>| #[trigger] areas_view(dock.areas@).contains_key(ws) implies kept.contains_key(ws)
                && areas_view(dock.areas@)[ws] == kept[ws] by {
                assert(dock.areas@.contains_key(ws));
                assert(before_retain@.contains_key(ws));
                assert(before_retain.keys().contains(ws));
                let j = choose|j: int| 0 <= j < before_retain.keys().len() && before_retain.keys()[j] == ws;
                assert(dock.areas@.contains_key(before_retain.keys()[j]) == keep@[j]);
                assert(base.areas.contains_key(ws));
                assert(base.areas[ws] == before_retain@[ws]@);
            }
            assert forall|ws: Seq<char>| #[trigger] kept.contains_key(ws) implies areas_view(dock.areas@).contains_key(ws) by {
                assert(before_retain.keys().contains(ws));
                let j = choose|j: int| 0 <= j < before_retain.keys().len() && before_retain.keys()[j] == ws;
                assert(keep@[j]);
            }
            assert(areas_view(dock.areas@) =~= kept);
        }
        let ids = &identities.persistent_tab_ids;
        let ghost prefs = prefs_view(self.config.persistent_areas@);
        let ghost idsv = ids_view(ids@);
        let ghost kept = kept_areas(prev_ids, snapshot@, base.areas);
        let n = self.config.persistent_areas.len();
        let mut i: usize = 0;
        let ghost d0 = dock;
        while i < n
            invariant
                dock.boot_id == d0.boot_id,
                dock.pane_ids == d0.pane_ids,
                dock.focus == d0.focus,
                n == self.config.persistent_areas@.len(),
                prefs == prefs_view(self.config.persistent_areas@),
                idsv == ids_view(ids@),
                key@ == key_v,
                i <= n,
                areas_view(dock.areas@) == restored_areas(prefs.take(i as int), key_v, idsv, snapshot@, kept),
            decreases n - i,
        {
            let saved = &self.config.persistent_areas[i];
            proof {
                assert(prefs.take(i + 1).drop_last() =~= prefs.take(i as int));
                assert(prefs.take(i + 1).last() == saved@);
            }
            if saved.endpoint == key && !dock.areas.contains_key(&saved.workspace_id) {
                match unique_matching_tab(snapshot, ids, &saved.workspace_id, &saved.persistent_tab_id) {
                    Some(tab) => {
                        let area = WorkspaceArea { tab_id: tab, enabled: saved.area.enabled, settings: saved.area.settings };
                        let ghost before = dock.areas@;
                        dock.areas.insert(saved.workspace_id.clone(), area);
                        proof {
                            assert(areas_view(dock.areas@) =~= areas_view(before).insert(saved.workspace_id@, area@));
                        }
                    },
                    None => {},
                }
            }
            i = i + 1;
        }
        proof {
            lemma_take_full(prefs);
        }
        if !dock.areas.is_empty() {
            dock.pane_ids = shown_pane_ids(&dock.areas, snapshot);
        }
        proof {
            assert(areas_view(dock.areas@).dom() =~= dock.areas@.dom());
        }
        if replay_reset {
            self.sticky_replayed.remove(&key);
        } else {
            proof {
                assert(self.sticky_replayed@ == old(self).sticky_replayed@);
            }
        }
        self.sticky.insert(key.clone(), dock);
        proof {
            assert(self.sticky@.remove(key_v) =~= old(self).sticky@.remove(key_v));
        }
        let record = PersistentIdentity {
            boot_id: snapshot.boot_id.clone(),
            generation,
            revision: snapshot.revision,
            tab_ids: identities.persistent_tab_ids,
        };
        self.persistent_identities.insert(key, record);
        proof {
            assert(self.persistent_identities@.remove(key_v) =~= old(self).persistent_identities@.remove(key_v));
        }
    }
}

/// The preference is the one of endpoint `e` and workspace `w`.
pub open spec fn pref_matches(p: PrefView, e: Seq<char>, w: Seq<char>) -> bool {
    p.endpoint == e && p.workspace_id == w
}

/// Index of the first preference of endpoint `e` and workspace `w`.
pub open spec fn pref_index(prefs: Seq<PrefView>, e: Seq<char>, w: Seq<char>) -> Option<int> {
    if exists|i: int| 0 <= i < prefs.len() && #[trigger] pref_matches(prefs[i], e, w) {
        Some(
            choose|i: int|
                0 <= i < prefs.len() && #[trigger] pref_matches(prefs[i], e, w) && forall|j: int|
                    0 <= j < i ==> !#[trigger] pref_matches(prefs[j], e, w),
        )
    } else {
        None
    }
}

/// `prefs` with `next` saved: it replaces the first preference of the same
/// endpoint and workspace, or is appended. The flag tells whether anything
/// changed.
pub open spec fn upserted(prefs: Seq<PrefView>, next: PrefView) -> (Seq<PrefView>, bool) {
    match pref_index(prefs, next.endpoint, next.workspace_id) {
        Some(i) => if prefs[i] == next {
            (prefs, false)
        } else {
            (prefs.update(i, next), true)
        },
        None => (prefs.push(next), true),
    }
}

/// The preferences after the areas of workspaces `keys` (in this order)
/// are saved for endpoint `key`; an area is saved only when its backing tab
/// has a non-empty durable identity. The flag tells whether anything
/// changed.
pub open spec fn saved_after(
    prefs: Seq<PrefView>,
    keys: Seq<Seq<char>>,
    areas: Map<Seq<char>, AreaView>,
    key: Seq<char>,
    ids: Map<Seq<char>, Seq<char>>,
) -> (Seq<PrefView>, bool)
    decreases keys.len(),
{
    if keys.len() == 0 {
        (prefs, false)
    } else {
        let (p, c) = saved_after(prefs, keys.drop_last(), areas, key, ids);
        let ws = keys.last();
        let area = areas[ws];
        if ids.contains_key(area.tab_id) && ids[area.tab_id].len() > 0 {
            let (p2, c2) = upserted(
                p,
                PrefView { endpoint: key, workspace_id: ws, persistent_tab_id: ids[area.tab_id], area },
            );
            (p2, c || c2)
        } else {
            (p, c)
        }
    }
}

/// Compares two preferences by content.
fn same_pref(a: &PersistentAreaPreference, b: &PersistentAreaPreference) -> (r: bool)
    ensures
        r == (a@ == b@),
{
    a.endpoint == b.endpoint && a.workspace_id == b.workspace_id && a.persistent_tab_id == b.persistent_tab_id
        && crate::dock::same_area(&a.area, &b.area)
}

/// Index of the first preference of endpoint `e` and workspace `w`.
fn find_pref(saved: &Vec<PersistentAreaPreference>, e: &String, w: &String) -> (r: Option<usize>)
    ensures
        match r {
            Some(i) => pref_index(prefs_view(saved@), e@, w@) == Some(i as int) && i < saved@.len(),
            None => pref_index(prefs_view(saved@), e@, w@) is None,
        },
{
    let ghost prefs = prefs_view(saved@);
    let n = saved.len();
    let mut i: usize = 0;
    while i < n
        invariant
            n == saved@.len(),
            prefs == prefs_view(saved@),
            i <= n,
            forall|j: int| 0 <= j < i ==> !#[trigger] pref_matches(prefs[j], e@, w@),
        decreases n - i,
    {
        if saved[i].endpoint == *e && saved[i].workspace_id == *w {
            proof {
                assert(pref_matches(prefs[i as int], e@, w@));
                let c = choose|c: int|
                    0 <= c < prefs.len() && #[trigger] pref_matches(prefs[c], e@, w@) && forall|j: int|
                        0 <= j < c ==> !#[trigger] pref_matches(prefs[j], e@, w@);
                if c < i {
                    assert(!pref_matches(prefs[c], e@, w@));
                }
                if c > i {
                    assert(!pref_matches(prefs[i as int], e@, w@));
                }
            }
            return Some(i);
        }
        proof {
            assert(!pref_matches(prefs[i as int], e@, w@));
        }
        i = i + 1;
    }
    None
}

/// The saved preferences of `after` are what saving its active dock makes
/// of `config` (marked for writing, on top of `dirty`, when they changed);
/// during a divider drag nothing is saved.
pub open spec fn prefs_saved(config: ClientShellConfig, dirty: bool, after: ClientShellState) -> bool {
    let before = ClientShellState { config: config, preferences_dirty: dirty, ..after };
    if !after.persistent_drag && before.spec_persist() is Some {
        &&& prefs_view(after.config.persistent_areas@) == before.spec_persist().unwrap().0
        &&& after.preferences_dirty == (dirty || before.spec_persist().unwrap().1)
    } else {
        &&& after.config == config
        &&& after.preferences_dirty == dirty
    }
}

impl ClientShellState {
    /// Queues the active dock for the endpoint. Unless a divider drag is
    /// under way, the areas of the dock are saved first as preferences (see
    /// `persist_persistent_areas`), so that they survive a restart.
    pub fn send_sticky(&mut self, outcome: &mut ClientShellInput)
        ensures
            prefs_saved(old(self).config, old(self).preferences_dirty, *final(self)),
            *final(self) == (ClientShellState {
                config: final(self).config,
                preferences_dirty: final(self).preferences_dirty,
                ..*old(self)
            }),
            match old(self).active_dock() {
                Some(d) => {
                    &&& sent_dock(old(outcome).requests@, final(outcome).requests@, d@)
                    &&& final(outcome).repaint
                    &&& final(outcome).actions == old(outcome).actions
                },
                None => *final(outcome) == *old(outcome),
            },
    {
        if !self.persistent_drag {
            self.persist_persistent_areas();
        }
        proof {
            let before = ClientShellState {
                config: old(self).config,
                preferences_dirty: old(self).preferences_dirty,
                ..*self
            };
            assert(before == *old(self));
        }
        let key = self.active_endpoint_id.storage_key();
        match self.sticky.get(&key) {
            Some(dock) => {
                let ghost before = outcome.requests@;
                outcome.requests.push(
                    ClientMessage::EndpointControl { kind: String::from_str(KIND), dock: dock.clone() },
                );
                outcome.repaint = true;
                proof {
                    assert(outcome.requests@.take(before.len() as int) =~= before);
                }
            },
            None => {},
        }
    }

    /// What `persist_persistent_areas` saves: none when the active endpoint
    /// has no dock, no accepted identities of the dock's boot, or no dock
    /// capability; else the new preferences and whether they changed.
    pub open spec fn spec_persist(self) -> Option<(Seq<PrefView>, bool)> {
        let key = self.active_key();
        if !self.sticky@.contains_key(key) || !self.persistent_identities@.contains_key(key)
            || self.persistent_identities@[key].boot_id@ != self.sticky@[key].boot_id@ || !self.supports(key) {
            None
        } else {
            let d = self.sticky@[key];
            Some(
                saved_after(
                    prefs_view(self.config.persistent_areas@),
                    d.areas.keys(),
                    areas_view(d.areas@),
                    key,
                    ids_view(self.persistent_identities@[key].tab_ids@),
                ),
            )
        }
    }

    /// Saves the areas of the active dock as preferences of the active
    /// endpoint, keyed by the durable identities of their backing tabs, and
    /// marks the preferences for writing when they changed.
    pub fn persist_persistent_areas(&mut self)
        ensures
            match old(self).spec_persist() {
                None => *final(self) == *old(self),
                Some((p, c)) => {
                    &&& prefs_view(final(self).config.persistent_areas@) == p
                    &&& final(self).preferences_dirty == (old(self).preferences_dirty || c)
                    &&& final(self).snapshot == old(self).snapshot
                    &&& final(self).active_endpoint_id == old(self).active_endpoint_id
                    &&& final(self).sticky_supported == old(self).sticky_supported
                    &&& final(self).sticky == old(self).sticky
                    &&& final(self).sticky_replayed == old(self).sticky_replayed
                    &&& final(self).persistent_identities == old(self).persistent_identities
                    &&& final(self).pending_requests == old(self).pending_requests
                    &&& final(self).next_request_id == old(self).next_request_id
                    &&& final(self).persistent_drag == old(self).persistent_drag
                    &&& final(self).overlay_open == old(self).overlay_open
                    &&& final(self).persistent_hits == old(self).persistent_hits
                    &&& final(self).endpoint_error == old(self).endpoint_error
                },
            },
    {
        let key = self.active_endpoint_id.storage_key();
        let ghost key_v = key@;
        match self.sticky.get(&key) {
            Some(dock) => match self.persistent_identities.get(&key) {
                Some(ident) => {
                    if ident.boot_id != dock.boot_id || !self.sticky_supported.contains_key(&key) {
                        return;
                    }
                },
                None => return,
            },
            None => return,
        }
        let mut saved: Vec<PersistentAreaPreference> = Vec::new();
        std::mem::swap(&mut saved, &mut self.config.persistent_areas);
        let mut changed = false;
        let ghost prefs0 = prefs_view(saved@);
        let ghost d = old(self).sticky@[key_v];
        let ghost idsv = ids_view(old(self).persistent_identities@[key_v].tab_ids@);
        let dock = match self.sticky.get(&key) {
            Some(d) => d,
            None => return,
        };
        let ident = match self.persistent_identities.get(&key) {
            Some(p) => p,
            None => return,
        };
        let n = dock.areas.len();
        let mut i: usize = 0;
        while i < n
            invariant
                n == dock.areas.keys().len(),
                dock.areas.well_indexed(),
                *dock == d,
                ident.tab_ids@ == old(self).persistent_identities@[key_v].tab_ids@,
                idsv == ids_view(ident.tab_ids@),
                key@ == key_v,
                i <= n,
                saved_after(prefs0, dock.areas.keys().take(i as int), areas_view(dock.areas@), key_v, idsv)
                    == (prefs_view(saved@), changed),
            decreases n - i,
        {
            let ws = dock.areas.key_at(i);
            let area = dock.areas.value_at(i);
            let ghost keys = dock.areas.keys();
            proof {
                assert(keys.take(i + 1).drop_last() =~= keys.take(i as int));
                assert(keys.take(i + 1).last() == ws@);
                assert(areas_view(dock.areas@)[ws@] == area@);
            }
            match ident.tab_ids.get(&area.tab_id) {
                Some(identity) => {
                    if !identity.as_str().is_empty() {
                        let next = PersistentAreaPreference {
                            endpoint: key.clone(),
                            workspace_id: ws.clone(),
                            persistent_tab_id: identity.clone(),
                            area: area.clone(),
                        };
                        match find_pref(&saved, &key, ws) {
                            Some(j) => {
                                if !same_pref(&saved[j], &next) {
                                    let ghost before = saved@;
                                    saved.set(j, next);
                                    changed = true;
                                    proof {
                                        assert(prefs_view(saved@) =~= prefs_view(before).update(j as int, next@));
                                    }
                                }
                            },
                            None => {
                                let ghost before = saved@;
                                saved.push(next);
                                changed = true;
                                proof {
                                    assert(prefs_view(saved@) =~= prefs_view(before).push(next@));
                                }
                            },
                        }
                    }
                },
                None => {},
            }
            i = i + 1;
        }
        proof {
            lemma_take_full(dock.areas.keys());
        }
        self.config.persistent_areas = saved;
        if changed {
            self.preferences_dirty = true;
        }
    }

    /// The active dock would be replayed now: it belongs to the snapshot's
    /// boot and differs from the dock last replayed to the endpoint.
    pub open spec fn would_replay(self) -> bool {
        let key = self.active_key();
        &&& self.supports(key)
        &&& self.sticky@.contains_key(key)
        &&& self.snapshot is Some
        &&& self.sticky@[key].boot_id@ == self.snapshot.unwrap().boot_id@
        &&& !(self.sticky_replayed@.contains_key(key) && self.sticky_replayed@[key]@ == self.sticky@[key]@)
    }

    /// Called after snapshot installation and surface activation: saves the
    /// areas (unless a divider drag is under way) and returns the dock to
    /// replay to the endpoint, if it changed since the last replay.
    /// Comparing payloads avoids snapshot/control feedback loops.
    pub fn persistent_replay(&mut self) -> (r: Option<ClientMessage>)
        ensures
            ({
                let key = old(self).active_key();
                &&& !old(self).supports(key) ==> r is None && *final(self) == *old(self)
                &&& old(self).supports(key) ==> {
                    &&& (!old(self).persistent_drag && old(self).spec_persist() is Some) ==> {
                        &&& prefs_view(final(self).config.persistent_areas@) == old(self).spec_persist().unwrap().0
                        &&& final(self).preferences_dirty == (old(self).preferences_dirty
                            || old(self).spec_persist().unwrap().1)
                    }
                    &&& (old(self).persistent_drag || old(self).spec_persist() is None) ==> {
                        &&& final(self).config == old(self).config
                        &&& final(self).preferences_dirty == old(self).preferences_dirty
                    }
                    &&& final(self).sticky == old(self).sticky
                    &&& final(self).snapshot == old(self).snapshot
                    &&& final(self).active_endpoint_id == old(self).active_endpoint_id
                    &&& final(self).sticky_supported == old(self).sticky_supported
                    &&& final(self).persistent_identities == old(self).persistent_identities
                    &&& final(self).pending_requests == old(self).pending_requests
                    &&& final(self).persistent_drag == old(self).persistent_drag
                    &&& final(self).next_request_id == old(self).next_request_id
                    &&& final(self).overlay_open == old(self).overlay_open
                    &&& final(self).persistent_hits == old(self).persistent_hits
                    &&& final(self).endpoint_error == old(self).endpoint_error
                    &&& (r is Some) == old(self).would_replay()
                    &&& match r {
                        Some(ClientMessage::EndpointControl { kind, dock }) => {
                            &&& kind@ == KIND@
                            &&& dock@ == old(self).sticky@[key]@
                            &&& final(self).sticky_replayed@.contains_key(key)
                            &&& final(self).sticky_replayed@[key]@ == old(self).sticky@[key]@
                            &&& final(self).sticky_replayed@.remove(key) == old(self).sticky_replayed@.remove(key)
                        },
                        None => final(self).sticky_replayed == old(self).sticky_replayed,
                    }
                }
            }),
    {
        let key = self.active_endpoint_id.storage_key();
        if !self.sticky_supported.contains_key(&key) {
            return None;
        }
        if !self.persistent_drag {
            self.persist_persistent_areas();
        }
        let dock = match self.sticky.get(&key) {
            Some(d) => d.clone(),
            None => return None,
        };
        let current = match &self.snapshot {
            Some(s) => s.boot_id == dock.boot_id,
            None => false,
        };
        if !current {
            return None;
        }
        let replayed = match self.sticky_replayed.get(&key) {
            Some(prev) => same_dock(prev, &dock),
            None => false,
        };
        if replayed {
            return None;
        }
        let message = ClientMessage::EndpointControl { kind: String::from_str(KIND), dock: dock.clone() };
        self.sticky_replayed.insert(key, dock);
        proof {
            assert(self.sticky_replayed@.remove(old(self).active_key()) =~= old(self).sticky_replayed@.remove(
                old(self).active_key(),
            ));
        }
        Some(message)
    }
}

/// Law: right after a dock was replayed, replaying again sends nothing
/// until the dock changes.
pub proof fn lemma_replay_is_quiet(s: ClientShellState)
    requires
        s.sticky@.contains_key(s.active_key()),
        s.sticky_replayed@.contains_key(s.active_key()),
        s.sticky_replayed@[s.active_key()]@ == s.sticky@[s.active_key()]@,
    ensures
        !s.would_replay(),
{
}

/// Restoring with preferences that name no area of endpoint `key` and
/// workspace `ws` leaves that workspace as it was.
pub proof fn lemma_restore_untouched(
    prefs: Seq<PrefView>,
    key: Seq<char>,
    ids: Map<Seq<char>, Seq<char>>,
    snap: SnapshotView,
    areas: Map<Seq<char>, AreaView>,
    ws: Seq<char>,
)
    requires
        forall|j: int| 0 <= j < prefs.len() ==> !#[trigger] pref_matches(prefs[j], key, ws),
    ensures
        restored_areas(prefs, key, ids, snap, areas).contains_key(ws) == areas.contains_key(ws),
        areas.contains_key(ws) ==> restored_areas(prefs, key, ids, snap, areas)[ws] == areas[ws],
    decreases prefs.len(),
{
    if prefs.len() > 0 {
        let rest = prefs.drop_last();
        assert forall|j: int| 0 <= j < rest.len() implies !#[trigger] pref_matches(rest[j], key, ws) by {
            assert(rest[j] == prefs[j]);
        }
        lemma_restore_untouched(rest, key, ids, snap, areas, ws);
        assert(!pref_matches(prefs[prefs.len() - 1], key, ws));
    }
}

/// Law: saved areas survive restarts. When `prefs[i]` is the first saved
/// area of endpoint `key` for its workspace, the workspace has no area yet,
/// and exactly one of its tabs carries the saved durable identity, then
/// restoring gives the workspace the saved area, backed by that tab.
pub proof fn lemma_restore_adopts_saved_area(
    prefs: Seq<PrefView>,
    key: Seq<char>,
    ids: Map<Seq<char>, Seq<char>>,
    snap: SnapshotView,
    areas: Map<Seq<char>, AreaView>,
    i: int,
)
    requires
        0 <= i < prefs.len(),
        prefs[i].endpoint == key,
        forall|j: int| 0 <= j < i ==> !#[trigger] pref_matches(prefs[j], key, prefs[i].workspace_id),
        !areas.contains_key(prefs[i].workspace_id),
        matching_tabs(snap, ids, prefs[i].workspace_id, prefs[i].persistent_tab_id).len() == 1,
    ensures
        ({
            let ws = prefs[i].workspace_id;
            let m = matching_tabs(snap, ids, ws, prefs[i].persistent_tab_id);
            let r = restored_areas(prefs, key, ids, snap, areas);
            &&& r.contains_key(ws)
            &&& r[ws] == AreaView {
                tab_id: m[0].tab_id,
                enabled: prefs[i].area.enabled,
                settings: prefs[i].area.settings,
            }
        }),
    decreases prefs.len(),
{
    let ws = prefs[i].workspace_id;
    let rest = prefs.drop_last();
    if i < prefs.len() - 1 {
        assert(rest[i] == prefs[i]);
        assert forall|j: int| 0 <= j < i implies !#[trigger] pref_matches(rest[j], key, ws) by {
            assert(rest[j] == prefs[j]);
        }
        lemma_restore_adopts_saved_area(rest, key, ids, snap, areas, i);
    } else {
        assert forall|j: int| 0 <= j < rest.len() implies !#[trigger] pref_matches(rest[j], key, ws) by {
            assert(rest[j] == prefs[j]);
        }
        lemma_restore_untouched(rest, key, ids, snap, areas, ws);
    }
}

/// Law: restoring never guesses. Areas already present are kept as they
/// are, and a workspace that gains an area gains it from a saved area of
/// endpoint `key` for that workspace, backed by a tab of that workspace
/// whose durable identity is the saved one.
pub proof fn lemma_restore_only_by_identity(
    prefs: Seq<PrefView>,
    key: Seq<char>,
    ids: Map<Seq<char>, Seq<char>>,
    snap: SnapshotView,
    areas: Map<Seq<char>, AreaView>,
    ws: Seq<char>,
)
    ensures
        ({
            let r = restored_areas(prefs, key, ids, snap, areas);
            &&& areas.contains_key(ws) ==> r.contains_key(ws) && r[ws] == areas[ws]
            &&& (r.contains_key(ws) && !areas.contains_key(ws)) ==> exists|j: int|
                0 <= j < prefs.len() && #[trigger] pref_matches(prefs[j], key, ws) && ids.contains_key(
                    r[ws].tab_id,
                ) && ids[r[ws].tab_id] == prefs[j].persistent_tab_id && snap.has_tab_in_workspace(
                    r[ws].tab_id,
                    ws,
                )
        }),
    decreases prefs.len(),
{
    broadcast use vstd::seq_lib::group_filter_ensures;

    if prefs.len() > 0 {
        let rest = prefs.drop_last();
        lemma_restore_only_by_identity(rest, key, ids, snap, areas, ws);
        let prev = restored_areas(rest, key, ids, snap, areas);
        let r = restored_areas(prefs, key, ids, snap, areas);
        let saved = prefs.last();
        if prev.contains_key(ws) && !areas.contains_key(ws) {
            let j = choose|j: int|
                0 <= j < rest.len() && #[trigger] pref_matches(rest[j], key, ws) && ids.contains_key(
                    prev[ws].tab_id,
                ) && ids[prev[ws].tab_id] == rest[j].persistent_tab_id && snap.has_tab_in_workspace(
                    prev[ws].tab_id,
                    ws,
                );
            assert(prefs[j] == rest[j]);
        }
        if !prev.contains_key(ws) && r.contains_key(ws) {
            let pred = |t: TabView| tab_matches(ids, ws, saved.persistent_tab_id, t);
            let m = snap.tabs.filter(pred);
            assert(m.len() == 1);
            assert(pred(m[0]));
            assert(m.contains(m[0]));
            snap.tabs.lemma_filter_contains_rev(pred, m[0]);
            let k = choose|k: int| 0 <= k < snap.tabs.len() && snap.tabs[k] == m[0];
            assert(snap.tabs[k].tab_id == r[ws].tab_id);
            assert(pref_matches(prefs[prefs.len() - 1], key, ws));
        }
    }
}

/// The first matching preference is the one `pref_index` names.
pub proof fn lemma_pref_index_first(prefs: Seq<PrefView>, e: Seq<char>, w: Seq<char>, i: int)
    requires
        0 <= i < prefs.len(),
        pref_matches(prefs[i], e, w),
        forall|j: int| 0 <= j < i ==> !#[trigger] pref_matches(prefs[j], e, w),
    ensures
        pref_index(prefs, e, w) == Some(i),
{
    let c = choose|c: int|
        0 <= c < prefs.len() && #[trigger] pref_matches(prefs[c], e, w) && forall|j: int|
            0 <= j < c ==> !#[trigger] pref_matches(prefs[j], e, w);
    assert(0 <= c < prefs.len() && pref_matches(prefs[c], e, w));
    if c < i {
        assert(!pref_matches(prefs[c], e, w));
    }
    if c > i {
        assert(!pref_matches(prefs[i], e, w));
    }
}

/// What `pref_index` names is a first matching preference.
pub proof fn lemma_pref_index_facts(prefs: Seq<PrefView>, e: Seq<char>, w: Seq<char>)
    ensures
        match pref_index(prefs, e, w) {
            Some(i) => 0 <= i < prefs.len() && pref_matches(prefs[i], e, w) && forall|j: int|
                0 <= j < i ==> !#[trigger] pref_matches(prefs[j], e, w),
            None => forall|j: int| 0 <= j < prefs.len() ==> !#[trigger] pref_matches(prefs[j], e, w),
        },
{
    if exists|i: int| 0 <= i < prefs.len() && #[trigger] pref_matches(prefs[i], e, w) {
        let i = choose|i: int| 0 <= i < prefs.len() && #[trigger] pref_matches(prefs[i], e, w);
        lemma_first_match_exists(prefs, e, w, i);
    }
}

/// A matching preference implies a first one.
proof fn lemma_first_match_exists(prefs: Seq<PrefView>, e: Seq<char>, w: Seq<char>, i: int)
    requires
        0 <= i < prefs.len(),
        pref_matches(prefs[i], e, w),
    ensures
        exists|c: int|
            0 <= c < prefs.len() && #[trigger] pref_matches(prefs[c], e, w) && forall|j: int|
                0 <= j < c ==> !#[trigger] pref_matches(prefs[j], e, w),
    decreases i,
{
    if exists|j: int| 0 <= j < i && #[trigger] pref_matches(prefs[j], e, w) {
        let j = choose|j: int| 0 <= j < i && #[trigger] pref_matches(prefs[j], e, w);
        lemma_first_match_exists(prefs, e, w, j);
    } else {
        assert(forall|j: int| 0 <= j < i ==> !#[trigger] pref_matches(prefs[j], e, w));
    }
}

/// Saving `next` makes it the first preference of its endpoint and
/// workspace.
pub proof fn lemma_upsert_sets(prefs: Seq<PrefView>, next: PrefView)
    ensures
        ({
            let r = upserted(prefs, next).0;
            pref_index(r, next.endpoint, next.workspace_id) matches Some(i) && r[i] == next
        }),
{
    let e = next.endpoint;
    let w = next.workspace_id;
    lemma_pref_index_facts(prefs, e, w);
    match pref_index(prefs, e, w) {
        Some(i) => {
            let r = upserted(prefs, next).0;
            assert forall|j: int| 0 <= j < i implies !#[trigger] pref_matches(r[j], e, w) by {
                assert(r[j] == prefs[j]);
            }
            lemma_pref_index_first(r, e, w, i);
        },
        None => {
            let r = prefs.push(next);
            assert forall|j: int| 0 <= j < prefs.len() implies !#[trigger] pref_matches(r[j], e, w) by {
                assert(r[j] == prefs[j]);
            }
            lemma_pref_index_first(r, e, w, prefs.len() as int);
        },
    }
}

/// Saving `next` leaves the preferences of other endpoints and workspaces
/// where they were.
pub proof fn lemma_upsert_keeps_others(prefs: Seq<PrefView>, next: PrefView, e: Seq<char>, w: Seq<char>)
    requires
        !(next.endpoint == e && next.workspace_id == w),
    ensures
        ({
            let r = upserted(prefs, next).0;
            &&& pref_index(r, e, w) == pref_index(prefs, e, w)
            &&& pref_index(prefs, e, w) matches Some(i) ==> r[i] == prefs[i]
        }),
{
    let r = upserted(prefs, next).0;
    lemma_pref_index_facts(prefs, e, w);
    lemma_pref_index_facts(prefs, next.endpoint, next.workspace_id);
    lemma_pref_index_facts(r, e, w);
    assert forall|j: int| 0 <= j < prefs.len() implies #[trigger] pref_matches(r[j], e, w) == pref_matches(
        prefs[j],
        e,
        w,
    ) by {
        if r[j] != prefs[j] {
            assert(pref_matches(r[j], next.endpoint, next.workspace_id));
            assert(pref_matches(prefs[j], next.endpoint, next.workspace_id));
        }
    }
    if r.len() > prefs.len() {
        assert(!pref_matches(r[prefs.len() as int], e, w));
    }
    match pref_index(prefs, e, w) {
        Some(i) => {
            assert forall|j: int| 0 <= j < i implies !#[trigger] pref_matches(r[j], e, w) by {
                assert(pref_matches(r[j], e, w) == pref_matches(prefs[j], e, w));
            }
            assert(pref_matches(r[i], e, w) == pref_matches(prefs[i], e, w));
            lemma_pref_index_first(r, e, w, i);
            if r[i] != prefs[i] {
                assert(pref_matches(prefs[i], next.endpoint, next.workspace_id));
            }
        },
        None => {
            match pref_index(r, e, w) {
                Some(i) => {
                    if i < prefs.len() {
                        assert(pref_matches(r[i], e, w) == pref_matches(prefs[i], e, w));
                    }
                },
                None => {},
            }
        },
    }
}

/// Law: saving records each area. After the areas of workspaces `keys`
/// are saved, every one of them whose backing tab has a non-empty durable
/// identity is the first preference of its endpoint and workspace, with
/// that identity and the area as it was.
pub proof fn lemma_persist_saves_area(
    prefs: Seq<PrefView>,
    keys: Seq<Seq<char>>,
    areas: Map<Seq<char>, AreaView>,
    key: Seq<char>,
    ids: Map<Seq<char>, Seq<char>>,
    k: int,
)
    requires
        keys.no_duplicates(),
        0 <= k < keys.len(),
        ids.contains_key(areas[keys[k]].tab_id),
        ids[areas[keys[k]].tab_id].len() > 0,
    ensures
        ({
            let ws = keys[k];
            let r = saved_after(prefs, keys, areas, key, ids).0;
            pref_index(r, key, ws) matches Some(i) && r[i] == PrefView {
                endpoint: key,
                workspace_id: ws,
                persistent_tab_id: ids[areas[ws].tab_id],
                area: areas[ws],
            }
        }),
    decreases keys.len(),
{
    let ws = keys[k];
    let rest = keys.drop_last();
    let p = saved_after(prefs, rest, areas, key, ids).0;
    let last = keys.last();
    if k == keys.len() - 1 {
        let next = PrefView { endpoint: key, workspace_id: last, persistent_tab_id: ids[areas[last].tab_id], area: areas[last] };
        lemma_upsert_sets(p, next);
    } else {
        assert(rest[k] == ws);
        assert(rest.no_duplicates()) by {
            assert forall|a: int, b: int| 0 <= a < rest.len() && 0 <= b < rest.len() && a != b implies rest[a]
                != rest[b] by {
                assert(rest[a] == keys[a] && rest[b] == keys[b]);
            }
        }
        lemma_persist_saves_area(prefs, rest, areas, key, ids, k);
        assert(last != ws) by {
            assert(keys[keys.len() - 1] != keys[k]);
        }
        let a = areas[last];
        if ids.contains_key(a.tab_id) && ids[a.tab_id].len() > 0 {
            let next = PrefView { endpoint: key, workspace_id: last, persistent_tab_id: ids[a.tab_id], area: a };
            lemma_upsert_keeps_others(p, next, key, ws);
        }
    }
}

/// Law: saved areas survive restarts. Once the areas of a dock are saved
/// for endpoint `key`, restoring for that endpoint on a session where
/// exactly one tab of the workspace carries the saved identity gives the
/// workspace its area back, shown and placed as saved and backed by that
/// tab, provided the workspace has no area yet.
pub proof fn lemma_persist_then_restore(
    prefs: Seq<PrefView>,
    keys: Seq<Seq<char>>,
    areas: Map<Seq<char>, AreaView>,
    key: Seq<char>,
    saved_ids: Map<Seq<char>, Seq<char>>,
    k: int,
    new_ids: Map<Seq<char>, Seq<char>>,
    snap: SnapshotView,
    current: Map<Seq<char>, AreaView>,
)
    requires
        keys.no_duplicates(),
        0 <= k < keys.len(),
        saved_ids.contains_key(areas[keys[k]].tab_id),
        saved_ids[areas[keys[k]].tab_id].len() > 0,
        !current.contains_key(keys[k]),
        matching_tabs(snap, new_ids, keys[k], saved_ids[areas[keys[k]].tab_id]).len() == 1,
    ensures
        ({
            let ws = keys[k];
            let saved = saved_after(prefs, keys, areas, key, saved_ids).0;
            let token = saved_ids[areas[ws].tab_id];
            let r = restored_areas(saved, key, new_ids, snap, current);
            &&& r.contains_key(ws)
            &&& r[ws] == AreaView {
                tab_id: matching_tabs(snap, new_ids, ws, token)[0].tab_id,
                enabled: areas[ws].enabled,
                settings: areas[ws].settings,
            }
        }),
{
    let ws = keys[k];
    let saved = saved_after(prefs, keys, areas, key, saved_ids).0;
    lemma_persist_saves_area(prefs, keys, areas, key, saved_ids, k);
    lemma_pref_index_facts(saved, key, ws);
    let i = pref_index(saved, key, ws).unwrap();
    lemma_restore_adopts_saved_area(saved, key, new_ids, snap, current, i);
}

} // verus!
