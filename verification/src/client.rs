//! Client-owned sticky selection and persistent areas. The optional server
//! control supplies live pane presentation, not a second terminal or a
//! mutation of shared tab membership.
use vstd::prelude::*;
use crate::dock::{
    areas_view, contains_string, str_seq, AreaView, DockView, PaneDock, WorkspaceArea, KIND, MAX_PANES,
};
use crate::snapshot::{
    opt_str_view,
    lemma_filter_take_step, lemma_take_full, ClientShellSnapshot, PaneSummary, PaneView, SnapshotView,
};
use crate::str_map::StrMap;
use crate::geometry::Rect;

verus! {

/// The server connection a client talks to.
#[derive(Debug)]
pub enum ClientEndpointId {
    Local,
    Remote(String),
}

impl Clone for ClientEndpointId {
    fn clone(&self) -> (r: Self)
        ensures
            r == *self,
    {
        match self {
            ClientEndpointId::Local => ClientEndpointId::Local,
            ClientEndpointId::Remote(name) => ClientEndpointId::Remote(name.clone()),
        }
    }
}

impl ClientEndpointId {
    /// The key under which the endpoint's state and preferences are kept.
    pub open spec fn key_view(self) -> Seq<char> {
        match self {
            ClientEndpointId::Local => "local"@,
            ClientEndpointId::Remote(name) => "remote:"@ + name@,
        }
    }

    pub fn storage_key(&self) -> (r: String)
        ensures
            r@ == self.key_view(),
    {
        match self {
            ClientEndpointId::Local => String::from_str("local"),
            ClientEndpointId::Remote(name) => String::from_str("remote:").concat(name.as_str()),
        }
    }
}

/// A request method sent to the endpoint.
#[derive(Debug)]
pub enum EndpointMethod {
    /// Create a tab in a workspace without focusing it.
    TabCreate { workspace_id: String, label: String, focus: bool },
    /// Move a pane into a tab, splitting downward, without focusing it.
    PaneMove { pane_id: String, tab_id: String, focus: bool },
    /// Focus a pane through the shared session.
    PaneFocus { pane_id: String },
}

/// The outcome of a tab creation request.
#[derive(Debug)]
pub enum ResponseResult {
    TabCreated { tab_id: String, root_pane_id: String },
    Other,
}

/// A failed endpoint request.
#[derive(Debug)]
pub struct ClientShellEndpointError {
    pub message: String,
}

/// Why a request is awaited.
#[derive(Debug)]
pub enum PendingEndpointKind {
    /// Creation of the backing tab of a persistent area, possibly followed
    /// by moving a pane into it.
    PersistentCreate { workspace_id: String, move_pane: Option<String> },
    /// Any other request.
    Request,
}

#[derive(Debug)]
pub struct PendingEndpoint {
    pub request_id: u64,
    pub kind: PendingEndpointKind,
}

/// A control message for the connected endpoint.
#[derive(Debug)]
pub enum ClientMessage {
    /// The dock to apply, sent under the kind `KIND`.
    EndpointControl { kind: String, dock: PaneDock },
}

/// Work for the caller after handling input.
#[derive(Debug)]
pub enum ClientShellAction {
    Endpoint { endpoint_id: ClientEndpointId, request_id: u64, request: EndpointMethod },
    PaneDock { endpoint_id: ClientEndpointId, dock: PaneDock },
}

/// What handling one input produced.
#[derive(Debug)]
pub struct ClientShellInput {
    pub requests: Vec<ClientMessage>,
    pub actions: Vec<ClientShellAction>,
    pub repaint: bool,
}

impl Default for ClientShellInput {
    fn default() -> (r: Self)
        ensures
            r.requests@ == Seq::<ClientMessage>::empty(),
            r.actions@ == Seq::<ClientShellAction>::empty(),
            !r.repaint,
    {
        ClientShellInput { requests: Vec::new(), actions: Vec::new(), repaint: false }
    }
}

/// A saved persistent area: the endpoint and workspace it belongs to, the
/// durable identity of its backing tab, and its presentation.
#[derive(Debug)]
pub struct PersistentAreaPreference {
    pub endpoint: String,
    pub workspace_id: String,
    pub persistent_tab_id: String,
    pub area: WorkspaceArea,
}

impl Clone for PersistentAreaPreference {
    fn clone(&self) -> (r: Self)
        ensures
            r == *self,
    {
        PersistentAreaPreference {
            endpoint: self.endpoint.clone(),
            workspace_id: self.workspace_id.clone(),
            persistent_tab_id: self.persistent_tab_id.clone(),
            area: self.area.clone(),
        }
    }
}

/// The identities last accepted from an endpoint: the boot and generation
/// they came with, the snapshot revision, and the durable tab identities.
#[derive(Debug)]
pub struct PersistentIdentity {
    pub boot_id: String,
    pub generation: u64,
    pub revision: u64,
    pub tab_ids: StrMap<String>,
}

/// Client configuration that the dock rules read.
#[derive(Debug)]
pub struct ClientShellConfig {
    pub persistent_areas: Vec<PersistentAreaPreference>,
}

impl Default for ClientShellConfig {
    fn default() -> (r: Self)
        ensures
            r.persistent_areas@ == Seq::<PersistentAreaPreference>::empty(),
    {
        ClientShellConfig { persistent_areas: Vec::new() }
    }
}

/// Where the persistent-area controls were last drawn.
#[derive(Clone, Copy, Debug, PartialEq, Eq, Structural)]
pub struct PersistentHits {
    pub toggle: Rect,
    pub placement: Rect,
    pub divider: Rect,
}

impl Default for PersistentHits {
    fn default() -> (r: Self)
        ensures
            r.toggle == Rect::zero() && r.placement == Rect::zero() && r.divider == Rect::zero(),
    {
        PersistentHits { toggle: Rect::zero(), placement: Rect::zero(), divider: Rect::zero() }
    }
}

/// The client state that the dock rules read and change.
#[derive(Debug)]
pub struct ClientShellState {
    pub config: ClientShellConfig,
    pub snapshot: Option<ClientShellSnapshot>,
    pub active_endpoint_id: ClientEndpointId,
    /// Storage keys of the endpoints that advertise the dock capability.
    pub sticky_supported: StrMap<()>,
    /// The dock of each endpoint, by storage key.
    pub sticky: StrMap<PaneDock>,
    /// The dock last replayed to each endpoint, by storage key.
    pub sticky_replayed: StrMap<PaneDock>,
    /// Identities last accepted from each endpoint, by storage key.
    pub persistent_identities: StrMap<PersistentIdentity>,
    pub pending_requests: Vec<PendingEndpoint>,
    pub next_request_id: u64,
    /// The saved preferences changed and should be written out.
    pub preferences_dirty: bool,
    pub persistent_drag: bool,
    pub overlay_open: bool,
    pub persistent_hits: PersistentHits,
    pub endpoint_error: Option<String>,
}

/// The test "is not `pane`".
pub open spec fn differs_from(pane: Seq<char>) -> spec_fn(Seq<char>) -> bool {
    |x: Seq<char>| x != pane
}

/// The dock's pane list after `pane` is toggled: removed when present,
/// appended when absent and the list has room, else unchanged.
pub open spec fn toggled_pane_ids(ids: Seq<Seq<char>>, pane: Seq<char>) -> Seq<Seq<char>> {
    if ids.contains(pane) {
        ids.filter(differs_from(pane))
    } else if ids.len() < MAX_PANES {
        ids.push(pane)
    } else {
        ids
    }
}

/// `after` is `before` with the dock under `key` replaced by one equal to
/// `d`.
pub open spec fn dock_updated(
    before: Map<Seq<char>, PaneDock>,
    after: Map<Seq<char>, PaneDock>,
    key: Seq<char>,
    d: DockView,
) -> bool {
    &&& after.contains_key(key)
    &&& after[key]@ == d
    &&& after.remove(key) == before.remove(key)
}

/// The request number that follows `id`; numbering wraps around.
pub open spec fn next_request(id: u64) -> u64 {
    if id == u64::MAX {
        0
    } else {
        (id + 1) as u64
    }
}

/// `after` is `before` with one more awaited request: the creation of the
/// persistent area of `workspace` under request number `id`.
pub open spec fn create_pending_pushed(
    before: Seq<PendingEndpoint>,
    after: Seq<PendingEndpoint>,
    id: u64,
    workspace: Seq<char>,
    move_pane: Option<Seq<char>>,
) -> bool {
    &&& after.len() == before.len() + 1
    &&& after.take(before.len() as int) == before
    &&& after.last().request_id == id
    &&& match after.last().kind {
        PendingEndpointKind::PersistentCreate { workspace_id, move_pane: m } => workspace_id@
            == workspace && opt_str_view(m) == move_pane,
        _ => false,
    }
}

/// `after` is `before` with one more request to `endpoint` under number
/// `id`: creating an unfocused tab labelled "Persistent" in `workspace`.
pub open spec fn create_action_pushed(
    before: Seq<ClientShellAction>,
    after: Seq<ClientShellAction>,
    endpoint: ClientEndpointId,
    id: u64,
    workspace: Seq<char>,
) -> bool {
    &&& after.len() == before.len() + 1
    &&& after.take(before.len() as int) == before
    &&& match after.last() {
        ClientShellAction::Endpoint { endpoint_id, request_id, request } => {
            &&& endpoint_id == endpoint
            &&& request_id == id
            &&& match request {
                EndpointMethod::TabCreate { workspace_id, label, focus } => workspace_id@ == workspace
                    && label@ == "Persistent"@ && !focus,
                _ => false,
            }
        },
        _ => false,
    }
}

/// `after` is `before` with one more request to `endpoint` under number
/// `id`: moving `pane` into `tab` without focusing it.
pub open spec fn move_action_pushed(
    before: Seq<ClientShellAction>,
    after: Seq<ClientShellAction>,
    endpoint: ClientEndpointId,
    id: u64,
    pane: Seq<char>,
    tab: Seq<char>,
) -> bool {
    &&& after.len() == before.len() + 1
    &&& after.take(before.len() as int) == before
    &&& match after.last() {
        ClientShellAction::Endpoint { endpoint_id, request_id, request } => {
            &&& endpoint_id == endpoint
            &&& request_id == id
            &&& match request {
                EndpointMethod::PaneMove { pane_id, tab_id, focus } => pane_id@ == pane && tab_id@ == tab
                    && !focus,
                _ => false,
            }
        },
        _ => false,
    }
}

/// `after` is `before` with one more awaited plain request numbered `id`.
pub open spec fn request_pending_pushed(before: Seq<PendingEndpoint>, after: Seq<PendingEndpoint>, id: u64) -> bool {
    &&& after.len() == before.len() + 1
    &&& after.take(before.len() as int) == before
    &&& after.last().request_id == id
    &&& after.last().kind is Request
}

/// An empty dock view for a boot.
pub open spec fn empty_dock(boot_id: Seq<char>) -> DockView {
    DockView { boot_id, areas: Map::empty(), pane_ids: Seq::empty(), focus: None }
}

/// The enabled area of the pane's workspace is backed by the pane's tab.
pub open spec fn area_shows(areas: Map<Seq<char>, AreaView>, p: PaneView) -> bool {
    &&& areas.contains_key(p.workspace_id)
    &&& areas[p.workspace_id].enabled
    &&& areas[p.workspace_id].tab_id == p.tab_id
}

/// The panes that enabled areas show, in snapshot order.
pub open spec fn area_pane_ids(areas: Map<Seq<char>, AreaView>, panes: Seq<PaneView>) -> Seq<Seq<char>> {
    panes.filter(|p: PaneView| area_shows(areas, p)).map_values(|p: PaneView| p.pane_id)
}

/// The identifiers of `ids` that the snapshot still lists.
pub open spec fn live_ids(ids: Seq<Seq<char>>, snap: SnapshotView) -> Seq<Seq<char>> {
    ids.filter(|id: Seq<char>| snap.has_pane(id))
}

/// A dock brought in line with a new snapshot: a dock of another boot is
/// replaced by an empty one; otherwise the sticky panes become the panes of
/// enabled areas (when there are areas), panes that no longer exist are
/// dropped, and a focus on another tab or on a pane that is no longer
/// sticky is cleared.
pub open spec fn reconciled(d: DockView, snap: SnapshotView) -> DockView {
    if d.boot_id != snap.boot_id {
        empty_dock(snap.boot_id)
    } else {
        let ids = live_ids(
            if d.areas.dom() != Set::<Seq<char>>::empty() {
                area_pane_ids(d.areas, snap.panes)
            } else {
                d.pane_ids
            },
            snap,
        );
        let focus = match d.focus {
            Some((t, p)) => if Some(t) != snap.focused_tab_id || !ids.contains(p) {
                None
            } else {
                d.focus
            },
            None => None,
        };
        DockView { boot_id: d.boot_id, areas: d.areas, pane_ids: ids, focus }
    }
}

/// The snapshot lists `pane` in the focused workspace, outside the focused
/// tab.
pub open spec fn is_extra_pane(snap: SnapshotView, pane: Seq<char>) -> bool {
    exists|i: int|
        0 <= i < snap.panes.len() && #[trigger] snap.panes[i].pane_id == pane && Some(
            snap.panes[i].workspace_id,
        ) == snap.focused_workspace_id && Some(snap.panes[i].tab_id) != snap.focused_tab_id
}

/// `out` is `before` with one more control message that carries a dock
/// equal to `d`.
pub open spec fn sent_dock(before: Seq<ClientMessage>, out: Seq<ClientMessage>, d: DockView) -> bool {
    &&& out.len() == before.len() + 1
    &&& out.take(before.len() as int) == before
    &&& match out.last() {
        ClientMessage::EndpointControl { kind, dock } => kind@ == KIND@ && dock@ == d,
    }
}

/// Keeps the identifiers of `ids` different from `s`.
pub fn without_string(ids: &Vec<String>, s: &String) -> (r: Vec<String>)
    ensures
        str_seq(r@) == str_seq(ids@).filter(differs_from(s@)),
{
    let ghost pred = differs_from(s@);
    let n = ids.len();
    let mut out: Vec<String> = Vec::new();
    let mut i: usize = 0;
    while i < n
        invariant
            n == ids@.len(),
            i <= n,
            pred == differs_from(s@),
            str_seq(out@) == str_seq(ids@).take(i as int).filter(pred),
        decreases n - i,
    {
        proof {
            lemma_filter_take_step(str_seq(ids@), pred, i as int);
        }
        if ids[i] != *s {
            out.push(ids[i].clone());
            proof {
                assert(str_seq(out@) =~= str_seq(ids@).take(i as int).filter(pred).push(ids@[i as int]@));
            }
        }
        i = i + 1;
    }
    proof {
        lemma_take_full(str_seq(ids@));
    }
    out
}

/// Keeps the identifiers of `ids` that the snapshot lists.
pub fn live_pane_ids(ids: &Vec<String>, snap: &ClientShellSnapshot) -> (r: Vec<String>)
    ensures
        str_seq(r@) == live_ids(str_seq(ids@), snap@),
{
    let ghost pred = |id: Seq<char>| snap@.has_pane(id);
    let n = ids.len();
    let mut out: Vec<String> = Vec::new();
    let mut i: usize = 0;
    while i < n
        invariant
            n == ids@.len(),
            i <= n,
            pred == (|id: Seq<char>| snap@.has_pane(id)),
            str_seq(out@) == str_seq(ids@).take(i as int).filter(pred),
        decreases n - i,
    {
        proof {
            lemma_filter_take_step(str_seq(ids@), pred, i as int);
        }
        if snap.has_pane(&ids[i]) {
            out.push(ids[i].clone());
            proof {
                assert(str_seq(out@) =~= str_seq(ids@).take(i as int).filter(pred).push(ids@[i as int]@));
            }
        }
        i = i + 1;
    }
    proof {
        lemma_take_full(str_seq(ids@));
    }
    out
}

/// True when the enabled area of the pane's workspace is backed by the
/// pane's tab.
pub fn area_shows_pane(areas: &StrMap<WorkspaceArea>, pane: &PaneSummary) -> (r: bool)
    ensures
        r == area_shows(areas_view(areas@), pane@),
{
    match areas.get(&pane.workspace_id) {
        Some(area) => area.enabled && area.tab_id == pane.tab_id,
        None => false,
    }
}

/// The panes of the snapshot that enabled areas show, in snapshot order.
pub fn shown_pane_ids(areas: &StrMap<WorkspaceArea>, snap: &ClientShellSnapshot) -> (r: Vec<String>)
    ensures
        str_seq(r@) == area_pane_ids(areas_view(areas@), snap@.panes),
{
    let ghost av = areas_view(areas@);
    let ghost panes = snap@.panes;
    let ghost pred = |p: PaneView| area_shows(av, p);
    let ghost idf = |p: PaneView| p.pane_id;
    let n = snap.panes.len();
    let mut out: Vec<String> = Vec::new();
    let mut i: usize = 0;
    while i < n
        invariant
            n == snap.panes@.len(),
            panes == snap@.panes,
            av == areas_view(areas@),
            i <= n,
            pred == (|p: PaneView| area_shows(av, p)),
            idf == (|p: PaneView| p.pane_id),
            str_seq(out@) == panes.take(i as int).filter(pred).map_values(idf),
        decreases n - i,
    {
        proof {
            lemma_filter_take_step(panes, pred, i as int);
        }
        let ghost prev = panes.take(i as int).filter(pred);
        let ghost before = out@;
        if area_shows_pane(areas, &snap.panes[i]) {
            out.push(snap.panes[i].pane_id.clone());
            proof {
                assert(panes[i as int] == snap.panes@[i as int]@);
                assert(prev.push(panes[i as int]).map_values(idf) =~= prev.map_values(idf).push(
                    panes[i as int].pane_id,
                ));
                assert(str_seq(out@) =~= str_seq(before).push(snap.panes@[i as int].pane_id@));
            }
        }
        i = i + 1;
    }
    proof {
        lemma_take_full(panes);
    }
    out
}

impl ClientShellState {
    /// A state with no snapshot, no docks and no endpoint support yet.
    pub fn new(config: ClientShellConfig) -> (r: Self)
        ensures
            r.config == config,
            r.snapshot is None,
            r.active_endpoint_id == ClientEndpointId::Local,
            r.sticky_supported@ == Map::<Seq<char>, ()>::empty(),
            r.sticky@ == Map::<Seq<char>, PaneDock>::empty(),
            r.sticky_replayed@ == Map::<Seq<char>, PaneDock>::empty(),
            r.persistent_identities@ == Map::<Seq<char>, PersistentIdentity>::empty(),
            r.pending_requests@ == Seq::<PendingEndpoint>::empty(),
            !r.preferences_dirty,
            !r.persistent_drag,
    {
        ClientShellState {
            config,
            snapshot: None,
            active_endpoint_id: ClientEndpointId::Local,
            sticky_supported: StrMap::new(),
            sticky: StrMap::new(),
            sticky_replayed: StrMap::new(),
            persistent_identities: StrMap::new(),
            pending_requests: Vec::new(),
            next_request_id: 0,
            preferences_dirty: false,
            persistent_drag: false,
            overlay_open: false,
            persistent_hits: PersistentHits::default(),
            endpoint_error: None,
        }
    }

    /// Everything that the dock operations never change is unchanged: all
    /// but the docks, the awaited requests and the request counter.
    pub open spec fn same_fixed(self, other: Self) -> bool {
        &&& self.same_fixed_but_prefs(other)
        &&& self.config == other.config
        &&& self.preferences_dirty == other.preferences_dirty
    }

    /// As `same_fixed`, except that the saved preferences may change too.
    pub open spec fn same_fixed_but_prefs(self, other: Self) -> bool {
        &&& self.snapshot == other.snapshot
        &&& self.active_endpoint_id == other.active_endpoint_id
        &&& self.sticky_supported == other.sticky_supported
        &&& self.sticky_replayed == other.sticky_replayed
        &&& self.persistent_identities == other.persistent_identities
        &&& self.persistent_drag == other.persistent_drag
        &&& self.overlay_open == other.overlay_open
        &&& self.persistent_hits == other.persistent_hits
        &&& self.endpoint_error == other.endpoint_error
    }

    /// Everything but the docks and the error message is unchanged.
    pub open spec fn same_but_docks(self, other: Self) -> bool {
        &&& self.same_but_docks_and_prefs(other)
        &&& self.config == other.config
        &&& self.preferences_dirty == other.preferences_dirty
    }

    /// Everything but the docks, the saved preferences and the error
    /// message is unchanged.
    pub open spec fn same_but_docks_and_prefs(self, other: Self) -> bool {
        &&& self.snapshot == other.snapshot
        &&& self.active_endpoint_id == other.active_endpoint_id
        &&& self.sticky_supported == other.sticky_supported
        &&& self.sticky_replayed == other.sticky_replayed
        &&& self.persistent_identities == other.persistent_identities
        &&& self.pending_requests == other.pending_requests
        &&& self.next_request_id == other.next_request_id
        &&& self.persistent_drag == other.persistent_drag
        &&& self.overlay_open == other.overlay_open
        &&& self.persistent_hits == other.persistent_hits
    }

    pub open spec fn active_key(self) -> Seq<char> {
        self.active_endpoint_id.key_view()
    }

    /// The endpoint with this storage key advertises the dock capability.
    pub open spec fn supports(self, key: Seq<char>) -> bool {
        self.sticky_supported@.contains_key(key)
    }

    /// The dock of the active endpoint.
    pub open spec fn active_dock(self) -> Option<PaneDock> {
        if self.sticky@.contains_key(self.active_key()) {
            Some(self.sticky@[self.active_key()])
        } else {
            None
        }
    }

    /// The area of the focused workspace in the active dock, when that dock
    /// belongs to the snapshot's boot.
    pub open spec fn spec_persistent_area(self) -> Option<WorkspaceArea> {
        match (self.snapshot, self.active_dock()) {
            (Some(s), Some(d)) => if d.boot_id@ == s.boot_id@ {
                match s.focused_workspace_id {
                    Some(w) => if d.areas@.contains_key(w@) {
                        Some(d.areas@[w@])
                    } else {
                        None
                    },
                    None => None,
                }
            } else {
                None
            },
            _ => None,
        }
    }

    /// The persistent area of the focused workspace.
    pub fn persistent_area(&self) -> (r: Option<&WorkspaceArea>)
        ensures
            match r {
                Some(a) => self.spec_persistent_area() == Some(*a),
                None => self.spec_persistent_area() is None,
            },
    {
        let snapshot = match &self.snapshot {
            Some(s) => s,
            None => return None,
        };
        let key = self.active_endpoint_id.storage_key();
        let dock = match self.sticky.get(&key) {
            Some(d) => d,
            None => return None,
        };
        if dock.boot_id != snapshot.boot_id {
            return None;
        }
        match &snapshot.focused_workspace_id {
            Some(w) => dock.areas.get(w),
            None => None,
        }
    }

    /// The tab is the backing tab of the shown persistent area, so the tab
    /// bar hides it.
    pub fn persistent_tab_is_hidden(&self, tab: &String) -> (r: bool)
        ensures
            r == (match self.spec_persistent_area() {
                Some(a) => a.enabled && a.tab_id@ == tab@,
                None => false,
            }),
    {
        match self.persistent_area() {
            Some(area) => area.enabled && area.tab_id == *tab,
            None => false,
        }
    }

    /// Records whether an endpoint advertises the dock capability; losing
    /// it drops the endpoint's dock.
    pub fn set_sticky_supported(&mut self, endpoint: &ClientEndpointId, supported: bool)
        ensures
            final(self).sticky_supported@ == if supported {
                old(self).sticky_supported@.insert(endpoint.key_view(), ())
            } else {
                old(self).sticky_supported@.remove(endpoint.key_view())
            },
            final(self).sticky@ == if supported {
                old(self).sticky@
            } else {
                old(self).sticky@.remove(endpoint.key_view())
            },
            final(self).snapshot == old(self).snapshot,
            final(self).active_endpoint_id == old(self).active_endpoint_id,
            final(self).sticky_replayed == old(self).sticky_replayed,
            final(self).persistent_identities == old(self).persistent_identities,
            final(self).config == old(self).config,
            final(self).pending_requests == old(self).pending_requests,
            final(self).next_request_id == old(self).next_request_id,
            final(self).preferences_dirty == old(self).preferences_dirty,
            final(self).persistent_drag == old(self).persistent_drag,
            final(self).overlay_open == old(self).overlay_open,
            final(self).persistent_hits == old(self).persistent_hits,
            final(self).endpoint_error == old(self).endpoint_error,
    {
        let key = endpoint.storage_key();
        if supported {
            self.sticky_supported.insert(key, ());
        } else {
            self.sticky_supported.remove(&key);
            self.sticky.remove(&key);
        }
    }

    /// The spec of `pane_is_sticky`.
    pub open spec fn spec_pane_is_sticky(self, pane: Seq<char>) -> bool {
        match self.spec_persistent_area() {
            Some(area) => area.enabled && self.snapshot.unwrap()@.has_pane_in_tab(pane, area.tab_id@),
            None => match (self.active_dock(), self.snapshot) {
                (Some(d), Some(s)) => s.boot_id@ == d.boot_id@ && str_seq(d.pane_ids@).contains(pane),
                _ => false,
            },
        }
    }

    /// The pane is shown beside the current tab: it belongs to the shown
    /// persistent area, or (without an area for the focused workspace) it
    /// is one of the sticky panes of the current boot.
    pub fn pane_is_sticky(&self, pane: &String) -> (r: bool)
        ensures
            r == self.spec_pane_is_sticky(pane@),
    {
        match self.persistent_area() {
            Some(area) => {
                return area.enabled && match &self.snapshot {
                    Some(s) => s.has_pane_in_tab(pane, &area.tab_id),
                    None => false,
                };
            },
            None => {},
        }
        let key = self.active_endpoint_id.storage_key();
        match self.sticky.get(&key) {
            Some(dock) => match &self.snapshot {
                Some(s) => s.boot_id == dock.boot_id && contains_string(&dock.pane_ids, pane),
                None => false,
            },
            None => false,
        }
    }

    /// The dock that an update of the active endpoint starts from: its dock
    /// when that belongs to the snapshot's boot, else an empty one.
    pub open spec fn dock_base(self, snap: SnapshotView) -> DockView {
        match self.active_dock() {
            Some(d) => if d.boot_id@ == snap.boot_id {
                d@
            } else {
                empty_dock(snap.boot_id)
            },
            None => empty_dock(snap.boot_id),
        }
    }

    /// The active dock, or an empty one of the snapshot's boot when it is
    /// missing or belongs to another boot.
    pub(crate) fn active_dock_for_boot(&self, boot_id: &String) -> (r: PaneDock)
        ensures
            r@ == (match self.active_dock() {
                Some(d) => if d.boot_id@ == boot_id@ {
                    d@
                } else {
                    empty_dock(boot_id@)
                },
                None => empty_dock(boot_id@),
            }),
    {
        let key = self.active_endpoint_id.storage_key();
        match self.sticky.get(&key) {
            Some(dock) => {
                if dock.boot_id == *boot_id {
                    dock.clone()
                } else {
                    let r = PaneDock::for_boot(boot_id.clone());
                    proof {
                        assert(r@.areas =~= Map::<Seq<char>, AreaView>::empty());
                        assert(r@.pane_ids =~= Seq::<Seq<char>>::empty());
                    }
                    r
                }
            },
            None => {
                let r = PaneDock::for_boot(boot_id.clone());
                proof {
                    assert(r@.areas =~= Map::<Seq<char>, AreaView>::empty());
                    assert(r@.pane_ids =~= Seq::<Seq<char>>::empty());
                }
                r
            },
        }
    }
}


/// Law: a hidden persistent area shows nothing beside the tab. While the
/// active dock (of the snapshot's boot) holds a hidden area for the focused
/// workspace, no pane counts as sticky, not even a pane of the area's tab.
pub proof fn lemma_hidden_area_shows_no_pane(s: ClientShellState, pane: Seq<char>)
    requires
        s.snapshot is Some,
        s.snapshot.unwrap().focused_workspace_id is Some,
        s.sticky@.contains_key(s.active_key()),
        s.sticky@[s.active_key()].boot_id@ == s.snapshot.unwrap().boot_id@,
        s.sticky@[s.active_key()].areas@.contains_key(s.snapshot.unwrap().focused_workspace_id.unwrap()@),
        !s.sticky@[s.active_key()].areas@[s.snapshot.unwrap().focused_workspace_id.unwrap()@].enabled,
    ensures
        !s.spec_pane_is_sticky(pane),
{
}

/// Law: while the focused workspace's area is shown, the sticky panes are
/// exactly the snapshot's panes of the area's backing tab.
pub proof fn lemma_shown_area_panes(s: ClientShellState, pane: Seq<char>)
    requires
        s.snapshot is Some,
        s.snapshot.unwrap().focused_workspace_id is Some,
        s.sticky@.contains_key(s.active_key()),
        s.sticky@[s.active_key()].boot_id@ == s.snapshot.unwrap().boot_id@,
        s.sticky@[s.active_key()].areas@.contains_key(s.snapshot.unwrap().focused_workspace_id.unwrap()@),
        s.sticky@[s.active_key()].areas@[s.snapshot.unwrap().focused_workspace_id.unwrap()@].enabled,
    ensures
        s.spec_pane_is_sticky(pane) <==> exists|i: int|
            0 <= i < s.snapshot.unwrap()@.panes.len() && #[trigger] s.snapshot.unwrap()@.panes[i].pane_id == pane
                && s.snapshot.unwrap()@.panes[i].tab_id
                == s.sticky@[s.active_key()].areas@[s.snapshot.unwrap().focused_workspace_id.unwrap()@].tab_id@,
{
}

} // verus!
