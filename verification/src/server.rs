//! The server side of pane docks. A dock is connection-local presentation
//! only: terminals and shared tab layouts never move. The server checks a
//! client's dock against the live session before it widens what the client
//! is shown.
use vstd::prelude::*;
use crate::dock::{
    areas_view, same_dock, str_pair_view, str_seq, AreaView, DockView, PaneDock, WorkspaceArea, MAX_AREAS, MAX_PANES,
};
use crate::persistent_area::PersistentAreaSettings;
use crate::snapshot::{lemma_take_full};
use crate::str_map::StrMap;

verus! {

/// A pane of a tab: its internal identifier and its public one.
#[derive(Debug)]
pub struct ServerPane {
    pub id: u64,
    pub public_id: String,
}

/// A tab: its public identifier and its panes in layout order.
#[derive(Debug)]
pub struct ServerTab {
    pub public_id: String,
    pub panes: Vec<ServerPane>,
}

/// A workspace: its public identifier and its tabs.
#[derive(Debug)]
pub struct ServerWorkspace {
    pub public_id: String,
    pub tabs: Vec<ServerTab>,
}

/// A tab addressed by workspace and tab index.
#[derive(Clone, Copy, Debug, PartialEq, Eq, Structural)]
pub struct TabSurfaceTarget {
    pub workspace_index: usize,
    pub tab_index: usize,
}

/// A connected client.
#[derive(Debug)]
pub struct ServerClient {
    pub client_id: u64,
    /// The client is an active shell client.
    pub active_shell: bool,
    pub pane_dock: PaneDock,
    /// The tab the client's shell shows.
    pub shell_target: Option<TabSurfaceTarget>,
    /// The client's surface must be computed again.
    pub needs_recompute: bool,
    /// The geometry of the client's tabs must be applied again.
    pub geometry_dirty: bool,
}

/// The server state that the dock rules read and change.
#[derive(Debug)]
pub struct HeadlessServer {
    pub client_shell_boot_id: String,
    pub workspaces: Vec<ServerWorkspace>,
    pub clients: Vec<ServerClient>,
}

impl HeadlessServer {
    pub open spec fn tab_at(self, w: int, t: int, id: Seq<char>) -> bool {
        &&& 0 <= w < self.workspaces@.len()
        &&& 0 <= t < self.workspaces@[w].tabs@.len()
        &&& self.workspaces@[w].tabs@[t].public_id@ == id
    }

    pub open spec fn pane_at(self, w: int, t: int, p: int, id: Seq<char>) -> bool {
        &&& 0 <= w < self.workspaces@.len()
        &&& 0 <= t < self.workspaces@[w].tabs@.len()
        &&& 0 <= p < self.workspaces@[w].tabs@[t].panes@.len()
        &&& self.workspaces@[w].tabs@[t].panes@[p].public_id@ == id
    }

    /// Public identifiers name one tab and one pane each, and client
    /// identifiers name one client each.
    pub open spec fn wf(self) -> bool {
        &&& forall|w1: int, t1: int, w2: int, t2: int, id: Seq<char>|
            #![trigger self.tab_at(w1, t1, id), self.tab_at(w2, t2, id)]
            self.tab_at(w1, t1, id) && self.tab_at(w2, t2, id) ==> w1 == w2 && t1 == t2
        &&& forall|w1: int, t1: int, p1: int, w2: int, t2: int, p2: int, id: Seq<char>|
            #![trigger self.pane_at(w1, t1, p1, id), self.pane_at(w2, t2, p2, id)]
            self.pane_at(w1, t1, p1, id) && self.pane_at(w2, t2, p2, id) ==> w1 == w2 && t1 == t2 && p1 == p2
        &&& forall|i: int, j: int|
            0 <= i < self.clients@.len() && 0 <= j < self.clients@.len() && i != j ==> (#[trigger] self.clients@[i]).client_id
                != (#[trigger] self.clients@[j]).client_id
    }

    /// Where the tab with this public identifier is.
    pub open spec fn tab_loc(self, id: Seq<char>) -> Option<(int, int)> {
        if exists|w: int, t: int| self.tab_at(w, t, id) {
            Some(choose|w: int, t: int| self.tab_at(w, t, id))
        } else {
            None
        }
    }

    /// Where the pane with this public identifier is.
    pub open spec fn pane_loc(self, id: Seq<char>) -> Option<(int, int, int)> {
        if exists|w: int, t: int, p: int| self.pane_at(w, t, p, id) {
            Some(choose|w: int, t: int, p: int| self.pane_at(w, t, p, id))
        } else {
            None
        }
    }

    /// The workspace index and internal identifier of a public pane.
    pub open spec fn spec_parse_pane_id(self, id: Seq<char>) -> Option<(int, u64)> {
        match self.pane_loc(id) {
            Some((w, t, p)) => Some((w, self.workspaces@[w].tabs@[t].panes@[p].id)),
            None => None,
        }
    }

    /// Finds the tab with this public identifier.
    pub fn parse_tab_id(&self, id: &String) -> (r: Option<(usize, usize)>)
        requires
            self.wf(),
        ensures
            match r {
                Some((w, t)) => self.tab_loc(id@) == Some((w as int, t as int)),
                None => self.tab_loc(id@) is None,
            },
    {
        let n = self.workspaces.len();
        let mut w: usize = 0;
        while w < n
            invariant
                self.wf(),
                n == self.workspaces@.len(),
                w <= n,
                forall|w2: int, t2: int| 0 <= w2 < w ==> !#[trigger] self.tab_at(w2, t2, id@),
            decreases n - w,
        {
            let tabs = &self.workspaces[w].tabs;
            let m = tabs.len();
            let mut t: usize = 0;
            while t < m
                invariant
                    self.wf(),
                    n == self.workspaces@.len(),
                    w < n,
                    *tabs == self.workspaces@[w as int].tabs,
                    m == tabs@.len(),
                    t <= m,
                    forall|w2: int, t2: int| 0 <= w2 < w ==> !#[trigger] self.tab_at(w2, t2, id@),
                    forall|t2: int| 0 <= t2 < t ==> !#[trigger] self.tab_at(w as int, t2, id@),
                decreases m - t,
            {
                if tabs[t].public_id == *id {
                    proof {
                        assert(self.tab_at(w as int, t as int, id@));
                        let (cw, ct) = choose|cw: int, ct: int| self.tab_at(cw, ct, id@);
                        assert(self.tab_at(cw, ct, id@));
                        assert(cw == w && ct == t);
                        assert(self.tab_loc(id@) == Some((cw, ct)));
                    }
                    return Some((w, t));
                }
                t = t + 1;
            }
            proof {
                assert forall|w2: int, t2: int| 0 <= w2 < w + 1 implies !#[trigger] self.tab_at(w2, t2, id@) by {
                    if w2 == w && self.tab_at(w2, t2, id@) {
                        assert(!self.tab_at(w as int, t2, id@));
                    }
                }
            }
            w = w + 1;
        }
        proof {
            if exists|w2: int, t2: int| self.tab_at(w2, t2, id@) {
                let (cw, ct) = choose|cw: int, ct: int| self.tab_at(cw, ct, id@);
                assert(!self.tab_at(cw, ct, id@));
            }
        }
        None
    }

    /// Finds the pane with this public identifier: its workspace index and
    /// internal identifier.
    pub fn parse_pane_id(&self, id: &String) -> (r: Option<(usize, u64)>)
        requires
            self.wf(),
        ensures
            match r {
                Some((w, p)) => self.spec_parse_pane_id(id@) == Some((w as int, p)),
                None => self.spec_parse_pane_id(id@) is None,
            },
    {
        let n = self.workspaces.len();
        let mut w: usize = 0;
        while w < n
            invariant
                self.wf(),
                n == self.workspaces@.len(),
                w <= n,
                forall|w2: int, t2: int, p2: int| 0 <= w2 < w ==> !#[trigger] self.pane_at(w2, t2, p2, id@),
            decreases n - w,
        {
            let tabs = &self.workspaces[w].tabs;
            let m = tabs.len();
            let mut t: usize = 0;
            while t < m
                invariant
                    self.wf(),
                    n == self.workspaces@.len(),
                    w < n,
                    *tabs == self.workspaces@[w as int].tabs,
                    m == tabs@.len(),
                    t <= m,
                    forall|w2: int, t2: int, p2: int| 0 <= w2 < w ==> !#[trigger] self.pane_at(w2, t2, p2, id@),
                    forall|t2: int, p2: int| 0 <= t2 < t ==> !#[trigger] self.pane_at(w as int, t2, p2, id@),
                decreases m - t,
            {
                let panes = &tabs[t].panes;
                let k = panes.len();
                let mut p: usize = 0;
                while p < k
                    invariant
                        self.wf(),
                        n == self.workspaces@.len(),
                        w < n,
                        *tabs == self.workspaces@[w as int].tabs,
                        m == tabs@.len(),
                        t < m,
                        *panes == tabs@[t as int].panes,
                        k == panes@.len(),
                        p <= k,
                        forall|w2: int, t2: int, p2: int| 0 <= w2 < w ==> !#[trigger] self.pane_at(w2, t2, p2, id@),
                        forall|t2: int, p2: int| 0 <= t2 < t ==> !#[trigger] self.pane_at(w as int, t2, p2, id@),
                        forall|p2: int| 0 <= p2 < p ==> !#[trigger] self.pane_at(w as int, t as int, p2, id@),
                    decreases k - p,
                {
                    if panes[p].public_id == *id {
                        proof {
                            assert(self.pane_at(w as int, t as int, p as int, id@));
                            let (cw, ct, cp) = choose|cw: int, ct: int, cp: int| self.pane_at(cw, ct, cp, id@);
                            assert(self.pane_at(cw, ct, cp, id@));
                            assert(cw == w && ct == t && cp == p);
                            assert(self.pane_loc(id@) == Some((cw, ct, cp)));
                        }
                        return Some((w, panes[p].id));
                    }
                    p = p + 1;
                }
                proof {
                    assert forall|t2: int, p2: int| 0 <= t2 < t + 1 implies !#[trigger] self.pane_at(
                        w as int,
                        t2,
                        p2,
                        id@,
                    ) by {
                        if t2 == t && self.pane_at(w as int, t2, p2, id@) {
                            assert(!self.pane_at(w as int, t as int, p2, id@));
                        }
                    }
                }
                t = t + 1;
            }
            proof {
                assert forall|w2: int, t2: int, p2: int| 0 <= w2 < w + 1 implies !#[trigger] self.pane_at(
                    w2,
                    t2,
                    p2,
                    id@,
                ) by {
                    if w2 == w && self.pane_at(w2, t2, p2, id@) {
                        assert(!self.pane_at(w as int, t2, p2, id@));
                    }
                }
            }
            w = w + 1;
        }
        proof {
            if exists|w2: int, t2: int, p2: int| self.pane_at(w2, t2, p2, id@) {
                let (cw, ct, cp) = choose|cw: int, ct: int, cp: int| self.pane_at(cw, ct, cp, id@);
                assert(!self.pane_at(cw, ct, cp, id@));
            }
        }
        None
    }
}

impl HeadlessServer {
    /// The index of the client with this identifier.
    pub open spec fn client_index(self, id: u64) -> Option<int> {
        if exists|i: int| 0 <= i < self.clients@.len() && #[trigger] self.clients@[i].client_id == id {
            Some(choose|i: int| 0 <= i < self.clients@.len() && #[trigger] self.clients@[i].client_id == id)
        } else {
            None
        }
    }

    pub fn find_client(&self, id: u64) -> (r: Option<usize>)
        requires
            self.wf(),
        ensures
            match r {
                Some(i) => self.client_index(id) == Some(i as int) && i < self.clients@.len(),
                None => self.client_index(id) is None,
            },
    {
        let n = self.clients.len();
        let mut i: usize = 0;
        while i < n
            invariant
                self.wf(),
                n == self.clients@.len(),
                i <= n,
                forall|j: int| 0 <= j < i ==> (#[trigger] self.clients@[j]).client_id != id,
            decreases n - i,
        {
            if self.clients[i].client_id == id {
                proof {
                    let c = choose|c: int| 0 <= c < self.clients@.len() && #[trigger] self.clients@[c].client_id == id;
                    assert(self.clients@[i as int].client_id == id);
                    if c != i {
                        assert(self.clients@[c].client_id != self.clients@[i as int].client_id);
                    }
                }
                return Some(i);
            }
            i = i + 1;
        }
        None
    }

    /// The tab a client's shell shows, when it exists.
    pub open spec fn spec_shell_target(self, c: ServerClient) -> Option<TabSurfaceTarget> {
        match c.shell_target {
            Some(t) => if t.workspace_index < self.workspaces@.len() && t.tab_index
                < self.workspaces@[t.workspace_index as int].tabs@.len() {
                Some(t)
            } else {
                None
            },
            None => None,
        }
    }

    /// The public identifier of the tab a client's shell shows.
    pub open spec fn spec_shell_tab_id(self, c: ServerClient) -> Option<Seq<char>> {
        match self.spec_shell_target(c) {
            Some(t) => Some(self.workspaces@[t.workspace_index as int].tabs@[t.tab_index as int].public_id@),
            None => None,
        }
    }

    fn shell_target_of(&self, c: &ServerClient) -> (r: Option<TabSurfaceTarget>)
        ensures
            r == self.spec_shell_target(*c),
    {
        match c.shell_target {
            Some(t) => {
                if t.workspace_index < self.workspaces.len() && t.tab_index
                    < self.workspaces[t.workspace_index].tabs.len() {
                    Some(t)
                } else {
                    None
                }
            },
            None => None,
        }
    }

    fn shell_tab_id_of(&self, c: &ServerClient) -> (r: Option<&String>)
        ensures
            match r {
                Some(s) => self.spec_shell_tab_id(*c) == Some(s@),
                None => self.spec_shell_tab_id(*c) is None,
            },
    {
        match self.shell_target_of(c) {
            Some(t) => Some(&self.workspaces[t.workspace_index].tabs[t.tab_index].public_id),
            None => None,
        }
    }

    /// An area stays when its backing tab is a tab of its workspace.
    pub open spec fn area_valid(self, ws: Seq<char>, a: AreaView) -> bool {
        match self.tab_loc(a.tab_id) {
            Some((w, _)) => self.workspaces@[w].public_id@ == ws,
            None => false,
        }
    }

    pub open spec fn valid_areas(self, areas: Map<Seq<char>, AreaView>) -> Map<Seq<char>, AreaView> {
        Map::new(
            |ws: Seq<char>| areas.contains_key(ws) && self.area_valid(ws, areas[ws]),
            |ws: Seq<char>| areas[ws],
        )
    }

    /// Public identifiers of the panes of a tab, in layout order.
    pub open spec fn tab_pane_ids(self, w: int, t: int) -> Seq<Seq<char>> {
        self.workspaces@[w].tabs@[t].panes@.map_values(|p: ServerPane| p.public_id@)
    }

    /// The panes of the enabled valid areas, taking the workspaces in the
    /// order of `keys`.
    pub open spec fn enabled_area_panes(self, keys: Seq<Seq<char>>, areas: Map<Seq<char>, AreaView>) -> Seq<
        Seq<char>,
    >
        decreases keys.len(),
    {
        if keys.len() == 0 {
            Seq::empty()
        } else {
            let rest = self.enabled_area_panes(keys.drop_last(), areas);
            let ws = keys.last();
            if areas.contains_key(ws) && self.area_valid(ws, areas[ws]) && areas[ws].enabled {
                let (w, t) = self.tab_loc(areas[ws].tab_id).unwrap();
                rest + self.tab_pane_ids(w, t)
            } else {
                rest
            }
        }
    }

    /// The first occurrence of each identifier that names a pane.
    pub open spec fn valid_unique(self, ids: Seq<Seq<char>>) -> Seq<Seq<char>>
        decreases ids.len(),
    {
        if ids.len() == 0 {
            Seq::empty()
        } else {
            let rest = self.valid_unique(ids.drop_last());
            let id = ids.last();
            if self.pane_loc(id) is Some && !rest.contains(id) {
                rest.push(id)
            } else {
                rest
            }
        }
    }

    /// A dock focus stays when tab and pane exist in the same workspace, the
    /// pane is sticky, and the client views that tab.
    pub open spec fn focus_valid(self, c: ServerClient, focus: (Seq<char>, Seq<char>), ids: Seq<Seq<char>>) -> bool {
        &&& match (self.tab_loc(focus.0), self.spec_parse_pane_id(focus.1)) {
            (Some((w1, _)), Some((w2, _))) => w1 == w2,
            _ => false,
        }
        &&& ids.contains(focus.1)
        &&& self.spec_shell_tab_id(c) == Some(focus.0)
    }

    /// The dock is refused outright: another boot, too many sticky panes or
    /// areas, or not an active shell client.
    pub open spec fn dock_rejected(self, c: ServerClient, d: PaneDock) -> bool {
        ||| d.boot_id@ != self.client_shell_boot_id@
        ||| d.pane_ids@.len() > MAX_PANES
        ||| !c.active_shell
        ||| d.areas@.dom().len() > MAX_AREAS
    }

    /// The dock as the server keeps it: invalid areas dropped, the sticky
    /// panes replaced by the panes of the enabled areas when there are
    /// areas, then reduced to the first occurrence of each existing pane,
    /// and an invalid focus cleared.
    pub open spec fn normalized(self, c: ServerClient, d: PaneDock) -> DockView {
        let areas = self.valid_areas(areas_view(d.areas@));
        let base = if areas.dom() != Set::<Seq<char>>::empty() {
            self.enabled_area_panes(d.areas.keys(), areas_view(d.areas@))
        } else {
            str_seq(d.pane_ids@)
        };
        let ids = self.valid_unique(base);
        let focus = match str_pair_view(d.focus) {
            Some(f) => if self.focus_valid(c, f, ids) {
                Some(f)
            } else {
                None
            },
            None => None,
        };
        DockView { boot_id: d.boot_id@, areas, pane_ids: ids, focus }
    }
}

impl HeadlessServer {
    fn area_valid_exec(&self, ws: &String, a: &WorkspaceArea) -> (r: bool)
        requires
            self.wf(),
        ensures
            r == self.area_valid(ws@, a@),
    {
        match self.parse_tab_id(&a.tab_id) {
            Some((w, _)) => self.workspaces[w].public_id == *ws,
            None => false,
        }
    }

    /// Appends the public identifiers of the panes of tab `t` of workspace
    /// `w`.
    fn append_tab_panes(&self, out: &mut Vec<String>, w: usize, t: usize)
        requires
            w < self.workspaces@.len(),
            t < self.workspaces@[w as int].tabs@.len(),
        ensures
            str_seq(final(out)@) == str_seq(old(out)@) + self.tab_pane_ids(w as int, t as int),
    {
        let panes = &self.workspaces[w].tabs[t].panes;
        let ghost start = str_seq(out@);
        let ghost all = self.tab_pane_ids(w as int, t as int);
        let k = panes.len();
        let mut p: usize = 0;
        while p < k
            invariant
                w < self.workspaces@.len(),
                t < self.workspaces@[w as int].tabs@.len(),
                k == panes@.len(),
                *panes == self.workspaces@[w as int].tabs@[t as int].panes,
                all == self.tab_pane_ids(w as int, t as int),
                p <= k,
                str_seq(out@) == start + all.take(p as int),
            decreases k - p,
        {
            let ghost before = out@;
            out.push(panes[p].public_id.clone());
            proof {
                assert(str_seq(out@) =~= str_seq(before).push(panes@[p as int].public_id@));
                assert(all.take(p + 1) =~= all.take(p as int).push(panes@[p as int].public_id@));
                assert(str_seq(out@) =~= start + all.take(p + 1));
            }
            p = p + 1;
        }
        proof {
            assert(all.take(k as int) =~= all);
        }
    }

    /// The panes of the enabled valid areas, in entry order.
    fn enabled_panes(&self, areas: &StrMap<WorkspaceArea>) -> (r: Vec<String>)
        requires
            self.wf(),
        ensures
            str_seq(r@) == self.enabled_area_panes(areas.keys(), areas_view(areas@)),
    {
        let n = areas.len();
        let ghost keys = areas.keys();
        let ghost av = areas_view(areas@);
        let mut out: Vec<String> = Vec::new();
        let mut i: usize = 0;
        while i < n
            invariant
                self.wf(),
                n == keys.len(),
                keys == areas.keys(),
                av == areas_view(areas@),
                areas.well_indexed(),
                i <= n,
                str_seq(out@) == self.enabled_area_panes(keys.take(i as int), av),
            decreases n - i,
        {
            let ws = areas.key_at(i);
            let a = areas.value_at(i);
            proof {
                assert(keys.take(i + 1).drop_last() =~= keys.take(i as int));
                assert(keys.take(i + 1).last() == ws@);
                assert(keys.contains(ws@));
                assert(av.contains_key(ws@));
                assert(av[ws@] == a@);
            }
            if a.enabled && self.area_valid_exec(ws, a) {
                match self.parse_tab_id(&a.tab_id) {
                    Some((w, t)) => {
                        self.append_tab_panes(&mut out, w, t);
                    },
                    None => {},
                }
            }
            i = i + 1;
        }
        proof {
            lemma_take_full(keys);
        }
        out
    }

    /// The first occurrence of each identifier that names a pane.
    fn valid_unique_exec(&self, ids: &Vec<String>) -> (r: Vec<String>)
        requires
            self.wf(),
        ensures
            str_seq(r@) == self.valid_unique(str_seq(ids@)),
    {
        let ghost all = str_seq(ids@);
        let n = ids.len();
        let mut out: Vec<String> = Vec::new();
        let mut i: usize = 0;
        while i < n
            invariant
                self.wf(),
                n == ids@.len(),
                all == str_seq(ids@),
                i <= n,
                str_seq(out@) == self.valid_unique(all.take(i as int)),
            decreases n - i,
        {
            proof {
                assert(all.take(i + 1).drop_last() =~= all.take(i as int));
                assert(all.take(i + 1).last() == ids@[i as int]@);
            }
            let exists = self.parse_pane_id(&ids[i]).is_some();
            if exists && !crate::dock::contains_string(&out, &ids[i]) {
                let ghost before = out@;
                out.push(ids[i].clone());
                proof {
                    assert(str_seq(out@) =~= str_seq(before).push(ids@[i as int]@));
                }
            }
            i = i + 1;
        }
        proof {
            lemma_take_full(all);
        }
        out
    }

    /// Which areas stay, by entry.
    fn valid_area_mask(&self, areas: &StrMap<WorkspaceArea>) -> (r: Vec<bool>)
        requires
            self.wf(),
        ensures
            areas.well_indexed(),
            r@.len() == areas.keys().len(),
            forall|i: int| 0 <= i < r@.len() ==> r@[i] == self.area_valid(areas.keys()[i], areas@[areas.keys()[i]]@),
    {
        let n = areas.len();
        let mut keep: Vec<bool> = Vec::new();
        let mut i: usize = 0;
        while i < n
            invariant
                self.wf(),
                n == areas.keys().len(),
                areas.well_indexed(),
                i <= n,
                keep@.len() == i,
                forall|j: int| 0 <= j < i ==> keep@[j] == self.area_valid(areas.keys()[j], areas@[areas.keys()[j]]@),
            decreases n - i,
        {
            let ws = areas.key_at(i);
            let a = areas.value_at(i);
            keep.push(self.area_valid_exec(ws, a));
            i = i + 1;
        }
        keep
    }

    /// What handing client `client_id` the dock `dock` does, `r` telling
    /// whether the client's dock changed (see `set_pane_dock`).
    pub open spec fn pane_dock_set(self, client_id: u64, dock: PaneDock, r: bool, after: Self) -> bool {
        &&& after.wf()
        &&& after.workspaces == self.workspaces
        &&& after.client_shell_boot_id == self.client_shell_boot_id
        &&& after.clients@.len() == self.clients@.len()
        &&& match self.client_index(client_id) {
            None => !r && after == self,
            Some(c) => {
                let cl = self.clients@[c];
                if self.dock_rejected(cl, dock) {
                    !r && after == self
                } else {
                    let n = self.normalized(cl, dock);
                    &&& r == (n != cl.pane_dock@)
                    &&& !r ==> after == self
                    &&& r ==> {
                        let f = after.clients@[c];
                        &&& forall|j: int|
                            0 <= j < self.clients@.len() && j != c ==> after.clients@[j]
                                == self.clients@[j]
                        &&& f.pane_dock@ == n
                        &&& f.client_id == cl.client_id
                        &&& f.active_shell == cl.active_shell
                        &&& f.shell_target == cl.shell_target
                        &&& f.needs_recompute
                        &&& f.geometry_dirty == (cl.geometry_dirty || n.pane_ids != cl.pane_dock@.pane_ids
                            || n.areas != cl.pane_dock@.areas)
                    }
                }
            },
        }
    }

    /// Accepts a client's dock after checking it against the session (see
    /// `normalized`). Returns whether the client's dock changed; then the
    /// client's surface is recomputed, and its tab geometry is applied again
    /// when its sticky panes or areas changed.
    pub fn set_pane_dock(&mut self, client_id: u64, dock: PaneDock) -> (r: bool)
        requires
            old(self).wf(),
        ensures
            old(self).pane_dock_set(client_id, dock, r, *final(self)),
    {
        let c = match self.find_client(client_id) {
            Some(c) => c,
            None => return false,
        };
        if dock.boot_id != self.client_shell_boot_id || dock.pane_ids.len() > MAX_PANES
            || !self.clients[c].active_shell {
            return false;
        }
        if dock.areas.len() > MAX_AREAS {
            return false;
        }
        let ghost input = dock;
        let PaneDock { boot_id, mut areas, pane_ids, focus } = dock;
        let keep = self.valid_area_mask(&areas);
        let area_panes = self.enabled_panes(&areas);
        let ghost before = areas;
        areas.retain_mask(&keep);
        let ghost valid = self.valid_areas(areas_view(before@));
        proof {
            assert forall|ws: Seq<char>| #[trigger] areas_view(areas@).contains_key(ws) implies valid.contains_key(ws)
                && areas_view(areas@)[ws] == valid[ws] by {
                assert(before@.contains_key(ws));
                assert(before.keys().contains(ws));
                let j = choose|j: int| 0 <= j < before.keys().len() && before.keys()[j] == ws;
                assert(areas@.contains_key(before.keys()[j]) == keep@[j]);
            }
            assert forall|ws: Seq<char>| #[trigger] valid.contains_key(ws) implies areas_view(areas@).contains_key(ws) by {
                assert(before.keys().contains(ws));
                let j = choose|j: int| 0 <= j < before.keys().len() && before.keys()[j] == ws;
                assert(keep@[j]);
            }
            assert(areas_view(areas@) =~= valid);
            assert(areas_view(areas@).dom() =~= areas@.dom());
        }
        let base = if !areas.is_empty() {
            area_panes
        } else {
            pane_ids
        };
        let ids = self.valid_unique_exec(&base);
        let focus = match focus {
            Some((tab_id, pane_id)) => {
                let same_ws = match (self.parse_tab_id(&tab_id), self.parse_pane_id(&pane_id)) {
                    (Some((w1, _)), Some((w2, _))) => w1 == w2,
                    _ => false,
                };
                let viewed = match self.shell_tab_id_of(&self.clients[c]) {
                    Some(t) => *t == tab_id,
                    None => false,
                };
                if same_ws && crate::dock::contains_string(&ids, &pane_id) && viewed {
                    Some((tab_id, pane_id))
                } else {
                    None
                }
            },
            None => None,
        };
        let next = PaneDock { boot_id, areas, pane_ids: ids, focus };
        proof {
            assert(next@ == self.normalized(self.clients@[c as int], input));
        }
        if same_dock(&self.clients[c].pane_dock, &next) {
            return false;
        }
        let geometry_changed = !crate::dock::same_strings(&self.clients[c].pane_dock.pane_ids, &next.pane_ids)
            || !crate::dock::same_areas(&self.clients[c].pane_dock.areas, &next.areas);
        let updated = ServerClient {
            client_id: self.clients[c].client_id,
            active_shell: self.clients[c].active_shell,
            pane_dock: next,
            shell_target: self.clients[c].shell_target,
            needs_recompute: true,
            geometry_dirty: self.clients[c].geometry_dirty || geometry_changed,
        };
        self.clients.set(c, updated);
        proof {
            assert forall|i: int, j: int|
                0 <= i < self.clients@.len() && 0 <= j < self.clients@.len() && i != j implies (#[trigger] self.clients@[i]).client_id
                != (#[trigger] self.clients@[j]).client_id by {
                assert(old(self).clients@[i].client_id == self.clients@[i].client_id);
                assert(old(self).clients@[j].client_id == self.clients@[j].client_id);
            }
            assert forall|w1: int, t1: int, w2: int, t2: int, id: Seq<char>|
                self.tab_at(w1, t1, id) && self.tab_at(w2, t2, id) implies w1 == w2 && t1 == t2 by {
                assert(old(self).tab_at(w1, t1, id) && old(self).tab_at(w2, t2, id));
            }
            assert forall|w1: int, t1: int, p1: int, w2: int, t2: int, p2: int, id: Seq<char>|
                self.pane_at(w1, t1, p1, id) && self.pane_at(w2, t2, p2, id) implies w1 == w2 && t1 == t2 && p1
                == p2 by {
                assert(old(self).pane_at(w1, t1, p1, id) && old(self).pane_at(w2, t2, p2, id));
            }
        }
        true
    }
}

impl HeadlessServer {
    /// The tab an enabled area shows beside `target`: a tab of the target's
    /// workspace other than the target itself.
    pub open spec fn area_target(self, a: AreaView, target: TabSurfaceTarget) -> Option<TabSurfaceTarget> {
        if !a.enabled {
            None
        } else {
            match self.tab_loc(a.tab_id) {
                Some((w, t)) => if w == target.workspace_index && t != target.tab_index {
                    Some(TabSurfaceTarget { workspace_index: w as usize, tab_index: t as usize })
                } else {
                    None
                },
                None => None,
            }
        }
    }

    /// The first area, in the order of `keys`, that shows a tab beside
    /// `target`, with its settings.
    pub open spec fn first_area_target(
        self,
        keys: Seq<Seq<char>>,
        areas: Map<Seq<char>, AreaView>,
        target: TabSurfaceTarget,
    ) -> Option<(TabSurfaceTarget, PersistentAreaSettings)>
        decreases keys.len(),
    {
        if keys.len() == 0 {
            None
        } else {
            match self.area_target(areas[keys[0]], target) {
                Some(t) => Some((t, areas[keys[0]].settings)),
                None => self.first_area_target(keys.drop_first(), areas, target),
            }
        }
    }

    /// The spec of `persistent_target`.
    pub open spec fn spec_persistent_target(self, client_id: u64) -> Option<(TabSurfaceTarget, PersistentAreaSettings)> {
        match self.client_index(client_id) {
            Some(c) => match self.spec_shell_target(self.clients@[c]) {
                Some(target) => self.first_area_target(
                    self.clients@[c].pane_dock.areas.keys(),
                    areas_view(self.clients@[c].pane_dock.areas@),
                    target,
                ),
                None => None,
            },
            None => None,
        }
    }

    /// The persistent area shown beside the client's tab: the backing tab
    /// and its settings. Only these additional, visible sources widen
    /// output fanout.
    pub fn persistent_target(&self, client_id: u64) -> (r: Option<(TabSurfaceTarget, PersistentAreaSettings)>)
        requires
            self.wf(),
        ensures
            r == self.spec_persistent_target(client_id),
            r matches Some((t, _)) ==> t.workspace_index < self.workspaces@.len() && t.tab_index
                < self.workspaces@[t.workspace_index as int].tabs@.len(),
    {
        let c = match self.find_client(client_id) {
            Some(c) => c,
            None => return None,
        };
        let client = &self.clients[c];
        let target = match self.shell_target_of(client) {
            Some(t) => t,
            None => return None,
        };
        let areas = &client.pane_dock.areas;
        let ghost keys = areas.keys();
        let ghost av = areas_view(areas@);
        let n = areas.len();
        let mut i: usize = 0;
        proof {
            assert(keys.skip(0) =~= keys);
        }
        while i < n
            invariant
                self.wf(),
                self.client_index(client_id) == Some(c as int),
                c < self.clients@.len(),
                *client == self.clients@[c as int],
                Some(target) == self.spec_shell_target(*client),
                *areas == client.pane_dock.areas,
                n == keys.len(),
                keys == areas.keys(),
                av == areas_view(areas@),
                areas.well_indexed(),
                i <= n,
                self.first_area_target(keys, av, target) == self.first_area_target(keys.skip(i as int), av, target),
            decreases n - i,
        {
            let a = areas.value_at(i);
            proof {
                assert(keys.skip(i as int)[0] == keys[i as int]);
                assert(keys.skip(i as int).drop_first() =~= keys.skip(i + 1));
                assert(keys.contains(keys[i as int]));
                assert(av[keys[i as int]] == a@);
            }
            if a.enabled {
                match self.parse_tab_id(&a.tab_id) {
                    Some((w, t)) => {
                        if w == target.workspace_index && t != target.tab_index {
                            proof {
                                let id = a.tab_id@;
                                assert(exists|w2: int, t2: int| self.tab_at(w2, t2, id));
                                assert(self.tab_at(w as int, t as int, id));
                                assert(self.area_target(av[keys[i as int]], target) == Some(
                                    TabSurfaceTarget { workspace_index: w, tab_index: t },
                                ));
                                let sk = keys.skip(i as int);
                                assert(sk.len() > 0);
                                assert(self.first_area_target(sk, av, target) == Some((
                                    TabSurfaceTarget { workspace_index: w, tab_index: t },
                                    a.settings,
                                )));
                            }
                            return Some((TabSurfaceTarget { workspace_index: w, tab_index: t }, a.settings));
                        }
                    },
                    None => {},
                }
            }
            i = i + 1;
        }
        proof {
            assert(keys.skip(n as int).len() == 0);
        }
        None
    }

    /// The tab holds a pane with this internal identifier.
    pub open spec fn tab_has_pane(self, w: int, t: int, pane: u64) -> bool {
        exists|p: int|
            0 <= p < self.workspaces@[w].tabs@[t].panes@.len() && #[trigger] self.workspaces@[w].tabs@[t].panes@[p].id
                == pane
    }

    /// The sticky panes shown beside `target`: panes of its workspace that
    /// are not in the target tab, in sticky order.
    pub open spec fn docked_ids(self, ids: Seq<Seq<char>>, target: TabSurfaceTarget) -> Seq<u64>
        decreases ids.len(),
    {
        if ids.len() == 0 {
            Seq::empty()
        } else {
            let rest = self.docked_ids(ids.drop_last(), target);
            match self.spec_parse_pane_id(ids.last()) {
                Some((w, pane)) => if w == target.workspace_index && !self.tab_has_pane(
                    target.workspace_index as int,
                    target.tab_index as int,
                    pane,
                ) {
                    rest.push(pane)
                } else {
                    rest
                },
                None => rest,
            }
        }
    }

    /// The spec of `docked_panes`.
    pub open spec fn spec_docked_panes(self, client_id: u64) -> Seq<u64> {
        match self.spec_persistent_target(client_id) {
            Some((t, _)) => self.workspaces@[t.workspace_index as int].tabs@[t.tab_index as int].panes@.map_values(
                |p: ServerPane| p.id,
            ),
            None => match self.client_index(client_id) {
                None => Seq::empty(),
                Some(c) => {
                    let cl = self.clients@[c];
                    if cl.pane_dock.areas@.dom() != Set::<Seq<char>>::empty() || cl.pane_dock.pane_ids@.len() == 0 {
                        Seq::empty()
                    } else {
                        match self.spec_shell_target(cl) {
                            Some(target) => self.docked_ids(str_seq(cl.pane_dock.pane_ids@), target),
                            None => Seq::empty(),
                        }
                    }
                },
            },
        }
    }

    fn tab_has_pane_exec(&self, w: usize, t: usize, pane: u64) -> (r: bool)
        requires
            w < self.workspaces@.len(),
            t < self.workspaces@[w as int].tabs@.len(),
        ensures
            r == self.tab_has_pane(w as int, t as int, pane),
    {
        let panes = &self.workspaces[w].tabs[t].panes;
        let k = panes.len();
        let mut p: usize = 0;
        while p < k
            invariant
                k == panes@.len(),
                *panes == self.workspaces@[w as int].tabs@[t as int].panes,
                p <= k,
                forall|q: int| 0 <= q < p ==> (#[trigger] panes@[q]).id != pane,
            decreases k - p,
        {
            if panes[p].id == pane {
                return true;
            }
            p = p + 1;
        }
        false
    }

    /// The panes shown beside the client's tab: the panes of the persistent
    /// area's tab when one is shown; otherwise (and only without areas) the
    /// sticky panes of the viewed workspace outside the viewed tab.
    pub fn docked_panes(&self, client_id: u64) -> (r: Vec<u64>)
        requires
            self.wf(),
        ensures
            r@ == self.spec_docked_panes(client_id),
    {
        match self.persistent_target(client_id) {
            Some((target, _)) => {
                let panes = &self.workspaces[target.workspace_index].tabs[target.tab_index].panes;
                let ghost all = panes@.map_values(|p: ServerPane| p.id);
                let k = panes.len();
                let mut out: Vec<u64> = Vec::new();
                let mut p: usize = 0;
                while p < k
                    invariant
                        k == panes@.len(),
                        all == panes@.map_values(|p: ServerPane| p.id),
                        p <= k,
                        out@ == all.take(p as int),
                    decreases k - p,
                {
                    out.push(panes[p].id);
                    proof {
                        assert(out@ =~= all.take(p + 1));
                    }
                    p = p + 1;
                }
                proof {
                    assert(all.take(k as int) =~= all);
                }
                return out;
            },
            None => {},
        }
        let c = match self.find_client(client_id) {
            Some(c) => c,
            None => return Vec::new(),
        };
        let client = &self.clients[c];
        if !client.pane_dock.areas.is_empty() || client.pane_dock.pane_ids.len() == 0 {
            return Vec::new();
        }
        let target = match self.shell_target_of(client) {
            Some(t) => t,
            None => return Vec::new(),
        };
        let ids = &client.pane_dock.pane_ids;
        let ghost all = str_seq(ids@);
        let n = ids.len();
        let mut out: Vec<u64> = Vec::new();
        let mut i: usize = 0;
        while i < n
            invariant
                self.wf(),
                n == ids@.len(),
                all == str_seq(ids@),
                Some(target) == self.spec_shell_target(*client),
                target.workspace_index < self.workspaces@.len(),
                target.tab_index < self.workspaces@[target.workspace_index as int].tabs@.len(),
                i <= n,
                out@ == self.docked_ids(all.take(i as int), target),
            decreases n - i,
        {
            proof {
                assert(all.take(i + 1).drop_last() =~= all.take(i as int));
                assert(all.take(i + 1).last() == ids@[i as int]@);
            }
            match self.parse_pane_id(&ids[i]) {
                Some((w, pane)) => {
                    if w == target.workspace_index && !self.tab_has_pane_exec(
                        target.workspace_index,
                        target.tab_index,
                        pane,
                    ) {
                        out.push(pane);
                    }
                },
                None => {},
            }
            i = i + 1;
        }
        proof {
            lemma_take_full(all);
        }
        out
    }

    /// The spec of `dock_focus`.
    pub open spec fn spec_dock_focus(self, client_id: u64) -> Option<u64> {
        match self.client_index(client_id) {
            None => None,
            Some(c) => {
                let cl = self.clients@[c];
                match str_pair_view(cl.pane_dock.focus) {
                    None => None,
                    Some((tab, pane)) => if self.spec_shell_tab_id(cl) != Some(tab) {
                        None
                    } else {
                        match (self.spec_shell_target(cl), self.spec_parse_pane_id(pane)) {
                            (Some(target), Some((w, p))) => if w == target.workspace_index {
                                Some(p)
                            } else {
                                None
                            },
                            _ => None,
                        }
                    },
                }
            },
        }
    }

    /// The focused extra pane of the client, while the client still views
    /// the tab it was focused from and the pane is in that tab's workspace.
    pub fn dock_focus(&self, client_id: u64) -> (r: Option<u64>)
        requires
            self.wf(),
        ensures
            r == self.spec_dock_focus(client_id),
    {
        let c = match self.find_client(client_id) {
            Some(c) => c,
            None => return None,
        };
        let client = &self.clients[c];
        let (tab, pane) = match &client.pane_dock.focus {
            Some((t, p)) => (t, p),
            None => return None,
        };
        let viewed = match self.shell_tab_id_of(client) {
            Some(t) => *t == *tab,
            None => false,
        };
        if !viewed {
            return None;
        }
        let target = match self.shell_target_of(client) {
            Some(t) => t,
            None => return None,
        };
        match self.parse_pane_id(pane) {
            Some((w, p)) => if w == target.workspace_index {
                Some(p)
            } else {
                None
            },
            None => None,
        }
    }
}

/// Law: the sticky panes the server keeps are distinct, each names a pane of
/// the session, and each identifier of the request that names a pane is
/// kept.
pub proof fn lemma_valid_unique(s: HeadlessServer, ids: Seq<Seq<char>>)
    ensures
        s.valid_unique(ids).no_duplicates(),
        forall|k: int| 0 <= k < s.valid_unique(ids).len() ==> (#[trigger] s.pane_loc(s.valid_unique(ids)[k])) is Some,
        forall|k: int| 0 <= k < ids.len() && s.pane_loc(ids[k]) is Some ==> s.valid_unique(ids).contains(#[trigger] ids[k]),
        s.valid_unique(ids).len() <= ids.len(),
    decreases ids.len(),
{
    if ids.len() > 0 {
        let rest = ids.drop_last();
        lemma_valid_unique(s, rest);
        let r = s.valid_unique(rest);
        let out = s.valid_unique(ids);
        assert forall|k: int| 0 <= k < ids.len() && s.pane_loc(ids[k]) is Some implies out.contains(#[trigger] ids[k]) by {
            if k < ids.len() - 1 {
                assert(rest[k] == ids[k]);
                assert(r.contains(rest[k]));
                let j = choose|j: int| 0 <= j < r.len() && r[j] == rest[k];
                if out != r {
                    assert(out[j] == r[j]);
                }
            } else if out != r {
                assert(out[out.len() - 1] == ids[k]);
            }
        }
        if out != r {
            assert forall|k: int| 0 <= k < out.len() implies (#[trigger] s.pane_loc(out[k])) is Some by {
                if k < r.len() {
                    assert(out[k] == r[k]);
                }
            }
        }
    }
}

/// Law: a dock that the server keeps is consistent with the session: every
/// area is backed by a tab of its workspace, the sticky panes are distinct
/// existing panes, and a focus is on one of them in the viewed tab.
pub proof fn lemma_normalized_is_consistent(s: HeadlessServer, c: ServerClient, d: PaneDock)
    ensures
        ({
            let n = s.normalized(c, d);
            &&& forall|ws: Seq<char>| #[trigger] n.areas.contains_key(ws) ==> s.area_valid(ws, n.areas[ws])
            &&& n.pane_ids.no_duplicates()
            &&& forall|k: int| 0 <= k < n.pane_ids.len() ==> (#[trigger] s.pane_loc(n.pane_ids[k])) is Some
            &&& n.focus matches Some((tab, pane)) ==> n.pane_ids.contains(pane) && s.spec_shell_tab_id(c) == Some(tab)
        }),
{
    let areas = s.valid_areas(areas_view(d.areas@));
    let base = if areas.dom() != Set::<Seq<char>>::empty() {
        s.enabled_area_panes(d.areas.keys(), areas_view(d.areas@))
    } else {
        str_seq(d.pane_ids@)
    };
    lemma_valid_unique(s, base);
}

/// Two well-formed servers with the same workspaces locate public
/// identifiers alike.
proof fn lemma_same_locations(a: HeadlessServer, b: HeadlessServer, id: Seq<char>)
    requires
        a.wf(),
        b.wf(),
        a.workspaces == b.workspaces,
    ensures
        a.tab_loc(id) == b.tab_loc(id),
        a.pane_loc(id) == b.pane_loc(id),
{
    assert forall|w: int, t: int|
        #![trigger a.tab_at(w, t, id)]
        #![trigger b.tab_at(w, t, id)]
        a.tab_at(w, t, id) == b.tab_at(w, t, id) by {}
    assert forall|w: int, t: int, p: int|
        #![trigger a.pane_at(w, t, p, id)]
        #![trigger b.pane_at(w, t, p, id)]
        a.pane_at(w, t, p, id) == b.pane_at(w, t, p, id) by {}
    if exists|w: int, t: int| a.tab_at(w, t, id) {
        let (w1, t1) = choose|w: int, t: int| a.tab_at(w, t, id);
        assert(b.tab_at(w1, t1, id));
        let (w2, t2) = choose|w: int, t: int| b.tab_at(w, t, id);
        assert(b.tab_at(w2, t2, id));
    } else {
        assert(!exists|w: int, t: int| b.tab_at(w, t, id));
    }
    if exists|w: int, t: int, p: int| a.pane_at(w, t, p, id) {
        let (w1, t1, p1) = choose|w: int, t: int, p: int| a.pane_at(w, t, p, id);
        assert(b.pane_at(w1, t1, p1, id));
        let (w2, t2, p2) = choose|w: int, t: int, p: int| b.pane_at(w, t, p, id);
        assert(b.pane_at(w2, t2, p2, id));
    } else {
        assert(!exists|w: int, t: int, p: int| b.pane_at(w, t, p, id));
    }
}

proof fn lemma_same_valid_unique(a: HeadlessServer, b: HeadlessServer, ids: Seq<Seq<char>>)
    requires
        a.wf(),
        b.wf(),
        a.workspaces == b.workspaces,
    ensures
        a.valid_unique(ids) == b.valid_unique(ids),
    decreases ids.len(),
{
    if ids.len() > 0 {
        lemma_same_valid_unique(a, b, ids.drop_last());
        lemma_same_locations(a, b, ids.last());
    }
}

proof fn lemma_same_area_panes(
    a: HeadlessServer,
    b: HeadlessServer,
    keys: Seq<Seq<char>>,
    areas: Map<Seq<char>, AreaView>,
)
    requires
        a.wf(),
        b.wf(),
        a.workspaces == b.workspaces,
    ensures
        a.enabled_area_panes(keys, areas) == b.enabled_area_panes(keys, areas),
    decreases keys.len(),
{
    if keys.len() > 0 {
        lemma_same_area_panes(a, b, keys.drop_last(), areas);
        let ws = keys.last();
        if areas.contains_key(ws) {
            lemma_same_locations(a, b, areas[ws].tab_id);
        }
    }
}

/// The dock a server keeps depends only on its workspaces and on the tab
/// the client's shell shows.
proof fn lemma_same_normalized(a: HeadlessServer, b: HeadlessServer, ca: ServerClient, cb: ServerClient, d: PaneDock)
    requires
        a.wf(),
        b.wf(),
        a.workspaces == b.workspaces,
        ca.shell_target == cb.shell_target,
    ensures
        a.normalized(ca, d) == b.normalized(cb, d),
{
    let av = areas_view(d.areas@);
    assert forall|ws: Seq<char>| av.contains_key(ws) implies #[trigger] a.area_valid(ws, av[ws]) == b.area_valid(
        ws,
        av[ws],
    ) by {
        lemma_same_locations(a, b, av[ws].tab_id);
    }
    assert(a.valid_areas(av) =~= b.valid_areas(av));
    lemma_same_area_panes(a, b, d.areas.keys(), av);
    let base = if a.valid_areas(av).dom() != Set::<Seq<char>>::empty() {
        a.enabled_area_panes(d.areas.keys(), av)
    } else {
        str_seq(d.pane_ids@)
    };
    lemma_same_valid_unique(a, b, base);
    match str_pair_view(d.focus) {
        Some(f) => {
            lemma_same_locations(a, b, f.0);
            lemma_same_locations(a, b, f.1);
        },
        None => {},
    }
}

/// Law: handing a client the same dock again right after the server took it
/// changes nothing: the second call reports no change and leaves the server
/// as the first call left it (no recompute, no geometry change).
pub proof fn lemma_set_pane_dock_idempotent(
    s0: HeadlessServer,
    s1: HeadlessServer,
    s2: HeadlessServer,
    client_id: u64,
    dock: PaneDock,
    r1: bool,
    r2: bool,
)
    requires
        s0.wf(),
        s0.pane_dock_set(client_id, dock, r1, s1),
        s1.pane_dock_set(client_id, dock, r2, s2),
    ensures
        !r2,
        s2 == s1,
{
    match s0.client_index(client_id) {
        None => {},
        Some(c) => {
            let cl = s0.clients@[c];
            if !s0.dock_rejected(cl, dock) && r1 {
                assert(s1.clients@[c].client_id == client_id);
                let c1 = s1.client_index(client_id).unwrap();
                assert(s1.clients@[c1].client_id == client_id);
                assert(c1 == c);
                let cl1 = s1.clients@[c];
                lemma_same_normalized(s1, s0, cl1, cl, dock);
            }
        },
    }
}


proof fn lemma_first_area_target_enabled(
    s: HeadlessServer,
    keys: Seq<Seq<char>>,
    areas: Map<Seq<char>, AreaView>,
    target: TabSurfaceTarget,
)
    ensures
        s.first_area_target(keys, areas, target) matches Some((t, st)) ==> exists|i: int|
            0 <= i < keys.len() && {
                let a = areas[#[trigger] keys[i]];
                &&& a.enabled
                &&& a.settings == st
                &&& s.tab_loc(a.tab_id) == Some((t.workspace_index as int, t.tab_index as int))
                &&& t.workspace_index == target.workspace_index
                &&& t.tab_index != target.tab_index
            },
    decreases keys.len(),
{
    if keys.len() > 0 {
        let a = areas[keys[0]];
        match s.area_target(a, target) {
            Some(t) => {
                let (w, tt) = s.tab_loc(a.tab_id).unwrap();
                assert(s.tab_at(w, tt, a.tab_id));
                assert(s.workspaces.len() == s.workspaces@.len());
                assert(s.workspaces@[w].tabs.len() == s.workspaces@[w].tabs@.len());
                assert(t.workspace_index as int == w && t.tab_index as int == tt);
                assert(areas[keys[0]] == a);
            },
            None => {
                let rest = keys.drop_first();
                lemma_first_area_target_enabled(s, rest, areas, target);
                if let Some((t, st)) = s.first_area_target(keys, areas, target) {
                    let i = choose|i: int|
                        0 <= i < rest.len() && {
                            let a = areas[#[trigger] rest[i]];
                            &&& a.enabled
                            &&& a.settings == st
                            &&& s.tab_loc(a.tab_id) == Some((t.workspace_index as int, t.tab_index as int))
                            &&& t.workspace_index == target.workspace_index
                            &&& t.tab_index != target.tab_index
                        };
                    assert(rest[i] == keys[i + 1]);
                }
            },
        }
    }
}

/// Law: the server shows a persistent area beside a client's tab only for
/// an enabled area of the client's dock. The shown tab is that area's
/// backing tab, in the viewed workspace but not the viewed tab, and comes
/// with that area's settings; when every area is hidden nothing is shown.
pub proof fn lemma_persistent_target_is_shown_area(s: HeadlessServer, client_id: u64, c: int)
    requires
        s.wf(),
        s.client_index(client_id) == Some(c),
    ensures
        s.spec_persistent_target(client_id) matches Some((t, st)) ==> {
            &&& t.workspace_index < s.workspaces@.len()
            &&& t.tab_index < s.workspaces@[t.workspace_index as int].tabs@.len()
            &&& exists|ws: Seq<char>| #[trigger]
                s.clients@[c].pane_dock.areas@.contains_key(ws) && {
                    let a = s.clients@[c].pane_dock.areas@[ws];
                    &&& a.enabled
                    &&& a.settings == st
                    &&& s.workspaces@[t.workspace_index as int].tabs@[t.tab_index as int].public_id@ == a.tab_id@
                }
            &&& s.clients@[c].shell_target matches Some(v) && v.workspace_index == t.workspace_index
                && v.tab_index != t.tab_index
        },
        (forall|ws: Seq<char>| #[trigger]
            s.clients@[c].pane_dock.areas@.contains_key(ws) ==> !s.clients@[c].pane_dock.areas@[ws].enabled)
            ==> s.spec_persistent_target(client_id) is None,
{
    let cl = s.clients@[c];
    let dock = cl.pane_dock;
    match s.spec_shell_target(cl) {
        Some(target) => {
            let keys = dock.areas.keys();
            let av = areas_view(dock.areas@);
            lemma_first_area_target_enabled(s, keys, av, target);
            dock.areas.lemma_keys_listed();
            if let Some((t, st)) = s.spec_persistent_target(client_id) {
                let i = choose|i: int|
                    0 <= i < keys.len() && {
                        let a = av[#[trigger] keys[i]];
                        &&& a.enabled
                        &&& a.settings == st
                        &&& s.tab_loc(a.tab_id) == Some((t.workspace_index as int, t.tab_index as int))
                        &&& t.workspace_index == target.workspace_index
                        &&& t.tab_index != target.tab_index
                    };
                let ws = keys[i];
                assert(dock.areas@.contains_key(ws));
                let a = av[ws];
                assert(a == dock.areas@[ws]@);
                let (w, tt) = s.tab_loc(a.tab_id).unwrap();
                assert(s.tab_at(w, tt, a.tab_id));
            }
        },
        None => {},
    }
}

proof fn lemma_docked_ids_outside(s: HeadlessServer, ids: Seq<Seq<char>>, v: TabSurfaceTarget)
    requires
        v.workspace_index < s.workspaces@.len(),
        v.tab_index < s.workspaces@[v.workspace_index as int].tabs@.len(),
    ensures
        forall|k: int, p: int|
            0 <= k < s.docked_ids(ids, v).len() && 0 <= p < s.workspaces@[v.workspace_index as int].tabs@[
                v.tab_index as int].panes@.len() ==> #[trigger] s.workspaces@[v.workspace_index as int].tabs@[
                v.tab_index as int].panes@[p].id != #[trigger] s.docked_ids(ids, v)[k],
        forall|k: int|
            #![trigger s.docked_ids(ids, v)[k]]
            0 <= k < s.docked_ids(ids, v).len() ==> exists|t: int, p: int|
                0 <= t < s.workspaces@[v.workspace_index as int].tabs@.len() && 0 <= p < s.workspaces@[
                    v.workspace_index as int].tabs@[t].panes@.len() && #[trigger] s.workspaces@[
                    v.workspace_index as int].tabs@[t].panes@[p].id == s.docked_ids(ids, v)[k],
    decreases ids.len(),
{
    if ids.len() > 0 {
        let rest = s.docked_ids(ids.drop_last(), v);
        let r = s.docked_ids(ids, v);
        let tabs = s.workspaces@[v.workspace_index as int].tabs@;
        lemma_docked_ids_outside(s, ids.drop_last(), v);
        let pushed = match s.spec_parse_pane_id(ids.last()) {
            Some((w, pane)) => w == v.workspace_index && !s.tab_has_pane(
                v.workspace_index as int,
                v.tab_index as int,
                pane,
            ),
            None => false,
        };
        if pushed {
            let (w, pane) = s.spec_parse_pane_id(ids.last()).unwrap();
            assert(r == rest.push(pane));
            let (lw, lt, lp) = s.pane_loc(ids.last()).unwrap();
            assert(s.pane_at(lw, lt, lp, ids.last()));
            assert(lw == v.workspace_index);
            assert(tabs[lt].panes@[lp].id == pane);
            assert forall|k: int|
                #![trigger r[k]]
                0 <= k < r.len() implies exists|t: int, p: int|
                    0 <= t < tabs.len() && 0 <= p < tabs[t].panes@.len() && #[trigger] tabs[t].panes@[p].id
                        == r[k] by {
                if k < rest.len() {
                    assert(r[k] == rest[k]);
                } else {
                    assert(tabs[lt].panes@[lp].id == r[k]);
                }
            }
            assert forall|k: int, p: int|
                0 <= k < r.len() && 0 <= p < tabs[v.tab_index as int].panes@.len() implies #[trigger] tabs[
                    v.tab_index as int].panes@[p].id != #[trigger] r[k] by {
                if k < rest.len() {
                    assert(r[k] == rest[k]);
                }
            }
        } else {
            assert(r == rest);
        }
    }
}

/// Law: sticky panes are never shown twice. When no persistent area is
/// shown beside a client's tab, every pane docked beside it belongs to the
/// viewed workspace and is not a pane of the viewed tab itself.
pub proof fn lemma_docked_panes_outside_viewed_tab(s: HeadlessServer, client_id: u64, c: int, v: TabSurfaceTarget)
    requires
        s.wf(),
        s.client_index(client_id) == Some(c),
        s.clients@[c].shell_target == Some(v),
        v.workspace_index < s.workspaces@.len(),
        v.tab_index < s.workspaces@[v.workspace_index as int].tabs@.len(),
        s.spec_persistent_target(client_id) is None,
    ensures
        forall|k: int, p: int|
            0 <= k < s.spec_docked_panes(client_id).len() && 0 <= p < s.workspaces@[
                v.workspace_index as int].tabs@[v.tab_index as int].panes@.len() ==> s.workspaces@[
                v.workspace_index as int].tabs@[v.tab_index as int].panes@[p].id
                != s.spec_docked_panes(client_id)[k],
        forall|k: int|
            #![trigger s.spec_docked_panes(client_id)[k]]
            0 <= k < s.spec_docked_panes(client_id).len() ==> exists|t: int, p: int|
                0 <= t < s.workspaces@[v.workspace_index as int].tabs@.len() && 0 <= p < s.workspaces@[
                    v.workspace_index as int].tabs@[t].panes@.len() && #[trigger] s.workspaces@[
                    v.workspace_index as int].tabs@[t].panes@[p].id == s.spec_docked_panes(client_id)[k],
{
    let cl = s.clients@[c];
    let ids = str_seq(cl.pane_dock.pane_ids@);
    let r = s.spec_docked_panes(client_id);
    let tabs = s.workspaces@[v.workspace_index as int].tabs@;
    lemma_docked_ids_outside(s, ids, v);
    assert(s.spec_shell_target(cl) == Some(v));
    if !(cl.pane_dock.areas@.dom() != Set::<Seq<char>>::empty() || cl.pane_dock.pane_ids@.len() == 0) {
        assert(r == s.docked_ids(ids, v));
    } else {
        assert(r.len() == 0);
    }
}


proof fn lemma_docked_ids_complete(s: HeadlessServer, ids: Seq<Seq<char>>, v: TabSurfaceTarget)
    requires
        s.wf(),
        v.workspace_index < s.workspaces@.len(),
        v.tab_index < s.workspaces@[v.workspace_index as int].tabs@.len(),
    ensures
        forall|j: int, t: int, p: int|
            0 <= j < ids.len() && #[trigger] s.pane_at(v.workspace_index as int, t, p, ids[j]) && !s.tab_has_pane(
                v.workspace_index as int,
                v.tab_index as int,
                s.workspaces@[v.workspace_index as int].tabs@[t].panes@[p].id,
            ) ==> s.docked_ids(ids, v).contains(s.workspaces@[v.workspace_index as int].tabs@[t].panes@[p].id),
    decreases ids.len(),
{
    if ids.len() > 0 {
        let rest_ids = ids.drop_last();
        let rest = s.docked_ids(rest_ids, v);
        let r = s.docked_ids(ids, v);
        lemma_docked_ids_complete(s, rest_ids, v);
        assert(forall|x: u64| rest.contains(x) ==> r.contains(x)) by {
            assert forall|x: u64| rest.contains(x) implies r.contains(x) by {
                let i = choose|i: int| 0 <= i < rest.len() && rest[i] == x;
                if r != rest {
                    let (w, pane) = s.spec_parse_pane_id(ids.last()).unwrap();
                    assert(r == rest.push(pane));
                    assert(r[i] == x);
                }
            }
        }
        assert forall|j: int, t: int, p: int|
            0 <= j < ids.len() && #[trigger] s.pane_at(v.workspace_index as int, t, p, ids[j]) && !s.tab_has_pane(
                v.workspace_index as int,
                v.tab_index as int,
                s.workspaces@[v.workspace_index as int].tabs@[t].panes@[p].id,
            ) implies r.contains(s.workspaces@[v.workspace_index as int].tabs@[t].panes@[p].id) by {
            let id = s.workspaces@[v.workspace_index as int].tabs@[t].panes@[p].id;
            if j < ids.len() - 1 {
                assert(rest_ids[j] == ids[j]);
                assert(s.pane_at(v.workspace_index as int, t, p, rest_ids[j]));
            } else {
                let (lw, lt, lp) = s.pane_loc(ids.last()).unwrap();
                assert(s.pane_at(lw, lt, lp, ids.last()));
                assert(lw == v.workspace_index && lt == t && lp == p);
                assert(r == rest.push(id));
                assert(r[rest.len() as int] == id);
            }
        }
    }
}

/// Law: every sticky pane of the viewed workspace outside the viewed tab is
/// docked. When no persistent area is shown beside a client's tab and the
/// client has sticky panes but no areas, each sticky identifier that names
/// a pane of the viewed workspace not in the viewed tab is shown.
pub proof fn lemma_docked_panes_complete(s: HeadlessServer, client_id: u64, c: int, v: TabSurfaceTarget)
    requires
        s.wf(),
        s.client_index(client_id) == Some(c),
        s.clients@[c].shell_target == Some(v),
        v.workspace_index < s.workspaces@.len(),
        v.tab_index < s.workspaces@[v.workspace_index as int].tabs@.len(),
        s.spec_persistent_target(client_id) is None,
        s.clients@[c].pane_dock.areas@.dom() == Set::<Seq<char>>::empty(),
    ensures
        forall|j: int, t: int, p: int|
            0 <= j < s.clients@[c].pane_dock.pane_ids@.len() && #[trigger] s.pane_at(
                v.workspace_index as int,
                t,
                p,
                s.clients@[c].pane_dock.pane_ids@[j]@,
            ) && (forall|q: int|
                0 <= q < s.workspaces@[v.workspace_index as int].tabs@[v.tab_index as int].panes@.len()
                    ==> #[trigger] s.workspaces@[v.workspace_index as int].tabs@[v.tab_index as int].panes@[q].id
                    != s.workspaces@[v.workspace_index as int].tabs@[t].panes@[p].id) ==> s.spec_docked_panes(
                client_id,
            ).contains(s.workspaces@[v.workspace_index as int].tabs@[t].panes@[p].id),
{
    let cl = s.clients@[c];
    let ids = str_seq(cl.pane_dock.pane_ids@);
    lemma_docked_ids_complete(s, ids, v);
    assert(s.spec_shell_target(cl) == Some(v));
    assert forall|j: int, t: int, p: int|
        0 <= j < cl.pane_dock.pane_ids@.len() && #[trigger] s.pane_at(
            v.workspace_index as int,
            t,
            p,
            cl.pane_dock.pane_ids@[j]@,
        ) && (forall|q: int|
            0 <= q < s.workspaces@[v.workspace_index as int].tabs@[v.tab_index as int].panes@.len()
                ==> #[trigger] s.workspaces@[v.workspace_index as int].tabs@[v.tab_index as int].panes@[q].id
                != s.workspaces@[v.workspace_index as int].tabs@[t].panes@[p].id) implies s.spec_docked_panes(
        client_id,
    ).contains(s.workspaces@[v.workspace_index as int].tabs@[t].panes@[p].id) by {
        assert(ids[j] == cl.pane_dock.pane_ids@[j]@);
        assert(s.pane_at(v.workspace_index as int, t, p, ids[j]));
        assert(cl.pane_dock.pane_ids@.len() > 0);
        assert(s.spec_docked_panes(client_id) == s.docked_ids(ids, v));
    }
}


proof fn lemma_first_area_target_found(
    s: HeadlessServer,
    keys: Seq<Seq<char>>,
    areas: Map<Seq<char>, AreaView>,
    target: TabSurfaceTarget,
    i: int,
)
    requires
        0 <= i < keys.len(),
        s.area_target(areas[keys[i]], target) is Some,
    ensures
        s.first_area_target(keys, areas, target) is Some,
    decreases keys.len(),
{
    if s.area_target(areas[keys[0]], target) is None {
        assert(keys.drop_first()[i - 1] == keys[i]);
        lemma_first_area_target_found(s, keys.drop_first(), areas, target, i - 1);
    }
}

/// Law: a shown area beside the viewed tab is never missed. When the
/// client's dock holds an enabled area backed by a tab of the viewed
/// workspace other than the viewed tab, the server shows a persistent area.
pub proof fn lemma_persistent_target_complete(
    s: HeadlessServer,
    client_id: u64,
    c: int,
    v: TabSurfaceTarget,
    ws: Seq<char>,
    t: int,
)
    requires
        s.wf(),
        s.client_index(client_id) == Some(c),
        s.clients@[c].shell_target == Some(v),
        v.workspace_index < s.workspaces@.len(),
        v.tab_index < s.workspaces@[v.workspace_index as int].tabs@.len(),
        s.clients@[c].pane_dock.areas@.contains_key(ws),
        s.clients@[c].pane_dock.areas@[ws].enabled,
        s.tab_at(v.workspace_index as int, t, s.clients@[c].pane_dock.areas@[ws].tab_id@),
        t != v.tab_index,
    ensures
        s.spec_persistent_target(client_id) is Some,
{
    let cl = s.clients@[c];
    let dock = cl.pane_dock;
    let keys = dock.areas.keys();
    let av = areas_view(dock.areas@);
    dock.areas.lemma_keys_listed();
    assert(keys.contains(ws));
    let i = choose|i: int| 0 <= i < keys.len() && keys[i] == ws;
    let a = av[keys[i]];
    assert(a == dock.areas@[ws]@);
    let (w2, t2) = s.tab_loc(a.tab_id).unwrap();
    assert(s.tab_at(w2, t2, a.tab_id));
    assert(w2 == v.workspace_index && t2 == t);
    assert(s.spec_shell_target(cl) == Some(v));
    lemma_first_area_target_found(s, keys, av, v, i);
}


} // verus!
