//! Optional, connection-local pane presentation: which panes a client keeps
//! visible beside its current tab, and which backing tab of each workspace
//! is shown as that workspace's persistent area.
use vstd::prelude::*;
use crate::persistent_area::PersistentAreaSettings;
use crate::str_map::StrMap;

verus! {

/// Name of the optional capability that enables pane docks.
pub const CAPABILITY: &'static str = "pane_dock_v1";

/// Kind of the endpoint control message that carries a pane dock.
pub const KIND: &'static str = "shell.pane-dock.v1";

/// Most sticky panes one connection may keep.
pub const MAX_PANES: usize = 32;

/// Most workspace areas a server accepts in one dock.
pub const MAX_AREAS: usize = 128;

/// The character sequences of a list of strings.
pub open spec fn str_seq(v: Seq<String>) -> Seq<Seq<char>> {
    v.map_values(|s: String| s@)
}

/// The character sequences of an optional pair of strings.
pub open spec fn str_pair_view(p: Option<(String, String)>) -> Option<(Seq<char>, Seq<char>)> {
    match p {
        Some((a, b)) => Some((a@, b@)),
        None => None,
    }
}

/// Compares two string lists element by element.
pub fn same_strings(a: &Vec<String>, b: &Vec<String>) -> (r: bool)
    ensures
        r == (str_seq(a@) == str_seq(b@)),
{
    if a.len() != b.len() {
        proof {
            assert(str_seq(a@).len() != str_seq(b@).len());
        }
        return false;
    }
    let n = a.len();
    let mut i: usize = 0;
    while i < n
        invariant
            n == a@.len(),
            n == b@.len(),
            i <= n,
            forall|j: int| 0 <= j < i ==> (#[trigger] a@[j])@ == b@[j]@,
        decreases n - i,
    {
        if a[i] != b[i] {
            proof {
                assert(str_seq(a@)[i as int] != str_seq(b@)[i as int]);
            }
            return false;
        }
        i = i + 1;
    }
    proof {
        assert(str_seq(a@) =~= str_seq(b@));
    }
    true
}

/// True when `v` holds a string equal to `s`.
pub fn contains_string(v: &Vec<String>, s: &String) -> (r: bool)
    ensures
        r == str_seq(v@).contains(s@),
{
    let n = v.len();
    let mut i: usize = 0;
    while i < n
        invariant
            n == v@.len(),
            i <= n,
            forall|j: int| 0 <= j < i ==> (#[trigger] v@[j])@ != s@,
        decreases n - i,
    {
        if v[i] == *s {
            proof {
                assert(str_seq(v@)[i as int] == s@);
            }
            return true;
        }
        i = i + 1;
    }
    proof {
        if str_seq(v@).contains(s@) {
            let j = choose|j: int| 0 <= j < str_seq(v@).len() && str_seq(v@)[j] == s@;
            assert(v@[j]@ == s@);
        }
    }
    false
}

/// A copy of a string list.
pub fn clone_strings(v: &Vec<String>) -> (r: Vec<String>)
    ensures
        r@ == v@,
{
    let n = v.len();
    let mut out: Vec<String> = Vec::new();
    let mut i: usize = 0;
    while i < n
        invariant
            n == v@.len(),
            i <= n,
            out@ == v@.subrange(0, i as int),
        decreases n - i,
    {
        out.push(v[i].clone());
        proof {
            assert(out@ =~= v@.subrange(0, i + 1));
        }
        i = i + 1;
    }
    proof {
        assert(out@ =~= v@);
    }
    out
}

/// A copy of an optional string.
pub fn clone_opt_string(s: &Option<String>) -> (r: Option<String>)
    ensures
        r == *s,
{
    match s {
        Some(v) => Some(v.clone()),
        None => None,
    }
}

/// The persistent area of one workspace: its backing tab, whether it is
/// shown, and how it is shown.
#[derive(Debug)]
pub struct WorkspaceArea {
    pub tab_id: String,
    pub enabled: bool,
    pub settings: PersistentAreaSettings,
}

/// What an area means: equality of areas is equality of these views.
pub struct AreaView {
    pub tab_id: Seq<char>,
    pub enabled: bool,
    pub settings: PersistentAreaSettings,
}

impl View for WorkspaceArea {
    type V = AreaView;

    open spec fn view(&self) -> AreaView {
        AreaView { tab_id: self.tab_id@, enabled: self.enabled, settings: self.settings }
    }
}

impl Clone for WorkspaceArea {
    fn clone(&self) -> (r: Self)
        ensures
            r == *self,
    {
        WorkspaceArea { tab_id: self.tab_id.clone(), enabled: self.enabled, settings: self.settings }
    }
}

impl Default for WorkspaceArea {
    fn default() -> (r: Self)
        ensures
            r.tab_id@ == Seq::<char>::empty(),
            !r.enabled,
            r.settings == PersistentAreaSettings::spec_default(),
    {
        WorkspaceArea { tab_id: String::new(), enabled: false, settings: PersistentAreaSettings::default() }
    }
}

impl WorkspaceArea {
    /// A shown area backed by `tab_id`, with default settings.
    pub fn shown(tab_id: String) -> (r: Self)
        ensures
            r.tab_id == tab_id,
            r.enabled,
            r.settings == PersistentAreaSettings::spec_default(),
    {
        WorkspaceArea { tab_id, enabled: true, settings: PersistentAreaSettings::default() }
    }
}

/// Compares two areas by content.
pub fn same_area(a: &WorkspaceArea, b: &WorkspaceArea) -> (r: bool)
    ensures
        r == (a@ == b@),
{
    a.tab_id == b.tab_id && a.enabled == b.enabled && a.settings == b.settings
}

/// The view of a map of areas.
pub open spec fn areas_view(m: Map<Seq<char>, WorkspaceArea>) -> Map<Seq<char>, AreaView> {
    m.map_values(|a: WorkspaceArea| a@)
}

/// Optional snapshot extension that names the durable identity of each
/// backing tab.
#[derive(Debug)]
pub struct TabIdentities {
    pub persistent_tab_ids: StrMap<String>,
}

/// A client's dock: the server boot it belongs to, the persistent area of
/// each workspace, the sticky panes, and the focused extra pane (viewed tab,
/// focused pane).
#[derive(Debug)]
pub struct PaneDock {
    pub boot_id: String,
    pub areas: StrMap<WorkspaceArea>,
    pub pane_ids: Vec<String>,
    pub focus: Option<(String, String)>,
}

/// What a dock means: equality of docks is equality of these views.
pub struct DockView {
    pub boot_id: Seq<char>,
    pub areas: Map<Seq<char>, AreaView>,
    pub pane_ids: Seq<Seq<char>>,
    pub focus: Option<(Seq<char>, Seq<char>)>,
}

impl View for PaneDock {
    type V = DockView;

    open spec fn view(&self) -> DockView {
        DockView {
            boot_id: self.boot_id@,
            areas: areas_view(self.areas@),
            pane_ids: str_seq(self.pane_ids@),
            focus: str_pair_view(self.focus),
        }
    }
}

impl PaneDock {
    /// An empty dock for the server boot `boot_id`.
    pub fn for_boot(boot_id: String) -> (r: Self)
        ensures
            r.boot_id == boot_id,
            r.areas@ == Map::<Seq<char>, WorkspaceArea>::empty(),
            r.pane_ids@ == Seq::<String>::empty(),
            r.focus is None,
    {
        PaneDock { boot_id, areas: StrMap::new(), pane_ids: Vec::new(), focus: None }
    }
}

impl Default for PaneDock {
    fn default() -> (r: Self)
        ensures
            r.boot_id@ == Seq::<char>::empty(),
            r.areas@ == Map::<Seq<char>, WorkspaceArea>::empty(),
            r.pane_ids@ == Seq::<String>::empty(),
            r.focus is None,
    {
        PaneDock::for_boot(String::new())
    }
}

impl Clone for PaneDock {
    fn clone(&self) -> (r: Self)
        ensures
            r@ == self@,
            r.boot_id == self.boot_id,
            r.areas@ == self.areas@,
            r.areas.keys() == self.areas.keys(),
            r.pane_ids@ == self.pane_ids@,
            r.focus == self.focus,
    {
        let areas = self.areas.clone();
        proof {
            assert(areas@ =~= self.areas@);
        }
        let focus = match &self.focus {
            Some((t, p)) => Some((t.clone(), p.clone())),
            None => None,
        };
        PaneDock { boot_id: self.boot_id.clone(), areas, pane_ids: clone_strings(&self.pane_ids), focus }
    }
}

/// True when every area of `a` is in `b` with the same content.
fn areas_included(a: &StrMap<WorkspaceArea>, b: &StrMap<WorkspaceArea>) -> (r: bool)
    ensures
        r == (forall|k: Seq<char>| #[trigger] a@.contains_key(k) ==> b@.contains_key(k) && a@[k]@ == b@[k]@),
{
    let n = a.len();
    let mut i: usize = 0;
    while i < n
        invariant
            n == a.keys().len(),
            a.well_indexed(),
            i <= n,
            forall|j: int| 0 <= j < i ==> {
                let k = #[trigger] a.keys()[j];
                b@.contains_key(k) && a@[k]@ == b@[k]@
            },
        decreases n - i,
    {
        let key = a.key_at(i);
        let va = a.value_at(i);
        proof {
            assert(a.keys().contains(a.keys()[i as int]));
            assert(a@.contains_key(key@));
            assert(a@[key@] == *va);
        }
        match b.get(key) {
            Some(vb) => {
                if !same_area(va, vb) {
                    return false;
                }
            },
            None => {
                return false;
            },
        }
        i = i + 1;
    }
    proof {
        assert forall|k: Seq<char>| #[trigger] a@.contains_key(k) implies b@.contains_key(k) && a@[k]@
            == b@[k]@ by {
            let j = choose|j: int| 0 <= j < a.keys().len() && a.keys()[j] == k;
            assert(a.keys()[j] == k);
        }
    }
    true
}

/// Compares two maps of areas by content.
pub fn same_areas(a: &StrMap<WorkspaceArea>, b: &StrMap<WorkspaceArea>) -> (r: bool)
    ensures
        r == (areas_view(a@) == areas_view(b@)),
{
    let ab = areas_included(a, b);
    let ba = areas_included(b, a);
    proof {
        if ab && ba {
            assert(areas_view(a@) =~= areas_view(b@));
        }
        if areas_view(a@) == areas_view(b@) {
            assert forall|k: Seq<char>| #[trigger] a@.contains_key(k) implies b@.contains_key(k) && a@[k]@
                == b@[k]@ by {
                assert(areas_view(a@).contains_key(k));
                assert(areas_view(a@)[k] == a@[k]@);
                assert(areas_view(b@)[k] == b@[k]@);
            }
            assert forall|k: Seq<char>| #[trigger] b@.contains_key(k) implies a@.contains_key(k) && b@[k]@
                == a@[k]@ by {
                assert(areas_view(b@).contains_key(k));
                assert(areas_view(a@)[k] == a@[k]@);
                assert(areas_view(b@)[k] == b@[k]@);
            }
        }
    }
    ab && ba
}

/// Compares two optional (tab, pane) pairs by content.
pub fn same_focus(a: &Option<(String, String)>, b: &Option<(String, String)>) -> (r: bool)
    ensures
        r == (str_pair_view(*a) == str_pair_view(*b)),
{
    match (a, b) {
        (Some((at, ap)), Some((bt, bp))) => *at == *bt && *ap == *bp,
        (None, None) => true,
        _ => false,
    }
}

/// Compares two docks by content.
pub fn same_dock(a: &PaneDock, b: &PaneDock) -> (r: bool)
    ensures
        r == (a@ == b@),
{
    a.boot_id == b.boot_id && same_areas(&a.areas, &b.areas) && same_strings(&a.pane_ids, &b.pane_ids)
        && same_focus(&a.focus, &b.focus)
}

} // verus!
