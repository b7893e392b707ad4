//! The part of a server session snapshot that the dock rules read: the
//! server boot, the focused workspace, tab and pane, and the tabs and panes
//! of the session with their public identifiers.
use vstd::prelude::*;

verus! {

/// Filtering the first `i + 1` elements adds the `i`-th one when it passes.
pub proof fn lemma_filter_take_step<A>(s: Seq<A>, pred: spec_fn(A) -> bool, i: int)
    requires
        0 <= i < s.len(),
    ensures
        s.take(i + 1).filter(pred) == (if pred(s[i]) {
            s.take(i).filter(pred).push(s[i])
        } else {
            s.take(i).filter(pred)
        }),
{
    reveal(Seq::filter);
    assert(s.take(i + 1).drop_last() =~= s.take(i));
}

/// Filtering the whole of `s` is filtering `s.take(len)`.
pub proof fn lemma_take_full<A>(s: Seq<A>)
    ensures
        s.take(s.len() as int) == s,
{
    assert(s.take(s.len() as int) =~= s);
}

#[derive(Debug)]
pub struct TabSummary {
    pub tab_id: String,
    pub workspace_id: String,
    pub focused: bool,
}

pub struct TabView {
    pub tab_id: Seq<char>,
    pub workspace_id: Seq<char>,
}

impl View for TabSummary {
    type V = TabView;

    open spec fn view(&self) -> TabView {
        TabView { tab_id: self.tab_id@, workspace_id: self.workspace_id@ }
    }
}

#[derive(Debug)]
pub struct PaneSummary {
    pub pane_id: String,
    pub tab_id: String,
    pub workspace_id: String,
}

pub struct PaneView {
    pub pane_id: Seq<char>,
    pub tab_id: Seq<char>,
    pub workspace_id: Seq<char>,
}

impl View for PaneSummary {
    type V = PaneView;

    open spec fn view(&self) -> PaneView {
        PaneView { pane_id: self.pane_id@, tab_id: self.tab_id@, workspace_id: self.workspace_id@ }
    }
}

/// A session snapshot as the client receives it.
#[derive(Debug)]
pub struct ClientShellSnapshot {
    pub boot_id: String,
    pub revision: u64,
    pub focused_workspace_id: Option<String>,
    pub focused_tab_id: Option<String>,
    pub focused_pane_id: Option<String>,
    pub tabs: Vec<TabSummary>,
    pub panes: Vec<PaneSummary>,
}

impl Clone for TabSummary {
    fn clone(&self) -> (r: Self)
        ensures
            r == *self,
    {
        TabSummary { tab_id: self.tab_id.clone(), workspace_id: self.workspace_id.clone(), focused: self.focused }
    }
}

impl Clone for PaneSummary {
    fn clone(&self) -> (r: Self)
        ensures
            r == *self,
    {
        PaneSummary {
            pane_id: self.pane_id.clone(),
            tab_id: self.tab_id.clone(),
            workspace_id: self.workspace_id.clone(),
        }
    }
}

impl Clone for ClientShellSnapshot {
    fn clone(&self) -> (r: Self)
        ensures
            r@ == self@,
    {
        let tabs = self.tabs.clone();
        let panes = self.panes.clone();
        proof {
            assert(tabs@.map_values(|t: TabSummary| t@) =~= self.tabs@.map_values(|t: TabSummary| t@));
            assert(panes@.map_values(|p: PaneSummary| p@) =~= self.panes@.map_values(|p: PaneSummary| p@));
        }
        ClientShellSnapshot {
            boot_id: self.boot_id.clone(),
            revision: self.revision,
            focused_workspace_id: match &self.focused_workspace_id {
                Some(v) => Some(v.clone()),
                None => None,
            },
            focused_tab_id: match &self.focused_tab_id {
                Some(v) => Some(v.clone()),
                None => None,
            },
            focused_pane_id: match &self.focused_pane_id {
                Some(v) => Some(v.clone()),
                None => None,
            },
            tabs,
            panes,
        }
    }
}

pub open spec fn opt_str_view(s: Option<String>) -> Option<Seq<char>> {
    match s {
        Some(v) => Some(v@),
        None => None,
    }
}

pub struct SnapshotView {
    pub boot_id: Seq<char>,
    pub revision: u64,
    pub focused_workspace_id: Option<Seq<char>>,
    pub focused_tab_id: Option<Seq<char>>,
    pub focused_pane_id: Option<Seq<char>>,
    pub tabs: Seq<TabView>,
    pub panes: Seq<PaneView>,
}

impl View for ClientShellSnapshot {
    type V = SnapshotView;

    open spec fn view(&self) -> SnapshotView {
        SnapshotView {
            boot_id: self.boot_id@,
            revision: self.revision,
            focused_workspace_id: opt_str_view(self.focused_workspace_id),
            focused_tab_id: opt_str_view(self.focused_tab_id),
            focused_pane_id: opt_str_view(self.focused_pane_id),
            tabs: self.tabs@.map_values(|t: TabSummary| t@),
            panes: self.panes@.map_values(|p: PaneSummary| p@),
        }
    }
}

impl SnapshotView {
    /// The snapshot lists a pane with this identifier.
    pub open spec fn has_pane(self, pane: Seq<char>) -> bool {
        exists|i: int| 0 <= i < self.panes.len() && #[trigger] self.panes[i].pane_id == pane
    }

    /// The snapshot lists a tab with this identifier.
    pub open spec fn has_tab(self, tab: Seq<char>) -> bool {
        exists|i: int| 0 <= i < self.tabs.len() && #[trigger] self.tabs[i].tab_id == tab
    }

    /// The snapshot lists this pane as part of this tab.
    pub open spec fn has_pane_in_tab(self, pane: Seq<char>, tab: Seq<char>) -> bool {
        exists|i: int|
            0 <= i < self.panes.len() && #[trigger] self.panes[i].pane_id == pane && self.panes[i].tab_id
                == tab
    }

    /// The snapshot lists this tab as part of this workspace.
    pub open spec fn has_tab_in_workspace(self, tab: Seq<char>, workspace: Seq<char>) -> bool {
        exists|i: int|
            0 <= i < self.tabs.len() && #[trigger] self.tabs[i].tab_id == tab && self.tabs[i].workspace_id
                == workspace
    }
}

impl SnapshotView {
    /// Index of the first pane with this identifier.
    pub open spec fn first_pane_index(self, pane: Seq<char>) -> int {
        choose|i: int|
            0 <= i < self.panes.len() && #[trigger] self.panes[i].pane_id == pane && forall|j: int|
                0 <= j < i ==> (#[trigger] self.panes[j]).pane_id != pane
    }
}

impl ClientShellSnapshot {
    /// Index of the first pane with this identifier.
    pub fn find_pane(&self, pane: &String) -> (r: Option<usize>)
        ensures
            match r {
                Some(i) => i < self.panes@.len() && self.panes@[i as int].pane_id@ == pane@
                    && (forall|j: int| 0 <= j < i ==> (#[trigger] self.panes@[j]).pane_id@ != pane@)
                    && i == self@.first_pane_index(pane@) && self@.has_pane(pane@),
                None => !self@.has_pane(pane@),
            },
    {
        let n = self.panes.len();
        let mut i: usize = 0;
        while i < n
            invariant
                n == self.panes@.len(),
                i <= n,
                forall|j: int| 0 <= j < i ==> (#[trigger] self.panes@[j]).pane_id@ != pane@,
            decreases n - i,
        {
            if self.panes[i].pane_id == *pane {
                proof {
                    let v = self@;
                    assert(v.panes[i as int].pane_id == pane@);
                    assert(forall|j: int| 0 <= j < i ==> (#[trigger] v.panes[j]).pane_id != pane@) by {
                        assert forall|j: int| 0 <= j < i implies (#[trigger] v.panes[j]).pane_id != pane@ by {
                            assert(v.panes[j] == self.panes@[j]@);
                        }
                    }
                    let c = v.first_pane_index(pane@);
                    assert(0 <= c < v.panes.len() && v.panes[c].pane_id == pane@ && forall|j: int|
                        0 <= j < c ==> (#[trigger] v.panes[j]).pane_id != pane@);
                    if c < i {
                        assert(self.panes@[c]@ == v.panes[c]);
                    }
                    if c > i {
                        assert(v.panes[i as int].pane_id != pane@);
                    }
                }
                return Some(i);
            }
            i = i + 1;
        }
        proof {
            if self@.has_pane(pane@) {
                let j = choose|j: int| 0 <= j < self@.panes.len() && #[trigger] self@.panes[j].pane_id == pane@;
                assert(self.panes@[j].pane_id@ == pane@);
            }
        }
        None
    }

    /// True when the snapshot lists a pane with this identifier.
    pub fn has_pane(&self, pane: &String) -> (r: bool)
        ensures
            r == self@.has_pane(pane@),
    {
        match self.find_pane(pane) {
            Some(i) => {
                proof {
                    assert(self@.panes[i as int].pane_id == pane@);
                }
                true
            },
            None => false,
        }
    }

    /// True when the snapshot lists this pane in this tab.
    pub fn has_pane_in_tab(&self, pane: &String, tab: &String) -> (r: bool)
        ensures
            r == self@.has_pane_in_tab(pane@, tab@),
    {
        let n = self.panes.len();
        let mut i: usize = 0;
        while i < n
            invariant
                n == self.panes@.len(),
                i <= n,
                forall|j: int|
                    0 <= j < i ==> !((#[trigger] self.panes@[j]).pane_id@ == pane@ && self.panes@[j].tab_id@
                        == tab@),
            decreases n - i,
        {
            if self.panes[i].pane_id == *pane && self.panes[i].tab_id == *tab {
                proof {
                    assert(self@.panes[i as int].pane_id == pane@);
                }
                return true;
            }
            i = i + 1;
        }
        proof {
            if self@.has_pane_in_tab(pane@, tab@) {
                let j = choose|j: int|
                    0 <= j < self@.panes.len() && #[trigger] self@.panes[j].pane_id == pane@
                        && self@.panes[j].tab_id == tab@;
                assert(self.panes@[j].pane_id@ == pane@);
            }
        }
        false
    }

    /// True when the snapshot lists a tab with this identifier.
    pub fn has_tab(&self, tab: &String) -> (r: bool)
        ensures
            r == self@.has_tab(tab@),
    {
        let n = self.tabs.len();
        let mut i: usize = 0;
        while i < n
            invariant
                n == self.tabs@.len(),
                i <= n,
                forall|j: int| 0 <= j < i ==> (#[trigger] self.tabs@[j]).tab_id@ != tab@,
            decreases n - i,
        {
            if self.tabs[i].tab_id == *tab {
                proof {
                    assert(self@.tabs[i as int].tab_id == tab@);
                }
                return true;
            }
            i = i + 1;
        }
        proof {
            if self@.has_tab(tab@) {
                let j = choose|j: int| 0 <= j < self@.tabs.len() && #[trigger] self@.tabs[j].tab_id == tab@;
                assert(self.tabs@[j].tab_id@ == tab@);
            }
        }
        false
    }

    /// True when the snapshot lists this tab in this workspace.
    pub fn has_tab_in_workspace(&self, tab: &String, workspace: &String) -> (r: bool)
        ensures
            r == self@.has_tab_in_workspace(tab@, workspace@),
    {
        let n = self.tabs.len();
        let mut i: usize = 0;
        while i < n
            invariant
                n == self.tabs@.len(),
                i <= n,
                forall|j: int|
                    0 <= j < i ==> !((#[trigger] self.tabs@[j]).tab_id@ == tab@ && self.tabs@[j].workspace_id@
                        == workspace@),
            decreases n - i,
        {
            if self.tabs[i].tab_id == *tab && self.tabs[i].workspace_id == *workspace {
                proof {
                    assert(self@.tabs[i as int].tab_id == tab@);
                }
                return true;
            }
            i = i + 1;
        }
        proof {
            if self@.has_tab_in_workspace(tab@, workspace@) {
                let j = choose|j: int|
                    0 <= j < self@.tabs.len() && #[trigger] self@.tabs[j].tab_id == tab@
                        && self@.tabs[j].workspace_id == workspace@;
                assert(self.tabs@[j].tab_id@ == tab@);
            }
        }
        false
    }
}

} // verus!
