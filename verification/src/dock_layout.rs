//! Layout for additional client-selected panes in the same workspace: the
//! tab keeps the left half and the docked panes are stacked in the right
//! half, one row band each.
use vstd::prelude::*;
use crate::geometry::{Rect, CELL_MAX};

verus! {

/// The region that the tab's own panes keep when `count` panes are docked.
pub open spec fn spec_dock_main_area(area: Rect, count: usize) -> Rect {
    if count == 0 {
        area
    } else {
        Rect::spec_new(area.x, area.y, area.width / 2, area.height)
    }
}

/// The tab's own region: the whole area with nothing docked, else its left
/// half.
pub fn dock_main_area(area: Rect, count: usize) -> (r: Rect)
    ensures
        r == spec_dock_main_area(area, count),
{
    if count == 0 {
        area
    } else {
        Rect::new(area.x, area.y, area.width / 2, area.height)
    }
}

/// First row offset (from `area.y`) of the band of docked pane `index`.
pub open spec fn band_start(height: u16, count: int, index: int) -> int {
    height * index / count
}

/// The rectangle of docked pane `index` out of `count`.
pub open spec fn spec_docked_pane_rect(area: Rect, count: usize, index: int) -> Rect {
    let main = spec_dock_main_area(area, count);
    let top = band_start(area.height, count as int, index);
    let bottom = band_start(area.height, count as int, index + 1);
    Rect::spec_new(
        main.spec_right(),
        (area.y + top) as u16,
        (area.width - main.width) as u16,
        (bottom - top) as u16,
    )
}

/// The row offsets of the bands never decrease and stay within the height.
pub proof fn lemma_band_start_bounds(height: u16, count: int, i: int, j: int)
    requires
        count > 0,
        0 <= i <= j <= count,
    ensures
        0 <= band_start(height, count, i) <= band_start(height, count, j) <= height,
        band_start(height, count, 0) == 0,
        band_start(height, count, count) == height,
{
    assert(height * i <= height * j) by (nonlinear_arith)
        requires
            0 <= i <= j,
            height >= 0,
    ;
    assert(height * j <= height * count) by (nonlinear_arith)
        requires
            0 <= j <= count,
            height >= 0,
    ;
    assert((height * i) / count <= (height * j) / count) by (nonlinear_arith)
        requires
            height * i <= height * j,
            count > 0,
            height * i >= 0,
    ;
    assert((height * j) / count <= (height * count) / count) by (nonlinear_arith)
        requires
            height * j <= height * count,
            count > 0,
            height * j >= 0,
    ;
    assert((height * count) / count == height) by (nonlinear_arith)
        requires
            count > 0,
    ;
    assert(height * 0 == 0);
}

/// A band that is not the last one starts above the bottom row.
pub proof fn lemma_band_start_below_height(height: u16, count: int, i: int)
    requires
        0 <= i < count,
        height > 0,
    ensures
        band_start(height, count, i) < height,
{
    assert(height * i / count < height) by (nonlinear_arith)
        requires
            0 <= i < count,
            height > 0,
    {
        assert(height * i <= height * (count - 1));
        assert(height * (count - 1) == height * count - height);
        assert(height * i < height * count);
        assert(height * i / count <= (height * count - 1) / count);
    }
}

/// The rectangles of `count` docked panes stacked in the right half of
/// `area`, top to bottom.
pub fn docked_pane_rects(area: Rect, count: usize) -> (r: Vec<Rect>)
    requires
        count == 0 || area.y + band_start(area.height, count as int, count - 1) <= CELL_MAX,
        area.height * count <= usize::MAX,
    ensures
        r@.len() == count,
        forall|i: int| 0 <= i < count ==> r@[i] == spec_docked_pane_rect(area, count, i),
{
    let main = dock_main_area(area, count);
    let mut rects: Vec<Rect> = Vec::new();
    let mut index: usize = 0;
    while index < count
        invariant
            index <= count,
            count == 0 || area.y + band_start(area.height, count as int, count - 1) <= CELL_MAX,
            area.height * count <= usize::MAX,
            main == spec_dock_main_area(area, count),
            rects@.len() == index,
            forall|i: int| 0 <= i < index ==> rects@[i] == spec_docked_pane_rect(area, count, i),
        decreases count - index,
    {
        proof {
            lemma_band_start_bounds(area.height, count as int, index as int, index + 1);
            lemma_band_start_bounds(area.height, count as int, index as int, count - 1);
            assert(area.height * (index + 1) <= area.height * count) by (nonlinear_arith)
                requires
                    index + 1 <= count,
            ;
            assert(area.height * index <= area.height * (index + 1)) by (nonlinear_arith);
            if area.height > 0 {
                lemma_band_start_below_height(area.height, count as int, index as int);
            }
        }
        let height: usize = area.height as usize;
        let top: usize = height * index / count;
        let bottom: usize = height * (index + 1) / count;
        let rect = Rect::new(
            main.right(),
            area.y + top as u16,
            area.width - main.width,
            (bottom - top) as u16,
        );
        rects.push(rect);
        index = index + 1;
    }
    rects
}

/// Law: the docked bands tile the right-hand column exactly. The first band
/// starts at the area's top, each band ends where the next begins, and the
/// last ends at the area's bottom; every band is as wide as the column that
/// the tab's own region leaves.
pub proof fn lemma_docked_bands_tile(area: Rect, count: usize, i: int)
    requires
        area.fits(),
        count > 0,
        0 <= i < count,
    ensures
        spec_docked_pane_rect(area, count, 0).y == area.y,
        i + 1 < count ==> spec_docked_pane_rect(area, count, i).y + spec_docked_pane_rect(
            area,
            count,
            i,
        ).height == spec_docked_pane_rect(area, count, i + 1).y,
        spec_docked_pane_rect(area, count, count - 1).y + spec_docked_pane_rect(
            area,
            count,
            count - 1,
        ).height == area.y + area.height,
        spec_docked_pane_rect(area, count, i).x == spec_dock_main_area(area, count).x
            + spec_dock_main_area(area, count).width,
        spec_docked_pane_rect(area, count, i).width + spec_dock_main_area(area, count).width
            == area.width,
{
    lemma_band_start_bounds(area.height, count as int, i, i + 1);
    lemma_band_start_bounds(area.height, count as int, 0, 1);
    lemma_band_start_bounds(area.height, count as int, count - 1, count as int);
    if i + 1 < count {
        lemma_band_start_bounds(area.height, count as int, i + 1, i + 2);
    }
}

/// Law: the tab's own region stays inside the area with the area's height,
/// and is the whole area when nothing is docked.
pub proof fn lemma_dock_main_area_bounded(area: Rect, count: usize)
    requires
        area.fits(),
    ensures
        area.encloses(spec_dock_main_area(area, count)),
        spec_dock_main_area(area, count).height == area.height,
        count == 0 ==> spec_dock_main_area(area, count) == area,
{
}

/// The focus flags of a composed surface: the tab's own panes keep their
/// flags and docked panes start unfocused. A dock focus then marks exactly
/// its pane: always beside a persistent area, and beside sticky panes only
/// when the focused pane is on the surface.
pub open spec fn spec_surface_focus(
    tab: Seq<(u64, bool)>,
    docked: Seq<u64>,
    focus: Option<u64>,
    persistent: bool,
) -> Seq<bool> {
    let ids = tab.map_values(|p: (u64, bool)| p.0) + docked;
    let base = tab.map_values(|p: (u64, bool)| p.1) + Seq::new(docked.len(), |i: int| false);
    match focus {
        Some(f) => if persistent || ids.contains(f) {
            ids.map_values(|id: u64| id == f)
        } else {
            base
        },
        None => base,
    }
}

/// The focus flags of the panes of a composed surface, the tab's panes
/// (with their own flags) first and the docked panes after them.
pub fn surface_focus(tab: &Vec<(u64, bool)>, docked: &Vec<u64>, focus: Option<u64>, persistent: bool) -> (r:
    Vec<bool>)
    ensures
        r@ == spec_surface_focus(tab@, docked@, focus, persistent),
{
    let ghost ids = tab@.map_values(|p: (u64, bool)| p.0) + docked@;
    let ghost base = tab@.map_values(|p: (u64, bool)| p.1) + Seq::new(docked@.len(), |i: int| false);
    let mut all: Vec<u64> = Vec::new();
    let mut flags: Vec<bool> = Vec::new();
    let n = tab.len();
    let mut i: usize = 0;
    while i < n
        invariant
            n == tab@.len(),
            i <= n,
            all@ == tab@.map_values(|p: (u64, bool)| p.0).take(i as int),
            flags@ == tab@.map_values(|p: (u64, bool)| p.1).take(i as int),
        decreases n - i,
    {
        all.push(tab[i].0);
        flags.push(tab[i].1);
        proof {
            assert(all@ =~= tab@.map_values(|p: (u64, bool)| p.0).take(i + 1));
            assert(flags@ =~= tab@.map_values(|p: (u64, bool)| p.1).take(i + 1));
        }
        i = i + 1;
    }
    let m = docked.len();
    let mut j: usize = 0;
    while j < m
        invariant
            n == tab@.len(),
            m == docked@.len(),
            j <= m,
            all@ == tab@.map_values(|p: (u64, bool)| p.0) + docked@.take(j as int),
            flags@ == tab@.map_values(|p: (u64, bool)| p.1) + Seq::new(j as nat, |i: int| false),
        decreases m - j,
    {
        all.push(docked[j]);
        flags.push(false);
        proof {
            assert(all@ =~= tab@.map_values(|p: (u64, bool)| p.0) + docked@.take(j + 1));
            assert(flags@ =~= tab@.map_values(|p: (u64, bool)| p.1) + Seq::new((j + 1) as nat, |i: int| false));
        }
        j = j + 1;
    }
    proof {
        assert(all@ =~= ids);
        assert(flags@ =~= base);
    }
    let f = match focus {
        Some(f) => f,
        None => return flags,
    };
    let k = all.len();
    let mut present = false;
    let mut q: usize = 0;
    while q < k
        invariant
            k == all@.len(),
            q <= k,
            present == exists|x: int| 0 <= x < q && all@[x] == f,
        decreases k - q,
    {
        if all[q] == f {
            present = true;
        }
        q = q + 1;
    }
    proof {
        if ids.contains(f) {
            let x = choose|x: int| 0 <= x < ids.len() && ids[x] == f;
            assert(all@[x] == f);
        }
    }
    if !persistent && !present {
        return flags;
    }
    let mut marked: Vec<bool> = Vec::new();
    let mut t: usize = 0;
    while t < k
        invariant
            k == all@.len(),
            t <= k,
            marked@ == all@.map_values(|id: u64| id == f).take(t as int),
        decreases k - t,
    {
        marked.push(all[t] == f);
        proof {
            assert(marked@ =~= all@.map_values(|id: u64| id == f).take(t + 1));
        }
        t = t + 1;
    }
    proof {
        assert(marked@ =~= all@.map_values(|id: u64| id == f));
    }
    marked
}

} // verus!
