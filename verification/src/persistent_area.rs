//! Workspace-scoped persistent-area presentation settings and the pure
//! geometry that splits a pane surface between the tabbed content, a
//! one-cell divider and the persistent content.
//!
//! These settings are independent of pane ownership and split trees.
use vstd::prelude::*;
use crate::geometry::{min_int, Rect, CELL_MAX};

verus! {

pub const DEFAULT_PERCENT: u16 = 35;

pub const MIN_PERCENT: u16 = 15;

pub const MAX_PERCENT: u16 = 75;

/// On which side of the tabbed content the persistent area stands.
#[derive(Clone, Copy, Debug, PartialEq, Eq, Structural)]
pub enum DockPlacement {
    Right,
    Bottom,
}

impl Default for DockPlacement {
    fn default() -> (r: Self)
        ensures
            r == DockPlacement::Right,
    {
        DockPlacement::Right
    }
}

impl DockPlacement {
    /// The other placement: right becomes bottom and bottom becomes right.
    pub open spec fn spec_rotated(self) -> DockPlacement {
        match self {
            DockPlacement::Right => DockPlacement::Bottom,
            DockPlacement::Bottom => DockPlacement::Right,
        }
    }

    #[verifier::when_used_as_spec(spec_rotated)]
    pub fn rotated(self) -> (r: DockPlacement)
        ensures
            r == self.spec_rotated(),
    {
        match self {
            DockPlacement::Right => DockPlacement::Bottom,
            DockPlacement::Bottom => DockPlacement::Right,
        }
    }
}

/// `percent` limited to the accepted range `MIN_PERCENT..=MAX_PERCENT`.
pub open spec fn spec_clamp_percent(percent: u16) -> u16 {
    if percent < MIN_PERCENT {
        MIN_PERCENT
    } else if percent > MAX_PERCENT {
        MAX_PERCENT
    } else {
        percent
    }
}

/// Limits a percentage to `MIN_PERCENT..=MAX_PERCENT`.
#[verifier::when_used_as_spec(spec_clamp_percent)]
pub fn clamp_percent(percent: u16) -> (r: u16)
    ensures
        r == spec_clamp_percent(percent),
        MIN_PERCENT <= r <= MAX_PERCENT,
{
    if percent < MIN_PERCENT {
        MIN_PERCENT
    } else if percent > MAX_PERCENT {
        MAX_PERCENT
    } else {
        percent
    }
}

/// The persistent area's share of the usable span, excluding the divider.
///
/// Missing settings use right placement and 35 percent. Construction,
/// updates, and decoding all clamp the percentage to 15 through 75.
#[derive(Clone, Copy, Debug, PartialEq, Eq, Structural)]
pub struct PersistentAreaSettings {
    pub placement: DockPlacement,
    percent: u16,
}

impl Default for PersistentAreaSettings {
    fn default() -> (r: Self)
        ensures
            r.placement_value() == DockPlacement::Right,
            r.percent_value() == DEFAULT_PERCENT,
            r == PersistentAreaSettings::spec_default(),
    {
        Self::new(DockPlacement::Right, DEFAULT_PERCENT)
    }
}

impl PersistentAreaSettings {
    /// The stored percentage.
    pub closed spec fn percent_value(self) -> u16 {
        self.percent
    }

    /// The stored placement.
    pub closed spec fn placement_value(self) -> DockPlacement {
        self.placement
    }

    /// Right placement at the default percentage.
    pub closed spec fn spec_default() -> PersistentAreaSettings {
        PersistentAreaSettings { placement: DockPlacement::Right, percent: DEFAULT_PERCENT }
    }

    /// These settings with another placement.
    pub closed spec fn with_placement(self, placement: DockPlacement) -> PersistentAreaSettings {
        PersistentAreaSettings { placement, percent: self.percent }
    }

    /// These settings with another (already clamped) percentage.
    pub closed spec fn with_percent(self, percent: u16) -> PersistentAreaSettings {
        PersistentAreaSettings { placement: self.placement, percent }
    }

    /// Settings are equal exactly when placement and percentage are; each
    /// update sets the value it names and keeps the other; the defaults are
    /// right placement at the default percentage.
    pub proof fn lemma_settings_ext(
        a: PersistentAreaSettings,
        b: PersistentAreaSettings,
        placement: DockPlacement,
        percent: u16,
    )
        ensures
            (a == b) == (a.placement_value() == b.placement_value() && a.percent_value()
                == b.percent_value()),
            a.with_placement(placement).placement_value() == placement,
            a.with_placement(placement).percent_value() == a.percent_value(),
            a.with_percent(percent).percent_value() == percent,
            a.with_percent(percent).placement_value() == a.placement_value(),
            PersistentAreaSettings::spec_default().placement_value() == DockPlacement::Right,
            PersistentAreaSettings::spec_default().percent_value() == DEFAULT_PERCENT,
    {
    }

    /// Changes the placement only.
    pub fn set_placement(&mut self, placement: DockPlacement)
        ensures
            *final(self) == old(self).with_placement(placement),
    {
        self.placement = placement;
    }

    /// Every settings value the library builds holds a percentage in range.
    pub open spec fn wf(self) -> bool {
        MIN_PERCENT <= self.percent_value() <= MAX_PERCENT
    }

    pub fn new(placement: DockPlacement, percent: u16) -> (r: Self)
        ensures
            r.placement_value() == placement,
            r.percent_value() == spec_clamp_percent(percent),
            r.wf(),
    {
        Self { placement, percent: clamp_percent(percent) }
    }

    /// Settings as a decoder produces them from optional stored fields: a
    /// missing placement is right, a missing percentage is the default, and
    /// a present one is clamped.
    pub fn from_fields(placement: Option<DockPlacement>, percent: Option<u16>) -> (r: Self)
        ensures
            r.placement_value() == (match placement {
                Some(p) => p,
                None => DockPlacement::Right,
            }),
            r.percent_value() == (match percent {
                Some(p) => spec_clamp_percent(p),
                None => DEFAULT_PERCENT,
            }),
            r.wf(),
    {
        let placement = match placement {
            Some(p) => p,
            None => DockPlacement::Right,
        };
        let percent = match percent {
            Some(p) => p,
            None => DEFAULT_PERCENT,
        };
        Self::new(placement, percent)
    }

    pub fn placement(self) -> (r: DockPlacement)
        ensures
            r == self.placement_value(),
    {
        self.placement
    }

    pub fn percent(self) -> (r: u16)
        ensures
            r == self.percent_value(),
    {
        self.percent
    }

    pub fn set_percent(&mut self, percent: u16)
        ensures
            *final(self) == old(self).with_percent(spec_clamp_percent(percent)),
            final(self).placement_value() == old(self).placement_value(),
            final(self).percent_value() == spec_clamp_percent(percent),
            final(self).wf(),
    {
        self.percent = clamp_percent(percent);
    }

    /// The split of `area` under these settings.
    pub fn layout(self, area: Rect) -> (r: PersistentAreaLayout)
        ensures
            r == spec_split(area, self.placement_value(), self.percent_value()),
    {
        split_persistent_area(area, self.placement, self.percent)
    }
}

/// The three regions of a pane surface with the persistent area shown.
#[derive(Clone, Copy, Debug, PartialEq, Eq, Structural)]
pub struct PersistentAreaLayout {
    pub tabbed: Rect,
    pub persistent: Rect,
    pub divider: Rect,
}

/// `area` cut so that its right and bottom edges stay in range.
pub open spec fn clip_area(area: Rect) -> Rect {
    Rect {
        x: area.x,
        y: area.y,
        width: min_int(area.width as int, CELL_MAX - area.x) as u16,
        height: min_int(area.height as int, CELL_MAX - area.y) as u16,
    }
}

/// The length of `area` along the split axis.
pub open spec fn axis_span(area: Rect, placement: DockPlacement) -> u16 {
    match placement {
        DockPlacement::Right => area.width,
        DockPlacement::Bottom => area.height,
    }
}

/// The split cannot give both content regions a cell.
pub open spec fn split_is_degenerate(area: Rect, placement: DockPlacement) -> bool {
    let a = clip_area(area);
    axis_span(a, placement) < 3 || a.width == 0 || a.height == 0
}

/// Cells along the split axis that the persistent content receives: the
/// clamped percentage of the span without the divider, rounded down, and
/// kept between 1 and `usable - 1`.
pub open spec fn persistent_span(usable: int, percent: u16) -> int {
    let raw = usable * (spec_clamp_percent(percent) as int) / 100;
    if raw < 1 {
        1
    } else if raw > usable - 1 {
        usable - 1
    } else {
        raw
    }
}

/// The partition that `split_persistent_area` returns.
pub open spec fn spec_split(area: Rect, placement: DockPlacement, percent: u16) -> PersistentAreaLayout {
    let a = clip_area(area);
    if split_is_degenerate(area, placement) {
        let empty = Rect { x: (a.x + a.width) as u16, y: (a.y + a.height) as u16, width: 0, height: 0 };
        PersistentAreaLayout { tabbed: a, persistent: empty, divider: empty }
    } else {
        let usable = axis_span(a, placement) - 1;
        let p = persistent_span(usable, percent);
        let t = usable - p;
        match placement {
            DockPlacement::Right => PersistentAreaLayout {
                tabbed: Rect { x: a.x, y: a.y, width: t as u16, height: a.height },
                divider: Rect { x: (a.x + t) as u16, y: a.y, width: 1, height: a.height },
                persistent: Rect { x: (a.x + t + 1) as u16, y: a.y, width: p as u16, height: a.height },
            },
            DockPlacement::Bottom => PersistentAreaLayout {
                tabbed: Rect { x: a.x, y: a.y, width: a.width, height: t as u16 },
                divider: Rect { x: a.x, y: (a.y + t) as u16, width: a.width, height: 1 },
                persistent: Rect { x: a.x, y: (a.y + t + 1) as u16, width: a.width, height: p as u16 },
            },
        }
    }
}

/// Partition `area` into tabbed content, a one-cell divider, and persistent
/// content, in that order along the selected axis.
///
/// The percentage applies after reserving the divider; integer rounding is
/// downward for persistent content. Both content regions get at least one
/// cell on the split axis. When fewer than three cells are available (or the
/// other axis is empty), tabbed content keeps the whole area and the other
/// regions are empty. Rectangles whose coordinates plus dimensions overflow
/// are clipped first.
pub fn split_persistent_area(area: Rect, placement: DockPlacement, percent: u16) -> (r: PersistentAreaLayout)
    ensures
        r == spec_split(area, placement, percent),
{
    let room_x: u16 = CELL_MAX - area.x;
    let room_y: u16 = CELL_MAX - area.y;
    let area = Rect {
        x: area.x,
        y: area.y,
        width: if area.width <= room_x { area.width } else { room_x },
        height: if area.height <= room_y { area.height } else { room_y },
    };
    let span = match placement {
        DockPlacement::Right => area.width,
        DockPlacement::Bottom => area.height,
    };
    if span < 3 || area.width == 0 || area.height == 0 {
        let empty = Rect::new(area.right(), area.bottom(), 0, 0);
        return PersistentAreaLayout { tabbed: area, persistent: empty, divider: empty };
    }
    let usable: u16 = span - 1;
    let share: u32 = clamp_percent(percent) as u32;
    assert((usable as u32) * share <= 65535 * 75) by (nonlinear_arith)
        requires
            usable <= 65535,
            share <= 75,
    ;
    let raw: u32 = (usable as u32) * share / 100;
    assert(raw <= 49151);
    let raw: u16 = raw as u16;
    let persistent: u16 = if raw < 1 {
        1
    } else if raw > usable - 1 {
        usable - 1
    } else {
        raw
    };
    let tabbed: u16 = usable - persistent;
    match placement {
        DockPlacement::Right => PersistentAreaLayout {
            tabbed: Rect::new(area.x, area.y, tabbed, area.height),
            divider: Rect::new(area.x + tabbed, area.y, 1, area.height),
            persistent: Rect::new(area.x + tabbed + 1, area.y, persistent, area.height),
        },
        DockPlacement::Bottom => PersistentAreaLayout {
            tabbed: Rect::new(area.x, area.y, area.width, tabbed),
            divider: Rect::new(area.x, area.y + tabbed, area.width, 1),
            persistent: Rect::new(area.x, area.y + tabbed + 1, area.width, persistent),
        },
    }
}

/// Clipping keeps a rectangle in range, and leaves one already in range
/// unchanged.
pub proof fn lemma_clip_area(area: Rect)
    ensures
        clip_area(area).fits(),
        clip_area(clip_area(area)) == clip_area(area),
        area.fits() ==> clip_area(area) == area,
        area.encloses(clip_area(area)),
{
}

/// Law: the split partitions the clipped area. Every region lies inside it,
/// no two regions share a cell, and their cells add up to the area's cells.
pub proof fn lemma_split_partitions(area: Rect, placement: DockPlacement, percent: u16)
    ensures
        ({
            let a = clip_area(area);
            let r = spec_split(area, placement, percent);
            &&& a.encloses(r.tabbed)
            &&& a.encloses(r.divider)
            &&& a.encloses(r.persistent)
            &&& r.tabbed.disjoint(r.divider)
            &&& r.tabbed.disjoint(r.persistent)
            &&& r.divider.disjoint(r.persistent)
            &&& r.tabbed.cells() + r.divider.cells() + r.persistent.cells() == a.cells()
        }),
{
    let a = clip_area(area);
    let r = spec_split(area, placement, percent);
    if !split_is_degenerate(area, placement) {
        let usable = axis_span(a, placement) - 1;
        let p = persistent_span(usable, percent);
        let t = usable - p;
        match placement {
            DockPlacement::Right => {
                assert(t * a.height + 1 * a.height + p * a.height == (t + 1 + p) * a.height)
                    by (nonlinear_arith);
            },
            DockPlacement::Bottom => {
                assert(a.width * t + a.width * 1 + a.width * p == a.width * (t + 1 + p))
                    by (nonlinear_arith);
            },
        }
    }
}

/// Law: when fewer than three cells lie along the split axis, or the area is
/// empty, the tabbed content keeps the whole (clipped) area and the divider
/// and persistent regions are empty.
pub proof fn lemma_split_degenerate(area: Rect, placement: DockPlacement, percent: u16)
    requires
        split_is_degenerate(area, placement),
    ensures
        spec_split(area, placement, percent).tabbed == clip_area(area),
        spec_split(area, placement, percent).persistent.width == 0,
        spec_split(area, placement, percent).persistent.height == 0,
        spec_split(area, placement, percent).divider.width == 0,
        spec_split(area, placement, percent).divider.height == 0,
{
}

/// Law: otherwise the regions follow each other along the axis as tabbed
/// content, a divider one cell thick, and persistent content; both content
/// regions get at least one cell, and all three span the full cross axis.
pub proof fn lemma_split_order(area: Rect, placement: DockPlacement, percent: u16)
    requires
        !split_is_degenerate(area, placement),
    ensures
        ({
            let a = clip_area(area);
            let r = spec_split(area, placement, percent);
            match placement {
                DockPlacement::Right => {
                    &&& r.tabbed.x == a.x
                    &&& r.divider.x == r.tabbed.x + r.tabbed.width
                    &&& r.divider.width == 1
                    &&& r.persistent.x == r.divider.x + 1
                    &&& r.persistent.x + r.persistent.width == a.x + a.width
                    &&& r.tabbed.width >= 1
                    &&& r.persistent.width >= 1
                    &&& r.tabbed.y == a.y && r.divider.y == a.y && r.persistent.y == a.y
                    &&& r.tabbed.height == a.height && r.divider.height == a.height
                    &&& r.persistent.height == a.height
                },
                DockPlacement::Bottom => {
                    &&& r.tabbed.y == a.y
                    &&& r.divider.y == r.tabbed.y + r.tabbed.height
                    &&& r.divider.height == 1
                    &&& r.persistent.y == r.divider.y + 1
                    &&& r.persistent.y + r.persistent.height == a.y + a.height
                    &&& r.tabbed.height >= 1
                    &&& r.persistent.height >= 1
                    &&& r.tabbed.x == a.x && r.divider.x == a.x && r.persistent.x == a.x
                    &&& r.tabbed.width == a.width && r.divider.width == a.width
                    &&& r.persistent.width == a.width
                },
            }
        }),
{
}

/// Law: the persistent content gets the clamped percentage of the span
/// without the divider, rounded down, whenever that leaves both content
/// regions a cell.
pub proof fn lemma_split_ratio(area: Rect, placement: DockPlacement, percent: u16)
    requires
        !split_is_degenerate(area, placement),
    ensures
        ({
            let usable = axis_span(clip_area(area), placement) - 1;
            let share = spec_clamp_percent(percent) as int;
            let r = spec_split(area, placement, percent);
            let p = axis_span(r.persistent, placement) as int;
            1 <= usable * share / 100 <= usable - 1 ==> {
                &&& p == usable * share / 100
                &&& p * 100 <= usable * share < (p + 1) * 100
            }
        }),
{
    let usable = axis_span(clip_area(area), placement) - 1;
    let share = spec_clamp_percent(percent) as int;
    let q = usable * share / 100;
    assert(q * 100 <= usable * share < (q + 1) * 100) by (nonlinear_arith)
        requires
            q == usable * share / 100,
            usable >= 0,
            share >= 0,
    ;
}

/// Law: splitting an overflowing rectangle is the same as splitting its
/// clipped form, and the percentage only matters after clamping.
pub proof fn lemma_split_normalizes(area: Rect, placement: DockPlacement, percent: u16)
    ensures
        spec_split(clip_area(area), placement, percent) == spec_split(area, placement, percent),
        spec_split(area, placement, spec_clamp_percent(percent)) == spec_split(area, placement, percent),
{
    lemma_clip_area(area);
}

/// Law: clamping keeps a percentage in range, leaves one in range
/// unchanged, and clamping twice is clamping once.
pub proof fn lemma_clamp_percent(percent: u16)
    ensures
        MIN_PERCENT <= spec_clamp_percent(percent) <= MAX_PERCENT,
        (MIN_PERCENT <= percent <= MAX_PERCENT) == (spec_clamp_percent(percent) == percent),
        spec_clamp_percent(spec_clamp_percent(percent)) == spec_clamp_percent(percent),
{
}

} // verus!
