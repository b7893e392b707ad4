use herdr_dock::geometry::Rect;
use herdr_dock::persistent_area::{
    clamp_percent, split_persistent_area, DockPlacement, PersistentAreaLayout, PersistentAreaSettings,
};

/// Decodes stored settings the way a decoder with defaults does: missing
/// fields take their defaults and the percentage is clamped.
fn decode(json: &str) -> PersistentAreaSettings {
    let value: serde_json::Value = serde_json::from_str(json).unwrap();
    let placement = value.get("placement").and_then(|v| v.as_str()).map(|s| match s {
        "bottom" => DockPlacement::Bottom,
        _ => DockPlacement::Right,
    });
    let percent = value
        .get("percent")
        .and_then(|v| v.as_u64())
        .map(|p| u16::try_from(p).unwrap());
    PersistentAreaSettings::from_fields(placement, percent)
}

#[test]
fn defaults_and_serialization_are_neutral() {
    let settings = PersistentAreaSettings::default();
    assert_eq!(settings.placement, DockPlacement::Right);
    assert_eq!(settings.percent(), 35);
    assert_eq!(decode("{}"), settings);
    let bottom = decode(r#"{"placement":"bottom"}"#);
    assert_eq!(bottom, PersistentAreaSettings::new(DockPlacement::Bottom, 35));
}

#[test]
fn percent_is_clamped_at_every_entry_point() {
    for (input, expected) in [
        (0, 15),
        (14, 15),
        (35, 35),
        (75, 75),
        (76, 75),
        (u16::MAX, 75),
    ] {
        let mut settings = PersistentAreaSettings::new(DockPlacement::Right, input);
        assert_eq!(settings.percent(), expected);
        settings.set_percent(input);
        assert_eq!(settings.percent(), expected);
        let decoded = decode(&format!("{{\"percent\": {}}}", input));
        assert_eq!(decoded.percent(), expected);
        assert_eq!(
            split_persistent_area(Rect::new(0, 0, 101, 10), DockPlacement::Right, input),
            settings.layout(Rect::new(0, 0, 101, 10))
        );
    }
}

#[test]
fn right_and_bottom_ratios_exclude_divider_and_preserve_offsets() {
    for percent in [15, 35, 75] {
        let tabbed = 100 - percent;
        let right = split_persistent_area(Rect::new(7, 11, 101, 20), DockPlacement::Right, percent);
        assert_eq!(right.tabbed, Rect::new(7, 11, tabbed, 20));
        assert_eq!(right.divider, Rect::new(7 + tabbed, 11, 1, 20));
        assert_eq!(right.persistent, Rect::new(8 + tabbed, 11, percent, 20));
        let bottom = split_persistent_area(Rect::new(7, 11, 20, 101), DockPlacement::Bottom, percent);
        assert_eq!(bottom.tabbed, Rect::new(7, 11, 20, tabbed));
        assert_eq!(bottom.divider, Rect::new(7, 11 + tabbed, 20, 1));
        assert_eq!(bottom.persistent, Rect::new(7, 12 + tabbed, 20, percent));
    }
}

fn assert_partition(area: Rect, result: PersistentAreaLayout) {
    let rects = [result.tabbed, result.divider, result.persistent];
    let mut cells = 0_u64;
    for rect in rects {
        assert!(rect.x >= area.x && rect.y >= area.y);
        assert!(rect.right() <= area.right() && rect.bottom() <= area.bottom());
        cells += u64::from(rect.width) * u64::from(rect.height);
    }
    assert_eq!(cells, u64::from(area.width) * u64::from(area.height));
    for (index, a) in rects.iter().enumerate() {
        for b in &rects[index + 1..] {
            if a.width == 0 || a.height == 0 || b.width == 0 || b.height == 0 {
                continue;
            }
            assert!(a.right() <= b.x || b.right() <= a.x || a.bottom() <= b.y || b.bottom() <= a.y);
        }
    }
}

#[test]
fn tiny_sizes_are_bounded_disjoint_and_cover_the_input() {
    for width in 0..9 {
        for height in 0..9 {
            for placement in [DockPlacement::Right, DockPlacement::Bottom] {
                for percent in [0, 15, 35, 75, u16::MAX] {
                    let area = Rect::new(23, 47, width, height);
                    let result = split_persistent_area(area, placement, percent);
                    assert_partition(area, result);
                    let span = if placement == DockPlacement::Right { width } else { height };
                    if span < 3 || width == 0 || height == 0 {
                        assert_eq!(result.tabbed, area);
                        assert_eq!(result.persistent.width, 0);
                        assert_eq!(result.divider.width, 0);
                    } else {
                        assert!(result.tabbed.width > 0 && result.tabbed.height > 0);
                        assert!(result.persistent.width > 0 && result.persistent.height > 0);
                    }
                }
            }
        }
    }
}

#[test]
fn large_sizes_and_overflowing_offsets_do_not_wrap() {
    for placement in [DockPlacement::Right, DockPlacement::Bottom] {
        let area = Rect { x: 0, y: 0, width: u16::MAX, height: u16::MAX };
        assert_partition(area, split_persistent_area(area, placement, 75));
        let overflowing = Rect { x: u16::MAX - 8, y: u16::MAX - 8, width: 100, height: 100 };
        let clipped = Rect::new(overflowing.x, overflowing.y, 8, 8);
        let result = split_persistent_area(overflowing, placement, 35);
        assert_partition(clipped, result);
        assert_eq!(result, split_persistent_area(clipped, placement, 35));
    }
}

#[test]
fn clamp_percent_keeps_the_range() {
    assert_eq!(clamp_percent(0), 15);
    assert_eq!(clamp_percent(15), 15);
    assert_eq!(clamp_percent(50), 50);
    assert_eq!(clamp_percent(75), 75);
    assert_eq!(clamp_percent(1000), 75);
}

#[test]
fn persistent_share_rounds_down_and_keeps_one_cell_each() {
    // 10 cells: 9 usable, 35 % of 9 is 3.15 -> 3 persistent, 6 tabbed.
    let r = split_persistent_area(Rect::new(0, 0, 10, 4), DockPlacement::Right, 35);
    assert_eq!(r.tabbed, Rect::new(0, 0, 6, 4));
    assert_eq!(r.divider, Rect::new(6, 0, 1, 4));
    assert_eq!(r.persistent, Rect::new(7, 0, 3, 4));
    // 3 cells: 2 usable, 15 % rounds to 0 and is raised to 1.
    let r = split_persistent_area(Rect::new(5, 5, 3, 3), DockPlacement::Bottom, 15);
    assert_eq!(r.tabbed, Rect::new(5, 5, 3, 1));
    assert_eq!(r.divider, Rect::new(5, 6, 3, 1));
    assert_eq!(r.persistent, Rect::new(5, 7, 3, 1));
    // Degenerate: the whole area stays tabbed, empty regions at the corner.
    let r = split_persistent_area(Rect::new(2, 3, 2, 9), DockPlacement::Right, 35);
    assert_eq!(r.tabbed, Rect::new(2, 3, 2, 9));
    assert_eq!(r.persistent, Rect::new(4, 12, 0, 0));
    assert_eq!(r.divider, Rect::new(4, 12, 0, 0));
}

#[test]
fn placement_rotates_and_settings_keep_placement() {
    assert_eq!(DockPlacement::Right.rotated(), DockPlacement::Bottom);
    assert_eq!(DockPlacement::Bottom.rotated(), DockPlacement::Right);
    let mut s = PersistentAreaSettings::new(DockPlacement::Bottom, 50);
    s.set_placement(DockPlacement::Right);
    assert_eq!(s.placement(), DockPlacement::Right);
    assert_eq!(s.percent(), 50);
    let f = PersistentAreaSettings::from_fields(Some(DockPlacement::Bottom), Some(99));
    assert_eq!(f, PersistentAreaSettings::new(DockPlacement::Bottom, 75));
}

#[test]
fn rect_edges_saturate_and_new_clips() {
    let r = Rect::new(65530, 65530, 100, 3);
    assert_eq!(r.width, 5);
    assert_eq!(r.height, 3);
    assert_eq!(r.right(), 65535);
    assert_eq!(r.bottom(), 65533);
    let raw = Rect { x: 65530, y: 0, width: 100, height: 0 };
    assert_eq!(raw.right(), 65535);
    assert!(raw.is_empty());
    assert!(Rect::new(1, 1, 2, 2).contains((2, 2)));
    assert!(!Rect::new(1, 1, 2, 2).contains((3, 2)));
}
