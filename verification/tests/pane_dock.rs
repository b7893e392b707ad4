use herdr_dock::dock_layout::{dock_main_area, docked_pane_rects};
use herdr_dock::geometry::Rect;

#[test]
fn dock_geometry_is_bounded_and_empty_dock_is_free() {
    for width in 0..120 {
        let area = Rect::new(2, 3, width, 24);
        assert_eq!(dock_main_area(area, 0), area);
        for count in [1, 15, 32] {
            let main = dock_main_area(area, count);
            assert!(main.right() <= area.right());
            assert_eq!(main.height, area.height);
        }
    }
}

#[test]
fn docked_panes_stack_in_the_right_half() {
    let area = Rect::new(0, 0, 81, 24);
    let rects = docked_pane_rects(area, 3);
    assert_eq!(rects.len(), 3);
    assert_eq!(rects[0], Rect::new(40, 0, 41, 8));
    assert_eq!(rects[1], Rect::new(40, 8, 41, 8));
    assert_eq!(rects[2], Rect::new(40, 16, 41, 8));
    let rects = docked_pane_rects(Rect::new(10, 5, 20, 10), 4);
    let heights: Vec<u16> = rects.iter().map(|r| r.height).collect();
    assert_eq!(heights, vec![2, 3, 2, 3]);
    assert_eq!(rects[0].y, 5);
    assert_eq!(rects[3].bottom(), 15);
    assert!(docked_pane_rects(area, 0).is_empty());
}

#[test]
fn one_docked_pane_fits_at_the_last_row() {
    let area = Rect { x: 0, y: u16::MAX, width: 10, height: 10 };
    let rects = docked_pane_rects(area, 1);
    assert_eq!(rects, vec![Rect::new(5, u16::MAX, 5, 10)]);
    assert_eq!(rects[0].height, 0);
}
