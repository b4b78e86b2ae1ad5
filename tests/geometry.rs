use touch_gui::bounding_box::BoundingBox;

fn bb(x: i32, y: i32, width: i32, height: i32) -> BoundingBox {
    BoundingBox { x, y, width, height }
}

#[test]
fn in_bound_low_edges_closed_high_edges_open() {
    let b = bb(3, 4, 10, 5);
    assert!(b.is_in_bound(3, 4));
    assert!(!b.is_in_bound(13, 4));
    assert!(!b.is_in_bound(3, 9));
    assert!(b.is_in_bound(12, 8));
    assert!(!b.is_in_bound(2, 4));
    assert!(!b.is_in_bound(3, 3));
}

#[test]
fn in_bound_at_extreme_coordinates() {
    let b = bb(i32::MAX - 1, 0, 1, 1);
    assert!(b.is_in_bound(i32::MAX - 1, 0));
    assert!(!b.is_in_bound(i32::MAX, 0));
}

#[test]
fn center_truncates() {
    assert_eq!(bb(0, 0, 10, 10).get_center(), (5, 5));
    assert_eq!(bb(1, 2, 5, 3).get_center(), (3, 3));
}

#[test]
fn enclosed_checks_each_edge() {
    let outer = bb(10, 10, 20, 20);
    assert!(bb(10, 10, 20, 20).is_enclosed(&outer));
    assert!(bb(12, 15, 5, 5).is_enclosed(&outer));
    assert!(!bb(9, 15, 5, 5).is_enclosed(&outer));
    assert!(!bb(26, 15, 5, 5).is_enclosed(&outer));
    assert!(!bb(12, 9, 5, 5).is_enclosed(&outer));
    assert!(!bb(12, 26, 5, 5).is_enclosed(&outer));
    assert!(!bb(10, 10, 21, 5).is_enclosed(&outer));
}

#[test]
fn rebase_pushes_inside_and_reports_correction() {
    let outer = bb(0, 0, 20, 20);
    let mut b = bb(-5, 18, 4, 4);
    assert_eq!(b.rebase_to_outer_box(&outer), (5, -2));
    assert_eq!(b, bb(0, 16, 4, 4));
}

#[test]
fn rebase_shrinks_oversized_box() {
    let outer = bb(0, 0, 20, 10);
    let mut b = bb(5, 5, 30, 30);
    assert_eq!(b.rebase_to_outer_box(&outer), (-5, -5));
    assert_eq!(b, bb(0, 0, 20, 10));
}

#[test]
fn rebase_twice_changes_nothing_more() {
    let outer = bb(0, 0, 20, 20);
    let mut b = bb(17, -3, 8, 30);
    let first = b.rebase_to_outer_box(&outer);
    let after_first = b;
    assert_eq!(first, (-5, 3));
    assert_eq!(b.rebase_to_outer_box(&outer), (0, 0));
    assert_eq!(b, after_first);
}

#[test]
fn move_without_outer_is_plain_translation() {
    let mut b = bb(1, 2, 10, 10);
    assert_eq!(b.move_in_direction(-50, 300, None), (-50, 300));
    assert_eq!(b, bb(-49, 302, 10, 10));
}

#[test]
fn move_with_outer_clamps_at_right_edge() {
    let outer = bb(0, 0, 20, 20);
    let mut b = bb(0, 0, 10, 10);
    assert_eq!(b.move_in_direction(15, 0, Some(&outer)), (10, 0));
    assert_eq!(b.x, 10);
    assert_eq!(b.y, 0);
    assert!(b.is_enclosed(&outer));
}

#[test]
fn move_with_outer_reports_actual_change() {
    let outer = bb(5, 5, 50, 50);
    let mut b = bb(10, 40, 10, 10);
    let (mx, my) = b.move_in_direction(-20, 30, Some(&outer));
    assert_eq!((mx, my), (-5, 5));
    assert_eq!(b, bb(5, 45, 10, 10));
    assert!(b.is_enclosed(&outer));
}

#[test]
fn fits_move_rejects_overflow() {
    let b = bb(i32::MAX - 20, 0, 10, 10);
    assert!(b.fits_move(10, 0, None));
    assert!(!b.fits_move(11, 0, None));
    let outer = bb(i32::MIN, 0, 10, 10);
    assert!(!bb(i32::MAX - 20, 0, 10, 10).fits_move(0, 0, Some(&outer)));
}
