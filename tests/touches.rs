use touch_gui::bounding_box::BoundingBox;
use touch_gui::form::{Button, Clickable, Form, VerticalLayout};
use touch_gui::swipe::{check_for_hit, get_square_distance, TouchHistory};

fn bb(x: i32, y: i32, width: i32, height: i32) -> BoundingBox {
    BoundingBox { x, y, width, height }
}

#[test]
fn square_distance_exact() {
    assert_eq!(get_square_distance(0, 0, 100, 100), 20000);
    assert_eq!(get_square_distance(0, 0, 5, 5), 50);
    assert_eq!(get_square_distance(3, -4, 0, 0), 25);
    assert_eq!(
        get_square_distance(i32::MIN, i32::MIN, i32::MAX, i32::MAX),
        2 * (u32::MAX as u128) * (u32::MAX as u128)
    );
}

#[test]
fn new_history_is_empty() {
    let h = TouchHistory::new();
    assert!(h.entries().is_empty());
    assert!(h.cluster_traces().is_empty());
}

#[test]
fn update_stamps_new_touches() {
    let mut h = TouchHistory::new();
    h.update(7, vec![(1, 2), (3, 4)]);
    assert_eq!(h.entries(), vec![(1, 2, 7), (3, 4, 7)]);
}

#[test]
fn age_boundary_keeps_500_evicts_501() {
    let mut h = TouchHistory::new();
    h.update(0, vec![(0, 0)]);
    h.update(1, vec![(50, 50)]);
    h.update(500, vec![]);
    assert_eq!(h.entries(), vec![(0, 0, 0), (50, 50, 1)]);
    h.update(501, vec![]);
    assert_eq!(h.entries(), vec![(50, 50, 1)]);
    assert_eq!(h.cluster_traces(), vec![vec![(50, 50, 1)]]);
}

#[test]
fn retained_entries_are_young_and_ordered() {
    let mut h = TouchHistory::new();
    let ticks = [0usize, 100, 350, 600, 900, 1200];
    for (n, t) in ticks.iter().enumerate() {
        h.update(*t, vec![(n as i32, 0)]);
        let e = h.entries();
        for s in &e {
            assert!(*t - s.2 <= 500);
        }
        for w in e.windows(2) {
            assert!(w[0].2 <= w[1].2);
        }
    }
    assert_eq!(h.entries(), vec![(4, 0, 900), (5, 0, 1200)]);
}

#[test]
fn far_samples_make_two_traces() {
    let mut h = TouchHistory::new();
    h.update(0, vec![(0, 0), (100, 100)]);
    assert_eq!(h.cluster_traces(), vec![vec![(0, 0, 0)], vec![(100, 100, 0)]]);
}

#[test]
fn near_samples_make_one_trace() {
    let mut h = TouchHistory::new();
    h.update(0, vec![(0, 0), (5, 5)]);
    assert_eq!(h.cluster_traces(), vec![vec![(0, 0, 0), (5, 5, 0)]]);
}

#[test]
fn distance_eight_starts_a_new_trace() {
    let mut h = TouchHistory::new();
    h.update(0, vec![(0, 0), (8, 0), (8, 7)]);
    assert_eq!(h.cluster_traces(), vec![vec![(0, 0, 0)], vec![(8, 0, 0), (8, 7, 0)]]);
}

#[test]
fn sample_joins_every_close_trace() {
    let mut h = TouchHistory::new();
    h.update(0, vec![(0, 0), (10, 0), (5, 0)]);
    assert_eq!(
        h.cluster_traces(),
        vec![vec![(0, 0, 0), (5, 0, 0)], vec![(10, 0, 0), (5, 0, 0)]]
    );
}

#[test]
fn trace_follows_moving_finger() {
    let mut h = TouchHistory::new();
    h.update(0, vec![(0, 0)]);
    h.update(10, vec![(6, 0)]);
    h.update(20, vec![(12, 0)]);
    assert_eq!(h.cluster_traces(), vec![vec![(0, 0, 0), (6, 0, 10), (12, 0, 20)]]);
}

fn movable_layout(b: BoundingBox) -> Form {
    let mut l = VerticalLayout::new(b);
    l.set_outer_bounding_box(bb(0, 0, 100, 100));
    let mut f = Form::VerticalLayout(l);
    f.set_movable(true);
    f
}

#[test]
fn hit_test_takes_first_match() {
    let cands = vec![
        Form::Button(Button::new(bb(0, 0, 10, 10), 1)),
        Form::Button(Button::new(bb(5, 5, 10, 10), 1)),
    ];
    assert_eq!(check_for_hit(&cands, 6, 6), Some(0));
    assert_eq!(check_for_hit(&cands, 12, 12), Some(1));
    assert_eq!(check_for_hit(&cands, 20, 20), None);
    assert_eq!(check_for_hit(&Vec::new(), 0, 0), None);
}

#[test]
fn object_move_carries_children() {
    let mut l = VerticalLayout::new(bb(0, 0, 20, 20));
    l.set_outer_bounding_box(bb(0, 0, 100, 100));
    assert!(l.add_form(Form::Button(Button::new(bb(0, 0, 1, 1), 0))));
    assert!(l.add_form(Form::Button(Button::new(bb(0, 0, 1, 1), 0))));
    let mut f = Form::VerticalLayout(l);
    f.set_movable(true);
    let mut cands = vec![f];
    let mut h = TouchHistory::new();
    h.update(0, vec![(3, 4)]);
    h.check_for_object_moves(&mut cands);
    assert_eq!(*cands[0].get_bounding_box(), bb(3, 4, 20, 20));
    let kids = cands[0].get_children();
    assert_eq!(kids.len(), 2);
    assert_eq!(*kids[0].get_bounding_box(), bb(3, 4, 20, 10));
    assert_eq!(*kids[1].get_bounding_box(), bb(3, 14, 20, 10));
}

#[test]
fn object_move_is_clamped_to_outer_box() {
    let mut cands = vec![movable_layout(bb(0, 0, 10, 10))];
    let mut h = TouchHistory::new();
    h.update(0, vec![(5, 5), (9, 9)]);
    h.check_for_object_moves(&mut cands);
    assert_eq!(*cands[0].get_bounding_box(), bb(9, 9, 10, 10));
    let mut far = vec![movable_layout(bb(0, 0, 10, 10))];
    let mut h2 = TouchHistory::new();
    h2.update(0, vec![(5, 5), (9, 9), (13, 13), (70, 95)]);
    h2.check_for_object_moves(&mut far);
    assert_eq!(*far[0].get_bounding_box(), bb(13, 13, 10, 10));
}

#[test]
fn non_movable_or_missed_candidates_stay() {
    let mut cands = vec![
        Form::VerticalLayout(VerticalLayout::new(bb(0, 0, 10, 10))),
        movable_layout(bb(50, 50, 10, 10)),
    ];
    let mut h = TouchHistory::new();
    h.update(0, vec![(5, 5), (30, 30)]);
    h.check_for_object_moves(&mut cands);
    assert_eq!(*cands[0].get_bounding_box(), bb(0, 0, 10, 10));
    assert_eq!(*cands[1].get_bounding_box(), bb(50, 50, 10, 10));
}

#[test]
fn tick_ages_then_moves() {
    let mut cands = vec![movable_layout(bb(0, 0, 10, 10))];
    let mut h = TouchHistory::new();
    h.tick(0, vec![(60, 60)], &mut cands);
    assert_eq!(*cands[0].get_bounding_box(), bb(0, 0, 10, 10));
    h.tick(501, vec![(2, 3)], &mut cands);
    assert_eq!(h.entries(), vec![(2, 3, 501)]);
    assert_eq!(*cands[0].get_bounding_box(), bb(2, 3, 10, 10));
}

#[test]
fn add_form_stacks_equal_slices() {
    let mut l = VerticalLayout::new(bb(10, 20, 30, 31));
    assert_eq!(l.outer_bounding_box, bb(0, 0, 480, 272));
    for _ in 0..3 {
        assert!(l.add_form(Form::Button(Button::new(bb(0, 0, 0, 0), 2))));
    }
    let f = Form::VerticalLayout(l);
    let kids = f.get_children();
    assert_eq!(*kids[0].get_bounding_box(), bb(10, 20, 30, 10));
    assert_eq!(*kids[1].get_bounding_box(), bb(10, 30, 30, 10));
    assert_eq!(*kids[2].get_bounding_box(), bb(10, 40, 30, 10));
    assert_eq!(kids[2].get_border_width(), 2);
}

#[test]
fn button_child_moves_with_button() {
    let mut b = Button::new(bb(0, 0, 10, 10), 1);
    b.set_child(Box::new(Form::Button(Button::new(bb(2, 2, 3, 3), 0))));
    let mut f = Form::Button(b);
    assert!(!f.is_movable());
    assert!(f.can_move_form(-100, 7, true));
    f.move_form(-100, 7, true);
    assert_eq!(*f.get_bounding_box(), bb(-100, 7, 10, 10));
    assert_eq!(*f.get_children()[0].get_bounding_box(), bb(-98, 9, 3, 3));
}

#[test]
fn click_reports_registered_action() {
    let mut b = Button::new(bb(0, 0, 1, 1), 0);
    assert_eq!(b.click(), None);
    assert_eq!(Form::Button(Button::new(bb(0, 0, 1, 1), 0)).is_clickable(), None);
    b.set_action_on_click(4);
    assert_eq!(b.click(), Some(4));
    assert_eq!(Form::Button(b).is_clickable(), Some(4));
}

#[test]
fn border_and_box_setters() {
    let mut f = Form::VerticalLayout(VerticalLayout::new(bb(0, 0, 5, 5)));
    f.set_border_width(3);
    assert_eq!(f.get_border_width(), 3);
    f.set_bounding_box(bb(1, 1, 2, 2));
    assert_eq!(*f.get_bounding_box(), bb(1, 1, 2, 2));
    assert_eq!(f.is_clickable(), None);
}
