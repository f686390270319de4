use dataplotlib::clip::{clamp, simple_clamp};
use dataplotlib::draw::{point2window, Range, Range2d};
use dataplotlib::util::zip2;

fn r(min: i64, max: i64) -> Range {
    Range { min, max }
}

fn square() -> Range2d {
    Range2d(r(0, 10), r(0, 10))
}

#[test]
fn range_size_and_contains() {
    let x = r(-3, 7);
    assert_eq!(x.size(), 10);
    assert!(x.contains(-3));
    assert!(x.contains(7));
    assert!(!x.contains(8));
    let v = Range2d::from((r(0, 10), r(-5, 5)));
    assert_eq!(v, Range2d(r(0, 10), r(-5, 5)));
    assert!(v.contains((10, -5)));
    assert!(!v.contains((10, 6)));
}

#[test]
fn map_ends_of_range() {
    let view = r(-50, 50);
    let window = r(0, 720);
    assert_eq!(point2window(-50, view, window, false), 0);
    assert_eq!(point2window(50, view, window, false), 720);
    assert_eq!(point2window(50, view, window, true), 0);
    assert_eq!(point2window(-50, view, window, true), 720);
}

#[test]
fn map_scales_and_rounds_down() {
    assert_eq!(point2window(5, r(0, 10), r(0, 720), false), 360);
    assert_eq!(point2window(1, r(0, 3), r(0, 10), false), 3);
    assert_eq!(point2window(-1, r(0, 3), r(0, 10), false), -4);
    assert_eq!(point2window(3, r(0, 10), r(100, 200), false), 130);
}

#[test]
fn clamp_keeps_inside_segment() {
    assert_eq!(clamp((1, 2), (9, 8), square()), Some(((1, 2), (9, 8))));
    assert_eq!(clamp((0, 0), (10, 10), square()), Some(((0, 0), (10, 10))));
}

#[test]
fn clamp_rejects_segment_beyond_one_side() {
    assert_eq!(clamp((-5, 1), (-1, 9), square()), None);
    assert_eq!(clamp((11, 1), (20, 9), square()), None);
    assert_eq!(clamp((1, -1), (9, -9), square()), None);
    assert_eq!(clamp((1, 11), (9, 19), square()), None);
}

#[test]
fn clamp_cuts_at_left_boundary() {
    let v = Range2d(r(0, 10), r(-10, 10));
    assert_eq!(clamp((-5, 0), (5, 0), v), Some(((0, 0), (5, 0))));
    assert_eq!(clamp((-5, -5), (5, 5), v), Some(((0, 0), (5, 5))));
    assert_eq!(clamp((-1, 0), (2, 1), v), Some(((0, 0), (2, 1))));
}

#[test]
fn clamp_cuts_second_endpoint_and_both() {
    assert_eq!(clamp((5, 5), (15, 5), square()), Some(((5, 5), (10, 5))));
    assert_eq!(clamp((-5, 5), (15, 5), square()), Some(((0, 5), (10, 5))));
    assert_eq!(clamp((5, 20), (5, -20), square()), Some(((5, 10), (5, 0))));
}

#[test]
fn clamp_vertical_segment() {
    assert_eq!(clamp((3, -5), (3, 5), square()), Some(((3, 0), (3, 5))));
}

#[test]
fn clamp_rejects_segment_passing_a_corner() {
    assert_eq!(clamp((-5, 8), (8, 21), square()), None);
}

#[test]
fn simple_clamp_bounds() {
    assert_eq!(simple_clamp(-4, r(0, 10)), 0);
    assert_eq!(simple_clamp(14, r(0, 10)), 10);
    assert_eq!(simple_clamp(4, r(0, 10)), 4);
}

#[test]
fn zip2_pairs_to_shorter() {
    let a = vec![1, 2, 3];
    let b = vec![4, 5];
    assert_eq!(zip2(&a, &b), vec![(1, 4), (2, 5)]);
    let e: Vec<i32> = Vec::new();
    assert_eq!(zip2(&a, &e), Vec::<(i32, i32)>::new());
}
