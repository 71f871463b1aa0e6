use guilibrs::bounding_box;
use guilibrs::in_bounds;
use guilibrs::Rect;

#[test]
fn contains_is_inclusive_on_all_four_corners() {
    let r = Rect::new(10, 20, 30, 40);
    assert!(r.contains(10, 20));
    assert!(r.contains(40, 20));
    assert!(r.contains(10, 60));
    assert!(r.contains(40, 60));
    assert!(!r.contains(9, 20));
    assert!(!r.contains(41, 20));
    assert!(!r.contains(10, 19));
    assert!(!r.contains(10, 61));
}

#[test]
fn in_bounds_matches_contains() {
    let r = Rect::new(0, 0, 5, 5);
    assert!(in_bounds(&r, 0, 0));
    assert!(in_bounds(&r, 5, 5));
    assert!(!in_bounds(&r, 6, 0));
    assert!(!in_bounds(&r, -1, 3));
}

#[test]
fn bounding_box_of_nothing_is_the_zero_rect() {
    let rects: Vec<Rect> = Vec::new();
    let r = bounding_box(&rects);
    assert_eq!(r, Rect::new(0, 0, 0, 0));
}

#[test]
fn bounding_box_covers_all_rects_minimally() {
    let rects = vec![Rect::new(10, 10, 10, 10), Rect::new(-5, 30, 10, 10), Rect::new(40, 0, 5, 5)];
    let r = bounding_box(&rects);
    assert_eq!(r.x, -5);
    assert_eq!(r.y, 0);
    assert_eq!(r.x + r.w, 45);
    assert_eq!(r.y + r.h, 40);
}
