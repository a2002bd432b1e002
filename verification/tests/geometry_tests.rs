use roguelike::geometry::{in_melee_reach, Point, Rect};

#[test]
fn point_new_keeps_coordinates() {
    let p = Point::new(3, -4);
    assert_eq!(p.x, 3);
    assert_eq!(p.y, -4);
    assert_eq!(p, Point { x: 3, y: -4 });
}

#[test]
fn rect_new_adds_width_and_height() {
    let r = Rect::new(2, 3, 5, 7);
    assert_eq!(r, Rect { x1: 2, x2: 7, y1: 3, y2: 10 });
}

#[test]
fn rect_center_is_the_middle_tile() {
    assert_eq!(Rect::new(1, 1, 5, 5).center(), (3, 3));
    assert_eq!(Rect::new(2, 4, 6, 12).center(), (5, 10));
}

#[test]
fn rect_center_rounds_toward_zero() {
    assert_eq!(Rect { x1: -4, x2: 1, y1: -7, y2: 0 }.center(), (-1, -3));
    assert_eq!(Rect { x1: i32::MAX, x2: i32::MAX, y1: i32::MIN, y2: i32::MIN }.center(), (i32::MAX, i32::MIN));
}

#[test]
fn rects_that_overlap_intersect() {
    let a = Rect::new(1, 1, 5, 5);
    let b = Rect::new(4, 4, 5, 5);
    assert!(a.intersect(&b));
    assert!(b.intersect(&a));
}

#[test]
fn rects_that_touch_intersect() {
    let a = Rect::new(1, 1, 5, 5);
    let b = Rect::new(6, 1, 5, 5);
    assert!(a.intersect(&b));
}

#[test]
fn rects_one_tile_apart_do_not_intersect() {
    let a = Rect::new(1, 1, 5, 5);
    let b = Rect::new(7, 1, 5, 5);
    assert!(!a.intersect(&b));
    assert!(!b.intersect(&a));
    let c = Rect::new(1, 7, 5, 5);
    assert!(!a.intersect(&c));
}

#[test]
fn melee_reach_covers_the_eight_neighbours() {
    let at = Point::new(5, 5);
    assert!(in_melee_reach(at, at));
    assert!(in_melee_reach(at, Point::new(6, 5)));
    assert!(in_melee_reach(at, Point::new(5, 4)));
    assert!(in_melee_reach(at, Point::new(6, 6)));
    assert!(in_melee_reach(at, Point::new(4, 6)));
}

#[test]
fn melee_reach_ends_at_two_tiles() {
    let at = Point::new(5, 5);
    assert!(!in_melee_reach(at, Point::new(7, 5)));
    assert!(!in_melee_reach(at, Point::new(5, 3)));
    assert!(!in_melee_reach(at, Point::new(6, 7)));
    assert!(!in_melee_reach(at, Point::new(10, 5)));
}

#[test]
fn melee_reach_survives_extreme_coordinates() {
    assert!(!in_melee_reach(Point::new(i32::MIN, i32::MIN), Point::new(i32::MAX, i32::MAX)));
    assert!(in_melee_reach(Point::new(i32::MAX, i32::MIN), Point::new(i32::MAX - 1, i32::MIN + 1)));
}
