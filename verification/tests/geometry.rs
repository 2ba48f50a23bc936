use walk_the_dog::geometry::{add_clamped, Point, Rect};

#[test]
fn two_rects_that_intersect_on_the_left() {
    let rect1 = Rect {
        position: Point { x: 10, y: 10 },
        height: 100,
        width: 100,
    };

    let rect2 = Rect {
        position: Point { x: 0, y: 10 },
        height: 100,
        width: 100,
    };

    assert_eq!(rect2.intersects(&rect1), true);
}

#[test]
fn two_rects_that_intersect_on_the_top() {
    let rect1 = Rect {
        position: Point { x: 10, y: 10 },
        height: 100,
        width: 100,
    };

    let rect2 = Rect {
        position: Point { x: 10, y: 0 },
        height: 100,
        width: 100,
    };

    assert_eq!(rect2.intersects(&rect1), true);
}

#[test]
fn two_rects_that_intersect_on_the_right() {
    let rect1 = Rect {
        position: Point { x: 10, y: 10 },
        height: 100,
        width: 100,
    };

    let rect2 = Rect {
        position: Point { x: 10, y: 10 },
        height: 100,
        width: 100,
    };

    assert_eq!(rect2.intersects(&rect1), true);
}

#[test]
fn two_rects_that_do_not_intersect() {
    let rect1 = Rect {
        position: Point { x: 10, y: 10 },
        height: 100,
        width: 100,
    };

    let rect2 = Rect {
        position: Point { x: 200, y: 200 },
        height: 100,
        width: 100,
    };

    assert_eq!(rect2.intersects(&rect1), false);
}

#[test]
fn intersection_is_symmetric() {
    let pairs = [
        ((0, 0, 50, 50), (25, 25, 50, 50)),
        ((0, 0, 50, 50), (100, 100, 10, 10)),
        ((-30, -30, 60, 60), (0, 0, 5, 5)),
        ((0, 0, 0, 0), (0, 0, 10, 10)),
    ];
    for ((ax, ay, aw, ah), (bx, by, bw, bh)) in pairs {
        let a = Rect::new_from_x_y(ax, ay, aw, ah);
        let b = Rect::new_from_x_y(bx, by, bw, bh);
        assert_eq!(a.intersects(&b), b.intersects(&a));
    }
}

#[test]
fn rect_with_positive_extent_intersects_itself() {
    let a = Rect::new_from_x_y(12, -7, 1, 1);
    assert!(a.intersects(&a));
    let b = Rect::new_from_x_y(-500, 300, 640, 480);
    assert!(b.intersects(&b));
}

#[test]
fn rect_entirely_to_the_left_does_not_intersect() {
    let a = Rect::new_from_x_y(0, 0, 40, 40);
    let b = Rect::new_from_x_y(40, 0, 40, 40);
    assert!(!a.intersects(&b));
    let c = Rect::new_from_x_y(100, 0, 40, 40);
    assert!(!a.intersects(&c));
}

#[test]
fn touching_edges_do_not_intersect() {
    let a = Rect::new_from_x_y(0, 0, 10, 10);
    let below = Rect::new_from_x_y(0, 10, 10, 10);
    let right = Rect::new_from_x_y(10, 0, 10, 10);
    assert!(!a.intersects(&below));
    assert!(!a.intersects(&right));
}

#[test]
fn rect_accessors_report_edges() {
    let mut r = Rect::new(Point { x: 3, y: 4 }, 10, 20);
    assert_eq!(r.x(), 3);
    assert_eq!(r.y(), 4);
    assert_eq!(r.right(), 13);
    assert_eq!(r.bottom(), 24);
    r.set_x(-5);
    assert_eq!(r.x(), -5);
    assert_eq!(r.y(), 4);
}

#[test]
fn add_clamped_saturates_at_i16_bounds() {
    assert_eq!(add_clamped(100, 23), 123);
    assert_eq!(add_clamped(32000, 32000), i16::MAX);
    assert_eq!(add_clamped(-32000, -32000), i16::MIN);
    assert_eq!(add_clamped(-5, 5), 0);
}
