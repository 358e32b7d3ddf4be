use layers::geometry::{Point, Rect, Transform};

#[test]
fn intersection_of_overlapping_rects() {
    let a = Rect::new(0, 0, 100, 50);
    let b = Rect::new(60, 20, 100, 100);
    assert_eq!(a.intersection(&b), Some(Rect::new(60, 20, 40, 30)));
    assert_eq!(b.intersection(&a), Some(Rect::new(60, 20, 40, 30)));
}

#[test]
fn touching_or_empty_rects_do_not_intersect() {
    let a = Rect::new(0, 0, 100, 100);
    assert_eq!(a.intersection(&Rect::new(100, 0, 10, 10)), None);
    assert_eq!(a.intersection(&Rect::new(10, 10, 0, 0)), None);
    assert!(Rect::new(3, 3, 0, 5).is_empty());
    assert!(!a.is_empty());
}

#[test]
fn compose_applies_inner_first() {
    let outer = Transform { scale_x: 2, scale_y: 3, offset_x: 10, offset_y: 20 };
    let inner = Transform::translation(5, 7);
    assert_eq!(outer.compose(&inner), Some(Transform { scale_x: 2, scale_y: 3, offset_x: 20, offset_y: 41 }));
    assert_eq!(
        Transform::scaling(i32::MAX, 1).compose(&Transform::scaling(2, 1)),
        None
    );
}

#[test]
fn map_rect_normalizes_negative_scales() {
    let t = Transform { scale_x: -1, scale_y: 2, offset_x: 100, offset_y: 0 };
    assert_eq!(t.map_rect(&Rect::new(10, 10, 20, 5)), Some(Rect::new(70, 20, 20, 10)));
    assert_eq!(Transform::scaling(i32::MAX, 1).map_rect(&Rect::new(0, 0, 4, 4)), None);
}

#[test]
fn point_constructor() {
    assert_eq!(Point::new(3, -4), Point { x: 3, y: -4 });
}
