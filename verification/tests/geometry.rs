use image_copy_capture::geometry::{Point, Rectangle, Size, Transform};

fn rect(x: i32, y: i32, w: i32, h: i32) -> Rectangle {
    Rectangle {
        loc: Point { x, y },
        size: Size { w, h },
    }
}

const ALL: [Transform; 8] = [
    Transform::Normal,
    Transform::_90,
    Transform::_180,
    Transform::_270,
    Transform::Flipped,
    Transform::Flipped90,
    Transform::Flipped180,
    Transform::Flipped270,
];

#[test]
fn point_difference_saturates() {
    let a = Point { x: 5, y: i32::MIN };
    let b = Point { x: 7, y: 1 };
    assert_eq!(a.sub_point(b), Point { x: -2, y: i32::MIN });
    assert_eq!(
        Point { x: i32::MAX, y: 0 }.sub_point(Point { x: -1, y: 3 }),
        Point { x: i32::MAX, y: -3 }
    );
}

#[test]
fn negation_saturates() {
    assert_eq!(Point { x: 3, y: -4 }.negate(), Point { x: -3, y: 4 });
    assert_eq!(
        Point { x: i32::MIN, y: 0 }.negate(),
        Point { x: i32::MAX, y: 0 }
    );
}

#[test]
fn a_size_is_empty_when_one_side_is_zero() {
    assert!(Size { w: 0, h: 3 }.is_empty());
    assert!(Size { w: 3, h: 0 }.is_empty());
    assert!(!Size { w: 3, h: 1 }.is_empty());
    assert!(!Size { w: -3, h: 1 }.is_empty());
}

#[test]
fn touching_rectangles_do_not_overlap() {
    let a = rect(0, 0, 10, 10);
    assert!(!a.overlaps(&rect(10, 0, 5, 5)));
    assert!(!a.overlaps(&rect(0, -5, 5, 5)));
    assert!(a.overlaps(&rect(9, 9, 5, 5)));
    assert!(a.overlaps(&rect(-4, -4, 5, 5)));
}

#[test]
fn overlap_saturates_at_the_coordinate_range() {
    let a = rect(i32::MAX - 1, 0, 10, 10);
    assert!(a.overlaps(&rect(i32::MAX - 5, 5, 5, 1)));
    assert!(!a.overlaps(&rect(i32::MAX, 5, 5, 1)));
}

#[test]
fn inversion_exchanges_the_quarter_turns() {
    assert_eq!(Transform::_90.invert(), Transform::_270);
    assert_eq!(Transform::_270.invert(), Transform::_90);
    assert_eq!(Transform::Flipped90.invert(), Transform::Flipped270);
    assert_eq!(Transform::Flipped270.invert(), Transform::Flipped90);
    for transform in [
        Transform::Normal,
        Transform::_180,
        Transform::Flipped,
        Transform::Flipped180,
    ] {
        assert_eq!(transform.invert(), transform);
    }
}

#[test]
fn inverted_transform_restores_the_size() {
    let size = Size { w: 1920, h: 1080 };
    for transform in ALL {
        let turned = transform.transform_size(size);
        assert_eq!(transform.invert().transform_size(turned), size);
    }
    assert_eq!(
        Transform::_90.transform_size(size),
        Size { w: 1080, h: 1920 }
    );
    assert_eq!(Transform::Flipped180.transform_size(size), size);
}

#[test]
fn rectangles_move_with_their_area() {
    let area = Size { w: 70, h: 90 };
    let r = rect(10, 20, 30, 40);
    assert_eq!(Transform::Normal.transform_rect_in(r, area), r);
    assert_eq!(
        Transform::_90.transform_rect_in(r, area),
        rect(30, 10, 40, 30)
    );
    assert_eq!(
        Transform::_180.transform_rect_in(r, area),
        rect(30, 30, 30, 40)
    );
    assert_eq!(
        Transform::_270.transform_rect_in(r, area),
        rect(20, 30, 40, 30)
    );
    assert_eq!(
        Transform::Flipped.transform_rect_in(r, area),
        rect(30, 20, 30, 40)
    );
    assert_eq!(
        Transform::Flipped90.transform_rect_in(r, area),
        rect(30, 30, 40, 30)
    );
    assert_eq!(
        Transform::Flipped180.transform_rect_in(r, area),
        rect(10, 30, 30, 40)
    );
    assert_eq!(
        Transform::Flipped270.transform_rect_in(r, area),
        rect(20, 10, 40, 30)
    );
}

#[test]
fn damage_is_moved_back_into_the_buffer() {
    let size = Size { w: 70, h: 90 };
    let r = rect(10, 20, 30, 40);
    for transform in ALL {
        let shown = transform.transform_rect_in(r, size);
        let back = transform
            .invert()
            .transform_rect_in(shown, transform.transform_size(size));
        assert!(back.loc.x >= 0 && back.loc.x + back.size.w <= size.w);
        assert!(back.loc.y >= 0 && back.loc.y + back.size.h <= size.h);
        if transform == Transform::Flipped90 || transform == Transform::Flipped270 {
            assert_eq!(back, rect(30, 30, 30, 40));
        } else {
            assert_eq!(back, r);
        }
    }
}

#[test]
fn rectangles_past_the_coordinate_range_cannot_be_moved() {
    let area = Size { w: 100, h: 60 };
    for transform in ALL {
        assert!(transform.can_transform_rect_in(rect(10, 20, 30, 5), area));
    }
    let left = rect(i32::MIN, 0, 1, 1);
    assert!(Transform::Normal.can_transform_rect_in(left, area));
    assert!(Transform::_90.can_transform_rect_in(left, area));
    assert!(!Transform::_180.can_transform_rect_in(left, area));
    assert!(!Transform::_270.can_transform_rect_in(left, area));
    let low = rect(0, i32::MAX, 1, i32::MAX);
    assert!(Transform::Flipped.can_transform_rect_in(low, area));
    assert!(!Transform::Flipped180.can_transform_rect_in(low, area));
}
