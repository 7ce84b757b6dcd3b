use image_copy_capture::cursor::RenderCursor;
use image_copy_capture::geometry::{Point, Rectangle, Size};

fn surface(x: i32, y: i32, hotspot: Point) -> RenderCursor {
    RenderCursor::Surface {
        bbox: Rectangle {
            loc: Point { x, y },
            size: Size { w: 24, h: 24 },
        },
        hotspot,
    }
}

#[test]
fn hidden_cursor_has_its_hotspot_at_the_origin() {
    assert_eq!(
        RenderCursor::Hidden.logical_hotspot(),
        Point { x: 0, y: 0 }
    );
    assert_eq!(RenderCursor::Hidden.logical_shift(), Point { x: 0, y: 0 });
}

#[test]
fn surface_hotspot_moves_with_the_tree() {
    let hotspot = Point { x: 4, y: 5 };
    let cursor = surface(-3, -2, hotspot);
    let shift = cursor.logical_shift();
    assert_eq!(shift, Point { x: 3, y: 2 });
    assert_eq!(cursor.logical_hotspot(), Point { x: 7, y: 7 });
    assert_eq!(
        cursor.logical_hotspot(),
        Point {
            x: hotspot.x + shift.x,
            y: hotspot.y + shift.y
        }
    );
}

#[test]
fn named_hotspot_is_divided_by_the_buffer_scale() {
    let named = |x, y, scale| RenderCursor::Named {
        hotspot: Point { x, y },
        scale,
    };
    assert_eq!(named(9, 8, 2).logical_hotspot(), Point { x: 4, y: 4 });
    assert_eq!(named(-9, 9, 2).logical_hotspot(), Point { x: -4, y: 4 });
    assert_eq!(named(9, -9, -2).logical_hotspot(), Point { x: -4, y: 4 });
    assert_eq!(
        named(i32::MIN, 1, 1).logical_hotspot(),
        Point { x: i32::MIN, y: 1 }
    );
    assert_eq!(named(9, 8, 3).logical_shift(), Point { x: 0, y: 0 });
}
