//! Where the image of a cursor lies, in logical coordinates.
//!
//! A cursor image is captured at the origin of its buffer. The hotspot that the client is told
//! has to move along with the image.
use vstd::prelude::*;

use crate::geometry::{fits_i32, Point, Rectangle};

verus! {

/// The cursor that is shown at some integer scale.
#[derive(Clone, Copy, PartialEq, Eq, Debug)]
pub enum RenderCursor {
    /// No cursor is shown.
    Hidden,
    /// A client's surface tree, with its bounding box and its hotspot relative to the root.
    Surface { bbox: Rectangle, hotspot: Point },
    /// An image of the cursor theme, with its hotspot in pixels and the scale it is drawn for.
    Named { hotspot: Point, scale: i32 },
}

/// The quotient of two integers, rounded towards zero.
pub open spec fn quotient(a: int, b: int) -> int
    recommends
        b != 0,
{
    let magnitude = (if a < 0 {
        -a
    } else {
        a
    }) / (if b < 0 {
        -b
    } else {
        b
    });
    if (a < 0) == (b < 0) {
        magnitude
    } else {
        -magnitude
    }
}

fn divide(a: i32, b: i32) -> (r: i32)
    requires
        b != 0,
        !(a == i32::MIN && b == -1),
    ensures
        r == quotient(a as int, b as int),
{
    let dividend: i64 = if a < 0 {
        -(a as i64)
    } else {
        a as i64
    };
    let divisor: i64 = if b < 0 {
        -(b as i64)
    } else {
        b as i64
    };
    let magnitude: i64 = dividend / divisor;
    assert(0 <= magnitude <= dividend) by (nonlinear_arith)
        requires
            magnitude == dividend / divisor,
            0 <= dividend,
            1 <= divisor,
    ;
    assert(2 <= divisor ==> 2 * magnitude <= dividend) by (nonlinear_arith)
        requires
            magnitude == dividend / divisor,
            0 <= dividend,
            1 <= divisor,
    ;
    if (a < 0) == (b < 0) {
        magnitude as i32
    } else {
        (-magnitude) as i32
    }
}

impl RenderCursor {
    /// The cursor has a hotspot that can be computed: an image is drawn for a scale that is not
    /// zero, and its hotspot divided by that scale is again a coordinate.
    pub open spec fn wf(self) -> bool {
        match self {
            RenderCursor::Named { hotspot, scale } => {
                &&& scale != 0
                &&& scale == -1 ==> hotspot.x != i32::MIN && hotspot.y != i32::MIN
            },
            _ => true,
        }
    }

    /// The hotspot relative to the top-left corner of the image.
    pub open spec fn image_hotspot(self) -> Point {
        match self {
            RenderCursor::Hidden => Point { x: 0, y: 0 },
            RenderCursor::Surface { bbox, hotspot } => hotspot.minus(bbox.loc),
            RenderCursor::Named { hotspot, scale } => Point {
                x: quotient(hotspot.x as int, scale as int) as i32,
                y: quotient(hotspot.y as int, scale as int) as i32,
            },
        }
    }

    /// How far the image is moved to have its top-left corner at the origin.
    pub open spec fn image_shift(self) -> Point {
        match self {
            RenderCursor::Surface { bbox, .. } => Point {
                x: (-bbox.loc.x) as i32,
                y: (-bbox.loc.y) as i32,
            },
            _ => Point { x: 0, y: 0 },
        }
    }

    /// How far the image is moved to have its top-left corner at the origin, in logical
    /// coordinates.
    ///
    /// Subsurfaces can extend above or to the left of the root surface, so a surface tree is moved
    /// to put its bounding box at the origin.
    pub fn logical_shift(&self) -> (r: Point)
        requires
            self matches RenderCursor::Surface { bbox, .. } ==> bbox.loc.x != i32::MIN && bbox.loc.y
                != i32::MIN,
        ensures
            r == self.image_shift(),
    {
        match *self {
            RenderCursor::Surface { bbox, .. } => Point { x: -bbox.loc.x, y: -bbox.loc.y },
            _ => Point { x: 0, y: 0 },
        }
    }

    /// The hotspot relative to the top-left corner of the image, in logical coordinates.
    pub fn logical_hotspot(&self) -> (r: Point)
        requires
            self.wf(),
        ensures
            r == self.image_hotspot(),
    {
        match *self {
            RenderCursor::Hidden => Point { x: 0, y: 0 },
            // The tree is drawn with its bounding box at the origin, so shift the hotspot too.
            RenderCursor::Surface { bbox, hotspot } => hotspot.sub_point(bbox.loc),
            RenderCursor::Named { hotspot, scale } => {
                Point { x: divide(hotspot.x, scale), y: divide(hotspot.y, scale) }
            },
        }
    }
}

/// The hotspot of a surface cursor is moved along with its image, and the image is moved to the
/// origin.
pub proof fn law_hotspot_moves_with_the_image(bbox: Rectangle, hotspot: Point)
    requires
        fits_i32(-bbox.loc.x) && fits_i32(-bbox.loc.y),
        fits_i32(hotspot.x - bbox.loc.x) && fits_i32(hotspot.y - bbox.loc.y),
    ensures
        ({
            let cursor = RenderCursor::Surface { bbox, hotspot };
            &&& cursor.image_hotspot().x == hotspot.x + cursor.image_shift().x
            &&& cursor.image_hotspot().y == hotspot.y + cursor.image_shift().y
            &&& bbox.loc.x + cursor.image_shift().x == 0
            &&& bbox.loc.y + cursor.image_shift().y == 0
        }),
{
}

/// The quotient, multiplied back, leaves a remainder that is smaller than the divisor and does not
/// point away from the dividend.
pub proof fn law_quotient_leaves_a_small_remainder(a: int, b: int)
    requires
        b != 0,
    ensures
        ({
            let rest = a - quotient(a, b) * b;
            &&& a >= 0 ==> 0 <= rest
            &&& a <= 0 ==> rest <= 0
            &&& -rest < b || -rest < -b
            &&& rest < b || rest < -b
        }),
{
    let q = quotient(a, b);
    let m: int = if a < 0 {
        -a
    } else {
        a
    };
    let n: int = if b < 0 {
        -b
    } else {
        b
    };
    let k = m / n;
    assert(0 <= m - k * n < n) by (nonlinear_arith)
        requires
            k == m / n,
            0 <= m,
            0 < n,
    ;
    assert(q * b == (if a < 0 {
        -(k * n)
    } else {
        k * n
    })) by (nonlinear_arith)
        requires
            q == k || q == -k,
            (q == k && (a < 0) == (b < 0)) || (q == -k && (a < 0) != (b < 0)),
            n == b || n == -b,
            n == b <==> b > 0,
            b != 0,
    ;
}

/// The hotspot of a theme cursor, scaled up again, is the hotspot in the image up to less than one
/// scale step, on each axis on its own. Its image is not moved.
pub proof fn law_named_hotspot_scales_back(hotspot: Point, scale: i32)
    requires
        scale != 0,
        scale == -1 ==> hotspot.x != i32::MIN && hotspot.y != i32::MIN,
    ensures
        ({
            let cursor = RenderCursor::Named { hotspot, scale };
            let r = cursor.image_hotspot();
            let rest_x = hotspot.x - r.x * scale;
            let rest_y = hotspot.y - r.y * scale;
            &&& cursor.wf()
            &&& -rest_x < scale || -rest_x < -scale
            &&& -rest_y < scale || -rest_y < -scale
            &&& rest_x < scale || rest_x < -scale
            &&& rest_y < scale || rest_y < -scale
            &&& 0 <= hotspot.x ==> 0 <= rest_x
            &&& 0 <= hotspot.y ==> 0 <= rest_y
            &&& hotspot.x <= 0 ==> rest_x <= 0
            &&& hotspot.y <= 0 ==> rest_y <= 0
            &&& cursor.image_shift() == (Point { x: 0, y: 0 })
        }),
{
    lemma_quotient_is_a_coordinate(hotspot.x, scale);
    lemma_quotient_is_a_coordinate(hotspot.y, scale);
    law_quotient_leaves_a_small_remainder(hotspot.x as int, scale as int);
    law_quotient_leaves_a_small_remainder(hotspot.y as int, scale as int);
}

proof fn lemma_quotient_is_a_coordinate(a: i32, b: i32)
    requires
        b != 0,
        !(a == i32::MIN && b == -1),
    ensures
        fits_i32(quotient(a as int, b as int)),
{
    let m: int = if a < 0 {
        -(a as int)
    } else {
        a as int
    };
    let n: int = if b < 0 {
        -(b as int)
    } else {
        b as int
    };
    assert(0 <= m / n <= m && (2 <= n ==> 2 * (m / n) <= m)) by (nonlinear_arith)
        requires
            0 <= m,
            1 <= n,
    ;
}

/// The hotspot of a surface cursor is counted from the corner of its bounding box, on each axis on
/// its own; where that is no coordinate, it is the largest or the smallest one.
pub proof fn law_surface_hotspot_counts_from_the_corner(bbox: Rectangle, hotspot: Point)
    ensures
        ({
            let cursor = RenderCursor::Surface { bbox, hotspot };
            let r = cursor.image_hotspot();
            let x = hotspot.x - bbox.loc.x;
            let y = hotspot.y - bbox.loc.y;
            &&& cursor.wf()
            &&& fits_i32(x) ==> r.x == x
            &&& fits_i32(y) ==> r.y == y
            &&& x > i32::MAX ==> r.x == i32::MAX
            &&& y > i32::MAX ==> r.y == i32::MAX
            &&& x < i32::MIN ==> r.x == i32::MIN
            &&& y < i32::MIN ==> r.y == i32::MIN
        }),
{
}

/// A hidden cursor has its hotspot at the origin and is not moved.
pub proof fn law_hidden_cursor_is_at_the_origin()
    ensures
        RenderCursor::Hidden.wf(),
        RenderCursor::Hidden.image_hotspot() == (Point { x: 0, y: 0 }),
        RenderCursor::Hidden.image_shift() == (Point { x: 0, y: 0 }),
{
}

} // verus!
