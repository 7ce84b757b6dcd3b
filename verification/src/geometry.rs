//! Integer geometry of outputs, buffers and cursor images.
//!
//! Coordinates are pixels. The arithmetic on points saturates at the bounds of `i32`.
use vstd::prelude::*;

verus! {

/// A position.
#[derive(Clone, Copy, PartialEq, Eq, Structural, Debug)]
pub struct Point {
    pub x: i32,
    pub y: i32,
}

/// A width and a height.
#[derive(Clone, Copy, PartialEq, Eq, Structural, Debug)]
pub struct Size {
    pub w: i32,
    pub h: i32,
}

/// An axis-aligned rectangle, given by its top-left corner and its size.
#[derive(Clone, Copy, PartialEq, Eq, Structural, Debug)]
pub struct Rectangle {
    pub loc: Point,
    pub size: Size,
}

/// The orientation of an output: a rotation by a multiple of 90 degrees, with or without a flip.
#[derive(Clone, Copy, PartialEq, Eq, Structural, Debug)]
pub enum Transform {
    Normal,
    _90,
    _180,
    _270,
    Flipped,
    Flipped90,
    Flipped180,
    Flipped270,
}

/// Whether an integer is a value of `i32`.
pub open spec fn fits_i32(v: int) -> bool {
    i32::MIN <= v <= i32::MAX
}

/// The value of `i32` closest to an integer.
pub open spec fn saturated(v: int) -> i32 {
    if v < i32::MIN {
        i32::MIN
    } else if v > i32::MAX {
        i32::MAX
    } else {
        v as i32
    }
}

fn saturate(v: i64) -> (r: i32)
    ensures
        r == saturated(v as int),
{
    if v < i32::MIN as i64 {
        i32::MIN
    } else if v > i32::MAX as i64 {
        i32::MAX
    } else {
        v as i32
    }
}

fn is_coordinate(v: i64) -> (r: bool)
    ensures
        r == fits_i32(v as int),
{
    i32::MIN as i64 <= v && v <= i32::MAX as i64
}

impl Point {
    /// The difference of two points, each coordinate saturated.
    pub open spec fn minus(self, other: Point) -> Point {
        Point { x: saturated(self.x - other.x), y: saturated(self.y - other.y) }
    }

    /// The point on the other side of the origin, each coordinate saturated.
    pub open spec fn mirrored(self) -> Point {
        Point { x: saturated(-self.x), y: saturated(-self.y) }
    }

    /// Subtracts a point, saturating each coordinate.
    pub fn sub_point(self, other: Point) -> (r: Point)
        ensures
            r == self.minus(other),
    {
        Point {
            x: saturate(self.x as i64 - other.x as i64),
            y: saturate(self.y as i64 - other.y as i64),
        }
    }

    /// Negates both coordinates, saturating each.
    pub fn negate(self) -> (r: Point)
        ensures
            r == self.mirrored(),
    {
        Point { x: saturate(-(self.x as i64)), y: saturate(-(self.y as i64)) }
    }
}

impl Size {
    /// A size is empty when its width or its height is zero.
    pub open spec fn empty(self) -> bool {
        self.w == 0 || self.h == 0
    }

    /// The size with width and height exchanged.
    pub open spec fn swapped(self) -> Size {
        Size { w: self.h, h: self.w }
    }

    pub fn is_empty(&self) -> (r: bool)
        ensures
            r == self.empty(),
    {
        self.w == 0 || self.h == 0
    }
}

impl Rectangle {
    /// The rectangle of a size at the origin.
    pub open spec fn at_origin(size: Size) -> Rectangle {
        Rectangle { loc: Point { x: 0, y: 0 }, size }
    }

    /// The column just right of the rectangle, saturated.
    pub open spec fn right(self) -> i32 {
        saturated(self.loc.x + self.size.w)
    }

    /// The row just below the rectangle, saturated.
    pub open spec fn bottom(self) -> i32 {
        saturated(self.loc.y + self.size.h)
    }

    /// Whether a pixel lies in the rectangle.
    pub open spec fn has_pixel(self, x: int, y: int) -> bool {
        &&& self.loc.x <= x < self.loc.x + self.size.w
        &&& self.loc.y <= y < self.loc.y + self.size.h
    }

    /// Each rectangle starts before the other one ends, on both axes; touching is not enough.
    pub open spec fn overlapping(self, other: Rectangle) -> bool {
        &&& self.loc.x < other.right()
        &&& other.loc.x < self.right()
        &&& self.loc.y < other.bottom()
        &&& other.loc.y < self.bottom()
    }

    /// The rectangle lies in the area of a size at the origin.
    pub open spec fn within(self, area: Size) -> bool {
        &&& 0 <= self.loc.x && 0 <= self.size.w && self.loc.x + self.size.w <= area.w
        &&& 0 <= self.loc.y && 0 <= self.size.h && self.loc.y + self.size.h <= area.h
    }

    pub fn from_size(size: Size) -> (r: Rectangle)
        ensures
            r == Rectangle::at_origin(size),
    {
        Rectangle { loc: Point { x: 0, y: 0 }, size }
    }

    /// Whether two rectangles overlap.
    pub fn overlaps(&self, other: &Rectangle) -> (r: bool)
        ensures
            r == self.overlapping(*other),
    {
        self.loc.x < saturate(other.loc.x as i64 + other.size.w as i64)
            && other.loc.x < saturate(self.loc.x as i64 + self.size.w as i64)
            && self.loc.y < saturate(other.loc.y as i64 + other.size.h as i64)
            && other.loc.y < saturate(self.loc.y as i64 + self.size.h as i64)
    }
}

impl Transform {
    /// The transform exchanges the axes.
    pub open spec fn swaps(self) -> bool {
        self is _90 || self is _270 || self is Flipped90 || self is Flipped270
    }

    /// A rectangle's column is counted from the right edge of the area.
    pub open spec fn mirrors_x(self) -> bool {
        self is _180 || self is _270 || self is Flipped || self is Flipped90
    }

    /// A rectangle's row is counted from the bottom edge of the area.
    pub open spec fn mirrors_y(self) -> bool {
        self is _90 || self is _180 || self is Flipped90 || self is Flipped180
    }

    /// The transform with 90 and 270 degrees exchanged.
    pub open spec fn inverted(self) -> Transform {
        match self {
            Transform::_90 => Transform::_270,
            Transform::_270 => Transform::_90,
            Transform::Flipped90 => Transform::Flipped270,
            Transform::Flipped270 => Transform::Flipped90,
            other => other,
        }
    }

    /// The size of an area after the transform.
    pub open spec fn transformed_size(self, size: Size) -> Size {
        if self.swaps() {
            size.swapped()
        } else {
            size
        }
    }

    /// No coordinate that transforming the rectangle computes leaves `i32`.
    pub open spec fn rect_fits(self, rect: Rectangle, area: Size) -> bool {
        &&& self.mirrors_x() ==> fits_i32(area.w - rect.loc.x) && fits_i32(
            area.w - rect.loc.x - rect.size.w,
        )
        &&& self.mirrors_y() ==> fits_i32(area.h - rect.loc.y) && fits_i32(
            area.h - rect.loc.y - rect.size.h,
        )
    }

    /// A rectangle of an area, after the transform of that area.
    pub open spec fn transformed_rect(self, rect: Rectangle, area: Size) -> Rectangle {
        let x = if self.mirrors_x() {
            (area.w - rect.loc.x - rect.size.w) as i32
        } else {
            rect.loc.x
        };
        let y = if self.mirrors_y() {
            (area.h - rect.loc.y - rect.size.h) as i32
        } else {
            rect.loc.y
        };
        Rectangle {
            loc: if self.swaps() {
                Point { x: y, y: x }
            } else {
                Point { x, y }
            },
            size: self.transformed_size(rect.size),
        }
    }

    /// Exchanges 90 and 270 degrees; the flip stays.
    pub fn invert(&self) -> (r: Transform)
        ensures
            r == self.inverted(),
    {
        match *self {
            Transform::Normal => Transform::Normal,
            Transform::_90 => Transform::_270,
            Transform::_180 => Transform::_180,
            Transform::_270 => Transform::_90,
            Transform::Flipped => Transform::Flipped,
            Transform::Flipped90 => Transform::Flipped270,
            Transform::Flipped180 => Transform::Flipped180,
            Transform::Flipped270 => Transform::Flipped90,
        }
    }

    /// The size of an area after the transform.
    pub fn transform_size(&self, size: Size) -> (r: Size)
        ensures
            r == self.transformed_size(size),
    {
        match *self {
            Transform::_90 | Transform::_270 | Transform::Flipped90 | Transform::Flipped270 => {
                Size { w: size.h, h: size.w }
            },
            _ => size,
        }
    }

    /// Whether a rectangle of an area can be transformed without leaving the coordinate range.
    pub fn can_transform_rect_in(&self, rect: Rectangle, area: Size) -> (r: bool)
        ensures
            r == self.rect_fits(rect, area),
    {
        let right: i64 = area.w as i64 - rect.loc.x as i64;
        let bottom: i64 = area.h as i64 - rect.loc.y as i64;
        let x_fits = is_coordinate(right) && is_coordinate(right - rect.size.w as i64);
        let y_fits = is_coordinate(bottom) && is_coordinate(bottom - rect.size.h as i64);
        match *self {
            Transform::Normal | Transform::Flipped270 => true,
            Transform::_270 | Transform::Flipped => x_fits,
            Transform::_90 | Transform::Flipped180 => y_fits,
            Transform::_180 | Transform::Flipped90 => x_fits && y_fits,
        }
    }

    /// Moves a rectangle of an area to where the transform of that area puts it.
    pub fn transform_rect_in(&self, rect: Rectangle, area: Size) -> (r: Rectangle)
        requires
            self.rect_fits(rect, area),
        ensures
            r == self.transformed_rect(rect, area),
    {
        let size = self.transform_size(rect.size);
        let loc = match *self {
            Transform::Normal => rect.loc,
            Transform::_90 => Point { x: area.h - rect.loc.y - rect.size.h, y: rect.loc.x },
            Transform::_180 => Point {
                x: area.w - rect.loc.x - rect.size.w,
                y: area.h - rect.loc.y - rect.size.h,
            },
            Transform::_270 => Point { x: rect.loc.y, y: area.w - rect.loc.x - rect.size.w },
            Transform::Flipped => Point { x: area.w - rect.loc.x - rect.size.w, y: rect.loc.y },
            Transform::Flipped90 => Point {
                x: area.h - rect.loc.y - rect.size.h,
                y: area.w - rect.loc.x - rect.size.w,
            },
            Transform::Flipped180 => Point { x: rect.loc.x, y: area.h - rect.loc.y - rect.size.h },
            Transform::Flipped270 => Point { x: rect.loc.y, y: rect.loc.x },
        };
        Rectangle { loc, size }
    }
}

/// An area gets its size back when the inverted transform follows the transform.
pub proof fn law_inverted_transform_restores_size(transform: Transform, size: Size)
    ensures
        transform.inverted().transformed_size(transform.transformed_size(size)) == size,
        transform.inverted().inverted() == transform,
{
}

/// Two rectangles that are not empty and do not reach past the coordinate range overlap if and
/// only if they have a pixel in common.
pub proof fn law_overlap_is_a_common_pixel(a: Rectangle, b: Rectangle)
    requires
        0 < a.size.w && 0 < a.size.h && 0 < b.size.w && 0 < b.size.h,
        fits_i32(a.loc.x + a.size.w) && fits_i32(a.loc.y + a.size.h),
        fits_i32(b.loc.x + b.size.w) && fits_i32(b.loc.y + b.size.h),
    ensures
        a.overlapping(b) <==> exists|x: int, y: int|
            #![trigger a.has_pixel(x, y)]
            a.has_pixel(x, y) && b.has_pixel(x, y),
{
    if a.overlapping(b) {
        let x: int = if a.loc.x < b.loc.x {
            b.loc.x as int
        } else {
            a.loc.x as int
        };
        let y: int = if a.loc.y < b.loc.y {
            b.loc.y as int
        } else {
            a.loc.y as int
        };
        assert(a.has_pixel(x, y) && b.has_pixel(x, y));
    }
}

/// A number is saturated to the coordinate closest to it: no other coordinate is closer.
pub proof fn law_saturation_is_closest(v: int, coordinate: i32)
    ensures
        ({
            let r = saturated(v) as int;
            let own = if r < v {
                v - r
            } else {
                r - v
            };
            let other = if coordinate < v {
                v - coordinate
            } else {
                coordinate - v
            };
            &&& own <= other
            &&& own == other ==> r == coordinate
        }),
{
}

/// The difference of two points, added to the second, gives the first. Where a difference is no
/// coordinate, it is the largest or the smallest one.
pub proof fn law_difference_leads_back(a: Point, b: Point)
    ensures
        fits_i32(a.x - b.x) ==> b.x + a.minus(b).x == a.x,
        fits_i32(a.y - b.y) ==> b.y + a.minus(b).y == a.y,
        a.x - b.x > i32::MAX ==> a.minus(b).x == i32::MAX,
        a.x - b.x < i32::MIN ==> a.minus(b).x == i32::MIN,
        a.y - b.y > i32::MAX ==> a.minus(b).y == i32::MAX,
        a.y - b.y < i32::MIN ==> a.minus(b).y == i32::MIN,
{
}

/// A point and its mirror image cancel out. Only the smallest coordinate has no mirror image; it
/// gets the largest one.
pub proof fn law_mirrored_point_cancels(a: Point)
    ensures
        a.x != i32::MIN ==> a.x + a.mirrored().x == 0,
        a.y != i32::MIN ==> a.y + a.mirrored().y == 0,
        a.x == i32::MIN ==> a.mirrored().x == i32::MAX,
        a.y == i32::MIN ==> a.mirrored().y == i32::MAX,
{
}

/// A size is empty if and only if its area is zero.
pub proof fn law_empty_size_has_no_area(size: Size)
    ensures
        size.empty() <==> size.w * size.h == 0,
{
    let (w, h) = (size.w as int, size.h as int);
    assert(w * h == 0 <==> w == 0 || h == 0) by (nonlinear_arith);
}

/// The rectangle of a size at the origin has exactly the pixels that the size counts.
pub proof fn law_rectangle_of_a_size(size: Size, x: int, y: int)
    ensures
        Rectangle::at_origin(size).has_pixel(x, y) <==> 0 <= x < size.w && 0 <= y < size.h,
        Rectangle::at_origin(size).size == size,
        Rectangle::at_origin(size).loc == (Point { x: 0, y: 0 }),
{
}

/// Rectangles overlap in either order or not at all, and rectangles that lie side by side or one
/// above the other do not overlap.
pub proof fn law_overlap_is_mutual(a: Rectangle, b: Rectangle)
    ensures
        a.overlapping(b) == b.overlapping(a),
        a.loc.x + a.size.w <= b.loc.x ==> !a.overlapping(b),
        a.loc.y + a.size.h <= b.loc.y ==> !a.overlapping(b),
{
}

impl Transform {
    /// The transform flips left and right before it turns.
    pub open spec fn flips(self) -> bool {
        self is Flipped || self is Flipped90 || self is Flipped180 || self is Flipped270
    }

    /// How many quarter turns the transform makes.
    pub open spec fn quarter_turns(self) -> int {
        match self {
            Transform::Normal | Transform::Flipped => 0,
            Transform::_90 | Transform::Flipped90 => 1,
            Transform::_180 | Transform::Flipped180 => 2,
            Transform::_270 | Transform::Flipped270 => 3,
        }
    }
}

/// Where a pixel of an area is after a quarter turn: what was on top is then on the right.
pub open spec fn turned_pixel(area: (int, int), pixel: (int, int)) -> (int, int) {
    (area.1 - 1 - pixel.1, pixel.0)
}

/// Where a pixel of an area is after the area is flipped, if it is, and then makes quarter turns.
pub open spec fn moved_pixel(
    flips: bool,
    turns: int,
    area: (int, int),
    pixel: (int, int),
) -> (int, int)
    decreases turns,
{
    if turns <= 0 {
        if flips {
            (area.0 - 1 - pixel.0, pixel.1)
        } else {
            pixel
        }
    } else {
        let before = moved_pixel(flips, turns - 1, area, pixel);
        if (turns - 1) % 2 == 0 {
            turned_pixel(area, before)
        } else {
            turned_pixel((area.1, area.0), before)
        }
    }
}

/// A rectangle is moved along with its pixels: it has a pixel if and only if the moved rectangle has
/// the pixel where the flip and the quarter turns of the transform put it.
pub proof fn law_rectangle_moves_with_its_pixels(
    transform: Transform,
    rect: Rectangle,
    area: Size,
    x: int,
    y: int,
)
    requires
        transform.rect_fits(rect, area),
    ensures
        ({
            let moved = moved_pixel(
                transform.flips(),
                transform.quarter_turns(),
                (area.w as int, area.h as int),
                (x, y),
            );
            rect.has_pixel(x, y) <==> transform.transformed_rect(rect, area).has_pixel(
                moved.0,
                moved.1,
            )
        }),
{
    reveal_with_fuel(moved_pixel, 4);
}

/// An odd number of quarter turns exchanges width and height; an even number keeps them. A
/// rectangle's size changes as the size of an area does.
pub proof fn law_quarter_turns_exchange_the_sides(
    transform: Transform,
    size: Size,
    rect: Rectangle,
    area: Size,
)
    ensures
        transform.quarter_turns() % 2 == 1 ==> transform.transformed_size(size).w == size.h
            && transform.transformed_size(size).h == size.w,
        transform.quarter_turns() % 2 == 0 ==> transform.transformed_size(size) == size,
        transform.transformed_rect(rect, area).size == transform.transformed_size(rect.size),
{
}

/// The inverted transform makes the quarter turns that are missing to a full turn, and flips if the
/// transform does.
pub proof fn law_inverted_transform_completes_the_turn(transform: Transform)
    ensures
        (transform.quarter_turns() + transform.inverted().quarter_turns()) % 4 == 0,
        transform.inverted().flips() == transform.flips(),
{
}

/// A rectangle can be moved whenever its distances from the far edges of the area are coordinates.
pub proof fn law_rectangle_with_coordinates_can_be_moved(
    transform: Transform,
    rect: Rectangle,
    area: Size,
)
    requires
        fits_i32(area.w - rect.loc.x) && fits_i32(area.w - rect.loc.x - rect.size.w),
        fits_i32(area.h - rect.loc.y) && fits_i32(area.h - rect.loc.y - rect.size.h),
    ensures
        transform.rect_fits(rect, area),
{
}

/// The corners of a rectangle move like the pixels of an area that is larger by one: two opposite
/// corners become two opposite corners of the moved rectangle, also where it has no pixels.
pub proof fn law_rectangle_moves_with_its_corners(
    transform: Transform,
    rect: Rectangle,
    area: Size,
)
    requires
        transform.rect_fits(rect, area),
        0 <= rect.size.w && 0 <= rect.size.h,
    ensures
        ({
            let corners = (area.w + 1, area.h + 1);
            let (flips, turns) = (transform.flips(), transform.quarter_turns());
            let a = moved_pixel(flips, turns, corners, (rect.loc.x as int, rect.loc.y as int));
            let b = moved_pixel(
                flips,
                turns,
                corners,
                (rect.loc.x + rect.size.w, rect.loc.y + rect.size.h),
            );
            let moved = transform.transformed_rect(rect, area);
            &&& moved.loc.x == (if a.0 < b.0 {
                a.0
            } else {
                b.0
            })
            &&& moved.loc.y == (if a.1 < b.1 {
                a.1
            } else {
                b.1
            })
            &&& moved.size.w == (if a.0 < b.0 {
                b.0 - a.0
            } else {
                a.0 - b.0
            })
            &&& moved.size.h == (if a.1 < b.1 {
                b.1 - a.1
            } else {
                a.1 - b.1
            })
        }),
{
    reveal_with_fuel(moved_pixel, 4);
}

/// Rectangles overlap if and only if each starts before the other one ends, on both axes. What
/// starts at the largest coordinate starts before nothing.
pub proof fn law_overlap_is_on_both_axes(a: Rectangle, b: Rectangle)
    ensures
        a.overlapping(b) <==> {
            &&& a.loc.x < b.loc.x + b.size.w && a.loc.x != i32::MAX
            &&& b.loc.x < a.loc.x + a.size.w && b.loc.x != i32::MAX
            &&& a.loc.y < b.loc.y + b.size.h && a.loc.y != i32::MAX
            &&& b.loc.y < a.loc.y + a.size.h && b.loc.y != i32::MAX
        },
{
}

} // verus!
