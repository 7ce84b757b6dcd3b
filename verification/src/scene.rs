//! What the capture rules read of the compositor: its outputs, its windows and its cursor.
use std::collections::{HashMap, HashSet};

use vstd::prelude::*;

use crate::geometry::{fits_i32, Point, Rectangle, Size, Transform};

verus! {

broadcast use vstd::std_specs::hash::group_hash_axioms;

/// A fractional scale, held as the bits of a double-precision number.
#[derive(Clone, Copy, PartialEq, Eq, Debug)]
pub struct Scale {
    pub bits: u64,
}

/// The cursor image as it renders on an output, in physical pixels.
#[derive(Clone, Copy, PartialEq, Eq, Debug)]
pub struct CursorImage {
    pub size: Size,
    pub hotspot: Point,
}

/// An output.
#[derive(Clone, Copy, PartialEq, Eq, Debug)]
pub struct Output {
    pub id: u64,
    /// The size of the current mode, in the native orientation of the output.
    pub current_mode: Option<Size>,
    pub transform: Transform,
    pub scale: Scale,
    pub integer_scale: i32,
    /// The pointer position in physical pixels from the top-left corner of the output, if the
    /// output has a place in the global space.
    pub pointer: Option<Point>,
    /// The cursor on this output, unless it is hidden.
    pub cursor: Option<CursorImage>,
}

/// A window of the layout.
#[derive(Clone, Copy, PartialEq, Eq, Debug)]
pub struct Mapped {
    /// The output that the window is on, if any.
    pub output: Option<u64>,
    /// The bounding box of the window with its popups, in physical pixels of that output.
    pub bbox: Rectangle,
    /// Where the top-left corner of the bounding box is on that output, in physical pixels, if
    /// the pointer belongs into captures of the window.
    pub pointer_origin: Option<Point>,
}

/// What an image capture source was created for.
#[derive(Clone, Copy, PartialEq, Eq, Structural, Debug)]
pub struct ImageCaptureSource {
    pub output: Option<u64>,
    pub toplevel: Option<u64>,
}

/// What an image capture source points at.
#[derive(Clone, Copy, PartialEq, Eq, Debug)]
pub enum CaptureSourceTarget {
    Output(Output),
    Toplevel(u64),
}

/// What the capture rules read of the compositor.
pub struct Scene {
    /// The outputs that are part of the compositor, by identity.
    pub output_state: HashMap<u64, Output>,
    /// The surfaces that are still alive.
    pub alive_surfaces: HashSet<u64>,
    /// The windows of the layout, by surface.
    pub windows: HashMap<u64, Mapped>,
    /// The nominal cursor size of the configuration.
    pub xcursor_size: u8,
    pub pointer_visible: bool,
}

impl Scale {
    /// The bits without the sign.
    pub open spec fn magnitude(self) -> u64 {
        self.bits % 0x8000_0000_0000_0000
    }

    pub open spec fn is_nan(self) -> bool {
        self.magnitude() > 0x7ff0_0000_0000_0000
    }

    /// The two numbers compare equal: neither is a NaN, and they have the same bits or are both
    /// a zero.
    pub open spec fn equals(self, other: Scale) -> bool {
        &&& !self.is_nan()
        &&& !other.is_nan()
        &&& self.bits == other.bits || (self.magnitude() == 0 && other.magnitude() == 0)
    }

    pub open spec fn spec_one() -> Scale {
        Scale { bits: 0x3ff0_0000_0000_0000 }
    }

    /// The scale one.
    pub fn one() -> (r: Scale)
        ensures
            r == Scale::spec_one(),
    {
        Scale { bits: 0x3ff0_0000_0000_0000 }
    }

    /// Whether two scales are the same number.
    pub fn same_as(&self, other: &Scale) -> (r: bool)
        ensures
            r == self.equals(*other),
    {
        let a: u64 = self.bits % 0x8000_0000_0000_0000;
        let b: u64 = other.bits % 0x8000_0000_0000_0000;
        a <= 0x7ff0_0000_0000_0000 && b <= 0x7ff0_0000_0000_0000 && (self.bits == other.bits || (a
            == 0 && b == 0))
    }
}

impl Output {
    /// The size the cursor renders at; a hidden cursor has none.
    pub open spec fn rendered_cursor_size(self) -> Size {
        match self.cursor {
            Some(image) => image.size,
            None => Size { w: 0, h: 0 },
        }
    }

    /// The hotspot of the cursor image; that of a hidden cursor is at the origin.
    pub open spec fn cursor_hotspot(self) -> Point {
        match self.cursor {
            Some(image) => image.hotspot,
            None => Point { x: 0, y: 0 },
        }
    }

    /// The nominal cursor size on this output is a coordinate, if it is needed.
    pub open spec fn nominal_cursor_fits(self, xcursor_size: u8) -> bool {
        self.rendered_cursor_size().empty() ==> fits_i32(xcursor_size * self.integer_scale)
    }

    /// Whether the nominal cursor size on this output is a coordinate, if it is needed.
    pub fn fits_nominal_cursor(&self, xcursor_size: u8) -> (r: bool)
        ensures
            r == self.nominal_cursor_fits(xcursor_size),
    {
        let size = match self.cursor {
            Some(image) => image.size,
            None => Size { w: 0, h: 0 },
        };
        if !size.is_empty() {
            return true;
        }
        let nominal_size: i64 = xcursor_size as i64;
        let integer_scale: i64 = self.integer_scale as i64;
        assert(-0x80_0000_0000 <= nominal_size * integer_scale <= 0x80_0000_0000)
            by (nonlinear_arith)
            requires
                0 <= nominal_size <= 255,
                -0x8000_0000 <= integer_scale <= 0x7fff_ffff,
        ;
        let nominal: i64 = nominal_size * integer_scale;
        i32::MIN as i64 <= nominal && nominal <= i32::MAX as i64
    }
}

impl Scene {
    /// Outputs are found under their own identity.
    pub open spec fn wf(self) -> bool {
        forall|id: u64| #[trigger]
            self.output_state@.contains_key(id) ==> self.output_state@[id].id == id
    }

    /// The target of a capture source, if it is still around.
    pub open spec fn target(self, source: ImageCaptureSource) -> Option<CaptureSourceTarget> {
        match source.output {
            Some(id) => if self.output_state@.contains_key(id) {
                Some(CaptureSourceTarget::Output(self.output_state@[id]))
            } else {
                None
            },
            None => match source.toplevel {
                Some(surface) => if self.alive_surfaces@.contains(surface) {
                    Some(CaptureSourceTarget::Toplevel(surface))
                } else {
                    None
                },
                None => None,
            },
        }
    }

    /// The size at which a capture source is captured: that of the output's mode, or that of the
    /// window. There is none if the source is gone, has no mode, is not in the layout or is empty.
    pub open spec fn source_size(self, source: ImageCaptureSource) -> Option<Size> {
        let size = match self.target(source) {
            Some(CaptureSourceTarget::Output(output)) => output.current_mode,
            Some(CaptureSourceTarget::Toplevel(surface)) => if self.windows@.contains_key(surface) {
                Some(self.windows@[surface].bbox.size)
            } else {
                None
            },
            None => None,
        };
        match size {
            Some(size) => if size.empty() {
                None
            } else {
                Some(size)
            },
            None => None,
        }
    }

    /// The size at which the cursor of an output is captured: that of its image, or the nominal
    /// one when there is no image.
    pub open spec fn cursor_size(self, output: Output) -> Size {
        let size = output.rendered_cursor_size();
        if size.empty() {
            let nominal = (self.xcursor_size * output.integer_scale) as i32;
            Size { w: nominal, h: nominal }
        } else {
            size
        }
    }

    /// The output whose redraw delivers the frames of a capture source.
    pub open spec fn redrawn_output(self, source: ImageCaptureSource) -> Option<u64> {
        let output = match self.target(source) {
            Some(CaptureSourceTarget::Output(output)) => Some(output.id),
            Some(CaptureSourceTarget::Toplevel(surface)) => if self.windows@.contains_key(surface) {
                self.windows@[surface].output
            } else {
                None
            },
            None => None,
        };
        match output {
            Some(id) => if self.output_state@.contains_key(id) {
                Some(id)
            } else {
                None
            },
            None => None,
        }
    }

    /// A scene without outputs, surfaces and windows.
    pub fn new(xcursor_size: u8, pointer_visible: bool) -> (r: Scene)
        ensures
            r.wf(),
            r.output_state@ == Map::<u64, Output>::empty(),
            r.alive_surfaces@ == Set::<u64>::empty(),
            r.windows@ == Map::<u64, Mapped>::empty(),
            r.xcursor_size == xcursor_size,
            r.pointer_visible == pointer_visible,
    {
        Scene {
            output_state: HashMap::new(),
            alive_surfaces: HashSet::new(),
            windows: HashMap::new(),
            xcursor_size,
            pointer_visible,
        }
    }

    /// Adds an output, in place of the one with the same identity if there is one.
    pub fn set_output(&mut self, output: Output)
        ensures
            old(self).wf() ==> final(self).wf(),
            final(self).output_state@ == old(self).output_state@.insert(output.id, output),
            final(self).alive_surfaces == old(self).alive_surfaces,
            final(self).windows == old(self).windows,
            final(self).xcursor_size == old(self).xcursor_size,
            final(self).pointer_visible == old(self).pointer_visible,
    {
        self.output_state.insert(output.id, output);
    }

    /// Resolves a capture source into its target, if the target is still around.
    pub fn resolve(&self, source: &ImageCaptureSource) -> (r: Option<CaptureSourceTarget>)
        ensures
            r == self.target(*source),
    {
        if let Some(id) = source.output {
            return match self.output_state.get(&id) {
                Some(output) => Some(CaptureSourceTarget::Output(*output)),
                None => None,
            };
        }
        if let Some(surface) = source.toplevel {
            if self.alive_surfaces.contains(&surface) {
                return Some(CaptureSourceTarget::Toplevel(surface));
            }
        }
        None
    }

    /// Whether an output is part of the compositor.
    pub fn has_output(&self, id: u64) -> (r: bool)
        ensures
            r == self.output_state@.contains_key(id),
    {
        self.output_state.contains_key(&id)
    }

    /// The window of a surface.
    pub fn find_window(&self, surface: u64) -> (r: Option<Mapped>)
        ensures
            r == (if self.windows@.contains_key(surface) {
                Some(self.windows@[surface])
            } else {
                None
            }),
    {
        match self.windows.get(&surface) {
            Some(mapped) => Some(*mapped),
            None => None,
        }
    }
}

/// Scales compare like the numbers that they stand for: a number equals itself, the two zeros equal
/// each other, no other two numbers are equal, and a NaN equals nothing.
pub proof fn law_scales_compare_like_numbers(a: Scale, b: Scale)
    ensures
        a.equals(b) == b.equals(a),
        a.bits % 0x8000_0000_0000_0000 <= 0x7ff0_0000_0000_0000 ==> a.equals(a),
        a.bits % 0x8000_0000_0000_0000 > 0x7ff0_0000_0000_0000 ==> !a.equals(b),
        a.bits == 0 && b.bits == 0x8000_0000_0000_0000 ==> a.equals(b),
        a.equals(b) && a.bits != b.bits ==> (a.bits == 0 || a.bits == 0x8000_0000_0000_0000) && (
        b.bits == 0 || b.bits == 0x8000_0000_0000_0000),
{
}

/// A source for an output points at that output as it is in the compositor, if it is there at all,
/// whatever else the source holds.
pub proof fn law_output_sources_point_at_their_output(
    scene: Scene,
    source: ImageCaptureSource,
    id: u64,
)
    requires
        source.output == Some(id),
    ensures
        match scene.target(source) {
            Some(CaptureSourceTarget::Output(output)) => scene.output_state@.contains_key(id)
                && output == scene.output_state@[id],
            Some(CaptureSourceTarget::Toplevel(_)) => false,
            None => !scene.output_state@.contains_key(id),
        },
{
}

/// A source for a window points at the window's surface while the surface is alive. A source for
/// nothing points at nothing.
pub proof fn law_window_sources_point_at_their_surface(scene: Scene, source: ImageCaptureSource)
    requires
        source.output is None,
    ensures
        match scene.target(source) {
            Some(CaptureSourceTarget::Output(_)) => false,
            Some(CaptureSourceTarget::Toplevel(surface)) => source.toplevel == Some(surface)
                && scene.alive_surfaces@.contains(surface),
            None => source.toplevel is None || !scene.alive_surfaces@.contains(
                source.toplevel->0,
            ),
        },
{
}

/// An output that is there is captured at the size of its mode, both sides as they are, unless it
/// has no mode or a side is zero.
pub proof fn law_outputs_are_captured_at_their_mode(
    scene: Scene,
    source: ImageCaptureSource,
    id: u64,
)
    requires
        source.output == Some(id),
        scene.output_state@.contains_key(id),
    ensures
        match scene.output_state@[id].current_mode {
            Some(mode) => if mode.w != 0 && mode.h != 0 {
                scene.source_size(source) == Some(mode)
            } else {
                scene.source_size(source) is None
            },
            None => scene.source_size(source) is None,
        },
{
}

/// A window in the layout whose surface is alive is captured at the size of its bounding box, both
/// sides as they are, unless a side is zero; a window on no output too. Nothing else has a size.
pub proof fn law_windows_are_captured_at_their_bounding_box(
    scene: Scene,
    source: ImageCaptureSource,
    surface: u64,
)
    requires
        source.output is None,
        source.toplevel == Some(surface),
    ensures
        ({
            let bbox = scene.windows@[surface].bbox;
            if scene.alive_surfaces@.contains(surface) && scene.windows@.contains_key(surface)
                && bbox.size.w != 0 && bbox.size.h != 0 {
                scene.source_size(source) == Some(bbox.size)
            } else {
                scene.source_size(source) is None
            }
        }),
{
}

/// A source that points at nothing has no size.
pub proof fn law_gone_sources_have_no_size(scene: Scene, source: ImageCaptureSource)
    requires
        scene.target(source) is None,
    ensures
        scene.source_size(source) is None,
        scene.redrawn_output(source) is None,
{
}

/// A cursor image whose sides are not zero is captured with exactly its own width and height.
/// Otherwise, and when the cursor is hidden, both sides are the nominal cursor size at the integer
/// scale of the output.
pub proof fn law_cursor_is_captured_at_its_own_size(scene: Scene, output: Output)
    requires
        output.nominal_cursor_fits(scene.xcursor_size),
    ensures
        ({
            let shown = output.cursor is Some && output.cursor->0.size.w != 0
                && output.cursor->0.size.h != 0;
            let size = scene.cursor_size(output);
            &&& shown ==> size.w == output.cursor->0.size.w
            &&& shown ==> size.h == output.cursor->0.size.h
            &&& !shown ==> size.w == scene.xcursor_size * output.integer_scale
            &&& !shown ==> size.h == scene.xcursor_size * output.integer_scale
        }),
{
}

/// The hotspot that is told is that of the image that is shown; without an image it is the origin.
pub proof fn law_hotspot_is_that_of_the_image(output: Output)
    ensures
        match output.cursor {
            Some(image) => output.cursor_hotspot().x == image.hotspot.x && output.cursor_hotspot().y
                == image.hotspot.y,
            None => output.cursor_hotspot().x == 0 && output.cursor_hotspot().y == 0,
        },
{
}

/// A redraw is asked of an output that is there, and only of the one that the source is on.
pub proof fn law_redraws_are_asked_of_the_sources_output(
    scene: Scene,
    source: ImageCaptureSource,
    output: u64,
)
    requires
        scene.wf(),
        scene.redrawn_output(source) == Some(output),
    ensures
        scene.output_state@.contains_key(output),
        match source.output {
            Some(id) => id == output,
            None => source.toplevel is Some && scene.alive_surfaces@.contains(source.toplevel->0)
                && scene.windows@.contains_key(source.toplevel->0)
                && scene.windows@[source.toplevel->0].output == Some(output),
        },
{
}

/// The nominal cursor size has to be a coordinate only where the cursor has no image of its own.
pub proof fn law_nominal_cursor_is_needed_without_an_image(output: Output, xcursor_size: u8)
    ensures
        output.nominal_cursor_fits(xcursor_size) <==> {
            ||| output.cursor is Some && output.cursor->0.size.w != 0 && output.cursor->0.size.h
                != 0
            ||| i32::MIN <= xcursor_size * output.integer_scale <= i32::MAX
        },
{
}

} // verus!
