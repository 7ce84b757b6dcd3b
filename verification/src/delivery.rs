//! Delivery of one frame: from the damage of its source to the answer that its client gets.
use std::time::Duration;

use vstd::prelude::*;

use crate::formats::ShmFormat;
use crate::geometry::{Rectangle, Size, Transform};
use crate::scene::Scale;
use crate::session::{
    bag, CaptureFailureReason, CopyCaptureCursorSession, CopyCaptureSession, DamageTracker, Frame,
};

verus! {

/// What a damage tracker said of the elements to render.
#[derive(PartialEq, Eq, Debug)]
pub enum DamageOutcome {
    /// The damage could not be computed.
    Failed,
    /// Nothing changed since the last delivered frame.
    Unchanged,
    /// These rectangles changed, in physical output coordinates.
    Damaged(Vec<Rectangle>),
}

/// The kind of a client's buffer.
#[derive(Clone, Copy, PartialEq, Eq, Structural, Debug)]
pub enum BufferType {
    Shm,
    Egl,
    Dma,
    SinglePixel,
}

/// What is known of the buffer of a frame.
#[derive(Clone, Copy, PartialEq, Eq, Debug)]
pub struct FrameBuffer {
    pub size: Option<Size>,
    pub kind: Option<BufferType>,
    /// Whether the dmabuf of the buffer could be had.
    pub dmabuf: bool,
}

/// Where a frame is rendered to.
#[derive(Clone, Copy, PartialEq, Eq, Structural, Debug)]
pub enum BufferTarget {
    Shm(ShmFormat),
    Dma,
}

/// A frame that left its session to be rendered, with what its client is told on success.
///
/// Only a delivery makes one, and completing it uses it up: the frame gets one answer.
#[must_use]
#[derive(PartialEq, Eq, Debug)]
pub struct RenderingFrame {
    frame: Frame,
    transform: Transform,
    damage: Vec<Rectangle>,
}

/// The contents of a [`RenderingFrame`]; the damage is in buffer coordinates.
#[verifier::ext_equal]
pub struct RenderingFrameView {
    pub frame: Frame,
    pub transform: Transform,
    pub damage: Seq<Rectangle>,
}

impl View for RenderingFrame {
    type V = RenderingFrameView;

    closed spec fn view(&self) -> RenderingFrameView {
        RenderingFrameView {
            frame: self.frame,
            transform: self.transform,
            damage: self.damage@,
        }
    }
}

/// A frame that left its cursor session to be rendered, with the size of the cursor image.
///
/// Only a delivery makes one, and completing it uses it up: the frame gets one answer.
#[must_use]
#[derive(PartialEq, Eq, Debug)]
pub struct RenderingCursorFrame {
    frame: Frame,
    size: Size,
}

/// The contents of a [`RenderingCursorFrame`].
pub struct RenderingCursorFrameView {
    pub frame: Frame,
    pub size: Size,
}

impl View for RenderingCursorFrame {
    type V = RenderingCursorFrameView;

    closed spec fn view(&self) -> RenderingCursorFrameView {
        RenderingCursorFrameView { frame: self.frame, size: self.size }
    }
}

impl RenderingFrame {
    /// The frame that is rendered.
    pub fn frame(&self) -> (r: Frame)
        ensures
            r == self@.frame,
    {
        self.frame
    }
}

impl RenderingCursorFrame {
    /// The frame that is rendered.
    pub fn frame(&self) -> (r: Frame)
        ensures
            r == self@.frame,
    {
        self.frame
    }
}

/// What happens to the frame of a session on a redraw.
#[derive(PartialEq, Eq, Debug)]
pub enum Delivery {
    /// The frame waits for the next redraw.
    Wait,
    /// The frame fails. The tracker of the session starts over.
    Fail { frame: Frame, reason: CaptureFailureReason },
    /// The frame is rendered.
    Render { rendering: RenderingFrame, target: BufferTarget },
}

/// The contents of a [`Delivery`].
#[verifier::ext_equal]
pub enum DeliveryView {
    Wait,
    Fail { frame: Frame, reason: CaptureFailureReason },
    Render { rendering: RenderingFrameView, target: BufferTarget },
}

impl View for Delivery {
    type V = DeliveryView;

    open spec fn view(&self) -> DeliveryView {
        match *self {
            Delivery::Wait => DeliveryView::Wait,
            Delivery::Fail { frame, reason } => DeliveryView::Fail { frame, reason },
            Delivery::Render { rendering, target } => DeliveryView::Render {
                rendering: rendering@,
                target,
            },
        }
    }
}

/// What happens to the frame of a cursor session on a redraw.
#[derive(PartialEq, Eq, Debug)]
pub enum CursorDelivery {
    /// The frame waits for the next redraw.
    Wait,
    /// The frame fails. The tracker of the session starts over.
    Fail { frame: Frame, reason: CaptureFailureReason },
    /// The frame is rendered to shared memory.
    Render { rendering: RenderingCursorFrame, format: ShmFormat },
}

/// The contents of a [`CursorDelivery`].
pub enum CursorDeliveryView {
    Wait,
    Fail { frame: Frame, reason: CaptureFailureReason },
    Render { rendering: RenderingCursorFrameView, format: ShmFormat },
}

impl View for CursorDelivery {
    type V = CursorDeliveryView;

    open spec fn view(&self) -> CursorDeliveryView {
        match *self {
            CursorDelivery::Wait => CursorDeliveryView::Wait,
            CursorDelivery::Fail { frame, reason } => CursorDeliveryView::Fail { frame, reason },
            CursorDelivery::Render { rendering, format } => CursorDeliveryView::Render {
                rendering: rendering@,
                format,
            },
        }
    }
}

/// How rendering went.
#[derive(Clone, Copy, PartialEq, Eq, Structural, Debug)]
pub enum RenderOutcome {
    Failed,
    /// The frame is rendered, once the GPU has signalled its fence if there is one.
    Rendered { fence: bool },
}

/// A successful capture.
#[derive(PartialEq, Eq, Debug)]
pub struct FrameSuccess {
    pub frame: Frame,
    pub transform: Transform,
    /// The part of the buffer that changed.
    pub damage: Vec<Rectangle>,
    pub presentation_time: Duration,
}

/// The contents of a [`FrameSuccess`].
#[verifier::ext_equal]
pub struct FrameSuccessView {
    pub frame: Frame,
    pub transform: Transform,
    pub damage: Seq<Rectangle>,
    pub presentation_time: Duration,
}

impl View for FrameSuccess {
    type V = FrameSuccessView;

    open spec fn view(&self) -> FrameSuccessView {
        FrameSuccessView {
            frame: self.frame,
            transform: self.transform,
            damage: self.damage@,
            presentation_time: self.presentation_time,
        }
    }
}

/// The answer to a rendered frame.
#[derive(PartialEq, Eq, Debug)]
pub enum Completion {
    /// The frame fails. The tracker of the session starts over.
    Fail { frame: Frame, reason: CaptureFailureReason },
    /// The capture is signalled right away.
    Success(FrameSuccess),
    /// The capture is signalled when the fence is.
    SuccessAfterSync(FrameSuccess),
}

/// The contents of a [`Completion`].
#[verifier::ext_equal]
pub enum CompletionView {
    Fail { frame: Frame, reason: CaptureFailureReason },
    Success(FrameSuccessView),
    SuccessAfterSync(FrameSuccessView),
}

impl View for Completion {
    type V = CompletionView;

    open spec fn view(&self) -> CompletionView {
        match *self {
            Completion::Fail { frame, reason } => CompletionView::Fail { frame, reason },
            Completion::Success(success) => CompletionView::Success(success@),
            Completion::SuccessAfterSync(success) => CompletionView::SuccessAfterSync(success@),
        }
    }
}

/// Where a frame of some size can be rendered to, or why it cannot.
pub open spec fn usable_target(buffer: FrameBuffer, size: Size) -> Result<
    BufferTarget,
    CaptureFailureReason,
> {
    if buffer.size != Some(size) {
        Err(CaptureFailureReason::BufferConstraints)
    } else {
        match buffer.kind {
            Some(BufferType::Shm) => Ok(BufferTarget::Shm(ShmFormat::Xrgb8888)),
            Some(BufferType::Dma) => if buffer.dmabuf {
                Ok(BufferTarget::Dma)
            } else {
                Err(CaptureFailureReason::Unknown)
            },
            _ => Err(CaptureFailureReason::Unknown),
        }
    }
}

/// A rectangle of an output, in the coordinates of a buffer that keeps the output's native size.
pub open spec fn in_buffer(rect: Rectangle, size: Size, transform: Transform) -> Rectangle {
    transform.inverted().transformed_rect(rect, transform.transformed_size(size))
}

/// No coordinate that moving the rectangle into the buffer computes leaves `i32`.
pub open spec fn fits_in_buffer(rect: Rectangle, size: Size, transform: Transform) -> bool {
    transform.inverted().rect_fits(rect, transform.transformed_size(size))
}

/// Rectangles of an output, in the coordinates of a buffer that keeps the output's native size.
pub open spec fn all_in_buffer(
    damage: Seq<Rectangle>,
    size: Size,
    transform: Transform,
) -> Seq<Rectangle> {
    damage.map_values(|rect: Rectangle| in_buffer(rect, size, transform))
}

/// What happens to the frame that waits in a session, once the damage of its source is known: it
/// waits on without damage, fails if its buffer cannot be used, and is rendered otherwise.
pub open spec fn delivery_of(
    entry: CopyCaptureSession,
    outcome: DamageOutcome,
    size: Size,
    transform: Transform,
    buffer: FrameBuffer,
) -> DeliveryView {
    match (outcome, entry.pending_frame) {
        (DamageOutcome::Damaged(damage), Some(frame)) => match usable_target(buffer, size) {
            Ok(target) => DeliveryView::Render {
                rendering: RenderingFrameView {
                    frame,
                    transform,
                    damage: all_in_buffer(damage@, size, transform),
                },
                target,
            },
            Err(reason) => DeliveryView::Fail { frame, reason },
        },
        _ => DeliveryView::Wait,
    }
}

/// A session after a delivery: without the frame unless it waits on, and with a tracker that starts
/// over if the frame failed.
pub open spec fn delivered_session(
    entry: CopyCaptureSession,
    delivery: DeliveryView,
) -> CopyCaptureSession {
    match delivery {
        DeliveryView::Wait => entry,
        DeliveryView::Fail { .. } => entry.with_frame(None).with_tracker(
            DamageTracker::spec_initial(),
        ),
        DeliveryView::Render { .. } => entry.with_frame(None),
    }
}

/// The answer to a frame that was rendered.
pub open spec fn completion_of(
    rendering: RenderingFrameView,
    outcome: RenderOutcome,
    presentation_time: Duration,
) -> CompletionView {
    let success = FrameSuccessView {
        frame: rendering.frame,
        transform: rendering.transform,
        damage: rendering.damage,
        presentation_time,
    };
    match outcome {
        RenderOutcome::Failed => CompletionView::Fail {
            frame: rendering.frame,
            reason: CaptureFailureReason::Unknown,
        },
        RenderOutcome::Rendered { fence } => if fence {
            CompletionView::SuccessAfterSync(success)
        } else {
            CompletionView::Success(success)
        },
    }
}

/// A session after a completion: its tracker starts over if the frame failed.
pub open spec fn completed_session(
    entry: CopyCaptureSession,
    completion: CompletionView,
) -> CopyCaptureSession {
    if completion is Fail {
        entry.with_tracker(DamageTracker::spec_initial())
    } else {
        entry
    }
}

/// What happens to the frame that waits in a cursor session, once the damage of the cursor image is
/// known.
pub open spec fn cursor_delivery_of(
    entry: CopyCaptureCursorSession,
    outcome: DamageOutcome,
    size: Size,
    buffer_size: Option<Size>,
) -> CursorDeliveryView {
    match (outcome, entry.pending_frame) {
        (DamageOutcome::Damaged(_), Some(frame)) => if buffer_size == Some(size) {
            CursorDeliveryView::Render {
                rendering: RenderingCursorFrameView { frame, size },
                format: ShmFormat::Argb8888,
            }
        } else {
            CursorDeliveryView::Fail { frame, reason: CaptureFailureReason::BufferConstraints }
        },
        _ => CursorDeliveryView::Wait,
    }
}

/// A cursor session after a delivery.
pub open spec fn delivered_cursor_session(
    entry: CopyCaptureCursorSession,
    delivery: CursorDeliveryView,
) -> CopyCaptureCursorSession {
    match delivery {
        CursorDeliveryView::Wait => entry,
        CursorDeliveryView::Fail { .. } => entry.with_frame(None).with_tracker(
            DamageTracker::spec_initial(),
        ),
        CursorDeliveryView::Render { .. } => entry.with_frame(None),
    }
}

/// The answer to a cursor frame that was rendered. A delivered cursor frame is damaged as a whole.
pub open spec fn cursor_completion_of(
    rendering: RenderingCursorFrameView,
    rendered: bool,
    presentation_time: Duration,
) -> CompletionView {
    if rendered {
        CompletionView::Success(
            FrameSuccessView {
                frame: rendering.frame,
                transform: Transform::Normal,
                damage: seq![Rectangle::at_origin(rendering.size)],
                presentation_time,
            },
        )
    } else {
        CompletionView::Fail { frame: rendering.frame, reason: CaptureFailureReason::Unknown }
    }
}

/// A cursor session after a completion: its tracker starts over if the frame failed.
pub open spec fn completed_cursor_session(
    entry: CopyCaptureCursorSession,
    completion: CompletionView,
) -> CopyCaptureCursorSession {
    if completion is Fail {
        entry.with_tracker(DamageTracker::spec_initial())
    } else {
        entry
    }
}

/// The frame that leaves a session with a delivery.
pub open spec fn taken_frame(delivery: DeliveryView) -> Option<Frame> {
    match delivery {
        DeliveryView::Wait => None,
        DeliveryView::Fail { frame, .. } => Some(frame),
        DeliveryView::Render { rendering, .. } => Some(rendering.frame),
    }
}

/// The frame that leaves a cursor session with a delivery.
pub open spec fn taken_cursor_frame(delivery: CursorDeliveryView) -> Option<Frame> {
    match delivery {
        CursorDeliveryView::Wait => None,
        CursorDeliveryView::Fail { frame, .. } => Some(frame),
        CursorDeliveryView::Render { rendering, .. } => Some(rendering.frame),
    }
}

/// The frame that a completion answers.
pub open spec fn answered_frame(completion: CompletionView) -> Frame {
    match completion {
        CompletionView::Fail { frame, .. } => frame,
        CompletionView::Success(success) => success.frame,
        CompletionView::SuccessAfterSync(success) => success.frame,
    }
}

/// Replaces a tracker that was made for another mode. Returns whether it did.
pub fn ensure_damage_tracker(
    tracker: &mut DamageTracker,
    size: Size,
    scale: Scale,
    transform: Transform,
) -> (fresh: bool)
    ensures
        fresh == !old(tracker).made_for(size, scale, transform),
        *final(tracker) == old(tracker).fitted(size, scale, transform),
{
    if size != tracker.size || !scale.same_as(&tracker.scale) || transform != tracker.transform {
        *tracker = DamageTracker { size, scale, transform };
        true
    } else {
        false
    }
}

fn same_size(buffer: Option<Size>, size: Size) -> (r: bool)
    ensures
        r == (buffer == Some(size)),
{
    match buffer {
        Some(s) => s == size,
        None => false,
    }
}

/// Whether damage can be moved into a buffer without leaving the coordinate range.
pub fn damage_fits(damage: &Vec<Rectangle>, size: Size, transform: Transform) -> (r: bool)
    ensures
        r == forall|i: int|
            0 <= i < damage.len() ==> fits_in_buffer(#[trigger] damage@[i], size, transform),
{
    let physical_size = transform.transform_size(size);
    let inverse = transform.invert();
    let mut i: usize = 0;
    while i < damage.len()
        invariant
            i <= damage.len(),
            inverse == transform.inverted(),
            physical_size == transform.transformed_size(size),
            forall|j: int|
                0 <= j < i ==> fits_in_buffer(#[trigger] damage@[j], size, transform),
        decreases damage.len() - i,
    {
        if !inverse.can_transform_rect_in(damage[i], physical_size) {
            assert(!fits_in_buffer(damage@[i as int], size, transform));
            return false;
        }
        i += 1;
    }
    true
}

fn damage_in_buffer(damage: &Vec<Rectangle>, size: Size, transform: Transform) -> (r: Vec<
    Rectangle,
>)
    requires
        forall|i: int|
            0 <= i < damage.len() ==> fits_in_buffer(#[trigger] damage@[i], size, transform),
    ensures
        r@ == all_in_buffer(damage@, size, transform),
{
    // Convert the damage from output physical coordinates back to buffer coordinates.
    let physical_size = transform.transform_size(size);
    let inverse = transform.invert();
    let mut converted: Vec<Rectangle> = Vec::new();
    let mut i: usize = 0;
    while i < damage.len()
        invariant
            i <= damage.len(),
            inverse == transform.inverted(),
            physical_size == transform.transformed_size(size),
            converted.len() == i,
            forall|j: int|
                0 <= j < damage.len() ==> fits_in_buffer(#[trigger] damage@[j], size, transform),
            forall|j: int|
                0 <= j < i ==> converted@[j] == in_buffer(#[trigger] damage@[j], size, transform),
        decreases damage.len() - i,
    {
        assert(fits_in_buffer(damage@[i as int], size, transform));
        converted.push(inverse.transform_rect_in(damage[i], physical_size));
        i += 1;
    }
    converted
}

fn choose_target(buffer: &FrameBuffer) -> (r: Result<BufferTarget, CaptureFailureReason>)
    ensures
        forall|size: Size| buffer.size == Some(size) ==> r == #[trigger] usable_target(*buffer, size),
{
    match buffer.kind {
        // Rendering to shared memory only supports Xrgb8888.
        Some(BufferType::Shm) => Ok(BufferTarget::Shm(ShmFormat::Xrgb8888)),
        Some(BufferType::Dma) => {
            if buffer.dmabuf {
                Ok(BufferTarget::Dma)
            } else {
                Err(CaptureFailureReason::Unknown)
            }
        },
        _ => Err(CaptureFailureReason::Unknown),
    }
}

/// Decides what happens to the frame that waits in a session, once the damage of its source is
/// known. `size` and `transform` are those that the source is rendered with.
pub fn deliver_frame(
    entry: &mut CopyCaptureSession,
    outcome: &DamageOutcome,
    size: Size,
    transform: Transform,
    buffer: &FrameBuffer,
) -> (r: Delivery)
    requires
        outcome matches DamageOutcome::Damaged(damage) ==> {
            &&& old(entry).pending_frame is Some
            &&& forall|i: int|
                0 <= i < damage.len() ==> fits_in_buffer(#[trigger] damage@[i], size, transform)
        },
    ensures
        r@ == delivery_of(*old(entry), *outcome, size, transform, *buffer),
        *final(entry) == delivered_session(*old(entry), r@),
        // The frame either still waits or leaves the session.
        bag(final(entry).pending_frame).add(bag(taken_frame(r@))) == bag(old(entry).pending_frame),
{
    broadcast use vstd::multiset::group_multiset_axioms;

    match outcome {
        DamageOutcome::Failed => Delivery::Wait,
        // No damage since the last delivered frame; wait for the next redraw.
        DamageOutcome::Unchanged => Delivery::Wait,
        DamageOutcome::Damaged(damage) => {
            let buffer_damage = damage_in_buffer(damage, size, transform);
            let frame = entry.pending_frame.unwrap();
            entry.pending_frame = None;

            // The size might have changed since the buffer passed the constraint check.
            let target = if same_size(buffer.size, size) {
                choose_target(buffer)
            } else {
                Err(CaptureFailureReason::BufferConstraints)
            };
            match target {
                Ok(target) => {
                    let rendering = RenderingFrame { frame, transform, damage: buffer_damage };
                    Delivery::Render { rendering, target }
                },
                Err(reason) => {
                    // Start the tracker over to report full damage next time.
                    entry.damage_tracker = DamageTracker::initial();
                    Delivery::Fail { frame, reason }
                },
            }
        },
    }
}

/// Answers a frame that was rendered.
pub fn complete_frame(
    entry: &mut CopyCaptureSession,
    rendering: RenderingFrame,
    outcome: RenderOutcome,
    presentation_time: Duration,
) -> (r: Completion)
    ensures
        r@ == completion_of(rendering@, outcome, presentation_time),
        *final(entry) == completed_session(*old(entry), r@),
        answered_frame(r@) == rendering@.frame,
{
    match outcome {
        RenderOutcome::Failed => {
            // Start the tracker over to report full damage next time.
            entry.damage_tracker = DamageTracker::initial();
            Completion::Fail { frame: rendering.frame, reason: CaptureFailureReason::Unknown }
        },
        RenderOutcome::Rendered { fence } => success_after_sync(
            rendering,
            presentation_time,
            fence,
        ),
    }
}

/// Signals a successful capture, delaying it until the GPU is done rendering if necessary.
pub fn success_after_sync(
    rendering: RenderingFrame,
    presentation_time: Duration,
    fence: bool,
) -> (r: Completion)
    ensures
        r@ == completion_of(rendering@, RenderOutcome::Rendered { fence }, presentation_time),
{
    let success = FrameSuccess {
        frame: rendering.frame,
        transform: rendering.transform,
        damage: rendering.damage,
        presentation_time,
    };
    if fence {
        Completion::SuccessAfterSync(success)
    } else {
        Completion::Success(success)
    }
}

/// Decides what happens to the frame that waits in a cursor session, once the damage of the cursor
/// image is known. `size` is that of the session's constraints.
pub fn deliver_cursor_frame(
    entry: &mut CopyCaptureCursorSession,
    outcome: &DamageOutcome,
    size: Size,
    buffer_size: Option<Size>,
) -> (r: CursorDelivery)
    requires
        outcome is Damaged ==> old(entry).pending_frame is Some,
    ensures
        r@ == cursor_delivery_of(*old(entry), *outcome, size, buffer_size),
        *final(entry) == delivered_cursor_session(*old(entry), r@),
        // The frame either still waits or leaves the session.
        bag(final(entry).pending_frame).add(bag(taken_cursor_frame(r@))) == bag(
            old(entry).pending_frame,
        ),
{
    broadcast use vstd::multiset::group_multiset_axioms;

    match outcome {
        DamageOutcome::Failed => CursorDelivery::Wait,
        // The cursor image didn't change; wait.
        DamageOutcome::Unchanged => CursorDelivery::Wait,
        DamageOutcome::Damaged(_) => {
            let frame = entry.pending_frame.unwrap();
            entry.pending_frame = None;
            if same_size(buffer_size, size) {
                let rendering = RenderingCursorFrame { frame, size };
                CursorDelivery::Render { rendering, format: ShmFormat::Argb8888 }
            } else {
                // Start the tracker over to report full damage next time.
                entry.damage_tracker = DamageTracker::initial();
                CursorDelivery::Fail { frame, reason: CaptureFailureReason::BufferConstraints }
            }
        },
    }
}

/// Answers a cursor frame that was rendered. A delivered cursor frame is damaged as a whole.
pub fn complete_cursor_frame(
    entry: &mut CopyCaptureCursorSession,
    rendering: RenderingCursorFrame,
    rendered: bool,
    presentation_time: Duration,
) -> (r: Completion)
    ensures
        r@ == cursor_completion_of(rendering@, rendered, presentation_time),
        *final(entry) == completed_cursor_session(*old(entry), r@),
        answered_frame(r@) == rendering@.frame,
{
    let frame = rendering.frame;
    if rendered {
        let mut damage: Vec<Rectangle> = Vec::new();
        damage.push(Rectangle::from_size(rendering.size));
        Completion::Success(
            FrameSuccess { frame, transform: Transform::Normal, damage, presentation_time },
        )
    } else {
        // Start the tracker over to report full damage next time.
        entry.damage_tracker = DamageTracker::initial();
        Completion::Fail { frame, reason: CaptureFailureReason::Unknown }
    }
}

} // verus!
