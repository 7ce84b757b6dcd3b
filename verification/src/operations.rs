//! What each operation does, told by its inputs and results.
//!
//! The laws here speak of single operations: what is handed to a client, which sessions a redraw or
//! a refresh touches and which it leaves alone. Sessions do not influence each other, so what
//! happens to one session, together with how lists of sessions are put together, says what happens
//! to all of them.
use std::time::Duration;

use vstd::prelude::*;

use crate::delivery::{
    completed_cursor_session, completed_session, completion_of, cursor_completion_of,
    cursor_delivery_of, delivered_cursor_session, delivered_session, delivery_of, fits_in_buffer,
    in_buffer, BufferTarget, BufferType, Completion, CompletionView, CursorDelivery,
    CursorDeliveryView, DamageOutcome, Delivery, DeliveryView, FrameBuffer, RenderOutcome,
    RenderingCursorFrameView, RenderingFrameView,
};
use crate::formats::{advertised, ShmFormat};
use crate::geometry::{
    fits_i32, law_rectangle_moves_with_its_pixels, moved_pixel, Point, Rectangle, Size, Transform,
};
use crate::niri::{
    capture_jobs, capture_on, cursor_entered, cursor_refresh_actions, cursor_session_actions,
    cursor_sizes_fit, cursor_step, cursor_steps, fitted_sessions, refreshed_cursor_session,
    refreshed_cursor_sessions, stacked, stepped_cursor_session, stepped_cursor_sessions,
    tracked_cursor_fits, tracked_output, CaptureContent, CursorCaptureStep, Layer, RenderTarget,
};
use crate::scene::{ImageCaptureSource, Output, Scale, Scene};
use crate::session::{
    cursor_session_ids, session_ids, Action, ActionView, CaptureFailureReason,
    CopyCaptureCursorSession, CopyCaptureSession, DamageTracker, Frame,
};
use crate::state::{
    cursor_redrawn_output, cursor_session_slot, cursor_without_frame, drop_cursor_session_actions,
    drop_frame_actions, drop_session_actions, kept_cursor_sessions, refresh_actions,
    refreshed_session, refreshed_sessions, request_actions, session_actions, session_slot,
    stop_cursor_actions, with_cursor_request, with_request, without_cursor_session, without_frame,
    without_session, Backend,
};

verus! {

// Delivery and answers.

/// Where a pixel that is shown on an output is in a buffer that keeps the output's native
/// orientation: the output flips as the transform does and makes the quarter turns that are missing
/// to a full turn.
pub open spec fn buffer_pixel(transform: Transform, size: Size, x: int, y: int) -> (int, int) {
    let turns = transform.quarter_turns();
    let shown = if turns % 2 == 1 {
        (size.h as int, size.w as int)
    } else {
        (size.w as int, size.h as int)
    };
    moved_pixel(transform.flips(), (4 - turns) % 4, shown, (x, y))
}

/// A rectangle of an output has a pixel if and only if the rectangle of the buffer has the pixel of
/// the buffer that is shown there.
pub proof fn law_damaged_pixels_are_moved_into_the_buffer(
    rect: Rectangle,
    size: Size,
    transform: Transform,
    x: int,
    y: int,
)
    requires
        fits_in_buffer(rect, size, transform),
    ensures
        ({
            let moved = buffer_pixel(transform, size, x, y);
            rect.has_pixel(x, y) <==> in_buffer(rect, size, transform).has_pixel(moved.0, moved.1)
        }),
{
    let shown = transform.transformed_size(size);
    law_rectangle_moves_with_its_pixels(transform.inverted(), rect, shown, x, y);
}

/// Damage can be moved into the buffer whenever its distances from the far edges of the output are
/// coordinates.
pub proof fn law_damage_with_coordinates_can_be_moved(
    rect: Rectangle,
    size: Size,
    transform: Transform,
)
    requires
        ({
            let shown = transform.transformed_size(size);
            &&& fits_i32(shown.w - rect.loc.x) && fits_i32(shown.w - rect.loc.x - rect.size.w)
            &&& fits_i32(shown.h - rect.loc.y) && fits_i32(shown.h - rect.loc.y - rect.size.h)
        }),
    ensures
        fits_in_buffer(rect, size, transform),
{
}

/// What is shown at a pixel of the output is taken from the pixel of the buffer that the transform
/// puts there, except under a flipped quarter turn.
pub proof fn law_buffer_pixels_are_shown_where_the_transform_puts_them(
    transform: Transform,
    size: Size,
    x: int,
    y: int,
)
    requires
        !(transform is Flipped90),
        !(transform is Flipped270),
    ensures
        ({
            let pixel = moved_pixel(
                transform.flips(),
                transform.quarter_turns(),
                (size.w as int, size.h as int),
                (x, y),
            );
            buffer_pixel(transform, size, pixel.0, pixel.1) == (x, y)
        }),
{
    reveal_with_fuel(moved_pixel, 4);
}

/// A delivered frame is told all of the damage: there are as many rectangles as were damaged, in
/// their order, each with the size that it has in the buffer, and a pixel is damaged on the output
/// if and only if the same rectangle has it in the buffer.
pub proof fn law_every_damaged_rectangle_is_delivered(
    entry: CopyCaptureSession,
    damage: Vec<Rectangle>,
    size: Size,
    transform: Transform,
    buffer: FrameBuffer,
)
    requires
        forall|i: int|
            0 <= i < damage.len() ==> fits_in_buffer(#[trigger] damage@[i], size, transform),
    ensures
        delivery_of(entry, DamageOutcome::Damaged(damage), size, transform, buffer) matches
            DeliveryView::Render { rendering, .. } ==> {
            &&& rendering.damage.len() == damage.len()
            &&& forall|i: int|
                0 <= i < damage.len() ==> (#[trigger] rendering.damage[i]).size == (if
                transform.quarter_turns() % 2 == 1 {
                    Size { w: damage@[i].size.h, h: damage@[i].size.w }
                } else {
                    damage@[i].size
                })
            &&& forall|i: int, x: int, y: int|
                #![trigger damage@[i].has_pixel(x, y)]
                0 <= i < damage.len() ==> (damage@[i].has_pixel(x, y)
                    <==> rendering.damage[i].has_pixel(
                    buffer_pixel(transform, size, x, y).0,
                    buffer_pixel(transform, size, x, y).1,
                ))
        },
{
    if let DeliveryView::Render { rendering, .. } = delivery_of(
        entry,
        DamageOutcome::Damaged(damage),
        size,
        transform,
        buffer,
    ) {
        assert forall|i: int, x: int, y: int|
            #![trigger damage@[i].has_pixel(x, y)]
            0 <= i < damage.len() implies (damage@[i].has_pixel(x, y)
            <==> rendering.damage[i].has_pixel(
            buffer_pixel(transform, size, x, y).0,
            buffer_pixel(transform, size, x, y).1,
        )) by {
            assert(fits_in_buffer(damage@[i], size, transform));
            law_damaged_pixels_are_moved_into_the_buffer(damage@[i], size, transform, x, y);
        }
    }
}

/// A frame without new damage waits, and its session stays as it is.
pub proof fn law_frames_wait_for_damage(
    entry: CopyCaptureSession,
    outcome: DamageOutcome,
    size: Size,
    transform: Transform,
    buffer: FrameBuffer,
)
    requires
        !(outcome is Damaged),
    ensures
        delivery_of(entry, outcome, size, transform, buffer) is Wait,
        delivered_session(entry, DeliveryView::Wait) == entry,
{
}

/// The buffer decides about a damaged frame. With another size the frame fails for the
/// constraints; otherwise it is rendered to shared memory without alpha, or to the dmabuf if that
/// can be had, and fails for an unknown reason with any other buffer.
pub proof fn law_the_buffer_decides(
    entry: CopyCaptureSession,
    frame: Frame,
    damage: Vec<Rectangle>,
    size: Size,
    transform: Transform,
    buffer: FrameBuffer,
)
    requires
        entry.pending_frame == Some(frame),
    ensures
        ({
            let fits = buffer.size is Some && buffer.size->0.w == size.w && buffer.size->0.h
                == size.h;
            let shm = buffer.kind == Some(BufferType::Shm);
            let dma = buffer.kind == Some(BufferType::Dma) && buffer.dmabuf;
            match delivery_of(entry, DamageOutcome::Damaged(damage), size, transform, buffer) {
                DeliveryView::Wait => false,
                DeliveryView::Fail { frame: f, reason } => {
                    &&& f == frame
                    &&& !fits || !(shm || dma)
                    &&& reason is BufferConstraints <==> !fits
                    &&& reason is Unknown <==> fits
                },
                DeliveryView::Render { rendering, target } => {
                    &&& fits && (shm || dma)
                    &&& shm ==> target == BufferTarget::Shm(ShmFormat::Xrgb8888)
                    &&& dma ==> target == BufferTarget::Dma
                    &&& rendering.frame == frame
                    &&& rendering.transform == transform
                },
            }
        }),
{
}

/// A frame that is taken leaves its session without a frame and otherwise as it is, except that a
/// failure makes the tracker start over.
pub proof fn law_taken_frames_leave_the_rest_alone(
    entry: CopyCaptureSession,
    delivery: DeliveryView,
    completion: CompletionView,
)
    requires
        !(delivery is Wait),
    ensures
        delivered_session(entry, delivery).session == entry.session,
        delivered_session(entry, delivery).pending_frame is None,
        delivery is Render ==> delivered_session(entry, delivery).damage_tracker
            == entry.damage_tracker,
        delivery is Fail ==> delivered_session(entry, delivery).damage_tracker
            == DamageTracker::spec_initial(),
        completed_session(entry, completion).session == entry.session,
        completed_session(entry, completion).pending_frame == entry.pending_frame,
        completed_session(entry, completion).damage_tracker == (if completion is Fail {
            DamageTracker::spec_initial()
        } else {
            entry.damage_tracker
        }),
{
}

/// A tracker that starts over is for an empty area at scale one without a transform.
pub proof fn law_initial_tracker_is_for_nothing()
    ensures
        DamageTracker::spec_initial().size.w == 0,
        DamageTracker::spec_initial().size.h == 0,
        DamageTracker::spec_initial().scale.bits == 0x3ff0_0000_0000_0000,
        DamageTracker::spec_initial().transform is Normal,
{
}

/// A fence changes only when the client is told of a success, not what it is told: the frame, the
/// transform and the damage of the rendering, and the presentation time. Without a success the
/// frame fails for an unknown reason.
pub proof fn law_a_fence_only_delays_the_answer(
    rendering: RenderingFrameView,
    outcome: RenderOutcome,
    presentation_time: Duration,
)
    ensures
        match completion_of(rendering, outcome, presentation_time) {
            CompletionView::Fail { frame, reason } => {
                &&& outcome is Failed
                &&& frame == rendering.frame
                &&& reason is Unknown
            },
            CompletionView::Success(success) => {
                &&& outcome == RenderOutcome::Rendered { fence: false }
                &&& success.frame == rendering.frame
                &&& success.transform == rendering.transform
                &&& success.damage == rendering.damage
                &&& success.presentation_time == presentation_time
            },
            CompletionView::SuccessAfterSync(success) => {
                &&& outcome == RenderOutcome::Rendered { fence: true }
                &&& success.frame == rendering.frame
                &&& success.transform == rendering.transform
                &&& success.damage == rendering.damage
                &&& success.presentation_time == presentation_time
            },
        },
{
}

/// A client is told the transform that its source was rendered with, and all of the damage, for the
/// frame that it asked for, whether or not there is a fence.
pub proof fn law_clients_are_told_what_was_rendered(
    entry: CopyCaptureSession,
    damage: Vec<Rectangle>,
    size: Size,
    transform: Transform,
    buffer: FrameBuffer,
    fence: bool,
    presentation_time: Duration,
)
    ensures
        delivery_of(entry, DamageOutcome::Damaged(damage), size, transform, buffer) matches
            DeliveryView::Render { rendering, .. } ==> match completion_of(
            rendering,
            RenderOutcome::Rendered { fence },
            presentation_time,
        ) {
            CompletionView::Fail { .. } => false,
            CompletionView::Success(success) => {
                &&& !fence
                &&& Some(success.frame) == entry.pending_frame
                &&& success.transform == transform
                &&& success.damage.len() == damage.len()
                &&& success.presentation_time == presentation_time
            },
            CompletionView::SuccessAfterSync(success) => {
                &&& fence
                &&& Some(success.frame) == entry.pending_frame
                &&& success.transform == transform
                &&& success.damage.len() == damage.len()
                &&& success.presentation_time == presentation_time
            },
        },
{
}

/// A cursor frame waits without damage. With damage it is rendered with alpha if its buffer has
/// both sides of the constraints, and fails for the constraints otherwise.
pub proof fn law_the_cursor_buffer_decides(
    entry: CopyCaptureCursorSession,
    outcome: DamageOutcome,
    size: Size,
    buffer_size: Option<Size>,
)
    requires
        outcome is Damaged ==> entry.pending_frame is Some,
    ensures
        ({
            let fits = buffer_size is Some && buffer_size->0.w == size.w && buffer_size->0.h
                == size.h;
            match cursor_delivery_of(entry, outcome, size, buffer_size) {
                CursorDeliveryView::Wait => !(outcome is Damaged),
                CursorDeliveryView::Fail { frame, reason } => {
                    &&& outcome is Damaged
                    &&& !fits
                    &&& Some(frame) == entry.pending_frame
                    &&& reason is BufferConstraints
                },
                CursorDeliveryView::Render { rendering, format } => {
                    &&& outcome is Damaged
                    &&& fits
                    &&& Some(rendering.frame) == entry.pending_frame
                    &&& rendering.size == size
                    &&& format is Argb8888
                },
            }
        }),
{
}

/// A cursor frame that is taken leaves its session without a frame and otherwise as it is, except
/// that a failure makes the tracker start over.
pub proof fn law_taken_cursor_frames_leave_the_rest_alone(
    entry: CopyCaptureCursorSession,
    delivery: CursorDeliveryView,
    completion: CompletionView,
)
    ensures
        delivery is Wait ==> delivered_cursor_session(entry, delivery) == entry,
        !(delivery is Wait) ==> delivered_cursor_session(entry, delivery).pending_frame is None,
        delivered_cursor_session(entry, delivery).session == entry.session,
        delivered_cursor_session(entry, delivery).damage_tracker == (if delivery is Fail {
            DamageTracker::spec_initial()
        } else {
            entry.damage_tracker
        }),
        completed_cursor_session(entry, completion).session == entry.session,
        completed_cursor_session(entry, completion).pending_frame == entry.pending_frame,
        completed_cursor_session(entry, completion).damage_tracker == (if completion is Fail {
            DamageTracker::spec_initial()
        } else {
            entry.damage_tracker
        }),
{
}

/// A rendered cursor frame succeeds at once, without a transform, at the given time and with one
/// damaged rectangle that has every pixel of the image. Otherwise it fails for an unknown reason.
pub proof fn law_cursor_frames_are_damaged_as_a_whole(
    rendering: RenderingCursorFrameView,
    rendered: bool,
    presentation_time: Duration,
)
    ensures
        match cursor_completion_of(rendering, rendered, presentation_time) {
            CompletionView::Fail { frame, reason } => {
                &&& !rendered
                &&& frame == rendering.frame
                &&& reason is Unknown
            },
            CompletionView::Success(success) => {
                &&& rendered
                &&& success.frame == rendering.frame
                &&& success.transform is Normal
                &&& success.presentation_time == presentation_time
                &&& success.damage.len() == 1
                &&& success.damage[0].size == rendering.size
                &&& forall|x: int, y: int|
                    0 <= x < rendering.size.w && 0 <= y < rendering.size.h
                        ==> #[trigger] success.damage[0].has_pixel(x, y)
            },
            CompletionView::SuccessAfterSync(_) => false,
        },
{
}

/// The contents of a delivery are what the application gets.
pub proof fn law_deliveries_hold_what_they_say(delivery: Delivery, cursor_delivery: CursorDelivery)
    ensures
        match delivery {
            Delivery::Wait => delivery@ is Wait,
            Delivery::Fail { frame, reason } => delivery@ == (DeliveryView::Fail { frame, reason }),
            Delivery::Render { rendering, target } => delivery@ matches DeliveryView::Render {
                rendering: r,
                target: t,
            } && r == rendering@ && t == target,
        },
        match cursor_delivery {
            CursorDelivery::Wait => cursor_delivery@ is Wait,
            CursorDelivery::Fail { frame, reason } => cursor_delivery@
                == (CursorDeliveryView::Fail { frame, reason }),
            CursorDelivery::Render { rendering, format } => cursor_delivery@ matches
                CursorDeliveryView::Render { rendering: r, format: f } && r == rendering@ && f
                == format,
        },
{
}

/// The contents of a completion are what the client is told.
pub proof fn law_completions_hold_what_they_say(completion: Completion)
    ensures
        match (completion, completion@) {
            (Completion::Fail { frame, reason }, CompletionView::Fail { frame: f, reason: r }) => {
                &&& f == frame
                &&& r == reason
            },
            (Completion::Success(a), CompletionView::Success(b)) => {
                &&& b.frame == a.frame
                &&& b.transform == a.transform
                &&& b.damage == a.damage@
                &&& b.presentation_time == a.presentation_time
            },
            (Completion::SuccessAfterSync(a), CompletionView::SuccessAfterSync(b)) => {
                &&& b.frame == a.frame
                &&& b.transform == a.transform
                &&& b.damage == a.damage@
                &&& b.presentation_time == a.presentation_time
            },
            _ => false,
        },
{
}

/// The contents of an action are what the application does.
pub proof fn law_actions_hold_what_they_say(action: Action)
    ensures
        match (action, action@) {
            (Action::FailFrame { frame, reason }, ActionView::FailFrame { frame: f, reason: r }) => {
                &&& f == frame
                &&& r == reason
            },
            (Action::DropFrame { frame }, ActionView::DropFrame { frame: f }) => f == frame,
            (
                Action::UpdateConstraints { session, constraints },
                ActionView::UpdateConstraints { session: s, constraints: c },
            ) => s == session && c == constraints@,
            (
                Action::DropSession { session, pending_frame },
                ActionView::DropSession { session: s, pending_frame: p },
            ) => s == session && p == pending_frame,
            (
                Action::UpdateCursorConstraints { session, constraints },
                ActionView::UpdateCursorConstraints { session: s, constraints: c },
            ) => s == session && c == constraints@,
            (
                Action::SetCursorHotspot { session, hotspot },
                ActionView::SetCursorHotspot { session: s, hotspot: h },
            ) => s == session && h == hotspot,
            (
                Action::SetCursorPos { session, pos },
                ActionView::SetCursorPos { session: s, pos: p },
            ) => s == session && p == pos,
            (
                Action::DropCursorSession { session, pending_frame },
                ActionView::DropCursorSession { session: s, pending_frame: p },
            ) => s == session && p == pending_frame,
            (Action::QueueRedraw { output }, ActionView::QueueRedraw { output: o }) => o == output,
            (Action::Cleanup, ActionView::Cleanup) => true,
            _ => false,
        },
{
}

// Redraws.

/// A session for an output is captured by a redraw exactly if a frame waits in it, its output is
/// there and is the one that is redrawn, and the output has a mode. It is then rendered for a screen
/// capture with the cursor that its client wants, at the mode, the scale and the transform that the
/// output has.
pub proof fn law_how_an_output_is_captured(
    scene: Scene,
    entry: CopyCaptureSession,
    output: Output,
    id: u64,
)
    requires
        entry.session.handle.source.output == Some(id),
    ensures
        ({
            let captured = entry.pending_frame is Some && scene.output_state@.contains_key(id)
                && scene.output_state@[id].id == output.id && output.current_mode is Some;
            match capture_on(scene, entry, output) {
                Some(c) => {
                    &&& captured
                    &&& Some(c.size) == output.current_mode
                    &&& c.scale == output.scale
                    &&& c.transform == output.transform
                    &&& c.content == (CaptureContent::Output {
                        target: RenderTarget::ScreenCapture,
                        draw_cursor: entry.session.draw_cursor,
                    })
                },
                None => !captured,
            }
        }),
{
}

/// A session for a window is captured by a redraw exactly if a frame waits in it, the surface is
/// alive and its window is in the layout on the output that is redrawn. It is then rendered at the
/// size of its bounding box and the scale of the output, without a transform. The pointer is drawn
/// if the client wants it and it belongs there, moved so that the corner of the window comes to the
/// origin.
pub proof fn law_how_a_window_is_captured(scene: Scene, entry: CopyCaptureSession, output: Output)
    requires
        entry.session.handle.source.output is None,
    ensures
        ({
            let toplevel = entry.session.handle.source.toplevel;
            let mapped = scene.windows@[toplevel->0];
            let captured = entry.pending_frame is Some && toplevel is Some
                && scene.alive_surfaces@.contains(toplevel->0) && scene.windows@.contains_key(
                toplevel->0,
            ) && mapped.output == Some(output.id);
            match capture_on(scene, entry, output) {
                Some(c) => {
                    &&& captured
                    &&& c.size == mapped.bbox.size
                    &&& c.scale == output.scale
                    &&& c.transform is Normal
                    &&& c.content matches CaptureContent::Toplevel { surface, pointer_offset }
                        && Some(surface) == toplevel && match pointer_offset {
                        Some(offset) => {
                            &&& entry.session.draw_cursor
                            &&& mapped.pointer_origin matches Some(origin) && (origin.x != i32::MIN
                                ==> origin.x + offset.x == 0) && (origin.y != i32::MIN ==> origin.y
                                + offset.y == 0) && (origin.x == i32::MIN ==> offset.x == i32::MAX)
                                && (origin.y == i32::MIN ==> offset.y == i32::MAX)
                        },
                        None => !entry.session.draw_cursor || mapped.pointer_origin is None,
                    }
                },
                None => !captured,
            }
        }),
{
}

/// The layers of a capture, whatever it shows, are exactly those that it says, and each is stacked
/// below those before it.
pub proof fn law_layers_are_stacked_in_order<E>(
    target: RenderTarget,
    draw_cursor: bool,
    layers: Seq<Vec<E>>,
    below: Vec<E>,
)
    ensures
        (CaptureContent::Output { target, draw_cursor }).layer_order() == seq![
            Layer::Output { target, draw_cursor },
        ],
        stacked(Seq::<Vec<E>>::empty()) == Seq::<E>::empty(),
        stacked(layers.push(below)) == stacked(layers) + below@,
    decreases layers.len(),
{
    let view = |layer: Vec<E>| layer@;
    let all = layers.push(below).map_values(view);
    assert(Seq::<Vec<E>>::empty().map_values(view) == Seq::<Seq<E>>::empty());
    if layers.len() == 0 {
        assert(layers.map_values(view) == Seq::<Seq<E>>::empty());
        assert(all.drop_first() == Seq::<Seq<E>>::empty());
        assert(all.first() == below@);
        assert(all.drop_first().flatten() == Seq::<E>::empty());
        assert(all.flatten() == below@);
    } else {
        let rest = layers.drop_first();
        law_layers_are_stacked_in_order(target, draw_cursor, rest, below);
        assert(all.drop_first() == rest.push(below).map_values(view));
        assert(layers.map_values(view).drop_first() == rest.map_values(view));
        assert(all.first() == layers[0]@);
        assert(layers.map_values(view).first() == layers[0]@);
        assert(layers[0]@ + (stacked(rest) + below@) == (layers[0]@ + stacked(rest)) + below@);
    }
}

/// A tracker was made for another mode: another size, another scale or another transform.
pub open spec fn mode_differs(
    tracker: DamageTracker,
    size: Size,
    scale: Scale,
    transform: Transform,
) -> bool {
    ||| tracker.size.w != size.w
    ||| tracker.size.h != size.h
    ||| !scale.equals(tracker.scale)
    ||| tracker.transform != transform
}

/// A tracker is used on exactly while its size, its scale and its transform are those of the mode;
/// otherwise the new one has all three of the mode.
pub proof fn law_trackers_fit_the_mode(
    tracker: DamageTracker,
    size: Size,
    scale: Scale,
    transform: Transform,
)
    ensures
        tracker.made_for(size, scale, transform) == !mode_differs(tracker, size, scale, transform),
        !mode_differs(tracker, size, scale, transform) ==> tracker.fitted(size, scale, transform)
            == tracker,
        mode_differs(tracker, size, scale, transform) ==> ({
            let fresh = tracker.fitted(size, scale, transform);
            &&& fresh.size == size
            &&& fresh.scale == scale
            &&& fresh.transform == transform
        }),
{
}

/// Each job of a redraw says that the tracker of its session is made anew if and only if the
/// tracker that the session had was made for another size, another scale or another transform than
/// those of the capture.
pub proof fn law_trackers_are_made_anew_when_the_mode_changed(
    scene: Scene,
    sessions: Seq<CopyCaptureSession>,
    output: Output,
)
    requires
        sessions.len() <= usize::MAX,
    ensures
        forall|k: int|
            #![trigger capture_jobs(scene, sessions, output)[k]]
            0 <= k < capture_jobs(scene, sessions, output).len() ==> {
                let job = capture_jobs(scene, sessions, output)[k];
                &&& job.index < sessions.len()
                &&& job.fresh_tracker == mode_differs(
                    sessions[job.index as int].damage_tracker,
                    job.capture.size,
                    job.capture.scale,
                    job.capture.transform,
                )
            },
    decreases sessions.len(),
{
    if sessions.len() > 0 {
        let rest = sessions.drop_last();
        let jobs = capture_jobs(scene, sessions, output);
        let before = capture_jobs(scene, rest, output);
        law_trackers_are_made_anew_when_the_mode_changed(scene, rest, output);
        assert forall|k: int| #![trigger jobs[k]] 0 <= k < jobs.len() implies {
            &&& jobs[k].index < sessions.len()
            &&& jobs[k].fresh_tracker == mode_differs(
                sessions[jobs[k].index as int].damage_tracker,
                jobs[k].capture.size,
                jobs[k].capture.scale,
                jobs[k].capture.transform,
            )
        } by {
            if k < before.len() {
                assert(jobs[k] == before[k]);
                assert(rest[jobs[k].index as int] == sessions[jobs[k].index as int]);
            }
        }
    }
}

/// A redraw changes nothing of a session but its tracker. The tracker of a session that is captured
/// is made anew if it was made for another mode than that of the capture, with that mode; every
/// other tracker stays.
pub proof fn law_redraws_change_only_trackers(
    scene: Scene,
    sessions: Seq<CopyCaptureSession>,
    output: Output,
    i: int,
)
    requires
        0 <= i < sessions.len(),
    ensures
        fitted_sessions(scene, sessions, output).len() == sessions.len(),
        ({
            let before = sessions[i];
            let after = fitted_sessions(scene, sessions, output)[i];
            &&& after.session == before.session
            &&& after.pending_frame == before.pending_frame
            &&& match capture_on(scene, before, output) {
                Some(c) => if mode_differs(before.damage_tracker, c.size, c.scale, c.transform) {
                    &&& after.damage_tracker.size == c.size
                    &&& after.damage_tracker.scale == c.scale
                    &&& after.damage_tracker.transform == c.transform
                } else {
                    after.damage_tracker == before.damage_tracker
                },
                None => after.damage_tracker == before.damage_tracker,
            }
        }),
{
}

/// The output of a cursor session: the one of its source, if it is there.
pub open spec fn cursor_output(scene: Scene, source: ImageCaptureSource) -> Option<Output> {
    if source.output is Some && scene.output_state@.contains_key(source.output->0) {
        Some(scene.output_state@[source.output->0])
    } else {
        None
    }
}

/// A redraw has to do with a cursor session exactly if a frame waits in it and its output is there
/// and is the one that is redrawn. A session with constraints is captured at their size and the
/// scale of the output, with a new tracker if its own is for another mode; the frame of a session
/// without constraints fails for them. Nothing else of the session changes.
pub proof fn law_what_a_redraw_does_to_a_cursor_session(
    scene: Scene,
    entry: CopyCaptureCursorSession,
    index: usize,
    output: Output,
)
    ensures
        ({
            let own = cursor_output(scene, entry.session.handle.source);
            let concerned = entry.pending_frame is Some && own is Some && own->0.id == output.id;
            let after = stepped_cursor_session(scene, entry, output);
            &&& after.session == entry.session
            &&& match cursor_step(scene, entry, index, output) {
                Some(CursorCaptureStep::Capture { index: i, size, scale, fresh_tracker }) => {
                    &&& concerned
                    &&& i == index
                    &&& entry.session.current_size == Some(size)
                    &&& scale == output.scale
                    &&& fresh_tracker == mode_differs(
                        entry.damage_tracker,
                        size,
                        output.scale,
                        Transform::Normal,
                    )
                    &&& after.pending_frame == entry.pending_frame
                    &&& !fresh_tracker ==> after.damage_tracker == entry.damage_tracker
                    &&& fresh_tracker ==> after.damage_tracker.size == size
                    &&& fresh_tracker ==> after.damage_tracker.scale == output.scale
                    &&& fresh_tracker ==> after.damage_tracker.transform is Normal
                },
                Some(CursorCaptureStep::Fail { frame, reason }) => {
                    &&& concerned
                    &&& entry.session.current_size is None
                    &&& entry.pending_frame == Some(frame)
                    &&& reason is BufferConstraints
                    &&& after.pending_frame is None
                    &&& after.damage_tracker == entry.damage_tracker
                },
                None => !concerned && after == entry,
            }
        }),
{
}

/// The steps of a redraw follow the sessions: each session adds its step, if it has one, after
/// those of the sessions before it, and sessions do not influence each other.
pub proof fn law_cursor_steps_follow_the_sessions(
    scene: Scene,
    sessions: Seq<CopyCaptureCursorSession>,
    entry: CopyCaptureCursorSession,
    output: Output,
)
    ensures
        cursor_steps(scene, Seq::empty(), output) == Seq::<CursorCaptureStep>::empty(),
        cursor_steps(scene, sessions.push(entry), output) == cursor_steps(scene, sessions, output)
            + (match cursor_step(scene, entry, sessions.len() as usize, output) {
            Some(step) => seq![step],
            None => Seq::empty(),
        }),
        stepped_cursor_sessions(scene, Seq::empty(), output) == Seq::<
            CopyCaptureCursorSession,
        >::empty(),
        stepped_cursor_sessions(scene, sessions.push(entry), output) == stepped_cursor_sessions(
            scene,
            sessions,
            output,
        ).push(stepped_cursor_session(scene, entry, output)),
{
    assert(sessions.push(entry).drop_last() == sessions);
}

// Requests.

/// A frame is queued in the first session with the identity that was asked for, exactly if nothing
/// waits there.
pub proof fn law_frames_are_queued_in_their_session(
    sessions: Seq<CopyCaptureSession>,
    id: u64,
    i: int,
)
    ensures
        session_slot(sessions, id) == Some(i) <==> {
            &&& 0 <= i < sessions.len()
            &&& sessions[i].session.handle.id == id
            &&& sessions[i].pending_frame is None
            &&& forall|j: int| 0 <= j < i ==> (#[trigger] sessions[j]).session.handle.id != id
        },
{
    let ids = session_ids(sessions);
    ids.index_of_first_ensures(id);
    if session_slot(sessions, id) == Some(i) {
        assert forall|j: int| 0 <= j < i implies (#[trigger] sessions[j]).session.handle.id
            != id by {
            assert(ids[j] != id);
        }
    }
    if 0 <= i < sessions.len() && sessions[i].session.handle.id == id {
        assert(ids[i] == id);
        let k = ids.index_of_first(id)->0;
        assert(ids[k] == id);
        assert(sessions[k].session.handle.id == id);
    }
}

/// A cursor frame is queued in the first cursor session with the identity that was asked for,
/// exactly if nothing waits there.
pub proof fn law_cursor_frames_are_queued_in_their_session(
    sessions: Seq<CopyCaptureCursorSession>,
    id: u64,
    i: int,
)
    ensures
        cursor_session_slot(sessions, id) == Some(i) <==> {
            &&& 0 <= i < sessions.len()
            &&& sessions[i].session.handle.id == id
            &&& sessions[i].pending_frame is None
            &&& forall|j: int| 0 <= j < i ==> (#[trigger] sessions[j]).session.handle.id != id
        },
{
    let ids = cursor_session_ids(sessions);
    ids.index_of_first_ensures(id);
    if cursor_session_slot(sessions, id) == Some(i) {
        assert forall|j: int| 0 <= j < i implies (#[trigger] sessions[j]).session.handle.id
            != id by {
            assert(ids[j] != id);
        }
    }
    if 0 <= i < sessions.len() && sessions[i].session.handle.id == id {
        assert(ids[i] == id);
        let k = ids.index_of_first(id)->0;
        assert(ids[k] == id);
        assert(sessions[k].session.handle.id == id);
    }
}

/// A request changes nothing but the frame that waits in the session where it is queued.
pub proof fn law_requests_change_only_their_session(
    sessions: Seq<CopyCaptureSession>,
    id: u64,
    frame: Frame,
    i: int,
)
    requires
        0 <= i < sessions.len(),
    ensures
        with_request(sessions, id, frame).len() == sessions.len(),
        ({
            let after = with_request(sessions, id, frame)[i];
            &&& after.session == sessions[i].session
            &&& after.damage_tracker == sessions[i].damage_tracker
            &&& after.pending_frame == (if session_slot(sessions, id) == Some(i) {
                Some(frame)
            } else {
                sessions[i].pending_frame
            })
        }),
{
    session_ids(sessions).index_of_first_ensures(id);
}

/// A request changes nothing but the frame that waits in the cursor session where it is queued.
pub proof fn law_cursor_requests_change_only_their_session(
    sessions: Seq<CopyCaptureCursorSession>,
    id: u64,
    frame: Frame,
    i: int,
)
    requires
        0 <= i < sessions.len(),
    ensures
        with_cursor_request(sessions, id, frame).len() == sessions.len(),
        ({
            let after = with_cursor_request(sessions, id, frame)[i];
            &&& after.session == sessions[i].session
            &&& after.damage_tracker == sessions[i].damage_tracker
            &&& after.pending_frame == (if cursor_session_slot(sessions, id) == Some(i) {
                Some(frame)
            } else {
                sessions[i].pending_frame
            })
        }),
{
    cursor_session_ids(sessions).index_of_first_ensures(id);
}

/// A queued request asks for one redraw, of the output that it is given, or for nothing; a refused
/// one fails its frame for an unknown reason and asks for nothing else.
pub proof fn law_requests_ask_for_a_redraw_or_fail(
    slot: Option<int>,
    frame: Frame,
    output: Option<u64>,
)
    ensures
        ({
            let actions = request_actions(slot, frame, output);
            &&& slot is None ==> actions.len() == 1 && actions[0] == (ActionView::FailFrame {
                frame,
                reason: CaptureFailureReason::Unknown,
            })
            &&& slot is Some && output is None ==> actions.len() == 0
            &&& slot is Some && output is Some ==> actions.len() == 1 && actions[0]
                == (ActionView::QueueRedraw { output: output->0 })
        }),
{
}

/// A cursor frame asks for a redraw of the output of its source, if that is there; a window has
/// none.
pub proof fn law_cursor_frames_redraw_their_output(scene: Scene, source: ImageCaptureSource)
    requires
        scene.wf(),
    ensures
        match cursor_redrawn_output(scene, source) {
            Some(id) => source.output == Some(id) && scene.output_state@.contains_key(id),
            None => source.output is None || !scene.output_state@.contains_key(source.output->0),
        },
{
}

/// An aborted frame is let go of exactly where it waits; sessions and trackers stay.
pub proof fn law_aborts_change_only_where_the_frame_waits(
    sessions: Seq<CopyCaptureSession>,
    cursor_sessions: Seq<CopyCaptureCursorSession>,
    frame: Frame,
)
    ensures
        without_frame(sessions, frame).len() == sessions.len(),
        forall|i: int|
            0 <= i < sessions.len() ==> {
                let after = #[trigger] without_frame(sessions, frame)[i];
                &&& after.session == sessions[i].session
                &&& after.damage_tracker == sessions[i].damage_tracker
                &&& after.pending_frame == (if sessions[i].pending_frame == Some(frame) {
                    None
                } else {
                    sessions[i].pending_frame
                })
            },
        cursor_without_frame(cursor_sessions, frame).len() == cursor_sessions.len(),
        forall|i: int|
            0 <= i < cursor_sessions.len() ==> {
                let after = #[trigger] cursor_without_frame(cursor_sessions, frame)[i];
                &&& after.session == cursor_sessions[i].session
                &&& after.damage_tracker == cursor_sessions[i].damage_tracker
                &&& after.pending_frame == (if cursor_sessions[i].pending_frame == Some(frame) {
                    None
                } else {
                    cursor_sessions[i].pending_frame
                })
            },
{
}

/// An abort drops the frame once for each session that it waits in, and nothing else; lists of
/// sessions are gone through one after the other.
pub proof fn law_aborts_drop_the_frame(
    a: Seq<Option<Frame>>,
    b: Seq<Option<Frame>>,
    waits: Option<Frame>,
    frame: Frame,
)
    ensures
        drop_frame_actions(a + b, frame) == drop_frame_actions(a, frame) + drop_frame_actions(
            b,
            frame,
        ),
        drop_frame_actions(seq![waits], frame) == (if waits == Some(frame) {
            seq![ActionView::DropFrame { frame }]
        } else {
            Seq::empty()
        }),
        drop_frame_actions(Seq::empty(), frame) == Seq::<ActionView>::empty(),
    decreases b.len(),
{
    reveal_with_fuel(drop_frame_actions, 2);
    assert(seq![waits].drop_last() == Seq::<Option<Frame>>::empty());
    if b.len() == 0 {
        assert(a + b == a);
    } else {
        law_aborts_drop_the_frame(a, b.drop_last(), waits, frame);
        assert((a + b).drop_last() == a + b.drop_last());
    }
}

/// Exactly the sessions with the identity of the destroyed one go, each with the frame that waits
/// in it; the others stay as they are and in their order.
pub proof fn law_destroying_removes_exactly_the_session(
    a: Seq<CopyCaptureSession>,
    b: Seq<CopyCaptureSession>,
    entry: CopyCaptureSession,
    id: u64,
)
    ensures
        without_session(a + b, id) == without_session(a, id) + without_session(b, id),
        drop_session_actions(a + b, id) == drop_session_actions(a, id) + drop_session_actions(
            b,
            id,
        ),
        without_session(seq![entry], id) == (if entry.session.handle.id == id {
            Seq::empty()
        } else {
            seq![entry]
        }),
        drop_session_actions(seq![entry], id) == (if entry.session.handle.id == id {
            seq![ActionView::DropSession { session: id, pending_frame: entry.pending_frame }]
        } else {
            Seq::empty()
        }),
        without_session(Seq::empty(), id) == Seq::<CopyCaptureSession>::empty(),
        drop_session_actions(Seq::empty(), id) == Seq::<ActionView>::empty(),
    decreases b.len(),
{
    reveal_with_fuel(drop_session_actions, 2);
    reveal(Seq::filter);
    assert(seq![entry].drop_last() == Seq::<CopyCaptureSession>::empty());
    assert(without_session(Seq::empty(), id) == Seq::<CopyCaptureSession>::empty());
    if b.len() == 0 {
        assert(a + b == a);
    } else {
        law_destroying_removes_exactly_the_session(a, b.drop_last(), entry, id);
        assert((a + b).drop_last() == a + b.drop_last());
    }
}

/// Exactly the cursor sessions with the identity of the destroyed one go, each with the frame that
/// waits in it; the others stay as they are and in their order.
pub proof fn law_destroying_removes_exactly_the_cursor_session(
    a: Seq<CopyCaptureCursorSession>,
    b: Seq<CopyCaptureCursorSession>,
    entry: CopyCaptureCursorSession,
    id: u64,
)
    ensures
        without_cursor_session(a + b, id) == without_cursor_session(a, id)
            + without_cursor_session(b, id),
        drop_cursor_session_actions(a + b, id) == drop_cursor_session_actions(a, id)
            + drop_cursor_session_actions(b, id),
        without_cursor_session(seq![entry], id) == (if entry.session.handle.id == id {
            Seq::empty()
        } else {
            seq![entry]
        }),
        drop_cursor_session_actions(seq![entry], id) == (if entry.session.handle.id == id {
            seq![ActionView::DropCursorSession { session: id, pending_frame: entry.pending_frame }]
        } else {
            Seq::empty()
        }),
        without_cursor_session(Seq::empty(), id) == Seq::<CopyCaptureCursorSession>::empty(),
        drop_cursor_session_actions(Seq::empty(), id) == Seq::<ActionView>::empty(),
    decreases b.len(),
{
    reveal_with_fuel(drop_cursor_session_actions, 2);
    reveal(Seq::filter);
    assert(seq![entry].drop_last() == Seq::<CopyCaptureCursorSession>::empty());
    assert(without_cursor_session(Seq::empty(), id) == Seq::<CopyCaptureCursorSession>::empty());
    if b.len() == 0 {
        assert(a + b == a);
    } else {
        law_destroying_removes_exactly_the_cursor_session(a, b.drop_last(), entry, id);
        assert((a + b).drop_last() == a + b.drop_last());
    }
}

// Constraints and refreshes.

/// The constraints for a capture have the size that is captured and shared memory without alpha.
/// They offer dmabufs exactly if there is a render node and the renderer has formats: on that node,
/// and with the renderer's formats.
pub proof fn law_constraints_offer_what_the_backend_has(backend: Backend, size: Size)
    ensures
        ({
            let constraints = backend.constraints(size);
            let offered = backend.primary_render_node is Some && backend.render_formats is Some
                && backend.render_formats->0.len() > 0;
            &&& constraints.size.w == size.w
            &&& constraints.size.h == size.h
            &&& constraints.shm.len() == 1
            &&& constraints.shm[0] is Xrgb8888
            &&& match constraints.dma {
                Some(dma) => {
                    &&& offered
                    &&& Some(dma.node) == backend.primary_render_node
                    &&& dma.formats == advertised(backend.render_formats->0@)
                },
                None => !offered,
            }
        }),
{
}

/// What a refresh does to a session: without a client or a size of its source the session goes,
/// with the frame that waits in it. With the size of its constraints it stays as it is and is sent
/// nothing. With another size it is sent the constraints that are computed for its source, and then
/// the failure of the frame that waits in it; it keeps its identity, its tracker and what its client
/// wants.
pub proof fn law_what_a_refresh_does_to_a_session(
    scene: Scene,
    backend: Backend,
    entry: CopyCaptureSession,
)
    ensures
        ({
            let source_size = scene.source_size(entry.session.handle.source);
            let kept = entry.session.alive && source_size is Some;
            let changed = entry.session.current_size != source_size;
            let actions = session_actions(scene, backend, entry);
            match refreshed_session(scene, entry) {
                None => {
                    &&& !kept
                    &&& actions.len() == 1
                    &&& actions[0] == (ActionView::DropSession {
                        session: entry.session.handle.id,
                        pending_frame: entry.pending_frame,
                    })
                },
                Some(after) => {
                    &&& kept
                    &&& after.session.handle == entry.session.handle
                    &&& after.session.alive
                    &&& after.session.draw_cursor == entry.session.draw_cursor
                    &&& after.session.current_size == source_size
                    &&& after.damage_tracker == entry.damage_tracker
                    &&& !changed ==> after.pending_frame == entry.pending_frame && actions.len()
                        == 0
                    &&& changed ==> after.pending_frame is None
                    &&& changed ==> actions.len() == 1 + (if entry.pending_frame is Some {
                        1int
                    } else {
                        0int
                    })
                    &&& changed ==> actions[0] == (ActionView::UpdateConstraints {
                        session: entry.session.handle.id,
                        constraints: backend.constraints(source_size->0),
                    })
                    &&& changed && entry.pending_frame is Some ==> actions[1]
                        == (ActionView::FailFrame {
                        frame: entry.pending_frame->0,
                        reason: CaptureFailureReason::BufferConstraints,
                    })
                },
            }
        }),
{
}

/// Whatever constraints a refresh sends are those that are computed for the source of the session
/// that they are sent to: the size of the source, shared memory without alpha, and the dmabufs of
/// the renderer whenever there is a render node and the renderer has formats.
pub proof fn law_refreshes_send_the_constraints_of_the_source(
    scene: Scene,
    backend: Backend,
    sessions: Seq<CopyCaptureSession>,
)
    ensures
        forall|k: int|
            #![trigger refresh_actions(scene, backend, sessions)[k]]
            0 <= k < refresh_actions(scene, backend, sessions).len() ==> (refresh_actions(
                scene,
                backend,
                sessions,
            )[k] matches ActionView::UpdateConstraints { session, constraints } ==> {
                &&& exists|i: int|
                    0 <= i < sessions.len() && (#[trigger] sessions[i]).session.handle.id == session
                        && scene.source_size(sessions[i].session.handle.source) == Some(
                        constraints.size,
                    )
                &&& constraints.shm == seq![ShmFormat::Xrgb8888]
                &&& match (backend.primary_render_node, backend.render_formats) {
                    (Some(node), Some(formats)) => if formats.len() > 0 {
                        constraints.dma matches Some(dma) && dma.node == node && dma.formats
                            == advertised(formats@)
                    } else {
                        constraints.dma is None
                    },
                    _ => constraints.dma is None,
                }
            }),
    decreases sessions.len(),
{
    if sessions.len() > 0 {
        let rest = sessions.drop_last();
        let before = refresh_actions(scene, backend, rest);
        let own = session_actions(scene, backend, sessions.last());
        let all = refresh_actions(scene, backend, sessions);
        law_refreshes_send_the_constraints_of_the_source(scene, backend, rest);
        assert forall|k: int| #![trigger all[k]] 0 <= k < all.len() implies (all[k] matches
            ActionView::UpdateConstraints { session, constraints } ==> {
            &&& exists|i: int|
                0 <= i < sessions.len() && (#[trigger] sessions[i]).session.handle.id == session
                    && scene.source_size(sessions[i].session.handle.source) == Some(
                    constraints.size,
                )
            &&& constraints.shm == seq![ShmFormat::Xrgb8888]
            &&& match (backend.primary_render_node, backend.render_formats) {
                (Some(node), Some(formats)) => if formats.len() > 0 {
                    constraints.dma matches Some(dma) && dma.node == node && dma.formats
                        == advertised(formats@)
                } else {
                    constraints.dma is None
                },
                _ => constraints.dma is None,
            }
        }) by {
            if let ActionView::UpdateConstraints { session, constraints } = all[k] {
                if k < before.len() {
                    assert(all[k] == before[k]);
                    let i = choose|i: int|
                        0 <= i < rest.len() && (#[trigger] rest[i]).session.handle.id == session
                            && scene.source_size(rest[i].session.handle.source) == Some(
                            constraints.size,
                        );
                    assert(sessions[i] == rest[i]);
                } else {
                    assert(all[k] == own[k - before.len()]);
                    let i = sessions.len() - 1;
                    assert(sessions[i].session.handle.id == session);
                }
            }
        }
    }
}

/// Sessions are refreshed one after the other and do not influence each other.
pub proof fn law_refreshes_go_through_the_sessions(
    scene: Scene,
    backend: Backend,
    a: Seq<CopyCaptureSession>,
    b: Seq<CopyCaptureSession>,
    entry: CopyCaptureSession,
)
    ensures
        refreshed_sessions(scene, a + b) == refreshed_sessions(scene, a) + refreshed_sessions(
            scene,
            b,
        ),
        refresh_actions(scene, backend, a + b) == refresh_actions(scene, backend, a)
            + refresh_actions(scene, backend, b),
        refreshed_sessions(scene, seq![entry]) == (match refreshed_session(scene, entry) {
            Some(after) => seq![after],
            None => Seq::empty(),
        }),
        refresh_actions(scene, backend, seq![entry]) == session_actions(scene, backend, entry),
        refreshed_sessions(scene, Seq::empty()) == Seq::<CopyCaptureSession>::empty(),
        refresh_actions(scene, backend, Seq::empty()) == Seq::<ActionView>::empty(),
    decreases b.len(),
{
    reveal_with_fuel(refreshed_sessions, 2);
    reveal_with_fuel(refresh_actions, 2);
    assert(seq![entry].drop_last() == Seq::<CopyCaptureSession>::empty());
    if b.len() == 0 {
        assert(a + b == a);
    } else {
        law_refreshes_go_through_the_sessions(scene, backend, a, b.drop_last(), entry);
        assert((a + b).drop_last() == a + b.drop_last());
    }
}

/// A refresh stops exactly the cursor sessions whose client is gone or whose source is: an output
/// that is not there, or a surface that is not alive. Each goes with the frame that waits in it, and
/// the others stay as they are and in their order.
pub proof fn law_refreshes_stop_exactly_the_dead_cursor_sessions(
    scene: Scene,
    a: Seq<CopyCaptureCursorSession>,
    b: Seq<CopyCaptureCursorSession>,
    entry: CopyCaptureCursorSession,
)
    ensures
        kept_cursor_sessions(scene, a + b) == kept_cursor_sessions(scene, a)
            + kept_cursor_sessions(scene, b),
        stop_cursor_actions(scene, a + b) == stop_cursor_actions(scene, a) + stop_cursor_actions(
            scene,
            b,
        ),
        ({
            let source = entry.session.handle.source;
            let there = match source.output {
                Some(id) => scene.output_state@.contains_key(id),
                None => source.toplevel is Some && scene.alive_surfaces@.contains(
                    source.toplevel->0,
                ),
            };
            if entry.session.alive && there {
                &&& kept_cursor_sessions(scene, seq![entry]) == seq![entry]
                &&& stop_cursor_actions(scene, seq![entry]) == Seq::<ActionView>::empty()
            } else {
                &&& kept_cursor_sessions(scene, seq![entry]) == Seq::<
                    CopyCaptureCursorSession,
                >::empty()
                &&& stop_cursor_actions(scene, seq![entry]) == seq![
                    ActionView::DropCursorSession {
                        session: entry.session.handle.id,
                        pending_frame: entry.pending_frame,
                    },
                ]
            }
        }),
        kept_cursor_sessions(scene, Seq::empty()) == Seq::<CopyCaptureCursorSession>::empty(),
        stop_cursor_actions(scene, Seq::empty()) == Seq::<ActionView>::empty(),
    decreases b.len(),
{
    reveal_with_fuel(stop_cursor_actions, 2);
    reveal(Seq::filter);
    assert(seq![entry].drop_last() == Seq::<CopyCaptureCursorSession>::empty());
    assert(kept_cursor_sessions(scene, Seq::empty()) == Seq::<CopyCaptureCursorSession>::empty());
    if b.len() == 0 {
        assert(a + b == a);
    } else {
        law_refreshes_stop_exactly_the_dead_cursor_sessions(scene, a, b.drop_last(), entry);
        assert((a + b).drop_last() == a + b.drop_last());
    }
}

/// What a cursor session is told by a refresh. With an output that is there, has a place and a mode,
/// it is told last where the cursor is, if the cursor is on the output, and before that the hotspot.
/// Only if the cursor image has another size than its constraints, it is told new constraints
/// before: the size of the image, shared memory with alpha and no dmabufs; and before these the
/// failure of the frame that waits in it. Without such an output it is told that the cursor is not
/// there.
pub proof fn law_what_a_cursor_session_is_told(scene: Scene, entry: CopyCaptureCursorSession)
    ensures
        ({
            let session = entry.session.handle.id;
            let own = cursor_output(scene, entry.session.handle.source);
            let output = own->0;
            let actions = cursor_session_actions(scene, entry);
            let n = actions.len() as int;
            let after = refreshed_cursor_session(scene, entry);
            let size = scene.cursor_size(output);
            let changed = entry.session.current_size is None || entry.session.current_size->0.w
                != size.w || entry.session.current_size->0.h != size.h;
            let fails = changed && entry.pending_frame is Some;
            &&& after.session.handle == entry.session.handle
            &&& after.session.alive == entry.session.alive
            &&& after.damage_tracker == entry.damage_tracker
            &&& if own is Some && output.pointer is Some && output.current_mode is Some {
                &&& n == 2 + (if changed {
                    1int
                } else {
                    0int
                }) + (if fails {
                    1int
                } else {
                    0int
                })
                &&& actions[n - 1] == (ActionView::SetCursorPos {
                    session,
                    pos: if cursor_entered(
                        scene,
                        output,
                        output.pointer->0,
                        output.current_mode->0,
                    ) {
                        output.pointer
                    } else {
                        None
                    },
                })
                &&& actions[n - 2] == (ActionView::SetCursorHotspot {
                    session,
                    hotspot: output.cursor_hotspot(),
                })
                &&& changed ==> (actions[n - 3] matches ActionView::UpdateCursorConstraints {
                    session: s,
                    constraints,
                } && s == session && constraints.size == size && constraints.shm == seq![
                    ShmFormat::Argb8888,
                ] && constraints.dma is None)
                &&& fails ==> actions[0] == (ActionView::FailFrame {
                    frame: entry.pending_frame->0,
                    reason: CaptureFailureReason::BufferConstraints,
                })
                &&& after.session.current_size == Some(size)
                &&& after.pending_frame == (if changed {
                    None
                } else {
                    entry.pending_frame
                })
            } else {
                &&& n == 1
                &&& actions[0] == (ActionView::SetCursorPos { session, pos: None })
                &&& after == entry
            }
        }),
{
}

/// A cursor that is hidden, or a pointer that is not visible, is on no output.
pub proof fn law_hidden_cursors_are_on_no_output(
    scene: Scene,
    output: Output,
    pos: Point,
    mode: Size,
)
    requires
        !scene.pointer_visible || output.cursor is None,
    ensures
        !cursor_entered(scene, output, pos, mode),
{
}

/// A cursor is on an output exactly if the pointer is visible, the cursor has an image, and the
/// image, put down with its hotspot at the pointer, overlaps the output in the orientation in which
/// it is displayed: with width and height exchanged after an odd number of quarter turns.
pub proof fn law_where_a_cursor_is(scene: Scene, output: Output, pos: Point, mode: Size)
    ensures
        cursor_entered(scene, output, pos, mode) <==> {
            let image = Rectangle {
                loc: pos.minus(output.cursor_hotspot()),
                size: scene.cursor_size(output),
            };
            let displayed = Rectangle {
                loc: Point { x: 0, y: 0 },
                size: if output.transform.quarter_turns() % 2 == 1 {
                    Size { w: mode.h, h: mode.w }
                } else {
                    mode
                },
            };
            scene.pointer_visible && output.cursor is Some && image.overlapping(displayed)
        },
{
}

/// Refreshing cursor sessions asks for a nominal cursor size only where a session is on an output
/// that is there, has a place and a mode, and shows no cursor image of its own.
pub proof fn law_cursor_sizes_are_needed_on_tracked_outputs(
    scene: Scene,
    sessions: Seq<CopyCaptureCursorSession>,
)
    ensures
        cursor_sizes_fit(scene, sessions) <==> forall|i: int|
            0 <= i < sessions.len() ==> {
                let own = cursor_output(scene, (#[trigger] sessions[i]).session.handle.source);
                own is Some && own->0.pointer is Some && own->0.current_mode is Some
                    ==> own->0.nominal_cursor_fits(scene.xcursor_size)
            },
{
    if cursor_sizes_fit(scene, sessions) {
        assert forall|i: int| 0 <= i < sessions.len() implies {
            let own = cursor_output(scene, (#[trigger] sessions[i]).session.handle.source);
            own is Some && own->0.pointer is Some && own->0.current_mode is Some
                ==> own->0.nominal_cursor_fits(scene.xcursor_size)
        } by {
            assert(tracked_cursor_fits(scene, sessions[i].session.handle.source));
        }
    }
}

/// A cursor session can be told a position on the output of its source exactly if that is there and
/// has a place and a mode.
pub proof fn law_cursor_positions_are_told_on_outputs_with_a_mode(
    scene: Scene,
    source: ImageCaptureSource,
)
    ensures
        match tracked_output(scene, source) {
            Some((output, pos, mode)) => {
                &&& cursor_output(scene, source) == Some(output)
                &&& output.pointer == Some(pos)
                &&& output.current_mode == Some(mode)
            },
            None => {
                let own = cursor_output(scene, source);
                own is None || own->0.pointer is None || own->0.current_mode is None
            },
        },
{
}

/// Cursor sessions are refreshed one after the other and do not influence each other.
pub proof fn law_cursor_refreshes_go_through_the_sessions(
    scene: Scene,
    a: Seq<CopyCaptureCursorSession>,
    b: Seq<CopyCaptureCursorSession>,
    entry: CopyCaptureCursorSession,
)
    ensures
        refreshed_cursor_sessions(scene, a + b) == refreshed_cursor_sessions(scene, a)
            + refreshed_cursor_sessions(scene, b),
        cursor_refresh_actions(scene, a + b) == cursor_refresh_actions(scene, a)
            + cursor_refresh_actions(scene, b),
        refreshed_cursor_sessions(scene, seq![entry]) == seq![
            refreshed_cursor_session(scene, entry),
        ],
        cursor_refresh_actions(scene, seq![entry]) == cursor_session_actions(scene, entry),
        refreshed_cursor_sessions(scene, Seq::empty()) == Seq::<CopyCaptureCursorSession>::empty(),
        cursor_refresh_actions(scene, Seq::empty()) == Seq::<ActionView>::empty(),
    decreases b.len(),
{
    reveal_with_fuel(cursor_refresh_actions, 2);
    assert(seq![entry].drop_last() == Seq::<CopyCaptureCursorSession>::empty());
    if b.len() == 0 {
        assert(a + b == a);
    } else {
        law_cursor_refreshes_go_through_the_sessions(scene, a, b.drop_last(), entry);
        assert((a + b).drop_last() == a + b.drop_last());
    }
}

} // verus!
