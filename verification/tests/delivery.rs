use std::time::Duration;

use image_copy_capture::delivery::{
    complete_cursor_frame, complete_frame, damage_fits, deliver_cursor_frame, deliver_frame,
    ensure_damage_tracker, success_after_sync, BufferTarget, BufferType, Completion,
    CursorDelivery, DamageOutcome, Delivery, FrameBuffer, FrameSuccess, RenderOutcome,
    RenderingCursorFrame, RenderingFrame,
};
use image_copy_capture::formats::ShmFormat;
use image_copy_capture::geometry::{Point, Rectangle, Size, Transform};
use image_copy_capture::scene::{ImageCaptureSource, Scale};
use image_copy_capture::session::{
    CaptureFailureReason, CopyCaptureCursorSession, CopyCaptureSession, CursorSession,
    CursorSessionRef, DamageTracker, Frame, Session, SessionRef,
};

const SIZE: Size = Size { w: 70, h: 90 };
const FRAME: Frame = Frame { id: 11 };
const TIME: Duration = Duration::from_millis(250);

fn rect(x: i32, y: i32, w: i32, h: i32) -> Rectangle {
    Rectangle {
        loc: Point { x, y },
        size: Size { w, h },
    }
}

fn scale(value: f64) -> Scale {
    Scale {
        bits: value.to_bits(),
    }
}

fn source() -> ImageCaptureSource {
    ImageCaptureSource {
        output: Some(1),
        toplevel: None,
    }
}

fn used_tracker() -> DamageTracker {
    DamageTracker {
        size: SIZE,
        scale: scale(1.5),
        transform: Transform::_90,
    }
}

fn entry() -> CopyCaptureSession {
    let session = Session {
        handle: SessionRef {
            id: 3,
            source: source(),
        },
        alive: true,
        draw_cursor: false,
        current_size: Some(SIZE),
    };
    let mut entry = CopyCaptureSession::new(session);
    entry.damage_tracker = used_tracker();
    entry.pending_frame = Some(FRAME);
    entry
}

fn cursor_entry() -> CopyCaptureCursorSession {
    let session = CursorSession {
        handle: CursorSessionRef {
            id: 4,
            source: source(),
        },
        alive: true,
        current_size: Some(SIZE),
    };
    let mut entry = CopyCaptureCursorSession::new(session);
    entry.damage_tracker = used_tracker();
    entry.pending_frame = Some(FRAME);
    entry
}

fn buffer(kind: Option<BufferType>, dmabuf: bool) -> FrameBuffer {
    FrameBuffer {
        size: Some(SIZE),
        kind,
        dmabuf,
    }
}

fn damage() -> DamageOutcome {
    DamageOutcome::Damaged(vec![rect(30, 10, 40, 30)])
}

fn rendering(entry: &mut CopyCaptureSession, transform: Transform) -> RenderingFrame {
    let buffer = buffer(Some(BufferType::Shm), false);
    match deliver_frame(entry, &damage(), SIZE, transform, &buffer) {
        Delivery::Render { rendering, target } => {
            assert_eq!(target, BufferTarget::Shm(ShmFormat::Xrgb8888));
            rendering
        }
        other => panic!("{:?}", other),
    }
}

fn rendering_cursor(entry: &mut CopyCaptureCursorSession) -> RenderingCursorFrame {
    match deliver_cursor_frame(entry, &damage(), SIZE, Some(SIZE)) {
        CursorDelivery::Render { rendering, format } => {
            assert_eq!(format, ShmFormat::Argb8888);
            rendering
        }
        other => panic!("{:?}", other),
    }
}

#[test]
fn new_sessions_start_without_a_frame() {
    let entry = CopyCaptureSession::new(entry().session);
    assert_eq!(entry.pending_frame, None);
    assert_eq!(entry.damage_tracker, DamageTracker::initial());
    let cursor = CopyCaptureCursorSession::new(cursor_entry().session);
    assert_eq!(cursor.pending_frame, None);
    assert_eq!(cursor.damage_tracker.size, Size { w: 0, h: 0 });
    assert_eq!(cursor.damage_tracker.scale, scale(1.));
    assert_eq!(cursor.damage_tracker.transform, Transform::Normal);
}

#[test]
fn tracker_is_replaced_when_the_mode_changes() {
    let mut tracker = DamageTracker::initial();
    assert!(ensure_damage_tracker(
        &mut tracker,
        SIZE,
        scale(1.),
        Transform::Normal
    ));
    assert!(!ensure_damage_tracker(
        &mut tracker,
        SIZE,
        scale(1.),
        Transform::Normal
    ));
    assert!(ensure_damage_tracker(
        &mut tracker,
        SIZE,
        scale(1.25),
        Transform::Normal
    ));
    assert!(ensure_damage_tracker(
        &mut tracker,
        SIZE,
        scale(1.25),
        Transform::_90
    ));
    assert!(ensure_damage_tracker(
        &mut tracker,
        Size { w: 1, h: 1 },
        scale(1.25),
        Transform::_90
    ));
    assert_eq!(
        tracker,
        DamageTracker {
            size: Size { w: 1, h: 1 },
            scale: scale(1.25),
            transform: Transform::_90
        }
    );
}

#[test]
fn scales_compare_like_numbers() {
    let values = [
        0.,
        -0.,
        1.,
        -1.,
        1.25,
        f64::MIN_POSITIVE / 2.,
        f64::INFINITY,
        f64::NEG_INFINITY,
        f64::NAN,
        -f64::NAN,
    ];
    for a in values {
        for b in values {
            assert_eq!(scale(a).same_as(&scale(b)), a == b, "{a} {b}");
        }
    }
    assert_eq!(Scale::one(), scale(1.));
}

#[test]
fn frame_waits_without_damage() {
    for outcome in [DamageOutcome::Failed, DamageOutcome::Unchanged] {
        let mut e = entry();
        let buffer = buffer(Some(BufferType::Shm), false);
        let r = deliver_frame(&mut e, &outcome, SIZE, Transform::_90, &buffer);
        assert_eq!(r, Delivery::Wait);
        assert_eq!(e, entry());
    }
}

#[test]
fn damage_is_delivered_in_buffer_coordinates() {
    let mut e = entry();
    let rendering = rendering(&mut e, Transform::_90);
    assert_eq!(rendering.frame(), FRAME);
    assert_eq!(e.pending_frame, None);
    assert_eq!(e.damage_tracker, used_tracker());
    assert_eq!(
        success_after_sync(rendering, TIME, false),
        Completion::Success(FrameSuccess {
            frame: FRAME,
            transform: Transform::_90,
            damage: vec![rect(10, 20, 30, 40)],
            presentation_time: TIME,
        })
    );
}

#[test]
fn full_damage_fills_the_buffer() {
    for transform in [Transform::Normal, Transform::_90, Transform::Flipped270] {
        let mut e = entry();
        let shown = transform.transform_size(SIZE);
        let full = DamageOutcome::Damaged(vec![Rectangle::from_size(shown)]);
        let buffer = buffer(Some(BufferType::Shm), false);
        let Delivery::Render { rendering, .. } =
            deliver_frame(&mut e, &full, SIZE, transform, &buffer)
        else {
            panic!("the frame is rendered");
        };
        let Completion::Success(success) = success_after_sync(rendering, TIME, false) else {
            panic!("there is no fence");
        };
        assert_eq!(success.damage, vec![Rectangle::from_size(SIZE)]);
    }
}

#[test]
fn dmabuf_frames_are_rendered_to_the_dmabuf() {
    let mut e = entry();
    let buffer = buffer(Some(BufferType::Dma), true);
    match deliver_frame(&mut e, &damage(), SIZE, Transform::Normal, &buffer) {
        Delivery::Render { rendering, target } => {
            assert_eq!(target, BufferTarget::Dma);
            assert_eq!(rendering.frame(), FRAME);
        }
        other => panic!("{:?}", other),
    }
    assert_eq!(e.pending_frame, None);
}

#[test]
fn frame_fails_when_the_buffer_has_another_size() {
    for size in [None, Some(Size { w: 90, h: 70 })] {
        let mut e = entry();
        let mut buffer = buffer(Some(BufferType::Shm), false);
        buffer.size = size;
        let r = deliver_frame(&mut e, &damage(), SIZE, Transform::_90, &buffer);
        assert_eq!(
            r,
            Delivery::Fail {
                frame: FRAME,
                reason: CaptureFailureReason::BufferConstraints
            }
        );
        assert_eq!(e.pending_frame, None);
        assert_eq!(e.damage_tracker, DamageTracker::initial());
    }
}

#[test]
fn frame_fails_when_the_buffer_is_not_supported() {
    for (kind, dmabuf) in [
        (None, false),
        (Some(BufferType::Egl), false),
        (Some(BufferType::SinglePixel), false),
        (Some(BufferType::Dma), false),
    ] {
        let mut e = entry();
        let buffer = buffer(kind, dmabuf);
        let r = deliver_frame(&mut e, &damage(), SIZE, Transform::_90, &buffer);
        assert_eq!(
            r,
            Delivery::Fail {
                frame: FRAME,
                reason: CaptureFailureReason::Unknown
            }
        );
        assert_eq!(e.damage_tracker, DamageTracker::initial());
    }
}

#[test]
fn rendered_frame_succeeds_at_once_or_after_its_fence() {
    for fence in [false, true] {
        let mut e = entry();
        let rendering = rendering(&mut e, Transform::Normal);
        let taken = e;
        let outcome = RenderOutcome::Rendered { fence };
        let r = complete_frame(&mut e, rendering, outcome, TIME);
        let success = FrameSuccess {
            frame: FRAME,
            transform: Transform::Normal,
            damage: vec![rect(30, 10, 40, 30)],
            presentation_time: TIME,
        };
        if fence {
            assert_eq!(r, Completion::SuccessAfterSync(success));
        } else {
            assert_eq!(r, Completion::Success(success));
        }
        assert_eq!(e, taken);
    }
}

#[test]
fn frame_fails_when_rendering_fails() {
    let mut e = entry();
    let rendering = rendering(&mut e, Transform::_90);
    let r = complete_frame(&mut e, rendering, RenderOutcome::Failed, TIME);
    assert_eq!(
        r,
        Completion::Fail {
            frame: FRAME,
            reason: CaptureFailureReason::Unknown
        }
    );
    assert_eq!(e.damage_tracker, DamageTracker::initial());
}

#[test]
fn cursor_frame_waits_for_the_image_to_change() {
    for outcome in [DamageOutcome::Failed, DamageOutcome::Unchanged] {
        let mut e = cursor_entry();
        let r = deliver_cursor_frame(&mut e, &outcome, SIZE, Some(SIZE));
        assert_eq!(r, CursorDelivery::Wait);
        assert_eq!(e, cursor_entry());
    }
}

#[test]
fn cursor_frame_is_rendered_with_alpha() {
    let mut e = cursor_entry();
    let rendering = rendering_cursor(&mut e);
    assert_eq!(rendering.frame(), FRAME);
    assert_eq!(e.pending_frame, None);
}

#[test]
fn cursor_frame_fails_when_the_buffer_has_another_size() {
    for size in [None, Some(Size { w: 1, h: 90 })] {
        let mut e = cursor_entry();
        let r = deliver_cursor_frame(&mut e, &damage(), SIZE, size);
        assert_eq!(
            r,
            CursorDelivery::Fail {
                frame: FRAME,
                reason: CaptureFailureReason::BufferConstraints
            }
        );
        assert_eq!(e.pending_frame, None);
        assert_eq!(e.damage_tracker, DamageTracker::initial());
    }
}

#[test]
fn delivered_cursor_frame_is_damaged_as_a_whole() {
    let mut e = cursor_entry();
    let rendering = rendering_cursor(&mut e);
    let taken = e;
    let r = complete_cursor_frame(&mut e, rendering, true, TIME);
    assert_eq!(
        r,
        Completion::Success(FrameSuccess {
            frame: FRAME,
            transform: Transform::Normal,
            damage: vec![rect(0, 0, 70, 90)],
            presentation_time: TIME,
        })
    );
    assert_eq!(e, taken);
}

#[test]
fn cursor_frame_fails_when_rendering_fails() {
    let mut e = cursor_entry();
    let rendering = rendering_cursor(&mut e);
    let r = complete_cursor_frame(&mut e, rendering, false, TIME);
    assert_eq!(
        r,
        Completion::Fail {
            frame: FRAME,
            reason: CaptureFailureReason::Unknown
        }
    );
    assert_eq!(e.damage_tracker, DamageTracker::initial());
}

#[test]
fn damage_fits_when_every_rectangle_does() {
    let far = rect(0, i32::MIN, 5, 5);
    assert!(damage_fits(&vec![], SIZE, Transform::_90));
    assert!(damage_fits(&vec![rect(1, 2, 3, 4), far], SIZE, Transform::_90));
    assert!(!damage_fits(&vec![rect(1, 2, 3, 4), far], SIZE, Transform::_180));
    assert!(!damage_fits(&vec![far, rect(1, 2, 3, 4)], SIZE, Transform::_270));
}
