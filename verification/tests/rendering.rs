use image_copy_capture::delivery::{deliver_frame, DamageOutcome, FrameBuffer};
use image_copy_capture::formats::{BufferConstraints, ShmFormat};
use image_copy_capture::geometry::{Point, Rectangle, Size, Transform};
use image_copy_capture::niri::{
    cursor_capture_constraints, cursor_capture_hotspot, cursor_capture_size, stack_layers, Capture,
    CaptureContent, CaptureJob, CursorCaptureStep, Layer, Niri, RenderTarget,
};
use image_copy_capture::scene::{
    CursorImage, ImageCaptureSource, Mapped, Output, Scale, Scene,
};
use image_copy_capture::session::{
    Action, CaptureFailureReason, CopyCaptureCursorSession, CopyCaptureSession, CursorSession,
    CursorSessionRef, DamageTracker, Frame, Session, SessionRef,
};

const MODE: Size = Size { w: 1920, h: 1080 };
const CURSOR: Size = Size { w: 48, h: 48 };

fn output(id: u64) -> Output {
    Output {
        id,
        current_mode: Some(MODE),
        transform: Transform::_90,
        scale: Scale {
            bits: 1.5f64.to_bits(),
        },
        integer_scale: 2,
        pointer: Some(Point { x: 100, y: 50 }),
        cursor: Some(CursorImage {
            size: CURSOR,
            hotspot: Point { x: 4, y: 6 },
        }),
    }
}

fn niri() -> Niri {
    let mut scene = Scene::new(24, true);
    scene.set_output(output(1));
    scene.set_output(output(2));
    scene.alive_surfaces.insert(70);
    scene.windows.insert(
        70,
        Mapped {
            output: Some(1),
            bbox: Rectangle {
                loc: Point { x: -10, y: -10 },
                size: Size { w: 300, h: 200 },
            },
            pointer_origin: Some(Point { x: 40, y: -30 }),
        },
    );
    Niri::new(scene)
}

fn entry(id: u64, output: Option<u64>, toplevel: Option<u64>) -> CopyCaptureSession {
    let mut entry = CopyCaptureSession::new(Session {
        handle: SessionRef {
            id,
            source: ImageCaptureSource { output, toplevel },
        },
        alive: true,
        draw_cursor: true,
        current_size: None,
    });
    entry.pending_frame = Some(Frame { id: 100 + id });
    entry
}

fn cursor_entry(id: u64, output: u64, current_size: Option<Size>) -> CopyCaptureCursorSession {
    let mut entry = CopyCaptureCursorSession::new(CursorSession {
        handle: CursorSessionRef {
            id,
            source: ImageCaptureSource {
                output: Some(output),
                toplevel: None,
            },
        },
        alive: true,
        current_size,
    });
    entry.pending_frame = Some(Frame { id: 200 + id });
    entry
}

fn output_capture(draw_cursor: bool) -> Capture {
    Capture {
        content: CaptureContent::Output {
            target: RenderTarget::ScreenCapture,
            draw_cursor,
        },
        size: MODE,
        scale: output(1).scale,
        transform: Transform::_90,
    }
}

#[test]
fn redraw_renders_waiting_sessions_of_the_output() {
    let mut niri = niri();
    let mut idle = entry(3, Some(1), None);
    idle.pending_frame = None;
    niri.copy_capture_sessions = vec![
        entry(0, Some(2), None),
        entry(1, Some(1), None),
        entry(2, None, Some(70)),
        idle,
        entry(4, Some(9), None),
    ];
    let jobs = niri.render_for_image_copy_capture(&output(1));
    assert_eq!(
        jobs,
        vec![
            CaptureJob {
                index: 1,
                capture: output_capture(true),
                fresh_tracker: true,
            },
            CaptureJob {
                index: 2,
                capture: Capture {
                    content: CaptureContent::Toplevel {
                        surface: 70,
                        pointer_offset: Some(Point { x: -40, y: 30 }),
                    },
                    size: Size { w: 300, h: 200 },
                    scale: output(1).scale,
                    transform: Transform::Normal,
                },
                fresh_tracker: true,
            },
        ]
    );
    assert_eq!(
        niri.copy_capture_sessions[1].damage_tracker,
        DamageTracker {
            size: MODE,
            scale: output(1).scale,
            transform: Transform::_90
        }
    );
    assert_eq!(
        niri.copy_capture_sessions[0].damage_tracker,
        DamageTracker::initial()
    );
    for (i, entry) in niri.copy_capture_sessions.iter().enumerate() {
        assert_eq!(entry.pending_frame.is_some(), i != 3);
    }

    // The trackers fit now.
    let jobs = niri.render_for_image_copy_capture(&output(1));
    assert!(jobs.iter().all(|job| !job.fresh_tracker));
}

#[test]
fn pointer_is_drawn_only_if_the_client_wants_it() {
    let mut niri = niri();
    let mut e = entry(1, None, Some(70));
    e.session.draw_cursor = false;
    let mut o = entry(2, Some(1), None);
    o.session.draw_cursor = false;
    niri.copy_capture_sessions = vec![e, o];
    let jobs = niri.render_for_image_copy_capture(&output(1));
    assert_eq!(
        jobs[0].capture.content,
        CaptureContent::Toplevel {
            surface: 70,
            pointer_offset: None
        }
    );
    assert_eq!(jobs[1].capture, output_capture(false));
}

#[test]
fn windows_are_rendered_only_with_their_output() {
    let mut niri = niri();
    niri.copy_capture_sessions = vec![entry(1, None, Some(70))];
    assert_eq!(niri.render_for_image_copy_capture(&output(2)), vec![]);
    niri.scene.windows.get_mut(&70).unwrap().output = None;
    assert_eq!(niri.render_for_image_copy_capture(&output(1)), vec![]);
    niri.scene.windows.remove(&70);
    assert_eq!(niri.render_for_image_copy_capture(&output(1)), vec![]);
    assert_eq!(niri.copy_capture_sessions, vec![entry(1, None, Some(70))]);
}

#[test]
fn outputs_without_a_mode_are_not_rendered() {
    let mut niri = niri();
    niri.copy_capture_sessions = vec![entry(1, Some(1), None)];
    let mut off = output(1);
    off.current_mode = None;
    assert_eq!(niri.render_for_image_copy_capture(&off), vec![]);
    assert_eq!(niri.copy_capture_sessions, vec![entry(1, Some(1), None)]);
}

#[test]
fn failed_delivery_gets_a_new_tracker() {
    let mut niri = niri();
    niri.copy_capture_sessions = vec![entry(1, Some(1), None)];
    niri.render_for_image_copy_capture(&output(1));
    let buffer = FrameBuffer {
        size: None,
        kind: None,
        dmabuf: false,
    };
    let damage = DamageOutcome::Damaged(vec![]);
    deliver_frame(
        &mut niri.copy_capture_sessions[0],
        &damage,
        MODE,
        Transform::_90,
        &buffer,
    );
    niri.copy_capture_sessions[0].pending_frame = Some(Frame { id: 9 });
    let jobs = niri.render_for_image_copy_capture(&output(1));
    assert_eq!(jobs.len(), 1);
    assert!(jobs[0].fresh_tracker);
}

#[test]
fn cursor_redraw_captures_or_fails_waiting_frames() {
    let mut niri = niri();
    let mut idle = cursor_entry(4, 1, Some(CURSOR));
    idle.pending_frame = None;
    niri.copy_capture_cursor_sessions = vec![
        cursor_entry(0, 1, None),
        cursor_entry(1, 2, Some(CURSOR)),
        cursor_entry(2, 1, Some(CURSOR)),
        cursor_entry(3, 8, Some(CURSOR)),
        idle,
    ];
    let plan = niri.render_for_image_copy_cursor_capture(&output(1));
    assert!(plan.render_image);
    assert_eq!(
        plan.steps,
        vec![
            CursorCaptureStep::Fail {
                frame: Frame { id: 200 },
                reason: CaptureFailureReason::BufferConstraints,
            },
            CursorCaptureStep::Capture {
                index: 2,
                size: CURSOR,
                scale: output(1).scale,
                fresh_tracker: true,
            },
        ]
    );
    assert_eq!(niri.copy_capture_cursor_sessions[0].pending_frame, None);
    assert_eq!(
        niri.copy_capture_cursor_sessions[2].damage_tracker,
        DamageTracker {
            size: CURSOR,
            scale: output(1).scale,
            transform: Transform::Normal
        }
    );
    assert_eq!(
        niri.copy_capture_cursor_sessions[1],
        cursor_entry(1, 2, Some(CURSOR))
    );
    let plan = niri.render_for_image_copy_cursor_capture(&output(1));
    assert!(plan.render_image);
    assert_eq!(
        plan.steps,
        vec![CursorCaptureStep::Capture {
            index: 2,
            size: CURSOR,
            scale: output(1).scale,
            fresh_tracker: false,
        }]
    );
}

#[test]
fn nothing_is_sent_without_cursor_sessions() {
    let mut niri = niri();
    assert_eq!(niri.refresh_image_copy_cursor_sessions(), vec![]);
    let plan = niri.render_for_image_copy_cursor_capture(&output(1));
    assert_eq!(plan.steps, vec![]);
    assert!(!plan.render_image);
}

#[test]
fn changed_cursor_size_fails_the_frame_first() {
    let mut niri = niri();
    niri.copy_capture_cursor_sessions = vec![cursor_entry(1, 1, Some(Size { w: 24, h: 24 }))];
    let actions = niri.refresh_image_copy_cursor_sessions();
    assert_eq!(
        actions,
        vec![
            Action::FailFrame {
                frame: Frame { id: 201 },
                reason: CaptureFailureReason::BufferConstraints
            },
            Action::UpdateCursorConstraints {
                session: 1,
                constraints: BufferConstraints {
                    size: CURSOR,
                    shm: vec![ShmFormat::Argb8888],
                    dma: None
                }
            },
            Action::SetCursorHotspot {
                session: 1,
                hotspot: Point { x: 4, y: 6 }
            },
            Action::SetCursorPos {
                session: 1,
                pos: Some(Point { x: 100, y: 50 })
            },
        ]
    );
    let entry = niri.copy_capture_cursor_sessions[0];
    assert_eq!(entry.pending_frame, None);
    assert_eq!(entry.session.current_size, Some(CURSOR));
}

fn told_position(change: impl Fn(&mut Scene, &mut Output)) -> Option<Point> {
    let mut niri = niri();
    let mut o = output(1);
    change(&mut niri.scene, &mut o);
    niri.scene.set_output(o);
    niri.copy_capture_cursor_sessions = vec![cursor_entry(1, 1, Some(CURSOR))];
    match niri.refresh_image_copy_cursor_sessions().last() {
        Some(Action::SetCursorPos { session: 1, pos }) => *pos,
        other => panic!("unexpected action {other:?}"),
    }
}

#[test]
fn cursor_is_on_the_output_while_its_image_is() {
    // The displayed output is 1080 wide and 1920 high; the hotspot is at 4, 6.
    let at = |x, y| told_position(move |_, o| o.pointer = Some(Point { x, y }));
    assert_eq!(at(1079, 5), Some(Point { x: 1079, y: 5 }));
    assert_eq!(at(1083, 5), Some(Point { x: 1083, y: 5 }));
    assert_eq!(at(1084, 5), None);
    assert_eq!(at(-43, 5), Some(Point { x: -43, y: 5 }));
    assert_eq!(at(-44, 5), None);
    assert_eq!(at(5, 1925), Some(Point { x: 5, y: 1925 }));
    assert_eq!(at(5, 1926), None);
    assert_eq!(at(5, -42), None);
}

#[test]
fn hidden_cursor_is_on_no_output() {
    assert_eq!(told_position(|_, o| o.cursor = None), None);
    assert_eq!(told_position(|s, _| s.pointer_visible = false), None);
}

#[test]
fn cursor_is_not_placed_on_outputs_without_geometry_or_mode() {
    assert_eq!(told_position(|_, o| o.pointer = None), None);
    assert_eq!(told_position(|_, o| o.current_mode = None), None);
    let mut niri = niri();
    niri.copy_capture_cursor_sessions = vec![cursor_entry(1, 8, None)];
    assert_eq!(
        niri.refresh_image_copy_cursor_sessions(),
        vec![Action::SetCursorPos {
            session: 1,
            pos: None
        }]
    );
    assert_eq!(
        niri.copy_capture_cursor_sessions,
        vec![cursor_entry(1, 8, None)]
    );
}

#[test]
fn cursor_image_gives_size_and_hotspot() {
    let niri = niri();
    let mut o = output(1);
    assert_eq!(cursor_capture_size(&niri, &o), CURSOR);
    assert_eq!(cursor_capture_hotspot(&o), Point { x: 4, y: 6 });
    o.cursor = None;
    assert_eq!(cursor_capture_size(&niri, &o), Size { w: 48, h: 48 });
    assert_eq!(cursor_capture_hotspot(&o), Point { x: 0, y: 0 });
    o.integer_scale = 1;
    assert_eq!(
        cursor_capture_constraints(&niri, &o),
        BufferConstraints {
            size: Size { w: 24, h: 24 },
            shm: vec![ShmFormat::Argb8888],
            dma: None
        }
    );
}

#[test]
fn windows_do_not_support_cursor_capture() {
    let mut niri = niri();
    let mut on_window = cursor_entry(1, 1, Some(CURSOR));
    on_window.session.handle.source = ImageCaptureSource {
        output: None,
        toplevel: Some(70),
    };
    niri.copy_capture_cursor_sessions = vec![on_window];
    assert_eq!(
        niri.refresh_image_copy_cursor_sessions(),
        vec![Action::SetCursorPos {
            session: 1,
            pos: None
        }]
    );
    let plan = niri.render_for_image_copy_cursor_capture(&output(1));
    assert_eq!(plan.steps, vec![]);
    assert!(!plan.render_image);
    assert_eq!(niri.copy_capture_cursor_sessions[0], on_window);
}

#[test]
fn cursor_image_is_not_rendered_for_frames_that_fail() {
    let mut niri = niri();
    niri.copy_capture_cursor_sessions = vec![
        cursor_entry(0, 1, None),
        cursor_entry(1, 2, Some(CURSOR)),
    ];
    let plan = niri.render_for_image_copy_cursor_capture(&output(1));
    assert_eq!(plan.steps.len(), 1);
    assert!(!plan.render_image);
}

#[test]
fn pointer_is_above_the_window() {
    let offset = Point { x: -40, y: 30 };
    let with_pointer = CaptureContent::Toplevel {
        surface: 70,
        pointer_offset: Some(offset),
    };
    assert_eq!(
        with_pointer.layers(),
        vec![Layer::Pointer { offset }, Layer::Window { surface: 70 }]
    );
    let alone = CaptureContent::Toplevel {
        surface: 70,
        pointer_offset: None,
    };
    assert_eq!(alone.layers(), vec![Layer::Window { surface: 70 }]);
    assert_eq!(
        output_capture(true).content.layers(),
        vec![Layer::Output {
            target: RenderTarget::ScreenCapture,
            draw_cursor: true
        }]
    );
}

#[test]
fn layers_are_stacked_in_order() {
    assert_eq!(
        stack_layers(vec![vec![1, 2], vec![], vec![3, 4, 5]]),
        vec![1, 2, 3, 4, 5]
    );
    assert_eq!(stack_layers(Vec::<Vec<u8>>::new()), Vec::<u8>::new());
}
