use image_copy_capture::formats::{
    BufferConstraints, DmabufConstraints, DmabufFormat, ShmFormat, ARGB8888, XRGB8888,
};
use image_copy_capture::geometry::{Point, Rectangle, Size, Transform};
use image_copy_capture::niri::{source_target, Niri};
use image_copy_capture::scene::{
    CaptureSourceTarget, CursorImage, ImageCaptureSource, Mapped, Output, Scale, Scene,
};
use image_copy_capture::session::{
    Action, CaptureFailureReason, CopyCaptureCursorSession, CursorSession, CursorSessionRef, Frame,
    Session, SessionRef,
};
use image_copy_capture::state::{Backend, State};

const MODE: Size = Size { w: 1920, h: 1080 };

fn output(id: u64) -> Output {
    Output {
        id,
        current_mode: Some(MODE),
        transform: Transform::Normal,
        scale: Scale::one(),
        integer_scale: 2,
        pointer: Some(Point { x: 100, y: 50 }),
        cursor: Some(CursorImage {
            size: Size { w: 48, h: 48 },
            hotspot: Point { x: 4, y: 6 },
        }),
    }
}

fn window(output: Option<u64>, w: i32, h: i32) -> Mapped {
    Mapped {
        output,
        bbox: Rectangle {
            loc: Point { x: -10, y: -10 },
            size: Size { w, h },
        },
        pointer_origin: None,
    }
}

fn scene() -> Scene {
    let mut scene = Scene::new(24, true);
    scene.set_output(output(1));
    scene.alive_surfaces.insert(70);
    scene.alive_surfaces.insert(71);
    scene.alive_surfaces.insert(72);
    scene.windows.insert(70, window(Some(1), 300, 200));
    scene.windows.insert(71, window(Some(9), 300, 200));
    scene.windows.insert(73, window(Some(1), 300, 200));
    scene
}

fn state() -> State {
    State {
        niri: Niri::new(scene()),
        backend: Backend {
            primary_render_node: None,
            render_formats: None,
        },
    }
}

fn on_output(id: u64) -> ImageCaptureSource {
    ImageCaptureSource {
        output: Some(id),
        toplevel: None,
    }
}

fn on_window(surface: u64) -> ImageCaptureSource {
    ImageCaptureSource {
        output: None,
        toplevel: Some(surface),
    }
}

fn nowhere() -> ImageCaptureSource {
    ImageCaptureSource {
        output: None,
        toplevel: None,
    }
}

fn session(id: u64, source: ImageCaptureSource, current_size: Option<Size>) -> Session {
    Session {
        handle: SessionRef { id, source },
        alive: true,
        draw_cursor: false,
        current_size,
    }
}

fn cursor_session(id: u64, source: ImageCaptureSource) -> CursorSession {
    CursorSession {
        handle: CursorSessionRef { id, source },
        alive: true,
        current_size: None,
    }
}

fn frame(id: u64) -> Frame {
    Frame { id }
}

fn shm_constraints(size: Size) -> BufferConstraints {
    BufferConstraints {
        size,
        shm: vec![ShmFormat::Xrgb8888],
        dma: None,
    }
}

fn cursor_constraints(w: i32, h: i32) -> BufferConstraints {
    BufferConstraints {
        size: Size { w, h },
        shm: vec![ShmFormat::Argb8888],
        dma: None,
    }
}

fn refused(frame: Frame) -> Vec<Action> {
    vec![Action::FailFrame {
        frame,
        reason: CaptureFailureReason::Unknown,
    }]
}

fn pending(state: &State) -> Vec<Option<Frame>> {
    let sessions = state.niri.copy_capture_sessions.iter();
    sessions.map(|entry| entry.pending_frame).collect()
}

fn cursor_pending(state: &State) -> Vec<Option<Frame>> {
    let sessions = state.niri.copy_capture_cursor_sessions.iter();
    sessions.map(|entry| entry.pending_frame).collect()
}

#[test]
fn sources_resolve_while_their_target_is_around() {
    let niri = Niri::new(scene());
    assert_eq!(
        source_target(&niri, &on_output(1)),
        Some(CaptureSourceTarget::Output(output(1)))
    );
    assert_eq!(source_target(&niri, &on_output(2)), None);
    assert_eq!(
        source_target(&niri, &on_window(70)),
        Some(CaptureSourceTarget::Toplevel(70))
    );
    assert_eq!(source_target(&niri, &on_window(73)), None);
    assert_eq!(source_target(&niri, &nowhere()), None);
    let both = ImageCaptureSource {
        output: Some(2),
        toplevel: Some(70),
    };
    assert_eq!(source_target(&niri, &both), None);
}

#[test]
fn constraints_have_the_size_of_the_source() {
    let mut state = state();
    assert_eq!(
        state.image_capture_constraints(&on_output(1)),
        Some(shm_constraints(MODE))
    );
    assert_eq!(
        state.image_capture_constraints(&on_window(70)),
        Some(shm_constraints(Size { w: 300, h: 200 }))
    );
    // Alive, but not in the layout.
    assert_eq!(state.image_capture_constraints(&on_window(72)), None);
    assert_eq!(state.image_capture_constraints(&on_window(73)), None);
    assert_eq!(state.image_capture_constraints(&on_output(2)), None);

    state.niri.scene.windows.insert(72, window(Some(1), 0, 20));
    assert_eq!(state.image_capture_constraints(&on_window(72)), None);
    let mut off = output(2);
    off.current_mode = None;
    state.niri.scene.set_output(off);
    assert_eq!(state.image_capture_constraints(&on_output(2)), None);
}

#[test]
fn rotated_outputs_are_captured_in_native_orientation() {
    let mut state = state();
    let mut rotated = output(1);
    rotated.transform = Transform::_90;
    state.niri.scene.set_output(rotated);
    let constraints = state.image_capture_constraints(&on_output(1)).unwrap();
    assert_eq!(constraints.size, MODE);
}

#[test]
fn dmabufs_are_offered_when_the_renderer_has_formats() {
    let mut state = state();
    state.backend.primary_render_node = Some(226);
    assert_eq!(
        state.image_capture_constraints(&on_output(1)).unwrap().dma,
        None
    );
    state.backend.render_formats = Some(vec![]);
    assert_eq!(
        state.image_capture_constraints(&on_output(1)).unwrap().dma,
        None
    );
    state.backend.render_formats = Some(vec![
        DmabufFormat {
            code: ARGB8888,
            modifier: 1,
        },
        DmabufFormat {
            code: XRGB8888,
            modifier: 2,
        },
    ]);
    assert_eq!(
        state.image_capture_constraints(&on_output(1)).unwrap().dma,
        Some(DmabufConstraints {
            node: 226,
            formats: vec![(XRGB8888, vec![2]), (ARGB8888, vec![1])],
        })
    );
    state.backend.primary_render_node = None;
    assert_eq!(
        state.image_capture_constraints(&on_output(1)).unwrap().dma,
        None
    );
}

#[test]
fn cursor_constraints_are_for_outputs_only() {
    let state = state();
    assert_eq!(
        state.image_capture_cursor_constraints(&on_output(1)),
        Some(cursor_constraints(48, 48))
    );
    assert_eq!(state.image_capture_cursor_constraints(&on_window(70)), None);
    assert_eq!(state.image_capture_cursor_constraints(&on_output(2)), None);
}

#[test]
fn hidden_and_empty_cursors_get_the_nominal_size() {
    let mut state = state();
    let mut hidden = output(1);
    hidden.cursor = None;
    state.niri.scene.set_output(hidden);
    assert_eq!(
        state.image_capture_cursor_constraints(&on_output(1)),
        Some(cursor_constraints(48, 48))
    );
    let mut empty = output(1);
    empty.integer_scale = 3;
    empty.cursor = Some(CursorImage {
        size: Size { w: 0, h: 5 },
        hotspot: Point { x: 0, y: 0 },
    });
    state.niri.scene.set_output(empty);
    assert_eq!(
        state.image_capture_cursor_constraints(&on_output(1)),
        Some(cursor_constraints(72, 72))
    );
}

#[test]
fn nominal_cursor_has_to_fit_only_where_it_is_needed() {
    let mut niri = Niri::new(Scene::new(255, true));
    let mut o = output(5);
    o.integer_scale = i32::MAX;
    assert!(o.fits_nominal_cursor(255));
    niri.scene.set_output(o);
    o.cursor = None;
    o.id = 6;
    assert!(!o.fits_nominal_cursor(255));
    assert!(o.fits_nominal_cursor(1));
    niri.scene.set_output(o);
    assert!(niri.fits_tracked_cursor(&on_output(5)));
    assert!(!niri.fits_tracked_cursor(&on_output(6)));
    assert!(niri.fits_tracked_cursor(&on_output(7)));

    let entry = |id| CopyCaptureCursorSession::new(cursor_session(id, on_output(id)));
    niri.copy_capture_cursor_sessions = vec![entry(5)];
    assert!(niri.fits_cursor_sizes());
    niri.copy_capture_cursor_sessions.push(entry(6));
    assert!(!niri.fits_cursor_sizes());
    o.current_mode = None;
    niri.scene.set_output(o);
    assert!(niri.fits_cursor_sizes());
}

#[test]
fn requested_frame_waits_and_asks_for_a_redraw() {
    let mut state = state();
    let s = session(1, on_output(1), Some(MODE));
    state.new_image_copy_capture_session(s);
    let actions = state.image_copy_capture_frame_requested(&s.handle, frame(11));
    assert_eq!(actions, vec![Action::QueueRedraw { output: 1 }]);
    assert_eq!(pending(&state), vec![Some(frame(11))]);
}

#[test]
fn only_one_frame_at_a_time() {
    let mut state = state();
    let s = session(1, on_output(1), Some(MODE));
    state.new_image_copy_capture_session(s);
    state.image_copy_capture_frame_requested(&s.handle, frame(11));
    let actions = state.image_copy_capture_frame_requested(&s.handle, frame(12));
    assert_eq!(actions, refused(frame(12)));
    assert_eq!(pending(&state), vec![Some(frame(11))]);
}

#[test]
fn frames_of_unknown_sessions_are_refused() {
    let mut state = state();
    state.new_image_copy_capture_session(session(1, on_output(1), Some(MODE)));
    let unknown = SessionRef {
        id: 2,
        source: on_output(1),
    };
    let actions = state.image_copy_capture_frame_requested(&unknown, frame(11));
    assert_eq!(actions, refused(frame(11)));
    assert_eq!(pending(&state), vec![None]);

    let unknown = CursorSessionRef {
        id: 1,
        source: on_output(1),
    };
    let actions = state.image_copy_capture_cursor_frame_requested(&unknown, frame(12));
    assert_eq!(actions, refused(frame(12)));
}

#[test]
fn window_frames_redraw_the_output_of_the_window() {
    let mut state = state();
    let shown = session(1, on_window(70), None);
    let elsewhere = session(2, on_window(71), None);
    let unmapped = session(3, on_window(72), None);
    let dead = session(4, on_window(73), None);
    for s in [shown, elsewhere, unmapped, dead] {
        state.new_image_copy_capture_session(s);
    }
    assert_eq!(
        state.image_copy_capture_frame_requested(&shown.handle, frame(11)),
        vec![Action::QueueRedraw { output: 1 }]
    );
    for (i, s) in [elsewhere, unmapped, dead].iter().enumerate() {
        let f = frame(20 + i as u64);
        assert_eq!(
            state.image_copy_capture_frame_requested(&s.handle, f),
            vec![]
        );
    }
    assert_eq!(
        pending(&state),
        vec![
            Some(frame(11)),
            Some(frame(20)),
            Some(frame(21)),
            Some(frame(22))
        ]
    );
}

#[test]
fn cursor_frames_wait_and_redraw_their_output() {
    let mut state = state();
    let s = cursor_session(1, on_output(1));
    let w = cursor_session(2, on_window(70));
    state.new_image_copy_capture_cursor_session(s);
    state.new_image_copy_capture_cursor_session(w);
    assert_eq!(
        state.image_copy_capture_cursor_frame_requested(&s.handle, frame(11)),
        vec![Action::QueueRedraw { output: 1 }]
    );
    assert_eq!(
        state.image_copy_capture_cursor_frame_requested(&s.handle, frame(12)),
        refused(frame(12))
    );
    assert_eq!(
        state.image_copy_capture_cursor_frame_requested(&w.handle, frame(13)),
        vec![]
    );
    assert_eq!(
        cursor_pending(&state),
        vec![Some(frame(11)), Some(frame(13))]
    );
}

#[test]
fn aborted_frame_waits_nowhere() {
    let mut state = state();
    let a = session(1, on_output(1), Some(MODE));
    let b = session(2, on_output(1), Some(MODE));
    let c = cursor_session(1, on_output(1));
    state.new_image_copy_capture_session(a);
    state.new_image_copy_capture_session(b);
    state.new_image_copy_capture_cursor_session(c);
    state.image_copy_capture_frame_requested(&a.handle, frame(11));
    state.image_copy_capture_frame_requested(&b.handle, frame(12));
    state.image_copy_capture_cursor_frame_requested(&c.handle, frame(13));

    assert_eq!(
        state.image_copy_capture_frame_aborted(&frame(11)),
        vec![Action::DropFrame { frame: frame(11) }]
    );
    assert_eq!(pending(&state), vec![None, Some(frame(12))]);
    assert_eq!(cursor_pending(&state), vec![Some(frame(13))]);
    assert_eq!(
        state.image_copy_capture_frame_aborted(&frame(13)),
        vec![Action::DropFrame { frame: frame(13) }]
    );
    assert_eq!(cursor_pending(&state), vec![None]);
    assert_eq!(state.image_copy_capture_frame_aborted(&frame(14)), vec![]);
}

#[test]
fn destroyed_sessions_take_their_frames_along() {
    let mut state = state();
    let a = session(1, on_output(1), Some(MODE));
    let b = session(2, on_output(1), Some(MODE));
    let c = cursor_session(1, on_output(1));
    state.new_image_copy_capture_session(a);
    state.new_image_copy_capture_session(b);
    state.new_image_copy_capture_cursor_session(c);
    state.image_copy_capture_frame_requested(&a.handle, frame(11));
    state.image_copy_capture_frame_requested(&b.handle, frame(12));

    assert_eq!(
        state.image_copy_capture_session_destroyed(&a.handle),
        vec![Action::DropSession {
            session: 1,
            pending_frame: Some(frame(11))
        }]
    );
    assert_eq!(pending(&state), vec![Some(frame(12))]);
    assert_eq!(
        state.image_copy_capture_session_destroyed(&a.handle),
        vec![]
    );
    assert_eq!(
        state.image_copy_capture_cursor_session_destroyed(&c.handle),
        vec![Action::DropCursorSession {
            session: 1,
            pending_frame: None
        }]
    );
    assert_eq!(cursor_pending(&state), vec![]);
}

#[test]
fn refresh_sends_new_constraints_and_fails_waiting_frames() {
    let mut state = state();
    let stale = session(1, on_output(1), Some(Size { w: 1, h: 1 }));
    let fresh = session(2, on_output(1), None);
    let current = session(3, on_output(1), Some(MODE));
    for s in [stale, fresh, current] {
        state.new_image_copy_capture_session(s);
    }
    state.image_copy_capture_frame_requested(&stale.handle, frame(11));
    state.image_copy_capture_frame_requested(&current.handle, frame(13));
    assert_eq!(
        state.refresh_image_copy_capture(),
        vec![
            Action::UpdateConstraints {
                session: 1,
                constraints: shm_constraints(MODE)
            },
            Action::FailFrame {
                frame: frame(11),
                reason: CaptureFailureReason::BufferConstraints
            },
            Action::UpdateConstraints {
                session: 2,
                constraints: shm_constraints(MODE)
            },
            Action::Cleanup,
        ]
    );
    assert_eq!(pending(&state), vec![None, None, Some(frame(13))]);
    for entry in &state.niri.copy_capture_sessions {
        assert_eq!(entry.session.current_size, Some(MODE));
    }
    // Nothing is left to do.
    assert_eq!(state.refresh_image_copy_capture(), vec![Action::Cleanup]);
    assert_eq!(pending(&state), vec![None, None, Some(frame(13))]);
}

#[test]
fn refresh_stops_sessions_without_a_source() {
    let mut state = state();
    let gone = session(1, on_output(2), Some(MODE));
    let kept = session(2, on_window(70), Some(Size { w: 300, h: 200 }));
    let mut dead = session(3, on_output(1), Some(MODE));
    dead.alive = false;
    for s in [gone, kept, dead] {
        state.new_image_copy_capture_session(s);
    }
    state.image_copy_capture_frame_requested(&gone.handle, frame(11));

    let cursor_gone = cursor_session(7, on_output(2));
    let cursor_kept = cursor_session(8, on_output(1));
    let mut cursor_dead = cursor_session(9, on_output(1));
    cursor_dead.alive = false;
    for s in [cursor_gone, cursor_kept, cursor_dead] {
        state.new_image_copy_capture_cursor_session(s);
    }
    state.image_copy_capture_cursor_frame_requested(&cursor_dead.handle, frame(12));

    assert_eq!(
        state.refresh_image_copy_capture(),
        vec![
            Action::DropSession {
                session: 1,
                pending_frame: Some(frame(11))
            },
            Action::DropSession {
                session: 3,
                pending_frame: None
            },
            Action::DropCursorSession {
                session: 7,
                pending_frame: None
            },
            Action::DropCursorSession {
                session: 9,
                pending_frame: Some(frame(12))
            },
            Action::Cleanup,
        ]
    );
    assert_eq!(state.niri.copy_capture_sessions.len(), 1);
    assert_eq!(state.niri.copy_capture_sessions[0].session, kept);
    assert_eq!(state.niri.copy_capture_cursor_sessions.len(), 1);
    assert_eq!(
        state.niri.copy_capture_cursor_sessions[0].session.handle,
        cursor_kept.handle
    );
}

#[test]
fn new_cursor_session_is_told_where_the_cursor_is() {
    let mut state = state();
    let actions = state.new_image_copy_capture_cursor_session(cursor_session(5, on_output(1)));
    assert_eq!(
        actions,
        vec![
            Action::UpdateCursorConstraints {
                session: 5,
                constraints: cursor_constraints(48, 48)
            },
            Action::SetCursorHotspot {
                session: 5,
                hotspot: Point { x: 4, y: 6 }
            },
            Action::SetCursorPos {
                session: 5,
                pos: Some(Point { x: 100, y: 50 })
            },
        ]
    );
    // The constraints are not sent again.
    assert_eq!(
        state.niri.refresh_image_copy_cursor_sessions(),
        vec![
            Action::SetCursorHotspot {
                session: 5,
                hotspot: Point { x: 4, y: 6 }
            },
            Action::SetCursorPos {
                session: 5,
                pos: Some(Point { x: 100, y: 50 })
            },
        ]
    );
}

#[test]
fn refresh_leaves_frames_alone_that_are_queued_after_it() {
    let mut state = state();
    state.new_image_copy_capture_session(session(1, on_output(1), None));
    let handle = SessionRef {
        id: 1,
        source: on_output(1),
    };
    assert_eq!(
        state.refresh_image_copy_capture(),
        vec![
            Action::UpdateConstraints {
                session: 1,
                constraints: shm_constraints(MODE)
            },
            Action::Cleanup
        ]
    );
    state.image_copy_capture_frame_requested(&handle, frame(9));
    assert_eq!(state.refresh_image_copy_capture(), vec![Action::Cleanup]);
    assert_eq!(pending(&state), vec![Some(frame(9))]);
}

#[test]
fn every_frame_is_answered_once() {
    let mut state = state();
    let handle = SessionRef {
        id: 1,
        source: on_output(1),
    };
    state.new_image_copy_capture_session(session(1, on_output(1), Some(MODE)));
    let mut actions = state.image_copy_capture_frame_requested(&handle, frame(1));
    actions.extend(state.image_copy_capture_frame_requested(&handle, frame(2)));
    actions.extend(state.image_copy_capture_frame_aborted(&frame(1)));
    actions.extend(state.image_copy_capture_frame_requested(&handle, frame(3)));
    let mut smaller = output(1);
    smaller.current_mode = Some(Size { w: 640, h: 480 });
    state.niri.scene.set_output(smaller);
    actions.extend(state.refresh_image_copy_capture());
    actions.extend(state.image_copy_capture_frame_requested(&handle, frame(4)));
    actions.extend(state.image_copy_capture_session_destroyed(&handle));
    actions.extend(state.refresh_image_copy_capture());
    let mut answered: Vec<u64> = vec![];
    for action in &actions {
        match action {
            Action::FailFrame { frame, .. } | Action::DropFrame { frame } => {
                answered.push(frame.id)
            }
            Action::DropSession { pending_frame, .. } => {
                answered.extend(pending_frame.iter().map(|frame| frame.id))
            }
            _ => (),
        }
    }
    assert_eq!(answered, vec![2, 1, 3, 4]);
}
