//! The handlers of the protocol: new sessions, frame requests, and the periodic refresh.
use vstd::multiset::Multiset;
use vstd::prelude::*;

use crate::formats::{
    advertised, group_formats, BufferConstraints, BufferConstraintsView, DmabufConstraints,
    DmabufConstraintsView, DmabufFormat, ShmFormat,
};
use crate::geometry::Size;
use crate::history::{leads_to, Event};
use crate::niri::{
    cursor_capture_constraints, cursor_constraints_view, cursor_refresh_actions, cursor_sizes_fit,
    refreshed_cursor_sessions, source_target, tracked_cursor_fits, Niri,
};
use crate::scene::{CaptureSourceTarget, ImageCaptureSource, Scene};
use crate::session::{
    actions_view, cursor_session_ids, cursor_waiting, given_up, lemma_actions_push, session_ids,
    waiting, Action, ActionView, CaptureFailureReason, CopyCaptureCursorSession,
    CopyCaptureSession, CursorSession, CursorSessionRef, DamageTracker, Frame, Session, SessionRef,
};

verus! {

/// What the capture rules read of the graphics backend.
pub struct Backend {
    /// The device that the primary renderer renders on.
    pub primary_render_node: Option<u64>,
    /// The dmabuf formats that the primary renderer can render to, if there is such a renderer.
    pub render_formats: Option<Vec<DmabufFormat>>,
}

/// The state of the compositor.
pub struct State {
    pub niri: Niri,
    pub backend: Backend,
}

impl Backend {
    /// The dmabufs that a capture accepts.
    pub open spec fn dmabuf_constraints(self) -> Option<DmabufConstraintsView> {
        match (self.primary_render_node, self.render_formats) {
            (Some(node), Some(formats)) => if formats.len() == 0 {
                None
            } else {
                Some(DmabufConstraintsView { node, formats: advertised(formats@) })
            },
            _ => None,
        }
    }

    /// The constraints for a capture of some size.
    pub open spec fn constraints(self, size: Size) -> BufferConstraintsView {
        BufferConstraintsView {
            size,
            shm: seq![ShmFormat::Xrgb8888],
            dma: self.dmabuf_constraints(),
        }
    }
}

/// Where a request for a frame of a session is queued, if it is not refused.
pub open spec fn free_slot(ids: Seq<u64>, frames: Seq<Option<Frame>>, id: u64) -> Option<int> {
    match ids.index_of_first(id) {
        Some(i) => if frames[i] is None {
            Some(i)
        } else {
            None
        },
        None => None,
    }
}

/// What follows from a request for a frame: a redraw if the frame was queued and its source is on
/// an output, a failure if the request is refused.
pub open spec fn request_actions(
    slot: Option<int>,
    frame: Frame,
    output: Option<u64>,
) -> Seq<ActionView> {
    match (slot, output) {
        (Some(_), Some(output)) => seq![ActionView::QueueRedraw { output }],
        (Some(_), None) => Seq::empty(),
        (None, _) => seq![
            ActionView::FailFrame { frame, reason: CaptureFailureReason::Unknown },
        ],
    }
}

/// Where a request for a frame of a capture session is queued, if it is not refused.
pub open spec fn session_slot(sessions: Seq<CopyCaptureSession>, id: u64) -> Option<int> {
    free_slot(session_ids(sessions), waiting(sessions), id)
}

/// Where a request for a frame of a cursor capture session is queued, if it is not refused.
pub open spec fn cursor_session_slot(
    sessions: Seq<CopyCaptureCursorSession>,
    id: u64,
) -> Option<int> {
    free_slot(cursor_session_ids(sessions), cursor_waiting(sessions), id)
}

/// Capture sessions after a request for a frame.
pub open spec fn with_request(
    sessions: Seq<CopyCaptureSession>,
    id: u64,
    frame: Frame,
) -> Seq<CopyCaptureSession> {
    match session_slot(sessions, id) {
        Some(i) => sessions.update(i, sessions[i].with_frame(Some(frame))),
        None => sessions,
    }
}

/// Cursor capture sessions after a request for a frame.
pub open spec fn with_cursor_request(
    sessions: Seq<CopyCaptureCursorSession>,
    id: u64,
    frame: Frame,
) -> Seq<CopyCaptureCursorSession> {
    match cursor_session_slot(sessions, id) {
        Some(i) => sessions.update(i, sessions[i].with_frame(Some(frame))),
        None => sessions,
    }
}

/// The output of a cursor capture source.
pub open spec fn cursor_redrawn_output(scene: Scene, source: ImageCaptureSource) -> Option<u64> {
    match scene.target(source) {
        Some(CaptureSourceTarget::Output(output)) => Some(output.id),
        _ => None,
    }
}

/// Capture sessions without a frame.
pub open spec fn without_frame(sessions: Seq<CopyCaptureSession>, frame: Frame) -> Seq<
    CopyCaptureSession,
> {
    sessions.map_values(
        |entry: CopyCaptureSession|
            if entry.pending_frame == Some(frame) {
                entry.with_frame(None)
            } else {
                entry
            },
    )
}

/// Cursor capture sessions without a frame.
pub open spec fn cursor_without_frame(
    sessions: Seq<CopyCaptureCursorSession>,
    frame: Frame,
) -> Seq<CopyCaptureCursorSession> {
    sessions.map_values(
        |entry: CopyCaptureCursorSession|
            if entry.pending_frame == Some(frame) {
                entry.with_frame(None)
            } else {
                entry
            },
    )
}

/// A frame is let go of wherever it waits.
pub open spec fn drop_frame_actions(frames: Seq<Option<Frame>>, frame: Frame) -> Seq<ActionView>
    decreases frames.len(),
{
    if frames.len() == 0 {
        Seq::empty()
    } else {
        let before = drop_frame_actions(frames.drop_last(), frame);
        if frames.last() == Some(frame) {
            before.push(ActionView::DropFrame { frame })
        } else {
            before
        }
    }
}

/// The sessions that are not this one.
pub open spec fn without_session(sessions: Seq<CopyCaptureSession>, id: u64) -> Seq<
    CopyCaptureSession,
> {
    sessions.filter(|entry: CopyCaptureSession| entry.session.handle.id != id)
}

/// The cursor sessions that are not this one.
pub open spec fn without_cursor_session(sessions: Seq<CopyCaptureCursorSession>, id: u64) -> Seq<
    CopyCaptureCursorSession,
> {
    sessions.filter(|entry: CopyCaptureCursorSession| entry.session.handle.id != id)
}

/// The client destroyed a session.
pub open spec fn drop_session_actions(sessions: Seq<CopyCaptureSession>, id: u64) -> Seq<ActionView>
    decreases sessions.len(),
{
    if sessions.len() == 0 {
        Seq::empty()
    } else {
        let before = drop_session_actions(sessions.drop_last(), id);
        let entry = sessions.last();
        if entry.session.handle.id == id {
            before.push(ActionView::DropSession { session: id, pending_frame: entry.pending_frame })
        } else {
            before
        }
    }
}

/// The client destroyed a cursor session.
pub open spec fn drop_cursor_session_actions(
    sessions: Seq<CopyCaptureCursorSession>,
    id: u64,
) -> Seq<ActionView>
    decreases sessions.len(),
{
    if sessions.len() == 0 {
        Seq::empty()
    } else {
        let before = drop_cursor_session_actions(sessions.drop_last(), id);
        let entry = sessions.last();
        if entry.session.handle.id == id {
            before.push(
                ActionView::DropCursorSession { session: id, pending_frame: entry.pending_frame },
            )
        } else {
            before
        }
    }
}

/// The size that a session is kept with on a refresh: that of its source. There is none if the
/// client or the source is gone.
pub open spec fn kept_size(scene: Scene, session: Session) -> Option<Size> {
    if session.alive {
        scene.source_size(session.handle.source)
    } else {
        None
    }
}

/// A session after a refresh, if it is kept.
pub open spec fn refreshed_session(scene: Scene, entry: CopyCaptureSession) -> Option<
    CopyCaptureSession,
> {
    match kept_size(scene, entry.session) {
        Some(size) => Some(
            if entry.session.current_size == Some(size) {
                entry
            } else {
                CopyCaptureSession {
                    session: Session { current_size: Some(size), ..entry.session },
                    pending_frame: None,
                    ..entry
                }
            },
        ),
        None => None,
    }
}

/// What a refresh sends to a session: new constraints if the size changed, and after them the
/// failure of a frame that waits, whose buffer no longer matches.
pub open spec fn session_actions(scene: Scene, backend: Backend, entry: CopyCaptureSession) -> Seq<
    ActionView,
> {
    let session = entry.session.handle.id;
    match kept_size(scene, entry.session) {
        Some(size) => if entry.session.current_size == Some(size) {
            Seq::empty()
        } else {
            let update = ActionView::UpdateConstraints {
                session,
                constraints: backend.constraints(size),
            };
            match entry.pending_frame {
                Some(frame) => seq![
                    update,
                    ActionView::FailFrame {
                        frame,
                        reason: CaptureFailureReason::BufferConstraints,
                    },
                ],
                None => seq![update],
            }
        },
        None => seq![ActionView::DropSession { session, pending_frame: entry.pending_frame }],
    }
}

/// Capture sessions after a refresh.
pub open spec fn refreshed_sessions(scene: Scene, sessions: Seq<CopyCaptureSession>) -> Seq<
    CopyCaptureSession,
>
    decreases sessions.len(),
{
    if sessions.len() == 0 {
        Seq::empty()
    } else {
        let before = refreshed_sessions(scene, sessions.drop_last());
        match refreshed_session(scene, sessions.last()) {
            Some(entry) => before.push(entry),
            None => before,
        }
    }
}

/// What a refresh sends to capture sessions.
pub open spec fn refresh_actions(
    scene: Scene,
    backend: Backend,
    sessions: Seq<CopyCaptureSession>,
) -> Seq<ActionView>
    decreases sessions.len(),
{
    if sessions.len() == 0 {
        Seq::empty()
    } else {
        refresh_actions(scene, backend, sessions.drop_last()) + session_actions(
            scene,
            backend,
            sessions.last(),
        )
    }
}

/// A cursor session is kept on a refresh: its client and its source are still around.
pub open spec fn cursor_session_kept(scene: Scene, session: CursorSession) -> bool {
    session.alive && scene.target(session.handle.source) is Some
}

/// The cursor sessions that a refresh keeps.
pub open spec fn kept_cursor_sessions(
    scene: Scene,
    sessions: Seq<CopyCaptureCursorSession>,
) -> Seq<CopyCaptureCursorSession> {
    sessions.filter(|entry: CopyCaptureCursorSession| cursor_session_kept(scene, entry.session))
}

/// The cursor sessions that a refresh lets go of.
pub open spec fn stop_cursor_actions(
    scene: Scene,
    sessions: Seq<CopyCaptureCursorSession>,
) -> Seq<ActionView>
    decreases sessions.len(),
{
    if sessions.len() == 0 {
        Seq::empty()
    } else {
        let before = stop_cursor_actions(scene, sessions.drop_last());
        let entry = sessions.last();
        if cursor_session_kept(scene, entry.session) {
            before
        } else {
            before.push(
                ActionView::DropCursorSession {
                    session: entry.session.handle.id,
                    pending_frame: entry.pending_frame,
                },
            )
        }
    }
}

fn find_session(sessions: &Vec<CopyCaptureSession>, id: u64) -> (r: Option<usize>)
    ensures
        match r {
            Some(i) => session_ids(sessions@).index_of_first(id) == Some(i as int) && i
                < sessions.len(),
            None => session_ids(sessions@).index_of_first(id) is None,
        },
{
    let ghost ids = session_ids(sessions@);
    let mut i: usize = 0;
    while i < sessions.len()
        invariant
            i <= sessions.len(),
            ids == session_ids(sessions@),
            forall|j: int| 0 <= j < i ==> ids[j] != id,
        decreases sessions.len() - i,
    {
        if sessions[i].session.handle.id == id {
            proof {
                assert(ids[i as int] == id);
                ids.index_of_first_ensures(id);
            }
            return Some(i);
        }
        i += 1;
    }
    proof {
        ids.index_of_first_ensures(id);
    }
    None
}

fn find_cursor_session(sessions: &Vec<CopyCaptureCursorSession>, id: u64) -> (r: Option<usize>)
    ensures
        match r {
            Some(i) => cursor_session_ids(sessions@).index_of_first(id) == Some(i as int) && i
                < sessions.len(),
            None => cursor_session_ids(sessions@).index_of_first(id) is None,
        },
{
    let ghost ids = cursor_session_ids(sessions@);
    let mut i: usize = 0;
    while i < sessions.len()
        invariant
            i <= sessions.len(),
            ids == cursor_session_ids(sessions@),
            forall|j: int| 0 <= j < i ==> ids[j] != id,
        decreases sessions.len() - i,
    {
        if sessions[i].session.handle.id == id {
            proof {
                assert(ids[i as int] == id);
                ids.index_of_first_ensures(id);
            }
            return Some(i);
        }
        i += 1;
    }
    proof {
        ids.index_of_first_ensures(id);
    }
    None
}

fn waits_for(pending: Option<Frame>, frame: &Frame) -> (r: bool)
    ensures
        r == (pending == Some(*frame)),
{
    match pending {
        Some(f) => f == *frame,
        None => false,
    }
}

impl State {
    /// Computes the current buffer constraints for a capture source.
    ///
    /// Returns `None` if the source is gone, which rejects the capture.
    pub fn image_capture_constraints(&self, source: &ImageCaptureSource) -> (r: Option<
        BufferConstraints,
    >)
        ensures
            match (r, self.niri.scene.source_size(*source)) {
                (Some(constraints), Some(size)) => constraints@ == self.backend.constraints(size),
                (None, None) => true,
                _ => false,
            },
    {
        match self.image_capture_source_size(source) {
            Some(size) => Some(self.build_image_capture_constraints(size)),
            None => None,
        }
    }

    /// Computes the current buffer size for a capture source.
    fn image_capture_source_size(&self, source: &ImageCaptureSource) -> (r: Option<Size>)
        ensures
            r == self.niri.scene.source_size(*source),
    {
        let size = match source_target(&self.niri, source) {
            // The buffer keeps the output's native (untransformed) orientation; the output
            // transform is delivered with each frame instead.
            Some(CaptureSourceTarget::Output(output)) => output.current_mode,
            Some(CaptureSourceTarget::Toplevel(surface)) => {
                match self.niri.scene.find_window(surface) {
                    Some(mapped) => Some(mapped.bbox.size),
                    None => None,
                }
            },
            None => None,
        };
        match size {
            Some(size) => {
                if size.is_empty() {
                    None
                } else {
                    Some(size)
                }
            },
            None => None,
        }
    }

    fn build_image_capture_constraints(&self, size: Size) -> (r: BufferConstraints)
        ensures
            r@ == self.backend.constraints(size),
    {
        let dma = match (self.backend.primary_render_node, &self.backend.render_formats) {
            (Some(node), Some(formats)) => {
                if formats.len() == 0 {
                    None
                } else {
                    Some(DmabufConstraints { node, formats: group_formats(formats) })
                }
            },
            _ => None,
        };
        // Rendering to shared memory only supports Xrgb8888.
        let mut shm: Vec<ShmFormat> = Vec::new();
        shm.push(ShmFormat::Xrgb8888);
        BufferConstraints { size, shm, dma }
    }

    /// Computes the cursor buffer constraints for a capture source.
    ///
    /// Returns `None` for toplevel sources: cursor capture is only supported for outputs.
    pub fn image_capture_cursor_constraints(&self, source: &ImageCaptureSource) -> (r: Option<
        BufferConstraints,
    >)
        requires
            self.niri.scene.target(*source) matches Some(CaptureSourceTarget::Output(output))
                ==> output.nominal_cursor_fits(self.niri.scene.xcursor_size),
        ensures
            match (r, self.niri.scene.target(*source)) {
                (
                    Some(constraints),
                    Some(CaptureSourceTarget::Output(output)),
                ) => constraints@ == cursor_constraints_view(self.niri.scene.cursor_size(output)),
                (None, Some(CaptureSourceTarget::Output(_))) => false,
                (None, _) => true,
                _ => false,
            },
    {
        match source_target(&self.niri, source) {
            Some(CaptureSourceTarget::Output(output)) => {
                Some(cursor_capture_constraints(&self.niri, &output))
            },
            _ => None,
        }
    }

    /// Adds a new capture session.
    pub fn new_image_copy_capture_session(&mut self, session: Session)
        ensures
            final(self).backend == old(self).backend,
            final(self).niri.scene == old(self).niri.scene,
            final(self).niri.copy_capture_cursor_sessions
                == old(self).niri.copy_capture_cursor_sessions,
            final(self).niri.copy_capture_sessions@ == old(self).niri.copy_capture_sessions@.push(
                CopyCaptureSession {
                    session,
                    damage_tracker: DamageTracker::spec_initial(),
                    pending_frame: None,
                },
            ),
            leads_to(
                old(self).niri@,
                Event::NewSession { session },
                final(self).niri@,
                Multiset::empty(),
            ),
    {
        self.niri.copy_capture_sessions.push(CopyCaptureSession::new(session));
    }

    /// Adds a new cursor capture session and sends it the initial cursor position and hotspot.
    pub fn new_image_copy_capture_cursor_session(&mut self, session: CursorSession) -> (actions:
        Vec<Action>)
        requires
            cursor_sizes_fit(
                old(self).niri.scene,
                old(self).niri.copy_capture_cursor_sessions@,
            ),
            tracked_cursor_fits(old(self).niri.scene, session.handle.source),
        ensures
            final(self).backend == old(self).backend,
            final(self).niri.scene == old(self).niri.scene,
            final(self).niri.copy_capture_sessions == old(self).niri.copy_capture_sessions,
            ({
                let sessions = old(self).niri.copy_capture_cursor_sessions@.push(
                    CopyCaptureCursorSession {
                        session,
                        damage_tracker: DamageTracker::spec_initial(),
                        pending_frame: None,
                    },
                );
                &&& final(self).niri.copy_capture_cursor_sessions@ == refreshed_cursor_sessions(
                    old(self).niri.scene,
                    sessions,
                )
                &&& actions_view(actions@) == cursor_refresh_actions(
                    old(self).niri.scene,
                    sessions,
                )
            }),
            leads_to(
                old(self).niri@,
                Event::NewCursorSession { session },
                final(self).niri@,
                given_up(actions_view(actions@)),
            ),
    {
        self.niri.copy_capture_cursor_sessions.push(CopyCaptureCursorSession::new(session));
        self.niri.refresh_image_copy_cursor_sessions()
    }

    /// Queues a capture frame for delivery on the next redraw with damage.
    pub fn image_copy_capture_frame_requested(&mut self, session: &SessionRef, frame: Frame) -> (
    actions: Vec<Action>)
        ensures
            final(self).backend == old(self).backend,
            final(self).niri.scene == old(self).niri.scene,
            final(self).niri.copy_capture_cursor_sessions
                == old(self).niri.copy_capture_cursor_sessions,
            final(self).niri.copy_capture_sessions@ == with_request(
                old(self).niri.copy_capture_sessions@,
                session.id,
                frame,
            ),
            actions_view(actions@) == request_actions(
                session_slot(old(self).niri.copy_capture_sessions@, session.id),
                frame,
                old(self).niri.scene.redrawn_output(session.source),
            ),
            leads_to(
                old(self).niri@,
                Event::FrameRequested { session: *session, frame },
                final(self).niri@,
                given_up(actions_view(actions@)),
            ),
    {
        broadcast use crate::session::lemma_actions_push;

        let mut actions: Vec<Action> = Vec::new();
        let ghost sessions = self.niri.copy_capture_sessions@;
        assert(actions_view(actions@) == Seq::<ActionView>::empty());
        proof {
            session_ids(sessions).index_of_first_ensures(session.id);
        }
        let i: usize = match find_session(&self.niri.copy_capture_sessions, session.id) {
            Some(i) => i,
            None => {
                let reason = CaptureFailureReason::Unknown;
                actions.push(Action::FailFrame { frame, reason });
                return actions;
            },
        };
        let mut entry = self.niri.copy_capture_sessions[i];
        if entry.pending_frame.is_some() {
            // Only one frame can be captured at a time.
            let reason = CaptureFailureReason::Unknown;
            actions.push(Action::FailFrame { frame, reason });
            return actions;
        }
        entry.pending_frame = Some(frame);
        self.niri.copy_capture_sessions.set(i, entry);

        // Queue a redraw of the source's output so the frame gets delivered even when nothing else
        // causes a redraw. If the source didn't change since the last frame, delivery will wait
        // until it does.
        let output = match source_target(&self.niri, &session.source) {
            Some(CaptureSourceTarget::Output(output)) => Some(output.id),
            Some(CaptureSourceTarget::Toplevel(surface)) => {
                match self.niri.scene.find_window(surface) {
                    Some(mapped) => mapped.output,
                    None => None,
                }
            },
            // The source is gone; the session will be stopped in the next refresh, failing the
            // frame.
            None => None,
        };
        if let Some(output) = output {
            if self.niri.scene.has_output(output) {
                actions.push(Action::QueueRedraw { output });
            }
        }
        actions
    }

    /// Queues a cursor capture frame for delivery on the next redraw with a cursor image change.
    pub fn image_copy_capture_cursor_frame_requested(
        &mut self,
        session: &CursorSessionRef,
        frame: Frame,
    ) -> (actions: Vec<Action>)
        ensures
            final(self).backend == old(self).backend,
            final(self).niri.scene == old(self).niri.scene,
            final(self).niri.copy_capture_sessions == old(self).niri.copy_capture_sessions,
            final(self).niri.copy_capture_cursor_sessions@ == with_cursor_request(
                old(self).niri.copy_capture_cursor_sessions@,
                session.id,
                frame,
            ),
            actions_view(actions@) == request_actions(
                cursor_session_slot(old(self).niri.copy_capture_cursor_sessions@, session.id),
                frame,
                cursor_redrawn_output(old(self).niri.scene, session.source),
            ),
            leads_to(
                old(self).niri@,
                Event::CursorFrameRequested { session: *session, frame },
                final(self).niri@,
                given_up(actions_view(actions@)),
            ),
    {
        broadcast use crate::session::lemma_actions_push;

        let mut actions: Vec<Action> = Vec::new();
        let ghost sessions = self.niri.copy_capture_cursor_sessions@;
        assert(actions_view(actions@) == Seq::<ActionView>::empty());
        proof {
            cursor_session_ids(sessions).index_of_first_ensures(session.id);
        }
        let i: usize = match find_cursor_session(
            &self.niri.copy_capture_cursor_sessions,
            session.id,
        ) {
            Some(i) => i,
            None => {
                let reason = CaptureFailureReason::Unknown;
                actions.push(Action::FailFrame { frame, reason });
                return actions;
            },
        };
        let mut entry = self.niri.copy_capture_cursor_sessions[i];
        if entry.pending_frame.is_some() {
            // Only one frame can be captured at a time.
            let reason = CaptureFailureReason::Unknown;
            actions.push(Action::FailFrame { frame, reason });
            return actions;
        }
        entry.pending_frame = Some(frame);
        self.niri.copy_capture_cursor_sessions.set(i, entry);
        if let Some(CaptureSourceTarget::Output(output)) = source_target(
            &self.niri,
            &session.source,
        ) {
            actions.push(Action::QueueRedraw { output: output.id });
        }
        actions
    }

    /// Drops the queued frame that the client aborted.
    pub fn image_copy_capture_frame_aborted(&mut self, frame: &Frame) -> (actions: Vec<Action>)
        ensures
            final(self).backend == old(self).backend,
            final(self).niri.scene == old(self).niri.scene,
            final(self).niri.copy_capture_sessions@ == without_frame(
                old(self).niri.copy_capture_sessions@,
                *frame,
            ),
            final(self).niri.copy_capture_cursor_sessions@ == cursor_without_frame(
                old(self).niri.copy_capture_cursor_sessions@,
                *frame,
            ),
            actions_view(actions@) == drop_frame_actions(
                waiting(old(self).niri.copy_capture_sessions@),
                *frame,
            ) + drop_frame_actions(
                cursor_waiting(old(self).niri.copy_capture_cursor_sessions@),
                *frame,
            ),
            leads_to(
                old(self).niri@,
                Event::FrameAborted { frame: *frame },
                final(self).niri@,
                given_up(actions_view(actions@)),
            ),
    {
        broadcast use crate::session::lemma_actions_push;

        let mut actions: Vec<Action> = Vec::new();
        let ghost sessions = self.niri.copy_capture_sessions@;
        let ghost frames = waiting(sessions);
        let mut i: usize = 0;
        assert(frames.take(0).len() == 0);
        assert(actions_view(actions@) == Seq::<ActionView>::empty());
        while i < self.niri.copy_capture_sessions.len()
            invariant
                i <= sessions.len(),
                self.niri.copy_capture_sessions.len() == sessions.len(),
                self.backend == old(self).backend,
                self.niri.scene == old(self).niri.scene,
                self.niri.copy_capture_cursor_sessions
                    == old(self).niri.copy_capture_cursor_sessions,
                frames == waiting(sessions),
                actions_view(actions@) == drop_frame_actions(frames.take(i as int), *frame),
                forall|j: int|
                    0 <= j < i ==> #[trigger] self.niri.copy_capture_sessions@[j] == without_frame(
                        sessions,
                        *frame,
                    )[j],
                forall|j: int|
                    i <= j < sessions.len() ==> self.niri.copy_capture_sessions@[j] == sessions[j],
            decreases sessions.len() - i,
        {
            let mut entry = self.niri.copy_capture_sessions[i];
            if waits_for(entry.pending_frame, frame) {
                entry.pending_frame = None;
                self.niri.copy_capture_sessions.set(i, entry);
                actions.push(Action::DropFrame { frame: *frame });
            }
            assert(frames.take(i + 1).drop_last() == frames.take(i as int));
            i += 1;
        }
        assert(frames.take(i as int) == frames);
        assert(self.niri.copy_capture_sessions@ == without_frame(sessions, *frame));

        let ghost cursor_sessions = self.niri.copy_capture_cursor_sessions@;
        let ghost cursor_frames = cursor_waiting(cursor_sessions);
        let ghost first = drop_frame_actions(frames, *frame);
        let mut i: usize = 0;
        assert(cursor_frames.take(0).len() == 0);
        assert(actions_view(actions@) == first + drop_frame_actions(cursor_frames.take(0), *frame));
        while i < self.niri.copy_capture_cursor_sessions.len()
            invariant
                i <= cursor_sessions.len(),
                self.niri.copy_capture_cursor_sessions.len() == cursor_sessions.len(),
                self.backend == old(self).backend,
                self.niri.scene == old(self).niri.scene,
                self.niri.copy_capture_sessions@ == without_frame(sessions, *frame),
                cursor_frames == cursor_waiting(cursor_sessions),
                actions_view(actions@) == first + drop_frame_actions(
                    cursor_frames.take(i as int),
                    *frame,
                ),
                forall|j: int|
                    0 <= j < i ==> #[trigger] self.niri.copy_capture_cursor_sessions@[j]
                        == cursor_without_frame(cursor_sessions, *frame)[j],
                forall|j: int|
                    i <= j < cursor_sessions.len() ==> self.niri.copy_capture_cursor_sessions@[j]
                        == cursor_sessions[j],
            decreases cursor_sessions.len() - i,
        {
            let mut entry = self.niri.copy_capture_cursor_sessions[i];
            if waits_for(entry.pending_frame, frame) {
                entry.pending_frame = None;
                self.niri.copy_capture_cursor_sessions.set(i, entry);
                let ghost before = actions@;
                actions.push(Action::DropFrame { frame: *frame });
                proof {
                    lemma_actions_push(before, actions@.last());
                }
                assert(actions_view(actions@) == first + drop_frame_actions(
                    cursor_frames.take(i as int),
                    *frame,
                ).push(ActionView::DropFrame { frame: *frame }));
            }
            assert(cursor_frames.take(i + 1).drop_last() == cursor_frames.take(i as int));
            i += 1;
        }
        assert(cursor_frames.take(i as int) == cursor_frames);
        assert(self.niri.copy_capture_cursor_sessions@ == cursor_without_frame(
            cursor_sessions,
            *frame,
        ));
        actions
    }

    /// Removes the session that the client destroyed.
    pub fn image_copy_capture_session_destroyed(&mut self, session: &SessionRef) -> (actions: Vec<
        Action,
    >)
        ensures
            final(self).backend == old(self).backend,
            final(self).niri.scene == old(self).niri.scene,
            final(self).niri.copy_capture_cursor_sessions
                == old(self).niri.copy_capture_cursor_sessions,
            final(self).niri.copy_capture_sessions@ == without_session(
                old(self).niri.copy_capture_sessions@,
                session.id,
            ),
            actions_view(actions@) == drop_session_actions(
                old(self).niri.copy_capture_sessions@,
                session.id,
            ),
            leads_to(
                old(self).niri@,
                Event::SessionDestroyed { session: *session },
                final(self).niri@,
                given_up(actions_view(actions@)),
            ),
    {
        broadcast use crate::session::lemma_actions_push;

        let mut actions: Vec<Action> = Vec::new();
        let mut kept: Vec<CopyCaptureSession> = Vec::new();
        let ghost sessions = self.niri.copy_capture_sessions@;
        let mut i: usize = 0;
        proof {
            reveal(Seq::filter);
        }
        assert(sessions.take(0).len() == 0);
        assert(kept@ == without_session(sessions.take(0), session.id));
        assert(actions_view(actions@) == Seq::<ActionView>::empty());
        while i < self.niri.copy_capture_sessions.len()
            invariant
                i <= sessions.len(),
                *self == *old(self),
                sessions == self.niri.copy_capture_sessions@,
                kept@ == without_session(sessions.take(i as int), session.id),
                actions_view(actions@) == drop_session_actions(
                    sessions.take(i as int),
                    session.id,
                ),
            decreases sessions.len() - i,
        {
            let entry = self.niri.copy_capture_sessions[i];
            if entry.session.handle.id != session.id {
                kept.push(entry);
            } else {
                let pending_frame = entry.pending_frame;
                actions.push(Action::DropSession { session: session.id, pending_frame });
            }
            proof {
                reveal(Seq::filter);
            }
            assert(sessions.take(i + 1).drop_last() == sessions.take(i as int));
            i += 1;
        }
        assert(sessions.take(i as int) == sessions);
        self.niri.copy_capture_sessions = kept;
        actions
    }

    /// Removes the cursor session that the client destroyed.
    pub fn image_copy_capture_cursor_session_destroyed(&mut self, session: &CursorSessionRef) -> (
    actions: Vec<Action>)
        ensures
            final(self).backend == old(self).backend,
            final(self).niri.scene == old(self).niri.scene,
            final(self).niri.copy_capture_sessions == old(self).niri.copy_capture_sessions,
            final(self).niri.copy_capture_cursor_sessions@ == without_cursor_session(
                old(self).niri.copy_capture_cursor_sessions@,
                session.id,
            ),
            actions_view(actions@) == drop_cursor_session_actions(
                old(self).niri.copy_capture_cursor_sessions@,
                session.id,
            ),
            leads_to(
                old(self).niri@,
                Event::CursorSessionDestroyed { session: *session },
                final(self).niri@,
                given_up(actions_view(actions@)),
            ),
    {
        broadcast use crate::session::lemma_actions_push;

        let mut actions: Vec<Action> = Vec::new();
        let mut kept: Vec<CopyCaptureCursorSession> = Vec::new();
        let ghost sessions = self.niri.copy_capture_cursor_sessions@;
        let mut i: usize = 0;
        proof {
            reveal(Seq::filter);
        }
        assert(sessions.take(0).len() == 0);
        assert(kept@ == without_cursor_session(sessions.take(0), session.id));
        assert(actions_view(actions@) == Seq::<ActionView>::empty());
        while i < self.niri.copy_capture_cursor_sessions.len()
            invariant
                i <= sessions.len(),
                *self == *old(self),
                sessions == self.niri.copy_capture_cursor_sessions@,
                kept@ == without_cursor_session(sessions.take(i as int), session.id),
                actions_view(actions@) == drop_cursor_session_actions(
                    sessions.take(i as int),
                    session.id,
                ),
            decreases sessions.len() - i,
        {
            let entry = self.niri.copy_capture_cursor_sessions[i];
            if entry.session.handle.id != session.id {
                kept.push(entry);
            } else {
                let pending_frame = entry.pending_frame;
                actions.push(Action::DropCursorSession { session: session.id, pending_frame });
            }
            proof {
                reveal(Seq::filter);
            }
            assert(sessions.take(i + 1).drop_last() == sessions.take(i as int));
            i += 1;
        }
        assert(sessions.take(i as int) == sessions);
        self.niri.copy_capture_cursor_sessions = kept;
        actions
    }

    /// Updates capture session constraints and stops sessions whose source is gone.
    ///
    /// Cursor session constraints and positions are refreshed on their own; of the cursor
    /// sessions, only those with a dead source are stopped here.
    pub fn refresh_image_copy_capture(&mut self) -> (actions: Vec<Action>)
        ensures
            final(self).backend == old(self).backend,
            final(self).niri.scene == old(self).niri.scene,
            final(self).niri.copy_capture_sessions@ == refreshed_sessions(
                old(self).niri.scene,
                old(self).niri.copy_capture_sessions@,
            ),
            final(self).niri.copy_capture_cursor_sessions@ == kept_cursor_sessions(
                old(self).niri.scene,
                old(self).niri.copy_capture_cursor_sessions@,
            ),
            actions_view(actions@) == (refresh_actions(
                old(self).niri.scene,
                old(self).backend,
                old(self).niri.copy_capture_sessions@,
            ) + stop_cursor_actions(
                old(self).niri.scene,
                old(self).niri.copy_capture_cursor_sessions@,
            )).push(ActionView::Cleanup),
            leads_to(
                old(self).niri@,
                Event::Refresh { backend: old(self).backend },
                final(self).niri@,
                given_up(actions_view(actions@)),
            ),
    {
        broadcast use crate::session::lemma_actions_push;

        let ghost scene = self.niri.scene;
        let ghost backend = self.backend;
        let mut actions: Vec<Action> = Vec::new();
        let mut kept: Vec<CopyCaptureSession> = Vec::new();
        let ghost sessions = self.niri.copy_capture_sessions@;
        let mut i: usize = 0;
        assert(sessions.take(0).len() == 0);
        assert(actions_view(actions@) == Seq::<ActionView>::empty());
        while i < self.niri.copy_capture_sessions.len()
            invariant
                i <= sessions.len(),
                *self == *old(self),
                scene == self.niri.scene,
                backend == self.backend,
                sessions == self.niri.copy_capture_sessions@,
                kept@ == refreshed_sessions(scene, sessions.take(i as int)),
                actions_view(actions@) == refresh_actions(scene, backend, sessions.take(i as int)),
            decreases sessions.len() - i,
        {
            if let Some(entry) = self.refresh_session(
                self.niri.copy_capture_sessions[i],
                &mut actions,
            ) {
                kept.push(entry);
            }
            assert(sessions.take(i + 1).drop_last() == sessions.take(i as int));
            i += 1;
        }
        assert(sessions.take(i as int) == sessions);

        let mut kept_cursor: Vec<CopyCaptureCursorSession> = Vec::new();
        let ghost cursor_sessions = self.niri.copy_capture_cursor_sessions@;
        let ghost first = refresh_actions(scene, backend, sessions);
        let mut i: usize = 0;
        proof {
            reveal(Seq::filter);
        }
        assert(cursor_sessions.take(0).len() == 0);
        assert(kept_cursor@ == kept_cursor_sessions(scene, cursor_sessions.take(0)));
        assert(actions_view(actions@) == first + stop_cursor_actions(
            scene,
            cursor_sessions.take(0),
        ));
        while i < self.niri.copy_capture_cursor_sessions.len()
            invariant
                i <= cursor_sessions.len(),
                *self == *old(self),
                scene == self.niri.scene,
                cursor_sessions == self.niri.copy_capture_cursor_sessions@,
                kept_cursor@ == kept_cursor_sessions(scene, cursor_sessions.take(i as int)),
                actions_view(actions@) == first + stop_cursor_actions(
                    scene,
                    cursor_sessions.take(i as int),
                ),
            decreases cursor_sessions.len() - i,
        {
            let entry = self.niri.copy_capture_cursor_sessions[i];
            if entry.session.alive && source_target(
                &self.niri,
                &entry.session.handle.source,
            ).is_some() {
                kept_cursor.push(entry);
            } else {
                let pending_frame = entry.pending_frame;
                let session: u64 = entry.session.handle.id;
                let ghost before = actions@;
                actions.push(Action::DropCursorSession { session, pending_frame });
                proof {
                    lemma_actions_push(before, actions@.last());
                }
                assert(actions_view(actions@) == first + stop_cursor_actions(
                    scene,
                    cursor_sessions.take(i as int),
                ).push(ActionView::DropCursorSession { session, pending_frame }));
            }
            proof {
                reveal(Seq::filter);
            }
            assert(cursor_sessions.take(i + 1).drop_last() == cursor_sessions.take(i as int));
            i += 1;
        }
        assert(cursor_sessions.take(i as int) == cursor_sessions);
        self.niri.copy_capture_sessions = kept;
        self.niri.copy_capture_cursor_sessions = kept_cursor;

        // Forget the protocol objects of dead sessions.
        actions.push(Action::Cleanup);
        actions
    }

    fn refresh_session(&self, entry: CopyCaptureSession, actions: &mut Vec<Action>) -> (r: Option<
        CopyCaptureSession,
    >)
        ensures
            r == refreshed_session(self.niri.scene, entry),
            actions_view(final(actions)@) == actions_view(old(actions)@) + session_actions(
                self.niri.scene,
                self.backend,
                entry,
            ),
    {
        broadcast use crate::session::lemma_actions_push;

        let mut entry = entry;
        let session: u64 = entry.session.handle.id;
        let pending_frame = entry.pending_frame;
        if !entry.session.alive {
            actions.push(Action::DropSession { session, pending_frame });
            return None;
        }
        let size = match self.image_capture_source_size(&entry.session.handle.source) {
            Some(size) => size,
            None => {
                // The source is gone; dropping the session stops it and fails the pending frame.
                actions.push(Action::DropSession { session, pending_frame });
                return None;
            },
        };
        let unchanged = match entry.session.current_size {
            Some(current) => current == size,
            None => false,
        };
        if !unchanged {
            let constraints = self.build_image_capture_constraints(size);
            entry.session.current_size = Some(size);
            actions.push(Action::UpdateConstraints { session, constraints });

            // The pending frame's buffer no longer matches; fail it so the client can reallocate.
            if let Some(frame) = pending_frame {
                entry.pending_frame = None;
                let reason = CaptureFailureReason::BufferConstraints;
                actions.push(Action::FailFrame { frame, reason });
            }
        }
        Some(entry)
    }
}

} // verus!
