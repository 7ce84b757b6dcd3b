//! Capture sessions, the frames that wait in them, and what is sent to clients.
use vstd::prelude::*;
use vstd::multiset::Multiset;

use crate::formats::{BufferConstraints, BufferConstraintsView};
use crate::geometry::{Point, Size, Transform};
use crate::scene::{ImageCaptureSource, Scale};

verus! {

/// The identity of a frame that a client asked for. The frame is answered once: delivered, failed
/// or let go.
#[derive(Clone, Copy, PartialEq, Eq, Structural, Debug)]
pub struct Frame {
    pub id: u64,
}

/// Why a capture failed.
#[derive(Clone, Copy, PartialEq, Eq, Structural, Debug)]
pub enum CaptureFailureReason {
    Unknown,
    /// The buffer does not match the current constraints.
    BufferConstraints,
}

/// A reference to a capture session: its identity and its source.
#[derive(Clone, Copy, PartialEq, Eq, Structural, Debug)]
pub struct SessionRef {
    pub id: u64,
    pub source: ImageCaptureSource,
}

/// A capture session of a client.
#[derive(Clone, Copy, PartialEq, Eq, Debug)]
pub struct Session {
    pub handle: SessionRef,
    /// Whether the client still holds the session.
    pub alive: bool,
    /// Whether the client wants the cursor drawn into its frames.
    pub draw_cursor: bool,
    /// The buffer size of the constraints that were last sent.
    pub current_size: Option<Size>,
}

/// A reference to a cursor capture session: its identity and its source.
#[derive(Clone, Copy, PartialEq, Eq, Structural, Debug)]
pub struct CursorSessionRef {
    pub id: u64,
    pub source: ImageCaptureSource,
}

/// A cursor capture session of a client.
#[derive(Clone, Copy, PartialEq, Eq, Debug)]
pub struct CursorSession {
    pub handle: CursorSessionRef,
    /// Whether the client still holds the session.
    pub alive: bool,
    /// The buffer size of the constraints that were last sent.
    pub current_size: Option<Size>,
}

/// The mode that a session's damage tracker was made for. A tracker made anew reports full damage.
#[derive(Clone, Copy, PartialEq, Eq, Debug)]
pub struct DamageTracker {
    pub size: Size,
    pub scale: Scale,
    pub transform: Transform,
}

/// An active capture session together with its tracker and the frame that waits in it.
#[derive(Clone, Copy, PartialEq, Eq, Debug)]
pub struct CopyCaptureSession {
    pub session: Session,
    pub damage_tracker: DamageTracker,
    pub pending_frame: Option<Frame>,
}

/// An active cursor capture session together with its tracker and the frame that waits in it.
///
/// Only output sources support cursor capture; the frames hold the cursor image, while the
/// position and hotspot are delivered through session events.
#[derive(Clone, Copy, PartialEq, Eq, Debug)]
pub struct CopyCaptureCursorSession {
    pub session: CursorSession,
    /// Tracks damage to the cursor image (not its movement).
    pub damage_tracker: DamageTracker,
    pub pending_frame: Option<Frame>,
}

/// Something to do outside, in the order given.
#[derive(PartialEq, Eq, Debug)]
pub enum Action {
    /// Answers a frame with a failure.
    FailFrame { frame: Frame, reason: CaptureFailureReason },
    /// Lets go of a frame that its client gave up.
    DropFrame { frame: Frame },
    /// Sends new constraints to a capture session.
    UpdateConstraints { session: u64, constraints: BufferConstraints },
    /// Lets go of a capture session and of the frame that waits in it, which stops the session
    /// and fails the frame.
    DropSession { session: u64, pending_frame: Option<Frame> },
    /// Sends new constraints to a cursor capture session.
    UpdateCursorConstraints { session: u64, constraints: BufferConstraints },
    SetCursorHotspot { session: u64, hotspot: Point },
    /// Tells a cursor capture session where the cursor is; `None` when it is not on the output.
    SetCursorPos { session: u64, pos: Option<Point> },
    /// Lets go of a cursor capture session and of the frame that waits in it.
    DropCursorSession { session: u64, pending_frame: Option<Frame> },
    QueueRedraw { output: u64 },
    /// Forgets the protocol objects of dead sessions.
    Cleanup,
}

/// The contents of an [`Action`].
#[verifier::ext_equal]
pub enum ActionView {
    FailFrame { frame: Frame, reason: CaptureFailureReason },
    DropFrame { frame: Frame },
    UpdateConstraints { session: u64, constraints: BufferConstraintsView },
    DropSession { session: u64, pending_frame: Option<Frame> },
    UpdateCursorConstraints { session: u64, constraints: BufferConstraintsView },
    SetCursorHotspot { session: u64, hotspot: Point },
    SetCursorPos { session: u64, pos: Option<Point> },
    DropCursorSession { session: u64, pending_frame: Option<Frame> },
    QueueRedraw { output: u64 },
    Cleanup,
}

impl View for Action {
    type V = ActionView;

    open spec fn view(&self) -> ActionView {
        match *self {
            Action::FailFrame { frame, reason } => ActionView::FailFrame { frame, reason },
            Action::DropFrame { frame } => ActionView::DropFrame { frame },
            Action::UpdateConstraints { session, constraints } => ActionView::UpdateConstraints {
                session,
                constraints: constraints@,
            },
            Action::DropSession { session, pending_frame } => ActionView::DropSession {
                session,
                pending_frame,
            },
            Action::UpdateCursorConstraints {
                session,
                constraints,
            } => ActionView::UpdateCursorConstraints { session, constraints: constraints@ },
            Action::SetCursorHotspot { session, hotspot } => ActionView::SetCursorHotspot {
                session,
                hotspot,
            },
            Action::SetCursorPos { session, pos } => ActionView::SetCursorPos { session, pos },
            Action::DropCursorSession { session, pending_frame } => ActionView::DropCursorSession {
                session,
                pending_frame,
            },
            Action::QueueRedraw { output } => ActionView::QueueRedraw { output },
            Action::Cleanup => ActionView::Cleanup,
        }
    }
}

/// The contents of a list of actions.
pub open spec fn actions_view(actions: Seq<Action>) -> Seq<ActionView> {
    actions.map_values(|action: Action| action@)
}

pub(crate) broadcast proof fn lemma_actions_push(actions: Seq<Action>, action: Action)
    ensures
        #[trigger] actions_view(actions.push(action)) == actions_view(actions).push(action@),
{
    assert(actions_view(actions.push(action)) =~= actions_view(actions).push(action@));
}

/// The identities of capture sessions.
pub open spec fn session_ids(sessions: Seq<CopyCaptureSession>) -> Seq<u64> {
    sessions.map_values(|entry: CopyCaptureSession| entry.session.handle.id)
}

/// The identities of cursor capture sessions.
pub open spec fn cursor_session_ids(sessions: Seq<CopyCaptureCursorSession>) -> Seq<u64> {
    sessions.map_values(|entry: CopyCaptureCursorSession| entry.session.handle.id)
}

/// The frames that wait in capture sessions.
pub open spec fn waiting(sessions: Seq<CopyCaptureSession>) -> Seq<Option<Frame>> {
    sessions.map_values(|entry: CopyCaptureSession| entry.pending_frame)
}

/// The frames that wait in cursor capture sessions.
pub open spec fn cursor_waiting(sessions: Seq<CopyCaptureCursorSession>) -> Seq<Option<Frame>> {
    sessions.map_values(|entry: CopyCaptureCursorSession| entry.pending_frame)
}

/// A frame as a bag.
pub open spec fn bag(frame: Option<Frame>) -> Multiset<Frame> {
    match frame {
        Some(frame) => Multiset::singleton(frame),
        None => Multiset::empty(),
    }
}

/// The frames of a list, as a bag.
pub open spec fn bag_of(frames: Seq<Option<Frame>>) -> Multiset<Frame>
    decreases frames.len(),
{
    if frames.len() == 0 {
        Multiset::empty()
    } else {
        bag_of(frames.drop_last()).add(bag(frames.last()))
    }
}

/// The frame that an action answers or lets go of.
pub open spec fn frame_of(action: ActionView) -> Option<Frame> {
    match action {
        ActionView::FailFrame { frame, .. } => Some(frame),
        ActionView::DropFrame { frame } => Some(frame),
        ActionView::DropSession { pending_frame, .. } => pending_frame,
        ActionView::DropCursorSession { pending_frame, .. } => pending_frame,
        _ => None,
    }
}

/// The frames that a list of actions answers or lets go of, as a bag.
pub open spec fn given_up(actions: Seq<ActionView>) -> Multiset<Frame> {
    bag_of(actions.map_values(|action: ActionView| frame_of(action)))
}

impl DamageTracker {
    /// The tracker of a session that nothing was delivered to.
    pub open spec fn spec_initial() -> DamageTracker {
        DamageTracker {
            size: Size { w: 0, h: 0 },
            scale: Scale::spec_one(),
            transform: Transform::Normal,
        }
    }

    /// The tracker was made for this mode.
    pub open spec fn made_for(self, size: Size, scale: Scale, transform: Transform) -> bool {
        &&& size == self.size
        &&& scale.equals(self.scale)
        &&& transform == self.transform
    }

    /// The tracker that is used for a mode: this one, or a new one where this one was made for
    /// another mode.
    pub open spec fn fitted(self, size: Size, scale: Scale, transform: Transform) -> DamageTracker {
        if self.made_for(size, scale, transform) {
            self
        } else {
            DamageTracker { size, scale, transform }
        }
    }

    /// The tracker of a session that nothing was delivered to.
    pub fn initial() -> (r: DamageTracker)
        ensures
            r == DamageTracker::spec_initial(),
    {
        DamageTracker {
            size: Size { w: 0, h: 0 },
            scale: Scale::one(),
            transform: Transform::Normal,
        }
    }
}

impl CopyCaptureSession {
    /// The session with another frame waiting in it, or none.
    pub open spec fn with_frame(self, frame: Option<Frame>) -> CopyCaptureSession {
        CopyCaptureSession { pending_frame: frame, ..self }
    }

    /// The session with another tracker.
    pub open spec fn with_tracker(self, tracker: DamageTracker) -> CopyCaptureSession {
        CopyCaptureSession { damage_tracker: tracker, ..self }
    }

    /// Starts to track a session.
    pub fn new(session: Session) -> (r: CopyCaptureSession)
        ensures
            r.session == session,
            r.damage_tracker == DamageTracker::spec_initial(),
            r.pending_frame is None,
    {
        CopyCaptureSession {
            session,
            damage_tracker: DamageTracker::initial(),
            pending_frame: None,
        }
    }
}

impl CopyCaptureCursorSession {
    /// The session with another frame waiting in it, or none.
    pub open spec fn with_frame(self, frame: Option<Frame>) -> CopyCaptureCursorSession {
        CopyCaptureCursorSession { pending_frame: frame, ..self }
    }

    /// The session with another tracker.
    pub open spec fn with_tracker(self, tracker: DamageTracker) -> CopyCaptureCursorSession {
        CopyCaptureCursorSession { damage_tracker: tracker, ..self }
    }

    /// Starts to track a cursor session.
    pub fn new(session: CursorSession) -> (r: CopyCaptureCursorSession)
        ensures
            r.session == session,
            r.damage_tracker == DamageTracker::spec_initial(),
            r.pending_frame is None,
    {
        CopyCaptureCursorSession {
            session,
            damage_tracker: DamageTracker::initial(),
            pending_frame: None,
        }
    }
}

} // verus!
