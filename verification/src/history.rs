//! What becomes of frames over a whole history of events.
use std::time::Duration;

use vstd::multiset::Multiset;
use vstd::prelude::*;

use crate::delivery::{
    answered_frame, completed_cursor_session, completed_session, completion_of,
    cursor_completion_of, cursor_delivery_of, delivered_cursor_session, delivered_session,
    delivery_of, CursorDeliveryView, DamageOutcome, DeliveryView, FrameBuffer, RenderOutcome,
};
use crate::geometry::{Size, Transform};
use crate::laws::{
    law_abort_lets_go_of_the_frame, law_cursor_redraw_accounts_for_frames,
    law_cursor_refresh_accounts_for_frames, law_cursor_request_accounts_for_the_frame,
    law_destroyed_cursor_session_takes_its_frame, law_destroyed_session_takes_its_frame,
    law_redraw_keeps_frames_waiting, law_refresh_accounts_for_frames,
    law_request_accounts_for_the_frame, law_stopping_cursor_sessions_accounts_for_frames,
    lemma_bag_push, lemma_bag_update, lemma_given_up_add, lemma_given_up_push,
};
use crate::niri::{
    cursor_refresh_actions, cursor_steps, failed_by, fitted_sessions, refreshed_cursor_sessions,
    stepped_cursor_sessions, NiriView,
};
use crate::scene::{Output, Scene};
use crate::session::{
    bag, bag_of, cursor_waiting, given_up, waiting, ActionView, CopyCaptureCursorSession,
    CopyCaptureSession, CursorSession, CursorSessionRef, DamageTracker, Frame, Session, SessionRef,
};
use crate::state::{
    cursor_redrawn_output, cursor_session_slot, cursor_without_frame, drop_cursor_session_actions,
    drop_frame_actions, drop_session_actions, kept_cursor_sessions, refresh_actions,
    refreshed_sessions, request_actions, session_slot, stop_cursor_actions, with_cursor_request,
    with_request, without_cursor_session, without_frame, without_session, Backend,
};

verus! {

/// How the frame of a session is delivered: what its source and buffer turn out to be, and how
/// rendering goes if it comes to that.
pub struct DeliveryFacts {
    pub outcome: DamageOutcome,
    pub size: Size,
    pub transform: Transform,
    pub buffer: FrameBuffer,
    pub rendered: RenderOutcome,
    pub presentation_time: Duration,
}

/// How the frame of a cursor session is delivered.
pub struct CursorDeliveryFacts {
    pub outcome: DamageOutcome,
    pub size: Size,
    pub buffer_size: Option<Size>,
    pub rendered: bool,
    pub presentation_time: Duration,
}

/// Something that happens to capture sessions.
#[allow(inconsistent_fields)]
pub enum Event {
    /// The compositor changed.
    SceneChanged { scene: Scene },
    /// Something about the client's side of a session changed.
    SessionChanged { index: int, session: Session },
    /// Something about the client's side of a cursor session changed.
    CursorSessionChanged { index: int, session: CursorSession },
    NewSession { session: Session },
    NewCursorSession { session: CursorSession },
    FrameRequested { session: SessionRef, frame: Frame },
    CursorFrameRequested { session: CursorSessionRef, frame: Frame },
    FrameAborted { frame: Frame },
    SessionDestroyed { session: SessionRef },
    CursorSessionDestroyed { session: CursorSessionRef },
    Refresh { backend: Backend },
    CursorRefresh,
    /// A redraw is prepared; the deliveries follow.
    Redraw { output: Output },
    /// A redraw is prepared for cursor sessions; the deliveries follow.
    CursorRedraw { output: Output },
    /// The frame of a session is delivered and, if it is rendered, completed.
    Delivered { index: int, facts: DeliveryFacts },
    /// The frame of a cursor session is delivered and, if it is rendered, completed.
    CursorDelivered { index: int, facts: CursorDeliveryFacts },
}

/// A session after the delivery of its frame and, if the frame was rendered, its completion.
pub open spec fn session_after(
    entry: CopyCaptureSession,
    facts: DeliveryFacts,
) -> CopyCaptureSession {
    let delivery = delivery_of(entry, facts.outcome, facts.size, facts.transform, facts.buffer);
    let delivered = delivered_session(entry, delivery);
    match delivery {
        DeliveryView::Render { rendering, .. } => completed_session(
            delivered,
            completion_of(rendering, facts.rendered, facts.presentation_time),
        ),
        _ => delivered,
    }
}

/// The frame that a delivery or its completion answers.
pub open spec fn answer(entry: CopyCaptureSession, facts: DeliveryFacts) -> Option<Frame> {
    match delivery_of(entry, facts.outcome, facts.size, facts.transform, facts.buffer) {
        DeliveryView::Wait => None,
        DeliveryView::Fail { frame, .. } => Some(frame),
        DeliveryView::Render { rendering, .. } => Some(
            answered_frame(completion_of(rendering, facts.rendered, facts.presentation_time)),
        ),
    }
}

/// A cursor session after the delivery of its frame and, if the frame was rendered, its completion.
pub open spec fn cursor_session_after(
    entry: CopyCaptureCursorSession,
    facts: CursorDeliveryFacts,
) -> CopyCaptureCursorSession {
    let delivery = cursor_delivery_of(entry, facts.outcome, facts.size, facts.buffer_size);
    let delivered = delivered_cursor_session(entry, delivery);
    match delivery {
        CursorDeliveryView::Render { rendering, .. } => completed_cursor_session(
            delivered,
            cursor_completion_of(rendering, facts.rendered, facts.presentation_time),
        ),
        _ => delivered,
    }
}

/// The cursor frame that a delivery or its completion answers.
pub open spec fn cursor_answer(
    entry: CopyCaptureCursorSession,
    facts: CursorDeliveryFacts,
) -> Option<Frame> {
    match cursor_delivery_of(entry, facts.outcome, facts.size, facts.buffer_size) {
        CursorDeliveryView::Wait => None,
        CursorDeliveryView::Fail { frame, .. } => Some(frame),
        CursorDeliveryView::Render { rendering, .. } => Some(
            answered_frame(
                cursor_completion_of(rendering, facts.rendered, facts.presentation_time),
            ),
        ),
    }
}

impl NiriView {
    /// The frames that wait in sessions of either kind, as a bag.
    pub open spec fn frames(self) -> Multiset<Frame> {
        bag_of(waiting(self.sessions)).add(bag_of(cursor_waiting(self.cursor_sessions)))
    }

    /// The cursor sessions with a new one.
    pub open spec fn with_cursor_session(self, session: CursorSession) -> Seq<
        CopyCaptureCursorSession,
    > {
        self.cursor_sessions.push(
            CopyCaptureCursorSession {
                session,
                damage_tracker: DamageTracker::spec_initial(),
                pending_frame: None,
            },
        )
    }

    /// What an event leads to.
    pub open spec fn next(self, event: Event) -> NiriView {
        match event {
            Event::SceneChanged { scene } => NiriView { scene, ..self },
            Event::SessionChanged { index, session } => if 0 <= index < self.sessions.len() {
                NiriView {
                    sessions: self.sessions.update(
                        index,
                        CopyCaptureSession { session, ..self.sessions[index] },
                    ),
                    ..self
                }
            } else {
                self
            },
            Event::CursorSessionChanged { index, session } => if 0 <= index
                < self.cursor_sessions.len() {
                NiriView {
                    cursor_sessions: self.cursor_sessions.update(
                        index,
                        CopyCaptureCursorSession { session, ..self.cursor_sessions[index] },
                    ),
                    ..self
                }
            } else {
                self
            },
            Event::NewSession { session } => NiriView {
                sessions: self.sessions.push(
                    CopyCaptureSession {
                        session,
                        damage_tracker: DamageTracker::spec_initial(),
                        pending_frame: None,
                    },
                ),
                ..self
            },
            Event::NewCursorSession { session } => NiriView {
                cursor_sessions: refreshed_cursor_sessions(
                    self.scene,
                    self.with_cursor_session(session),
                ),
                ..self
            },
            Event::FrameRequested { session, frame } => NiriView {
                sessions: with_request(self.sessions, session.id, frame),
                ..self
            },
            Event::CursorFrameRequested { session, frame } => NiriView {
                cursor_sessions: with_cursor_request(self.cursor_sessions, session.id, frame),
                ..self
            },
            Event::FrameAborted { frame } => NiriView {
                sessions: without_frame(self.sessions, frame),
                cursor_sessions: cursor_without_frame(self.cursor_sessions, frame),
                ..self
            },
            Event::SessionDestroyed { session } => NiriView {
                sessions: without_session(self.sessions, session.id),
                ..self
            },
            Event::CursorSessionDestroyed { session } => NiriView {
                cursor_sessions: without_cursor_session(self.cursor_sessions, session.id),
                ..self
            },
            Event::Refresh { .. } => NiriView {
                sessions: refreshed_sessions(self.scene, self.sessions),
                cursor_sessions: kept_cursor_sessions(self.scene, self.cursor_sessions),
                ..self
            },
            Event::CursorRefresh => NiriView {
                cursor_sessions: refreshed_cursor_sessions(self.scene, self.cursor_sessions),
                ..self
            },
            Event::Redraw { output } => NiriView {
                sessions: fitted_sessions(self.scene, self.sessions, output),
                ..self
            },
            Event::CursorRedraw { output } => NiriView {
                cursor_sessions: stepped_cursor_sessions(self.scene, self.cursor_sessions, output),
                ..self
            },
            Event::Delivered { index, facts } => if 0 <= index < self.sessions.len() {
                NiriView {
                    sessions: self.sessions.update(
                        index,
                        session_after(self.sessions[index], facts),
                    ),
                    ..self
                }
            } else {
                self
            },
            Event::CursorDelivered { index, facts } => if 0 <= index < self.cursor_sessions.len() {
                NiriView {
                    cursor_sessions: self.cursor_sessions.update(
                        index,
                        cursor_session_after(self.cursor_sessions[index], facts),
                    ),
                    ..self
                }
            } else {
                self
            },
        }
    }

    /// The frames that an event answers or lets go of, as a bag.
    pub open spec fn answered_by(self, event: Event) -> Multiset<Frame> {
        match event {
            Event::NewCursorSession { session } => given_up(
                cursor_refresh_actions(self.scene, self.with_cursor_session(session)),
            ),
            Event::FrameRequested { session, frame } => given_up(
                request_actions(
                    session_slot(self.sessions, session.id),
                    frame,
                    self.scene.redrawn_output(session.source),
                ),
            ),
            Event::CursorFrameRequested { session, frame } => given_up(
                request_actions(
                    cursor_session_slot(self.cursor_sessions, session.id),
                    frame,
                    cursor_redrawn_output(self.scene, session.source),
                ),
            ),
            Event::FrameAborted { frame } => given_up(
                drop_frame_actions(waiting(self.sessions), frame) + drop_frame_actions(
                    cursor_waiting(self.cursor_sessions),
                    frame,
                ),
            ),
            Event::SessionDestroyed { session } => given_up(
                drop_session_actions(self.sessions, session.id),
            ),
            Event::CursorSessionDestroyed { session } => given_up(
                drop_cursor_session_actions(self.cursor_sessions, session.id),
            ),
            Event::Refresh { backend } => given_up(
                (refresh_actions(self.scene, backend, self.sessions) + stop_cursor_actions(
                    self.scene,
                    self.cursor_sessions,
                )).push(ActionView::Cleanup),
            ),
            Event::CursorRefresh => given_up(
                cursor_refresh_actions(self.scene, self.cursor_sessions),
            ),
            Event::CursorRedraw { output } => failed_by(
                cursor_steps(self.scene, self.cursor_sessions, output),
            ),
            Event::Delivered { index, facts } => if 0 <= index < self.sessions.len() {
                bag(answer(self.sessions[index], facts))
            } else {
                Multiset::empty()
            },
            Event::CursorDelivered { index, facts } => if 0 <= index < self.cursor_sessions.len() {
                bag(cursor_answer(self.cursor_sessions[index], facts))
            } else {
                Multiset::empty()
            },
            _ => Multiset::empty(),
        }
    }

    /// What a history leads to.
    pub open spec fn after(self, events: Seq<Event>) -> NiriView
        decreases events.len(),
    {
        if events.len() == 0 {
            self
        } else {
            self.after(events.drop_last()).next(events.last())
        }
    }

    /// The frames that a history answers or lets go of, as a bag.
    pub open spec fn answered(self, events: Seq<Event>) -> Multiset<Frame>
        decreases events.len(),
    {
        if events.len() == 0 {
            Multiset::empty()
        } else {
            self.answered(events.drop_last()).add(
                self.after(events.drop_last()).answered_by(events.last()),
            )
        }
    }
}

/// An event leads from one state to another and answers or lets go of these frames.
pub open spec fn leads_to(
    before: NiriView,
    event: Event,
    after: NiriView,
    gone: Multiset<Frame>,
) -> bool {
    &&& after == before.next(event)
    &&& gone == before.answered_by(event)
}

/// The frame that an event brings, as a bag.
pub open spec fn requested_by(event: Event) -> Multiset<Frame> {
    match event {
        Event::FrameRequested { frame, .. } => Multiset::singleton(frame),
        Event::CursorFrameRequested { frame, .. } => Multiset::singleton(frame),
        _ => Multiset::empty(),
    }
}

/// The frames that a history brings, as a bag.
pub open spec fn requested(events: Seq<Event>) -> Multiset<Frame>
    decreases events.len(),
{
    if events.len() == 0 {
        Multiset::empty()
    } else {
        requested(events.drop_last()).add(requested_by(events.last()))
    }
}

/// A frame that waits in a session is answered once when it is delivered, or waits on: it waits on
/// without damage, fails or succeeds with it, and is not there any more when it was answered.
pub proof fn law_delivery_answers_the_frame_once(entry: CopyCaptureSession, facts: DeliveryFacts)
    ensures
        bag(session_after(entry, facts).pending_frame).add(bag(answer(entry, facts))) == bag(
            entry.pending_frame,
        ),
        facts.outcome is Damaged ==> answer(entry, facts) == entry.pending_frame,
        !(facts.outcome is Damaged) ==> session_after(entry, facts) == entry,
        session_after(entry, facts).session == entry.session,
{
    assert(bag(session_after(entry, facts).pending_frame).add(bag(answer(entry, facts))) =~= bag(
        entry.pending_frame,
    ));
}

/// A frame that waits in a cursor session is answered once when it is delivered, or waits on.
pub proof fn law_cursor_delivery_answers_the_frame_once(
    entry: CopyCaptureCursorSession,
    facts: CursorDeliveryFacts,
)
    ensures
        bag(cursor_session_after(entry, facts).pending_frame).add(bag(cursor_answer(entry, facts)))
            == bag(entry.pending_frame),
        facts.outcome is Damaged ==> cursor_answer(entry, facts) == entry.pending_frame,
        !(facts.outcome is Damaged) ==> cursor_session_after(entry, facts) == entry,
        cursor_session_after(entry, facts).session == entry.session,
{
    assert(bag(cursor_session_after(entry, facts).pending_frame).add(
        bag(cursor_answer(entry, facts)),
    ) =~= bag(entry.pending_frame));
}

proof fn lemma_session_update(
    sessions: Seq<CopyCaptureSession>,
    index: int,
    entry: CopyCaptureSession,
)
    requires
        0 <= index < sessions.len(),
    ensures
        bag_of(waiting(sessions.update(index, entry))).add(bag(sessions[index].pending_frame))
            == bag_of(waiting(sessions)).add(bag(entry.pending_frame)),
{
    assert(waiting(sessions.update(index, entry)) == waiting(sessions).update(
        index,
        entry.pending_frame,
    ));
    lemma_bag_update(waiting(sessions), index, entry.pending_frame);
}

proof fn lemma_cursor_session_update(
    sessions: Seq<CopyCaptureCursorSession>,
    index: int,
    entry: CopyCaptureCursorSession,
)
    requires
        0 <= index < sessions.len(),
    ensures
        bag_of(cursor_waiting(sessions.update(index, entry))).add(
            bag(sessions[index].pending_frame),
        ) == bag_of(cursor_waiting(sessions)).add(bag(entry.pending_frame)),
{
    assert(cursor_waiting(sessions.update(index, entry)) == cursor_waiting(sessions).update(
        index,
        entry.pending_frame,
    ));
    lemma_bag_update(cursor_waiting(sessions), index, entry.pending_frame);
}

/// An event accounts for frames: those that waited and those that it brought either wait afterwards
/// or were answered or let go of, each once.
pub proof fn law_event_accounts_for_frames(state: NiriView, event: Event)
    ensures
        state.next(event).frames().add(state.answered_by(event)) == state.frames().add(
            requested_by(event),
        ),
{
    let after = state.next(event);
    let a = bag_of(waiting(state.sessions));
    let b = bag_of(cursor_waiting(state.cursor_sessions));
    let c = bag_of(waiting(after.sessions));
    let d = bag_of(cursor_waiting(after.cursor_sessions));
    let gone = state.answered_by(event);
    let new = requested_by(event);
    match event {
        Event::SceneChanged { .. } => {},
        Event::SessionChanged { index, session } => {
            if 0 <= index < state.sessions.len() {
                assert(waiting(after.sessions) == waiting(state.sessions));
            }
        },
        Event::CursorSessionChanged { index, session } => {
            if 0 <= index < state.cursor_sessions.len() {
                assert(cursor_waiting(after.cursor_sessions) == cursor_waiting(
                    state.cursor_sessions,
                ));
            }
        },
        Event::NewSession { session } => {
            assert(waiting(after.sessions) == waiting(state.sessions).push(None));
            lemma_bag_push(waiting(state.sessions), None);
        },
        Event::NewCursorSession { session } => {
            let sessions = state.with_cursor_session(session);
            assert(cursor_waiting(sessions) == cursor_waiting(state.cursor_sessions).push(None));
            lemma_bag_push(cursor_waiting(state.cursor_sessions), None);
            law_cursor_refresh_accounts_for_frames(state.scene, sessions);
            assert(d.add(gone) =~= b);
        },
        Event::FrameRequested { session, frame } => {
            law_request_accounts_for_the_frame(
                state.sessions,
                session.id,
                frame,
                state.scene.redrawn_output(session.source),
            );
            assert(c.add(gone) =~= a.add(new));
        },
        Event::CursorFrameRequested { session, frame } => {
            law_cursor_request_accounts_for_the_frame(
                state.cursor_sessions,
                session.id,
                frame,
                cursor_redrawn_output(state.scene, session.source),
            );
            assert(d.add(gone) =~= b.add(new));
        },
        Event::FrameAborted { frame } => {
            law_abort_lets_go_of_the_frame(state.sessions, state.cursor_sessions, frame);
            let first = drop_frame_actions(waiting(state.sessions), frame);
            let second = drop_frame_actions(cursor_waiting(state.cursor_sessions), frame);
            lemma_given_up_add(first, second);
            assert(c.add(given_up(first)) =~= a);
            assert(d.add(given_up(second)) =~= b);
            lemma_both(a, b, c, d, given_up(first), given_up(second));
        },
        Event::SessionDestroyed { session } => {
            law_destroyed_session_takes_its_frame(state.sessions, session.id);
            assert(c.add(gone) =~= a);
        },
        Event::CursorSessionDestroyed { session } => {
            law_destroyed_cursor_session_takes_its_frame(state.cursor_sessions, session.id);
            assert(d.add(gone) =~= b);
        },
        Event::Refresh { backend } => {
            law_refresh_accounts_for_frames(state.scene, backend, state.sessions);
            law_stopping_cursor_sessions_accounts_for_frames(state.scene, state.cursor_sessions);
            let first = refresh_actions(state.scene, backend, state.sessions);
            let second = stop_cursor_actions(state.scene, state.cursor_sessions);
            lemma_given_up_add(first, second);
            lemma_given_up_push(first + second, ActionView::Cleanup);
            lemma_both(a, b, c, d, given_up(first), given_up(second));
            assert(gone =~= given_up(first).add(given_up(second)));
        },
        Event::CursorRefresh => {
            law_cursor_refresh_accounts_for_frames(state.scene, state.cursor_sessions);
            assert(d.add(gone) =~= b);
        },
        Event::Redraw { output } => {
            law_redraw_keeps_frames_waiting(state.scene, state.sessions, output);
        },
        Event::CursorRedraw { output } => {
            law_cursor_redraw_accounts_for_frames(state.scene, state.cursor_sessions, output);
            assert(d.add(gone) =~= b);
        },
        Event::Delivered { index, facts } => {
            if 0 <= index < state.sessions.len() {
                let entry = state.sessions[index];
                law_delivery_answers_the_frame_once(entry, facts);
                lemma_session_update(state.sessions, index, session_after(entry, facts));
                lemma_replaced(
                    a,
                    c,
                    bag(entry.pending_frame),
                    bag(session_after(entry, facts).pending_frame),
                    gone,
                );
            }
        },
        Event::CursorDelivered { index, facts } => {
            if 0 <= index < state.cursor_sessions.len() {
                let entry = state.cursor_sessions[index];
                law_cursor_delivery_answers_the_frame_once(entry, facts);
                lemma_cursor_session_update(
                    state.cursor_sessions,
                    index,
                    cursor_session_after(entry, facts),
                );
                lemma_replaced(
                    b,
                    d,
                    bag(entry.pending_frame),
                    bag(cursor_session_after(entry, facts).pending_frame),
                    gone,
                );
            }
        },
    }
    if new == Multiset::<Frame>::empty() {
        assert(a.add(new) =~= a);
        assert(b.add(new) =~= b);
        assert(a.add(b).add(new) =~= a.add(b));
    }
    if gone == Multiset::<Frame>::empty() {
        assert(c.add(gone) =~= c);
    }
    lemma_sides(a, b, c, d, gone, new);
}

proof fn lemma_both(
    a: Multiset<Frame>,
    b: Multiset<Frame>,
    c: Multiset<Frame>,
    d: Multiset<Frame>,
    first: Multiset<Frame>,
    second: Multiset<Frame>,
)
    requires
        c.add(first) == a,
        d.add(second) == b,
    ensures
        c.add(d).add(first.add(second)) == a.add(b),
{
    assert(c.add(d).add(first.add(second)) =~= c.add(first).add(d.add(second)));
}

proof fn lemma_replaced(
    all: Multiset<Frame>,
    after: Multiset<Frame>,
    waited: Multiset<Frame>,
    waits: Multiset<Frame>,
    gone: Multiset<Frame>,
)
    requires
        after.add(waited) == all.add(waits),
        waits.add(gone) == waited,
    ensures
        after.add(gone) == all,
{
    assert forall|f: Frame| #[trigger] after.add(gone).count(f) == all.count(f) by {
        assert(after.add(waited).count(f) == all.add(waits).count(f));
        assert(waits.add(gone).count(f) == waited.count(f));
        assert(after.add(waited).count(f) == after.count(f) + waited.count(f));
        assert(all.add(waits).count(f) == all.count(f) + waits.count(f));
        assert(waits.add(gone).count(f) == waits.count(f) + gone.count(f));
    }
    assert(after.add(gone) =~= all);
}

/// The frames are accounted for when they are on one side, and the other side is as it was, or on
/// both.
proof fn lemma_sides(
    a: Multiset<Frame>,
    b: Multiset<Frame>,
    c: Multiset<Frame>,
    d: Multiset<Frame>,
    gone: Multiset<Frame>,
    new: Multiset<Frame>,
)
    requires
        ({
            ||| c.add(gone) == a.add(new) && d == b
            ||| c == a && d.add(gone) == b.add(new)
            ||| c.add(d).add(gone) == a.add(b).add(new)
        }),
    ensures
        c.add(d).add(gone) == a.add(b).add(new),
{
    assert forall|f: Frame| #[trigger]
        c.add(d).add(gone).count(f) == a.add(b).add(new).count(f) by {
        assert(c.add(gone).count(f) == c.count(f) + gone.count(f));
        assert(d.add(gone).count(f) == d.count(f) + gone.count(f));
        assert(a.add(new).count(f) == a.count(f) + new.count(f));
        assert(b.add(new).count(f) == b.count(f) + new.count(f));
    }
    assert(c.add(d).add(gone) =~= a.add(b).add(new));
}

/// Every frame is answered once: over any history of events, the frames that waited at first and
/// those that were requested either still wait or were answered or let go of. A frame that was
/// requested once and does not wait any more was answered or let go of exactly once.
pub proof fn law_every_frame_is_answered_once(state: NiriView, events: Seq<Event>)
    ensures
        state.after(events).frames().add(state.answered(events)) == state.frames().add(
            requested(events),
        ),
        forall|frame: Frame|
            state.frames().count(frame) == 0 && #[trigger] requested(events).count(frame) == 1 ==> (
            state.after(events).frames().count(frame) == 0 <==> state.answered(events).count(frame)
                == 1),
    decreases events.len(),
{
    let left = state.after(events).frames().add(state.answered(events));
    let right = state.frames().add(requested(events));
    if events.len() > 0 {
        let earlier = events.drop_last();
        let event = events.last();
        let before = state.after(earlier);
        law_every_frame_is_answered_once(state, earlier);
        law_event_accounts_for_frames(before, event);
        assert forall|f: Frame| #[trigger] left.count(f) == right.count(f) by {
            assert(before.frames().add(state.answered(earlier)).count(f) == state.frames().add(
                requested(earlier),
            ).count(f));
            assert(before.next(event).frames().add(before.answered_by(event)).count(f)
                == before.frames().add(requested_by(event)).count(f));
        }
    }
    assert(left =~= right);
    assert forall|frame: Frame|
        state.frames().count(frame) == 0 && #[trigger] requested(events).count(frame)
            == 1 implies (state.after(events).frames().count(frame) == 0 <==> state.answered(
        events,
    ).count(frame) == 1) by {
        assert(left.count(frame) == right.count(frame));
    }
}

} // verus!
