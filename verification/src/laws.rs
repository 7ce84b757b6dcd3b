//! What holds of the capture rules as a whole.
use vstd::multiset::Multiset;
use vstd::prelude::*;

use crate::delivery::{fits_in_buffer, in_buffer, usable_target, BufferTarget, FrameBuffer};
use crate::geometry::{
    fits_i32, law_overlap_is_a_common_pixel, Point, Rectangle, Size, Transform,
};
use crate::niri::{
    capture_jobs, capture_on, cursor_constraint_actions, cursor_entered, cursor_frame_on,
    cursor_refresh_actions, cursor_session_actions, cursor_size_changed, cursor_step, cursor_steps,
    failed_by, failed_frame, fitted_sessions, image_needed, refreshed_cursor_session,
    refreshed_cursor_sessions, stacked, stepped_cursor_session, stepped_cursor_sessions,
    tracked_output, CaptureContent, CursorCaptureStep, Layer,
};
use crate::scene::{CaptureSourceTarget, ImageCaptureSource, Output, Scale, Scene};
use crate::session::{
    bag, bag_of, cursor_session_ids, cursor_waiting, frame_of, given_up, session_ids, waiting,
    ActionView, CaptureFailureReason, CopyCaptureCursorSession, CopyCaptureSession, DamageTracker,
    Frame,
};
use crate::state::{
    cursor_session_kept, cursor_session_slot, cursor_without_frame, drop_cursor_session_actions,
    drop_frame_actions, drop_session_actions, kept_cursor_sessions, kept_size, refresh_actions,
    refreshed_session, refreshed_sessions, request_actions, session_actions, session_slot,
    stop_cursor_actions, with_cursor_request, with_request, without_cursor_session, without_frame,
    without_session, Backend,
};

verus! {

pub(crate) proof fn lemma_bag_push(frames: Seq<Option<Frame>>, frame: Option<Frame>)
    ensures
        bag_of(frames.push(frame)) == bag_of(frames).add(bag(frame)),
{
    assert(frames.push(frame).drop_last() == frames);
}

proof fn lemma_bag_add(a: Seq<Option<Frame>>, b: Seq<Option<Frame>>)
    ensures
        bag_of(a + b) == bag_of(a).add(bag_of(b)),
    decreases b.len(),
{
    if b.len() == 0 {
        assert(a + b == a);
        assert(bag_of(a).add(bag_of(b)) =~= bag_of(a));
    } else {
        lemma_bag_add(a, b.drop_last());
        assert((a + b).drop_last() == a + b.drop_last());
        assert(bag_of(a + b) =~= bag_of(a).add(bag_of(b)));
    }
}

pub(crate) proof fn lemma_bag_update(frames: Seq<Option<Frame>>, i: int, frame: Option<Frame>)
    requires
        0 <= i < frames.len(),
    ensures
        bag_of(frames.update(i, frame)).add(bag(frames[i])) == bag_of(frames).add(bag(frame)),
    decreases frames.len(),
{
    let updated = frames.update(i, frame);
    let rest = frames.drop_last();
    if i == frames.len() - 1 {
        assert(updated.drop_last() == rest);
    } else {
        lemma_bag_update(rest, i, frame);
        assert(updated.drop_last() == rest.update(i, frame));
        let a = bag_of(rest.update(i, frame)).add(bag(rest[i]));
        let b = bag_of(rest).add(bag(frame));
        assert forall|f: Frame|
            #![trigger bag_of(updated).add(bag(frames[i])).count(f)]
            bag_of(updated).add(bag(frames[i])).count(f) == bag_of(frames).add(bag(frame)).count(
                f,
            ) by {
            assert(a.count(f) == b.count(f));
        }
    }
    assert(bag_of(updated).add(bag(frames[i])) =~= bag_of(frames).add(bag(frame)));
}

pub(crate) proof fn lemma_given_up_add(a: Seq<ActionView>, b: Seq<ActionView>)
    ensures
        given_up(a + b) == given_up(a).add(given_up(b)),
{
    let f = |action: ActionView| frame_of(action);
    assert((a + b).map_values(f) == a.map_values(f) + b.map_values(f));
    lemma_bag_add(a.map_values(f), b.map_values(f));
}

pub(crate) proof fn lemma_given_up_push(actions: Seq<ActionView>, action: ActionView)
    ensures
        given_up(actions.push(action)) == given_up(actions).add(bag(frame_of(action))),
{
    let f = |action: ActionView| frame_of(action);
    assert(actions.push(action).map_values(f) == actions.map_values(f).push(frame_of(action)));
    lemma_bag_push(actions.map_values(f), frame_of(action));
}

proof fn lemma_given_up_empty()
    ensures
        given_up(Seq::empty()) == Multiset::<Frame>::empty(),
{
    let f = |action: ActionView| frame_of(action);
    assert(Seq::<ActionView>::empty().map_values(f) == Seq::<Option<Frame>>::empty());
}

proof fn lemma_given_up_one(action: ActionView)
    ensures
        given_up(seq![action]) == bag(frame_of(action)),
{
    lemma_given_up_empty();
    lemma_given_up_push(Seq::empty(), action);
    assert(Seq::<ActionView>::empty().push(action) == seq![action]);
    assert(given_up(seq![action]) =~= bag(frame_of(action)));
}

proof fn lemma_given_up_two(a: ActionView, b: ActionView)
    ensures
        given_up(seq![a, b]) == bag(frame_of(a)).add(bag(frame_of(b))),
{
    lemma_given_up_one(a);
    lemma_given_up_push(seq![a], b);
    assert(seq![a].push(b) == seq![a, b]);
}

/// A request for a frame of a capture session is accounted for: the frame either waits in the
/// session afterwards or is answered, and no other frame is touched.
pub proof fn law_request_accounts_for_the_frame(
    sessions: Seq<CopyCaptureSession>,
    id: u64,
    frame: Frame,
    output: Option<u64>,
)
    ensures
        bag_of(waiting(with_request(sessions, id, frame))).add(
            given_up(request_actions(session_slot(sessions, id), frame, output)),
        ) == bag_of(waiting(sessions)).insert(frame),
{
    let frames = waiting(sessions);
    lemma_given_up_empty();
    match session_slot(sessions, id) {
        Some(i) => {
            session_ids(sessions).index_of_first_ensures(id);
            assert(waiting(with_request(sessions, id, frame)) == frames.update(i, Some(frame)));
            lemma_bag_update(frames, i, Some(frame));
            if let Some(output) = output {
                lemma_given_up_one(ActionView::QueueRedraw { output });
            }
        },
        None => {
            lemma_given_up_one(request_actions(None, frame, output)[0]);
        },
    }
    assert(bag_of(waiting(with_request(sessions, id, frame))).add(
        given_up(request_actions(session_slot(sessions, id), frame, output)),
    ) =~= bag_of(frames).insert(frame));
}

/// A request for a frame of a cursor capture session is accounted for: the frame either waits in
/// the session afterwards or is answered, and no other frame is touched.
pub proof fn law_cursor_request_accounts_for_the_frame(
    sessions: Seq<CopyCaptureCursorSession>,
    id: u64,
    frame: Frame,
    output: Option<u64>,
)
    ensures
        bag_of(cursor_waiting(with_cursor_request(sessions, id, frame))).add(
            given_up(request_actions(cursor_session_slot(sessions, id), frame, output)),
        ) == bag_of(cursor_waiting(sessions)).insert(frame),
{
    let frames = cursor_waiting(sessions);
    lemma_given_up_empty();
    match cursor_session_slot(sessions, id) {
        Some(i) => {
            cursor_session_ids(sessions).index_of_first_ensures(id);
            assert(cursor_waiting(with_cursor_request(sessions, id, frame)) == frames.update(
                i,
                Some(frame),
            ));
            lemma_bag_update(frames, i, Some(frame));
            if let Some(output) = output {
                lemma_given_up_one(ActionView::QueueRedraw { output });
            }
        },
        None => {
            lemma_given_up_one(request_actions(None, frame, output)[0]);
        },
    }
    assert(bag_of(cursor_waiting(with_cursor_request(sessions, id, frame))).add(
        given_up(request_actions(cursor_session_slot(sessions, id), frame, output)),
    ) =~= bag_of(frames).insert(frame));
}

/// Only one frame of a session can be captured at a time: a request that was queued makes the next
/// one for that session be refused, with the reason `Unknown` and without any change.
pub proof fn law_one_frame_at_a_time(
    sessions: Seq<CopyCaptureSession>,
    id: u64,
    first: Frame,
    second: Frame,
    output: Option<u64>,
)
    ensures
        ({
            let queued = with_request(sessions, id, first);
            &&& session_slot(queued, id) is None
            &&& with_request(queued, id, second) == queued
            &&& request_actions(session_slot(queued, id), second, output) == seq![
                ActionView::FailFrame {
                    frame: second,
                    reason: CaptureFailureReason::Unknown,
                },
            ]
        }),
{
    let queued = with_request(sessions, id, first);
    session_ids(sessions).index_of_first_ensures(id);
    assert(session_ids(queued) == session_ids(sessions));
}

/// Only one frame of a cursor session can be captured at a time.
pub proof fn law_one_cursor_frame_at_a_time(
    sessions: Seq<CopyCaptureCursorSession>,
    id: u64,
    first: Frame,
    second: Frame,
    output: Option<u64>,
)
    ensures
        ({
            let queued = with_cursor_request(sessions, id, first);
            &&& cursor_session_slot(queued, id) is None
            &&& with_cursor_request(queued, id, second) == queued
            &&& request_actions(cursor_session_slot(queued, id), second, output) == seq![
                ActionView::FailFrame {
                    frame: second,
                    reason: CaptureFailureReason::Unknown,
                },
            ]
        }),
{
    let queued = with_cursor_request(sessions, id, first);
    cursor_session_ids(sessions).index_of_first_ensures(id);
    assert(cursor_session_ids(queued) == cursor_session_ids(sessions));
}

/// A frame list without a frame.
spec fn cleared(frames: Seq<Option<Frame>>, frame: Frame) -> Seq<Option<Frame>> {
    frames.map_values(
        |f: Option<Frame>|
            if f == Some(frame) {
                None
            } else {
                f
            },
    )
}

proof fn lemma_cleared(frames: Seq<Option<Frame>>, frame: Frame)
    ensures
        bag_of(cleared(frames, frame)).add(given_up(drop_frame_actions(frames, frame))) == bag_of(
            frames,
        ),
    decreases frames.len(),
{
    lemma_given_up_empty();
    if frames.len() > 0 {
        let rest = frames.drop_last();
        lemma_cleared(rest, frame);
        assert(cleared(frames, frame).drop_last() == cleared(rest, frame));
        if frames.last() == Some(frame) {
            lemma_given_up_push(
                drop_frame_actions(rest, frame),
                ActionView::DropFrame { frame },
            );
        }
    }
    let a = bag_of(cleared(frames, frame)).add(given_up(drop_frame_actions(frames, frame)));
    assert forall|f: Frame| #[trigger] a.count(f) == bag_of(frames).count(f) by {
        if frames.len() > 0 {
            let rest = frames.drop_last();
            assert(bag_of(cleared(rest, frame)).add(
                given_up(drop_frame_actions(rest, frame)),
            ).count(f) == bag_of(rest).count(f));
        }
    }
    assert(a =~= bag_of(frames));
}

/// An aborted frame waits nowhere any more. It is let go of as often as it waited, and every other
/// frame stays where it is.
pub proof fn law_abort_lets_go_of_the_frame(
    sessions: Seq<CopyCaptureSession>,
    cursor_sessions: Seq<CopyCaptureCursorSession>,
    frame: Frame,
)
    ensures
        bag_of(waiting(without_frame(sessions, frame))).count(frame) == 0,
        bag_of(cursor_waiting(cursor_without_frame(cursor_sessions, frame))).count(frame) == 0,
        bag_of(waiting(without_frame(sessions, frame))).add(
            given_up(drop_frame_actions(waiting(sessions), frame)),
        ) == bag_of(waiting(sessions)),
        bag_of(cursor_waiting(cursor_without_frame(cursor_sessions, frame))).add(
            given_up(drop_frame_actions(cursor_waiting(cursor_sessions), frame)),
        ) == bag_of(cursor_waiting(cursor_sessions)),
        forall|i: int|
            0 <= i < sessions.len() && sessions[i].pending_frame != Some(frame) ==> (
            #[trigger] without_frame(sessions, frame)[i]) == sessions[i],
        forall|i: int|
            0 <= i < cursor_sessions.len() && cursor_sessions[i].pending_frame != Some(frame) ==> (
            #[trigger] cursor_without_frame(cursor_sessions, frame)[i]) == cursor_sessions[i],
{
    assert(waiting(without_frame(sessions, frame)) == cleared(waiting(sessions), frame));
    assert(cursor_waiting(cursor_without_frame(cursor_sessions, frame)) == cleared(
        cursor_waiting(cursor_sessions),
        frame,
    ));
    lemma_cleared(waiting(sessions), frame);
    lemma_cleared(cursor_waiting(cursor_sessions), frame);
    lemma_cleared_has_none(waiting(sessions), frame);
    lemma_cleared_has_none(cursor_waiting(cursor_sessions), frame);
}

proof fn lemma_cleared_has_none(frames: Seq<Option<Frame>>, frame: Frame)
    ensures
        bag_of(cleared(frames, frame)).count(frame) == 0,
    decreases frames.len(),
{
    if frames.len() > 0 {
        lemma_cleared_has_none(frames.drop_last(), frame);
        assert(cleared(frames, frame).drop_last() == cleared(frames.drop_last(), frame));
    }
}

/// A destroyed session is gone, and each frame that waited either still waits or went with the
/// session.
pub proof fn law_destroyed_session_takes_its_frame(sessions: Seq<CopyCaptureSession>, id: u64)
    ensures
        !session_ids(without_session(sessions, id)).contains(id),
        bag_of(waiting(without_session(sessions, id))).add(
            given_up(drop_session_actions(sessions, id)),
        ) == bag_of(waiting(sessions)),
    decreases sessions.len(),
{
    reveal(Seq::filter);
    lemma_given_up_empty();
    let kept = without_session(sessions, id);
    if sessions.len() > 0 {
        let rest = sessions.drop_last();
        let entry = sessions.last();
        let kept_rest = without_session(rest, id);
        law_destroyed_session_takes_its_frame(rest, id);
        assert(waiting(sessions).drop_last() == waiting(rest));
        if entry.session.handle.id == id {
            lemma_given_up_push(
                drop_session_actions(rest, id),
                ActionView::DropSession { session: id, pending_frame: entry.pending_frame },
            );
        } else {
            assert(waiting(kept) == waiting(kept_rest).push(entry.pending_frame));
            lemma_bag_push(waiting(kept_rest), entry.pending_frame);
        }
        assert forall|i: int| 0 <= i < kept.len() implies session_ids(kept)[i] != id by {
            if i < kept_rest.len() {
                assert(session_ids(kept_rest)[i] == session_ids(kept)[i]);
            }
        }
        let a = bag_of(waiting(kept)).add(given_up(drop_session_actions(sessions, id)));
        assert forall|f: Frame| #[trigger] a.count(f) == bag_of(waiting(sessions)).count(f) by {
            assert(bag_of(waiting(kept_rest)).add(given_up(drop_session_actions(rest, id))).count(f)
                == bag_of(waiting(rest)).count(f));
        }
        assert(a =~= bag_of(waiting(sessions)));
    } else {
        assert(waiting(kept) == waiting(sessions));
        assert(bag_of(waiting(kept)).add(given_up(drop_session_actions(sessions, id))) =~= bag_of(
            waiting(sessions),
        ));
    }
}

/// A destroyed cursor session is gone, and each frame that waited either still waits or went with
/// the session.
pub proof fn law_destroyed_cursor_session_takes_its_frame(
    sessions: Seq<CopyCaptureCursorSession>,
    id: u64,
)
    ensures
        !cursor_session_ids(without_cursor_session(sessions, id)).contains(id),
        bag_of(cursor_waiting(without_cursor_session(sessions, id))).add(
            given_up(drop_cursor_session_actions(sessions, id)),
        ) == bag_of(cursor_waiting(sessions)),
    decreases sessions.len(),
{
    reveal(Seq::filter);
    lemma_given_up_empty();
    let kept = without_cursor_session(sessions, id);
    if sessions.len() > 0 {
        let rest = sessions.drop_last();
        let entry = sessions.last();
        let kept_rest = without_cursor_session(rest, id);
        law_destroyed_cursor_session_takes_its_frame(rest, id);
        assert(cursor_waiting(sessions).drop_last() == cursor_waiting(rest));
        if entry.session.handle.id == id {
            lemma_given_up_push(
                drop_cursor_session_actions(rest, id),
                ActionView::DropCursorSession { session: id, pending_frame: entry.pending_frame },
            );
        } else {
            assert(cursor_waiting(kept) == cursor_waiting(kept_rest).push(entry.pending_frame));
            lemma_bag_push(cursor_waiting(kept_rest), entry.pending_frame);
        }
        assert forall|i: int| 0 <= i < kept.len() implies cursor_session_ids(kept)[i] != id by {
            if i < kept_rest.len() {
                assert(cursor_session_ids(kept_rest)[i] == cursor_session_ids(kept)[i]);
            }
        }
        let a = bag_of(cursor_waiting(kept)).add(
            given_up(drop_cursor_session_actions(sessions, id)),
        );
        assert forall|f: Frame| #[trigger]
            a.count(f) == bag_of(cursor_waiting(sessions)).count(f) by {
            assert(bag_of(cursor_waiting(kept_rest)).add(
                given_up(drop_cursor_session_actions(rest, id)),
            ).count(f) == bag_of(cursor_waiting(rest)).count(f));
        }
        assert(a =~= bag_of(cursor_waiting(sessions)));
    } else {
        assert(cursor_waiting(kept) == cursor_waiting(sessions));
        assert(bag_of(cursor_waiting(kept)).add(
            given_up(drop_cursor_session_actions(sessions, id)),
        ) =~= bag_of(cursor_waiting(sessions)));
    }
}

/// A refresh loses no frame and answers none twice: each frame that waited in a capture session
/// either still waits or is failed or let go of, once.
pub proof fn law_refresh_accounts_for_frames(
    scene: Scene,
    backend: Backend,
    sessions: Seq<CopyCaptureSession>,
)
    ensures
        bag_of(waiting(refreshed_sessions(scene, sessions))).add(
            given_up(refresh_actions(scene, backend, sessions)),
        ) == bag_of(waiting(sessions)),
    decreases sessions.len(),
{
    lemma_given_up_empty();
    let after = refreshed_sessions(scene, sessions);
    let actions = refresh_actions(scene, backend, sessions);
    if sessions.len() > 0 {
        let rest = sessions.drop_last();
        let entry = sessions.last();
        let rest_after = refreshed_sessions(scene, rest);
        let rest_actions = refresh_actions(scene, backend, rest);
        let own = session_actions(scene, backend, entry);
        law_refresh_accounts_for_frames(scene, backend, rest);
        assert(waiting(sessions).drop_last() == waiting(rest));
        lemma_given_up_add(rest_actions, own);
        if own.len() == 1 {
            lemma_given_up_one(own[0]);
            assert(own == seq![own[0]]);
        } else if own.len() == 2 {
            lemma_given_up_two(own[0], own[1]);
            assert(own == seq![own[0], own[1]]);
        } else {
            assert(own == Seq::<ActionView>::empty());
        }
        if let Some(e) = refreshed_session(scene, entry) {
            assert(waiting(after) == waiting(rest_after).push(e.pending_frame));
            lemma_bag_push(waiting(rest_after), e.pending_frame);
        }
        let a = bag_of(waiting(after)).add(given_up(actions));
        assert forall|f: Frame| #[trigger] a.count(f) == bag_of(waiting(sessions)).count(f) by {
            assert(bag_of(waiting(rest_after)).add(given_up(rest_actions)).count(f) == bag_of(
                waiting(rest),
            ).count(f));
        }
        assert(a =~= bag_of(waiting(sessions)));
    } else {
        assert(waiting(after) == waiting(sessions));
        assert(bag_of(waiting(after)).add(given_up(actions)) =~= bag_of(waiting(sessions)));
    }
}

/// A refresh loses no frame of a cursor session and answers none twice.
pub proof fn law_stopping_cursor_sessions_accounts_for_frames(
    scene: Scene,
    sessions: Seq<CopyCaptureCursorSession>,
)
    ensures
        bag_of(cursor_waiting(kept_cursor_sessions(scene, sessions))).add(
            given_up(stop_cursor_actions(scene, sessions)),
        ) == bag_of(cursor_waiting(sessions)),
    decreases sessions.len(),
{
    reveal(Seq::filter);
    lemma_given_up_empty();
    let kept = kept_cursor_sessions(scene, sessions);
    if sessions.len() > 0 {
        let rest = sessions.drop_last();
        let entry = sessions.last();
        let kept_rest = kept_cursor_sessions(scene, rest);
        law_stopping_cursor_sessions_accounts_for_frames(scene, rest);
        assert(cursor_waiting(sessions).drop_last() == cursor_waiting(rest));
        if cursor_session_kept(scene, entry.session) {
            assert(cursor_waiting(kept) == cursor_waiting(kept_rest).push(entry.pending_frame));
            lemma_bag_push(cursor_waiting(kept_rest), entry.pending_frame);
        } else {
            lemma_given_up_push(
                stop_cursor_actions(scene, rest),
                ActionView::DropCursorSession {
                    session: entry.session.handle.id,
                    pending_frame: entry.pending_frame,
                },
            );
        }
        let a = bag_of(cursor_waiting(kept)).add(given_up(stop_cursor_actions(scene, sessions)));
        assert forall|f: Frame| #[trigger]
            a.count(f) == bag_of(cursor_waiting(sessions)).count(f) by {
            assert(bag_of(cursor_waiting(kept_rest)).add(
                given_up(stop_cursor_actions(scene, rest)),
            ).count(f) == bag_of(cursor_waiting(rest)).count(f));
        }
        assert(a =~= bag_of(cursor_waiting(sessions)));
    } else {
        assert(cursor_waiting(kept) == cursor_waiting(sessions));
        assert(bag_of(cursor_waiting(kept)).add(given_up(stop_cursor_actions(scene, sessions)))
            =~= bag_of(cursor_waiting(sessions)));
    }
}

/// Refreshing cursor sessions loses no frame and answers none twice.
pub proof fn law_cursor_refresh_accounts_for_frames(
    scene: Scene,
    sessions: Seq<CopyCaptureCursorSession>,
)
    ensures
        bag_of(cursor_waiting(refreshed_cursor_sessions(scene, sessions))).add(
            given_up(cursor_refresh_actions(scene, sessions)),
        ) == bag_of(cursor_waiting(sessions)),
    decreases sessions.len(),
{
    lemma_given_up_empty();
    let after = refreshed_cursor_sessions(scene, sessions);
    let actions = cursor_refresh_actions(scene, sessions);
    if sessions.len() > 0 {
        let rest = sessions.drop_last();
        let entry = sessions.last();
        let rest_after = refreshed_cursor_sessions(scene, rest);
        let rest_actions = cursor_refresh_actions(scene, rest);
        let own = cursor_session_actions(scene, entry);
        let e = refreshed_cursor_session(scene, entry);
        law_cursor_refresh_accounts_for_frames(scene, rest);
        assert(cursor_waiting(sessions).drop_last() == cursor_waiting(rest));
        lemma_given_up_add(rest_actions, own);
        assert(given_up(own).add(bag(e.pending_frame)) == bag(entry.pending_frame)) by {
            lemma_cursor_session_accounts(scene, entry);
        }
        assert(cursor_waiting(after) == cursor_waiting(rest_after).push(e.pending_frame));
        lemma_bag_push(cursor_waiting(rest_after), e.pending_frame);
        let a = bag_of(cursor_waiting(after)).add(given_up(actions));
        assert forall|f: Frame| #[trigger]
            a.count(f) == bag_of(cursor_waiting(sessions)).count(f) by {
            assert(bag_of(cursor_waiting(rest_after)).add(given_up(rest_actions)).count(f)
                == bag_of(cursor_waiting(rest)).count(f));
            assert(given_up(own).add(bag(e.pending_frame)).count(f) == bag(
                entry.pending_frame,
            ).count(f));
        }
        assert(a =~= bag_of(cursor_waiting(sessions)));
    } else {
        assert(cursor_waiting(after) == cursor_waiting(sessions));
        assert(bag_of(cursor_waiting(after)).add(given_up(actions)) =~= bag_of(
            cursor_waiting(sessions),
        ));
    }
}

proof fn lemma_cursor_session_accounts(scene: Scene, entry: CopyCaptureCursorSession)
    ensures
        given_up(cursor_session_actions(scene, entry)).add(
            bag(refreshed_cursor_session(scene, entry).pending_frame),
        ) == bag(entry.pending_frame),
{
    lemma_given_up_empty();
    let own = cursor_session_actions(scene, entry);
    match tracked_output(scene, entry.session.handle.source) {
        Some((output, pos, mode)) => {
            let constraints = cursor_constraint_actions(scene, entry, output);
            if constraints.len() == 1 {
                lemma_given_up_one(constraints[0]);
                assert(constraints == seq![constraints[0]]);
            } else if constraints.len() == 2 {
                lemma_given_up_two(constraints[0], constraints[1]);
                assert(constraints == seq![constraints[0], constraints[1]]);
            } else {
                assert(constraints == Seq::<ActionView>::empty());
            }
            let n = constraints.len() as int;
            lemma_given_up_push(constraints, own[n]);
            lemma_given_up_push(constraints.push(own[n]), own[n + 1]);
            assert(own == constraints.push(own[n]).push(own[n + 1]));
        },
        None => {
            lemma_given_up_one(own[0]);
        },
    }
    assert(given_up(own).add(bag(refreshed_cursor_session(scene, entry).pending_frame)) =~= bag(
        entry.pending_frame,
    ));
}

/// Preparing a redraw moves no frame of a capture session: those that waited still wait, for the
/// damage of their sources.
pub proof fn law_redraw_keeps_frames_waiting(
    scene: Scene,
    sessions: Seq<CopyCaptureSession>,
    output: Output,
)
    ensures
        waiting(fitted_sessions(scene, sessions, output)) == waiting(sessions),
        session_ids(fitted_sessions(scene, sessions, output)) == session_ids(sessions),
{
}

/// Preparing a redraw loses no frame of a cursor session and answers none twice.
pub proof fn law_cursor_redraw_accounts_for_frames(
    scene: Scene,
    sessions: Seq<CopyCaptureCursorSession>,
    output: Output,
)
    ensures
        bag_of(cursor_waiting(stepped_cursor_sessions(scene, sessions, output))).add(
            failed_by(cursor_steps(scene, sessions, output)),
        ) == bag_of(cursor_waiting(sessions)),
    decreases sessions.len(),
{
    let f = |step: CursorCaptureStep| failed_frame(step);
    let after = stepped_cursor_sessions(scene, sessions, output);
    let steps = cursor_steps(scene, sessions, output);
    if sessions.len() > 0 {
        let rest = sessions.drop_last();
        let entry = sessions.last();
        let rest_after = stepped_cursor_sessions(scene, rest, output);
        let rest_steps = cursor_steps(scene, rest, output);
        let e = stepped_cursor_session(scene, entry, output);
        law_cursor_redraw_accounts_for_frames(scene, rest, output);
        assert(cursor_waiting(sessions).drop_last() == cursor_waiting(rest));
        assert(cursor_waiting(after) == cursor_waiting(rest_after).push(e.pending_frame));
        lemma_bag_push(cursor_waiting(rest_after), e.pending_frame);
        if let Some(step) = cursor_step(scene, entry, (sessions.len() - 1) as usize, output) {
            assert(steps.map_values(f) == rest_steps.map_values(f).push(failed_frame(step)));
            lemma_bag_push(rest_steps.map_values(f), failed_frame(step));
        }
        let a = bag_of(cursor_waiting(after)).add(bag_of(steps.map_values(f)));
        assert forall|g: Frame| #[trigger]
            a.count(g) == bag_of(cursor_waiting(sessions)).count(g) by {
            assert(bag_of(cursor_waiting(rest_after)).add(
                bag_of(rest_steps.map_values(f)),
            ).count(g) == bag_of(cursor_waiting(rest)).count(g));
        }
        assert(a =~= bag_of(cursor_waiting(sessions)));
    } else {
        assert(cursor_waiting(after) == cursor_waiting(sessions));
        assert(steps.map_values(f) == Seq::<Option<Frame>>::empty());
        assert(bag_of(cursor_waiting(after)).add(bag_of(steps.map_values(f))) =~= bag_of(
            cursor_waiting(sessions),
        ));
    }
}

/// Every session that a refresh keeps has a client and a source that are around, and its
/// constraints have the size of the source. A frame that still waits in it waited before, in a
/// session whose constraints did not change.
pub proof fn law_refreshed_sessions_are_current(scene: Scene, sessions: Seq<CopyCaptureSession>)
    ensures
        forall|i: int|
            #![trigger refreshed_sessions(scene, sessions)[i]]
            0 <= i < refreshed_sessions(scene, sessions).len() ==> {
                let entry = refreshed_sessions(scene, sessions)[i];
                &&& entry.session.alive
                &&& entry.session.current_size is Some
                &&& scene.source_size(entry.session.handle.source) == entry.session.current_size
                &&& entry.pending_frame is Some ==> sessions.contains(entry)
            },
    decreases sessions.len(),
{
    if sessions.len() > 0 {
        let rest = sessions.drop_last();
        let after = refreshed_sessions(scene, sessions);
        let rest_after = refreshed_sessions(scene, rest);
        law_refreshed_sessions_are_current(scene, rest);
        assert forall|i: int| #![trigger after[i]] 0 <= i < after.len() implies {
            &&& after[i].session.alive
            &&& after[i].session.current_size is Some
            &&& scene.source_size(after[i].session.handle.source) == after[i].session.current_size
            &&& after[i].pending_frame is Some ==> sessions.contains(after[i])
        } by {
            if i < rest_after.len() {
                assert(after[i] == rest_after[i]);
                if after[i].pending_frame is Some {
                    let k = choose|k: int| 0 <= k < rest.len() && rest[k] == rest_after[i];
                    assert(sessions[k] == after[i]);
                }
            } else if after[i].pending_frame is Some {
                assert(sessions[sessions.len() - 1] == after[i]);
            }
        }
    }
}

/// Exactly the sessions whose client and source are around are kept, in their order.
pub proof fn law_refresh_keeps_sessions_with_a_source(
    scene: Scene,
    sessions: Seq<CopyCaptureSession>,
)
    ensures
        session_ids(refreshed_sessions(scene, sessions)) == session_ids(
            sessions.filter(|entry: CopyCaptureSession| kept_size(scene, entry.session) is Some),
        ),
    decreases sessions.len(),
{
    reveal(Seq::filter);
    let pred = |entry: CopyCaptureSession| kept_size(scene, entry.session) is Some;
    if sessions.len() > 0 {
        let rest = sessions.drop_last();
        let entry = sessions.last();
        law_refresh_keeps_sessions_with_a_source(scene, rest);
        if let Some(e) = refreshed_session(scene, entry) {
            assert(session_ids(refreshed_sessions(scene, sessions)) == session_ids(
                refreshed_sessions(scene, rest),
            ).push(e.session.handle.id));
            assert(session_ids(sessions.filter(pred)) == session_ids(rest.filter(pred)).push(
                entry.session.handle.id,
            ));
        }
    } else {
        assert(session_ids(refreshed_sessions(scene, sessions)) == session_ids(
            sessions.filter(pred),
        ));
    }
}

proof fn lemma_settled(scene: Scene, backend: Backend, sessions: Seq<CopyCaptureSession>)
    requires
        forall|i: int|
            0 <= i < sessions.len() ==> refreshed_session(scene, #[trigger] sessions[i]) == Some(
                sessions[i],
            ),
    ensures
        refreshed_sessions(scene, sessions) == sessions,
        refresh_actions(scene, backend, sessions) == Seq::<ActionView>::empty(),
    decreases sessions.len(),
{
    if sessions.len() > 0 {
        let rest = sessions.drop_last();
        assert forall|i: int| 0 <= i < rest.len() implies refreshed_session(
            scene,
            #[trigger] rest[i],
        ) == Some(rest[i]) by {
            assert(rest[i] == sessions[i]);
        }
        lemma_settled(scene, backend, rest);
        assert(refreshed_session(scene, sessions[sessions.len() - 1]) == Some(sessions.last()));
        assert(rest.push(sessions.last()) == sessions);
    }
}

/// A refresh has nothing to do after a refresh of the same scene: it keeps every session as it is
/// and sends nothing, whatever frames were queued, delivered or aborted in between and whatever
/// trackers were made.
pub proof fn law_refresh_settles(
    scene: Scene,
    backend: Backend,
    sessions: Seq<CopyCaptureSession>,
    later: Seq<CopyCaptureSession>,
)
    requires
        later.len() == refreshed_sessions(scene, sessions).len(),
        forall|i: int|
            0 <= i < later.len() ==> (#[trigger] later[i]).session == refreshed_sessions(
                scene,
                sessions,
            )[i].session,
    ensures
        refreshed_sessions(scene, later) == later,
        refresh_actions(scene, backend, later) == Seq::<ActionView>::empty(),
{
    law_refreshed_sessions_are_current(scene, sessions);
    let after = refreshed_sessions(scene, sessions);
    assert forall|i: int| 0 <= i < later.len() implies refreshed_session(scene, #[trigger] later[i])
        == Some(later[i]) by {
        assert(after[i].session.alive);
    }
    lemma_settled(scene, backend, later);
}

proof fn lemma_stopping_settled(scene: Scene, sessions: Seq<CopyCaptureCursorSession>)
    requires
        forall|i: int|
            0 <= i < sessions.len() ==> cursor_session_kept(
                scene,
                (#[trigger] sessions[i]).session,
            ),
    ensures
        kept_cursor_sessions(scene, sessions) == sessions,
        stop_cursor_actions(scene, sessions) == Seq::<ActionView>::empty(),
    decreases sessions.len(),
{
    reveal(Seq::filter);
    if sessions.len() > 0 {
        let rest = sessions.drop_last();
        assert forall|i: int| 0 <= i < rest.len() implies cursor_session_kept(
            scene,
            (#[trigger] rest[i]).session,
        ) by {
            assert(rest[i] == sessions[i]);
        }
        lemma_stopping_settled(scene, rest);
        assert(cursor_session_kept(scene, sessions[sessions.len() - 1].session));
        assert(rest.push(sessions.last()) == sessions);
    }
}

proof fn lemma_kept_cursor_sessions(scene: Scene, sessions: Seq<CopyCaptureCursorSession>)
    ensures
        forall|i: int|
            0 <= i < kept_cursor_sessions(scene, sessions).len() ==> cursor_session_kept(
                scene,
                (#[trigger] kept_cursor_sessions(scene, sessions)[i]).session,
            ),
    decreases sessions.len(),
{
    reveal(Seq::filter);
    if sessions.len() > 0 {
        let rest = sessions.drop_last();
        let kept = kept_cursor_sessions(scene, sessions);
        let kept_rest = kept_cursor_sessions(scene, rest);
        lemma_kept_cursor_sessions(scene, rest);
        assert forall|i: int| 0 <= i < kept.len() implies cursor_session_kept(
            scene,
            (#[trigger] kept[i]).session,
        ) by {
            if i < kept_rest.len() {
                assert(kept[i] == kept_rest[i]);
            }
        }
    }
}

/// Stopping cursor sessions has nothing to do after it was done for the same scene, whatever frames
/// were queued or let go of in between.
pub proof fn law_stopping_cursor_sessions_settles(
    scene: Scene,
    sessions: Seq<CopyCaptureCursorSession>,
    later: Seq<CopyCaptureCursorSession>,
)
    requires
        later.len() == kept_cursor_sessions(scene, sessions).len(),
        forall|i: int|
            0 <= i < later.len() ==> (#[trigger] later[i]).session == kept_cursor_sessions(
                scene,
                sessions,
            )[i].session,
    ensures
        kept_cursor_sessions(scene, later) == later,
        stop_cursor_actions(scene, later) == Seq::<ActionView>::empty(),
{
    lemma_kept_cursor_sessions(scene, sessions);
    let kept = kept_cursor_sessions(scene, sessions);
    assert forall|i: int| 0 <= i < later.len() implies cursor_session_kept(
        scene,
        (#[trigger] later[i]).session,
    ) by {
        assert(cursor_session_kept(scene, kept[i].session));
    }
    lemma_stopping_settled(scene, later);
}

proof fn lemma_cursor_settled(scene: Scene, sessions: Seq<CopyCaptureCursorSession>)
    requires
        forall|i: int|
            0 <= i < sessions.len() ==> refreshed_cursor_session(scene, #[trigger] sessions[i])
                == sessions[i],
    ensures
        forall|i: int|
            #![trigger cursor_refresh_actions(scene, sessions)[i]]
            0 <= i < cursor_refresh_actions(scene, sessions).len() ==> {
                let action = cursor_refresh_actions(scene, sessions)[i];
                action is SetCursorHotspot || action is SetCursorPos
            },
    decreases sessions.len(),
{
    if sessions.len() > 0 {
        let rest = sessions.drop_last();
        let last = sessions.last();
        assert forall|i: int| 0 <= i < rest.len() implies refreshed_cursor_session(
            scene,
            #[trigger] rest[i],
        ) == rest[i] by {
            assert(rest[i] == sessions[i]);
        }
        lemma_cursor_settled(scene, rest);
        let before = cursor_refresh_actions(scene, rest);
        let own = cursor_session_actions(scene, last);
        let actions = cursor_refresh_actions(scene, sessions);
        assert(refreshed_cursor_session(scene, sessions[sessions.len() - 1]) == last);
        if let Some((output, pos, mode)) = tracked_output(scene, last.session.handle.source) {
            assert(!cursor_size_changed(scene, last, output));
            assert(cursor_constraint_actions(scene, last, output) == Seq::<ActionView>::empty());
        }
        assert forall|i: int| #![trigger actions[i]] 0 <= i < actions.len() implies actions[i]
            is SetCursorHotspot || actions[i] is SetCursorPos by {
            if i < before.len() {
                assert(actions[i] == before[i]);
            } else {
                assert(actions[i] == own[i - before.len()]);
            }
        }
    }
}

/// Refreshing cursor sessions changes no session after it was done for the same scene, whatever
/// frames were queued or let go of in between. It sends no constraints and fails no frame; only
/// hotspots and positions are sent again.
pub proof fn law_cursor_refresh_settles(
    scene: Scene,
    sessions: Seq<CopyCaptureCursorSession>,
    later: Seq<CopyCaptureCursorSession>,
)
    requires
        later.len() == sessions.len(),
        forall|i: int|
            0 <= i < later.len() ==> (#[trigger] later[i]).session == refreshed_cursor_sessions(
                scene,
                sessions,
            )[i].session,
    ensures
        refreshed_cursor_sessions(scene, later) == later,
        forall|i: int|
            #![trigger cursor_refresh_actions(scene, later)[i]]
            0 <= i < cursor_refresh_actions(scene, later).len() ==> {
                let action = cursor_refresh_actions(scene, later)[i];
                action is SetCursorHotspot || action is SetCursorPos
            },
{
    assert forall|i: int| 0 <= i < later.len() implies refreshed_cursor_session(
        scene,
        #[trigger] later[i],
    ) == later[i] by {
        let refreshed = refreshed_cursor_session(scene, sessions[i]);
        assert(later[i].session == refreshed.session);
    }
    assert(refreshed_cursor_sessions(scene, later) == later);
    lemma_cursor_settled(scene, later);
}

/// Every cursor session that is told a position on an output has constraints of the size that the
/// cursor image has there.
pub proof fn law_refreshed_cursor_sessions_are_current(
    scene: Scene,
    entry: CopyCaptureCursorSession,
)
    ensures
        tracked_output(scene, entry.session.handle.source) matches Some((output, _, _))
            ==> refreshed_cursor_session(scene, entry).session.current_size == Some(
            scene.cursor_size(output),
        ),
        refreshed_cursor_session(scene, entry).pending_frame is Some ==> refreshed_cursor_session(
            scene,
            entry,
        ) == entry,
{
}

/// The constraints of a cursor session are always valid: where the nominal cursor size and the
/// scale are not zero, or are not needed, the size is never empty, whatever the cursor is. Both
/// sides are positive unless the image has a negative side or the scale is negative.
pub proof fn law_cursor_constraints_are_valid(scene: Scene, output: Output)
    requires
        output.nominal_cursor_fits(scene.xcursor_size),
        output.rendered_cursor_size().empty() ==> scene.xcursor_size != 0 && output.integer_scale
            != 0,
    ensures
        !scene.cursor_size(output).empty(),
        ({
            let size = output.rendered_cursor_size();
            &&& size.empty() ==> output.integer_scale > 0
            &&& 0 <= size.w
            &&& 0 <= size.h
        }) ==> 0 < scene.cursor_size(output).w && 0 < scene.cursor_size(output).h,
{
    if output.rendered_cursor_size().empty() {
        let nominal = scene.xcursor_size * output.integer_scale;
        assert(nominal != 0 && (output.integer_scale > 0 ==> nominal > 0)) by (nonlinear_arith)
            requires
                nominal == scene.xcursor_size * output.integer_scale,
                0 < scene.xcursor_size,
                output.integer_scale != 0,
        ;
    }
}

/// A cursor counts as on an output exactly while it is shown and some pixel of its image is a pixel
/// of the output as it is displayed, wherever its hotspot is.
pub proof fn law_cursor_is_on_the_output_it_shows_on(
    scene: Scene,
    output: Output,
    pos: Point,
    mode: Size,
)
    requires
        0 < mode.w && 0 < mode.h,
        0 < scene.cursor_size(output).w && 0 < scene.cursor_size(output).h,
        fits_i32(pos.x - output.cursor_hotspot().x),
        fits_i32(pos.y - output.cursor_hotspot().y),
        fits_i32(pos.x - output.cursor_hotspot().x + scene.cursor_size(output).w),
        fits_i32(pos.y - output.cursor_hotspot().y + scene.cursor_size(output).h),
    ensures
        cursor_entered(scene, output, pos, mode) <==> scene.pointer_visible && output.cursor is Some
            && exists|x: int, y: int|
            #![trigger Rectangle::at_origin(output.transform.transformed_size(mode)).has_pixel(x, y)]
            {
                &&& pos.x - output.cursor_hotspot().x <= x < pos.x - output.cursor_hotspot().x
                    + scene.cursor_size(output).w
                &&& pos.y - output.cursor_hotspot().y <= y < pos.y - output.cursor_hotspot().y
                    + scene.cursor_size(output).h
                &&& Rectangle::at_origin(output.transform.transformed_size(mode)).has_pixel(x, y)
            },
{
    let image = Rectangle {
        loc: pos.minus(output.cursor_hotspot()),
        size: scene.cursor_size(output),
    };
    let shown = Rectangle::at_origin(output.transform.transformed_size(mode));
    law_overlap_is_a_common_pixel(image, shown);
    if image.overlapping(shown) {
        let (x, y) = choose|x: int, y: int|
            #![trigger image.has_pixel(x, y)]
            image.has_pixel(x, y) && shown.has_pixel(x, y);
        assert(shown.has_pixel(x, y));
    }
    if exists|x: int, y: int|
        #![trigger shown.has_pixel(x, y)]
        {
            &&& pos.x - output.cursor_hotspot().x <= x < pos.x - output.cursor_hotspot().x
                + scene.cursor_size(output).w
            &&& pos.y - output.cursor_hotspot().y <= y < pos.y - output.cursor_hotspot().y
                + scene.cursor_size(output).h
            &&& shown.has_pixel(x, y)
        } {
        let (x, y) = choose|x: int, y: int|
            #![trigger shown.has_pixel(x, y)]
            {
                &&& pos.x - output.cursor_hotspot().x <= x < pos.x - output.cursor_hotspot().x
                    + scene.cursor_size(output).w
                &&& pos.y - output.cursor_hotspot().y <= y < pos.y - output.cursor_hotspot().y
                    + scene.cursor_size(output).h
                &&& shown.has_pixel(x, y)
            };
        assert(image.has_pixel(x, y));
    }
}

/// A redraw renders exactly the sessions that have a frame waiting and a source on the output, each
/// once and in order.
pub proof fn law_redraw_renders_waiting_sessions(
    scene: Scene,
    sessions: Seq<CopyCaptureSession>,
    output: Output,
)
    requires
        sessions.len() <= usize::MAX,
    ensures
        forall|k: int|
            #![trigger capture_jobs(scene, sessions, output)[k]]
            0 <= k < capture_jobs(scene, sessions, output).len() ==> {
                let job = capture_jobs(scene, sessions, output)[k];
                &&& job.index < sessions.len()
                &&& sessions[job.index as int].pending_frame is Some
                &&& capture_on(scene, sessions[job.index as int], output) == Some(job.capture)
            },
        forall|k: int, l: int|
            0 <= k < l < capture_jobs(scene, sessions, output).len() ==> (#[trigger] capture_jobs(
                scene,
                sessions,
                output,
            )[k]).index < (#[trigger] capture_jobs(scene, sessions, output)[l]).index,
        forall|i: int|
            0 <= i < sessions.len() && capture_on(scene, #[trigger] sessions[i], output) is Some
                ==> exists|k: int|
                0 <= k < capture_jobs(scene, sessions, output).len() && (#[trigger] capture_jobs(
                    scene,
                    sessions,
                    output,
                )[k]).index == i,
{
    lemma_jobs_have_sessions(scene, sessions, output);
    lemma_jobs_are_in_order(scene, sessions, output);
    lemma_captures_have_jobs(scene, sessions, output);
}

proof fn lemma_jobs_have_sessions(
    scene: Scene,
    sessions: Seq<CopyCaptureSession>,
    output: Output,
)
    requires
        sessions.len() <= usize::MAX,
    ensures
        forall|k: int|
            #![trigger capture_jobs(scene, sessions, output)[k]]
            0 <= k < capture_jobs(scene, sessions, output).len() ==> {
                let job = capture_jobs(scene, sessions, output)[k];
                &&& job.index < sessions.len()
                &&& capture_on(scene, sessions[job.index as int], output) == Some(job.capture)
            },
    decreases sessions.len(),
{
    if sessions.len() > 0 {
        let rest = sessions.drop_last();
        let jobs = capture_jobs(scene, sessions, output);
        let before = capture_jobs(scene, rest, output);
        lemma_jobs_have_sessions(scene, rest, output);
        assert forall|k: int| #![trigger jobs[k]] 0 <= k < jobs.len() implies {
            &&& jobs[k].index < sessions.len()
            &&& capture_on(scene, sessions[jobs[k].index as int], output) == Some(jobs[k].capture)
        } by {
            if k < before.len() {
                assert(jobs[k] == before[k]);
                assert(rest[jobs[k].index as int] == sessions[jobs[k].index as int]);
            }
        }
    }
}

proof fn lemma_jobs_are_in_order(
    scene: Scene,
    sessions: Seq<CopyCaptureSession>,
    output: Output,
)
    requires
        sessions.len() <= usize::MAX,
    ensures
        forall|k: int, l: int|
            0 <= k < l < capture_jobs(scene, sessions, output).len() ==> (#[trigger] capture_jobs(
                scene,
                sessions,
                output,
            )[k]).index < (#[trigger] capture_jobs(scene, sessions, output)[l]).index,
    decreases sessions.len(),
{
    if sessions.len() > 0 {
        let rest = sessions.drop_last();
        let jobs = capture_jobs(scene, sessions, output);
        let before = capture_jobs(scene, rest, output);
        lemma_jobs_are_in_order(scene, rest, output);
        lemma_jobs_have_sessions(scene, rest, output);
        assert forall|k: int, l: int| 0 <= k < l < jobs.len() implies (#[trigger] jobs[k]).index < (
        #[trigger] jobs[l]).index by {
            assert(jobs[k] == before[k]);
            if l < before.len() {
                assert(jobs[l] == before[l]);
            }
        }
    }
}

proof fn lemma_captures_have_jobs(
    scene: Scene,
    sessions: Seq<CopyCaptureSession>,
    output: Output,
)
    requires
        sessions.len() <= usize::MAX,
    ensures
        forall|i: int|
            0 <= i < sessions.len() && capture_on(scene, #[trigger] sessions[i], output) is Some
                ==> exists|k: int|
                0 <= k < capture_jobs(scene, sessions, output).len() && (#[trigger] capture_jobs(
                    scene,
                    sessions,
                    output,
                )[k]).index == i,
    decreases sessions.len(),
{
    if sessions.len() > 0 {
        let rest = sessions.drop_last();
        let jobs = capture_jobs(scene, sessions, output);
        let before = capture_jobs(scene, rest, output);
        lemma_captures_have_jobs(scene, rest, output);
        assert forall|i: int|
            0 <= i < sessions.len() && capture_on(
                scene,
                #[trigger] sessions[i],
                output,
            ) is Some implies exists|k: int|
            0 <= k < jobs.len() && (#[trigger] jobs[k]).index == i by {
            if i < rest.len() {
                assert(rest[i] == sessions[i]);
                let k = choose|k: int|
                    0 <= k < before.len() && (#[trigger] before[k]).index == i;
                assert(jobs[k] == before[k]);
            } else {
                let k = jobs.len() - 1;
                assert(jobs[k].index == i);
            }
        }
    }
}

/// A queued frame is captured on the redraw that queueing it asks for, at the size of its source.
pub proof fn law_queued_frame_is_captured_on_its_redraw(
    scene: Scene,
    entry: CopyCaptureSession,
    frame: Frame,
    output: u64,
)
    requires
        scene.wf(),
        scene.source_size(entry.session.handle.source) is Some,
        scene.redrawn_output(entry.session.handle.source) == Some(output),
    ensures
        scene.output_state@.contains_key(output),
        capture_on(
            scene,
            entry.with_frame(Some(frame)),
            scene.output_state@[output],
        ) matches Some(c) && Some(c.size) == scene.source_size(entry.session.handle.source),
{
}

/// A source that has a size asks for a redraw: an output asks for its own, a window for that of
/// the output that it is on. A source that is gone asks for none.
pub proof fn law_queueing_asks_for_the_sources_output(
    scene: Scene,
    source: ImageCaptureSource,
    output: u64,
)
    requires
        scene.wf(),
        scene.output_state@.contains_key(output),
    ensures
        source.output == Some(output) ==> scene.redrawn_output(source) == Some(output),
        ({
            &&& scene.target(source) matches Some(CaptureSourceTarget::Toplevel(surface))
            &&& scene.windows@.contains_key(surface)
            &&& scene.windows@[surface].output == Some(output)
        }) ==> scene.redrawn_output(source) == Some(output),
        scene.target(source) is None ==> scene.redrawn_output(source) is None,
{
}

/// A session that was just refreshed is rendered at the size of its constraints, so a buffer that
/// matches the constraints is not refused for its size.
pub proof fn law_captures_match_the_constraints(
    scene: Scene,
    entry: CopyCaptureSession,
    output: Output,
    buffer: FrameBuffer,
)
    requires
        scene.output_state@.contains_key(output.id) ==> scene.output_state@[output.id] == output,
        scene.wf(),
        refreshed_session(scene, entry) == Some(entry),
        buffer.size == entry.session.current_size,
    ensures
        capture_on(scene, entry, output) matches Some(c) ==> {
            &&& Some(c.size) == entry.session.current_size
            &&& usable_target(buffer, c.size) != Err::<BufferTarget, _>(
                CaptureFailureReason::BufferConstraints,
            )
        },
{
}

/// A session that nothing was delivered to, or whose last delivery failed, gets a new damage
/// tracker on the next redraw, unless the initial tracker happens to be for that very mode.
pub proof fn law_initial_tracker_is_replaced(size: Size, scale: Scale, transform: Transform)
    requires
        !(size == (Size { w: 0, h: 0 }) && scale.equals(Scale::spec_one()) && transform
            == Transform::Normal),
    ensures
        !DamageTracker::spec_initial().made_for(size, scale, transform),
{
}

/// A tracker is kept from one redraw to the next while the mode stays the same and its scale is a
/// number.
pub proof fn law_tracker_is_kept_while_the_mode_is(
    tracker: DamageTracker,
    size: Size,
    scale: Scale,
    transform: Transform,
)
    ensures
        !scale.is_nan() ==> tracker.fitted(size, scale, transform).made_for(size, scale, transform),
        tracker.fitted(size, scale, transform).fitted(size, scale, transform) == tracker.fitted(
            size,
            scale,
            transform,
        ),
{
}

/// Damage that lies on an output lies in the buffer that the output is captured into.
pub proof fn law_damage_lies_in_the_buffer(rect: Rectangle, size: Size, transform: Transform)
    requires
        rect.within(transform.transformed_size(size)),
    ensures
        fits_in_buffer(rect, size, transform),
        in_buffer(rect, size, transform).within(size),
{
}

/// The damage of a whole output is the whole buffer that the output is captured into.
pub proof fn law_full_damage_fills_the_buffer(size: Size, transform: Transform)
    ensures
        fits_in_buffer(Rectangle::at_origin(transform.transformed_size(size)), size, transform),
        in_buffer(Rectangle::at_origin(transform.transformed_size(size)), size, transform)
            == Rectangle::at_origin(size),
{
}

/// Converting a rectangle of the buffer by the rectangle conversion of the transform, and then as
/// damage is converted, gives the rectangle. Under a flipped quarter turn it gives the rectangle
/// turned by 180 degrees in the buffer: there the rectangle conversions of a transform and of its
/// inverted transform do not undo each other.
pub proof fn law_damage_is_moved_back(rect: Rectangle, size: Size, transform: Transform)
    requires
        rect.within(size),
    ensures
        in_buffer(transform.transformed_rect(rect, size), size, transform) == (if transform
            is Flipped90 || transform is Flipped270 {
            Transform::_180.transformed_rect(rect, size)
        } else {
            rect
        }),
{
}

/// When the cursor image changes its size, a frame that waits in a cursor session fails before the
/// new constraints are sent.
pub proof fn law_cursor_frame_fails_before_new_constraints(
    scene: Scene,
    entry: CopyCaptureCursorSession,
    frame: Frame,
)
    requires
        entry.pending_frame == Some(frame),
        tracked_output(scene, entry.session.handle.source) matches Some((output, _, _))
            && cursor_size_changed(scene, entry, output),
    ensures
        cursor_session_actions(scene, entry).len() >= 2,
        cursor_session_actions(scene, entry)[0] == (ActionView::FailFrame {
            frame,
            reason: CaptureFailureReason::BufferConstraints,
        }),
        cursor_session_actions(scene, entry)[1] is UpdateCursorConstraints,
{
}

/// A session whose constraints have the size of its source is left alone by a refresh, so one that
/// starts with the constraints computed for its source is not sent them again.
pub proof fn law_current_constraints_are_not_sent_again(
    scene: Scene,
    backend: Backend,
    entry: CopyCaptureSession,
)
    requires
        entry.session.alive,
        scene.source_size(entry.session.handle.source) is Some,
        entry.session.current_size == scene.source_size(entry.session.handle.source),
    ensures
        refreshed_session(scene, entry) == Some(entry),
        session_actions(scene, backend, entry) == Seq::<ActionView>::empty(),
{
}

/// A session whose client or source is gone is stopped by the next refresh, along with the frame
/// that waits in it.
pub proof fn law_refresh_stops_sessions_without_a_source(
    scene: Scene,
    backend: Backend,
    entry: CopyCaptureSession,
)
    requires
        !entry.session.alive || scene.target(entry.session.handle.source) is None,
    ensures
        refreshed_session(scene, entry) is None,
        session_actions(scene, backend, entry) == seq![
            ActionView::DropSession {
                session: entry.session.handle.id,
                pending_frame: entry.pending_frame,
            },
        ],
{
}

/// Only outputs support cursor capture: a cursor session with another source is told that the
/// cursor is not there and nothing else, and no redraw has to do with it.
pub proof fn law_only_outputs_support_cursor_capture(
    scene: Scene,
    entry: CopyCaptureCursorSession,
    output: Output,
)
    requires
        !(scene.target(entry.session.handle.source) matches Some(CaptureSourceTarget::Output(_))),
    ensures
        refreshed_cursor_session(scene, entry) == entry,
        cursor_session_actions(scene, entry) == seq![
            ActionView::SetCursorPos { session: entry.session.handle.id, pos: None },
        ],
        cursor_frame_on(scene, entry, output) is None,
        stepped_cursor_session(scene, entry, output) == entry,
{
}

/// The pointer is above the window that it is drawn on: where a window is captured with the
/// pointer, the elements are all of the pointer's and then all of the window's.
pub proof fn law_pointer_is_above_the_window<E>(
    surface: u64,
    offset: Point,
    pointer: Vec<E>,
    window: Vec<E>,
)
    ensures
        (CaptureContent::Toplevel { surface, pointer_offset: Some(offset) }).layer_order() == seq![
            Layer::Pointer { offset },
            Layer::Window { surface },
        ],
        stacked(seq![pointer, window]) == pointer@ + window@,
        (CaptureContent::Toplevel { surface, pointer_offset: None }).layer_order() == seq![
            Layer::Window { surface },
        ],
        stacked(seq![window]) == window@,
{
    let views = |layer: Vec<E>| layer@;
    let one = seq![window].map_values(views);
    let two = seq![pointer, window].map_values(views);
    assert(one.drop_first() == Seq::<Seq<E>>::empty());
    assert(two.drop_first() == one);
    assert(one.first() == window@);
    assert(two.first() == pointer@);
    assert(one.drop_first().flatten() == Seq::<E>::empty());
    assert(one.flatten() == window@);
}

/// A redraw renders the cursor image exactly if some cursor session with the output as its source
/// has a frame waiting and has been sent constraints.
pub proof fn law_cursor_image_is_rendered_when_needed(
    scene: Scene,
    sessions: Seq<CopyCaptureCursorSession>,
    output: Output,
)
    ensures
        image_needed(cursor_steps(scene, sessions, output)) <==> exists|i: int|
            0 <= i < sessions.len() && cursor_frame_on(scene, #[trigger] sessions[i], output)
                is Some && sessions[i].session.current_size is Some,
{
    law_cursor_redraw_steps_waiting_sessions(scene, sessions, output);
    let steps = cursor_steps(scene, sessions, output);
    if image_needed(steps) {
        let k = choose|k: int| 0 <= k < steps.len() && #[trigger] steps[k] is Capture;
        let i = choose|i: int|
            0 <= i < sessions.len() && cursor_step(scene, #[trigger] sessions[i], i as usize, output)
                == Some(steps[k]);
        assert(cursor_frame_on(scene, sessions[i], output) is Some);
    }
    if exists|i: int|
        0 <= i < sessions.len() && cursor_frame_on(scene, #[trigger] sessions[i], output) is Some
            && sessions[i].session.current_size is Some {
        let i = choose|i: int|
            0 <= i < sessions.len() && cursor_frame_on(scene, #[trigger] sessions[i], output)
                is Some && sessions[i].session.current_size is Some;
        let step = cursor_step(scene, sessions[i], i as usize, output)->0;
        assert(steps.contains(step));
        let k = choose|k: int| 0 <= k < steps.len() && steps[k] == step;
        assert(steps[k] is Capture);
    }
}

/// A redraw has one step for each cursor session that has a frame waiting and the output as its
/// source, and none for the others.
pub proof fn law_cursor_redraw_steps_waiting_sessions(
    scene: Scene,
    sessions: Seq<CopyCaptureCursorSession>,
    output: Output,
)
    ensures
        cursor_steps(scene, sessions, output).len() == sessions.filter(
            |entry: CopyCaptureCursorSession| cursor_frame_on(scene, entry, output) is Some,
        ).len(),
        forall|i: int|
            0 <= i < sessions.len() && cursor_frame_on(scene, #[trigger] sessions[i], output)
                is Some ==> cursor_steps(scene, sessions, output).contains(
                cursor_step(scene, sessions[i], i as usize, output)->0,
            ),
        forall|k: int|
            #![trigger cursor_steps(scene, sessions, output)[k]]
            0 <= k < cursor_steps(scene, sessions, output).len() ==> exists|i: int|
                0 <= i < sessions.len() && cursor_step(
                    scene,
                    #[trigger] sessions[i],
                    i as usize,
                    output,
                ) == Some(cursor_steps(scene, sessions, output)[k]),
    decreases sessions.len(),
{
    reveal(Seq::filter);
    if sessions.len() > 0 {
        let rest = sessions.drop_last();
        let steps = cursor_steps(scene, sessions, output);
        let before = cursor_steps(scene, rest, output);
        law_cursor_redraw_steps_waiting_sessions(scene, rest, output);
        assert forall|i: int|
            0 <= i < sessions.len() && cursor_frame_on(
                scene,
                #[trigger] sessions[i],
                output,
            ) is Some implies steps.contains(
            cursor_step(scene, sessions[i], i as usize, output)->0,
        ) by {
            let step = cursor_step(scene, sessions[i], i as usize, output)->0;
            if i < rest.len() {
                assert(rest[i] == sessions[i]);
                let k = choose|k: int| 0 <= k < before.len() && before[k] == step;
                assert(steps[k] == step);
            } else {
                assert(steps.last() == step);
            }
        }
        assert forall|k: int| #![trigger steps[k]] 0 <= k < steps.len() implies exists|i: int|
            0 <= i < sessions.len() && cursor_step(
                scene,
                #[trigger] sessions[i],
                i as usize,
                output,
            ) == Some(steps[k]) by {
            if k < before.len() {
                assert(steps[k] == before[k]);
                let i = choose|i: int|
                    0 <= i < rest.len() && cursor_step(
                        scene,
                        #[trigger] rest[i],
                        i as usize,
                        output,
                    ) == Some(before[k]);
                assert(sessions[i] == rest[i]);
            } else {
                let i = sessions.len() - 1;
                assert(cursor_step(scene, sessions[i], i as usize, output) == Some(steps[k]));
            }
        }
    }
}

} // verus!
