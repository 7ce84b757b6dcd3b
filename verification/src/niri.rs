//! The compositor's side of frame delivery: what is rendered on a redraw, and what cursor sessions
//! are told on every refresh cycle.
use vstd::multiset::Multiset;
use vstd::prelude::*;

use crate::delivery::ensure_damage_tracker;
use crate::formats::{BufferConstraints, BufferConstraintsView, ShmFormat};
use crate::geometry::{Point, Rectangle, Size, Transform};
use crate::history::{leads_to, Event};
use crate::scene::{CaptureSourceTarget, ImageCaptureSource, Output, Scale, Scene};
use crate::session::{
    actions_view, bag_of, given_up, Action, ActionView, CaptureFailureReason,
    CopyCaptureCursorSession, CopyCaptureSession, CursorSession, Frame,
};

verus! {

/// The capture sessions of a compositor.
pub struct Niri {
    pub copy_capture_sessions: Vec<CopyCaptureSession>,
    pub copy_capture_cursor_sessions: Vec<CopyCaptureCursorSession>,
    pub scene: Scene,
}

/// What something is rendered for. Windows can be blocked out from what is not an output.
#[derive(Clone, Copy, PartialEq, Eq, Structural, Debug)]
pub enum RenderTarget {
    /// The output itself.
    Output,
    /// A screencast.
    Screencast,
    /// A capture of the screen.
    ScreenCapture,
}

/// The contents of a [`Niri`].
#[verifier::ext_equal]
pub struct NiriView {
    pub sessions: Seq<CopyCaptureSession>,
    pub cursor_sessions: Seq<CopyCaptureCursorSession>,
    pub scene: Scene,
}

impl View for Niri {
    type V = NiriView;

    open spec fn view(&self) -> NiriView {
        NiriView {
            sessions: self.copy_capture_sessions@,
            cursor_sessions: self.copy_capture_cursor_sessions@,
            scene: self.scene,
        }
    }
}

/// What a capture shows.
#[derive(Clone, Copy, PartialEq, Eq, Debug)]
pub enum CaptureContent {
    /// The output that is redrawn, rendered for a target.
    Output { target: RenderTarget, draw_cursor: bool },
    /// A window, and on top of it the pointer, moved by this offset, if the pointer is drawn.
    Toplevel { surface: u64, pointer_offset: Option<Point> },
}

/// A layer of a capture. Each is rendered to a list of elements, topmost first.
#[derive(Clone, Copy, PartialEq, Eq, Structural, Debug)]
pub enum Layer {
    /// The output that is redrawn, rendered for a target.
    Output { target: RenderTarget, draw_cursor: bool },
    /// The pointer on the output that is redrawn, every element moved by this offset.
    Pointer { offset: Point },
    /// A window, rendered on its own as for a screencast.
    Window { surface: u64 },
}

/// How a session's source is rendered.
#[derive(Clone, Copy, PartialEq, Eq, Debug)]
pub struct Capture {
    pub content: CaptureContent,
    pub size: Size,
    pub scale: Scale,
    pub transform: Transform,
}

/// A session to render on a redraw.
#[derive(Clone, Copy, PartialEq, Eq, Debug)]
pub struct CaptureJob {
    /// The index of the session.
    pub index: usize,
    pub capture: Capture,
    /// Whether the session's damage tracker has to be made anew first.
    pub fresh_tracker: bool,
}

/// What happens to a cursor session on a redraw.
#[derive(Clone, Copy, PartialEq, Eq, Debug)]
pub enum CursorCaptureStep {
    /// The waiting frame fails.
    Fail { frame: Frame, reason: CaptureFailureReason },
    /// The cursor image is rendered for the session with this index.
    Capture { index: usize, size: Size, scale: Scale, fresh_tracker: bool },
}

/// What a redraw does for cursor sessions.
#[derive(PartialEq, Eq, Debug)]
pub struct CursorCapturePlan {
    /// Whether the cursor image is rendered, once for all the sessions that capture it.
    pub render_image: bool,
    pub steps: Vec<CursorCaptureStep>,
}

/// The frame that a step fails.
pub open spec fn failed_frame(step: CursorCaptureStep) -> Option<Frame> {
    match step {
        CursorCaptureStep::Fail { frame, .. } => Some(frame),
        CursorCaptureStep::Capture { .. } => None,
    }
}

/// The frames that some steps fail, as a bag.
pub open spec fn failed_by(steps: Seq<CursorCaptureStep>) -> Multiset<Frame> {
    bag_of(steps.map_values(|step: CursorCaptureStep| failed_frame(step)))
}

/// Some step captures the cursor image.
pub open spec fn image_needed(steps: Seq<CursorCaptureStep>) -> bool {
    exists|k: int| 0 <= k < steps.len() && #[trigger] steps[k] is Capture
}

proof fn lemma_image_needed_push(steps: Seq<CursorCaptureStep>, step: CursorCaptureStep)
    ensures
        image_needed(steps.push(step)) == (image_needed(steps) || step is Capture),
{
    let all = steps.push(step);
    if image_needed(steps) {
        let k = choose|k: int| 0 <= k < steps.len() && #[trigger] steps[k] is Capture;
        assert(all[k] is Capture);
    }
    if step is Capture {
        assert(all[steps.len() as int] is Capture);
    }
    if image_needed(all) && !(step is Capture) {
        let k = choose|k: int| 0 <= k < all.len() && #[trigger] all[k] is Capture;
        assert(steps[k] is Capture);
    }
}

impl CaptureContent {
    /// The layers of the content, topmost first: the pointer is above the window.
    pub open spec fn layer_order(self) -> Seq<Layer> {
        match self {
            CaptureContent::Output { target, draw_cursor } => seq![
                Layer::Output { target, draw_cursor },
            ],
            CaptureContent::Toplevel { surface, pointer_offset } => match pointer_offset {
                Some(offset) => seq![Layer::Pointer { offset }, Layer::Window { surface }],
                None => seq![Layer::Window { surface }],
            },
        }
    }

    /// The layers of the content, topmost first.
    pub fn layers(&self) -> (r: Vec<Layer>)
        ensures
            r@ == self.layer_order(),
    {
        let mut layers: Vec<Layer> = Vec::new();
        match *self {
            CaptureContent::Output { target, draw_cursor } => {
                layers.push(Layer::Output { target, draw_cursor });
            },
            CaptureContent::Toplevel { surface, pointer_offset } => {
                if let Some(offset) = pointer_offset {
                    layers.push(Layer::Pointer { offset });
                }
                layers.push(Layer::Window { surface });
            },
        }
        layers
    }
}

/// The elements of some layers, one layer after the other.
pub open spec fn stacked<E>(layers: Seq<Vec<E>>) -> Seq<E> {
    layers.map_values(|layer: Vec<E>| layer@).flatten()
}

/// The elements of a capture, topmost first, from those of its layers in their order.
pub fn stack_layers<E>(layers: Vec<Vec<E>>) -> (r: Vec<E>)
    ensures
        r@ == stacked(layers@),
{
    let ghost all = layers@.map_values(|layer: Vec<E>| layer@);
    let mut rest = layers;
    let mut elements: Vec<E> = Vec::new();
    assert(all.skip(rest.len() as int).len() == 0);
    while rest.len() > 0
        invariant
            rest.len() <= all.len(),
            forall|i: int| 0 <= i < rest.len() ==> (#[trigger] rest@[i])@ == all[i],
            elements@ == all.skip(rest.len() as int).flatten(),
        decreases rest.len(),
    {
        let ghost n = rest.len() as int;
        let mut layer = rest.pop().unwrap();
        layer.append(&mut elements);
        elements = layer;
        proof {
            assert(all.skip(n - 1).drop_first() == all.skip(n));
            assert(all.skip(n - 1).first() == all[n - 1]);
        }
    }
    assert(all.skip(0) == all);
    elements
}

/// The constraints for capturing a cursor image of some size.
pub open spec fn cursor_constraints_view(size: Size) -> BufferConstraintsView {
    BufferConstraintsView { size, shm: seq![ShmFormat::Argb8888], dma: None }
}

/// Resolves a capture source into its target, if the target is still around.
pub fn source_target(niri: &Niri, source: &ImageCaptureSource) -> (r: Option<CaptureSourceTarget>)
    ensures
        r == niri.scene.target(*source),
{
    niri.scene.resolve(source)
}

/// Buffer constraints for capturing the cursor of an output. Argb8888 since it has alpha.
pub fn cursor_capture_constraints(niri: &Niri, output: &Output) -> (r: BufferConstraints)
    requires
        output.nominal_cursor_fits(niri.scene.xcursor_size),
    ensures
        r@ == cursor_constraints_view(niri.scene.cursor_size(*output)),
{
    let mut shm: Vec<ShmFormat> = Vec::new();
    shm.push(ShmFormat::Argb8888);
    BufferConstraints { size: cursor_capture_size(niri, output), shm, dma: None }
}

/// Size the cursor renders at on this output.
pub fn cursor_capture_size(niri: &Niri, output: &Output) -> (r: Size)
    requires
        output.nominal_cursor_fits(niri.scene.xcursor_size),
    ensures
        r == niri.scene.cursor_size(*output),
{
    let size = match output.cursor {
        Some(image) => image.size,
        None => Size { w: 0, h: 0 },
    };

    // Fall back to the nominal cursor size when the cursor is currently hidden or has no buffer,
    // so that the session always has valid constraints.
    if size.is_empty() {
        let nominal: i32 = niri.scene.xcursor_size as i32 * output.integer_scale;
        return Size { w: nominal, h: nominal };
    }
    size
}

/// Cursor hotspot in capture buffer coordinates.
pub fn cursor_capture_hotspot(output: &Output) -> (r: Point)
    ensures
        r == output.cursor_hotspot(),
{
    match output.cursor {
        Some(image) => image.hotspot,
        None => Point { x: 0, y: 0 },
    }
}

/// How an output is captured for a session, if the output has a mode.
pub open spec fn output_capture(entry: CopyCaptureSession, output: Output) -> Option<Capture> {
    match output.current_mode {
        // The buffer keeps the output's native orientation.
        Some(size) => Some(
            Capture {
                content: CaptureContent::Output {
                    target: RenderTarget::ScreenCapture,
                    draw_cursor: entry.session.draw_cursor,
                },
                size,
                scale: output.scale,
                transform: output.transform,
            },
        ),
        None => None,
    }
}

/// How a window is captured for a session when an output is redrawn, if the window is on it.
pub open spec fn toplevel_capture(
    scene: Scene,
    entry: CopyCaptureSession,
    output: Output,
    surface: u64,
) -> Option<Capture> {
    if scene.windows@.contains_key(surface) && scene.windows@[surface].output == Some(output.id) {
        let mapped = scene.windows@[surface];
        let pointer_offset = match mapped.pointer_origin {
            Some(origin) => if entry.session.draw_cursor {
                Some(origin.mirrored())
            } else {
                None
            },
            None => None,
        };
        Some(
            Capture {
                content: CaptureContent::Toplevel { surface, pointer_offset },
                size: mapped.bbox.size,
                scale: output.scale,
                transform: Transform::Normal,
            },
        )
    } else {
        None
    }
}

/// How a session is captured when an output is redrawn: not at all, unless a frame waits in it and
/// its source is on that output.
pub open spec fn capture_on(scene: Scene, entry: CopyCaptureSession, output: Output) -> Option<
    Capture,
> {
    if entry.pending_frame is None {
        None
    } else {
        match scene.target(entry.session.handle.source) {
            Some(CaptureSourceTarget::Output(o)) => if o.id == output.id {
                output_capture(entry, output)
            } else {
                None
            },
            Some(CaptureSourceTarget::Toplevel(surface)) => toplevel_capture(
                scene,
                entry,
                output,
                surface,
            ),
            None => None,
        }
    }
}

/// A session with its tracker made fit for a capture, if there is one.
pub open spec fn fitted_session(
    entry: CopyCaptureSession,
    capture: Option<Capture>,
) -> CopyCaptureSession {
    match capture {
        Some(c) => entry.with_tracker(
            entry.damage_tracker.fitted(c.size, c.scale, c.transform),
        ),
        None => entry,
    }
}

/// The sessions to render when an output is redrawn.
pub open spec fn capture_jobs(
    scene: Scene,
    sessions: Seq<CopyCaptureSession>,
    output: Output,
) -> Seq<CaptureJob>
    decreases sessions.len(),
{
    if sessions.len() == 0 {
        Seq::empty()
    } else {
        let before = capture_jobs(scene, sessions.drop_last(), output);
        match capture_on(scene, sessions.last(), output) {
            Some(c) => before.push(
                CaptureJob {
                    index: (sessions.len() - 1) as usize,
                    capture: c,
                    fresh_tracker: !sessions.last().damage_tracker.made_for(
                        c.size,
                        c.scale,
                        c.transform,
                    ),
                },
            ),
            None => before,
        }
    }
}

/// The sessions after a redraw was prepared.
pub open spec fn fitted_sessions(
    scene: Scene,
    sessions: Seq<CopyCaptureSession>,
    output: Output,
) -> Seq<CopyCaptureSession> {
    sessions.map_values(
        |entry: CopyCaptureSession| fitted_session(entry, capture_on(scene, entry, output)),
    )
}

/// The frame that a redraw of an output has to do with: the one that waits in a cursor session
/// whose source is that output.
pub open spec fn cursor_frame_on(
    scene: Scene,
    entry: CopyCaptureCursorSession,
    output: Output,
) -> Option<Frame> {
    match scene.target(entry.session.handle.source) {
        Some(CaptureSourceTarget::Output(o)) => if o.id == output.id {
            entry.pending_frame
        } else {
            None
        },
        _ => None,
    }
}

/// What happens to a cursor session when an output is redrawn.
pub open spec fn cursor_step(
    scene: Scene,
    entry: CopyCaptureCursorSession,
    index: usize,
    output: Output,
) -> Option<CursorCaptureStep> {
    match cursor_frame_on(scene, entry, output) {
        Some(frame) => Some(
            match entry.session.current_size {
                Some(size) => CursorCaptureStep::Capture {
                    index,
                    size,
                    scale: output.scale,
                    fresh_tracker: !entry.damage_tracker.made_for(
                        size,
                        output.scale,
                        Transform::Normal,
                    ),
                },
                None => CursorCaptureStep::Fail {
                    frame,
                    reason: CaptureFailureReason::BufferConstraints,
                },
            },
        ),
        None => None,
    }
}

/// A cursor session after a redraw of an output was prepared.
pub open spec fn stepped_cursor_session(
    scene: Scene,
    entry: CopyCaptureCursorSession,
    output: Output,
) -> CopyCaptureCursorSession {
    match cursor_frame_on(scene, entry, output) {
        Some(_) => match entry.session.current_size {
            Some(size) => entry.with_tracker(
                entry.damage_tracker.fitted(size, output.scale, Transform::Normal),
            ),
            None => entry.with_frame(None),
        },
        None => entry,
    }
}

/// What happens to cursor sessions when an output is redrawn.
pub open spec fn cursor_steps(
    scene: Scene,
    sessions: Seq<CopyCaptureCursorSession>,
    output: Output,
) -> Seq<CursorCaptureStep>
    decreases sessions.len(),
{
    if sessions.len() == 0 {
        Seq::empty()
    } else {
        let before = cursor_steps(scene, sessions.drop_last(), output);
        match cursor_step(scene, sessions.last(), (sessions.len() - 1) as usize, output) {
            Some(step) => before.push(step),
            None => before,
        }
    }
}

/// Cursor sessions after a redraw of an output was prepared.
pub open spec fn stepped_cursor_sessions(
    scene: Scene,
    sessions: Seq<CopyCaptureCursorSession>,
    output: Output,
) -> Seq<CopyCaptureCursorSession> {
    sessions.map_values(
        |entry: CopyCaptureCursorSession| stepped_cursor_session(scene, entry, output),
    )
}

/// The output that a cursor session with a source can tell a cursor position on, with the pointer
/// position on it and the size of its mode.
pub open spec fn tracked_output(scene: Scene, source: ImageCaptureSource) -> Option<
    (Output, Point, Size),
> {
    match scene.target(source) {
        Some(CaptureSourceTarget::Output(output)) => match (output.pointer, output.current_mode) {
            (Some(pos), Some(mode)) => Some((output, pos, mode)),
            _ => None,
        },
        _ => None,
    }
}

/// The nominal cursor size is a coordinate where a cursor session with a source needs it.
pub open spec fn tracked_cursor_fits(scene: Scene, source: ImageCaptureSource) -> bool {
    tracked_output(scene, source) matches Some((output, _, _)) ==> output.nominal_cursor_fits(
        scene.xcursor_size,
    )
}

/// The nominal cursor size is a coordinate wherever cursor sessions need it.
pub open spec fn cursor_sizes_fit(scene: Scene, sessions: Seq<CopyCaptureCursorSession>) -> bool {
    forall|i: int|
        0 <= i < sessions.len() ==> tracked_cursor_fits(
            scene,
            (#[trigger] sessions[i]).session.handle.source,
        )
}

/// The cursor is on an output: it is shown, and some part of its image is within the output as it
/// is displayed.
pub open spec fn cursor_entered(scene: Scene, output: Output, pos: Point, mode: Size) -> bool {
    let image = Rectangle {
        loc: pos.minus(output.cursor_hotspot()),
        size: scene.cursor_size(output),
    };
    &&& scene.pointer_visible
    &&& output.cursor is Some
    &&& image.overlapping(Rectangle::at_origin(output.transform.transformed_size(mode)))
}

/// The constraints of a cursor session have another size than the cursor image now has.
pub open spec fn cursor_size_changed(
    scene: Scene,
    entry: CopyCaptureCursorSession,
    output: Output,
) -> bool {
    entry.session.current_size != Some(scene.cursor_size(output))
}

/// A cursor session after a refresh.
pub open spec fn refreshed_cursor_session(
    scene: Scene,
    entry: CopyCaptureCursorSession,
) -> CopyCaptureCursorSession {
    match tracked_output(scene, entry.session.handle.source) {
        Some((output, _, _)) => if cursor_size_changed(scene, entry, output) {
            CopyCaptureCursorSession {
                session: CursorSession {
                    current_size: Some(scene.cursor_size(output)),
                    ..entry.session
                },
                pending_frame: None,
                ..entry
            }
        } else {
            entry
        },
        None => entry,
    }
}

/// The constraints that a refresh sends to a cursor session. A frame that waits fails before they
/// are sent: its buffer no longer matches.
pub open spec fn cursor_constraint_actions(
    scene: Scene,
    entry: CopyCaptureCursorSession,
    output: Output,
) -> Seq<ActionView> {
    let update = ActionView::UpdateCursorConstraints {
        session: entry.session.handle.id,
        constraints: cursor_constraints_view(scene.cursor_size(output)),
    };
    if !cursor_size_changed(scene, entry, output) {
        Seq::empty()
    } else {
        match entry.pending_frame {
            Some(frame) => seq![
                ActionView::FailFrame { frame, reason: CaptureFailureReason::BufferConstraints },
                update,
            ],
            None => seq![update],
        }
    }
}

/// What a refresh sends to a cursor session.
pub open spec fn cursor_session_actions(scene: Scene, entry: CopyCaptureCursorSession) -> Seq<
    ActionView,
> {
    let session = entry.session.handle.id;
    match tracked_output(scene, entry.session.handle.source) {
        Some((output, pos, mode)) => cursor_constraint_actions(scene, entry, output).push(
            ActionView::SetCursorHotspot { session, hotspot: output.cursor_hotspot() },
        ).push(
            ActionView::SetCursorPos {
                session,
                pos: if cursor_entered(scene, output, pos, mode) {
                    Some(pos)
                } else {
                    None
                },
            },
        ),
        None => seq![ActionView::SetCursorPos { session, pos: None }],
    }
}

/// Cursor sessions after a refresh.
pub open spec fn refreshed_cursor_sessions(
    scene: Scene,
    sessions: Seq<CopyCaptureCursorSession>,
) -> Seq<CopyCaptureCursorSession> {
    sessions.map_values(|entry: CopyCaptureCursorSession| refreshed_cursor_session(scene, entry))
}

/// What a refresh sends to cursor sessions.
pub open spec fn cursor_refresh_actions(
    scene: Scene,
    sessions: Seq<CopyCaptureCursorSession>,
) -> Seq<ActionView>
    decreases sessions.len(),
{
    if sessions.len() == 0 {
        Seq::empty()
    } else {
        cursor_refresh_actions(scene, sessions.drop_last()) + cursor_session_actions(
            scene,
            sessions.last(),
        )
    }
}

impl Niri {
    /// A compositor without sessions.
    pub fn new(scene: Scene) -> (r: Niri)
        ensures
            r.scene == scene,
            r.copy_capture_sessions@ == Seq::<CopyCaptureSession>::empty(),
            r.copy_capture_cursor_sessions@ == Seq::<CopyCaptureCursorSession>::empty(),
    {
        Niri {
            copy_capture_sessions: Vec::new(),
            copy_capture_cursor_sessions: Vec::new(),
            scene,
        }
    }

    /// Decides what to render for queued capture frames when an output is redrawn, and makes the
    /// damage trackers fit.
    ///
    /// The frames themselves are delivered job by job, once the damage of each source is known.
    pub fn render_for_image_copy_capture(&mut self, output: &Output) -> (jobs: Vec<CaptureJob>)
        ensures
            final(self).scene == old(self).scene,
            final(self).copy_capture_cursor_sessions == old(self).copy_capture_cursor_sessions,
            jobs@ == capture_jobs(old(self).scene, old(self).copy_capture_sessions@, *output),
            final(self).copy_capture_sessions@ == fitted_sessions(
                old(self).scene,
                old(self).copy_capture_sessions@,
                *output,
            ),
            leads_to(
                old(self)@,
                Event::Redraw { output: *output },
                final(self)@,
                Multiset::empty(),
            ),
    {
        let ghost scene = self.scene;
        let ghost sessions = self.copy_capture_sessions@;
        let mut jobs: Vec<CaptureJob> = Vec::new();
        let mut i: usize = 0;
        assert(sessions.take(0).len() == 0);
        while i < self.copy_capture_sessions.len()
            invariant
                i <= sessions.len(),
                self.copy_capture_sessions.len() == sessions.len(),
                self.scene == scene,
                self.copy_capture_cursor_sessions == old(self).copy_capture_cursor_sessions,
                jobs@ == capture_jobs(scene, sessions.take(i as int), *output),
                forall|j: int|
                    0 <= j < i ==> self.copy_capture_sessions@[j] == fitted_session(
                        #[trigger] sessions[j],
                        capture_on(scene, sessions[j], *output),
                    ),
                forall|j: int|
                    i <= j < sessions.len() ==> self.copy_capture_sessions@[j] == sessions[j],
            decreases sessions.len() - i,
        {
            let mut entry = self.copy_capture_sessions[i];
            if entry.pending_frame.is_some() {
                let planned = match source_target(self, &entry.session.handle.source) {
                    Some(CaptureSourceTarget::Output(o)) => {
                        if o.id == output.id {
                            self.render_output_capture_session(&mut entry, output)
                        } else {
                            None
                        }
                    },
                    Some(CaptureSourceTarget::Toplevel(surface)) => {
                        self.render_toplevel_capture_session(&mut entry, output, surface)
                    },
                    None => None,
                };
                if let Some((capture, fresh_tracker)) = planned {
                    jobs.push(CaptureJob { index: i, capture, fresh_tracker });
                }
            }
            self.copy_capture_sessions.set(i, entry);
            assert(sessions.take(i + 1).drop_last() == sessions.take(i as int));
            i += 1;
        }
        assert(sessions.take(i as int) == sessions);
        assert(self.copy_capture_sessions@ == fitted_sessions(scene, sessions, *output));
        jobs
    }

    /// How an output is captured for a session, and whether that takes a new damage tracker.
    fn render_output_capture_session(
        &self,
        entry: &mut CopyCaptureSession,
        output: &Output,
    ) -> (r: Option<(Capture, bool)>)
        ensures
            *final(entry) == fitted_session(*old(entry), output_capture(*old(entry), *output)),
            r == (match output_capture(*old(entry), *output) {
                Some(c) => Some(
                    (c, !old(entry).damage_tracker.made_for(c.size, c.scale, c.transform)),
                ),
                None => None,
            }),
    {
        let size = match output.current_mode {
            Some(size) => size,
            None => {
                return None;
            },
        };
        let fresh = ensure_damage_tracker(
            &mut entry.damage_tracker,
            size,
            output.scale,
            output.transform,
        );
        let content = CaptureContent::Output {
            target: RenderTarget::ScreenCapture,
            draw_cursor: entry.session.draw_cursor,
        };
        Some((Capture { content, size, scale: output.scale, transform: output.transform }, fresh))
    }

    /// How a window is captured for a session, and whether that takes a new damage tracker.
    fn render_toplevel_capture_session(
        &self,
        entry: &mut CopyCaptureSession,
        output: &Output,
        surface: u64,
    ) -> (r: Option<(Capture, bool)>)
        ensures
            *final(entry) == fitted_session(
                *old(entry),
                toplevel_capture(self.scene, *old(entry), *output, surface),
            ),
            r == (match toplevel_capture(self.scene, *old(entry), *output, surface) {
                Some(c) => Some(
                    (c, !old(entry).damage_tracker.made_for(c.size, c.scale, c.transform)),
                ),
                None => None,
            }),
    {
        let mapped = match self.scene.find_window(surface) {
            Some(mapped) => mapped,
            None => {
                return None;
            },
        };
        match mapped.output {
            Some(id) => {
                if id != output.id {
                    return None;
                }
            },
            None => {
                return None;
            },
        }
        let size = mapped.bbox.size;
        let fresh = ensure_damage_tracker(
            &mut entry.damage_tracker,
            size,
            output.scale,
            Transform::Normal,
        );
        let pointer_offset = match mapped.pointer_origin {
            Some(origin) => {
                if entry.session.draw_cursor {
                    Some(origin.negate())
                } else {
                    None
                }
            },
            None => None,
        };
        let content = CaptureContent::Toplevel { surface, pointer_offset };
        Some((Capture { content, size, scale: output.scale, transform: Transform::Normal }, fresh))
    }

    /// Whether the nominal cursor size is a coordinate where a cursor session with this source
    /// needs it.
    pub fn fits_tracked_cursor(&self, source: &ImageCaptureSource) -> (r: bool)
        ensures
            r == tracked_cursor_fits(self.scene, *source),
    {
        match source_target(self, source) {
            Some(CaptureSourceTarget::Output(output)) => {
                output.pointer.is_none() || output.current_mode.is_none()
                    || output.fits_nominal_cursor(self.scene.xcursor_size)
            },
            _ => true,
        }
    }

    /// Whether the nominal cursor size is a coordinate wherever cursor sessions need it.
    pub fn fits_cursor_sizes(&self) -> (r: bool)
        ensures
            r == cursor_sizes_fit(self.scene, self.copy_capture_cursor_sessions@),
    {
        let mut i: usize = 0;
        while i < self.copy_capture_cursor_sessions.len()
            invariant
                i <= self.copy_capture_cursor_sessions.len(),
                forall|j: int|
                    0 <= j < i ==> tracked_cursor_fits(
                        self.scene,
                        (#[trigger] self.copy_capture_cursor_sessions@[j]).session.handle.source,
                    ),
            decreases self.copy_capture_cursor_sessions.len() - i,
        {
            let entry = self.copy_capture_cursor_sessions[i];
            if !self.fits_tracked_cursor(&entry.session.handle.source) {
                assert(self.copy_capture_cursor_sessions@[i as int] == entry);
                return false;
            }
            i += 1;
        }
        true
    }

    /// Sends the cursor position, hotspot and size to cursor sessions.
    ///
    /// Runs on every refresh cycle, independently of redraws, since the position changes without
    /// causing cursor image damage.
    pub fn refresh_image_copy_cursor_sessions(&mut self) -> (actions: Vec<Action>)
        requires
            cursor_sizes_fit(old(self).scene, old(self).copy_capture_cursor_sessions@),
        ensures
            final(self).scene == old(self).scene,
            final(self).copy_capture_sessions == old(self).copy_capture_sessions,
            final(self).copy_capture_cursor_sessions@ == refreshed_cursor_sessions(
                old(self).scene,
                old(self).copy_capture_cursor_sessions@,
            ),
            actions_view(actions@) == cursor_refresh_actions(
                old(self).scene,
                old(self).copy_capture_cursor_sessions@,
            ),
            leads_to(
                old(self)@,
                Event::CursorRefresh,
                final(self)@,
                given_up(actions_view(actions@)),
            ),
    {
        let ghost scene = self.scene;
        let ghost sessions = self.copy_capture_cursor_sessions@;
        let mut actions: Vec<Action> = Vec::new();
        let mut i: usize = 0;
        assert(sessions.take(0).len() == 0);
        assert(actions_view(actions@) == Seq::<ActionView>::empty());
        while i < self.copy_capture_cursor_sessions.len()
            invariant
                i <= sessions.len(),
                self.copy_capture_cursor_sessions.len() == sessions.len(),
                self.scene == scene,
                cursor_sizes_fit(scene, sessions),
                self.copy_capture_sessions == old(self).copy_capture_sessions,
                actions_view(actions@) == cursor_refresh_actions(scene, sessions.take(i as int)),
                forall|j: int|
                    0 <= j < i ==> self.copy_capture_cursor_sessions@[j]
                        == refreshed_cursor_session(scene, #[trigger] sessions[j]),
                forall|j: int|
                    i <= j < sessions.len() ==> self.copy_capture_cursor_sessions@[j]
                        == sessions[j],
            decreases sessions.len() - i,
        {
            let mut entry = self.copy_capture_cursor_sessions[i];
            assert(entry == sessions[i as int]);
            self.refresh_cursor_session(&mut entry, &mut actions);
            self.copy_capture_cursor_sessions.set(i, entry);
            assert(sessions.take(i + 1).drop_last() == sessions.take(i as int));
            i += 1;
        }
        assert(sessions.take(i as int) == sessions);
        assert(self.copy_capture_cursor_sessions@ == refreshed_cursor_sessions(scene, sessions));
        actions
    }

    fn refresh_cursor_session(
        &self,
        entry: &mut CopyCaptureCursorSession,
        actions: &mut Vec<Action>,
    )
        requires
            tracked_cursor_fits(self.scene, old(entry).session.handle.source),
        ensures
            *final(entry) == refreshed_cursor_session(self.scene, *old(entry)),
            actions_view(final(actions)@) == actions_view(old(actions)@) + cursor_session_actions(
                self.scene,
                *old(entry),
            ),
    {
        broadcast use crate::session::lemma_actions_push;

        let session: u64 = entry.session.handle.id;
        let target = source_target(self, &entry.session.handle.source);
        let output = match target {
            Some(CaptureSourceTarget::Output(output)) => output,
            _ => {
                actions.push(Action::SetCursorPos { session, pos: None });
                return;
            },
        };
        let pos = match output.pointer {
            Some(pos) => pos,
            None => {
                actions.push(Action::SetCursorPos { session, pos: None });
                return;
            },
        };
        let mode = match output.current_mode {
            Some(mode) => mode,
            None => {
                actions.push(Action::SetCursorPos { session, pos: None });
                return;
            },
        };

        // Update the constraints if the cursor image size changed.
        let constraints = cursor_capture_constraints(self, &output);
        let cursor_size = constraints.size;
        let size_changed = match entry.session.current_size {
            Some(size) => size != cursor_size,
            None => true,
        };
        if size_changed {
            // The pending frame's buffer no longer matches; fail it before sending the new
            // constraints so the client doesn't miss the new `done`.
            if let Some(frame) = entry.pending_frame {
                entry.pending_frame = None;
                actions.push(
                    Action::FailFrame { frame, reason: CaptureFailureReason::BufferConstraints },
                );
            }
            entry.session.current_size = Some(cursor_size);
            actions.push(Action::UpdateCursorConstraints { session, constraints });
        }
        let hotspot = cursor_capture_hotspot(&output);
        actions.push(Action::SetCursorHotspot { session, hotspot });

        // The position is in transformed buffer coordinates, i.e. the displayed orientation, so
        // the output transform is not undone here.
        //
        // The cursor counts as entered while any part of its image intersects the output, not just
        // the hotspot, so the position may be negative or past the edge. A hidden cursor has no
        // image, so it counts as left.
        let image = Rectangle { loc: pos.sub_point(hotspot), size: cursor_size };
        let output_rect = Rectangle::from_size(output.transform.transform_size(mode));
        let pos = if self.scene.pointer_visible && output.cursor.is_some() && image.overlaps(
            &output_rect,
        ) {
            Some(pos)
        } else {
            None
        };
        actions.push(Action::SetCursorPos { session, pos });
    }

    /// Decides what to render for queued cursor capture frames when an output is redrawn, and
    /// makes the damage trackers fit.
    ///
    /// The constraints are kept up to date with the cursor image size by the refresh of cursor
    /// sessions, which also fails pending frames on change. A frame of a session that was never
    /// sent constraints fails here.
    pub fn render_for_image_copy_cursor_capture(&mut self, output: &Output) -> (plan:
        CursorCapturePlan)
        ensures
            final(self).scene == old(self).scene,
            final(self).copy_capture_sessions == old(self).copy_capture_sessions,
            plan.steps@ == cursor_steps(
                old(self).scene,
                old(self).copy_capture_cursor_sessions@,
                *output,
            ),
            // The cursor render is the same for all sessions on the output.
            plan.render_image == image_needed(plan.steps@),
            final(self).copy_capture_cursor_sessions@ == stepped_cursor_sessions(
                old(self).scene,
                old(self).copy_capture_cursor_sessions@,
                *output,
            ),
            leads_to(
                old(self)@,
                Event::CursorRedraw { output: *output },
                final(self)@,
                failed_by(plan.steps@),
            ),
    {
        let ghost scene = self.scene;
        let ghost sessions = self.copy_capture_cursor_sessions@;
        let mut steps: Vec<CursorCaptureStep> = Vec::new();
        let mut render_image = false;
        let mut i: usize = 0;
        assert(sessions.take(0).len() == 0);
        while i < self.copy_capture_cursor_sessions.len()
            invariant
                i <= sessions.len(),
                self.copy_capture_cursor_sessions.len() == sessions.len(),
                self.scene == scene,
                self.copy_capture_sessions == old(self).copy_capture_sessions,
                steps@ == cursor_steps(scene, sessions.take(i as int), *output),
                render_image == image_needed(steps@),
                forall|j: int|
                    0 <= j < i ==> self.copy_capture_cursor_sessions@[j] == stepped_cursor_session(
                        scene,
                        #[trigger] sessions[j],
                        *output,
                    ),
                forall|j: int|
                    i <= j < sessions.len() ==> self.copy_capture_cursor_sessions@[j]
                        == sessions[j],
            decreases sessions.len() - i,
        {
            let mut entry = self.copy_capture_cursor_sessions[i];
            if let Some(step) = self.step_cursor_session(&mut entry, i, output) {
                let ghost before = steps@;
                if let CursorCaptureStep::Capture { .. } = step {
                    render_image = true;
                }
                steps.push(step);
                proof {
                    lemma_image_needed_push(before, step);
                }
            }
            self.copy_capture_cursor_sessions.set(i, entry);
            assert(sessions.take(i + 1).drop_last() == sessions.take(i as int));
            i += 1;
        }
        assert(sessions.take(i as int) == sessions);
        assert(self.copy_capture_cursor_sessions@ == stepped_cursor_sessions(
            scene,
            sessions,
            *output,
        ));
        CursorCapturePlan { render_image, steps }
    }

    fn step_cursor_session(
        &self,
        entry: &mut CopyCaptureCursorSession,
        index: usize,
        output: &Output,
    ) -> (r: Option<CursorCaptureStep>)
        ensures
            *final(entry) == stepped_cursor_session(self.scene, *old(entry), *output),
            r == cursor_step(self.scene, *old(entry), index, *output),
    {
        let frame = match entry.pending_frame {
            Some(frame) => frame,
            None => {
                return None;
            },
        };
        match source_target(self, &entry.session.handle.source) {
            Some(CaptureSourceTarget::Output(o)) => {
                if o.id != output.id {
                    return None;
                }
            },
            _ => {
                return None;
            },
        }
        let size = match entry.session.current_size {
            Some(size) => size,
            None => {
                entry.pending_frame = None;
                let reason = CaptureFailureReason::BufferConstraints;
                return Some(CursorCaptureStep::Fail { frame, reason });
            },
        };
        let fresh_tracker = ensure_damage_tracker(
            &mut entry.damage_tracker,
            size,
            output.scale,
            Transform::Normal,
        );
        Some(CursorCaptureStep::Capture { index, size, scale: output.scale, fresh_tracker })
    }
}

} // verus!
