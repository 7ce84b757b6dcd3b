# image_copy_capture

The rules by which a Wayland compositor serves screen captures over the
ext-image-copy-capture-v1 protocol, verified with Verus.

- `src/` holds the rules: which buffers a capture source accepts, which frames wait, fail or are
  rendered, when sessions stop, and where a captured cursor is. Every function states in its
  contract what it returns and what it changes. `src/laws.rs` proves what holds across calls, and
  `src/history.rs` that every frame is answered once over any history of events.
- `app/` runs the rules inside a Smithay compositor. It reads the scene, which takes floating
  point, talks to the clients and renders.
- `tests/` runs the library on concrete values.

Capturing a frame takes three steps. The library plans a redraw
(`Niri::render_for_image_copy_capture`), the application renders the layers of each planned session
and hands their damage to `deliver_frame`, and `complete_frame` takes what was rendered and says how
the frame is answered.
