//! Frame delivery rules for the ext-image-copy-capture-v1 protocol.
//!
//! Clients open capture sessions on outputs and windows, or on the cursor of an output, and ask
//! them for frames one at a time. This crate keeps the sessions and decides what each event does
//! to them:
//!
//! - [`state`] handles the requests of clients and keeps the buffer constraints of the sessions up
//!   to date with their sources;
//! - [`niri`] plans what a redraw of an output captures, and tells cursor sessions where the cursor
//!   is;
//! - [`delivery`] takes one frame from the damage of its source to the answer for its client.
//!
//! The compositor is read through plain values ([`scene`]), and what is to be done outside comes
//! back as a list of actions ([`session`]). What each operation does to its inputs is told in
//! [`operations`]. What holds across calls is proved in [`laws`]; that every frame is answered once,
//! over any history of events, in [`history`].
pub mod cursor;
pub mod delivery;
pub mod formats;
pub mod geometry;
pub mod history;
pub mod laws;
pub mod niri;
pub mod operations;
pub mod scene;
pub mod session;
pub mod state;
