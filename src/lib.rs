//! The policy core of a small display server: which surfaces are windows,
//! where they are placed on their workspaces, which client holds focus and
//! the selection, and how an interactive move grab takes over the pointer.
//! The display protocol, rendering and input devices stay outside; they hand
//! this library plain identifiers and locations and carry out its decisions.

pub mod buttons;
pub mod client_data;
pub mod geometry;
pub mod move_grab;
pub mod seat;
pub mod state;
pub mod window;

