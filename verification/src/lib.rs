//! Core logic of a mid-level rendering engine: render targets (on-screen and
//! off-screen framebuffers with color/depth attachments, partial clears,
//! writes and pixel read-backs) and a terrain level-of-detail geometry system
//! (a paged grid of ground patches with distance-selected index buffers).
//!
//! The graphics device itself is an external collaborator: every operation on
//! it is described by plain data (command sequences and read-back requests)
//! that an embedder executes against its own graphics context.

pub mod clear_state;
pub mod color_target;
pub mod context;
pub mod depth_target;
pub mod error;
pub mod pixels;
pub mod render_target;
pub mod scissor_box;
pub mod terrain;
