//! Lifecycle and GPU-program bookkeeping for auxiliary "layer" surfaces of a
//! compositing display server.
//!
//! The crate tracks layer surfaces (panels, launchers, wallpapers) from
//! creation through mapping, content commits, unmapping and destruction, and
//! keeps the state needed to drive open/close transition animations: per-kind
//! timing selection, content snapshots captured before the content disappears,
//! and a registry of compiled GPU program handles with safe runtime
//! replacement.
//!
//! The windowing model, the wire protocol and the GPU driver are external
//! collaborators: they are represented here by plain values handed in with
//! each event, and by handle identities managed in [`programs::ProgramStore`].

use vstd::prelude::*;

pub mod anim;
pub mod closing;
pub mod config;
pub mod geometry;
pub mod mapped;
pub mod programs;
pub mod render;
pub mod rules;
pub mod shaders;
pub mod shell;
pub mod surface;

verus! {

/// Milliseconds on the shared monotonic clock that drives every animation.
pub type MonotonicMillis = u64;

} // verus!
