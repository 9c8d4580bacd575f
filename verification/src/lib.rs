//! Core of a tiling Wayland compositor: the workspace/window layout engine
//! and the output/device lifecycle with its frame-scheduling rules.
//!
//! Windows are rows in an arena owned by their workspace: a row holds the
//! client-surface id, the window's rectangle in the workspace's screen space,
//! and its placement mode.  The hardware side (DRM devices, connectors,
//! vertical blanks) is modelled by explicit state with plain identifiers; the
//! process that owns the real handles drives these functions from its event
//! loop and performs the actions they decide.

use vstd::prelude::*;

pub mod action;
pub mod config;
pub mod geometry;
pub mod grab;
pub mod layout;
pub mod render;
pub mod scheduler;
pub mod udev;
pub mod workspaces;

verus! {

/// A backend supplies the seat that input devices are assigned to.
pub trait Backend {
    fn seat_name(&self) -> String;
}

} // verus!
