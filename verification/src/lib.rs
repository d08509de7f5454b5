//! Verified control core of a small desktop application shell.
//!
//! The shell opens a window, drives an immediate-mode UI through a GPU
//! surface, and persists window geometry, UI memory and a style document
//! across runs.  Everything the shell *decides* lives here, verified:
//! surface reconfiguration on resize, the event-loop step function, the
//! strict ordering of render steps, the on-disk config document codec,
//! the style fallback rules, and the unpacking of the embedded icon
//! asset.  The unverified binary around this crate only performs I/O and
//! GPU calls and feeds the outcomes back in as plain values.

pub mod config;
pub mod decimal;
pub mod driver;
pub mod frame;
pub mod icon;
pub mod style;

use vstd::prelude::*;

verus! {

/// Default window width used when no saved configuration exists.
pub const INITIAL_WIDTH: u32 = 1920;

/// Default window height used when no saved configuration exists.
pub const INITIAL_HEIGHT: u32 = 1080;

} // verus!
