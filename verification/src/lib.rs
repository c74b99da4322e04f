//! A minimal terminal-based text viewer library.
//!
//! The crate models the view state machine of a full-screen text viewer:
//! a buffer of lines, a cached terminal size with a dirty flag, a caret
//! clamped to the visible rectangle, and a queued-command terminal facade.
//! Everything the viewer decides or draws is computed here as plain data;
//! a thin binary performs the resulting terminal commands and feeds events
//! back in.

pub mod editor;

use vstd::prelude::*;

verus! {

/// The program's name, shown in the welcome banner.
pub const NAME: &'static str = "tview";

/// The program's version, shown in the welcome banner.
pub const VERSION: &'static str = "0.1.0";

} // verus!
