//! An interactive single-selection list picker for POSIX terminals.
//!
//! The engine keeps an ordered list of textual options, moves a highlighted
//! cursor through them on key events, and reports the confirmed choice (or a
//! cancellation).  Everything that decides or computes — navigation, the
//! rendered frame, the wrapped-row geometry used for in-place redraws, and
//! the command-line argument handling — lives here and is verified; the
//! binary around it only moves bytes to and from the terminal.

pub mod ansi;
pub mod args;
pub mod chooser;
pub mod text;

use vstd::prelude::*;

verus! {

pub use chooser::Chooser;
pub use chooser::Key;
pub use chooser::Step;
pub use args::Args;
pub use text::str_height;
pub use text::str_height_checked;

} // verus!
