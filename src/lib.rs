//! A terminal rendering engine: a grid of styled cells, frame diffs, the
//! minimal attribute changes between cells, bordered windows and the
//! decisions of a double-buffered redraw loop.

use vstd::prelude::*;

pub mod text;
pub mod buffer;
pub mod terminal;
pub mod unicode;
pub mod window;
pub mod window_manager;

