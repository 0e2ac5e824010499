//! Digital rain for a character terminal: columns of glyphs that start at the
//! top, fall one row a tick, and fade to black behind their heads.
//!
//! The library holds the state of the rain and its rules, and proves them:
//!
//! - [`rune`]: one cell, how it ages and in which colour it is shown;
//! - [`characters`]: the catalogue of glyphs and the making of fresh runes;
//! - [`grid`]: the rectangle of cells;
//! - [`model`]: the rain as mathematics, and what one tick makes of it;
//! - [`waterfall`]: the rain itself, which makes ticks and renders frames;
//! - [`frame`]: what a rendered frame holds;
//! - [`laws`]: what holds of every tick.
//!
//! Nothing here touches a terminal: a frame is a list of glyphs to paint.

pub mod characters;
pub mod frame;
pub mod grid;
pub mod laws;
pub mod model;
mod random;
pub mod rune;
pub mod waterfall;

pub use crate::characters::Characters;
pub use crate::frame::Paint;
pub use crate::grid::Grid;
pub use crate::rune::Rune;
pub use crate::waterfall::{StepError, Waterfall};
