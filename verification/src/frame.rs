//! What a waterfall shows: one painted glyph for each cell.

use vstd::prelude::*;
use crate::grid::columns;
use crate::rune::{display_color, Rune};

verus! {

/// One glyph to paint: where on the terminal, which glyph, and in which colour.
#[derive(Clone, Copy, Debug, PartialEq, Eq)]
pub struct Paint {
    pub column: u16,
    pub row: u16,
    pub character: char,
    pub color: (u8, u8, u8),
}

/// The paint of `rune` at column `x`, row `y`.
pub open spec fn painted(x: int, y: int, rune: Rune) -> Paint {
    Paint { column: x as u16, row: y as u16, character: rune.character, color: display_color(rune) }
}

/// The frame of `cells`: the paint of every cell, row after row from the top,
/// each row from the left.
pub open spec fn frame_of(cells: Seq<Seq<Rune>>) -> Seq<Paint> {
    let width = columns(cells) as int;
    Seq::new(
        cells.len() * columns(cells),
        |i: int| painted(i % width, i / width, cells[i / width][i % width]),
    )
}

} // verus!
