//! The rain as mathematics: what a waterfall is, and what one tick makes of it.
//!
//! A generator is the head of one falling stream, written `(column, row)`. An
//! arrival is a generator together with the fresh rune that is written under it.

use vstd::prelude::*;
use crate::characters::SYMBOLS;
use crate::grid::{columns, rectangular, with_cell};
use crate::rune::{
    aged, fresh_lifetime, recolored, Rune, RUNE_COLOR_BASE, RUNE_GENERATOR_COLOR,
};

verus! {

/// The state of a waterfall: its rows of cells, top row first, and its
/// generators in the order in which they were created.
pub struct WaterfallView {
    pub cells: Seq<Seq<Rune>>,
    pub generators: Seq<(usize, usize)>,
}

/// Whether one of `generators` stands at column `x`, row `y`.
pub open spec fn head_at(generators: Seq<(usize, usize)>, x: int, y: int) -> bool {
    exists|i: int|
        0 <= i < generators.len() && (#[trigger] generators[i]).0 == x && generators[i].1 == y
}

/// Whether every one of `generators` stands on a cell of `cells`.
pub open spec fn in_bounds(generators: Seq<(usize, usize)>, cells: Seq<Seq<Rune>>) -> bool {
    forall|i: int|
        0 <= i < generators.len() ==> (#[trigger] generators[i]).1 < cells.len()
            && generators[i].0 < columns(cells)
}

impl WaterfallView {
    /// Number of rows.
    pub open spec fn height(self) -> nat {
        self.cells.len()
    }

    /// Number of columns.
    pub open spec fn width(self) -> nat {
        columns(self.cells)
    }

    /// What holds of every waterfall: its cells form a rectangle whose sides a
    /// terminal can report, and its generators stand on cells.
    pub open spec fn wf(self) -> bool {
        &&& rectangular(self.cells)
        &&& self.height() <= u16::MAX
        &&& self.width() <= u16::MAX
        &&& in_bounds(self.generators, self.cells)
    }
}

/// `cells` with the colour of every cell under a generator replaced by `color`.
pub open spec fn tinted(
    cells: Seq<Seq<Rune>>,
    generators: Seq<(usize, usize)>,
    color: (u8, u8, u8),
) -> Seq<Seq<Rune>> {
    Seq::new(
        cells.len(),
        |y: int|
            Seq::new(
                cells[y].len(),
                |x: int|
                    if head_at(generators, x, y) {
                        recolored(cells[y][x], color)
                    } else {
                        cells[y][x]
                    },
            ),
    )
}

/// Whether a generator still has a row below it in a grid of `height` rows.
pub open spec fn survives(generator: (usize, usize), height: nat) -> bool {
    generator.1 + 1 < height
}

/// The generators that have not reached the last of `height` rows, in their order.
pub open spec fn survivors(generators: Seq<(usize, usize)>, height: nat) -> Seq<(usize, usize)> {
    generators.filter(|g: (usize, usize)| survives(g, height))
}

/// Each generator one row further down, with the rune that it leaves there.
pub open spec fn advance_arrivals(
    generators: Seq<(usize, usize)>,
    runes: Seq<Rune>,
) -> Seq<((usize, usize), Rune)> {
    Seq::new(
        generators.len(),
        |i: int| ((generators[i].0, (generators[i].1 + 1) as usize), runes[i]),
    )
}

/// A new generator in the top row of each column for which `spawned` holds a
/// rune, with that rune, by ascending column.
pub open spec fn spawn_arrivals(spawned: Seq<Option<Rune>>) -> Seq<((usize, usize), Rune)>
    decreases spawned.len(),
{
    if spawned.len() == 0 {
        Seq::empty()
    } else {
        let before = spawn_arrivals(spawned.drop_last());
        match spawned.last() {
            Some(rune) => before.push((((spawned.len() - 1) as usize, 0usize), rune)),
            None => before,
        }
    }
}

/// The generators of `arriving`.
pub open spec fn heads(arriving: Seq<((usize, usize), Rune)>) -> Seq<(usize, usize)> {
    arriving.map_values(|a: ((usize, usize), Rune)| a.0)
}

/// `cells` after the rune of each of `arriving` has been written under its
/// generator, one arrival after the other.
pub open spec fn written(
    cells: Seq<Seq<Rune>>,
    arriving: Seq<((usize, usize), Rune)>,
) -> Seq<Seq<Rune>>
    decreases arriving.len(),
{
    if arriving.len() == 0 {
        cells
    } else {
        let last = arriving.last();
        with_cell(written(cells, arriving.drop_last()), last.0.0 as int, last.0.1 as int, last.1)
    }
}

/// The rune that `arriving` leave at column `x`, row `y`: that of the last of
/// them that stands there, if one does.
pub open spec fn last_arrival(
    arriving: Seq<((usize, usize), Rune)>,
    x: int,
    y: int,
) -> Option<Rune>
    decreases arriving.len(),
{
    if arriving.len() == 0 {
        None
    } else if arriving.last().0.0 == x && arriving.last().0.1 == y {
        Some(arriving.last().1)
    } else {
        last_arrival(arriving.drop_last(), x, y)
    }
}

/// `cells` with every rune aged by one tick.
pub open spec fn aged_cells(cells: Seq<Seq<Rune>>) -> Seq<Seq<Rune>> {
    Seq::new(cells.len(), |y: int| Seq::new(cells[y].len(), |x: int| aged(cells[y][x])))
}

/// Whether `rune` is one that a generator can leave: a glyph of the
/// catalogue in the trail colour, with the lifetime of a new rune.
pub open spec fn fresh_rune(rune: Rune) -> bool {
    &&& SYMBOLS@.contains(rune.character)
    &&& rune.color == RUNE_COLOR_BASE
    &&& fresh_lifetime(rune.lifetime)
}

/// Whether all the runes handed to a tick are ones that a generator can leave.
pub open spec fn fresh_runes(advanced: Seq<Rune>, spawned: Seq<Option<Rune>>) -> bool {
    &&& forall|i: int| 0 <= i < advanced.len() ==> fresh_rune(#[trigger] advanced[i])
    &&& forall|x: int|
        0 <= x < spawned.len() ==> ((#[trigger] spawned[x]) matches Some(rune) ==> fresh_rune(rune))
}

/// Whether a tick can be made with these runes: one in `advanced` for each
/// generator that survives, and one place in `spawned` for each column.
pub open spec fn accepts(
    state: WaterfallView,
    advanced: Seq<Rune>,
    spawned: Seq<Option<Rune>>,
) -> bool {
    &&& advanced.len() == survivors(state.generators, state.height()).len()
    &&& spawned.len() == state.width()
}

/// The arrivals of a tick: the surviving generators move down one row, each
/// leaving its rune of `advanced`; then the columns that `spawned` names get a
/// new generator in the top row.
pub open spec fn arrivals(
    state: WaterfallView,
    advanced: Seq<Rune>,
    spawned: Seq<Option<Rune>>,
) -> Seq<((usize, usize), Rune)> {
    advance_arrivals(survivors(state.generators, state.height()), advanced) + spawn_arrivals(
        spawned,
    )
}

/// What a tick makes of the cell at column `x`, row `y`. A cell that a
/// generator arrives at holds that generator's rune, aged and in the head
/// colour. Any other cell holds its old rune, aged, and back in the trail
/// colour where a generator stood on it.
pub open spec fn tick_cell(
    state: WaterfallView,
    advanced: Seq<Rune>,
    spawned: Seq<Option<Rune>>,
    x: int,
    y: int,
) -> Rune {
    match last_arrival(arrivals(state, advanced, spawned), x, y) {
        Some(rune) => recolored(aged(rune), RUNE_GENERATOR_COLOR),
        None => aged(
            if head_at(state.generators, x, y) {
                recolored(state.cells[y][x], RUNE_COLOR_BASE)
            } else {
                state.cells[y][x]
            },
        ),
    }
}

/// One tick.
///
/// The cells that the old generators stand on go back to the trail colour;
/// the generators at the last row are dropped; the rest move down and new
/// ones appear, each writing its fresh rune; every cell ages; and the cells
/// under the generators take the head colour.
pub open spec fn tick(
    state: WaterfallView,
    advanced: Seq<Rune>,
    spawned: Seq<Option<Rune>>,
) -> WaterfallView {
    let arriving = arrivals(state, advanced, spawned);
    let dimmed = tinted(state.cells, state.generators, RUNE_COLOR_BASE);
    let refreshed = written(dimmed, arriving);
    let older = aged_cells(refreshed);
    WaterfallView {
        cells: tinted(older, heads(arriving), RUNE_GENERATOR_COLOR),
        generators: heads(arriving),
    }
}

/// The state after one tick for each pair of `draws`, the first pair first.
pub open spec fn run(
    state: WaterfallView,
    draws: Seq<(Seq<Rune>, Seq<Option<Rune>>)>,
) -> WaterfallView
    decreases draws.len(),
{
    if draws.len() == 0 {
        state
    } else {
        tick(run(state, draws.drop_last()), draws.last().0, draws.last().1)
    }
}

/// Whether each pair of `draws` fits the state that the pairs before it lead to.
pub open spec fn run_accepts(
    state: WaterfallView,
    draws: Seq<(Seq<Rune>, Seq<Option<Rune>>)>,
) -> bool
    decreases draws.len(),
{
    draws.len() > 0 ==> run_accepts(state, draws.drop_last()) && accepts(
        run(state, draws.drop_last()),
        draws.last().0,
        draws.last().1,
    )
}

} // verus!
