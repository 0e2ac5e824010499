//! The simulation: a grid, the heads of the falling streams, and the tick.

use vstd::prelude::*;
use crate::characters::{Characters, SYMBOLS};
use crate::frame::{frame_of, Paint};
use crate::grid::{columns, rectangular, same_shape, uniform, Grid};
use crate::laws::{
    lemma_frame_cell, lemma_head_at_take, lemma_survivors, lemma_tick_keeps_dimensions,
    lemma_written_add,
};
use crate::model::{
    accepts, advance_arrivals, aged_cells, fresh_rune, fresh_runes, head_at, heads, in_bounds,
    spawn_arrivals, survivors, tick, tinted, written, WaterfallView,
};
use crate::random::random_in_range;
use crate::rune::{
    aged, fresh_lifetime, recolored, Rune, BLANK, RUNE_COLOR_BASE, RUNE_GENERATOR_COLOR,
};

verus! {

/// The chance that a generator starts in a column in one tick: the first
/// number out of the second.
pub const GENERATOR_IN_COLUMN: (u16, u16) = (1, 90);

/// Whether a column whose draw from `0` up to, not including, the second
/// number of [`GENERATOR_IN_COLUMN`] is `roll` gets a new generator.
pub fn spawns(roll: u16) -> (hit: bool)
    ensures
        hit == (roll < GENERATOR_IN_COLUMN.0),
{
    roll < GENERATOR_IN_COLUMN.0
}

/// Why a tick was not made.
#[derive(Clone, Copy, Debug, PartialEq, Eq)]
pub enum StepError {
    /// The runes for the generators that move down are not as many as those generators.
    Advanced,
    /// The places for new generators are not as many as the columns.
    Spawned,
}

/// The rain: a grid of runes and the generators that fall through it.
pub struct Waterfall {
    grid: Grid,
    generators: Vec<(usize, usize)>,
    characters: Characters,
}

impl View for Waterfall {
    type V = WaterfallView;

    closed spec fn view(&self) -> WaterfallView {
        WaterfallView { cells: self.grid@, generators: self.generators@ }
    }
}

impl Waterfall {
    #[verifier::type_invariant]
    spec fn well_formed(&self) -> bool {
        &&& in_bounds(self.generators@, self.grid@)
        &&& self.characters@ == SYMBOLS@
    }

    /// A waterfall of `width` columns and `height` rows with no generator
    /// yet. Its cells are blank, in the trail colour, and share one lifetime,
    /// which is drawn at random as that of a fresh rune is.
    pub fn new(width: u16, height: u16) -> (waterfall: Waterfall)
        ensures
            exists|lifetime: u8|
                fresh_lifetime(lifetime) && waterfall@.cells == #[trigger] uniform(
                    width as nat,
                    height as nat,
                    Rune { character: BLANK, lifetime, color: RUNE_COLOR_BASE },
                ),
            waterfall@.generators == Seq::<(usize, usize)>::empty(),
            waterfall@.wf(),
    {
        let characters = Characters::new();
        let grid = Grid::new(&characters, width, height);
        proof {
            use_type_invariant(&grid);
            grid.lemma_rectangle();
        }
        Waterfall { grid, generators: Vec::new(), characters }
    }

    /// A waterfall over `grid` with no generator yet.
    pub fn with_grid(grid: Grid) -> (waterfall: Waterfall)
        ensures
            waterfall@.cells == grid@,
            waterfall@.generators == Seq::<(usize, usize)>::empty(),
            waterfall@.wf(),
    {
        proof {
            use_type_invariant(&grid);
            grid.lemma_rectangle();
        }
        Waterfall { grid, generators: Vec::new(), characters: Characters::new() }
    }

    /// Number of columns.
    pub fn width(&self) -> (width: usize)
        ensures
            width == self@.width(),
            self@.wf(),
    {
        proof {
            use_type_invariant(self);
            use_type_invariant(&self.grid);
            self.grid.lemma_rectangle();
        }
        self.grid.width()
    }

    /// Number of rows.
    pub fn height(&self) -> (height: usize)
        ensures
            height == self@.height(),
            self@.wf(),
    {
        proof {
            use_type_invariant(self);
            use_type_invariant(&self.grid);
            self.grid.lemma_rectangle();
        }
        self.grid.height()
    }

    /// The cells.
    pub fn grid(&self) -> (grid: &Grid)
        ensures
            grid@ == self@.cells,
    {
        &self.grid
    }

    /// The generators, in the order in which they were created.
    pub fn generators(&self) -> (generators: &Vec<(usize, usize)>)
        ensures
            generators@ == self@.generators,
    {
        &self.generators
    }

    /// Number of generators that the next tick moves down: those that have
    /// not reached the last row.
    pub fn surviving(&self) -> (count: usize)
        ensures
            count == survivors(self@.generators, self@.height()).len(),
    {
        prune(&self.generators, self.grid.height()).len()
    }

    /// Makes one tick, with the glyphs and lifetimes of the fresh runes, and
    /// the columns in which a generator starts, drawn at random.
    pub fn step(&mut self)
        ensures
            exists|advanced: Seq<Rune>, spawned: Seq<Option<Rune>>|
                accepts(old(self)@, advanced, spawned) && fresh_runes(advanced, spawned)
                    && final(self)@ == #[trigger] tick(old(self)@, advanced, spawned),
            final(self)@.wf(),
            final(self)@.width() == old(self)@.width(),
            final(self)@.height() == old(self)@.height(),
    {
        proof {
            use_type_invariant(&*self);
        }
        let width = self.grid.width();
        let kept = prune(&self.generators, self.grid.height());
        let mut advanced: Vec<Rune> = Vec::new();
        let mut i: usize = 0;
        while i < kept.len()
            invariant
                i <= kept.len(),
                advanced.len() == i,
                self.characters@ == SYMBOLS@,
                forall|j: int| 0 <= j < i ==> fresh_rune(#[trigger] advanced@[j]),
            decreases kept.len() - i,
        {
            advanced.push(self.characters.create_random_rune(RUNE_COLOR_BASE));
            i = i + 1;
        }
        let mut spawned: Vec<Option<Rune>> = Vec::new();
        let mut x: usize = 0;
        while x < width
            invariant
                x <= width,
                spawned.len() == x,
                self.characters@ == SYMBOLS@,
                forall|j: int|
                    0 <= j < x ==> ((#[trigger] spawned@[j]) matches Some(rune) ==> fresh_rune(
                        rune,
                    )),
            decreases width - x,
        {
            let roll = random_in_range(0, GENERATOR_IN_COLUMN.1 as u64) as u16;
            if spawns(roll) {
                spawned.push(Some(self.characters.create_random_rune(RUNE_COLOR_BASE)));
            } else {
                spawned.push(None);
            }
            x = x + 1;
        }
        self.make_tick(kept, &advanced, &spawned);
    }

    /// Makes one tick with the given fresh runes: `advanced` holds one for
    /// each generator that moves down, in their order, and `spawned` holds,
    /// for each column, the rune of the generator that starts there, if one
    /// does. Where their lengths do not fit, nothing changes.
    pub fn step_with(&mut self, advanced: &Vec<Rune>, spawned: &Vec<Option<Rune>>) -> (result:
        Result<(), StepError>)
        ensures
            match result {
                Ok(()) => accepts(old(self)@, advanced@, spawned@) && final(self)@ == tick(
                    old(self)@,
                    advanced@,
                    spawned@,
                ),
                Err(StepError::Advanced) => advanced.len() != survivors(
                    old(self)@.generators,
                    old(self)@.height(),
                ).len() && final(self)@ == old(self)@,
                Err(StepError::Spawned) => advanced.len() == survivors(
                    old(self)@.generators,
                    old(self)@.height(),
                ).len() && spawned.len() != old(self)@.width() && final(self)@ == old(self)@,
            },
            final(self)@.wf(),
            final(self)@.width() == old(self)@.width(),
            final(self)@.height() == old(self)@.height(),
    {
        proof {
            use_type_invariant(&*self);
            use_type_invariant(&self.grid);
            self.grid.lemma_rectangle();
        }
        let kept = prune(&self.generators, self.grid.height());
        if advanced.len() != kept.len() {
            return Err(StepError::Advanced);
        }
        if spawned.len() != self.grid.width() {
            return Err(StepError::Spawned);
        }
        self.make_tick(kept, advanced, spawned);
        Ok(())
    }

    /// The frame to paint: every cell in its display colour, row after row
    /// from the top, each row from the left.
    pub fn render(&self) -> (frame: Vec<Paint>)
        ensures
            frame@ == frame_of(self@.cells),
    {
        let width = self.grid.width();
        let height = self.grid.height();
        let ghost cells = self.grid@;
        proof {
            use_type_invariant(&self.grid);
            self.grid.lemma_rectangle();
        }
        let mut frame: Vec<Paint> = Vec::new();
        let mut y: usize = 0;
        while y < height
            invariant
                y <= height,
                height == cells.len(),
                width == columns(cells),
                width <= u16::MAX,
                height <= u16::MAX,
                cells == self.grid@,
                rectangular(cells),
                frame@.len() == y * width,
                forall|i: int| 0 <= i < frame@.len() ==> #[trigger] frame@[i] == frame_of(cells)[i],
            decreases height - y,
        {
            let mut x: usize = 0;
            while x < width
                invariant
                    x <= width,
                    y < height,
                    height == cells.len(),
                    width == columns(cells),
                    width <= u16::MAX,
                    height <= u16::MAX,
                    cells == self.grid@,
                    rectangular(cells),
                    frame@.len() == y * width + x,
                    forall|i: int|
                        0 <= i < frame@.len() ==> #[trigger] frame@[i] == frame_of(cells)[i],
                decreases width - x,
            {
                let rune = self.grid.rune(x, y);
                proof {
                    lemma_frame_cell(cells, x as int, y as int);
                }
                frame.push(
                    Paint {
                        column: x as u16,
                        row: y as u16,
                        character: rune.character,
                        color: rune.display_color(),
                    },
                );
                x = x + 1;
            }
            proof {
                assert((y + 1) * width == y * width + width) by (nonlinear_arith);
            }
            y = y + 1;
        }
        frame
    }

    /// Makes one tick, given the generators that survive it.
    fn make_tick(
        &mut self,
        kept: Vec<(usize, usize)>,
        advanced: &Vec<Rune>,
        spawned: &Vec<Option<Rune>>,
    )
        requires
            kept@ == survivors(old(self)@.generators, old(self)@.height()),
            accepts(old(self)@, advanced@, spawned@),
        ensures
            final(self)@ == tick(old(self)@, advanced@, spawned@),
            final(self)@.wf(),
            final(self)@.width() == old(self)@.width(),
            final(self)@.height() == old(self)@.height(),
    {
        let ghost before = self@;
        let ghost moving = advance_arrivals(kept@, advanced@);
        let ghost starting = spawn_arrivals(spawned@);
        proof {
            use_type_invariant(&*self);
            use_type_invariant(&self.grid);
            self.grid.lemma_rectangle();
            lemma_survivors(before.generators, before.height());
            lemma_tick_keeps_dimensions(before, advanced@, spawned@);
        }
        let mut generators: Vec<(usize, usize)> = Vec::new();
        std::mem::swap(&mut generators, &mut self.generators);
        let mut grid = Grid::empty();
        std::mem::swap(&mut grid, &mut self.grid);
        tint(&mut grid, &generators, RUNE_COLOR_BASE);
        let ghost dimmed = grid@;
        generators = kept;
        advance(&mut grid, &mut generators, advanced);
        spawn(&mut grid, &mut generators, spawned);
        proof {
            lemma_written_add(dimmed, moving, starting);
            assert(heads(moving) + heads(starting) =~= heads(moving + starting));
        }
        age_all(&mut grid);
        tint(&mut grid, &generators, RUNE_GENERATOR_COLOR);
        self.grid = grid;
        self.generators = generators;
    }
}

/// Gives the cell under each generator the colour `color`.
fn tint(grid: &mut Grid, generators: &Vec<(usize, usize)>, color: (u8, u8, u8))
    requires
        in_bounds(generators@, old(grid)@),
    ensures
        final(grid)@ == tinted(old(grid)@, generators@, color),
{
    let ghost before = grid@;
    proof {
        use_type_invariant(&*grid);
        grid.lemma_rectangle();
    }
    let mut i: usize = 0;
    while i < generators.len()
        invariant
            i <= generators.len(),
            rectangular(before),
            in_bounds(generators@, before),
            same_shape(grid@, before),
            forall|x: int, y: int|
                0 <= y < before.len() && 0 <= x < before[y].len() ==> #[trigger] grid@[y][x] == (
                if head_at(generators@.take(i as int), x, y) {
                    recolored(before[y][x], color)
                } else {
                    before[y][x]
                }),
        decreases generators.len() - i,
    {
        let generator = generators[i];
        let cell = grid.get_rune(generator.0, generator.1);
        cell.color = color;
        proof {
            assert forall|x: int, y: int|
                0 <= y < before.len() && 0 <= x < before[y].len() implies #[trigger] grid@[y][x]
                == (if head_at(generators@.take(i + 1), x, y) {
                recolored(before[y][x], color)
            } else {
                before[y][x]
            }) by {
                lemma_head_at_take(generators@, i as int, x, y);
            }
        }
        i = i + 1;
    }
    proof {
        assert(generators@.take(i as int) =~= generators@);
        assert forall|y: int| 0 <= y < before.len() implies #[trigger] grid@[y] =~= tinted(
            before,
            generators@,
            color,
        )[y] by {
            assert forall|x: int| 0 <= x < before[y].len() implies grid@[y][x] == tinted(
                before,
                generators@,
                color,
            )[y][x] by {}
        }
    }
}

/// The generators that have not reached the last of `height` rows.
fn prune(generators: &Vec<(usize, usize)>, height: usize) -> (kept: Vec<(usize, usize)>)
    ensures
        kept@ == survivors(generators@, height as nat),
{
    let mut kept: Vec<(usize, usize)> = Vec::new();
    let mut i: usize = 0;
    proof {
        reveal(Seq::filter);
    }
    while i < generators.len()
        invariant
            i <= generators.len(),
            kept@ == survivors(generators@.take(i as int), height as nat),
        decreases generators.len() - i,
    {
        let generator = generators[i];
        proof {
            reveal(Seq::filter);
            assert(generators@.take(i + 1).drop_last() =~= generators@.take(i as int));
        }
        if height > 0 && generator.1 < height - 1 {
            kept.push(generator);
        }
        i = i + 1;
    }
    proof {
        assert(generators@.take(i as int) =~= generators@);
    }
    kept
}

/// Moves each generator one row down and writes its rune of `runes` under it.
fn advance(grid: &mut Grid, generators: &mut Vec<(usize, usize)>, runes: &Vec<Rune>)
    requires
        runes.len() == old(generators).len(),
        rectangular(old(grid)@),
        forall|i: int|
            0 <= i < old(generators).len() ==> (#[trigger] old(generators)[i]).1 + 1 < old(
                grid,
            )@.len() && old(generators)[i].0 < columns(old(grid)@),
    ensures
        final(generators)@ == heads(advance_arrivals(old(generators)@, runes@)),
        final(grid)@ == written(old(grid)@, advance_arrivals(old(generators)@, runes@)),
        same_shape(final(grid)@, old(grid)@),
        in_bounds(final(generators)@, final(grid)@),
{
    let ghost before = grid@;
    let ghost stood = generators@;
    let ghost arriving = advance_arrivals(stood, runes@);
    proof {
        use_type_invariant(&*grid);
        grid.lemma_rectangle();
    }
    let mut i: usize = 0;
    while i < generators.len()
        invariant
            i <= generators.len(),
            generators.len() == stood.len(),
            runes.len() == stood.len(),
            arriving == advance_arrivals(stood, runes@),
            rectangular(before),
            before.len() <= u16::MAX,
            forall|j: int|
                0 <= j < stood.len() ==> (#[trigger] stood[j]).1 + 1 < before.len() && stood[j].0
                    < columns(before),
            forall|j: int| 0 <= j < i ==> #[trigger] generators@[j] == arriving[j].0,
            forall|j: int| i <= j < stood.len() ==> #[trigger] generators@[j] == stood[j],
            same_shape(grid@, before),
            grid@ == written(before, arriving.take(i as int)),
        decreases generators.len() - i,
    {
        let generator = generators[i];
        let moved = (generator.0, generator.1 + 1);
        generators[i] = moved;
        grid.set_rune(moved.0, moved.1, runes[i]);
        proof {
            assert(arriving.take(i + 1).drop_last() =~= arriving.take(i as int));
        }
        i = i + 1;
    }
    proof {
        assert(arriving.take(i as int) =~= arriving);
    }
}

/// Starts a generator in the top row of each column for which `spawned`
/// holds a rune, and writes that rune under it.
fn spawn(grid: &mut Grid, generators: &mut Vec<(usize, usize)>, spawned: &Vec<Option<Rune>>)
    requires
        rectangular(old(grid)@),
        spawned.len() == columns(old(grid)@),
        in_bounds(old(generators)@, old(grid)@),
    ensures
        final(generators)@ == old(generators)@ + heads(spawn_arrivals(spawned@)),
        final(grid)@ == written(old(grid)@, spawn_arrivals(spawned@)),
        same_shape(final(grid)@, old(grid)@),
        in_bounds(final(generators)@, final(grid)@),
{
    let ghost before = grid@;
    let ghost stood = generators@;
    let mut x: usize = 0;
    while x < spawned.len()
        invariant
            x <= spawned.len(),
            rectangular(before),
            spawned.len() == columns(before),
            same_shape(grid@, before),
            in_bounds(generators@, before),
            generators@ == stood + heads(spawn_arrivals(spawned@.take(x as int))),
            grid@ == written(before, spawn_arrivals(spawned@.take(x as int))),
        decreases spawned.len() - x,
    {
        proof {
            assert(spawned@.take(x + 1).drop_last() =~= spawned@.take(x as int));
        }
        match spawned[x] {
            Some(rune) => {
                generators.push((x, 0));
                grid.set_rune(x, 0, rune);
                proof {
                    let sooner = spawn_arrivals(spawned@.take(x as int));
                    assert(sooner.push(((x, 0usize), rune)).drop_last() =~= sooner);
                }
            },
            None => {},
        }
        x = x + 1;
    }
    proof {
        assert(spawned@.take(x as int) =~= spawned@);
    }
}

/// Ages every rune of the grid by one tick.
fn age_all(grid: &mut Grid)
    ensures
        final(grid)@ == aged_cells(old(grid)@),
{
    let ghost before = grid@;
    let width = grid.width();
    let height = grid.height();
    proof {
        use_type_invariant(&*grid);
        grid.lemma_rectangle();
    }
    let mut y: usize = 0;
    while y < height
        invariant
            y <= height,
            height == before.len(),
            width == columns(before),
            rectangular(before),
            same_shape(grid@, before),
            forall|i: int, j: int|
                0 <= j < before.len() && 0 <= i < before[j].len() ==> #[trigger] grid@[j][i] == (
                if j < y {
                    aged(before[j][i])
                } else {
                    before[j][i]
                }),
        decreases height - y,
    {
        let mut x: usize = 0;
        while x < width
            invariant
                x <= width,
                y < height,
                height == before.len(),
                width == columns(before),
                rectangular(before),
                same_shape(grid@, before),
                forall|i: int, j: int|
                    0 <= j < before.len() && 0 <= i < before[j].len() ==> #[trigger] grid@[j][i]
                        == (if j < y || (j == y && i < x) {
                        aged(before[j][i])
                    } else {
                        before[j][i]
                    }),
            decreases width - x,
        {
            let cell = grid.get_rune(x, y);
            cell.age();
            x = x + 1;
        }
        y = y + 1;
    }
    proof {
        assert forall|j: int| 0 <= j < before.len() implies #[trigger] grid@[j] =~= aged_cells(
            before,
        )[j] by {
            assert forall|i: int| 0 <= i < before[j].len() implies grid@[j][i] == aged_cells(
                before,
            )[j][i] by {}
        }
    }
}

} // verus!
