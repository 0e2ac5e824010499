//! The rectangle of runes that the rain falls through.

use vstd::prelude::*;
use crate::characters::Characters;
use crate::rune::{fresh_lifetime, Rune, BLANK, RUNE_COLOR_BASE};

verus! {

/// A fixed rectangle of runes, addressed by column and row.
///
/// Its view is the sequence of its rows, top row first; each row is the
/// sequence of its cells, leftmost first.
pub struct Grid {
    cells: Vec<Rune>,
    width: usize,
    height: usize,
}

/// Whether all rows of `cells` have the same length.
pub open spec fn rectangular(cells: Seq<Seq<Rune>>) -> bool {
    forall|y: int| 0 <= y < cells.len() ==> (#[trigger] cells[y]).len() == cells[0].len()
}

/// Number of columns of `cells`: the length of its rows, and 0 where it has none.
pub open spec fn columns(cells: Seq<Seq<Rune>>) -> nat {
    if cells.len() == 0 {
        0
    } else {
        cells[0].len()
    }
}

/// Whether `a` and `b` have as many rows, and row by row as many cells.
pub open spec fn same_shape(a: Seq<Seq<Rune>>, b: Seq<Seq<Rune>>) -> bool {
    &&& a.len() == b.len()
    &&& forall|y: int| 0 <= y < a.len() ==> (#[trigger] a[y]).len() == b[y].len()
}

/// The rectangle of `width` columns and `height` rows with `rune` in every cell.
pub open spec fn uniform(width: nat, height: nat, rune: Rune) -> Seq<Seq<Rune>> {
    Seq::new(height, |y: int| Seq::new(width, |x: int| rune))
}

/// `cells` with the cell at column `x`, row `y` replaced by `rune`.
pub open spec fn with_cell(cells: Seq<Seq<Rune>>, x: int, y: int, rune: Rune) -> Seq<Seq<Rune>> {
    cells.update(y, cells[y].update(x, rune))
}

/// A cell of a rectangle stored row by row lies inside the storage.
proof fn lemma_offset_in_bounds(x: int, y: int, width: int, height: int)
    by (nonlinear_arith)
    requires
        0 <= x < width,
        0 <= y < height,
    ensures
        0 <= y * width <= y * width + x < width * height,
        width <= u16::MAX && height <= u16::MAX ==> width * height <= u32::MAX,
{
}

/// Two cells of a rectangle stored row by row share a place only if they are the same cell.
proof fn lemma_offset_injective(x1: int, y1: int, x2: int, y2: int, width: int)
    by (nonlinear_arith)
    requires
        0 <= x1 < width,
        0 <= x2 < width,
        0 <= y1,
        0 <= y2,
        y1 * width + x1 == y2 * width + x2,
    ensures
        x1 == x2,
        y1 == y2,
{
}

/// The rows of a rectangle that `cells` stores row by row.
spec fn rows_of(cells: Seq<Rune>, width: int, height: int) -> Seq<Seq<Rune>> {
    Seq::new(height as nat, |y: int| Seq::new(width as nat, |x: int| cells[y * width + x]))
}

/// Replacing the stored cell of column `x`, row `y` replaces that cell of the rows and no other.
proof fn lemma_rows_of_update(cells: Seq<Rune>, width: int, height: int, x: int, y: int, rune: Rune)
    requires
        cells.len() == width * height,
        0 <= x < width,
        0 <= y < height,
    ensures
        rows_of(cells.update(y * width + x, rune), width, height) == with_cell(
            rows_of(cells, width, height),
            x,
            y,
            rune,
        ),
{
    let before = rows_of(cells, width, height);
    let after = rows_of(cells.update(y * width + x, rune), width, height);
    lemma_offset_in_bounds(x, y, width, height);
    assert forall|j: int| 0 <= j < height implies #[trigger] after[j] == with_cell(
        before,
        x,
        y,
        rune,
    )[j] by {
        assert forall|i: int| 0 <= i < width implies after[j][i] == with_cell(
            before,
            x,
            y,
            rune,
        )[j][i] by {
            lemma_offset_in_bounds(i, j, width, height);
            if j * width + i == y * width + x {
                lemma_offset_injective(i, j, x, y, width);
            }
        }
    }
}

impl View for Grid {
    type V = Seq<Seq<Rune>>;

    closed spec fn view(&self) -> Seq<Seq<Rune>> {
        rows_of(self.cells@, self.width as int, self.height as int)
    }
}

impl Grid {
    /// What holds of every grid: it stores one rune for each cell, and its
    /// sides are such as a terminal can report.
    #[verifier::type_invariant]
    pub closed spec fn wf(&self) -> bool {
        &&& self.cells@.len() == self.width * self.height
        &&& self.width <= u16::MAX
        &&& self.height <= u16::MAX
        &&& self.height == 0 ==> self.width == 0
    }

    /// The rows of a grid are equally long, and neither their number nor
    /// their length exceeds what 16 bits hold.
    pub proof fn lemma_rectangle(&self)
        requires
            self.wf(),
        ensures
            rectangular(self@),
            self@.len() <= u16::MAX,
            columns(self@) <= u16::MAX,
    {
    }

    /// The grid without cells.
    pub fn empty() -> (grid: Grid)
        ensures
            grid@ == Seq::<Seq<Rune>>::empty(),
    {
        Grid { cells: Vec::new(), width: 0, height: 0 }
    }

    /// A grid of `width` columns and `height` rows of blank cells in the trail
    /// colour, all with one lifetime, which is drawn at random as that of a
    /// fresh rune is.
    pub fn new(characters: &Characters, width: u16, height: u16) -> (grid: Grid)
        ensures
            exists|lifetime: u8|
                fresh_lifetime(lifetime) && grid@ == #[trigger] uniform(
                    width as nat,
                    height as nat,
                    Rune { character: BLANK, lifetime, color: RUNE_COLOR_BASE },
                ),
    {
        let rune = characters.create_rune(BLANK, RUNE_COLOR_BASE);
        let grid = Grid::filled(width, height, rune);
        proof {
            assert(rune == Rune {
                character: BLANK,
                lifetime: rune.lifetime,
                color: RUNE_COLOR_BASE,
            });
        }
        grid
    }

    /// A grid of `width` columns and `height` rows with `rune` in every cell.
    pub fn filled(width: u16, height: u16, rune: Rune) -> (grid: Grid)
        ensures
            grid@ == uniform(width as nat, height as nat, rune),
    {
        let w: usize = if height == 0 { 0 } else { width as usize };
        let h: usize = height as usize;
        assert(w * h <= 0xffff * 0xffff) by (nonlinear_arith)
            requires
                w <= 0xffff,
                h <= 0xffff,
        ;
        let total: usize = w * h;
        let mut cells: Vec<Rune> = Vec::new();
        let mut i: usize = 0;
        while i < total
            invariant
                i <= total,
                cells@.len() == i,
                forall|j: int| 0 <= j < i ==> cells@[j] == rune,
            decreases total - i,
        {
            cells.push(rune);
            i = i + 1;
        }
        let grid = Grid { cells, width: w, height: h };
        proof {
            let all = uniform(width as nat, height as nat, rune);
            assert forall|y: int| 0 <= y < h implies #[trigger] grid@[y] == all[y] by {
                assert forall|x: int| 0 <= x < w implies grid@[y][x] == rune by {
                    lemma_offset_in_bounds(x, y, w as int, h as int);
                }
            }
        }
        grid
    }

    /// Number of columns: the length of the rows, and 0 where there is no row.
    pub fn width(&self) -> (width: usize)
        ensures
            width == columns(self@),
            width <= u16::MAX,
            rectangular(self@),
    {
        proof {
            use_type_invariant(self);
        }
        self.width
    }

    /// Number of rows.
    pub fn height(&self) -> (height: usize)
        ensures
            height == self@.len(),
            height <= u16::MAX,
    {
        proof {
            use_type_invariant(self);
        }
        self.height
    }

    /// The rune at column `x`, row `y`.
    pub fn rune(&self, x: usize, y: usize) -> (rune: Rune)
        requires
            x < columns(self@),
            y < self@.len(),
        ensures
            rune == self@[y as int][x as int],
    {
        proof {
            use_type_invariant(self);
            lemma_offset_in_bounds(x as int, y as int, self.width as int, self.height as int);
        }
        self.cells[y * self.width + x]
    }

    /// Overwrites the cell at column `x`, row `y`.
    pub fn set_rune(&mut self, x: usize, y: usize, rune: Rune)
        requires
            x < columns(old(self)@),
            y < old(self)@.len(),
        ensures
            final(self)@ == with_cell(old(self)@, x as int, y as int, rune),
    {
        let cell = self.get_rune(x, y);
        *cell = rune;
    }

    /// Mutable access to the cell at column `x`, row `y`.
    pub fn get_rune(&mut self, x: usize, y: usize) -> (rune: &mut Rune)
        requires
            x < columns(old(self)@),
            y < old(self)@.len(),
        ensures
            *rune == old(self)@[y as int][x as int],
            final(self)@ == with_cell(old(self)@, x as int, y as int, *final(rune)),
    {
        proof {
            use_type_invariant(&*self);
            lemma_offset_in_bounds(x as int, y as int, self.width as int, self.height as int);
            assert forall|r: Rune| #[trigger]
                rows_of(
                    self.cells@.update(y * self.width + x, r),
                    self.width as int,
                    self.height as int,
                ) == with_cell(self@, x as int, y as int, r) by {
                lemma_rows_of_update(
                    self.cells@,
                    self.width as int,
                    self.height as int,
                    x as int,
                    y as int,
                    r,
                );
            }
        }
        let offset = y * self.width + x;
        &mut self.cells[offset]
    }
}

} // verus!
