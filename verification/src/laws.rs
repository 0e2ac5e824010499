//! What holds of the rain, proved from the model: first what the proofs of
//! the tick rest on, then what a tick keeps and what it changes.

use vstd::arithmetic::div_mod::lemma_fundamental_div_mod_converse;
use vstd::prelude::*;
use crate::characters::{lemma_symbols, SYMBOLS};
use crate::frame::{frame_of, painted};
use crate::grid::{columns, rectangular, same_shape};
use crate::model::{
    accepts, advance_arrivals, arrivals, fresh_rune, fresh_runes, head_at, heads, in_bounds,
    last_arrival, run, run_accepts, spawn_arrivals, survives, survivors, tick, tick_cell, tinted,
    written, WaterfallView,
};
use crate::rune::{
    lemma_display_color_bounds, Rune, BLANK, RUNE_COLOR_BASE, RUNE_FADE_DURATION,
    RUNE_GENERATOR_COLOR, RUNE_LIFETIME_LIMIT,
};

verus! {

/// A generator stands among the first `i + 1` of `generators` exactly if it
/// stands among the first `i` or is the one at `i`.
pub proof fn lemma_head_at_take(generators: Seq<(usize, usize)>, i: int, x: int, y: int)
    requires
        0 <= i < generators.len(),
    ensures
        head_at(generators.take(i + 1), x, y) <==> head_at(generators.take(i), x, y) || (
        generators[i].0 == x && generators[i].1 == y),
{
    let shorter = generators.take(i);
    let longer = generators.take(i + 1);
    if head_at(longer, x, y) {
        let j = choose|j: int|
            0 <= j < longer.len() && (#[trigger] longer[j]).0 == x && longer[j].1 == y;
        assert(j < i ==> shorter[j] == longer[j]);
    }
    if head_at(shorter, x, y) {
        let j = choose|j: int|
            0 <= j < shorter.len() && (#[trigger] shorter[j]).0 == x && shorter[j].1 == y;
        assert(longer[j] == shorter[j]);
    }
    if generators[i].0 == x && generators[i].1 == y {
        assert(longer[i] == generators[i]);
    }
}

/// Writing one run of arrivals and then another is writing the two runs as one.
pub proof fn lemma_written_add(
    cells: Seq<Seq<Rune>>,
    first: Seq<((usize, usize), Rune)>,
    second: Seq<((usize, usize), Rune)>,
)
    ensures
        written(written(cells, first), second) == written(cells, first + second),
    decreases second.len(),
{
    if second.len() == 0 {
        assert(first + second =~= first);
    } else {
        lemma_written_add(cells, first, second.drop_last());
        assert((first + second).drop_last() =~= first + second.drop_last());
    }
}

/// Every survivor has a row below it and is one of the generators it was chosen from.
pub proof fn lemma_survivors(generators: Seq<(usize, usize)>, height: nat)
    ensures
        forall|i: int|
            0 <= i < survivors(generators, height).len() ==> survives(
                #[trigger] survivors(generators, height)[i],
                height,
            ) && generators.contains(survivors(generators, height)[i]),
    decreases generators.len(),
{
    reveal(Seq::filter);
    if generators.len() > 0 {
        let shorter = generators.drop_last();
        lemma_survivors(shorter, height);
        assert forall|i: int| 0 <= i < survivors(generators, height).len() implies survives(
            #[trigger] survivors(generators, height)[i],
            height,
        ) && generators.contains(survivors(generators, height)[i]) by {
            if i < survivors(shorter, height).len() {
                let kept = survivors(shorter, height)[i];
                let j = choose|j: int| 0 <= j < shorter.len() && shorter[j] == kept;
                assert(generators[j] == kept);
            } else {
                assert(survivors(generators, height)[i] == generators[generators.len() - 1]);
            }
        }
    }
}

/// Every generator that starts in a tick stands in the top row of a column
/// for which `spawned` holds a rune, and carries that rune.
pub proof fn lemma_spawn_arrivals(spawned: Seq<Option<Rune>>)
    requires
        spawned.len() <= usize::MAX,
    ensures
        spawn_arrivals(spawned).len() <= spawned.len(),
        forall|i: int|
            0 <= i < spawn_arrivals(spawned).len() ==> {
                let arrival = #[trigger] spawn_arrivals(spawned)[i];
                &&& arrival.0.1 == 0
                &&& arrival.0.0 < spawned.len()
                &&& spawned[arrival.0.0 as int] == Some(arrival.1)
            },
    decreases spawned.len(),
{
    if spawned.len() > 0 {
        let shorter = spawned.drop_last();
        let sooner = spawn_arrivals(shorter);
        let all = spawn_arrivals(spawned);
        lemma_spawn_arrivals(shorter);
        assert forall|i: int| 0 <= i < all.len() implies {
            let arrival = #[trigger] all[i];
            &&& arrival.0.1 == 0
            &&& arrival.0.0 < spawned.len()
            &&& spawned[arrival.0.0 as int] == Some(arrival.1)
        } by {
            if i < sooner.len() {
                assert(all[i] == sooner[i]);
                assert(shorter[sooner[i].0.0 as int] == spawned[sooner[i].0.0 as int]);
            }
        }
    }
}

/// Every arrival of a tick stands on a cell.
pub proof fn lemma_arrivals_in_bounds(
    state: WaterfallView,
    advanced: Seq<Rune>,
    spawned: Seq<Option<Rune>>,
)
    requires
        state.wf(),
        accepts(state, advanced, spawned),
    ensures
        in_bounds(heads(arrivals(state, advanced, spawned)), state.cells),
{
    let kept = survivors(state.generators, state.height());
    let moving = advance_arrivals(kept, advanced);
    let starting = spawn_arrivals(spawned);
    let arriving = arrivals(state, advanced, spawned);
    lemma_survivors(state.generators, state.height());
    lemma_spawn_arrivals(spawned);
    assert forall|i: int| 0 <= i < heads(arriving).len() implies (#[trigger] heads(arriving)[i]).1
        < state.cells.len() && heads(arriving)[i].0 < columns(state.cells) by {
        if i < moving.len() {
            let stood = kept[i];
            let j = choose|j: int| 0 <= j < state.generators.len() && state.generators[j] == stood;
            assert(heads(arriving)[i].0 == state.generators[j].0);
        } else {
            assert(arriving[i] == starting[i - moving.len()]);
        }
    }
}

/// Writing arrivals that stand on cells keeps the shape of the cells.
pub proof fn lemma_written_shape(cells: Seq<Seq<Rune>>, arriving: Seq<((usize, usize), Rune)>)
    requires
        rectangular(cells),
        in_bounds(heads(arriving), cells),
    ensures
        same_shape(written(cells, arriving), cells),
    decreases arriving.len(),
{
    if arriving.len() > 0 {
        let sooner = arriving.drop_last();
        assert forall|i: int| 0 <= i < heads(sooner).len() implies (#[trigger] heads(sooner)[i]).1
            < cells.len() && heads(sooner)[i].0 < columns(cells) by {
            assert(heads(sooner)[i] == heads(arriving)[i]);
        }
        lemma_written_shape(cells, sooner);
        assert(heads(arriving)[arriving.len() - 1] == arriving.last().0);
    }
}

/// Writing arrivals that stand on cells leaves in each cell the rune of the
/// last arrival there, or else what was there.
pub proof fn lemma_written_cell(
    cells: Seq<Seq<Rune>>,
    arriving: Seq<((usize, usize), Rune)>,
    x: int,
    y: int,
)
    requires
        rectangular(cells),
        in_bounds(heads(arriving), cells),
        0 <= y < cells.len(),
        0 <= x < columns(cells),
    ensures
        written(cells, arriving)[y][x] == match last_arrival(arriving, x, y) {
            Some(rune) => rune,
            None => cells[y][x],
        },
    decreases arriving.len(),
{
    if arriving.len() > 0 {
        let sooner = arriving.drop_last();
        assert forall|i: int| 0 <= i < heads(sooner).len() implies (#[trigger] heads(sooner)[i]).1
            < cells.len() && heads(sooner)[i].0 < columns(cells) by {
            assert(heads(sooner)[i] == heads(arriving)[i]);
        }
        lemma_written_shape(cells, sooner);
        lemma_written_cell(cells, sooner, x, y);
        assert(heads(arriving)[arriving.len() - 1] == arriving.last().0);
    }
}

/// A generator of the arrivals stands at a cell exactly if one of them leaves a rune there.
pub proof fn lemma_head_at_heads(arriving: Seq<((usize, usize), Rune)>, x: int, y: int)
    ensures
        head_at(heads(arriving), x, y) <==> last_arrival(arriving, x, y) is Some,
    decreases arriving.len(),
{
    if arriving.len() > 0 {
        let sooner = arriving.drop_last();
        lemma_head_at_heads(sooner, x, y);
        assert(heads(arriving).take(arriving.len() - 1) =~= heads(sooner));
        assert(heads(arriving).take(arriving.len() as int) =~= heads(arriving));
        lemma_head_at_take(heads(arriving), arriving.len() - 1, x, y);
    }
}

/// The rune that arrivals leave at a cell is the rune of one of them that stands there.
pub proof fn lemma_last_arrival(arriving: Seq<((usize, usize), Rune)>, x: int, y: int)
    requires
        last_arrival(arriving, x, y) is Some,
    ensures
        exists|i: int|
            0 <= i < arriving.len() && (#[trigger] arriving[i]).0.0 == x && arriving[i].0.1 == y
                && Some(arriving[i].1) == last_arrival(arriving, x, y),
    decreases arriving.len(),
{
    if arriving.last().0.0 == x && arriving.last().0.1 == y {
        assert(arriving[arriving.len() - 1] == arriving.last());
    } else {
        let sooner = arriving.drop_last();
        lemma_last_arrival(sooner, x, y);
        let i = choose|i: int|
            0 <= i < sooner.len() && (#[trigger] sooner[i]).0.0 == x && sooner[i].0.1 == y && Some(
                sooner[i].1,
            ) == last_arrival(sooner, x, y);
        assert(arriving[i] == sooner[i]);
    }
}

/// A tick keeps the shape of the cells and leaves every generator on a cell.
///
/// So the dimensions of a waterfall are those it was made with, after one
/// tick as before it.
pub proof fn lemma_tick_keeps_dimensions(
    state: WaterfallView,
    advanced: Seq<Rune>,
    spawned: Seq<Option<Rune>>,
)
    requires
        state.wf(),
        accepts(state, advanced, spawned),
    ensures
        tick(state, advanced, spawned).wf(),
        same_shape(tick(state, advanced, spawned).cells, state.cells),
        tick(state, advanced, spawned).height() == state.height(),
        tick(state, advanced, spawned).width() == state.width(),
{
    let arriving = arrivals(state, advanced, spawned);
    let dimmed = tinted(state.cells, state.generators, RUNE_COLOR_BASE);
    lemma_arrivals_in_bounds(state, advanced, spawned);
    lemma_written_shape(dimmed, arriving);
}

/// However many ticks are made, the dimensions of a waterfall stay those it
/// started with, and every generator stays on a cell.
pub proof fn lemma_run_keeps_dimensions(
    state: WaterfallView,
    draws: Seq<(Seq<Rune>, Seq<Option<Rune>>)>,
)
    requires
        state.wf(),
        run_accepts(state, draws),
    ensures
        run(state, draws).wf(),
        run(state, draws).height() == state.height(),
        run(state, draws).width() == state.width(),
    decreases draws.len(),
{
    if draws.len() > 0 {
        lemma_run_keeps_dimensions(state, draws.drop_last());
        lemma_tick_keeps_dimensions(run(state, draws.drop_last()), draws.last().0, draws.last().1);
    }
}

/// A tick makes of every cell what [`tick_cell`] says, and the cells under
/// its generators are those that a generator arrived at.
pub proof fn lemma_tick_cell(
    state: WaterfallView,
    advanced: Seq<Rune>,
    spawned: Seq<Option<Rune>>,
    x: int,
    y: int,
)
    requires
        state.wf(),
        accepts(state, advanced, spawned),
        0 <= y < state.height(),
        0 <= x < state.width(),
    ensures
        tick(state, advanced, spawned).cells[y][x] == tick_cell(state, advanced, spawned, x, y),
        head_at(tick(state, advanced, spawned).generators, x, y) <==> last_arrival(
            arrivals(state, advanced, spawned),
            x,
            y,
        ) is Some,
{
    let arriving = arrivals(state, advanced, spawned);
    let dimmed = tinted(state.cells, state.generators, RUNE_COLOR_BASE);
    lemma_arrivals_in_bounds(state, advanced, spawned);
    lemma_written_shape(dimmed, arriving);
    lemma_written_cell(dimmed, arriving, x, y);
    lemma_head_at_heads(arriving, x, y);
}

/// A cell that no generator arrives at in a tick keeps its lifetime where
/// that is 0 or outside the band that is counted down, and else has exactly
/// one tick less. Its glyph is blank where its lifetime ends at 0, and its
/// own otherwise. Its colour is the trail colour where a generator stood on
/// it, and its own otherwise.
pub proof fn lemma_lifetime_counts_down(
    state: WaterfallView,
    advanced: Seq<Rune>,
    spawned: Seq<Option<Rune>>,
    x: int,
    y: int,
)
    requires
        state.wf(),
        accepts(state, advanced, spawned),
        0 <= y < state.height(),
        0 <= x < state.width(),
        !head_at(tick(state, advanced, spawned).generators, x, y),
    ensures
        ({
            let before = state.cells[y][x];
            let after = tick(state, advanced, spawned).cells[y][x];
            &&& after.lifetime == if before.lifetime == 0 || before.lifetime
                >= RUNE_LIFETIME_LIMIT {
                before.lifetime as int
            } else {
                before.lifetime - 1
            }
            &&& after.character == if before.lifetime <= 1 {
                BLANK
            } else {
                before.character
            }
            &&& after.color == if head_at(state.generators, x, y) {
                RUNE_COLOR_BASE
            } else {
                before.color
            }
        }),
{
    lemma_tick_cell(state, advanced, spawned, x, y);
}

/// Where the fresh runes of a tick are ones that a generator can leave, the
/// cell under every generator is at full brightness after the tick, holds a
/// glyph of the catalogue, which is not the blank, and has the head colour.
pub proof fn lemma_heads_are_bright(
    state: WaterfallView,
    advanced: Seq<Rune>,
    spawned: Seq<Option<Rune>>,
    x: int,
    y: int,
)
    requires
        state.wf(),
        accepts(state, advanced, spawned),
        fresh_runes(advanced, spawned),
        0 <= y < state.height(),
        0 <= x < state.width(),
        head_at(tick(state, advanced, spawned).generators, x, y),
    ensures
        ({
            let after = tick(state, advanced, spawned).cells[y][x];
            &&& after.lifetime >= RUNE_FADE_DURATION
            &&& SYMBOLS@.contains(after.character)
            &&& after.character != BLANK
            &&& after.color == RUNE_GENERATOR_COLOR
        }),
{
    lemma_symbols();
    let kept = survivors(state.generators, state.height());
    let moving = advance_arrivals(kept, advanced);
    let starting = spawn_arrivals(spawned);
    let arriving = arrivals(state, advanced, spawned);
    lemma_tick_cell(state, advanced, spawned, x, y);
    lemma_last_arrival(arriving, x, y);
    lemma_spawn_arrivals(spawned);
    let i = choose|i: int|
        0 <= i < arriving.len() && (#[trigger] arriving[i]).0.0 == x && arriving[i].0.1 == y
            && Some(arriving[i].1) == last_arrival(arriving, x, y);
    if i < moving.len() {
        assert(arriving[i].1 == advanced[i]);
    } else {
        let arrival = starting[i - moving.len()];
        assert(arriving[i] == arrival);
        assert(spawned[arrival.0.0 as int] == Some(arrival.1));
    }
}

/// A generator in the last row does not move down: the survivors are those
/// there would be had it not been in the list.
pub proof fn lemma_last_row_is_no_survivor(generators: Seq<(usize, usize)>, height: nat, i: int)
    requires
        0 <= i < generators.len(),
        generators[i].1 + 1 == height,
    ensures
        survivors(generators, height) == survivors(generators.remove(i), height),
        survivors(generators, height).len() < generators.len(),
{
    let keep = |g: (usize, usize)| survives(g, height);
    let front = generators.subrange(0, i);
    let one = generators.subrange(i, i + 1);
    let back = generators.subrange(i + 1, generators.len() as int);
    assert(generators =~= front + one + back);
    assert(generators.remove(i) =~= front + back);
    Seq::filter_distributes_over_add(front + one, back, keep);
    Seq::filter_distributes_over_add(front, one, keep);
    Seq::filter_distributes_over_add(front, back, keep);
    assert(one.filter(keep) =~= Seq::<(usize, usize)>::empty()) by {
        reveal_with_fuel(Seq::filter, 2);
    }
    front.lemma_filter_len(keep);
    back.lemma_filter_len(keep);
}

/// A generator in the last row is removed by the tick: the generators after
/// the tick are those there would be had it not been in the list, and they
/// are fewer than the old ones and the new ones together.
pub proof fn lemma_last_row_generator_removed(
    state: WaterfallView,
    advanced: Seq<Rune>,
    spawned: Seq<Option<Rune>>,
    i: int,
)
    requires
        0 <= i < state.generators.len(),
        state.generators[i].1 + 1 == state.height(),
    ensures
        tick(state, advanced, spawned).generators == tick(
            WaterfallView { generators: state.generators.remove(i), ..state },
            advanced,
            spawned,
        ).generators,
        tick(state, advanced, spawned).generators.len() < state.generators.len() + spawn_arrivals(
            spawned,
        ).len(),
{
    lemma_last_row_is_no_survivor(state.generators, state.height(), i);
}

/// After a tick a cell whose lifetime is 0 is blank. A cell that no
/// generator arrives at, and that had at most one tick left, ends at 0 and
/// blank: it is blanked in the tick in which it reaches 0, and stays so.
pub proof fn lemma_blank_at_zero(
    state: WaterfallView,
    advanced: Seq<Rune>,
    spawned: Seq<Option<Rune>>,
    x: int,
    y: int,
)
    requires
        state.wf(),
        accepts(state, advanced, spawned),
        0 <= y < state.height(),
        0 <= x < state.width(),
    ensures
        ({
            let before = state.cells[y][x];
            let after = tick(state, advanced, spawned).cells[y][x];
            &&& after.lifetime == 0 ==> after.character == BLANK
            &&& !head_at(tick(state, advanced, spawned).generators, x, y) ==> (after.lifetime == 0
                <==> before.lifetime <= 1)
        }),
{
    lemma_tick_cell(state, advanced, spawned, x, y);
}

/// In the frame of a waterfall the paint of the cell at column `x`, row `y`
/// stands at place `y * width + x`. It names that column and row, shows the
/// glyph of the cell, and no channel of its colour exceeds that channel of
/// the colour of the cell.
pub proof fn lemma_frame_cell(cells: Seq<Seq<Rune>>, x: int, y: int)
    requires
        rectangular(cells),
        cells.len() <= u16::MAX,
        columns(cells) <= u16::MAX,
        0 <= y < cells.len(),
        0 <= x < columns(cells),
    ensures
        0 <= y * columns(cells) + x < frame_of(cells).len(),
        frame_of(cells)[y * columns(cells) + x] == painted(x, y, cells[y][x]),
        ({
            let paint = frame_of(cells)[y * columns(cells) + x];
            &&& paint.column == x
            &&& paint.row == y
            &&& paint.character == cells[y][x].character
            &&& paint.color.0 <= cells[y][x].color.0
            &&& paint.color.1 <= cells[y][x].color.1
            &&& paint.color.2 <= cells[y][x].color.2
        }),
{
    let width = columns(cells) as int;
    let height = cells.len() as int;
    assert(0 <= y * width + x < height * width) by (nonlinear_arith)
        requires
            0 <= x < width,
            0 <= y < height,
    ;
    lemma_fundamental_div_mod_converse(y * width + x, width, y, x);
    lemma_display_color_bounds(cells[y][x]);
}

} // verus!
