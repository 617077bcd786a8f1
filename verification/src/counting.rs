//! Counting the board's cells by a predicate — mines placed, closed cells a
//! flood fill may still open — and how such a count moves when one cell is
//! replaced.

use vstd::prelude::*;

use crate::game_types::{Cell, CellState, CellValue};

verus! {

/// How many cells of the row satisfy `f`.
pub open spec fn row_count(row: Seq<Cell>, f: spec_fn(Cell) -> bool) -> nat
    decreases row.len(),
{
    if row.len() == 0 {
        0
    } else {
        row_count(row.drop_last(), f) + (if f(row.last()) {
            1nat
        } else {
            0nat
        })
    }
}

/// How many cells of the whole board satisfy `f`.
pub open spec fn grid_count(g: Seq<Vec<Cell>>, f: spec_fn(Cell) -> bool) -> nat
    decreases g.len(),
{
    if g.len() == 0 {
        0
    } else {
        grid_count(g.drop_last(), f) + row_count(g.last()@, f)
    }
}

/// A cell holding a mine.
pub open spec fn is_bomb(c: Cell) -> bool {
    c.value == CellValue::Bomb
}

/// How many cells of the board hold a mine.
pub open spec fn bomb_count(g: Seq<Vec<Cell>>) -> nat {
    grid_count(g, |c: Cell| is_bomb(c))
}

/// A still-closed cell with nothing under it: one a flood fill may yet open.
pub open spec fn is_closed_empty(c: Cell) -> bool {
    c.state == CellState::Closed && c.value == CellValue::Empty
}

/// How many closed, mine-free cells the board still has.
pub open spec fn closed_empty_count(g: Seq<Vec<Cell>>) -> nat {
    grid_count(g, |c: Cell| is_closed_empty(c))
}

/// Replacing one cell of a row moves the count by the two cells' worth.
pub proof fn lemma_row_count_update(row: Seq<Cell>, f: spec_fn(Cell) -> bool, x: int, c: Cell)
    requires
        0 <= x < row.len(),
    ensures
        row_count(row.update(x, c), f) + (if f(row[x]) {
            1nat
        } else {
            0nat
        }) == row_count(row, f) + (if f(c) {
            1nat
        } else {
            0nat
        }),
    decreases row.len(),
{
    let r2 = row.update(x, c);
    if x == row.len() - 1 {
        assert(r2.drop_last() =~= row.drop_last());
        assert(r2.last() == c);
    } else {
        assert(r2.drop_last() =~= row.drop_last().update(x, c));
        assert(r2.last() == row.last());
        lemma_row_count_update(row.drop_last(), f, x, c);
    }
}

/// Replacing one row of the board moves the count by the two rows' worth.
pub proof fn lemma_grid_count_update(
    g: Seq<Vec<Cell>>,
    f: spec_fn(Cell) -> bool,
    y: int,
    row: Vec<Cell>,
)
    requires
        0 <= y < g.len(),
    ensures
        grid_count(g.update(y, row), f) + row_count(g[y]@, f) == grid_count(g, f) + row_count(
            row@,
            f,
        ),
    decreases g.len(),
{
    let g2 = g.update(y, row);
    if y == g.len() - 1 {
        assert(g2.drop_last() =~= g.drop_last());
        assert(g2.last() == row);
    } else {
        assert(g2.drop_last() =~= g.drop_last().update(y, row));
        assert(g2.last() == g.last());
        lemma_grid_count_update(g.drop_last(), f, y, row);
    }
}

/// Replacing the one cell `(x, y)` of the board with `c` moves the count by
/// the two cells' worth.
pub proof fn lemma_grid_count_set_cell(
    g: Seq<Vec<Cell>>,
    f: spec_fn(Cell) -> bool,
    y: int,
    x: int,
    c: Cell,
    row2: Vec<Cell>,
)
    requires
        0 <= y < g.len(),
        0 <= x < g[y]@.len(),
        row2@ == g[y]@.update(x, c),
    ensures
        grid_count(g.update(y, row2), f) + (if f(g[y]@[x]) {
            1nat
        } else {
            0nat
        }) == grid_count(g, f) + (if f(c) {
            1nat
        } else {
            0nat
        }),
{
    lemma_row_count_update(g[y]@, f, x, c);
    lemma_grid_count_update(g, f, y, row2);
}

/// A row none of whose cells satisfies `f` counts zero.
pub proof fn lemma_row_count_zero(row: Seq<Cell>, f: spec_fn(Cell) -> bool)
    requires
        forall|x: int| 0 <= x < row.len() ==> !f(#[trigger] row[x]),
    ensures
        row_count(row, f) == 0,
    decreases row.len(),
{
    if row.len() > 0 {
        lemma_row_count_zero(row.drop_last(), f);
    }
}

/// A board none of whose cells satisfies `f` counts zero.
pub proof fn lemma_grid_count_zero(g: Seq<Vec<Cell>>, f: spec_fn(Cell) -> bool)
    requires
        forall|y: int, x: int|
            0 <= y < g.len() && 0 <= x < g[y]@.len() ==> !f(#[trigger] g[y]@[x]),
    ensures
        grid_count(g, f) == 0,
    decreases g.len(),
{
    if g.len() > 0 {
        lemma_row_count_zero(g.last()@, f);
        lemma_grid_count_zero(g.drop_last(), f);
    }
}

/// Replacing the one cell `(x, y)` of the board with `c` moves the
/// closed-empty count by the two cells' worth.
pub proof fn lemma_closed_empty_count_set_cell(
    g: Seq<Vec<Cell>>,
    y: int,
    x: int,
    c: Cell,
    row2: Vec<Cell>,
)
    requires
        0 <= y < g.len(),
        0 <= x < g[y]@.len(),
        row2@ == g[y]@.update(x, c),
    ensures
        closed_empty_count(g.update(y, row2)) + (if is_closed_empty(g[y]@[x]) {
            1nat
        } else {
            0nat
        }) == closed_empty_count(g) + (if is_closed_empty(c) {
            1nat
        } else {
            0nat
        }),
{
    lemma_grid_count_set_cell(g, |cc: Cell| is_closed_empty(cc), y, x, c, row2);
}

/// Replacing the one cell `(x, y)` of the board with `c` moves the mine
/// count by the two cells' worth.
pub proof fn lemma_bomb_count_set_cell(g: Seq<Vec<Cell>>, y: int, x: int, c: Cell, row2: Vec<Cell>)
    requires
        0 <= y < g.len(),
        0 <= x < g[y]@.len(),
        row2@ == g[y]@.update(x, c),
    ensures
        bomb_count(g.update(y, row2)) + (if is_bomb(g[y]@[x]) {
            1nat
        } else {
            0nat
        }) == bomb_count(g) + (if is_bomb(c) {
            1nat
        } else {
            0nat
        }),
{
    lemma_grid_count_set_cell(g, |cc: Cell| is_bomb(cc), y, x, c, row2);
}

/// A board with a mine nowhere counts zero mines.
pub proof fn lemma_bomb_count_zero(g: Seq<Vec<Cell>>)
    requires
        forall|y: int, x: int|
            0 <= y < g.len() && 0 <= x < g[y]@.len() ==> !is_bomb(#[trigger] g[y]@[x]),
    ensures
        bomb_count(g) == 0,
{
    lemma_grid_count_zero(g, |cc: Cell| is_bomb(cc));
}


/// Two rows whose cells agree under `f` cell by cell count the same.
pub proof fn lemma_row_count_congruence(r1: Seq<Cell>, r2: Seq<Cell>, f: spec_fn(Cell) -> bool)
    requires
        r1.len() == r2.len(),
        forall|x: int| 0 <= x < r1.len() ==> f(#[trigger] r1[x]) == f(r2[x]),
    ensures
        row_count(r1, f) == row_count(r2, f),
    decreases r1.len(),
{
    if r1.len() > 0 {
        lemma_row_count_congruence(r1.drop_last(), r2.drop_last(), f);
    }
}

/// Two boards whose cells agree under `f` cell by cell count the same.
pub proof fn lemma_grid_count_congruence(
    g1: Seq<Vec<Cell>>,
    g2: Seq<Vec<Cell>>,
    f: spec_fn(Cell) -> bool,
)
    requires
        g1.len() == g2.len(),
        forall|y: int| 0 <= y < g1.len() ==> (#[trigger] g1[y])@.len() == g2[y]@.len(),
        forall|y: int, x: int|
            0 <= y < g1.len() && 0 <= x < g1[y]@.len() ==> f(#[trigger] g1[y]@[x]) == f(g2[y]@[x]),
    ensures
        grid_count(g1, f) == grid_count(g2, f),
    decreases g1.len(),
{
    if g1.len() > 0 {
        lemma_row_count_congruence(g1.last()@, g2.last()@, f);
        lemma_grid_count_congruence(g1.drop_last(), g2.drop_last(), f);
    }
}

/// Two boards of equal shape agreeing on every cell's value hold the same
/// number of mines.
pub proof fn lemma_bomb_count_congruence(g1: Seq<Vec<Cell>>, g2: Seq<Vec<Cell>>)
    requires
        g1.len() == g2.len(),
        forall|y: int| 0 <= y < g1.len() ==> (#[trigger] g1[y])@.len() == g2[y]@.len(),
        forall|y: int, x: int|
            0 <= y < g1.len() && 0 <= x < g1[y]@.len() ==> (#[trigger] g1[y]@[x]).value
                == g2[y]@[x].value,
    ensures
        bomb_count(g1) == bomb_count(g2),
{
    lemma_grid_count_congruence(g1, g2, |cc: Cell| is_bomb(cc));
}

} // verus!
