//! Operations on the board itself: building an all-concealed grid, toggling
//! flags, revealing cells (with the flood fill for zero-adjacency areas),
//! revealing every mine on a loss, and placing mines outside the first
//! click's safe zone.

use vstd::prelude::*;

use crate::counting::{bomb_count, closed_empty_count, is_closed_empty};
use crate::game_types::{Cell, CellState, CellValue, GameSettings, Vec2};
use crate::game_utils::{
    bombs_around, cell_at, get_bombs_around, get_neighbours, in_bounds,
    lemma_bombs_around_same_values, lemma_neighbours_valid, neighbours_spec, wf_grid,
};

verus! {

/// Both boards assign every cell the same value; only visible states may
/// differ.
pub open spec fn values_unchanged(g0: Seq<Vec<Cell>>, g1: Seq<Vec<Cell>>, game_size: Vec2) -> bool {
    forall|q: Vec2|
        in_bounds(game_size, q) ==> (#[trigger] cell_at(g1, q)).value == cell_at(g0, q).value
}

/// Both boards agree on every cell.
pub open spec fn same_cells(g0: Seq<Vec<Cell>>, g1: Seq<Vec<Cell>>, game_size: Vec2) -> bool {
    forall|q: Vec2| in_bounds(game_size, q) ==> #[trigger] cell_at(g1, q) == cell_at(g0, q)
}

/// What revealing all mines does to one cell: a mine is opened, anything
/// else keeps its state.
pub open spec fn mine_reveal_cell(c: Cell) -> Cell {
    Cell {
        state: if c.value == CellValue::Bomb {
            CellState::Opened
        } else {
            c.state
        },
        value: c.value,
    }
}

fn get_cell(cells: &Vec<Vec<Cell>>, p: &Vec2) -> (c: Cell)
    requires
        p.y < cells@.len(),
        p.x < cells@[p.y as int]@.len(),
    ensures
        c == cell_at(cells@, *p),
{
    let row = &cells[p.y as usize];
    row[p.x as usize]
}

fn set_cell(cells: &mut Vec<Vec<Cell>>, p: &Vec2, c: Cell)
    requires
        p.y < old(cells)@.len(),
        p.x < old(cells)@[p.y as int]@.len(),
    ensures
        final(cells)@ == old(cells)@.update(p.y as int, final(cells)@[p.y as int]),
        final(cells)@[p.y as int]@ == old(cells)@[p.y as int]@.update(p.x as int, c),
        final(cells)@.len() == old(cells)@.len(),
        forall|i: int|
            0 <= i < old(cells)@.len() ==> (#[trigger] final(cells)@[i])@.len() == old(
                cells,
            )@[i]@.len(),
        cell_at(final(cells)@, *p) == c,
        forall|q: Vec2|
            q.y < old(cells)@.len() && q.x < old(cells)@[q.y as int]@.len() && q != *p
                ==> #[trigger] cell_at(final(cells)@, q) == cell_at(old(cells)@, q),
{
    let y = p.y as usize;
    let x = p.x as usize;
    let row = &mut cells[y];
    row.set(x, c);
}

/// A fresh board of the settings' size: every cell concealed, no mines yet
/// (mines are placed only after the first reveal).
pub fn generate_empty_cells(game_settings: &GameSettings) -> (cells: Vec<Vec<Cell>>)
    ensures
        wf_grid(cells@, game_settings.size),
        forall|q: Vec2|
            in_bounds(game_settings.size, q) ==> #[trigger] cell_at(cells@, q) == (Cell {
                state: CellState::Closed,
                value: CellValue::Empty,
            }),
{
    let mut cells: Vec<Vec<Cell>> = Vec::new();
    let mut y: u16 = 0;
    while y < game_settings.size.y
        invariant
            y <= game_settings.size.y,
            cells@.len() == y,
            forall|i: int|
                0 <= i < y ==> (#[trigger] cells@[i])@.len() == game_settings.size.x,
            forall|i: int, j: int|
                0 <= i < y && 0 <= j < game_settings.size.x ==> #[trigger] cells@[i]@[j] == (Cell {
                    state: CellState::Closed,
                    value: CellValue::Empty,
                }),
        decreases game_settings.size.y - y,
    {
        let mut row: Vec<Cell> = Vec::new();
        let mut x: u16 = 0;
        while x < game_settings.size.x
            invariant
                x <= game_settings.size.x,
                row@.len() == x,
                forall|j: int|
                    0 <= j < x ==> #[trigger] row@[j] == (Cell {
                        state: CellState::Closed,
                        value: CellValue::Empty,
                    }),
            decreases game_settings.size.x - x,
        {
            row.push(Cell { state: CellState::Closed, value: CellValue::Empty });
            x = x + 1;
        }
        cells.push(row);
        y = y + 1;
    }
    cells
}

/// What one flag action does to a cell's visible state: closed and flagged
/// swap, an opened cell is left alone.
pub open spec fn flag_flip(s: CellState) -> CellState {
    match s {
        CellState::Closed => CellState::Flagged,
        CellState::Flagged => CellState::Closed,
        CellState::Opened => CellState::Opened,
    }
}

/// The whole effect of one flag action at `p`: that cell's state flipped per
/// `flag_flip`, its value kept, and every other cell untouched.
pub open spec fn flag_rel(g0: Seq<Vec<Cell>>, g1: Seq<Vec<Cell>>, game_size: Vec2, p: Vec2) -> bool {
    &&& wf_grid(g1, game_size)
    &&& cell_at(g1, p) == (Cell {
        state: flag_flip(cell_at(g0, p).state),
        value: cell_at(g0, p).value,
    })
    &&& forall|q: Vec2|
        in_bounds(game_size, q) && q != p ==> #[trigger] cell_at(g1, q) == cell_at(g0, q)
}

/// Toggles the flag on the cell at `position`: a closed cell becomes
/// flagged, a flagged one closed, and an opened one is left as it is.
pub fn flag_cell(cells: &mut Vec<Vec<Cell>>, game_size: &Vec2, position: &Vec2)
    requires
        wf_grid(old(cells)@, *game_size),
        in_bounds(*game_size, *position),
    ensures
        flag_rel(old(cells)@, final(cells)@, *game_size, *position),
{
    let c = get_cell(cells, position);
    let new_state = match c.state {
        CellState::Closed => CellState::Flagged,
        CellState::Flagged => CellState::Closed,
        CellState::Opened => CellState::Opened,
    };
    set_cell(cells, position, Cell { state: new_state, value: c.value });
}

/// Law: flagging any cell twice restores every cell of the board, and
/// flagging an opened cell changes no cell at all.
pub proof fn lemma_flag_toggle_round_trip(
    g0: Seq<Vec<Cell>>,
    g1: Seq<Vec<Cell>>,
    g2: Seq<Vec<Cell>>,
    game_size: Vec2,
    p: Vec2,
)
    requires
        wf_grid(g0, game_size),
        in_bounds(game_size, p),
        flag_rel(g0, g1, game_size, p),
        flag_rel(g1, g2, game_size, p),
    ensures
        same_cells(g0, g2, game_size),
        cell_at(g0, p).state == CellState::Opened ==> same_cells(g0, g1, game_size),
{
}

/// Opens every mine on the board, leaving all other cells as they were: the
/// player has lost and the whole minefield is shown.
pub fn open_all_mines(cells: &mut Vec<Vec<Cell>>, game_size: &Vec2)
    requires
        wf_grid(old(cells)@, *game_size),
    ensures
        wf_grid(final(cells)@, *game_size),
        forall|q: Vec2|
            in_bounds(*game_size, q) ==> #[trigger] cell_at(final(cells)@, q) == mine_reveal_cell(
                cell_at(old(cells)@, q),
            ),
{
    let ghost g0 = old(cells)@;
    let mut y: u16 = 0;
    while y < game_size.y
        invariant
            y <= game_size.y,
            wf_grid(cells@, *game_size),
            forall|q: Vec2|
                in_bounds(*game_size, q) && q.y < y ==> #[trigger] cell_at(cells@, q)
                    == mine_reveal_cell(cell_at(g0, q)),
            forall|q: Vec2|
                in_bounds(*game_size, q) && q.y >= y ==> #[trigger] cell_at(cells@, q) == cell_at(
                    g0,
                    q,
                ),
        decreases game_size.y - y,
    {
        let mut x: u16 = 0;
        while x < game_size.x
            invariant
                y < game_size.y,
                x <= game_size.x,
                wf_grid(cells@, *game_size),
                forall|q: Vec2|
                    in_bounds(*game_size, q) && (q.y < y || (q.y == y && q.x < x))
                        ==> #[trigger] cell_at(cells@, q) == mine_reveal_cell(cell_at(g0, q)),
                forall|q: Vec2|
                    in_bounds(*game_size, q) && (q.y > y || (q.y == y && q.x >= x))
                        ==> #[trigger] cell_at(cells@, q) == cell_at(g0, q),
            decreases game_size.x - x,
        {
            let p = Vec2 { x, y };
            let c = get_cell(cells, &p);
            if c.value == CellValue::Bomb {
                set_cell(cells, &p, Cell { state: CellState::Opened, value: c.value });
            }
            x = x + 1;
        }
        y = y + 1;
    }
}


/// Position `p` has settled: if no mine lies next to `p`, none of its
/// neighbours is still closed.
#[verifier::opaque]
pub open spec fn flood_settled(g: Seq<Vec<Cell>>, game_size: Vec2, p: Vec2) -> bool {
    bombs_around(g, game_size, p) == 0 ==> forall|i: int|
        0 <= i < neighbours_spec(game_size, p).len() ==> cell_at(
            g,
            #[trigger] neighbours_spec(game_size, p)[i],
        ).state != CellState::Closed
}

/// The cell at `q` was opened for a reason: right next to it stands an
/// opened, mine-free cell `m` with no mine around it, and `m` is the
/// revealed position itself or was opened by the same reveal (`g0` is the
/// board before the reveal, `g1` after; values never change, so `m`'s
/// adjacent-mine count is read off `g0`).
#[verifier::opaque]
pub open spec fn flood_justified(
    g0: Seq<Vec<Cell>>,
    g1: Seq<Vec<Cell>>,
    game_size: Vec2,
    pos: Vec2,
    q: Vec2,
) -> bool {
    exists|m: Vec2|
        in_bounds(game_size, m) && #[trigger] neighbours_spec(game_size, m).contains(q)
            && bombs_around(g0, game_size, m) == 0 && cell_at(g1, m).state == CellState::Opened
            && cell_at(g1, m).value == CellValue::Empty && (m == pos || cell_at(g0, m).state
            != CellState::Opened)
}

/// A chain of neighbouring positions leading from `pos` to `q` through the
/// mine-free, zero-adjacency area of `g`: each entry is a neighbour of the
/// one before it, and every entry but the last lies on the board, hides no
/// mine, and has no mine beside it (the last may be a numbered boundary
/// cell). Only values and adjacency counts are read, never states.
pub open spec fn zero_chain(
    g: Seq<Vec<Cell>>,
    game_size: Vec2,
    path: Seq<Vec2>,
    pos: Vec2,
    q: Vec2,
) -> bool {
    &&& path.len() >= 1
    &&& path[0] == pos
    &&& path.last() == q
    &&& forall|i: int|
        0 <= i < path.len() - 1 ==> neighbours_spec(game_size, #[trigger] path[i]).contains(
            path[i + 1],
        )
    &&& forall|i: int|
        0 <= i < path.len() - 1 ==> in_bounds(game_size, #[trigger] path[i]) && cell_at(
            g,
            path[i],
        ).value == CellValue::Empty && bombs_around(g, game_size, path[i]) == 0
}

/// `q` can be reached from `pos` without leaving the zero-adjacency area.
/// Chains read values only, never states, so this bounds from above what a
/// flood fill may open beyond the clicked cell itself.
#[verifier::opaque]
pub open spec fn zero_reachable(g: Seq<Vec<Cell>>, game_size: Vec2, pos: Vec2, q: Vec2) -> bool {
    exists|path: Seq<Vec2>| zero_chain(g, game_size, path, pos, q)
}

/// A chain from `pos` to the zero-adjacency cell `p` grows by one step to
/// any neighbour of `p`.
proof fn lemma_zero_chain_extend(
    g: Seq<Vec<Cell>>,
    game_size: Vec2,
    path: Seq<Vec2>,
    pos: Vec2,
    p: Vec2,
    q: Vec2,
)
    requires
        zero_chain(g, game_size, path, pos, p),
        in_bounds(game_size, p),
        cell_at(g, p).value == CellValue::Empty,
        bombs_around(g, game_size, p) == 0,
        neighbours_spec(game_size, p).contains(q),
    ensures
        zero_chain(g, game_size, path.push(q), pos, q),
{
    let p2 = path.push(q);
    assert(p2.last() == q);
    assert(p2[0] == pos);
    assert forall|i: int| 0 <= i < p2.len() - 1 implies neighbours_spec(
        game_size,
        #[trigger] p2[i],
    ).contains(p2[i + 1]) by {
        if i < path.len() - 1 {
            assert(p2[i] == path[i] && p2[i + 1] == path[i + 1]);
        } else {
            assert(p2[i] == path.last() && p2[i + 1] == q);
        }
    }
    assert forall|i: int| 0 <= i < p2.len() - 1 implies in_bounds(game_size, #[trigger] p2[i])
        && cell_at(g, p2[i]).value == CellValue::Empty && bombs_around(g, game_size, p2[i])
        == 0 by {
        if i < path.len() - 1 {
            assert(p2[i] == path[i]);
        } else {
            assert(p2[i] == path.last());
        }
    }
}

/// Reachability reads only values and adjacency counts, which revealing
/// and flagging never change.
proof fn lemma_zero_reachable_same_values(
    g1: Seq<Vec<Cell>>,
    g2: Seq<Vec<Cell>>,
    game_size: Vec2,
    pos: Vec2,
    q: Vec2,
)
    requires
        wf_grid(g1, game_size),
        wf_grid(g2, game_size),
        values_unchanged(g1, g2, game_size),
        zero_reachable(g1, game_size, pos, q),
    ensures
        zero_reachable(g2, game_size, pos, q),
{
    reveal(zero_reachable);
    let path = choose|path: Seq<Vec2>| zero_chain(g1, game_size, path, pos, q);
    assert forall|i: int| 0 <= i < path.len() - 1 implies in_bounds(game_size, #[trigger] path[i])
        && cell_at(g2, path[i]).value == CellValue::Empty && bombs_around(
        g2,
        game_size,
        path[i],
    ) == 0 by {
        assert(cell_at(g2, path[i]).value == cell_at(g1, path[i]).value);
        lemma_bombs_around_same_values(g1, g2, game_size, path[i]);
    }
    assert(zero_chain(g2, game_size, path, pos, q));
}

/// A board that only opens cells keeps every settled position settled.
proof fn lemma_settled_monotone(g1: Seq<Vec<Cell>>, g2: Seq<Vec<Cell>>, game_size: Vec2, r: Vec2)
    requires
        wf_grid(g1, game_size),
        wf_grid(g2, game_size),
        in_bounds(game_size, r),
        values_unchanged(g1, g2, game_size),
        forall|s: Vec2|
            in_bounds(game_size, s) && cell_at(g1, s).state != CellState::Closed ==> (
            #[trigger] cell_at(g2, s)).state != CellState::Closed,
        flood_settled(g1, game_size, r),
    ensures
        flood_settled(g2, game_size, r),
{
    reveal(flood_settled);
    lemma_bombs_around_same_values(g1, g2, game_size, r);
    lemma_neighbours_valid(game_size, r);
    if bombs_around(g2, game_size, r) == 0 {
        assert forall|k: int| 0 <= k < neighbours_spec(game_size, r).len() implies cell_at(
            g2,
            #[trigger] neighbours_spec(game_size, r)[k],
        ).state != CellState::Closed by {
            let nb = neighbours_spec(game_size, r)[k];
            assert(in_bounds(game_size, nb));
            assert(cell_at(g1, nb).state != CellState::Closed);
        }
    }
}

/// A board that keeps values and only opens cells keeps every justified
/// opening justified.
proof fn lemma_justified_monotone(
    g0: Seq<Vec<Cell>>,
    g1: Seq<Vec<Cell>>,
    g2: Seq<Vec<Cell>>,
    game_size: Vec2,
    pos: Vec2,
    r: Vec2,
)
    requires
        values_unchanged(g1, g2, game_size),
        forall|s: Vec2|
            in_bounds(game_size, s) && cell_at(g1, s).state == CellState::Opened ==> (
            #[trigger] cell_at(g2, s)).state == CellState::Opened,
        flood_justified(g0, g1, game_size, pos, r),
    ensures
        flood_justified(g0, g2, game_size, pos, r),
{
    reveal(flood_justified);
    let m = choose|m: Vec2|
        in_bounds(game_size, m) && #[trigger] neighbours_spec(game_size, m).contains(r)
            && bombs_around(g0, game_size, m) == 0 && cell_at(g1, m).state == CellState::Opened
            && cell_at(g1, m).value == CellValue::Empty && (m == pos || cell_at(g0, m).state
            != CellState::Opened);
    assert(cell_at(g2, m).state == CellState::Opened && cell_at(g2, m).value == CellValue::Empty);
}

/// One flood step: the closed, mine-free cell `q` beside the zero-adjacency
/// cell `p` is opened and put on the work list. Every loop invariant of the
/// flood survives. `g_old` is the board at the start of the whole reveal,
/// `gb`/`ga` the boards before and after this opening, `sb`/`sa` the work
/// list before and after the push.
proof fn lemma_flood_push_step(
    g_old: Seq<Vec<Cell>>,
    gb: Seq<Vec<Cell>>,
    ga: Seq<Vec<Cell>>,
    sb: Seq<Vec2>,
    sa: Seq<Vec2>,
    game_size: Vec2,
    pos: Vec2,
    p: Vec2,
    q: Vec2,
)
    requires
        wf_grid(g_old, game_size),
        wf_grid(gb, game_size),
        wf_grid(ga, game_size),
        in_bounds(game_size, pos),
        in_bounds(game_size, p),
        in_bounds(game_size, q),
        neighbours_spec(game_size, p).contains(q),
        bombs_around(g_old, game_size, p) == 0,
        cell_at(gb, p).state == CellState::Opened,
        cell_at(gb, p).value == CellValue::Empty,
        p == pos || cell_at(g_old, p).state != CellState::Opened,
        p == pos || zero_reachable(g_old, game_size, pos, p),
        cell_at(gb, q).state == CellState::Closed,
        cell_at(gb, q).value == CellValue::Empty,
        cell_at(ga, q) == (Cell { state: CellState::Opened, value: CellValue::Empty }),
        forall|r: Vec2|
            in_bounds(game_size, r) && r != q ==> #[trigger] cell_at(ga, r) == cell_at(gb, r),
        sa == sb.push(q),
        forall|k: int|
            0 <= k < sb.len() ==> in_bounds(game_size, #[trigger] sb[k]) && cell_at(
                gb,
                sb[k],
            ).state == CellState::Opened && cell_at(gb, sb[k]).value == CellValue::Empty && (sb[k]
                == pos || cell_at(g_old, sb[k]).state != CellState::Opened) && (sb[k] == pos
                || zero_reachable(g_old, game_size, pos, sb[k])),
        values_unchanged(g_old, gb, game_size),
        forall|r: Vec2|
            in_bounds(game_size, r) && #[trigger] cell_at(gb, r) != cell_at(g_old, r)
                ==> is_closed_empty(cell_at(g_old, r)) && cell_at(gb, r) == (Cell {
                state: CellState::Opened,
                value: CellValue::Empty,
            }),
        forall|r: Vec2|
            #![trigger cell_at(gb, r)]
            in_bounds(game_size, r) && (r == pos || (cell_at(g_old, r).state != CellState::Opened
                && cell_at(gb, r).state == CellState::Opened)) && cell_at(gb, r).value
                == CellValue::Empty ==> (sb.contains(r) || flood_settled(gb, game_size, r) || r
                == p),
        forall|r: Vec2|
            in_bounds(game_size, r) && r != pos && #[trigger] cell_at(gb, r) != cell_at(g_old, r)
                ==> flood_justified(g_old, gb, game_size, pos, r) && zero_reachable(
                g_old,
                game_size,
                pos,
                r,
            ),
    ensures
        forall|k: int|
            0 <= k < sa.len() ==> in_bounds(game_size, #[trigger] sa[k]) && cell_at(
                ga,
                sa[k],
            ).state == CellState::Opened && cell_at(ga, sa[k]).value == CellValue::Empty && (sa[k]
                == pos || cell_at(g_old, sa[k]).state != CellState::Opened) && (sa[k] == pos
                || zero_reachable(g_old, game_size, pos, sa[k])),
        values_unchanged(g_old, ga, game_size),
        forall|r: Vec2|
            in_bounds(game_size, r) && #[trigger] cell_at(ga, r) != cell_at(g_old, r)
                ==> is_closed_empty(cell_at(g_old, r)) && cell_at(ga, r) == (Cell {
                state: CellState::Opened,
                value: CellValue::Empty,
            }),
        forall|r: Vec2|
            #![trigger cell_at(ga, r)]
            in_bounds(game_size, r) && (r == pos || (cell_at(g_old, r).state != CellState::Opened
                && cell_at(ga, r).state == CellState::Opened)) && cell_at(ga, r).value
                == CellValue::Empty ==> (sa.contains(r) || flood_settled(ga, game_size, r) || r
                == p),
        forall|r: Vec2|
            in_bounds(game_size, r) && r != pos && #[trigger] cell_at(ga, r) != cell_at(g_old, r)
                ==> flood_justified(g_old, ga, game_size, pos, r) && zero_reachable(
                g_old,
                game_size,
                pos,
                r,
            ),
        cell_at(ga, p).state == CellState::Opened,
        cell_at(ga, p).value == CellValue::Empty,
{
    assert(p != q);
    assert(cell_at(g_old, q) == cell_at(gb, q));
    assert(cell_at(g_old, p).value == CellValue::Empty);
    assert(zero_reachable(g_old, game_size, pos, q)) by {
        reveal(zero_reachable);
        if p == pos {
            let path0 = seq![pos, q];
            assert(path0.last() == q);
            assert(path0[0] == pos);
            assert(zero_chain(g_old, game_size, path0, pos, q)) by {
                assert(path0[0] == pos && path0[1] == q);
            }
        } else {
            let path = choose|path: Seq<Vec2>| zero_chain(g_old, game_size, path, pos, p);
            lemma_zero_chain_extend(g_old, game_size, path, pos, p, q);
            assert(zero_chain(g_old, game_size, path.push(q), pos, q));
        }
    }
    assert(flood_justified(g_old, ga, game_size, pos, q)) by {
        reveal(flood_justified);
        assert(cell_at(ga, p) == cell_at(gb, p));
        assert(in_bounds(game_size, p) && neighbours_spec(game_size, p).contains(q)
            && bombs_around(g_old, game_size, p) == 0 && cell_at(ga, p).state
            == CellState::Opened && cell_at(ga, p).value == CellValue::Empty && (p == pos
            || cell_at(g_old, p).state != CellState::Opened));
    }
    assert forall|k: int| 0 <= k < sa.len() implies in_bounds(game_size, #[trigger] sa[k])
        && cell_at(ga, sa[k]).state == CellState::Opened && cell_at(ga, sa[k]).value
        == CellValue::Empty && (sa[k] == pos || cell_at(g_old, sa[k]).state
        != CellState::Opened) by {
        if k < sb.len() {
            assert(sa[k] == sb[k]);
            assert(sb[k] != q);
        } else {
            assert(sa[k] == q);
        }
    }
    assert forall|r: Vec2|
        #![trigger cell_at(ga, r)]
        in_bounds(game_size, r) && (r == pos || (cell_at(g_old, r).state != CellState::Opened
            && cell_at(ga, r).state == CellState::Opened)) && cell_at(ga, r).value
            == CellValue::Empty implies (sa.contains(r) || flood_settled(ga, game_size, r) || r
        == p) by {
        if r == q {
            assert(sa[sa.len() - 1] == r);
        } else {
            assert(cell_at(ga, r) == cell_at(gb, r));
            if sb.contains(r) {
                let j = choose|j: int| 0 <= j < sb.len() && sb[j] == r;
                assert(sa[j] == r);
            } else if r != p && flood_settled(gb, game_size, r) {
                lemma_settled_monotone(gb, ga, game_size, r);
            }
        }
    }
    assert forall|r: Vec2|
        in_bounds(game_size, r) && r != pos && #[trigger] cell_at(ga, r) != cell_at(
            g_old,
            r,
        ) implies flood_justified(g_old, ga, game_size, pos, r) && zero_reachable(
        g_old,
        game_size,
        pos,
        r,
    ) by {
        if r == q {
        } else {
            assert(cell_at(ga, r) == cell_at(gb, r));
            lemma_justified_monotone(g_old, gb, ga, game_size, pos, r);
        }
    }
}

/// The flood fill behind `open_cell`, run once the already-opened,
/// mine-free cell at `position` turns out to have no mine beside it: an
/// explicit work list of opened cells is drained, and each cell popped with
/// no mine around it opens all its still-closed, mine-free neighbours and
/// queues them in turn. Flagged cells are never touched.
#[verifier::rlimit(100)]
fn flood(cells: &mut Vec<Vec<Cell>>, game_size: &Vec2, position: &Vec2)
    requires
        wf_grid(old(cells)@, *game_size),
        in_bounds(*game_size, *position),
        cell_at(old(cells)@, *position).state == CellState::Opened,
        cell_at(old(cells)@, *position).value == CellValue::Empty,
        bombs_around(old(cells)@, *game_size, *position) == 0,
    ensures
        wf_grid(final(cells)@, *game_size),
        values_unchanged(old(cells)@, final(cells)@, *game_size),
        forall|q: Vec2|
            in_bounds(*game_size, q) && #[trigger] cell_at(final(cells)@, q) != cell_at(
                old(cells)@,
                q,
            ) ==> is_closed_empty(cell_at(old(cells)@, q)) && cell_at(final(cells)@, q) == (Cell {
                state: CellState::Opened,
                value: CellValue::Empty,
            }),
        forall|q: Vec2|
            #![trigger cell_at(final(cells)@, q)]
            in_bounds(*game_size, q) && (q == *position || (cell_at(old(cells)@, q).state
                != CellState::Opened && cell_at(final(cells)@, q).state == CellState::Opened))
                && cell_at(final(cells)@, q).value == CellValue::Empty ==> flood_settled(
                final(cells)@,
                *game_size,
                q,
            ),
        forall|q: Vec2|
            in_bounds(*game_size, q) && q != *position && #[trigger] cell_at(final(cells)@, q)
                != cell_at(old(cells)@, q) ==> flood_justified(
                old(cells)@,
                final(cells)@,
                *game_size,
                *position,
                q,
            ) && zero_reachable(old(cells)@, *game_size, *position, q),
{
    let mut stack: Vec<Vec2> = Vec::new();
    stack.push(*position);
    proof {
        assert(stack@[0] == *position);
        assert(stack@.contains(*position));
    }
    while stack.len() != 0
        invariant
            wf_grid(old(cells)@, *game_size),
            in_bounds(*game_size, *position),
            cell_at(old(cells)@, *position).state == CellState::Opened,
            cell_at(old(cells)@, *position).value == CellValue::Empty,
            bombs_around(old(cells)@, *game_size, *position) == 0,
            wf_grid(cells@, *game_size),
            forall|k: int|
                0 <= k < stack@.len() ==> in_bounds(*game_size, #[trigger] stack@[k]) && cell_at(
                    cells@,
                    stack@[k],
                ).state == CellState::Opened && cell_at(cells@, stack@[k]).value
                    == CellValue::Empty && (stack@[k] == *position || cell_at(
                    old(cells)@,
                    stack@[k],
                ).state != CellState::Opened) && (stack@[k] == *position || zero_reachable(
                    old(cells)@,
                    *game_size,
                    *position,
                    stack@[k],
                )),
            values_unchanged(old(cells)@, cells@, *game_size),
            forall|q: Vec2|
                in_bounds(*game_size, q) && #[trigger] cell_at(cells@, q) != cell_at(
                    old(cells)@,
                    q,
                ) ==> is_closed_empty(cell_at(old(cells)@, q)) && cell_at(cells@, q) == (Cell {
                    state: CellState::Opened,
                    value: CellValue::Empty,
                }),
            forall|q: Vec2|
                #![trigger cell_at(cells@, q)]
                in_bounds(*game_size, q) && (q == *position || (cell_at(old(cells)@, q).state
                    != CellState::Opened && cell_at(cells@, q).state == CellState::Opened))
                    && cell_at(cells@, q).value == CellValue::Empty ==> (stack@.contains(q)
                    || flood_settled(cells@, *game_size, q)),
            forall|q: Vec2|
                in_bounds(*game_size, q) && q != *position && #[trigger] cell_at(cells@, q)
                    != cell_at(old(cells)@, q) ==> flood_justified(
                    old(cells)@,
                    cells@,
                    *game_size,
                    *position,
                    q,
                ) && zero_reachable(old(cells)@, *game_size, *position, q),
        decreases closed_empty_count(cells@) + stack@.len(),
    {
        let ghost m0: nat = closed_empty_count(cells@) + stack@.len();
        let ghost sb0: Seq<Vec2> = stack@;
        let p = stack.pop().unwrap();
        proof {
            assert(sb0[sb0.len() - 1] == p);
            assert forall|r: Vec2| sb0.contains(r) && r != p implies stack@.contains(r) by {
                let j = choose|j: int| 0 <= j < sb0.len() && sb0[j] == r;
                assert(stack@[j] == r);
            }
        }
        let n = get_bombs_around(game_size, &p, cells);
        if n == 0 {
            proof {
                lemma_bombs_around_same_values(old(cells)@, cells@, *game_size, p);
            }
            let neighbours_pos = get_neighbours(game_size, &p);
            proof {
                lemma_neighbours_valid(*game_size, p);
            }
            let mut i: usize = 0;
            while i < neighbours_pos.len()
                invariant
                    wf_grid(old(cells)@, *game_size),
                    in_bounds(*game_size, *position),
                    cell_at(old(cells)@, *position).state == CellState::Opened,
                    cell_at(old(cells)@, *position).value == CellValue::Empty,
                    bombs_around(old(cells)@, *game_size, *position) == 0,
                    i <= neighbours_pos@.len(),
                    neighbours_pos@ == neighbours_spec(*game_size, p),
                    in_bounds(*game_size, p),
                    bombs_around(old(cells)@, *game_size, p) == 0,
                    p == *position || cell_at(old(cells)@, p).state != CellState::Opened,
                    wf_grid(cells@, *game_size),
                    forall|k: int|
                        0 <= k < stack@.len() ==> in_bounds(*game_size, #[trigger] stack@[k])
                            && cell_at(cells@, stack@[k]).state == CellState::Opened && cell_at(
                            cells@,
                            stack@[k],
                        ).value == CellValue::Empty && (stack@[k] == *position || cell_at(
                            old(cells)@,
                            stack@[k],
                        ).state != CellState::Opened) && (stack@[k] == *position
                            || zero_reachable(old(cells)@, *game_size, *position, stack@[k])),
                    values_unchanged(old(cells)@, cells@, *game_size),
                    forall|q: Vec2|
                        in_bounds(*game_size, q) && #[trigger] cell_at(cells@, q) != cell_at(
                            old(cells)@,
                            q,
                        ) ==> is_closed_empty(cell_at(old(cells)@, q)) && cell_at(cells@, q)
                            == (Cell { state: CellState::Opened, value: CellValue::Empty }),
                    forall|q: Vec2|
                        #![trigger cell_at(cells@, q)]
                        in_bounds(*game_size, q) && (q == *position || (cell_at(
                            old(cells)@,
                            q,
                        ).state != CellState::Opened && cell_at(cells@, q).state
                            == CellState::Opened)) && cell_at(cells@, q).value == CellValue::Empty
                            ==> (stack@.contains(q) || flood_settled(cells@, *game_size, q) || q
                            == p),
                    forall|q: Vec2|
                        in_bounds(*game_size, q) && q != *position && #[trigger] cell_at(cells@, q)
                            != cell_at(old(cells)@, q) ==> flood_justified(
                            old(cells)@,
                            cells@,
                            *game_size,
                            *position,
                            q,
                        ) && zero_reachable(old(cells)@, *game_size, *position, q),
                    forall|j: int|
                        0 <= j < i ==> cell_at(cells@, #[trigger] neighbours_pos@[j]).state
                            != CellState::Closed,
                    cell_at(cells@, p).state == CellState::Opened,
                    cell_at(cells@, p).value == CellValue::Empty,
                    p == *position || zero_reachable(old(cells)@, *game_size, *position, p),
                    closed_empty_count(cells@) + stack@.len() == m0 - 1,
                decreases neighbours_pos@.len() - i,
            {
                let q = neighbours_pos[i];
                proof {
                    lemma_neighbours_valid(*game_size, p);
                    assert(in_bounds(*game_size, q));
                }
                let cq = get_cell(cells, &q);
                proof {
                    if cq.value == CellValue::Bomb {
                        lemma_bombs_around_same_values(old(cells)@, cells@, *game_size, p);
                        crate::game_utils::lemma_bombs_in_positive(
                            cells@,
                            neighbours_spec(*game_size, p),
                            i as int,
                        );
                        assert(false);
                    }
                }
                if cq.state == CellState::Closed && cq.value == CellValue::Empty {
                    let ghost gb: Seq<Vec<Cell>> = cells@;
                    let ghost sb: Seq<Vec2> = stack@;
                    set_cell(cells, &q, Cell { state: CellState::Opened, value: CellValue::Empty });
                    stack.push(q);
                    proof {
                        assert forall|r: Vec2|
                            in_bounds(*game_size, r) && r != q implies #[trigger] cell_at(
                            cells@,
                            r,
                        ) == cell_at(gb, r) by {}
                        crate::counting::lemma_closed_empty_count_set_cell(
                            gb,
                            q.y as int,
                            q.x as int,
                            Cell { state: CellState::Opened, value: CellValue::Empty },
                            cells@[q.y as int],
                        );
                        assert(neighbours_spec(*game_size, p).contains(q)) by {
                            assert(neighbours_spec(*game_size, p)[i as int] == q);
                        }
                        lemma_flood_push_step(
                            old(cells)@,
                            gb,
                            cells@,
                            sb,
                            stack@,
                            *game_size,
                            *position,
                            p,
                            q,
                        );
                        assert forall|j: int|
                            0 <= j < i + 1 implies cell_at(
                            cells@,
                            #[trigger] neighbours_pos@[j],
                        ).state != CellState::Closed by {
                            if neighbours_pos@[j] != q {
                                assert(cell_at(cells@, neighbours_pos@[j]) == cell_at(
                                    gb,
                                    neighbours_pos@[j],
                                ));
                            }
                        }
                    }
                }
                i = i + 1;
            }
            proof {
                assert(flood_settled(cells@, *game_size, p)) by {
                    reveal(flood_settled);
                    lemma_bombs_around_same_values(old(cells)@, cells@, *game_size, p);
                }
            }
        } else {
            proof {
                assert(flood_settled(cells@, *game_size, p)) by {
                    reveal(flood_settled);
                }
            }
        }
    }
}
/// Opens the cell at `position`. A mine means the game is lost: every mine
/// is shown and `true` comes back. Otherwise the cell itself is opened and,
/// when it was not open already and no mine lies around it, the opening
/// floods outward through the closed, mine-free area, one cell at a time
/// from an explicit work list (flagged cells are left alone and stop the
/// spread). Revealing an already-opened cell only recomputes: no other
/// cell changes.
pub fn open_cell(cells: &mut Vec<Vec<Cell>>, game_size: &Vec2, position: &Vec2) -> (lost: bool)
    requires
        wf_grid(old(cells)@, *game_size),
        in_bounds(*game_size, *position),
    ensures
        wf_grid(final(cells)@, *game_size),
        values_unchanged(old(cells)@, final(cells)@, *game_size),
        lost == (cell_at(old(cells)@, *position).value == CellValue::Bomb),
        lost ==> forall|q: Vec2|
            in_bounds(*game_size, q) ==> #[trigger] cell_at(final(cells)@, q) == mine_reveal_cell(
                cell_at(old(cells)@, q),
            ),
        !lost ==> cell_at(final(cells)@, *position) == (Cell {
            state: CellState::Opened,
            value: cell_at(old(cells)@, *position).value,
        }),
        !lost ==> forall|q: Vec2|
            in_bounds(*game_size, q) && q != *position && #[trigger] cell_at(final(cells)@, q)
                != cell_at(old(cells)@, q) ==> is_closed_empty(cell_at(old(cells)@, q)) && cell_at(
                final(cells)@,
                q,
            ) == (Cell { state: CellState::Opened, value: CellValue::Empty }),
        !lost && bombs_around(old(cells)@, *game_size, *position) != 0 ==> forall|q: Vec2|
            in_bounds(*game_size, q) && q != *position ==> #[trigger] cell_at(final(cells)@, q)
                == cell_at(old(cells)@, q),
        !lost ==> forall|q: Vec2|
            #![trigger cell_at(final(cells)@, q)]
            in_bounds(*game_size, q) && cell_at(old(cells)@, q).state != CellState::Opened
                && cell_at(final(cells)@, q).state == CellState::Opened && cell_at(
                final(cells)@,
                q,
            ).value == CellValue::Empty ==> flood_settled(final(cells)@, *game_size, q),
        !lost ==> forall|q: Vec2|
            in_bounds(*game_size, q) && q != *position && #[trigger] cell_at(final(cells)@, q)
                != cell_at(old(cells)@, q) ==> flood_justified(
                old(cells)@,
                final(cells)@,
                *game_size,
                *position,
                q,
            ) && zero_reachable(old(cells)@, *game_size, *position, q),
        !lost && cell_at(old(cells)@, *position).state == CellState::Opened ==> same_cells(
            old(cells)@,
            final(cells)@,
            *game_size,
        ),
{
    let c = get_cell(cells, position);
    if c.value == CellValue::Bomb {
        open_all_mines(cells, game_size);
        return true;
    }
    let ghost g0: Seq<Vec<Cell>> = old(cells)@;
    set_cell(cells, position, Cell { state: CellState::Opened, value: c.value });
    let ghost g1: Seq<Vec<Cell>> = cells@;
    proof {
        assert forall|q: Vec2| in_bounds(*game_size, q) implies (#[trigger] cell_at(g1, q)).value
            == cell_at(g0, q).value by {
            if q != *position {
                assert(cell_at(g1, q) == cell_at(g0, q));
            }
        }
        lemma_bombs_around_same_values(g0, g1, *game_size, *position);
        if c.state == CellState::Opened {
            assert(same_cells(g0, g1, *game_size)) by {
                assert(cell_at(g1, *position) == cell_at(g0, *position));
            }
        }
    }
    let n = get_bombs_around(game_size, position, cells);
    if n == 0 && !(c.state == CellState::Opened) {
        flood(cells, game_size, position);
        proof {
            assert forall|q: Vec2|
                #![trigger cell_at(cells@, q)]
                in_bounds(*game_size, q) && cell_at(g0, q).state != CellState::Opened && cell_at(
                    cells@,
                    q,
                ).state == CellState::Opened && cell_at(cells@, q).value
                    == CellValue::Empty implies flood_settled(cells@, *game_size, q) by {
                if q != *position {
                    assert(cell_at(g1, q) == cell_at(g0, q));
                }
            }
            assert(values_unchanged(g1, g0, *game_size)) by {
                assert forall|q: Vec2| in_bounds(*game_size, q) implies (#[trigger] cell_at(
                    g0,
                    q,
                )).value == cell_at(g1, q).value by {
                    assert(cell_at(g1, q).value == cell_at(g0, q).value);
                }
            }
            assert forall|q: Vec2|
                in_bounds(*game_size, q) && q != *position && #[trigger] cell_at(cells@, q)
                    != cell_at(g0, q) implies is_closed_empty(cell_at(g0, q)) && cell_at(cells@, q)
                == (Cell { state: CellState::Opened, value: CellValue::Empty }) && flood_justified(
                g0,
                cells@,
                *game_size,
                *position,
                q,
            ) && zero_reachable(g0, *game_size, *position, q) by {
                reveal(flood_justified);
                assert(cell_at(g1, q) == cell_at(g0, q));
                assert(cell_at(cells@, q) != cell_at(g1, q));
                assert(flood_justified(g1, cells@, *game_size, *position, q));
                assert(zero_reachable(g1, *game_size, *position, q));
                lemma_zero_reachable_same_values(g1, g0, *game_size, *position, q);
                let m = choose|m: Vec2|
                    in_bounds(*game_size, m) && #[trigger] neighbours_spec(*game_size, m).contains(
                        q,
                    ) && bombs_around(g1, *game_size, m) == 0 && cell_at(cells@, m).state
                        == CellState::Opened && cell_at(cells@, m).value == CellValue::Empty && (m
                        == *position || cell_at(g1, m).state != CellState::Opened);
                lemma_bombs_around_same_values(g0, g1, *game_size, m);
                if m != *position {
                    assert(cell_at(g1, m) == cell_at(g0, m));
                }
                assert(in_bounds(*game_size, m) && neighbours_spec(*game_size, m).contains(q)
                    && bombs_around(g0, *game_size, m) == 0 && cell_at(cells@, m).state
                    == CellState::Opened && cell_at(cells@, m).value == CellValue::Empty && (m
                    == *position || cell_at(g0, m).state != CellState::Opened));
            }
        }
    } else {
        proof {
            assert forall|q: Vec2|
                in_bounds(*game_size, q) && q != *position implies #[trigger] cell_at(cells@, q)
                == cell_at(g0, q) by {
            }
            if c.state != CellState::Opened {
                assert(n != 0);
                assert(flood_settled(cells@, *game_size, *position)) by {
                    reveal(flood_settled);
                }
            }
        }
    }
    false
}

/// `q` lies in the part of the board a row-major scan has already walked:
/// strictly above row `y`, or on row `y` left of column `x`.
spec fn scanned_before(q: Vec2, y: u16, x: u16) -> bool {
    q.y < y || (q.y == y && q.x < x)
}

/// Whether `p` occurs in `list`, comparing both coordinates.
pub fn contains_coord(list: &Vec<Vec2>, p: &Vec2) -> (r: bool)
    ensures
        r == list@.contains(*p),
{
    let mut i: usize = 0;
    while i < list.len()
        invariant
            i <= list@.len(),
            forall|j: int| 0 <= j < i ==> list@[j] != *p,
        decreases list@.len() - i,
    {
        if list[i] == *p {
            proof {
                assert(list@[i as int] == *p);
            }
            return true;
        }
        i = i + 1;
    }
    false
}

/// Scatters `count` mines over the board, each drawn uniformly among the
/// cells outside `excluded` (the first click's safe zone) that hold no mine
/// yet. Cell states are left untouched; the board must start mine-free and
/// have room for every mine outside the exclusion list, which is what makes
/// the placement terminate.
#[verifier::rlimit(100)]
pub fn place_mines(cells: &mut Vec<Vec<Cell>>, game_size: &Vec2, excluded: &Vec<Vec2>, count: u16)
    requires
        wf_grid(old(cells)@, *game_size),
        forall|q: Vec2|
            in_bounds(*game_size, q) ==> (#[trigger] cell_at(old(cells)@, q)).value
                == CellValue::Empty,
        count + excluded@.len() <= game_size.x * game_size.y,
    ensures
        wf_grid(final(cells)@, *game_size),
        bomb_count(final(cells)@) == count,
        forall|q: Vec2|
            in_bounds(*game_size, q) ==> (#[trigger] cell_at(final(cells)@, q)).state == cell_at(
                old(cells)@,
                q,
            ).state,
        forall|q: Vec2|
            in_bounds(*game_size, q) && (#[trigger] cell_at(final(cells)@, q)).value
                == CellValue::Bomb ==> !excluded@.contains(q),
{
    let width = game_size.x;
    let height = game_size.y;
    proof {
        vstd::arithmetic::mul::lemma_mul_upper_bound(width as int, 0xffff, height as int, 0xffff);
    }
    let mut candidates: Vec<Vec2> = Vec::new();
    let ghost mut skipped: Set<int> = Set::empty();
    let mut y: u16 = 0;
    while y < height
        invariant
            width == game_size.x,
            height == game_size.y,
            y <= height,
            skipped.finite(),
            skipped.subset_of(vstd::set_lib::set_int_range(0, excluded@.len() as int)),
            forall|i: int| skipped.contains(i) ==> scanned_before(#[trigger] excluded@[i], y, 0),
            candidates@.len() + skipped.len() == y as int * width as int,
            forall|j: int|
                0 <= j < candidates@.len() ==> in_bounds(*game_size, #[trigger] candidates@[j])
                    && !excluded@.contains(candidates@[j]) && scanned_before(
                    candidates@[j],
                    y,
                    0,
                ),
            candidates@.no_duplicates(),
        decreases height - y,
    {
        let mut x: u16 = 0;
        while x < width
            invariant
                width == game_size.x,
                height == game_size.y,
                y < height,
                x <= width,
                skipped.finite(),
                skipped.subset_of(vstd::set_lib::set_int_range(0, excluded@.len() as int)),
                forall|i: int|
                    skipped.contains(i) ==> scanned_before(#[trigger] excluded@[i], y, x),
                candidates@.len() + skipped.len() == y as int * width as int + x as int,
                forall|j: int|
                    0 <= j < candidates@.len() ==> in_bounds(*game_size, #[trigger] candidates@[j])
                        && !excluded@.contains(candidates@[j]) && scanned_before(
                        candidates@[j],
                        y,
                        x,
                    ),
                candidates@.no_duplicates(),
            decreases width - x,
        {
            let p = Vec2 { x, y };
            let ghost cb_scan: Seq<Vec2> = candidates@;
            if contains_coord(excluded, &p) {
                proof {
                    let i = choose|i: int| 0 <= i < excluded@.len() && excluded@[i] == p;
                    assert(!skipped.contains(i));
                    skipped = skipped.insert(i);
                }
            } else {
                proof {
                    assert(!candidates@.contains(p)) by {
                        if candidates@.contains(p) {
                            let j = choose|j: int|
                                0 <= j < candidates@.len() && candidates@[j] == p;
                        }
                    }
                }
                candidates.push(p);
                proof {
                    assert forall|j: int| 0 <= j < candidates@.len() implies in_bounds(
                        *game_size,
                        #[trigger] candidates@[j],
                    ) && !excluded@.contains(candidates@[j]) && scanned_before(
                        candidates@[j],
                        y,
                        (x + 1) as u16,
                    ) by {
                        if j < cb_scan.len() {
                            assert(candidates@[j] == cb_scan[j]);
                        } else {
                            assert(candidates@[j] == p);
                        }
                    }
                }
            }
            x = x + 1;
        }
        proof {
            assert((y + 1) as int * width as int == y as int * width as int + width as int)
                by (nonlinear_arith);
        }
        y = y + 1;
    }
    proof {
        vstd::set_lib::lemma_int_range(0, excluded@.len() as int);
        vstd::set_lib::lemma_len_subset(
            skipped,
            vstd::set_lib::set_int_range(0, excluded@.len() as int),
        );
        assert(height as int * width as int == width as int * height as int) by (nonlinear_arith);
        assert(candidates@.len() + skipped.len() == width as int * height as int);
        assert(candidates@.len() < 0x1_0000_0000);
        assert(candidates@.len() >= count);
        assert(bomb_count(cells@) == 0) by {
            assert forall|yy: int, xx: int|
                0 <= yy < cells@.len() && 0 <= xx < cells@[yy]@.len() implies !crate::counting::is_bomb(
                #[trigger] cells@[yy]@[xx],
            ) by {
                let q = Vec2 { x: xx as u16, y: yy as u16 };
                assert(cell_at(cells@, q) == cells@[yy]@[xx]);
                assert(cell_at(cells@, q).value == CellValue::Empty);
            }
            crate::counting::lemma_bomb_count_zero(cells@);
        }
    }
    let mut placed: u16 = 0;
    while placed < count
        invariant
            placed <= count,
            wf_grid(cells@, *game_size),
            crate::counting::bomb_count(cells@) == placed,
            candidates@.len() >= count - placed,
            candidates@.len() < 0x1_0000_0000,
            candidates@.no_duplicates(),
            forall|j: int|
                0 <= j < candidates@.len() ==> in_bounds(*game_size, #[trigger] candidates@[j])
                    && !excluded@.contains(candidates@[j]) && cell_at(
                    cells@,
                    candidates@[j],
                ).value == CellValue::Empty,
            forall|q: Vec2|
                in_bounds(*game_size, q) ==> (#[trigger] cell_at(cells@, q)).state == cell_at(
                    old(cells)@,
                    q,
                ).state,
            forall|q: Vec2|
                in_bounds(*game_size, q) && (#[trigger] cell_at(cells@, q)).value
                    == CellValue::Bomb ==> !excluded@.contains(q),
        decreases count - placed,
    {
        let j_raw = crate::rng::random_below(candidates.len() as u32);
        let j = j_raw as usize;
        let p = candidates[j];
        let ghost gb: Seq<Vec<Cell>> = cells@;
        let ghost cb: Seq<Vec2> = candidates@;
        let c = get_cell(cells, &p);
        set_cell(cells, &p, Cell { state: c.state, value: CellValue::Bomb });
        proof {
            crate::counting::lemma_bomb_count_set_cell(
                gb,
                p.y as int,
                p.x as int,
                Cell { state: cell_at(gb, p).state, value: CellValue::Bomb },
                cells@[p.y as int],
            );
            assert forall|q: Vec2|
                in_bounds(*game_size, q) && q != p implies #[trigger] cell_at(cells@, q) == cell_at(
                gb,
                q,
            ) by {}
        }
        candidates.swap_remove(j);
        placed = placed + 1;
        proof {
            assert forall|k1: int, k2: int|
                0 <= k1 < k2 < candidates@.len() implies candidates@[k1] != candidates@[k2] by {
                let m1: int = if k1 == j { cb.len() - 1 } else { k1 };
                let m2: int = if k2 == j { cb.len() - 1 } else { k2 };
                assert(candidates@[k1] == cb[m1] && candidates@[k2] == cb[m2]);
                assert(m1 != m2);
            }
            assert(candidates@.no_duplicates());
            assert forall|k: int|
                0 <= k < candidates@.len() implies in_bounds(
                *game_size,
                #[trigger] candidates@[k],
            ) && !excluded@.contains(candidates@[k]) && cell_at(cells@, candidates@[k]).value
                == CellValue::Empty by {
                let m: int = if k == j { cb.len() - 1 } else { k };
                assert(candidates@[k] == cb[m]);
                assert(m != j ==> cb[m] != cb[j as int]);
                assert(candidates@[k] != p);
            }
        }
    }
}

/// What the renderer should draw for one cell: the concealed marker, a
/// flag, a mine, a blank opened cell, or the adjacent-mine numeral 1 to 8.
#[derive(Clone, Copy, Debug, PartialEq, Eq, Structural)]
pub enum CellSymbol {
    Concealed,
    Blank,
    Numeral(u16),
    Flag,
    Mine,
}

/// The symbol belonging to the cell at `p`, with the adjacent-mine count
/// read off the live board.
pub open spec fn cell_symbol_spec(g: Seq<Vec<Cell>>, game_size: Vec2, p: Vec2) -> CellSymbol {
    match cell_at(g, p).state {
        CellState::Closed => CellSymbol::Concealed,
        CellState::Flagged => CellSymbol::Flag,
        CellState::Opened => if cell_at(g, p).value == CellValue::Bomb {
            CellSymbol::Mine
        } else if bombs_around(g, game_size, p) == 0 {
            CellSymbol::Blank
        } else {
            CellSymbol::Numeral(bombs_around(g, game_size, p) as u16)
        },
    }
}

/// Computes the symbol the renderer draws at `position`.
pub fn cell_symbol(game_size: &Vec2, position: &Vec2, cells: &Vec<Vec<Cell>>) -> (r: CellSymbol)
    requires
        wf_grid(cells@, *game_size),
        in_bounds(*game_size, *position),
    ensures
        r == cell_symbol_spec(cells@, *game_size, *position),
{
    let c = get_cell(cells, position);
    match c.state {
        CellState::Closed => CellSymbol::Concealed,
        CellState::Flagged => CellSymbol::Flag,
        CellState::Opened => {
            if c.value == CellValue::Bomb {
                CellSymbol::Mine
            } else {
                let n = get_bombs_around(game_size, position, cells);
                if n == 0 {
                    CellSymbol::Blank
                } else {
                    CellSymbol::Numeral(n)
                }
            }
        },
    }
}

/// The board is cleared: every cell without a mine under it is opened.
pub open spec fn all_safe_open(g: Seq<Vec<Cell>>, game_size: Vec2) -> bool {
    forall|q: Vec2|
        in_bounds(game_size, q) && (#[trigger] cell_at(g, q)).value == CellValue::Empty
            ==> cell_at(g, q).state == CellState::Opened
}

/// Whether the player has cleared the board: true exactly when every
/// mine-free cell is opened.
pub fn is_won(game_size: &Vec2, cells: &Vec<Vec<Cell>>) -> (r: bool)
    requires
        wf_grid(cells@, *game_size),
    ensures
        r == all_safe_open(cells@, *game_size),
{
    let mut y: u16 = 0;
    while y < game_size.y
        invariant
            y <= game_size.y,
            wf_grid(cells@, *game_size),
            forall|q: Vec2|
                in_bounds(*game_size, q) && q.y < y && (#[trigger] cell_at(cells@, q)).value
                    == CellValue::Empty ==> cell_at(cells@, q).state == CellState::Opened,
        decreases game_size.y - y,
    {
        let mut x: u16 = 0;
        while x < game_size.x
            invariant
                y < game_size.y,
                x <= game_size.x,
                wf_grid(cells@, *game_size),
                forall|q: Vec2|
                    in_bounds(*game_size, q) && (q.y < y || (q.y == y && q.x < x)) && (
                    #[trigger] cell_at(cells@, q)).value == CellValue::Empty ==> cell_at(
                        cells@,
                        q,
                    ).state == CellState::Opened,
            decreases game_size.x - x,
        {
            let p = Vec2 { x, y };
            let c = get_cell(cells, &p);
            if c.value == CellValue::Empty && !(c.state == CellState::Opened) {
                return false;
            }
            x = x + 1;
        }
        y = y + 1;
    }
    true
}


/// Two boards of the same size with unchanged values hold the same number
/// of mines: revealing and flagging never move a mine.
pub proof fn lemma_bomb_count_same_values(g1: Seq<Vec<Cell>>, g2: Seq<Vec<Cell>>, game_size: Vec2)
    requires
        wf_grid(g1, game_size),
        wf_grid(g2, game_size),
        values_unchanged(g1, g2, game_size),
    ensures
        bomb_count(g1) == bomb_count(g2),
{
    assert forall|y: int, x: int|
        0 <= y < g1.len() && 0 <= x < g1[y]@.len() implies (#[trigger] g1[y]@[x]).value
        == g2[y]@[x].value by {
        let q = Vec2 { x: x as u16, y: y as u16 };
        assert(cell_at(g1, q) == g1[y]@[x] && cell_at(g2, q) == g2[y]@[x]);
        assert(cell_at(g2, q).value == cell_at(g1, q).value);
    }
    crate::counting::lemma_bomb_count_congruence(g1, g2);
}
} // verus!
