//! The neighbour resolver and the adjacent-mine counter, with the spec-level
//! board vocabulary (`in_bounds`, `wf_grid`, `cell_at`) the whole crate
//! speaks in.

use vstd::prelude::*;

use crate::game_types::{Cell, CellValue, Vec2};

verus! {

/// `p` names a cell of a board of size `game_size`.
pub open spec fn in_bounds(game_size: Vec2, p: Vec2) -> bool {
    p.x < game_size.x && p.y < game_size.y
}

/// The board holds one row per `y` coordinate and one cell per `x`.
pub open spec fn wf_grid(g: Seq<Vec<Cell>>, game_size: Vec2) -> bool {
    &&& g.len() == game_size.y
    &&& forall|y: int| 0 <= y < g.len() ==> (#[trigger] g[y])@.len() == game_size.x
}

/// The cell of `g` at position `p`.
pub open spec fn cell_at(g: Seq<Vec<Cell>>, p: Vec2) -> Cell {
    g[p.y as int]@[p.x as int]
}

/// Whether stepping from `p` by `(dx, dy)` stays on the board.
pub open spec fn offset_in_bounds(game_size: Vec2, p: Vec2, dx: int, dy: int) -> bool {
    &&& 0 <= p.x + dx < game_size.x
    &&& 0 <= p.y + dy < game_size.y
}

/// The position reached from `p` by `(dx, dy)`.
pub open spec fn offset_coord(p: Vec2, dx: int, dy: int) -> Vec2 {
    Vec2 { x: (p.x + dx) as u16, y: (p.y + dy) as u16 }
}

/// The zero-or-one-element piece that offset `(dx, dy)` contributes to the
/// neighbour list.
pub open spec fn maybe_neighbour(game_size: Vec2, p: Vec2, dx: int, dy: int) -> Seq<Vec2> {
    if offset_in_bounds(game_size, p, dx, dy) {
        seq![offset_coord(p, dx, dy)]
    } else {
        Seq::empty()
    }
}

/// The valid 8-directional neighbours of `p`, clockwise from the top-left,
/// with positions off the board left out.
pub open spec fn neighbours_spec(game_size: Vec2, p: Vec2) -> Seq<Vec2> {
    maybe_neighbour(game_size, p, -1, -1) + maybe_neighbour(game_size, p, 0, -1)
        + maybe_neighbour(game_size, p, 1, -1) + maybe_neighbour(game_size, p, 1, 0)
        + maybe_neighbour(game_size, p, 1, 1) + maybe_neighbour(game_size, p, 0, 1)
        + maybe_neighbour(game_size, p, -1, 1) + maybe_neighbour(game_size, p, -1, 0)
}

fn push_neighbour(r: &mut Vec<Vec2>, game_size: &Vec2, position: &Vec2, dx: i32, dy: i32)
    requires
        -1 <= dx <= 1,
        -1 <= dy <= 1,
    ensures
        final(r)@ == old(r)@ + maybe_neighbour(*game_size, *position, dx as int, dy as int),
{
    let nx = position.x as i32 + dx;
    let ny = position.y as i32 + dy;
    if 0 <= nx && nx < game_size.x as i32 && 0 <= ny && ny < game_size.y as i32 {
        r.push(Vec2 { x: nx as u16, y: ny as u16 });
    }
    proof {
        assert(r@ =~= old(r)@ + maybe_neighbour(*game_size, *position, dx as int, dy as int));
    }
}

/// The up-to-8 positions adjacent to `position` on a board of size
/// `game_size`, clockwise from the top-left.
pub fn get_neighbours(game_size: &Vec2, position: &Vec2) -> (r: Vec<Vec2>)
    ensures
        r@ == neighbours_spec(*game_size, *position),
{
    let mut r: Vec<Vec2> = Vec::new();
    push_neighbour(&mut r, game_size, position, -1, -1);
    push_neighbour(&mut r, game_size, position, 0, -1);
    push_neighbour(&mut r, game_size, position, 1, -1);
    push_neighbour(&mut r, game_size, position, 1, 0);
    push_neighbour(&mut r, game_size, position, 1, 1);
    push_neighbour(&mut r, game_size, position, 0, 1);
    push_neighbour(&mut r, game_size, position, -1, 1);
    push_neighbour(&mut r, game_size, position, -1, 0);
    proof {
        assert(r@ =~= neighbours_spec(*game_size, *position));
    }
    r
}

/// Every neighbour the resolver yields lies on the board and differs from
/// the position it was asked about; no position appears in the list twice;
/// and the list never has more than 8 entries.
pub proof fn lemma_neighbours_valid(game_size: Vec2, p: Vec2)
    ensures
        forall|i: int| 0 <= i < neighbours_spec(game_size, p).len()
            ==> in_bounds(game_size, #[trigger] neighbours_spec(game_size, p)[i])
                && neighbours_spec(game_size, p)[i] != p,
        neighbours_spec(game_size, p).no_duplicates(),
        neighbours_spec(game_size, p).len() <= 8,
{
}

/// How many of the listed positions hold a mine in `g`.
pub open spec fn bombs_in(g: Seq<Vec<Cell>>, coords: Seq<Vec2>) -> nat
    decreases coords.len(),
{
    if coords.len() == 0 {
        0
    } else {
        bombs_in(g, coords.drop_last()) + (if cell_at(g, coords.last()).value == CellValue::Bomb {
            1nat
        } else {
            0nat
        })
    }
}

/// How many neighbours of `p` hold a mine in `g`.
pub open spec fn bombs_around(g: Seq<Vec<Cell>>, game_size: Vec2, p: Vec2) -> nat {
    bombs_in(g, neighbours_spec(game_size, p))
}

/// Counts the mines among the valid neighbours of `position`, reading the
/// live board rather than any cached value.
pub fn get_bombs_around(game_size: &Vec2, position: &Vec2, cells: &Vec<Vec<Cell>>) -> (r: u16)
    requires
        wf_grid(cells@, *game_size),
    ensures
        r == bombs_around(cells@, *game_size, *position),
        r <= 8,
{
    let neighbours_pos = get_neighbours(game_size, position);
    proof {
        lemma_neighbours_valid(*game_size, *position);
    }
    let mut bombs: u16 = 0;
    let mut i: usize = 0;
    while i < neighbours_pos.len()
        invariant
            i <= neighbours_pos@.len(),
            neighbours_pos@ == neighbours_spec(*game_size, *position),
            neighbours_pos@.len() <= 8,
            forall|j: int| 0 <= j < neighbours_pos@.len()
                ==> in_bounds(*game_size, #[trigger] neighbours_pos@[j]),
            wf_grid(cells@, *game_size),
            bombs == bombs_in(cells@, neighbours_pos@.take(i as int)),
            bombs <= i,
        decreases neighbours_pos@.len() - i,
    {
        let q = neighbours_pos[i];
        let row = &cells[q.y as usize];
        let cell = row[q.x as usize];
        if cell.value == CellValue::Bomb {
            bombs = bombs + 1;
        }
        proof {
            let taken = neighbours_pos@.take(i as int + 1);
            assert(taken.drop_last() =~= neighbours_pos@.take(i as int));
            assert(taken.last() == neighbours_pos@[i as int]);
        }
        i = i + 1;
    }
    proof {
        assert(neighbours_pos@.take(neighbours_pos@.len() as int) =~= neighbours_pos@);
    }
    bombs
}

/// A mine at any listed position makes the count positive.
pub proof fn lemma_bombs_in_positive(g: Seq<Vec<Cell>>, coords: Seq<Vec2>, k: int)
    requires
        0 <= k < coords.len(),
        cell_at(g, coords[k]).value == CellValue::Bomb,
    ensures
        bombs_in(g, coords) > 0,
    decreases coords.len(),
{
    if k < coords.len() - 1 {
        lemma_bombs_in_positive(g, coords.drop_last(), k);
    }
}

/// Two boards with the same values everywhere hold the same number of mines
/// along any list of on-board positions.
pub proof fn lemma_bombs_in_same_values(
    g1: Seq<Vec<Cell>>,
    g2: Seq<Vec<Cell>>,
    game_size: Vec2,
    coords: Seq<Vec2>,
)
    requires
        forall|i: int| 0 <= i < coords.len() ==> in_bounds(game_size, #[trigger] coords[i]),
        wf_grid(g1, game_size),
        wf_grid(g2, game_size),
        forall|q: Vec2| in_bounds(game_size, q)
            ==> (#[trigger] cell_at(g1, q)).value == cell_at(g2, q).value,
    ensures
        bombs_in(g1, coords) == bombs_in(g2, coords),
    decreases coords.len(),
{
    if coords.len() > 0 {
        lemma_bombs_in_same_values(g1, g2, game_size, coords.drop_last());
    }
}

/// Two boards with the same values everywhere agree on every cell's
/// adjacent-mine count.
pub proof fn lemma_bombs_around_same_values(
    g1: Seq<Vec<Cell>>,
    g2: Seq<Vec<Cell>>,
    game_size: Vec2,
    p: Vec2,
)
    requires
        wf_grid(g1, game_size),
        wf_grid(g2, game_size),
        forall|q: Vec2| in_bounds(game_size, q)
            ==> (#[trigger] cell_at(g1, q)).value == cell_at(g2, q).value,
    ensures
        bombs_around(g1, game_size, p) == bombs_around(g2, game_size, p),
{
    lemma_neighbours_valid(game_size, p);
    lemma_bombs_in_same_values(g1, g2, game_size, neighbours_spec(game_size, p));
}

} // verus!
