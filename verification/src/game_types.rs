//! The data the game is made of: coordinates, cells and their two small
//! state machines, and the difficulty settings with their validity rule.

use vstd::prelude::*;

verus! {

/// A pair of 16-bit coordinates. It serves both as a position on the board
/// (`x` = column, `y` = row) and as a board size (`x` = width, `y` = height).
#[derive(Clone, Copy, Debug, PartialEq, Eq, Structural)]
pub struct Vec2 {
    pub x: u16,
    pub y: u16,
}

impl Vec2 {
    pub fn new(x: u16, y: u16) -> (r: Vec2)
        ensures
            r == (Vec2 { x, y }),
    {
        Vec2 { x, y }
    }
}

/// What the player sees of a cell: still hidden, opened, or marked with a flag.
#[derive(Clone, Copy, Debug, PartialEq, Eq, Structural)]
pub enum CellState {
    Closed,
    Opened,
    Flagged,
}

/// What a cell holds: nothing, or a mine.
#[derive(Clone, Copy, Debug, PartialEq, Eq, Structural)]
pub enum CellValue {
    Empty,
    Bomb,
}

/// One cell of the board.
#[derive(Clone, Copy, Debug, PartialEq, Eq, Structural)]
pub struct Cell {
    pub state: CellState,
    pub value: CellValue,
}

/// Board size together with the number of mines hidden in it.
#[derive(Clone, Copy, Debug, PartialEq, Eq, Structural)]
pub struct GameSettings {
    pub size: Vec2,
    pub mines: u16,
}

/// A settings value the game can actually play: a non-empty board with room
/// for every mine even after the first click's safe zone (the clicked cell
/// and its up-to-8 neighbours) is kept free. Without this bound, placement
/// could run out of cells to put mines in.
pub open spec fn valid_settings(s: GameSettings) -> bool {
    &&& 1 <= s.size.x
    &&& 1 <= s.size.y
    &&& s.mines + 9 <= s.size.x * s.size.y
}


/// The beginner preset: a 9 by 9 board hiding 10 mines.
pub open spec fn beginner_settings() -> GameSettings {
    GameSettings { size: Vec2 { x: 9, y: 9 }, mines: 10 }
}

/// The intermediate preset: a 16 by 16 board hiding 40 mines.
pub open spec fn intermediate_settings() -> GameSettings {
    GameSettings { size: Vec2 { x: 16, y: 16 }, mines: 40 }
}

/// The expert preset: a 16-wide, 30-tall board hiding 99 mines.
pub open spec fn expert_settings() -> GameSettings {
    GameSettings { size: Vec2 { x: 16, y: 30 }, mines: 99 }
}

impl GameSettings {
    /// Builds a settings value, rejecting any that could not host `mines`
    /// mines outside a first click's safe zone.
    pub fn new(size: Vec2, mines: u16) -> (r: Option<GameSettings>)
        ensures
            r is Some <==> valid_settings(GameSettings { size, mines }),
            r is Some ==> r->Some_0 == (GameSettings { size, mines }),
    {
        proof {
            vstd::arithmetic::mul::lemma_mul_upper_bound(
                size.x as int,
                0xffff,
                size.y as int,
                0xffff,
            );
        }
        if size.x >= 1 && size.y >= 1 && mines as u64 + 9 <= size.x as u64 * size.y as u64 {
            Some(GameSettings { size, mines })
        } else {
            None
        }
    }

    /// A 9 by 9 board hiding 10 mines.
    pub fn beginner() -> (r: GameSettings)
        ensures
            r == beginner_settings(),
            valid_settings(r),
    {
        GameSettings { size: Vec2 { x: 9, y: 9 }, mines: 10 }
    }

    /// A 16 by 16 board hiding 40 mines.
    pub fn intermediate() -> (r: GameSettings)
        ensures
            r == intermediate_settings(),
            valid_settings(r),
    {
        GameSettings { size: Vec2 { x: 16, y: 16 }, mines: 40 }
    }

    /// A 16-wide, 30-tall board hiding 99 mines.
    pub fn expert() -> (r: GameSettings)
        ensures
            r == expert_settings(),
            valid_settings(r),
    {
        GameSettings { size: Vec2 { x: 16, y: 30 }, mines: 99 }
    }
}

} // verus!
