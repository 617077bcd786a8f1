//! The game itself: the menu/playing/dead state machine, the cursor, and
//! the handling of each player action.

use vstd::prelude::*;

use crate::board::{
    flag_cell, flag_rel, generate_empty_cells, mine_reveal_cell, open_all_mines, open_cell,
    place_mines, values_unchanged,
};
use crate::counting::bomb_count;
use crate::game_types::{
    beginner_settings, expert_settings, intermediate_settings, valid_settings, Cell, CellState,
    CellValue, GameSettings, Vec2,
};
use crate::game_utils::{
    cell_at, get_neighbours, in_bounds, lemma_neighbours_valid, neighbours_spec, wf_grid,
};

verus! {

/// The overall phase: choosing a difficulty, playing, or dead after a mine.
#[derive(Clone, Copy, Debug, PartialEq, Eq, Structural)]
pub enum AppState {
    Menu,
    Playing,
    Dead,
}

/// One discrete player action, as the input layer reports it.
#[derive(Clone, Copy, Debug, PartialEq, Eq, Structural)]
pub enum GameEvent {
    MoveUp,
    MoveDown,
    MoveLeft,
    MoveRight,
    Confirm,
    ToggleFlag,
    Cancel,
}

/// The difficulty the menu's rows stand for: row 0 is beginner, row 1
/// intermediate, and every later row expert.
pub open spec fn difficulty_settings(index: u16) -> GameSettings {
    if index == 0 {
        beginner_settings()
    } else if index == 1 {
        intermediate_settings()
    } else {
        expert_settings()
    }
}

/// The whole game: board, cursor, phase, settings, and whether the deferred
/// mine placement has happened yet. In the menu the cursor's `y` doubles as
/// the selected difficulty row.
pub struct App {
    pub cells: Vec<Vec<Cell>>,
    pub cursor: Vec2,
    pub mines_created: bool,
    pub state: AppState,
    pub game_settings: GameSettings,
}


/// The two games agree on every field.
pub open spec fn unchanged(pre: App, post: App) -> bool {
    &&& post.cells@ == pre.cells@
    &&& post.cursor == pre.cursor
    &&& post.game_settings == pre.game_settings
    &&& post.state == pre.state
    &&& post.mines_created == pre.mines_created
}

/// Nothing but the cursor differs between the two games.
pub open spec fn same_but_cursor(pre: App, post: App) -> bool {
    &&& post.cells@ == pre.cells@
    &&& post.game_settings == pre.game_settings
    &&& post.state == pre.state
    &&& post.mines_created == pre.mines_created
}

/// Nothing but the board differs between the two games.
pub open spec fn same_but_cells(pre: App, post: App) -> bool {
    &&& post.cursor == pre.cursor
    &&& post.game_settings == pre.game_settings
    &&& post.state == pre.state
    &&& post.mines_created == pre.mines_created
}

impl App {
    /// What every reachable game state satisfies: valid settings, a board
    /// of the settings' size, a cursor on the board (or on one of the three
    /// menu rows), and no mines anywhere before the first reveal.
    pub open spec fn wf(self) -> bool {
        &&& valid_settings(self.game_settings)
        &&& wf_grid(self.cells@, self.game_settings.size)
        &&& match self.state {
            AppState::Menu => !self.mines_created && self.cursor.x == 0 && self.cursor.y < 3,
            AppState::Playing => in_bounds(self.game_settings.size, self.cursor),
            AppState::Dead => true,
        }
        &&& !self.mines_created ==> forall|q: Vec2|
            in_bounds(self.game_settings.size, q) ==> (#[trigger] cell_at(self.cells@, q)).value
                == CellValue::Empty
    }

    /// A fresh game: beginner settings, an all-concealed empty board, the
    /// menu shown with its first row selected.
    pub fn new() -> (r: App)
        ensures
            r.wf(),
            r.state == AppState::Menu,
            r.game_settings == beginner_settings(),
            r.cursor == (Vec2 { x: 0, y: 0 }),
            !r.mines_created,
            forall|q: Vec2|
                in_bounds(r.game_settings.size, q) ==> #[trigger] cell_at(r.cells@, q) == (Cell {
                    state: CellState::Closed,
                    value: CellValue::Empty,
                }),
    {
        let game_settings = GameSettings::beginner();
        App {
            cells: generate_empty_cells(&game_settings),
            cursor: Vec2::new(0, 0),
            mines_created: false,
            state: AppState::Menu,
            game_settings,
        }
    }

    /// Back to the menu with everything reset: beginner settings, a fresh
    /// empty board, the first menu row selected, no mines placed.
    pub fn reset_game(&mut self)
        ensures
            final(self).wf(),
            final(self).state == AppState::Menu,
            final(self).game_settings == beginner_settings(),
            final(self).cursor == (Vec2 { x: 0, y: 0 }),
            !final(self).mines_created,
            forall|q: Vec2|
                in_bounds(final(self).game_settings.size, q) ==> #[trigger] cell_at(
                    final(self).cells@,
                    q,
                ) == (Cell { state: CellState::Closed, value: CellValue::Empty }),
    {
        self.cursor = Vec2::new(0, 0);
        self.state = AppState::Menu;
        self.game_settings = GameSettings::beginner();
        let game_settings = self.game_settings;
        self.cells = generate_empty_cells(&game_settings);
        self.mines_created = false;
    }

    /// Places the settings' mines, drawing cells at random but keeping the
    /// cursor's cell and all its neighbours mine-free: the first reveal can
    /// never hit a mine. Only the board's values change; recording that
    /// placement has happened stays with the caller.
    pub fn generate_cells(&mut self)
        requires
            old(self).wf(),
            old(self).state != AppState::Menu,
            in_bounds(old(self).game_settings.size, old(self).cursor),
            !old(self).mines_created,
        ensures
            wf_grid(final(self).cells@, old(self).game_settings.size),
            final(self).mines_created == old(self).mines_created,
            final(self).cursor == old(self).cursor,
            final(self).game_settings == old(self).game_settings,
            final(self).state == old(self).state,
            bomb_count(final(self).cells@) == old(self).game_settings.mines,
            forall|q: Vec2|
                in_bounds(old(self).game_settings.size, q) ==> (#[trigger] cell_at(
                    final(self).cells@,
                    q,
                )).state == cell_at(old(self).cells@, q).state,
            cell_at(final(self).cells@, old(self).cursor).value == CellValue::Empty,
            forall|i: int|
                0 <= i < neighbours_spec(old(self).game_settings.size, old(self).cursor).len()
                    ==> cell_at(
                    final(self).cells@,
                    #[trigger] neighbours_spec(old(self).game_settings.size, old(self).cursor)[i],
                ).value == CellValue::Empty,
    {
        let game_size = self.game_settings.size;
        let cursor = self.cursor;
        let mut excluded = get_neighbours(&game_size, &cursor);
        proof {
            lemma_neighbours_valid(game_size, cursor);
        }
        excluded.push(cursor);
        let count = self.game_settings.mines;
        place_mines(&mut self.cells, &game_size, &excluded, count);
        proof {
            let ns = neighbours_spec(game_size, cursor);
            assert(excluded@[excluded@.len() - 1] == cursor);
            assert(excluded@.contains(cursor));
            assert(cell_at(self.cells@, cursor).value != CellValue::Bomb);
            assert forall|i: int| 0 <= i < ns.len() implies cell_at(
                self.cells@,
                #[trigger] ns[i],
            ).value == CellValue::Empty by {
                assert(excluded@[i] == ns[i]);
                assert(excluded@.contains(ns[i]));
                assert(cell_at(self.cells@, ns[i]).value != CellValue::Bomb);
            }
        }
    }

    /// Opens the cell under `position`; a mine there shows the whole
    /// minefield and ends the game. Revealing an already-opened cell only
    /// recomputes: no other cell changes.
    pub fn open_cell(&mut self, position: &Vec2)
        requires
            old(self).wf(),
            in_bounds(old(self).game_settings.size, *position),
        ensures
            final(self).wf(),
            final(self).cursor == old(self).cursor,
            final(self).game_settings == old(self).game_settings,
            final(self).mines_created == old(self).mines_created,
            wf_grid(final(self).cells@, old(self).game_settings.size),
            values_unchanged(old(self).cells@, final(self).cells@, old(self).game_settings.size),
            cell_at(old(self).cells@, *position).value == CellValue::Bomb ==> final(self).state
                == AppState::Dead && (forall|q: Vec2|
                in_bounds(old(self).game_settings.size, q) ==> #[trigger] cell_at(
                    final(self).cells@,
                    q,
                ) == mine_reveal_cell(cell_at(old(self).cells@, q))),
            cell_at(old(self).cells@, *position).value != CellValue::Bomb ==> final(self).state
                == old(self).state && cell_at(final(self).cells@, *position) == (Cell {
                state: CellState::Opened,
                value: cell_at(old(self).cells@, *position).value,
            }) && (forall|q: Vec2|
                in_bounds(old(self).game_settings.size, q) && q != *position
                    && #[trigger] cell_at(final(self).cells@, q) != cell_at(old(self).cells@, q)
                    ==> crate::counting::is_closed_empty(cell_at(old(self).cells@, q)) && cell_at(
                    final(self).cells@,
                    q,
                ) == (Cell { state: CellState::Opened, value: CellValue::Empty })
                    && crate::board::flood_justified(
                    old(self).cells@,
                    final(self).cells@,
                    old(self).game_settings.size,
                    *position,
                    q,
                ) && crate::board::zero_reachable(
                    old(self).cells@,
                    old(self).game_settings.size,
                    *position,
                    q,
                )),
            cell_at(old(self).cells@, *position).value != CellValue::Bomb && crate::game_utils::bombs_around(
                old(self).cells@,
                old(self).game_settings.size,
                *position,
            ) != 0 ==> forall|q: Vec2|
                in_bounds(old(self).game_settings.size, q) && q != *position
                    ==> #[trigger] cell_at(final(self).cells@, q) == cell_at(old(self).cells@, q),
            cell_at(old(self).cells@, *position).value != CellValue::Bomb ==> forall|q: Vec2|
                #![trigger cell_at(final(self).cells@, q)]
                in_bounds(old(self).game_settings.size, q) && cell_at(old(self).cells@, q).state
                    != CellState::Opened && cell_at(final(self).cells@, q).state
                    == CellState::Opened && cell_at(final(self).cells@, q).value
                    == CellValue::Empty ==> crate::board::flood_settled(
                    final(self).cells@,
                    old(self).game_settings.size,
                    q,
                ),
            cell_at(old(self).cells@, *position).value != CellValue::Bomb && cell_at(
                old(self).cells@,
                *position,
            ).state == CellState::Opened ==> crate::board::same_cells(
                old(self).cells@,
                final(self).cells@,
                old(self).game_settings.size,
            ),
    {
        let game_size = self.game_settings.size;
        let lost = open_cell(&mut self.cells, &game_size, position);
        if lost {
            self.state = AppState::Dead;
        }
    }

    /// Toggles the flag on the cell under `position`.
    pub fn flag_cell(&mut self, position: &Vec2)
        requires
            old(self).wf(),
            in_bounds(old(self).game_settings.size, *position),
        ensures
            final(self).wf(),
            same_but_cells(*old(self), *final(self)),
            flag_rel(
                old(self).cells@,
                final(self).cells@,
                old(self).game_settings.size,
                *position,
            ),
    {
        let game_size = self.game_settings.size;
        flag_cell(&mut self.cells, &game_size, position);
        proof {
            if !self.mines_created {
                assert forall|q: Vec2|
                    in_bounds(self.game_settings.size, q) implies (#[trigger] cell_at(
                    self.cells@,
                    q,
                )).value == CellValue::Empty by {
                    if q != *position {
                        assert(cell_at(self.cells@, q) == cell_at(old(self).cells@, q));
                    }
                }
            }
        }
    }

    /// Shows the whole minefield and ends the game: every mine is opened,
    /// every other cell keeps its state.
    pub fn open_all_mines(&mut self)
        requires
            old(self).wf(),
        ensures
            final(self).wf(),
            final(self).cursor == old(self).cursor,
            final(self).game_settings == old(self).game_settings,
            final(self).mines_created == old(self).mines_created,
            final(self).state == AppState::Dead,
            forall|q: Vec2|
                in_bounds(old(self).game_settings.size, q) ==> #[trigger] cell_at(
                    final(self).cells@,
                    q,
                ) == mine_reveal_cell(cell_at(old(self).cells@, q)),
    {
        self.state = AppState::Dead;
        let game_size = self.game_settings.size;
        open_all_mines(&mut self.cells, &game_size);
    }

    /// Feeds one player action into the state machine; true comes back
    /// exactly when the game should quit (cancel on the menu).
    ///
    /// In the menu, up and down move the selection over the three
    /// difficulty rows and confirm starts a game on a fresh all-concealed
    /// board. While playing, the arrows move the cursor within the board;
    /// confirm places the mines on the very first reveal — never under or
    /// beside the cursor — and then opens the cursor's cell; flag toggles a
    /// flag; cancel abandons the game, showing the minefield first if
    /// mines were already placed, and returns straight to the menu
    /// otherwise. A dead game resets to the menu on any action.
    pub fn process_event(&mut self, event: GameEvent) -> (quit: bool)
        requires
            old(self).wf(),
        ensures
            final(self).wf(),
            quit == (old(self).state == AppState::Menu && event == GameEvent::Cancel),
            old(self).state == AppState::Menu ==> match event {
                GameEvent::Cancel => unchanged(*old(self), *final(self)),
                GameEvent::MoveUp => same_but_cursor(*old(self), *final(self)) && final(self).cursor == (Vec2 {
                    x: 0,
                    y: if old(self).cursor.y > 0 {
                        (old(self).cursor.y - 1) as u16
                    } else {
                        0u16
                    },
                }),
                GameEvent::MoveDown => same_but_cursor(*old(self), *final(self)) && final(self).cursor == (Vec2 {
                    x: 0,
                    y: if old(self).cursor.y < 2 {
                        (old(self).cursor.y + 1) as u16
                    } else {
                        old(self).cursor.y
                    },
                }),
                GameEvent::Confirm => {
                    &&& final(self).state == AppState::Playing
                    &&& final(self).game_settings == difficulty_settings(old(self).cursor.y)
                    &&& final(self).cursor == (Vec2 { x: 0, y: 0 })
                    &&& !final(self).mines_created
                    &&& forall|q: Vec2|
                        in_bounds(final(self).game_settings.size, q) ==> #[trigger] cell_at(
                            final(self).cells@,
                            q,
                        ) == (Cell { state: CellState::Closed, value: CellValue::Empty })
                },
                _ => unchanged(*old(self), *final(self)),
            },
            old(self).state == AppState::Playing ==> match event {
                GameEvent::MoveLeft => same_but_cursor(*old(self), *final(self)) && final(self).cursor == (Vec2 {
                    x: if old(self).cursor.x > 0 {
                        (old(self).cursor.x - 1) as u16
                    } else {
                        0u16
                    },
                    y: old(self).cursor.y,
                }),
                GameEvent::MoveRight => same_but_cursor(*old(self), *final(self)) && final(self).cursor == (Vec2 {
                    x: if old(self).cursor.x + 1 < old(self).game_settings.size.x {
                        (old(self).cursor.x + 1) as u16
                    } else {
                        old(self).cursor.x
                    },
                    y: old(self).cursor.y,
                }),
                GameEvent::MoveUp => same_but_cursor(*old(self), *final(self)) && final(self).cursor == (Vec2 {
                    x: old(self).cursor.x,
                    y: if old(self).cursor.y > 0 {
                        (old(self).cursor.y - 1) as u16
                    } else {
                        0u16
                    },
                }),
                GameEvent::MoveDown => same_but_cursor(*old(self), *final(self)) && final(self).cursor == (Vec2 {
                    x: old(self).cursor.x,
                    y: if old(self).cursor.y + 1 < old(self).game_settings.size.y {
                        (old(self).cursor.y + 1) as u16
                    } else {
                        old(self).cursor.y
                    },
                }),
                GameEvent::ToggleFlag => same_but_cells(*old(self), *final(self)) && flag_rel(
                    old(self).cells@,
                    final(self).cells@,
                    old(self).game_settings.size,
                    old(self).cursor,
                ),
                GameEvent::Cancel => {
                    &&& final(self).game_settings == old(self).game_settings
                    &&& (old(self).mines_created ==> final(self).state == AppState::Dead && (
                    forall|q: Vec2|
                        in_bounds(old(self).game_settings.size, q) ==> #[trigger] cell_at(
                            final(self).cells@,
                            q,
                        ) == mine_reveal_cell(cell_at(old(self).cells@, q))))
                    &&& (!old(self).mines_created ==> final(self).state == AppState::Menu && final(self).cursor == (Vec2 { x: 0, y: 0 }) && final(self).cells@ == old(self).cells@
                        && !final(self).mines_created)
                },
                GameEvent::Confirm => {
                    &&& final(self).game_settings == old(self).game_settings
                    &&& final(self).cursor == old(self).cursor
                    &&& final(self).mines_created
                    &&& (!old(self).mines_created ==> {
                        &&& final(self).state == AppState::Playing
                        &&& bomb_count(final(self).cells@) == old(self).game_settings.mines
                        &&& cell_at(final(self).cells@, old(self).cursor) == (Cell {
                            state: CellState::Opened,
                            value: CellValue::Empty,
                        })
                        &&& forall|i: int|
                            0 <= i < neighbours_spec(
                                old(self).game_settings.size,
                                old(self).cursor,
                            ).len() ==> cell_at(
                                final(self).cells@,
                                #[trigger] neighbours_spec(
                                    old(self).game_settings.size,
                                    old(self).cursor,
                                )[i],
                            ).value == CellValue::Empty
                        &&& forall|q: Vec2|
                            in_bounds(old(self).game_settings.size, q) && q != old(self).cursor
                                && (#[trigger] cell_at(final(self).cells@, q)).state != cell_at(
                                old(self).cells@,
                                q,
                            ).state ==> cell_at(old(self).cells@, q).state == CellState::Closed
                                && cell_at(final(self).cells@, q).state == CellState::Opened
                                && cell_at(final(self).cells@, q).value == CellValue::Empty
                        &&& forall|q: Vec2|
                            #![trigger cell_at(final(self).cells@, q)]
                            in_bounds(old(self).game_settings.size, q) && cell_at(
                                old(self).cells@,
                                q,
                            ).state != CellState::Opened && cell_at(final(self).cells@, q).state
                                == CellState::Opened && cell_at(final(self).cells@, q).value
                                == CellValue::Empty ==> crate::board::flood_settled(
                                final(self).cells@,
                                old(self).game_settings.size,
                                q,
                            )
                    })
                    &&& (old(self).mines_created ==> {
                        &&& values_unchanged(
                            old(self).cells@,
                            final(self).cells@,
                            old(self).game_settings.size,
                        )
                        &&& (cell_at(old(self).cells@, old(self).cursor).value == CellValue::Bomb
                            ==> final(self).state == AppState::Dead && (forall|q: Vec2|
                            in_bounds(old(self).game_settings.size, q) ==> #[trigger] cell_at(
                                final(self).cells@,
                                q,
                            ) == mine_reveal_cell(cell_at(old(self).cells@, q))))
                        &&& (cell_at(old(self).cells@, old(self).cursor).value != CellValue::Bomb
                            ==> final(self).state == AppState::Playing && cell_at(
                            final(self).cells@,
                            old(self).cursor,
                        ) == (Cell {
                            state: CellState::Opened,
                            value: cell_at(old(self).cells@, old(self).cursor).value,
                        }) && (forall|q: Vec2|
                            in_bounds(old(self).game_settings.size, q) && q != old(self).cursor
                                && #[trigger] cell_at(final(self).cells@, q) != cell_at(
                                old(self).cells@,
                                q,
                            ) ==> crate::counting::is_closed_empty(cell_at(old(self).cells@, q))
                                && cell_at(final(self).cells@, q) == (Cell {
                                state: CellState::Opened,
                                value: CellValue::Empty,
                            })) && (forall|q: Vec2|
                            #![trigger cell_at(final(self).cells@, q)]
                            in_bounds(old(self).game_settings.size, q) && cell_at(
                                old(self).cells@,
                                q,
                            ).state != CellState::Opened && cell_at(final(self).cells@, q).state
                                == CellState::Opened && cell_at(final(self).cells@, q).value
                                == CellValue::Empty ==> crate::board::flood_settled(
                                final(self).cells@,
                                old(self).game_settings.size,
                                q,
                            )))
                    })
                },
            },
            old(self).state == AppState::Dead ==> {
                &&& final(self).state == AppState::Menu
                &&& final(self).game_settings == beginner_settings()
                &&& final(self).cursor == (Vec2 { x: 0, y: 0 })
                &&& !final(self).mines_created
                &&& forall|q: Vec2|
                    in_bounds(final(self).game_settings.size, q) ==> #[trigger] cell_at(
                        final(self).cells@,
                        q,
                    ) == (Cell { state: CellState::Closed, value: CellValue::Empty })
            },
    {
        match self.state {
            AppState::Menu => match event {
                GameEvent::Cancel => {
                    return true;
                },
                GameEvent::MoveUp => {
                    if self.cursor.y != 0 {
                        self.cursor.y = self.cursor.y - 1;
                    }
                },
                GameEvent::MoveDown => {
                    if self.cursor.y != 2 {
                        self.cursor.y = self.cursor.y + 1;
                    }
                },
                GameEvent::Confirm => {
                    let game_settings = if self.cursor.y == 0 {
                        GameSettings::beginner()
                    } else if self.cursor.y == 1 {
                        GameSettings::intermediate()
                    } else {
                        GameSettings::expert()
                    };
                    self.game_settings = game_settings;
                    self.cells = generate_empty_cells(&game_settings);
                    self.cursor = Vec2::new(0, 0);
                    self.state = AppState::Playing;
                },
                _ => {},
            },
            AppState::Playing => match event {
                GameEvent::Cancel => {
                    if self.mines_created {
                        self.open_all_mines();
                    } else {
                        self.state = AppState::Menu;
                        self.cursor = Vec2::new(0, 0);
                    }
                },
                GameEvent::Confirm => {
                    if !self.mines_created {
                        self.generate_cells();
                        self.mines_created = true;
                        let ghost mid: Seq<Vec<Cell>> = self.cells@;
                        let cursor = self.cursor;
                        self.open_cell(&cursor);
                        proof {
                            let game_size = self.game_settings.size;
                            crate::board::lemma_bomb_count_same_values(
                                mid,
                                self.cells@,
                                game_size,
                            );
                            lemma_neighbours_valid(game_size, cursor);
                            let ns = neighbours_spec(game_size, cursor);
                            assert forall|i: int| 0 <= i < ns.len() implies cell_at(
                                self.cells@,
                                #[trigger] ns[i],
                            ).value == CellValue::Empty by {
                                assert(cell_at(self.cells@, ns[i]).value == cell_at(
                                    mid,
                                    ns[i],
                                ).value);
                            }
                        }
                    } else {
                        let cursor = self.cursor;
                        self.open_cell(&cursor);
                    }
                },
                GameEvent::ToggleFlag => {
                    let cursor = self.cursor;
                    self.flag_cell(&cursor);
                },
                GameEvent::MoveLeft => {
                    if self.cursor.x > 0 {
                        self.cursor.x = self.cursor.x - 1;
                    }
                },
                GameEvent::MoveRight => {
                    if self.cursor.x < self.game_settings.size.x - 1 {
                        self.cursor.x = self.cursor.x + 1;
                    }
                },
                GameEvent::MoveUp => {
                    if self.cursor.y > 0 {
                        self.cursor.y = self.cursor.y - 1;
                    }
                },
                GameEvent::MoveDown => {
                    if self.cursor.y < self.game_settings.size.y - 1 {
                        self.cursor.y = self.cursor.y + 1;
                    }
                },
            },
            AppState::Dead => {
                self.reset_game();
            },
        }
        false
    }
}

} // verus!
