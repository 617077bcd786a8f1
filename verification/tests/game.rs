use minesweeper_core::game::{App, AppState, GameEvent};
use minesweeper_core::game_types::{CellState, CellValue, GameSettings, Vec2};

fn count_mines(app: &App) -> usize {
    let mut n = 0;
    for row in &app.cells {
        for c in row {
            if c.value == CellValue::Bomb {
                n += 1;
            }
        }
    }
    n
}

#[test]
fn a_new_game_shows_the_menu_over_a_beginner_board() {
    let app = App::new();
    assert_eq!(app.state, AppState::Menu);
    assert_eq!(app.game_settings, GameSettings::beginner());
    assert_eq!(app.cursor, Vec2::new(0, 0));
    assert!(!app.mines_created);
    assert_eq!(app.cells.len(), 9);
    assert_eq!(app.cells[0].len(), 9);
}

#[test]
fn menu_selection_moves_and_clamps() {
    let mut app = App::new();
    assert!(!app.process_event(GameEvent::MoveUp));
    assert_eq!(app.cursor.y, 0);
    app.process_event(GameEvent::MoveDown);
    app.process_event(GameEvent::MoveDown);
    assert_eq!(app.cursor.y, 2);
    app.process_event(GameEvent::MoveDown);
    assert_eq!(app.cursor.y, 2);
    app.process_event(GameEvent::MoveUp);
    assert_eq!(app.cursor.y, 1);
}

#[test]
fn confirming_a_difficulty_starts_a_fresh_game() {
    let mut app = App::new();
    app.process_event(GameEvent::MoveDown);
    app.process_event(GameEvent::MoveDown);
    let quit = app.process_event(GameEvent::Confirm);
    assert!(!quit);
    assert_eq!(app.state, AppState::Playing);
    assert_eq!(app.game_settings, GameSettings::expert());
    assert_eq!(app.cursor, Vec2::new(0, 0));
    assert_eq!(app.cells.len(), 30);
    assert_eq!(app.cells[0].len(), 16);
    assert!(!app.mines_created);
    for row in &app.cells {
        for c in row {
            assert_eq!(c.state, CellState::Closed);
            assert_eq!(c.value, CellValue::Empty);
        }
    }
}

#[test]
fn cancel_on_the_menu_quits() {
    let mut app = App::new();
    assert!(app.process_event(GameEvent::Cancel));
}

#[test]
fn the_first_reveal_places_mines_and_never_dies() {
    let mut app = App::new();
    app.process_event(GameEvent::Confirm);
    assert_eq!(app.state, AppState::Playing);
    app.process_event(GameEvent::MoveRight);
    app.process_event(GameEvent::MoveDown);
    let quit = app.process_event(GameEvent::Confirm);
    assert!(!quit);
    assert!(app.mines_created);
    assert_eq!(app.state, AppState::Playing);
    assert_eq!(count_mines(&app), 10);
    assert_eq!(app.cells[1][1].state, CellState::Opened);
    assert_eq!(app.cells[1][1].value, CellValue::Empty);
    // The whole safe zone around the first click is mine-free.
    for y in 0..=2usize {
        for x in 0..=2usize {
            assert_eq!(app.cells[y][x].value, CellValue::Empty);
        }
    }
}

#[test]
fn cursor_movement_is_clamped_to_the_board() {
    let mut app = App::new();
    app.process_event(GameEvent::Confirm);
    app.process_event(GameEvent::MoveLeft);
    app.process_event(GameEvent::MoveUp);
    assert_eq!(app.cursor, Vec2::new(0, 0));
    for _ in 0..20 {
        app.process_event(GameEvent::MoveRight);
        app.process_event(GameEvent::MoveDown);
    }
    assert_eq!(app.cursor, Vec2::new(8, 8));
}

#[test]
fn flagging_through_the_state_machine_toggles_the_cursor_cell() {
    let mut app = App::new();
    app.process_event(GameEvent::Confirm);
    app.process_event(GameEvent::ToggleFlag);
    assert_eq!(app.cells[0][0].state, CellState::Flagged);
    app.process_event(GameEvent::ToggleFlag);
    assert_eq!(app.cells[0][0].state, CellState::Closed);
}

#[test]
fn cancel_before_any_reveal_abandons_without_loss() {
    let mut app = App::new();
    app.process_event(GameEvent::Confirm);
    app.process_event(GameEvent::Cancel);
    assert_eq!(app.state, AppState::Menu);
    assert!(!app.mines_created);
    assert_eq!(count_mines(&app), 0);
}

#[test]
fn cancel_after_the_first_reveal_shows_the_mines_and_dies() {
    let mut app = App::new();
    app.process_event(GameEvent::Confirm);
    app.process_event(GameEvent::Confirm);
    assert!(app.mines_created);
    app.process_event(GameEvent::Cancel);
    assert_eq!(app.state, AppState::Dead);
    for row in &app.cells {
        for c in row {
            if c.value == CellValue::Bomb {
                assert_eq!(c.state, CellState::Opened);
            }
        }
    }
}

#[test]
fn a_dead_game_resets_to_the_menu_on_any_event() {
    let mut app = App::new();
    app.process_event(GameEvent::Confirm);
    app.process_event(GameEvent::Confirm);
    app.process_event(GameEvent::Cancel);
    assert_eq!(app.state, AppState::Dead);
    app.process_event(GameEvent::MoveDown);
    assert_eq!(app.state, AppState::Menu);
    assert_eq!(app.game_settings, GameSettings::beginner());
    assert_eq!(app.cursor, Vec2::new(0, 0));
    assert!(!app.mines_created);
    assert_eq!(count_mines(&app), 0);
}

#[test]
fn opening_a_mine_directly_ends_the_game() {
    let mut app = App::new();
    app.process_event(GameEvent::Confirm);
    // Place a mine by hand and reveal it: the game dies and every mine is
    // shown.
    app.cells[5][5].value = CellValue::Bomb;
    app.mines_created = true;
    let p = Vec2::new(5, 5);
    app.open_cell(&p);
    assert_eq!(app.state, AppState::Dead);
    assert_eq!(app.cells[5][5].state, CellState::Opened);
}

#[test]
fn a_reveal_on_a_mine_free_board_floods_the_whole_board() {
    let mut app = App::new();
    app.process_event(GameEvent::Confirm);
    // Keep the board mine-free but mark placement as already done: the
    // reveal must flood across all 81 cells.
    app.mines_created = true;
    let p = Vec2::new(4, 4);
    app.open_cell(&p);
    assert_eq!(app.state, AppState::Playing);
    let mut opened = 0;
    for row in &app.cells {
        for c in row {
            if c.state == CellState::Opened {
                opened += 1;
            }
        }
    }
    assert_eq!(opened, 81);
}
