use minesweeper_core::board::{
    cell_symbol, contains_coord, flag_cell, generate_empty_cells, is_won, open_all_mines,
    open_cell, place_mines, CellSymbol,
};
use minesweeper_core::game_types::{Cell, CellState, CellValue, GameSettings, Vec2};
use minesweeper_core::game_utils::get_neighbours;

fn count_mines(cells: &Vec<Vec<Cell>>) -> usize {
    let mut n = 0;
    for row in cells {
        for c in row {
            if c.value == CellValue::Bomb {
                n += 1;
            }
        }
    }
    n
}

fn count_opened(cells: &Vec<Vec<Cell>>) -> usize {
    let mut n = 0;
    for row in cells {
        for c in row {
            if c.state == CellState::Opened {
                n += 1;
            }
        }
    }
    n
}

#[test]
fn fresh_board_is_all_concealed_and_mine_free() {
    let settings = GameSettings::beginner();
    let cells = generate_empty_cells(&settings);
    assert_eq!(cells.len(), 9);
    for row in &cells {
        assert_eq!(row.len(), 9);
        for c in row {
            assert_eq!(c.state, CellState::Closed);
            assert_eq!(c.value, CellValue::Empty);
        }
    }
}

#[test]
fn placement_puts_exactly_the_requested_mines_outside_the_safe_zone() {
    let settings = GameSettings::beginner();
    let mut cells = generate_empty_cells(&settings);
    let cursor = Vec2::new(4, 4);
    let mut excluded = get_neighbours(&settings.size, &cursor);
    excluded.push(cursor);
    place_mines(&mut cells, &settings.size, &excluded, settings.mines);
    assert_eq!(count_mines(&cells), 10);
    for y in 0..9u16 {
        for x in 0..9u16 {
            let p = Vec2::new(x, y);
            if cells[y as usize][x as usize].value == CellValue::Bomb {
                assert!(!contains_coord(&excluded, &p));
            }
            assert_eq!(cells[y as usize][x as usize].state, CellState::Closed);
        }
    }
}

#[test]
fn revealing_a_zero_adjacency_cell_on_an_empty_board_reveals_everything() {
    let settings = GameSettings::beginner();
    let mut cells = generate_empty_cells(&settings);
    let lost = open_cell(&mut cells, &settings.size, &Vec2::new(4, 4));
    assert!(!lost);
    assert_eq!(count_opened(&cells), 81);
    assert!(is_won(&settings.size, &cells));
}

#[test]
fn revealing_a_cell_beside_one_mine_opens_only_that_cell() {
    let settings = GameSettings::beginner();
    let mut cells = generate_empty_cells(&settings);
    cells[0][0].value = CellValue::Bomb;
    let lost = open_cell(&mut cells, &settings.size, &Vec2::new(1, 1));
    assert!(!lost);
    assert_eq!(count_opened(&cells), 1);
    assert_eq!(cells[1][1].state, CellState::Opened);
    assert_eq!(
        cell_symbol(&settings.size, &Vec2::new(1, 1), &cells),
        CellSymbol::Numeral(1)
    );
}

#[test]
fn revealing_a_mine_shows_every_mine_and_nothing_else() {
    let settings = GameSettings::beginner();
    let mut cells = generate_empty_cells(&settings);
    cells[0][0].value = CellValue::Bomb;
    cells[5][5].value = CellValue::Bomb;
    flag_cell(&mut cells, &settings.size, &Vec2::new(3, 3));
    let lost = open_cell(&mut cells, &settings.size, &Vec2::new(0, 0));
    assert!(lost);
    assert_eq!(cells[0][0].state, CellState::Opened);
    assert_eq!(cells[5][5].state, CellState::Opened);
    assert_eq!(cells[3][3].state, CellState::Flagged);
    assert_eq!(count_opened(&cells), 2);
}

#[test]
fn flagging_twice_restores_a_concealed_cell() {
    let settings = GameSettings::beginner();
    let mut cells = generate_empty_cells(&settings);
    let p = Vec2::new(2, 2);
    flag_cell(&mut cells, &settings.size, &p);
    assert_eq!(cells[2][2].state, CellState::Flagged);
    flag_cell(&mut cells, &settings.size, &p);
    assert_eq!(cells[2][2].state, CellState::Closed);
}

#[test]
fn flagging_an_opened_cell_changes_nothing() {
    let settings = GameSettings::beginner();
    let mut cells = generate_empty_cells(&settings);
    cells[0][0].value = CellValue::Bomb;
    open_cell(&mut cells, &settings.size, &Vec2::new(1, 1));
    let before = cells.clone();
    flag_cell(&mut cells, &settings.size, &Vec2::new(1, 1));
    assert_eq!(cells, before);
}

#[test]
fn revealing_an_already_revealed_cell_changes_no_other_cell() {
    let settings = GameSettings::beginner();
    let mut cells = generate_empty_cells(&settings);
    cells[0][0].value = CellValue::Bomb;
    open_cell(&mut cells, &settings.size, &Vec2::new(1, 1));
    let before = cells.clone();
    let lost = open_cell(&mut cells, &settings.size, &Vec2::new(1, 1));
    assert!(!lost);
    assert_eq!(cells, before);
}

#[test]
fn revealing_again_after_a_full_flood_changes_nothing() {
    let settings = GameSettings::beginner();
    let mut cells = generate_empty_cells(&settings);
    open_cell(&mut cells, &settings.size, &Vec2::new(4, 4));
    let before = cells.clone();
    open_cell(&mut cells, &settings.size, &Vec2::new(4, 4));
    assert_eq!(cells, before);
}

#[test]
fn flood_stops_at_numbered_cells_and_skips_flags() {
    // One mine in the top-left corner of a 9 by 9 board: flooding from the
    // far corner opens everything except the mine and a flagged cell.
    let settings = GameSettings::beginner();
    let mut cells = generate_empty_cells(&settings);
    cells[0][0].value = CellValue::Bomb;
    flag_cell(&mut cells, &settings.size, &Vec2::new(8, 0));
    let lost = open_cell(&mut cells, &settings.size, &Vec2::new(8, 8));
    assert!(!lost);
    assert_eq!(cells[0][0].state, CellState::Closed);
    assert_eq!(cells[0][8].state, CellState::Flagged);
    assert_eq!(count_opened(&cells), 79);
    assert_eq!(
        cell_symbol(&settings.size, &Vec2::new(1, 1), &cells),
        CellSymbol::Numeral(1)
    );
    assert_eq!(
        cell_symbol(&settings.size, &Vec2::new(4, 4), &cells),
        CellSymbol::Blank
    );
    assert_eq!(
        cell_symbol(&settings.size, &Vec2::new(8, 0), &cells),
        CellSymbol::Flag
    );
    assert_eq!(
        cell_symbol(&settings.size, &Vec2::new(0, 0), &cells),
        CellSymbol::Concealed
    );
}

#[test]
fn opened_mine_shows_the_mine_symbol() {
    let settings = GameSettings::beginner();
    let mut cells = generate_empty_cells(&settings);
    cells[4][4].value = CellValue::Bomb;
    open_all_mines(&mut cells, &settings.size);
    assert_eq!(
        cell_symbol(&settings.size, &Vec2::new(4, 4), &cells),
        CellSymbol::Mine
    );
}

#[test]
fn is_won_requires_every_safe_cell_opened() {
    let settings = GameSettings::beginner();
    let mut cells = generate_empty_cells(&settings);
    cells[0][0].value = CellValue::Bomb;
    assert!(!is_won(&settings.size, &cells));
    open_cell(&mut cells, &settings.size, &Vec2::new(8, 8));
    // The flood opened everything but the mine's cell is still concealed:
    // every safe cell is open, so the board is cleared.
    assert!(is_won(&settings.size, &cells));
}

#[test]
fn settings_with_no_room_for_the_mines_are_rejected() {
    assert_eq!(GameSettings::new(Vec2::new(2, 2), 1), None);
    assert_eq!(GameSettings::new(Vec2::new(9, 9), 73), None);
    assert_eq!(
        GameSettings::new(Vec2::new(9, 9), 72),
        Some(GameSettings { size: Vec2 { x: 9, y: 9 }, mines: 72 })
    );
    assert_eq!(GameSettings::new(Vec2::new(0, 5), 0), None);
    assert_eq!(
        GameSettings::new(Vec2::new(9, 9), 10),
        Some(GameSettings::beginner())
    );
}

#[test]
fn re_revealing_never_spreads_even_past_a_lifted_flag() {
    // Flag a neighbour, flood from the centre (the flag survives), lift
    // the flag, then reveal the already-opened centre again: revealing an
    // opened cell only recomputes, so the re-closed neighbour stays closed.
    let settings = GameSettings::beginner();
    let mut cells = generate_empty_cells(&settings);
    let flagged = Vec2::new(3, 3);
    flag_cell(&mut cells, &settings.size, &flagged);
    open_cell(&mut cells, &settings.size, &Vec2::new(4, 4));
    assert_eq!(cells[3][3].state, CellState::Flagged);
    flag_cell(&mut cells, &settings.size, &flagged);
    assert_eq!(cells[3][3].state, CellState::Closed);
    let before = cells.clone();
    let lost = open_cell(&mut cells, &settings.size, &Vec2::new(4, 4));
    assert!(!lost);
    assert_eq!(cells, before);
    assert_eq!(cells[3][3].state, CellState::Closed);
}
