use minesweeper_core::game_types::{GameSettings, Vec2};
use minesweeper_core::game_utils::{get_bombs_around, get_neighbours};
use minesweeper_core::game_types::{Cell, CellState, CellValue};

fn empty_grid(width: u16, height: u16) -> Vec<Vec<Cell>> {
    let mut cells = Vec::new();
    for _ in 0..height {
        let mut row = Vec::new();
        for _ in 0..width {
            row.push(Cell { state: CellState::Closed, value: CellValue::Empty });
        }
        cells.push(row);
    }
    cells
}

#[test]
fn get_neightbours() {
    assert_eq!(
        get_neighbours(&GameSettings::beginner().size, &Vec2::new(1, 1)),
        vec![
            Vec2::new(0, 0),
            Vec2::new(1, 0),
            Vec2::new(2, 0),
            Vec2::new(2, 1),
            Vec2::new(2, 2),
            Vec2::new(1, 2),
            Vec2::new(0, 2),
            Vec2::new(0, 1),
        ]
    );

    assert_eq!(
        get_neighbours(&GameSettings::beginner().size, &Vec2::new(0, 0)),
        vec![Vec2::new(1, 0), Vec2::new(1, 1), Vec2::new(0, 1),]
    );
}

#[test]
fn neighbours_at_bottom_right_corner() {
    let size = GameSettings::beginner().size;
    assert_eq!(
        get_neighbours(&size, &Vec2::new(8, 8)),
        vec![Vec2::new(7, 7), Vec2::new(8, 7), Vec2::new(7, 8)],
    );
}

#[test]
fn neighbours_on_one_by_one_board() {
    let size = Vec2::new(1, 1);
    assert_eq!(get_neighbours(&size, &Vec2::new(0, 0)), Vec::<Vec2>::new());
}

#[test]
fn bombs_around_counts_adjacent_mines() {
    let size = GameSettings::beginner().size;
    let mut cells = empty_grid(size.x, size.y);
    cells[0][0].value = CellValue::Bomb;
    cells[2][2].value = CellValue::Bomb;
    cells[0][2].value = CellValue::Bomb;
    assert_eq!(get_bombs_around(&size, &Vec2::new(1, 1), &cells), 3);
    assert_eq!(get_bombs_around(&size, &Vec2::new(5, 5), &cells), 0);
    assert_eq!(get_bombs_around(&size, &Vec2::new(3, 2), &cells), 1);
}
