use game_of_life::grid::next_cell;
use game_of_life::{Cell, Universe};

fn board_from(rows: &[&[u8]]) -> Universe {
    let mut u = Universe::with_size(rows[0].len() as u32, rows.len() as u32);
    for (r, row) in rows.iter().enumerate() {
        for (c, v) in row.iter().enumerate() {
            if *v == 1 {
                u.set(r as u32, c as u32, Cell::Alive);
            }
        }
    }
    u
}

fn as_bits(u: &Universe) -> Vec<Vec<u8>> {
    let mut out = Vec::new();
    for r in 0..u.height() {
        let mut row = Vec::new();
        for c in 0..u.width() {
            row.push(if u.get(r, c) == Cell::Alive { 1 } else { 0 });
        }
        out.push(row);
    }
    out
}

#[test]
fn rule_table() {
    for n in 0..=8u8 {
        let survive = if n == 2 || n == 3 { Cell::Alive } else { Cell::Dead };
        let born = if n == 3 { Cell::Alive } else { Cell::Dead };
        assert_eq!(next_cell(Cell::Alive, n), survive);
        assert_eq!(next_cell(Cell::Dead, n), born);
    }
}

#[test]
fn default_board_is_dead_150_square() {
    let u = Universe::new();
    assert_eq!(u.width(), 150);
    assert_eq!(u.height(), 150);
    assert_eq!(u.cells().len(), 150 * 150);
    assert!(u.cells().iter().all(|c| *c == Cell::Dead));
}

#[test]
fn index_is_row_major() {
    let u = Universe::with_size(7, 3);
    assert_eq!(u.get_index(0, 0), 0);
    assert_eq!(u.get_index(0, 6), 6);
    assert_eq!(u.get_index(1, 0), 7);
    assert_eq!(u.get_index(2, 6), 20);
}

#[test]
fn tick_keeps_dimensions() {
    let mut u = board_from(&[&[1, 0, 1, 1], &[0, 1, 1, 0], &[1, 1, 0, 0]]);
    u.tick();
    assert_eq!(u.width(), 4);
    assert_eq!(u.height(), 3);
    assert_eq!(u.cells().len(), 12);
}

#[test]
fn dead_board_stays_dead() {
    let mut u = Universe::with_size(6, 4);
    u.tick();
    assert!(u.cells().iter().all(|c| *c == Cell::Dead));
}

#[test]
fn lone_cell_dies() {
    for (w, h) in [(2u32, 2u32), (5, 7), (3, 2)] {
        let mut u = Universe::with_size(w, h);
        u.set(1, 1, Cell::Alive);
        assert_eq!(u.live_neighbour_count(1, 1), 0);
        u.tick();
        assert_eq!(u.get(1, 1), Cell::Dead);
    }
}

#[test]
fn block_of_nine_on_five_by_five() {
    let mut u = board_from(&[
        &[0, 0, 0, 0, 0],
        &[0, 1, 1, 1, 0],
        &[0, 1, 1, 1, 0],
        &[0, 1, 1, 1, 0],
        &[0, 0, 0, 0, 0],
    ]);
    assert_eq!(u.live_neighbour_count(1, 1), 3);
    assert_eq!(u.live_neighbour_count(1, 2), 5);
    assert_eq!(u.live_neighbour_count(2, 2), 8);
    assert_eq!(u.live_neighbour_count(0, 2), 3);
    u.tick();
    let expected: Vec<Vec<u8>> = vec![
        vec![0, 0, 1, 0, 0],
        vec![0, 1, 0, 1, 0],
        vec![1, 0, 0, 0, 1],
        vec![0, 1, 0, 1, 0],
        vec![0, 0, 1, 0, 0],
    ];
    assert_eq!(as_bits(&u), expected);
}

#[test]
fn blinker_oscillates_across_the_edge() {
    let mut u = board_from(&[
        &[0, 0, 0, 0, 0, 0],
        &[0, 0, 0, 0, 0, 0],
        &[1, 0, 0, 0, 1, 1],
        &[0, 0, 0, 0, 0, 0],
        &[0, 0, 0, 0, 0, 0],
    ]);
    u.tick();
    let vertical: Vec<Vec<u8>> = vec![
        vec![0, 0, 0, 0, 0, 0],
        vec![0, 0, 0, 0, 0, 1],
        vec![0, 0, 0, 0, 0, 1],
        vec![0, 0, 0, 0, 0, 1],
        vec![0, 0, 0, 0, 0, 0],
    ];
    assert_eq!(as_bits(&u), vertical);
    u.tick();
    assert_eq!(as_bits(&u)[2], vec![1, 0, 0, 0, 1, 1]);
}

#[test]
fn single_row_wraps_left_and_right() {
    let mut u = Universe::with_size(5, 1);
    u.set(0, 4, Cell::Alive);
    // one row: the rows above, level with and below are all row 0, so a
    // cell's vertical neighbours are the cell itself
    assert_eq!(u.live_neighbour_count(0, 0), 3);
    assert_eq!(u.live_neighbour_count(0, 3), 3);
    assert_eq!(u.live_neighbour_count(0, 2), 0);
    assert_eq!(u.live_neighbour_count(0, 4), 2);
}

#[test]
fn single_cell_board_counts_itself_eight_times() {
    let mut u = Universe::with_size(1, 1);
    assert_eq!(u.live_neighbour_count(0, 0), 0);
    u.set(0, 0, Cell::Alive);
    assert_eq!(u.live_neighbour_count(0, 0), 8);
    u.tick();
    assert_eq!(u.get(0, 0), Cell::Dead);
}

#[test]
fn setting_twice_is_setting_once() {
    let mut once = Universe::with_size(4, 4);
    once.set(2, 3, Cell::Alive);
    let mut twice = Universe::with_size(4, 4);
    twice.set(2, 3, Cell::Alive);
    twice.set(2, 3, Cell::Alive);
    assert_eq!(twice.get(2, 3), Cell::Alive);
    assert_eq!(once.cells(), twice.cells());
}

#[test]
fn toggle_is_an_involution() {
    let mut u = Universe::with_size(3, 3);
    u.toggle_cell(1, 2);
    assert_eq!(u.get(1, 2), Cell::Alive);
    assert_eq!(u.cells().iter().filter(|c| **c == Cell::Alive).count(), 1);
    u.toggle_cell(1, 2);
    assert_eq!(u.get(1, 2), Cell::Dead);
    assert!(u.cells().iter().all(|c| *c == Cell::Dead));
}
