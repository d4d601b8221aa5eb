use game_of_life::universe::next_cell_state;
use game_of_life::Cell;
use game_of_life::Universe;

fn dead_grid(width: usize, height: usize) -> Vec<bool> {
    vec![false; width * height]
}

fn set_alive(grid: &mut Vec<bool>, width: usize, row: usize, col: usize) {
    grid[row * width + col] = true;
}

fn alive_cells(u: &Universe) -> Vec<(u16, u16)> {
    let mut out = Vec::new();
    for row in 0..u.height() {
        for col in 0..u.width() {
            if u.get_cell(row, col) == Cell::Alive {
                out.push((row, col));
            }
        }
    }
    out
}

#[test]
fn new_fixes_dimensions_and_keeps_seed() {
    let mut seed = dead_grid(64, 64);
    set_alive(&mut seed, 64, 0, 0);
    set_alive(&mut seed, 64, 10, 63);
    set_alive(&mut seed, 64, 63, 5);
    let u = Universe::new(seed);
    assert_eq!(u.width(), 64);
    assert_eq!(u.height(), 64);
    assert_eq!(alive_cells(&u), vec![(0, 0), (10, 63), (63, 5)]);
}

#[test]
fn from_cells_reads_back_the_seed() {
    let width: usize = 3;
    let mut seed = dead_grid(width, 4);
    set_alive(&mut seed, width, 0, 2);
    set_alive(&mut seed, width, 3, 0);
    let u = Universe::from_cells(3, 4, seed.clone());
    assert_eq!(u.width(), 3);
    assert_eq!(u.height(), 4);
    for row in 0..4u16 {
        for col in 0..3u16 {
            let expected = seed[row as usize * width + col as usize];
            let got = u.get_cell(row, col) == Cell::Alive;
            assert_eq!(got, expected, "cell ({}, {})", row, col);
        }
    }
}

#[test]
fn cells_exposes_the_packed_buffer() {
    let mut seed = dead_grid(5, 5);
    set_alive(&mut seed, 5, 1, 3);
    let u = Universe::from_cells(5, 5, seed);
    let bits = u.cells();
    assert_eq!(bits.len(), 25);
    for i in 0..25 {
        assert_eq!(bits.contains(i), i == 1 * 5 + 3, "bit {}", i);
    }
}

#[test]
fn all_dead_grid_stays_dead() {
    let mut u = Universe::from_cells(3, 3, dead_grid(3, 3));
    u.tick();
    assert!(alive_cells(&u).is_empty());
}

#[test]
fn fully_alive_toroidal_grid_dies_of_overpopulation() {
    // With wrap, every cell of a full 3 x 3 grid has eight live neighbours.
    let seed = vec![true; 9];
    let mut u = Universe::from_cells(3, 3, seed);
    u.tick();
    assert!(alive_cells(&u).is_empty());
}

#[test]
fn blinker_oscillates_with_period_two() {
    let mut seed = dead_grid(6, 6);
    set_alive(&mut seed, 6, 2, 1);
    set_alive(&mut seed, 6, 2, 2);
    set_alive(&mut seed, 6, 2, 3);
    let mut u = Universe::from_cells(6, 6, seed);
    u.tick();
    assert_eq!(alive_cells(&u), vec![(1, 2), (2, 2), (3, 2)]);
    u.tick();
    assert_eq!(alive_cells(&u), vec![(2, 1), (2, 2), (2, 3)]);
}

#[test]
fn block_is_a_still_life() {
    let mut seed = dead_grid(6, 6);
    set_alive(&mut seed, 6, 1, 1);
    set_alive(&mut seed, 6, 1, 2);
    set_alive(&mut seed, 6, 2, 1);
    set_alive(&mut seed, 6, 2, 2);
    let mut u = Universe::from_cells(6, 6, seed);
    u.tick();
    assert_eq!(alive_cells(&u), vec![(1, 1), (1, 2), (2, 1), (2, 2)]);
}

#[test]
fn rows_wrap_around_the_vertical_edges() {
    // A vertical blinker crossing the top edge: rows 4, 0, 1 of column 2.
    let mut seed = dead_grid(5, 5);
    set_alive(&mut seed, 5, 4, 2);
    set_alive(&mut seed, 5, 0, 2);
    set_alive(&mut seed, 5, 1, 2);
    let mut u = Universe::from_cells(5, 5, seed);
    u.tick();
    // Row 0 sees the live cell in row 4 as a neighbour, so the trio turns
    // into a horizontal line in row 0.
    assert_eq!(alive_cells(&u), vec![(0, 1), (0, 2), (0, 3)]);
}

#[test]
fn columns_wrap_around_the_horizontal_edges() {
    // A horizontal blinker crossing the left edge: columns 4, 0, 1 of row 2.
    let mut seed = dead_grid(5, 5);
    set_alive(&mut seed, 5, 2, 4);
    set_alive(&mut seed, 5, 2, 0);
    set_alive(&mut seed, 5, 2, 1);
    let mut u = Universe::from_cells(5, 5, seed);
    u.tick();
    assert_eq!(alive_cells(&u), vec![(1, 0), (2, 0), (3, 0)]);
}

#[test]
fn advancing_equal_universes_is_deterministic() {
    let mut seed = dead_grid(8, 8);
    for (row, col) in [(0, 0), (1, 2), (2, 1), (2, 2), (3, 5), (4, 4), (5, 3), (7, 7)] {
        set_alive(&mut seed, 8, row, col);
    }
    let mut a = Universe::from_cells(8, 8, seed.clone());
    let mut b = Universe::from_cells(8, 8, seed);
    for _ in 0..3 {
        a.tick();
        b.tick();
        assert_eq!(alive_cells(&a), alive_cells(&b));
    }
}

#[test]
fn rule_table_matches_conways_rule() {
    // A live cell survives with two or three live neighbours.
    assert!(!next_cell_state(true, 0));
    assert!(!next_cell_state(true, 1));
    assert!(next_cell_state(true, 2));
    assert!(next_cell_state(true, 3));
    for n in 4..=8u8 {
        assert!(!next_cell_state(true, n));
    }
    // A dead cell comes alive with exactly three live neighbours.
    for n in 0..=8u8 {
        assert_eq!(next_cell_state(false, n), n == 3);
    }
}

#[test]
fn single_cells_die_of_underpopulation() {
    let mut seed = dead_grid(4, 4);
    set_alive(&mut seed, 4, 1, 1);
    let mut u = Universe::from_cells(4, 4, seed);
    u.tick();
    assert!(alive_cells(&u).is_empty());
}
