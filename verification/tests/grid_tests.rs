use life::grid::count_live_neighbors;
use life::grid::fill;
use life::grid::new_table;
use life::grid::render_frame;
use life::grid::toggle;
use life::grid::update_table;

fn set_alive(table: &mut Vec<Vec<bool>>, cells: &[(usize, usize)]) {
    for &(r, c) in cells {
        toggle(table, r, c);
    }
}

#[test]
fn new_table_is_all_dead() {
    let table = new_table(4, 6);
    assert_eq!(table.len(), 4);
    for row in &table {
        assert_eq!(row.len(), 6);
        for &cell in row {
            assert!(!cell);
        }
    }
}

#[test]
fn all_dead_grid_is_a_fixed_point() {
    let mut table = new_table(4, 4);
    update_table(&mut table);
    for row in &table {
        for &cell in row {
            assert!(!cell);
        }
    }
}

#[test]
fn live_cell_with_one_neighbor_dies() {
    let mut table = new_table(5, 5);
    set_alive(&mut table, &[(2, 2), (2, 3)]);
    update_table(&mut table);
    assert!(!table[2][2]);
    assert!(!table[2][3]);
}

#[test]
fn live_cell_with_two_neighbors_survives() {
    let mut table = new_table(5, 5);
    set_alive(&mut table, &[(2, 1), (2, 2), (2, 3)]);
    update_table(&mut table);
    assert!(table[2][2]);
}

#[test]
fn live_cell_with_three_neighbors_survives() {
    let mut table = new_table(5, 5);
    set_alive(&mut table, &[(1, 2), (2, 1), (2, 2), (2, 3)]);
    update_table(&mut table);
    assert!(table[2][2]);
}

#[test]
fn live_cell_with_four_neighbors_dies() {
    let mut table = new_table(5, 5);
    set_alive(&mut table, &[(1, 2), (2, 1), (2, 2), (2, 3), (3, 2)]);
    update_table(&mut table);
    assert!(!table[2][2]);
}

#[test]
fn dead_cell_with_three_neighbors_is_born() {
    let mut table = new_table(5, 5);
    set_alive(&mut table, &[(1, 2), (2, 1), (2, 3)]);
    update_table(&mut table);
    assert!(table[2][2]);
}

#[test]
fn dead_cell_with_two_neighbors_stays_dead() {
    let mut table = new_table(5, 5);
    set_alive(&mut table, &[(2, 1), (2, 3)]);
    update_table(&mut table);
    assert!(!table[2][2]);
}

#[test]
fn blinker_oscillates_with_period_two() {
    let mut table = new_table(5, 5);
    set_alive(&mut table, &[(2, 1), (2, 2), (2, 3)]);

    update_table(&mut table);
    let mut vertical = new_table(5, 5);
    set_alive(&mut vertical, &[(1, 2), (2, 2), (3, 2)]);
    assert_eq!(table, vertical);

    update_table(&mut table);
    let mut horizontal = new_table(5, 5);
    set_alive(&mut horizontal, &[(2, 1), (2, 2), (2, 3)]);
    assert_eq!(table, horizontal);
}

#[test]
fn isolated_cell_dies_in_the_interior() {
    let mut table = new_table(5, 5);
    set_alive(&mut table, &[(2, 2)]);
    update_table(&mut table);
    for row in &table {
        for &cell in row {
            assert!(!cell);
        }
    }
}

#[test]
fn isolated_cell_dies_in_a_corner() {
    let mut table = new_table(3, 3);
    set_alive(&mut table, &[(0, 0)]);
    update_table(&mut table);
    for row in &table {
        for &cell in row {
            assert!(!cell);
        }
    }
}

#[test]
fn neighbor_count_at_corner_edge_and_interior() {
    // Every cell alive: the count equals the number of in-bounds
    // neighbor positions — 3 in a corner, 5 on an edge, 8 inside.
    let mut table = new_table(3, 3);
    for r in 0..3 {
        for c in 0..3 {
            toggle(&mut table, r, c);
        }
    }
    assert_eq!(count_live_neighbors(&table, 0, 0), 3);
    assert_eq!(count_live_neighbors(&table, 0, 2), 3);
    assert_eq!(count_live_neighbors(&table, 2, 0), 3);
    assert_eq!(count_live_neighbors(&table, 2, 2), 3);
    assert_eq!(count_live_neighbors(&table, 0, 1), 5);
    assert_eq!(count_live_neighbors(&table, 1, 0), 5);
    assert_eq!(count_live_neighbors(&table, 1, 1), 8);
}

#[test]
fn toggle_flips_exactly_one_cell() {
    let mut table = new_table(3, 3);
    toggle(&mut table, 1, 2);
    for r in 0..3 {
        for c in 0..3 {
            assert_eq!(table[r][c], r == 1 && c == 2);
        }
    }
}

#[test]
fn toggle_twice_restores_the_cell() {
    let mut table = new_table(3, 3);
    toggle(&mut table, 0, 0);
    let before = table.clone();
    toggle(&mut table, 2, 1);
    toggle(&mut table, 2, 1);
    assert_eq!(table, before);
}

#[test]
fn toggle_out_of_bounds_is_a_no_op() {
    let mut table = new_table(3, 3);
    let before = table.clone();
    toggle(&mut table, 3, 0);
    toggle(&mut table, 0, 3);
    toggle(&mut table, 7, 7);
    assert_eq!(table, before);
}

#[test]
fn fill_maps_cells_to_glyphs() {
    assert_eq!(fill(true), '\u{2588}');
    assert_eq!(fill(false), ' ');
}

#[test]
fn render_frame_draws_one_glyph_per_cell() {
    let mut table = new_table(2, 3);
    set_alive(&mut table, &[(0, 0), (1, 2)]);
    let frame = render_frame(&table);
    assert_eq!(frame.len(), 2);
    assert_eq!(frame[0], vec!['\u{2588}', ' ', ' ']);
    assert_eq!(frame[1], vec![' ', ' ', '\u{2588}']);
}
