use game_of_life::{Cell, Coord, OutOfBounds, Universe};

fn alive_cells(u: &Universe) -> Vec<(usize, usize)> {
    let mut found = Vec::new();
    for row in 0..u.get_height() {
        for col in 0..u.get_width() {
            if u.is_alive(Coord::new(row, col)) == Ok(true) {
                found.push((row, col));
            }
        }
    }
    found
}

fn universe_with(height: usize, width: usize, alive: &[(usize, usize)]) -> Universe {
    let mut u = Universe::new(height, width);
    for &(row, col) in alive {
        assert_eq!(u.set_pixel(Coord::new(row, col), Cell::Alive), Ok(()));
    }
    u
}

#[test]
fn new_universe_is_all_dead() {
    let u = Universe::new(3, 4);
    assert_eq!(u.get_height(), 3);
    assert_eq!(u.get_width(), 4);
    assert_eq!(u.cells().len(), 12);
    assert!(u.cells().iter().all(|c| *c == Cell::Dead));
    assert_eq!(alive_cells(&u), vec![]);
}

#[test]
fn coord_to_idx_is_col_plus_width_times_row() {
    let u = Universe::new(3, 4);
    assert_eq!(u.coord_to_idx(Coord::new(0, 0)), Ok(0));
    assert_eq!(u.coord_to_idx(Coord::new(0, 3)), Ok(3));
    assert_eq!(u.coord_to_idx(Coord::new(1, 0)), Ok(4));
    assert_eq!(u.coord_to_idx(Coord::new(2, 1)), Ok(9));
    assert_eq!(u.coord_to_idx(Coord::new(2, 3)), Ok(11));
}

#[test]
fn coord_to_idx_rejects_what_lies_outside() {
    let u = Universe::new(3, 4);
    assert_eq!(u.coord_to_idx(Coord::new(3, 0)), Err(OutOfBounds));
    assert_eq!(u.coord_to_idx(Coord::new(0, 4)), Err(OutOfBounds));
    assert_eq!(u.coord_to_idx(Coord::new(usize::MAX, usize::MAX)), Err(OutOfBounds));
}

#[test]
fn idx_to_coords_is_quotient_and_remainder() {
    let u = Universe::new(3, 4);
    assert_eq!(u.idx_to_coords(0), Coord::new(0, 0));
    assert_eq!(u.idx_to_coords(3), Coord::new(0, 3));
    assert_eq!(u.idx_to_coords(4), Coord::new(1, 0));
    assert_eq!(u.idx_to_coords(9), Coord::new(2, 1));
    assert_eq!(u.idx_to_coords(11), Coord::new(2, 3));
}

#[test]
fn idx_to_coords_beyond_the_grid_still_divides() {
    let u = Universe::new(3, 4);
    assert_eq!(u.idx_to_coords(12), Coord::new(3, 0));
    assert_eq!(u.idx_to_coords(14), Coord::new(3, 2));
}

#[test]
fn index_round_trip_over_the_whole_grid() {
    let u = Universe::new(5, 7);
    for i in 0..35 {
        let c = u.idx_to_coords(i);
        assert!(c.row < 5 && c.col < 7);
        assert_eq!(u.coord_to_idx(c), Ok(i));
    }
}

#[test]
fn coord_round_trip_over_the_whole_grid() {
    let u = Universe::new(5, 7);
    for row in 0..5 {
        for col in 0..7 {
            let c = Coord::new(row, col);
            let i = u.coord_to_idx(c).unwrap();
            assert!(i < 35);
            assert_eq!(u.idx_to_coords(i), c);
        }
    }
}

#[test]
fn set_pixel_changes_only_the_named_cell() {
    let mut u = Universe::new(3, 4);
    assert_eq!(u.set_pixel(Coord::new(1, 2), Cell::Alive), Ok(()));
    assert_eq!(alive_cells(&u), vec![(1, 2)]);
    assert_eq!(u.cells()[6], Cell::Alive);
    assert_eq!(u.set_pixel(Coord::new(1, 2), Cell::Dead), Ok(()));
    assert_eq!(alive_cells(&u), vec![]);
}

#[test]
fn set_pixel_outside_fails_and_changes_nothing() {
    let mut u = universe_with(3, 4, &[(0, 0), (2, 3)]);
    let before = u.cells().clone();
    assert_eq!(u.set_pixel(Coord::new(3, 0), Cell::Alive), Err(OutOfBounds));
    assert_eq!(u.set_pixel(Coord::new(0, 4), Cell::Alive), Err(OutOfBounds));
    assert_eq!(u.cells(), &before);
}

#[test]
fn column_past_the_edge_does_not_spill_into_the_next_row() {
    // (0, 4) on a grid of width 4 has the flat index of (1, 0), but it is
    // no position of the grid and is rejected as such.
    let mut u = universe_with(3, 4, &[(1, 0)]);
    assert_eq!(u.is_alive(Coord::new(0, 4)), Err(OutOfBounds));
    assert_eq!(u.get(Coord::new(0, 4)), Err(OutOfBounds));
    assert_eq!(u.toggle_pixel(Coord::new(0, 4)), Err(OutOfBounds));
    assert_eq!(u.alive_neighbor_count(Coord::new(0, 4)), Err(OutOfBounds));
    assert_eq!(alive_cells(&u), vec![(1, 0)]);
}

#[test]
fn get_and_is_alive_read_the_cell() {
    let u = universe_with(3, 4, &[(2, 1)]);
    assert_eq!(u.get(Coord::new(2, 1)), Ok(Cell::Alive));
    assert_eq!(u.get(Coord::new(1, 2)), Ok(Cell::Dead));
    assert_eq!(u.is_alive(Coord::new(2, 1)), Ok(true));
    assert_eq!(u.is_alive(Coord::new(1, 2)), Ok(false));
    assert_eq!(u.is_alive(Coord::new(3, 1)), Err(OutOfBounds));
}

#[test]
fn get_by_index_reads_the_flat_buffer() {
    let u = universe_with(3, 4, &[(2, 1)]);
    assert_eq!(u.get_by_index(9), Ok(Cell::Alive));
    assert_eq!(u.get_by_index(0), Ok(Cell::Dead));
    assert_eq!(u.get_by_index(11), Ok(Cell::Dead));
    assert_eq!(u.get_by_index(12), Err(OutOfBounds));
}

#[test]
fn set_by_index_writes_the_flat_buffer() {
    let mut u = Universe::new(3, 4);
    assert_eq!(u.set_by_index(9, Cell::Alive), Ok(()));
    assert_eq!(alive_cells(&u), vec![(2, 1)]);
    assert_eq!(u.set_by_index(12, Cell::Alive), Err(OutOfBounds));
    assert_eq!(alive_cells(&u), vec![(2, 1)]);
}

#[test]
fn toggle_pixel_negates_the_cell() {
    let mut u = Universe::new(3, 4);
    assert_eq!(u.toggle_pixel(Coord::new(1, 1)), Ok(()));
    assert_eq!(alive_cells(&u), vec![(1, 1)]);
    assert_eq!(u.toggle_pixel(Coord::new(1, 1)), Ok(()));
    assert_eq!(alive_cells(&u), vec![]);
}

#[test]
fn toggle_twice_restores_every_cell() {
    let start = universe_with(4, 5, &[(0, 0), (1, 3), (3, 4), (2, 2)]);
    for row in 0..6 {
        for col in 0..7 {
            let mut u = start.clone();
            let c = Coord::new(row, col);
            let first = u.toggle_pixel(c);
            let second = u.toggle_pixel(c);
            assert_eq!(first, second);
            assert_eq!(first.is_ok(), row < 4 && col < 5);
            assert_eq!(u.cells(), start.cells());
        }
    }
}

#[test]
fn clone_is_independent_of_its_source() {
    let source = universe_with(3, 3, &[(1, 1)]);
    let mut copy = source.clone();
    assert_eq!(copy.cells(), source.cells());
    assert_eq!(copy.get_height(), 3);
    assert_eq!(copy.get_width(), 3);
    copy.toggle_pixel(Coord::new(0, 0)).unwrap();
    assert_eq!(alive_cells(&source), vec![(1, 1)]);
    assert_eq!(alive_cells(&copy), vec![(0, 0), (1, 1)]);
}

#[test]
fn zero_height_universe_has_no_cells() {
    let mut u = Universe::new(0, 5);
    assert_eq!(u.get_height(), 0);
    assert_eq!(u.get_width(), 5);
    assert!(u.cells().is_empty());
    let c = Coord::new(0, 0);
    assert_eq!(u.is_alive(c), Err(OutOfBounds));
    assert_eq!(u.get(c), Err(OutOfBounds));
    assert_eq!(u.coord_to_idx(c), Err(OutOfBounds));
    assert_eq!(u.set_pixel(c, Cell::Alive), Err(OutOfBounds));
    assert_eq!(u.toggle_pixel(c), Err(OutOfBounds));
    assert_eq!(u.alive_neighbor_count(c), Err(OutOfBounds));
    assert_eq!(u.get_by_index(0), Err(OutOfBounds));
    assert_eq!(u.set_by_index(0, Cell::Alive), Err(OutOfBounds));
    u.tick();
    assert!(u.cells().is_empty());
    assert_eq!(u.render(), "");
}

#[test]
fn zero_width_universe_has_no_cells() {
    let mut u = Universe::new(5, 0);
    assert_eq!(u.get_height(), 5);
    assert_eq!(u.get_width(), 0);
    assert!(u.cells().is_empty());
    let c = Coord::new(0, 0);
    assert_eq!(u.is_alive(c), Err(OutOfBounds));
    assert_eq!(u.coord_to_idx(c), Err(OutOfBounds));
    assert_eq!(u.set_pixel(c, Cell::Alive), Err(OutOfBounds));
    assert_eq!(u.toggle_pixel(c), Err(OutOfBounds));
    assert_eq!(u.alive_neighbor_count(c), Err(OutOfBounds));
    u.tick();
    assert!(u.cells().is_empty());
    assert_eq!(u.render(), "");
}

#[test]
fn render_draws_each_row_on_a_line() {
    let u = universe_with(2, 3, &[(0, 1), (1, 0)]);
    assert_eq!(u.render(), "◻◼◻\n◼◻◻\n");
}

#[test]
fn render_of_a_dead_universe() {
    assert_eq!(Universe::new(3, 2).render(), "◻◻\n◻◻\n◻◻\n");
    assert_eq!(Universe::new(1, 1).render(), "◻\n");
}

#[test]
fn render_has_one_glyph_per_cell_and_one_break_per_row() {
    let u = universe_with(4, 6, &[(0, 0), (3, 5), (2, 2)]);
    let text = u.render();
    assert_eq!(text.chars().count(), 4 * 7);
    let lines: Vec<&str> = text.split('\n').collect();
    assert_eq!(lines.len(), 5);
    assert_eq!(lines[4], "");
    for (row, line) in lines[..4].iter().enumerate() {
        let glyphs: Vec<char> = line.chars().collect();
        assert_eq!(glyphs.len(), 6);
        for (col, glyph) in glyphs.iter().enumerate() {
            let cell = u.get(Coord::new(row, col)).unwrap();
            assert_eq!(*glyph, cell.glyph());
        }
    }
}

#[test]
fn render_does_not_change_the_universe() {
    let u = universe_with(2, 3, &[(0, 1), (1, 0)]);
    let before = u.cells().clone();
    let first = u.render();
    let second = u.render();
    assert_eq!(first, second);
    assert_eq!(u.cells(), &before);
}

#[test]
fn resize_larger_keeps_the_pattern_in_place() {
    let pattern = [(0, 0), (0, 2), (1, 1), (2, 0), (2, 2)];
    let mut u = universe_with(3, 3, &pattern);
    u.set_dimensions(Coord::new(5, 6));
    assert_eq!(u.get_height(), 5);
    assert_eq!(u.get_width(), 6);
    assert_eq!(u.cells().len(), 30);
    assert_eq!(alive_cells(&u), pattern.to_vec());
}

#[test]
fn resize_smaller_keeps_what_is_still_inside() {
    let mut u = universe_with(4, 5, &[(0, 0), (1, 1), (1, 4), (3, 0), (2, 2), (3, 4)]);
    u.set_dimensions(Coord::new(3, 3));
    assert_eq!(u.get_height(), 3);
    assert_eq!(u.get_width(), 3);
    assert_eq!(u.cells().len(), 9);
    assert_eq!(alive_cells(&u), vec![(0, 0), (1, 1), (2, 2)]);
}

#[test]
fn resize_taller_and_narrower() {
    let mut u = universe_with(2, 4, &[(0, 1), (0, 3), (1, 0), (1, 2)]);
    u.set_dimensions(Coord::new(4, 2));
    assert_eq!(u.get_height(), 4);
    assert_eq!(u.get_width(), 2);
    assert_eq!(alive_cells(&u), vec![(0, 1), (1, 0)]);
}

#[test]
fn resize_to_the_same_dimensions_changes_nothing() {
    let mut u = universe_with(3, 4, &[(0, 1), (2, 3), (1, 0)]);
    let before = u.cells().clone();
    u.set_dimensions(Coord::new(3, 4));
    assert_eq!(u.cells(), &before);
}

#[test]
fn resize_larger_and_back_restores_the_grid() {
    let mut u = universe_with(3, 4, &[(0, 1), (2, 3), (1, 0)]);
    let before = u.cells().clone();
    u.set_dimensions(Coord::new(7, 9));
    u.set_dimensions(Coord::new(3, 4));
    assert_eq!(u.cells(), &before);
}

#[test]
fn resize_to_nothing_and_back_leaves_all_dead() {
    let mut u = universe_with(3, 4, &[(0, 1), (2, 3), (1, 0)]);
    u.set_dimensions(Coord::new(0, 0));
    assert!(u.cells().is_empty());
    u.set_dimensions(Coord::new(3, 4));
    assert_eq!(u.cells().len(), 12);
    assert_eq!(alive_cells(&u), vec![]);
}

#[test]
fn resized_universe_ticks_on_its_new_torus() {
    // A blinker drawn on a small grid keeps oscillating after the grid has
    // grown around it.
    let mut u = universe_with(3, 3, &[(1, 0), (1, 1), (1, 2)]);
    u.set_dimensions(Coord::new(5, 5));
    u.tick();
    assert_eq!(alive_cells(&u), vec![(0, 1), (1, 1), (2, 1)]);
}
