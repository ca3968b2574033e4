use game_of_life::rules::next_state;
use game_of_life::{get_template, Cell, Lattice2D, LifeError, Pattern, Universe};
use Cell::{Alive as A, Dead as D};

fn alive_positions(u: &Universe) -> Vec<(usize, usize)> {
    let cols = u.ncols();
    u.state()
        .iter()
        .enumerate()
        .filter(|(_, c)| **c == Cell::Alive)
        .map(|(i, _)| (i / cols, i % cols))
        .collect()
}

fn empty(rows: usize, cols: usize) -> Universe {
    Universe::new(rows, cols, None).unwrap()
}

#[test]
fn new_fills_with_the_given_state() {
    let u = Universe::new(2, 3, Some(&Cell::Alive)).unwrap();
    assert_eq!(u.nrows(), 2);
    assert_eq!(u.ncols(), 3);
    assert_eq!(u.state(), &[Cell::Alive; 6][..]);
    let d = Universe::new(3, 2, None).unwrap();
    assert_eq!(d.nrows(), 3);
    assert_eq!(d.ncols(), 2);
    assert!(d.state().iter().all(|c| *c == Cell::Dead));
}

#[test]
fn new_rejects_zero_dimensions() {
    assert_eq!(Universe::new(0, 3, None).err(), Some(LifeError::InvalidDimension));
    assert_eq!(Universe::new(3, 0, None).err(), Some(LifeError::InvalidDimension));
    assert_eq!(Universe::new(0, 0, None).err(), Some(LifeError::InvalidDimension));
}

#[test]
fn new_rejects_oversized_grid() {
    assert_eq!(Universe::new(usize::MAX, 2, None).err(), Some(LifeError::InvalidDimension));
    assert_eq!(
        Universe::new(isize::MAX as usize, 2, None).err(),
        Some(LifeError::InvalidDimension)
    );
}

#[test]
fn tick_on_dead_grid_stays_dead() {
    let mut u = empty(4, 7);
    u.tick();
    assert!(u.state().iter().all(|c| *c == Cell::Dead));
    let mut one = empty(1, 1);
    one.tick();
    assert_eq!(one.state(), &[Cell::Dead][..]);
}

#[test]
fn vertical_blinker_on_three_by_three() {
    let mut u = empty(3, 3);
    u.set_cells(&[(0, 1), (1, 1), (2, 1)]).unwrap();
    u.tick();
    // On a 3x3 torus every other cell is a neighbour: the middle row keeps
    // or gains life, and each dead cell also sees three live neighbours.
    assert_eq!(&u.state()[3..6], &[A, A, A][..]);
    assert_eq!(u.state(), &[A, A, A, A, A, A, A, A, A][..]);
}

#[test]
fn blinker_oscillates_on_five_by_five() {
    let mut u = empty(5, 5);
    u.set_cells(&[(1, 2), (2, 2), (3, 2)]).unwrap();
    u.tick();
    assert_eq!(alive_positions(&u), vec![(2, 1), (2, 2), (2, 3)]);
    u.tick();
    assert_eq!(alive_positions(&u), vec![(1, 2), (2, 2), (3, 2)]);
}

#[test]
fn rule_cases() {
    assert_eq!(next_state(Cell::Dead, 3), Cell::Alive);
    assert_eq!(next_state(Cell::Dead, 2), Cell::Dead);
    assert_eq!(next_state(Cell::Dead, 4), Cell::Dead);
    assert_eq!(next_state(Cell::Alive, 2), Cell::Alive);
    assert_eq!(next_state(Cell::Alive, 3), Cell::Alive);
    assert_eq!(next_state(Cell::Alive, 1), Cell::Dead);
    assert_eq!(next_state(Cell::Alive, 0), Cell::Dead);
    assert_eq!(next_state(Cell::Alive, 4), Cell::Dead);
    assert_eq!(next_state(Cell::Alive, 8), Cell::Dead);
}

#[test]
fn block_is_still_life_and_overcrowded_cell_dies() {
    let mut u = empty(6, 6);
    u.set_cells(&[(1, 1), (1, 2), (2, 1), (2, 2)]).unwrap();
    u.tick();
    assert_eq!(alive_positions(&u), vec![(1, 1), (1, 2), (2, 1), (2, 2)]);
    // a plus shape: the centre has four live neighbours and dies
    let mut p = empty(7, 7);
    p.set_cells(&[(3, 3), (2, 3), (4, 3), (3, 2), (3, 4)]).unwrap();
    p.tick();
    assert_eq!(p.state()[3 * 7 + 3], Cell::Dead);
    // the arms keep exactly three live neighbours... and survive
    assert_eq!(p.state()[2 * 7 + 3], Cell::Alive);
}

#[test]
fn lone_cell_starves() {
    let mut u = empty(4, 4);
    u.set_cells(&[(1, 1)]).unwrap();
    u.tick();
    assert!(u.state().iter().all(|c| *c == Cell::Dead));
}

#[test]
fn neighbours_wrap_around_the_corner() {
    // (4, 4) sees (0, 0), (0, 4) and (4, 0) only through wrapping
    let mut u = empty(5, 5);
    u.set_cells(&[(0, 0), (0, 4), (4, 0)]).unwrap();
    u.tick();
    assert_eq!(u.state()[4 * 5 + 4], Cell::Alive);
}

#[test]
fn neighbours_wrap_on_non_square_grid() {
    let mut u = empty(4, 6);
    u.set_cells(&[(0, 0), (0, 5), (3, 0)]).unwrap();
    u.tick();
    assert_eq!(u.state()[3 * 6 + 5], Cell::Alive);
}

#[test]
fn single_cell_torus_counts_itself_eight_times() {
    let mut u = Universe::new(1, 1, Some(&Cell::Alive)).unwrap();
    u.tick();
    assert_eq!(u.state(), &[Cell::Dead][..]);
}

#[test]
fn two_ticks_differ_from_none() {
    let mut u = Universe::new(1, 1, Some(&Cell::Alive)).unwrap();
    u.tick();
    u.tick();
    assert_ne!(u.state(), &[Cell::Alive][..]);
}

#[test]
fn swap_twice_restores_the_buffers() {
    let mut l = Lattice2D::new(2, 2, &Cell::Dead);
    l.set_constant(&Cell::Alive);
    assert_eq!(l.buffer(), &[Cell::Alive; 4][..]);
    l.swap_buffers();
    assert_eq!(l.buffer(), &[Cell::Dead; 4][..]);
    l.swap_buffers();
    assert_eq!(l.buffer(), &[Cell::Alive; 4][..]);
    assert_eq!((l.nrows(), l.ncols()), (2, 2));
}

#[test]
fn render_draws_one_line_per_row() {
    let mut u = empty(2, 3);
    u.toggle_cell(0, 1).unwrap();
    u.toggle_cell(1, 2).unwrap();
    assert_eq!(u.render(), "\u{25fb}\u{25fc}\u{25fb}\n\u{25fb}\u{25fb}\u{25fc}\n");
    let text = empty(4, 5).render();
    let lines: Vec<&str> = text.split_terminator('\n').collect();
    assert_eq!(lines.len(), 4);
    assert!(lines.iter().all(|l| l.chars().count() == 5));
    assert!(text.ends_with('\n'));
}

#[test]
fn toggle_flips_and_flips_back() {
    let mut u = empty(3, 3);
    assert_eq!(u.toggle_cell(2, 1), Ok(()));
    assert_eq!(u.state()[7], Cell::Alive);
    assert_eq!(u.toggle_cell(2, 1), Ok(()));
    assert_eq!(u.state()[7], Cell::Dead);
}

#[test]
fn toggle_out_of_bounds_is_rejected() {
    let mut u = empty(3, 4);
    assert_eq!(u.toggle_cell(3, 0), Err(LifeError::OutOfBounds));
    assert_eq!(u.toggle_cell(0, 4), Err(LifeError::OutOfBounds));
    assert!(u.state().iter().all(|c| *c == Cell::Dead));
}

#[test]
fn set_cells_is_idempotent_on_duplicates() {
    let mut u = empty(3, 3);
    u.set_cells(&[(1, 1), (1, 1), (0, 2)]).unwrap();
    assert_eq!(alive_positions(&u), vec![(0, 2), (1, 1)]);
}

#[test]
fn set_cells_out_of_bounds_changes_nothing() {
    let mut u = empty(3, 3);
    u.set_cells(&[(0, 0)]).unwrap();
    assert_eq!(u.set_cells(&[(1, 1), (3, 0)]), Err(LifeError::OutOfBounds));
    assert_eq!(alive_positions(&u), vec![(0, 0)]);
}

#[test]
fn clear_kills_everything() {
    let mut u = Universe::new(3, 4, Some(&Cell::Alive)).unwrap();
    u.clear();
    assert!(u.state().iter().all(|c| *c == Cell::Dead));
    assert_eq!((u.nrows(), u.ncols()), (3, 4));
}

#[test]
fn glider_stamp_sets_five_cells() {
    let mut u = empty(8, 8);
    u.add_pattern(Pattern::Glider, 3, 4);
    assert_eq!(alive_positions(&u), vec![(3, 5), (4, 6), (5, 4), (5, 5), (5, 6)]);
    u.add_pattern(Pattern::Glider, 3, 4);
    assert_eq!(alive_positions(&u), vec![(3, 5), (4, 6), (5, 4), (5, 5), (5, 6)]);
}

#[test]
fn glider_stamp_wraps_around() {
    let mut u = empty(5, 5);
    u.add_pattern(Pattern::Glider, 4, 4);
    assert_eq!(alive_positions(&u), vec![(0, 1), (1, 0), (1, 1), (1, 4), (4, 0)]);
    assert_eq!(u.state().iter().filter(|c| **c == Cell::Alive).count(), 5);
}

#[test]
fn glider_stamp_far_anchor_wraps() {
    let mut u = empty(5, 5);
    u.add_pattern(Pattern::Glider, usize::MAX, usize::MAX);
    // usize::MAX is 0 modulo 5
    assert_eq!(alive_positions(&u), vec![(0, 1), (1, 2), (2, 0), (2, 1), (2, 2)]);
}

#[test]
fn stamp_keeps_other_live_cells() {
    let mut u = empty(8, 8);
    u.set_cells(&[(7, 7)]).unwrap();
    u.add_pattern(Pattern::Glider, 0, 0);
    assert_eq!(alive_positions(&u), vec![(0, 1), (1, 2), (2, 0), (2, 1), (2, 2), (7, 7)]);
}

#[test]
fn pulsar_stamp_sets_its_template() {
    let mut u = empty(16, 16);
    u.add_pattern(Pattern::Pulsar, 2, 3);
    let mut expected: Vec<(usize, usize)> =
        get_template(Pattern::Pulsar).iter().map(|(y, x)| (y + 2, x + 3)).collect();
    expected.sort();
    assert_eq!(alive_positions(&u), expected);
    assert_eq!(expected.len(), 28);
}

#[test]
fn templates() {
    assert_eq!(get_template(Pattern::Glider), vec![(2, 2), (2, 1), (2, 0), (1, 2), (0, 1)]);
    let pulsar = get_template(Pattern::Pulsar);
    assert_eq!(pulsar.len(), 28);
    assert_eq!(pulsar[0], (0, 3));
    assert_eq!(pulsar[27], (9, 6));
}

#[test]
fn randomize_zero_and_one() {
    let mut u = Universe::new(3, 3, Some(&Cell::Alive)).unwrap();
    let draws: Vec<u32> = vec![0, 1, 7, 100, 1 << 31, u32::MAX - 1, u32::MAX, 5, 9];
    u.randomize(0, &draws);
    assert!(u.state().iter().all(|c| *c == Cell::Dead));
    u.randomize(1u64 << 32, &draws);
    assert!(u.state().iter().all(|c| *c == Cell::Alive));
    u.randomize(u64::MAX, &draws);
    assert!(u.state().iter().all(|c| *c == Cell::Alive));
}

#[test]
fn randomize_follows_the_draws() {
    let mut u = empty(2, 2);
    u.randomize(10, &[9, 10, 0, 11]);
    assert_eq!(u.state(), &[A, D, A, D][..]);
}
