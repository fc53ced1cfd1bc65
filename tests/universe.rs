use game_of_life::{GridError, Universe, DENSITY_DENOMINATOR, DENSITY_NUMERATOR};

fn grid_with(width: usize, height: usize, alive: &[(usize, usize)]) -> Universe {
    let mut states = vec![false; width * height];
    for &(r, c) in alive {
        states[r * width + c] = true;
    }
    Universe::from_states(width, height, &states).unwrap()
}

fn alive_cells(u: &Universe) -> Vec<(usize, usize)> {
    let mut out = Vec::new();
    for r in 0..u.height() {
        for c in 0..u.width() {
            if u.is_alive(r, c) {
                out.push((r, c));
            }
        }
    }
    out
}

#[test]
fn wrap_reaches_opposite_corner() {
    let u = grid_with(3, 3, &[(0, 0)]);
    assert_eq!(u.live_neighbor_count(2, 2), 1);
    assert_eq!(u.live_neighbor_count(0, 2), 1);
    assert_eq!(u.live_neighbor_count(2, 0), 1);
    assert_eq!(u.live_neighbor_count(0, 0), 0);
}

#[test]
fn neighbor_count_of_full_grid_is_eight() {
    let u = Universe::from_states(4, 4, &vec![true; 16]).unwrap();
    assert_eq!(u.live_neighbor_count(0, 0), 8);
    assert_eq!(u.live_neighbor_count(3, 3), 8);
}

#[test]
fn block_is_still_life() {
    for &(w, h) in &[(4usize, 4usize), (6, 5), (7, 9)] {
        let block = [(1, 1), (1, 2), (2, 1), (2, 2)];
        let mut u = grid_with(w, h, &block);
        for _ in 0..3 {
            u.tick();
            assert_eq!(alive_cells(&u), block.to_vec());
        }
    }
}

#[test]
fn block_across_the_edge_is_still_life() {
    let block = [(0, 0), (0, 4), (4, 0), (4, 4)];
    let mut u = grid_with(5, 5, &block);
    u.tick();
    assert_eq!(alive_cells(&u), block.to_vec());
}

#[test]
fn blinker_has_period_two() {
    let horizontal = [(2, 1), (2, 2), (2, 3)];
    let vertical = [(1, 2), (2, 2), (3, 2)];
    let mut u = grid_with(5, 5, &horizontal);
    u.tick();
    assert_eq!(alive_cells(&u), vertical.to_vec());
    u.tick();
    assert_eq!(alive_cells(&u), horizontal.to_vec());
}

const AROUND: [(usize, usize); 8] = [(1, 1), (1, 2), (1, 3), (2, 1), (2, 3), (3, 1), (3, 2), (3, 3)];

#[test]
fn birth_needs_exactly_three() {
    for n in 0..=8 {
        let mut u = grid_with(5, 5, &AROUND[..n]);
        assert_eq!(u.live_neighbor_count(2, 2) as usize, n);
        u.tick();
        assert_eq!(u.is_alive(2, 2), n == 3, "count {}", n);
    }
}

#[test]
fn survival_needs_two_or_three() {
    for n in 0..=8 {
        let mut alive = AROUND[..n].to_vec();
        alive.push((2, 2));
        let mut u = grid_with(5, 5, &alive);
        u.tick();
        assert_eq!(u.is_alive(2, 2), n == 2 || n == 3, "count {}", n);
    }
}

#[test]
fn set_width_clears_cells() {
    let mut u = Universe::new(8, 4).unwrap();
    assert_eq!(u.set_width(10), Ok(()));
    assert_eq!(u.width(), 10);
    assert_eq!(u.height(), 4);
    assert_eq!(u.get_cells().len(), 40);
    assert_eq!(u.cells().len(), 2);
    assert!(u.cells().iter().all(|b| *b == 0));
    assert!(alive_cells(&u).is_empty());
}

#[test]
fn set_height_clears_cells() {
    let mut u = Universe::new(8, 4).unwrap();
    assert_eq!(u.set_height(3), Ok(()));
    assert_eq!(u.width(), 8);
    assert_eq!(u.height(), 3);
    assert_eq!(u.get_cells().len(), 24);
    assert_eq!(u.cells(), &[0u32][..]);
}

#[test]
fn resize_to_zero_is_refused() {
    let mut u = Universe::new(8, 4).unwrap();
    let before = u.cells().to_vec();
    assert_eq!(u.set_width(0), Err(GridError::InvalidDimension));
    assert_eq!(u.set_height(0), Err(GridError::InvalidDimension));
    assert_eq!(u.set_width(usize::MAX), Err(GridError::InvalidDimension));
    assert_eq!(u.width(), 8);
    assert_eq!(u.height(), 4);
    assert_eq!(u.cells().to_vec(), before);
}

#[test]
fn zero_dimensions_are_refused() {
    assert!(matches!(Universe::new(0, 4), Err(GridError::InvalidDimension)));
    assert!(matches!(Universe::new(4, 0), Err(GridError::InvalidDimension)));
    assert!(matches!(Universe::rand(0, 0), Err(GridError::InvalidDimension)));
    assert!(matches!(Universe::new(usize::MAX, 2), Err(GridError::InvalidDimension)));
    assert!(matches!(
        Universe::from_states(2, 2, &[true, false, true]),
        Err(GridError::InvalidDimension)
    ));
}

#[test]
fn same_seed_gives_same_generations() {
    let mut a = Universe::new(16, 12).unwrap();
    let mut b = Universe::new(16, 12).unwrap();
    for _ in 0..5 {
        a.tick();
        b.tick();
        assert_eq!(a.cells(), b.cells());
    }
}

#[test]
fn set_cells_sets_only_the_given_cell() {
    let mut u = Universe::new(9, 7).unwrap();
    let before = alive_cells(&u);
    assert!(!u.is_alive(0, 1));
    assert_eq!(u.set_cells(&[(0, 1)]), Ok(()));
    assert!(u.is_alive(0, 1));
    let mut expected = before.clone();
    expected.push((0, 1));
    expected.sort();
    assert_eq!(alive_cells(&u), expected);
}

#[test]
fn set_cells_out_of_bounds_changes_nothing() {
    let mut u = grid_with(4, 3, &[]);
    assert_eq!(u.set_cells(&[(0, 0), (3, 0)]), Err(GridError::OutOfBounds));
    assert_eq!(u.set_cells(&[(0, 4)]), Err(GridError::OutOfBounds));
    assert!(alive_cells(&u).is_empty());
    assert_eq!(u.set_cells(&[(2, 3), (1, 1), (2, 3)]), Ok(()));
    assert_eq!(alive_cells(&u), vec![(1, 1), (2, 3)]);
}

#[test]
fn new_uses_even_or_seventh_pattern() {
    let u = Universe::new(16, 10).unwrap();
    assert_eq!(u.get_cells().len(), 160);
    for i in 0..160 {
        assert_eq!(u.get_cells().contains(i), i % 2 == 0 || i % 7 == 0);
    }
}

#[test]
fn cells_packs_row_major_into_blocks() {
    let u = Universe::new(8, 5).unwrap();
    let blocks = u.cells();
    assert_eq!(blocks.len(), 2);
    let mut expected = [0u32; 2];
    for i in 0..40 {
        if i % 2 == 0 || i % 7 == 0 {
            expected[i / 32] |= 1 << (i % 32);
        }
    }
    assert_eq!(blocks, &expected[..]);
    assert_eq!(blocks[0], 0x5555_5555 | (1 << 7) | (1 << 21));
}

#[test]
fn get_idx_is_row_major() {
    let u = Universe::new(7, 3).unwrap();
    assert_eq!(u.get_idx(0, 0), 0);
    assert_eq!(u.get_idx(2, 5), 19);
    assert_eq!(u.get_idx(1, 0), 7);
}

#[test]
fn rand_has_requested_size() {
    let u = Universe::rand(20, 30).unwrap();
    assert_eq!(u.width(), 20);
    assert_eq!(u.height(), 30);
    assert_eq!(u.get_cells().len(), 600);
    assert_eq!(u.cells().len(), 19);
    assert!(DENSITY_NUMERATOR < DENSITY_DENOMINATOR);
}

#[test]
fn from_states_keeps_states() {
    let states = [true, false, false, true, true, false];
    let u = Universe::from_states(3, 2, &states).unwrap();
    assert!(u.is_alive(0, 0));
    assert!(!u.is_alive(0, 1));
    assert!(u.is_alive(1, 0));
    assert!(u.is_alive(1, 1));
    assert!(!u.is_alive(1, 2));
}

#[test]
fn render_draws_rows() {
    let u = grid_with(3, 2, &[(0, 1), (1, 0), (1, 2)]);
    assert_eq!(u.render(), "\u{25FB}\u{25FC}\u{25FB}\n\u{25FC}\u{25FB}\u{25FC}\n");
}

#[test]
fn tick_of_empty_grid_stays_empty() {
    let mut u = grid_with(1, 1, &[]);
    u.tick();
    assert!(!u.is_alive(0, 0));
    let mut v = grid_with(1, 1, &[(0, 0)]);
    assert_eq!(v.live_neighbor_count(0, 0), 8);
    v.tick();
    assert!(!v.is_alive(0, 0));
}
