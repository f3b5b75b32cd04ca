use lifegrid::life::{apply_rules, simulate, simulate_plain, BoundaryPolicy, GridError};

/// A small deterministic pseudo-random generator for test grids.
fn lcg_next(state: &mut u64) -> u64 {
    *state = state
        .wrapping_mul(6364136223846793005)
        .wrapping_add(1442695040888963407);
    *state
}

fn empty_grid(rows: usize, cols: usize) -> Vec<Vec<bool>> {
    vec![vec![false; cols]; rows]
}

fn live_cells(grid: &Vec<Vec<bool>>) -> Vec<(usize, usize)> {
    let mut out = Vec::new();
    for (r, row) in grid.iter().enumerate() {
        for (c, &alive) in row.iter().enumerate() {
            if alive {
                out.push((r, c));
            }
        }
    }
    out
}

#[test]
fn b3s23_table_all_512_neighborhoods() {
    // every 3x3 neighborhood: the rule must match the canonical B3/S23 table
    for bits in 0..512u32 {
        let mut window = vec![vec![false; 3]; 3];
        for i in 0..9 {
            window[i / 3][i % 3] = bits & (1 << i) != 0;
        }
        let mut n = 0;
        for i in 0..9 {
            if i != 4 && bits & (1 << i) != 0 {
                n += 1;
            }
        }
        let center = bits & (1 << 4) != 0;
        let expected = if center { n == 2 || n == 3 } else { n == 3 };
        assert_eq!(apply_rules(&window), expected, "neighborhood {:#011b}", bits);
    }
}

#[test]
fn blinker_oscillates_on_toroidal_board() {
    let mut grid = empty_grid(60, 60);
    grid[5][4] = true;
    grid[5][5] = true;
    grid[5][6] = true;
    let next = simulate(grid, BoundaryPolicy::Toroidal).unwrap();
    assert_eq!(live_cells(&next), vec![(4, 5), (5, 5), (6, 5)]);
}

#[test]
fn block_is_a_still_life() {
    let mut grid = empty_grid(10, 10);
    grid[4][4] = true;
    grid[4][5] = true;
    grid[5][4] = true;
    grid[5][5] = true;
    let snapshot = grid.clone();
    let next = simulate(grid, BoundaryPolicy::Toroidal).unwrap();
    assert_eq!(next, snapshot);
}

#[test]
fn glider_advances_one_generation() {
    let mut grid = empty_grid(60, 60);
    for &(r, c) in &[(1, 2), (2, 3), (3, 1), (3, 2), (3, 3)] {
        grid[r][c] = true;
    }
    let next = simulate(grid, BoundaryPolicy::Toroidal).unwrap();
    assert_eq!(
        live_cells(&next),
        vec![(2, 1), (2, 3), (3, 2), (3, 3), (4, 2)]
    );
}

#[test]
fn bounded_policy_erases_the_border_ring() {
    // fill the whole board; every border cell must be dead afterwards
    let grid = vec![vec![true; 12]; 9];
    let next = simulate(grid, BoundaryPolicy::Bounded).unwrap();
    for r in 0..9 {
        for c in 0..12 {
            if r == 0 || r == 8 || c == 0 || c == 11 {
                assert!(!next[r][c], "border cell ({}, {}) survived", r, c);
            }
        }
    }
}

#[test]
fn bounded_border_cell_stays_dead_despite_three_neighbors() {
    let mut grid = empty_grid(8, 8);
    // three live neighbors of the border cell (0, 3)
    grid[1][2] = true;
    grid[1][3] = true;
    grid[1][4] = true;
    let next = simulate(grid, BoundaryPolicy::Bounded).unwrap();
    assert!(!next[0][3]);
}

#[test]
fn toroidal_wraps_across_the_edges() {
    // a blinker across the top edge: column 5 of rows 59, 0, 1
    let mut grid = empty_grid(60, 60);
    grid[59][5] = true;
    grid[0][5] = true;
    grid[1][5] = true;
    let next = simulate(grid, BoundaryPolicy::Toroidal).unwrap();
    assert_eq!(live_cells(&next), vec![(0, 4), (0, 5), (0, 6)]);
}

#[test]
fn single_cell_on_one_by_one_toroidal_board_dies() {
    // on a 1x1 torus the cell is its own eight neighbors, so it is overpopulated
    let next = simulate(vec![vec![true]], BoundaryPolicy::Toroidal).unwrap();
    assert_eq!(next, vec![vec![false]]);
}

#[test]
fn shortcut_and_plain_scan_agree_on_random_grids() {
    let mut state = 0x5eed_u64;
    for round in 0..100 {
        let rows = 1 + (lcg_next(&mut state) % 24) as usize;
        let cols = 1 + (lcg_next(&mut state) % 24) as usize;
        let mut grid = empty_grid(rows, cols);
        for r in 0..rows {
            for c in 0..cols {
                // sparse fills leave dead row windows for the shortcut to take
                grid[r][c] = lcg_next(&mut state) % 5 == 0;
            }
        }
        for policy in [BoundaryPolicy::Toroidal, BoundaryPolicy::Bounded] {
            let with_shortcut = simulate(grid.clone(), policy).unwrap();
            let without = simulate_plain(grid.clone(), policy).unwrap();
            assert_eq!(with_shortcut, without, "round {} policy {:?} differs", round, policy);
        }
    }
}

#[test]
fn empty_grid_is_a_fixed_point_under_both_policies() {
    for policy in [BoundaryPolicy::Toroidal, BoundaryPolicy::Bounded] {
        let grid = empty_grid(10, 7);
        let snapshot = grid.clone();
        assert_eq!(simulate(grid, policy).unwrap(), snapshot);
    }
}

#[test]
fn grids_with_zero_dimensions_are_rejected() {
    assert_eq!(
        simulate(Vec::new(), BoundaryPolicy::Toroidal),
        Err(GridError::InvalidGrid)
    );
    assert_eq!(
        simulate(vec![Vec::new(), Vec::new()], BoundaryPolicy::Bounded),
        Err(GridError::InvalidGrid)
    );
}

#[test]
fn ragged_grids_are_rejected() {
    let grid = vec![vec![false; 4], vec![false; 3]];
    assert_eq!(
        simulate(grid.clone(), BoundaryPolicy::Toroidal),
        Err(GridError::InvalidGrid)
    );
    assert_eq!(
        simulate_plain(grid, BoundaryPolicy::Bounded),
        Err(GridError::InvalidGrid)
    );
}
