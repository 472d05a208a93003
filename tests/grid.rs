use mapgen::displacement::MAX_EXTENT;
use mapgen::{
    cell_index, corner_cells, grid_side, heightmap_from_vec, step_sizes, Diamond2d, Displacement,
    Midpoint2d, OutOfBounds,
};
use rand::rngs::StdRng;
use rand::{Rng, SeedableRng};

fn targets_and_sources(steps: &[Displacement]) -> Vec<(usize, Vec<usize>, usize)> {
    steps
        .iter()
        .map(|s| (s.target, s.sources.clone(), s.spread))
        .collect()
}

/// Seeds the corners and applies every level, as the generators do.
fn run_schedule(size: usize, midpoint: bool, rng: &mut StdRng) -> (Vec<f64>, Vec<f64>) {
    let mut data = vec![0.0; size * size];
    let mut seeds = Vec::new();
    for c in corner_cells(size) {
        let v: f64 = rng.gen_range(0.0..1.0);
        seeds.push(v);
        data[c] = v;
    }
    for d in step_sizes(size) {
        let steps = if midpoint {
            Midpoint2d::new().level_steps(size, d)
        } else {
            Diamond2d::new().level_steps(size, d)
        };
        for s in steps {
            let sum: f64 = s.sources.iter().map(|&i| data[i]).sum();
            let spread = s.spread as f64;
            data[s.target] = sum / s.sources.len() as f64 + rng.gen_range(-spread..spread);
        }
    }
    (data, seeds)
}

#[test]
fn grid_side_is_next_power_of_two_plus_one() {
    assert_eq!(grid_side(1, 1), 2);
    assert_eq!(grid_side(2, 2), 2);
    assert_eq!(grid_side(3, 2), 3);
    assert_eq!(grid_side(5, 3), 5);
    assert_eq!(grid_side(6, 6), 9);
    assert_eq!(grid_side(10, 513), 513);
    assert_eq!(grid_side(514, 1), 1025);
    assert_eq!(grid_side(MAX_EXTENT, MAX_EXTENT), 32769);
}

#[test]
fn step_sizes_halve_down_to_two() {
    assert_eq!(step_sizes(9), vec![8, 4, 2]);
    assert_eq!(step_sizes(3), vec![2]);
    assert!(step_sizes(2).is_empty());
}

#[test]
fn two_by_two_runs_no_displacement() {
    let size = grid_side(2, 2);
    assert_eq!(size, 2);
    assert!(step_sizes(size).is_empty());
    let mut rng = StdRng::seed_from_u64(7);
    let (data, seeds) = run_schedule(size, false, &mut rng);
    assert_eq!(data, seeds);
    let mut rng = StdRng::seed_from_u64(7);
    let (data, seeds) = run_schedule(size, true, &mut rng);
    assert_eq!(data, seeds);
}

#[test]
fn corners_in_seeding_order() {
    assert_eq!(corner_cells(5), [0, 4, 20, 24]);
    assert_eq!(cell_index(5, 3, 2), 13);
}

#[test]
fn corners_keep_their_draws() {
    for &midpoint in &[false, true] {
        for seed in 0..4u64 {
            let mut rng = StdRng::seed_from_u64(seed);
            let (data, seeds) = run_schedule(17, midpoint, &mut rng);
            let corners = corner_cells(17);
            for k in 0..4 {
                assert_eq!(data[corners[k]], seeds[k]);
            }
            let mut again = StdRng::seed_from_u64(seed);
            let (data2, _) = run_schedule(17, midpoint, &mut again);
            assert_eq!(data, data2);
        }
    }
}

#[test]
fn midpoint_level_on_three_by_three() {
    let steps = Midpoint2d::new().level_steps(3, 2);
    assert_eq!(
        targets_and_sources(&steps),
        vec![
            (4, vec![0, 6, 2, 8], 2),
            (3, vec![0, 6], 2),
            (5, vec![2, 8], 2),
            (1, vec![0, 2], 2),
            (7, vec![6, 8], 2),
        ]
    );
}

#[test]
fn diamond_level_on_three_by_three() {
    let steps = Diamond2d::new().level_steps(3, 2);
    assert_eq!(
        targets_and_sources(&steps),
        vec![
            (4, vec![0, 6, 2, 8], 2),
            (3, vec![4, 0, 6], 2),
            (5, vec![4, 2, 8], 2),
            (1, vec![0, 2, 4], 2),
            (7, vec![6, 8, 4], 2),
        ]
    );
}

#[test]
fn diamond_interior_cells_average_four_neighbours() {
    let steps = Diamond2d::new().level_steps(5, 2);
    assert_eq!(steps.len(), 20);
    // Block (0, 0) sets (1, 1) in the square pass; its diamond step at
    // (2, 1) lies inside the grid and has all four neighbours.
    let s = &steps[4 + 1];
    assert_eq!(s.target, 7);
    assert_eq!(s.sources, vec![6, 8, 2, 12]);
    assert_eq!(s.spread, 2);
    for s in &steps {
        assert!(s.sources.len() >= 2);
    }
}

#[test]
fn submap_of_whole_grid_is_identical() {
    let cells: Vec<f64> = (0..12).map(|i| (i as f64) * 0.37 - 1.5).collect();
    let map = heightmap_from_vec(4, 3, cells.clone());
    let sub = map.submap(0, 0, 4, 3).unwrap();
    assert_eq!(sub.width(), 4);
    assert_eq!(sub.height(), 3);
    assert_eq!(sub.heights(), &cells[..]);
    for (a, b) in sub.heights().iter().zip(map.heights()) {
        assert_eq!(a.to_bits(), b.to_bits());
    }
}

#[test]
fn submap_copies_region_row_by_row() {
    let map = heightmap_from_vec(4, 3, (0..12).collect::<Vec<u32>>());
    let sub = map.submap(1, 1, 2, 2).unwrap();
    assert_eq!(sub.heights(), &[5, 6, 9, 10]);
    assert_eq!(sub.get(1, 0), 6);
    assert_eq!(map.get(3, 2), 11);
}

#[test]
fn submap_out_of_bounds() {
    let map = heightmap_from_vec(4, 3, vec![0u8; 12]);
    assert_eq!(map.submap(1, 0, 4, 3).err(), Some(OutOfBounds::Width));
    assert_eq!(map.submap(0, 1, 4, 3).err(), Some(OutOfBounds::Height));
    assert_eq!(map.submap(4, 4, 1, 1).err(), Some(OutOfBounds::Width));
    assert!(map.submap(4, 3, 0, 0).is_ok());
}
