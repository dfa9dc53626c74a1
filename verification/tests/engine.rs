use game_of_life::Universe;

fn empty(width: u32, height: u32) -> Universe {
    let mut u = Universe::new();
    u.set_width(width);
    u.set_height(height);
    u
}

#[test]
fn new_universe_is_default_sized_and_dead() {
    let u = Universe::new();
    assert_eq!(u.width(), 80);
    assert_eq!(u.height(), 80);
    assert_eq!(u.get_cells().len(), 6400);
    assert_eq!(u.get_cells().count_ones(..), 0);
}

#[test]
fn resize_reallocates_and_clears() {
    let mut u = Universe::new();
    u.toggle_cell(3, 4);
    u.set_height(10);
    assert_eq!(u.width(), 80);
    assert_eq!(u.height(), 10);
    assert_eq!(u.get_cells().len(), 800);
    assert_eq!(u.get_cells().count_ones(..), 0);
    u.toggle_cell(0, 0);
    u.set_width(5);
    assert_eq!(u.width(), 5);
    assert_eq!(u.get_cells().len(), 50);
    assert_eq!(u.get_cells().count_ones(..), 0);
}

#[test]
fn toggle_round_trip_flips_exactly_one_bit() {
    let mut u = Universe::new();
    let before = u.get_cells().clone();
    u.toggle_cell(5, 7);
    let mid = u.get_cells().clone();
    let diff = &mid ^ &before;
    assert_eq!(diff.count_ones(..), 1);
    assert!(diff.contains(5 * 80 + 7));
    u.toggle_cell(5, 7);
    assert_eq!(u.get_cells(), &before);
}

#[test]
fn purge_and_reset_to_empty_agree() {
    let mut a = empty(6, 6);
    a.add_glider(2, 2);
    a.purge();

    let mut b = empty(6, 6);
    b.add_glider(3, 3);
    // What a randomised reset hands over with dead probability 1.0: a draw
    // in [0, 1) never exceeds 1.0, so every cell comes out dead.
    let dead_probability: f64 = 1.0;
    let alive: Vec<bool> = (0..36).map(|i| (i as f64) / 36.0 > dead_probability).collect();
    b.reset(&alive);

    let c = empty(6, 6);

    assert_eq!(a.get_cells().count_ones(..), 0);
    assert_eq!(a.get_cells(), b.get_cells());
    assert_eq!(a.get_cells(), c.get_cells());
}

#[test]
fn reset_writes_the_given_states() {
    let mut u = empty(3, 2);
    let alive = vec![true, false, false, true, true, false];
    u.reset(&alive);
    for (i, &expected) in alive.iter().enumerate() {
        assert_eq!(u.get_cells().contains(i), expected);
    }
}

#[test]
fn glider_matches_explicit_coordinates() {
    let mut a = empty(6, 6);
    a.add_glider(2, 2);

    let mut b = empty(6, 6);
    b.set_cells(&[(1, 2), (2, 3), (3, 1), (3, 2), (3, 3)]);

    assert_eq!(a.get_cells().count_ones(..), 5);
    assert_eq!(a.get_cells(), b.get_cells());
}

#[test]
fn glider_advances_one_known_step() {
    let mut a = empty(6, 6);
    a.add_glider(2, 2);
    a.tick();

    let mut b = empty(6, 6);
    b.set_cells(&[(2, 1), (2, 3), (3, 2), (3, 3), (4, 2)]);

    assert_eq!(a.get_cells(), b.get_cells());
}

#[test]
fn glider_wraps_around_the_corner() {
    let mut a = empty(6, 6);
    a.add_glider(0, 0);

    let mut b = empty(6, 6);
    // Offsets (-1,0), (1,0), (0,1), (1,-1) and (1,1) around the origin wrap
    // to the opposite edges.
    b.set_cells(&[(5, 0), (1, 0), (0, 1), (1, 5), (1, 1)]);

    assert_eq!(a.get_cells(), b.get_cells());
}

#[test]
fn blinker_across_the_edge_uses_wrapped_neighbors() {
    // A vertical blinker spanning the top and bottom rows: its middle cell
    // sits in row 0, whose northern neighbours lie in the last row.  One
    // tick turns it into a horizontal blinker inside row 0, which can only
    // happen if the neighbour counts see across the edges.
    let mut a = empty(5, 5);
    a.set_cells(&[(4, 2), (0, 2), (1, 2)]);
    a.tick();

    let mut b = empty(5, 5);
    b.set_cells(&[(0, 1), (0, 2), (0, 3)]);

    assert_eq!(a.get_cells(), b.get_cells());
}

#[test]
fn tick_is_deterministic() {
    let seed: &[(u32, u32)] = &[(0, 0), (1, 2), (2, 1), (2, 2), (3, 4), (4, 0), (4, 4)];
    let mut a = empty(5, 5);
    a.set_cells(seed);
    let mut b = empty(5, 5);
    b.set_cells(seed);
    assert_eq!(a.get_cells(), b.get_cells());
    a.tick();
    b.tick();
    assert_eq!(a.get_cells(), b.get_cells());
    a.tick();
    b.tick();
    assert_eq!(a.get_cells(), b.get_cells());
}

#[test]
fn block_is_a_still_life() {
    let mut u = empty(6, 6);
    u.set_cells(&[(2, 2), (2, 3), (3, 2), (3, 3)]);
    let before = u.get_cells().clone();
    u.tick();
    assert_eq!(u.get_cells(), &before);
}

#[test]
fn lone_cell_dies_and_empty_grid_stays_empty() {
    let mut u = empty(4, 4);
    u.toggle_cell(1, 1);
    u.tick();
    assert_eq!(u.get_cells().count_ones(..), 0);
    u.tick();
    assert_eq!(u.get_cells().count_ones(..), 0);
}

#[test]
fn pulsar_matches_explicit_symmetric_coordinates() {
    let mut a = empty(13, 13);
    a.add_pulsar(6, 6);

    let mut b = empty(13, 13);
    let arms: [i32; 4] = [-6, -1, 1, 6];
    let runs: [i32; 6] = [-4, -3, -2, 2, 3, 4];
    let mut coords: Vec<(u32, u32)> = Vec::new();
    for &dc in arms.iter() {
        for &dr in runs.iter() {
            coords.push(((6 + dr) as u32, (6 + dc) as u32));
            coords.push(((6 + dc) as u32, (6 + dr) as u32));
        }
    }
    b.set_cells(&coords);

    assert_eq!(a.get_cells().count_ones(..), 48);
    assert_eq!(a.get_cells(), b.get_cells());
}

#[test]
fn pulsar_wraps_near_the_edge() {
    let mut a = empty(13, 13);
    a.add_pulsar(0, 0);

    let mut b = empty(13, 13);
    let arms: [i32; 4] = [-6, -1, 1, 6];
    let runs: [i32; 6] = [-4, -3, -2, 2, 3, 4];
    let mut coords: Vec<(u32, u32)> = Vec::new();
    for &dc in arms.iter() {
        for &dr in runs.iter() {
            coords.push((((13 + dr) % 13) as u32, ((13 + dc) % 13) as u32));
            coords.push((((13 + dc) % 13) as u32, ((13 + dr) % 13) as u32));
        }
    }
    b.set_cells(&coords);

    assert_eq!(a.get_cells().count_ones(..), 48);
    assert_eq!(a.get_cells(), b.get_cells());
}

#[test]
fn set_cells_only_sets_alive() {
    let mut u = empty(4, 4);
    u.toggle_cell(0, 0);
    u.set_cells(&[(0, 0), (2, 3)]);
    assert!(u.get_cells().contains(0));
    assert!(u.get_cells().contains(2 * 4 + 3));
    assert_eq!(u.get_cells().count_ones(..), 2);
}
