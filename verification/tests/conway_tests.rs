use conway::grid::Grid;
use conway::grid::GridError;
use conway::patterns::beacon;
use conway::patterns::block;
use conway::patterns::glider;
use conway::patterns::initialize_pattern;
use conway::patterns::offsets;
use conway::patterns::place_organism;
use conway::patterns::tub;
use conway::patterns::Organism;

/// Asserts that the live cells of `grid` are exactly `expected`.
fn assert_live_set(grid: &Grid, expected: &[(i32, i32)]) {
    for y in 0..grid.height() {
        for x in 0..grid.width() {
            let want = expected.contains(&(x, y));
            assert_eq!(
                grid.get_cell(x, y),
                want,
                "cell ({}, {}) expected {}",
                x,
                y,
                want
            );
        }
    }
}

fn must_new(width: i32, height: i32) -> Grid {
    match Grid::new(width, height) {
        Ok(g) => g,
        Err(_) => panic!("dimensions {}x{} were rejected", width, height),
    }
}

#[test]
fn new_rejects_nonpositive_dimensions() {
    for (w, h) in [(0, 5), (5, 0), (-1, 5), (5, -2), (0, 0), (-3, -3)] {
        match Grid::new(w, h) {
            Ok(_) => panic!("dimensions {}x{} were accepted", w, h),
            Err(e) => assert_eq!(e, GridError::InvalidDimension),
        }
    }
}

#[test]
fn new_starts_all_dead() {
    let g = must_new(20, 20);
    assert_eq!(g.width(), 20);
    assert_eq!(g.height(), 20);
    assert_eq!(g.generation(), 0);
    assert_live_set(&g, &[]);
}

#[test]
fn out_of_range_get_reads_dead() {
    let mut g = must_new(8, 6);
    g.set_cell(3, 3, true);
    assert!(!g.get_cell(-1, 0));
    assert!(!g.get_cell(0, -1));
    assert!(!g.get_cell(8, 0));
    assert!(!g.get_cell(0, 6));
    assert!(!g.get_cell(i32::MIN, i32::MIN));
    assert!(!g.get_cell(i32::MAX, i32::MAX));
}

#[test]
fn out_of_range_set_is_a_no_op() {
    let mut g = must_new(8, 6);
    g.set_cell(2, 2, true);
    g.set_cell(-1, 0, true);
    g.set_cell(8, 0, true);
    g.set_cell(0, 6, true);
    g.set_cell(i32::MIN, 3, true);
    g.set_cell(3, i32::MAX, true);
    assert_live_set(&g, &[(2, 2)]);
    assert_eq!(g.generation(), 0);
}

#[test]
fn set_then_get_roundtrip() {
    let mut g = must_new(4, 4);
    g.set_cell(1, 2, true);
    assert!(g.get_cell(1, 2));
    g.set_cell(1, 2, false);
    assert!(!g.get_cell(1, 2));
}

#[test]
fn empty_grid_stays_empty() {
    let mut g = must_new(12, 9);
    for expected_generation in 1..=3u64 {
        g.advance();
        assert_eq!(g.generation(), expected_generation);
        assert_live_set(&g, &[]);
    }
}

#[test]
fn block_is_a_still_life() {
    let mut g = must_new(10, 10);
    let cells = [(3, 3), (4, 3), (3, 4), (4, 4)];
    block(3, 3, &mut g);
    assert_live_set(&g, &cells);
    for _ in 0..3 {
        g.advance();
        assert_live_set(&g, &cells);
    }
}

#[test]
fn beacon_has_period_two() {
    let mut g = must_new(10, 10);
    beacon(2, 2, &mut g);
    let closed = [
        (2, 2),
        (3, 2),
        (2, 3),
        (3, 3),
        (4, 4),
        (5, 4),
        (4, 5),
        (5, 5),
    ];
    let open = [(2, 2), (3, 2), (2, 3), (5, 4), (4, 5), (5, 5)];
    assert_live_set(&g, &closed);
    g.advance();
    assert_live_set(&g, &open);
    g.advance();
    assert_live_set(&g, &closed);
}

#[test]
fn glider_translates_one_cell_per_four_generations() {
    let mut g = must_new(20, 20);
    glider(2, 2, &mut g);
    let shape = [(1, 0), (2, 1), (0, 2), (1, 2), (2, 2)];
    let at = |ax: i32, ay: i32| -> Vec<(i32, i32)> {
        shape.iter().map(|&(dx, dy)| (ax + dx, ay + dy)).collect()
    };
    assert_live_set(&g, &at(2, 2));
    for _ in 0..4 {
        g.advance();
    }
    assert_live_set(&g, &at(3, 3));
    for _ in 0..4 {
        g.advance();
    }
    assert_live_set(&g, &at(4, 4));
}

#[test]
fn glider_clipped_at_the_edge_decays_to_a_block() {
    let mut g = must_new(5, 5);
    glider(2, 2, &mut g);
    assert_live_set(&g, &[(2, 4), (3, 2), (3, 4), (4, 3), (4, 4)]);
    g.advance();
    assert_live_set(&g, &[(2, 3), (3, 4), (4, 3), (4, 4)]);
    g.advance();
    assert_live_set(&g, &[(3, 4), (4, 3), (4, 4)]);
    g.advance();
    assert_live_set(&g, &[(3, 3), (3, 4), (4, 3), (4, 4)]);
    g.advance();
    assert_live_set(&g, &[(3, 3), (3, 4), (4, 3), (4, 4)]);
}

#[test]
fn placement_overlap_keeps_earlier_cells() {
    let mut g = must_new(6, 6);
    block(0, 0, &mut g);
    tub(0, 0, &mut g);
    // union of block {(0,0),(1,0),(0,1),(1,1)} and tub {(1,0),(0,1),(2,1),(1,2)}
    assert_live_set(&g, &[(0, 0), (1, 0), (0, 1), (1, 1), (2, 1), (1, 2)]);
}

#[test]
fn placement_is_clipped_not_rejected() {
    let mut g = must_new(3, 3);
    place_organism(&mut g, Organism::Beacon, 1, 1);
    // only the offsets landing inside the 3x3 board survive
    assert_live_set(&g, &[(1, 1), (2, 1), (1, 2), (2, 2)]);
}

#[test]
fn offsets_match_the_catalog() {
    assert_eq!(
        offsets(Organism::Glider),
        vec![(1, 0), (2, 1), (0, 2), (1, 2), (2, 2)]
    );
    assert_eq!(
        offsets(Organism::Beacon),
        vec![
            (0, 0),
            (1, 0),
            (0, 1),
            (1, 1),
            (2, 2),
            (3, 2),
            (2, 3),
            (3, 3)
        ]
    );
    assert_eq!(offsets(Organism::Block), vec![(0, 0), (1, 0), (0, 1), (1, 1)]);
    assert_eq!(offsets(Organism::Tub), vec![(1, 0), (0, 1), (2, 1), (1, 2)]);
    assert_eq!(
        offsets(Organism::Boat),
        vec![(0, 0), (1, 0), (0, 1), (2, 1), (1, 2)]
    );
    assert_eq!(offsets(Organism::Lwss).len(), 9);
    assert_eq!(offsets(Organism::Mwss).len(), 10);
    assert_eq!(offsets(Organism::Pulsar).len(), 48);
    assert_eq!(offsets(Organism::Pentadecathlon).len(), 13);
    assert_eq!(offsets(Organism::Loaf).len(), 7);
}

#[test]
fn initialize_pattern_is_idempotent_at_generation_zero() {
    let mut once = must_new(20, 20);
    initialize_pattern(&mut once);
    let mut twice = must_new(20, 20);
    initialize_pattern(&mut twice);
    initialize_pattern(&mut twice);
    assert_eq!(once.generation(), 0);
    assert_eq!(twice.generation(), 0);
    for y in 0..20 {
        for x in 0..20 {
            assert_eq!(once.get_cell(x, y), twice.get_cell(x, y));
        }
    }
}

#[test]
fn initialize_pattern_is_a_no_op_after_advance() {
    let mut g = must_new(20, 20);
    initialize_pattern(&mut g);
    g.advance();
    let mut snapshot: Vec<bool> = Vec::new();
    for y in 0..20 {
        for x in 0..20 {
            snapshot.push(g.get_cell(x, y));
        }
    }
    initialize_pattern(&mut g);
    assert_eq!(g.generation(), 1);
    let mut k = 0;
    for y in 0..20 {
        for x in 0..20 {
            assert_eq!(g.get_cell(x, y), snapshot[k]);
            k += 1;
        }
    }
}

const SEEDED_20: [(i32, i32); 137] = [
    (2, 4), (2, 5), (2, 6), (2, 7), (2, 8), (2, 10), (2, 11), (2, 12), (2, 13), (2, 15),
    (2, 19), (3, 7), (3, 8), (3, 12), (4, 2), (4, 7), (4, 9), (4, 10), (4, 12), (4, 14),
    (4, 17), (5, 2), (5, 7), (5, 9), (5, 10), (5, 12), (5, 14), (5, 15), (5, 17), (6, 2),
    (6, 7), (6, 9), (6, 12), (6, 13), (6, 14), (6, 17), (7, 3), (7, 4), (7, 5), (7, 6),
    (7, 10), (7, 11), (7, 12), (7, 13), (7, 15), (7, 19), (8, 2), (8, 9), (8, 12), (8, 13),
    (8, 17), (8, 19), (9, 2), (9, 4), (9, 5), (9, 6), (9, 7), (9, 8), (9, 9), (9, 10),
    (9, 11), (9, 12), (9, 13), (9, 14), (9, 15), (9, 18), (9, 19), (10, 2), (10, 5), (10, 7),
    (10, 9), (10, 12), (10, 13), (10, 14), (10, 17), (11, 2), (11, 3), (11, 4), (11, 7),
    (11, 9), (11, 12), (11, 14), (11, 15), (11, 17), (12, 2), (12, 3), (12, 5), (12, 7),
    (12, 8), (12, 9), (12, 12), (12, 13), (12, 14), (12, 17), (12, 18), (13, 2), (13, 7),
    (13, 8), (13, 12), (13, 14), (13, 17), (13, 18), (14, 2), (14, 4), (14, 5), (14, 6),
    (14, 10), (14, 11), (14, 12), (14, 13), (14, 19), (15, 2), (15, 19), (16, 2), (16, 5),
    (17, 2), (17, 3), (17, 4), (17, 5), (17, 6), (17, 8), (17, 10), (17, 11), (17, 12),
    (17, 13), (17, 19), (18, 7), (18, 9), (18, 12), (18, 14), (19, 2), (19, 7), (19, 9),
    (19, 10), (19, 13), (19, 14), (19, 17),
];

const STEPPED_20: [(i32, i32); 121] = [
    (1, 5), (1, 6), (1, 7), (1, 11), (1, 12), (2, 5), (2, 6), (2, 8), (2, 9), (2, 11),
    (2, 12), (2, 13), (3, 5), (3, 14), (4, 6), (4, 7), (4, 10), (4, 12), (4, 14), (4, 15),
    (4, 16), (5, 1), (5, 2), (5, 3), (5, 6), (5, 7), (5, 12), (5, 15), (5, 17), (5, 18),
    (6, 2), (6, 4), (6, 5), (6, 7), (6, 9), (6, 18), (7, 2), (7, 3), (7, 4), (7, 5),
    (7, 6), (7, 8), (7, 9), (7, 10), (7, 16), (8, 2), (8, 15), (8, 16), (8, 19), (9, 1),
    (9, 2), (9, 4), (9, 5), (9, 7), (9, 15), (9, 16), (9, 17), (9, 19), (10, 1), (10, 2),
    (10, 17), (11, 1), (11, 5), (11, 7), (11, 9), (11, 10), (11, 11), (11, 15), (11, 17),
    (12, 1), (12, 9), (12, 11), (12, 12), (13, 1), (13, 2), (13, 10), (13, 14), (13, 17),
    (13, 19), (14, 1), (14, 2), (14, 5), (14, 6), (14, 7), (14, 11), (14, 12), (14, 13),
    (14, 19), (15, 1), (15, 2), (15, 4), (15, 6), (15, 11), (15, 12), (16, 1), (16, 2),
    (16, 5), (16, 6), (16, 11), (16, 12), (17, 2), (17, 3), (17, 4), (17, 5), (17, 6),
    (17, 7), (17, 8), (17, 9), (17, 10), (17, 11), (17, 12), (17, 13), (18, 2), (18, 4),
    (18, 5), (18, 7), (18, 14), (19, 9), (19, 10), (19, 13), (19, 14),
];

#[test]
fn initialize_pattern_seeds_the_fixed_layout() {
    let mut g = must_new(20, 20);
    initialize_pattern(&mut g);
    assert_eq!(g.generation(), 0);
    assert_live_set(&g, &SEEDED_20);
}

#[test]
fn end_to_end_first_generation_is_reproducible() {
    let mut g = must_new(20, 20);
    initialize_pattern(&mut g);
    g.advance();
    assert_eq!(g.generation(), 1);
    assert_live_set(&g, &STEPPED_20);
}
