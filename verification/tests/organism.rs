//! Grid lifecycle: construction, seeding, the generation pipeline, and
//! the reseed policy.

use conway_life::game::Organism;

fn idx(x: usize, y: usize, w: usize) -> usize {
    x + y * w
}

/// A 20x20 grid tiled with fifteen isolated 2x2 blocks (60 active
/// cells), a still life with population above the reseed floor.
fn block_grid() -> Organism {
    let mut o = Organism::new();
    o.builder(20, 20);
    for y0 in [0usize, 4, 8] {
        for x0 in [0usize, 4, 8, 12, 16] {
            for (dx, dy) in [(0usize, 0usize), (1, 0), (0, 1), (1, 1)] {
                o.grid[idx(x0 + dx, y0 + dy, 20)].active = true;
            }
        }
    }
    o
}

#[test]
fn build_fills_the_grid_with_inactive_cells() {
    let mut o = Organism::new();
    o.builder(5, 3);
    assert_eq!(o.width, 5);
    assert_eq!(o.height, 3);
    assert_eq!(o.epoch, 0);
    assert_eq!(o.grid.len(), 15);
    for (i, c) in o.grid.iter().enumerate() {
        assert_eq!(c.position, ((i % 5) as isize, (i / 5) as isize));
        assert!(!c.active);
        assert!(!c.was_active);
        assert_eq!(c.neighbours, 0);
    }
}

#[test]
fn build_single_cell_grid() {
    let mut o = Organism::new();
    o.builder(1, 1);
    assert_eq!(o.grid.len(), 1);
    assert!(!o.grid[0].active);
}

#[test]
fn organism_state_counts_active_cells() {
    let mut o = Organism::new();
    o.builder(4, 4);
    assert_eq!(o.organism_state(), 0);
    o.grid[0].active = true;
    o.grid[5].active = true;
    o.grid[15].active = true;
    assert_eq!(o.organism_state(), 3);
}

#[test]
fn genesis_at_full_density_activates_every_cell() {
    // every draw lies in [1, 100], so a density of 100 seeds every cell
    let mut o = Organism::new();
    o.genesis(6, 5, 100);
    assert_eq!(o.grid.len(), 30);
    assert_eq!(o.organism_state(), 30);
}

#[test]
fn seeding_at_zero_density_activates_no_cell() {
    // every draw is at least 1, so a density of 0 seeds nothing
    let mut o = Organism::new();
    o.genesis(6, 5, 0);
    assert_eq!(o.organism_state(), 0);
}

#[test]
fn blinker_rotates_under_one_counting_and_rule_pass() {
    let mut o = Organism::new();
    o.builder(5, 5);
    // a vertical blinker in the middle column
    o.grid[idx(2, 1, 5)].active = true;
    o.grid[idx(2, 2, 5)].active = true;
    o.grid[idx(2, 3, 5)].active = true;
    o.check_neighbourhood();
    o.evoluate();
    // it becomes the horizontal blinker through the centre
    for y in 0..5usize {
        for x in 0..5usize {
            let expect = y == 2 && (1..=3).contains(&x);
            assert_eq!(o.grid[idx(x, y, 5)].active, expect, "cell ({}, {})", x, y);
        }
    }
    // was_active records the state entering the rule pass, per cell
    for y in 0..5usize {
        for x in 0..5usize {
            let before = x == 2 && (1..=3).contains(&y);
            assert_eq!(o.grid[idx(x, y, 5)].was_active, before, "cell ({}, {})", x, y);
        }
    }
    // every neighbour counter is reset by the rule pass
    for c in o.grid.iter() {
        assert_eq!(c.neighbours, 0);
    }
}

#[test]
fn low_population_triggers_a_reseed() {
    let mut o = Organism::new();
    o.builder(4, 4);
    // 3 active cells: far below the population floor of 50
    o.grid[idx(1, 1, 4)].active = true;
    o.grid[idx(2, 1, 4)].active = true;
    o.grid[idx(1, 2, 4)].active = true;
    o.on_epoch();
    assert_eq!(o.epoch, 0, "a collapsed grid must be reseeded");
    assert_eq!(o.grid.len(), 16);
    for c in o.grid.iter() {
        assert_eq!(c.neighbours, 0);
    }
}

#[test]
fn stagnation_triggers_a_reseed() {
    // a still life above the population floor: the grid does not change,
    // so the stagnation check fires even though the population is high
    let mut o = block_grid();
    assert_eq!(o.organism_state(), 60);
    o.on_epoch();
    assert_eq!(o.epoch, 0, "an unchanged grid must be reseeded");
}

#[test]
fn still_life_is_a_fixed_point_of_the_passes() {
    let mut o = block_grid();
    let before: Vec<bool> = o.grid.iter().map(|c| c.active).collect();
    o.check_neighbourhood();
    o.evoluate();
    let after: Vec<bool> = o.grid.iter().map(|c| c.active).collect();
    assert_eq!(before, after);
    for (i, c) in o.grid.iter().enumerate() {
        assert_eq!(c.was_active, before[i]);
        assert_eq!(c.neighbours, 0);
    }
}

#[test]
fn healthy_changing_grid_is_not_reseeded() {
    // blocks keep the population at 60 >= 50; a blinker away from them
    // keeps the grid changing, so no reseed trigger fires
    let mut o = block_grid();
    o.grid[idx(2, 14, 20)].active = true;
    o.grid[idx(2, 15, 20)].active = true;
    o.grid[idx(2, 16, 20)].active = true;
    o.on_epoch();
    assert_eq!(o.epoch, 1, "a healthy grid advances without a reseed");
    assert_eq!(o.organism_state(), 63);
    // the blocks stood still, the blinker rotated
    assert!(o.grid[idx(0, 0, 20)].active);
    assert!(o.grid[idx(17, 9, 20)].active);
    assert!(o.grid[idx(1, 15, 20)].active);
    assert!(o.grid[idx(2, 15, 20)].active);
    assert!(o.grid[idx(3, 15, 20)].active);
    assert!(!o.grid[idx(2, 14, 20)].active);
    assert!(!o.grid[idx(2, 16, 20)].active);
    // the rotated cells record what they were entering the rule pass
    assert!(o.grid[idx(2, 14, 20)].was_active);
    assert!(!o.grid[idx(1, 15, 20)].was_active);
    assert!(o.grid[idx(2, 15, 20)].was_active);
}

#[test]
fn reseeded_grid_keeps_geometry_and_flags() {
    let mut o = Organism::new();
    o.genesis(4, 4, 50);
    let positions: Vec<(isize, isize)> = o.grid.iter().map(|c| c.position).collect();
    let was: Vec<bool> = o.grid.iter().map(|c| c.active).collect();
    o.on_epoch();
    // 16 cells can never reach the population floor of 50: always reseeds
    assert_eq!(o.epoch, 0);
    for (i, c) in o.grid.iter().enumerate() {
        assert_eq!(c.position, positions[i]);
        assert_eq!(c.was_active, was[i], "was_active records the pre-pass state");
        assert_eq!(c.neighbours, 0);
    }
}
