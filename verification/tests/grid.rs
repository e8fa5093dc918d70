//! The simulation engine: evolution rule, seeding, clearing, editing.

use game_of_life::simulation::dispatch_groups;
use game_of_life::Simulation;

fn live_cells(sim: &Simulation) -> Vec<(u32, u32)> {
    let (w, h) = (sim.width, sim.height);
    let mut out = Vec::new();
    for y in 0..h {
        for x in 0..w {
            if sim.is_alive(x, y) {
                out.push((x, y));
            }
        }
    }
    out
}

#[test]
fn new_grid_is_dead() {
    let sim = Simulation::new(4, 3);
    assert_eq!(live_cells(&sim), vec![]);
}

#[test]
fn lone_cell_dies() {
    let mut sim = Simulation::new(3, 3);
    sim.flip([1, 1]);
    assert!(sim.is_alive(1, 1));
    sim.step();
    assert_eq!(live_cells(&sim), vec![]);
}

#[test]
fn blinker_oscillates() {
    let mut sim = Simulation::new(5, 5);
    sim.flip([1, 2]);
    sim.flip([2, 2]);
    sim.flip([3, 2]);
    sim.step();
    // Orientation flips by a quarter turn: the row becomes a column.
    assert_eq!(live_cells(&sim), vec![(2, 1), (2, 2), (2, 3)]);
    sim.step();
    // Period two: the original pattern returns.
    assert_eq!(live_cells(&sim), vec![(1, 2), (2, 2), (3, 2)]);
}

#[test]
fn update_is_simultaneous() {
    // Two live cells in a row: evaluated simultaneously, each sees one live
    // neighbor and dies. A naive in-place sweep would kill the left cell
    // first and then see zero live neighbors at the right one — same fate
    // here, but the blinker middle cell distinguishes the orders: in-place,
    // (2,2) would see its left neighbor already dead and die too.
    let mut sim = Simulation::new(5, 5);
    sim.flip([1, 2]);
    sim.flip([2, 2]);
    sim.flip([3, 2]);
    sim.step();
    assert!(sim.is_alive(2, 2), "the middle cell survives only under simultaneous update");
}

#[test]
fn block_is_still_life() {
    let mut sim = Simulation::new(4, 4);
    sim.flip([1, 1]);
    sim.flip([2, 1]);
    sim.flip([1, 2]);
    sim.flip([2, 2]);
    sim.step();
    assert_eq!(live_cells(&sim), vec![(1, 1), (2, 1), (1, 2), (2, 2)]);
}

#[test]
fn edge_cells_have_no_wraparound_neighbors() {
    // A row of three against the top edge: the cell above the middle is out
    // of range and counts as dead, so only the cell below the middle is born.
    let mut sim = Simulation::new(5, 5);
    sim.flip([1, 0]);
    sim.flip([2, 0]);
    sim.flip([3, 0]);
    sim.step();
    assert_eq!(live_cells(&sim), vec![(2, 0), (2, 1)]);
}

#[test]
fn clear_randomize_clear_leaves_all_dead() {
    let mut sim = Simulation::new(8, 8);
    sim.clear();
    sim.randomize();
    sim.clear();
    assert_eq!(live_cells(&sim), vec![]);
}

#[test]
fn seeding_is_a_function_of_the_seed() {
    let mut a = Simulation::new(16, 16);
    let mut b = Simulation::new(16, 16);
    a.randomize_with_seed(0xDEAD_BEEF);
    b.randomize_with_seed(0xDEAD_BEEF);
    assert_eq!(live_cells(&a), live_cells(&b));
}

#[test]
fn seeding_populates_the_grid() {
    let mut sim = Simulation::new(32, 32);
    sim.randomize_with_seed(12345);
    let live = live_cells(&sim).len();
    // Pseudo-random bits over 1024 cells: some live, some dead.
    assert!(live > 0 && live < 1024);
}

#[test]
fn seeding_pins_known_bits() {
    // Seed zero mixes to zero at the origin, and the scramble of zero is
    // zero: the origin cell stays dead. At (1, 0) the mix is one, whose
    // scramble is 0x42021, an odd word: that cell comes up live.
    let mut sim = Simulation::new(8, 8);
    sim.randomize_with_seed(0);
    assert!(!sim.is_alive(0, 0));
    assert!(sim.is_alive(1, 0));
}

#[test]
fn fresh_seeding_populates_the_grid() {
    let mut sim = Simulation::new(64, 64);
    sim.randomize();
    // A fresh pseudo-random seeding of four thousand cells leaves some live.
    assert!(!live_cells(&sim).is_empty());
}

#[test]
fn flip_toggles_exactly_one_cell() {
    let mut sim = Simulation::new(4, 4);
    sim.flip([2, 3]);
    assert_eq!(live_cells(&sim), vec![(2, 3)]);
    sim.flip([2, 3]);
    assert_eq!(live_cells(&sim), vec![]);
}

#[test]
fn dispatch_groups_round_up() {
    assert_eq!(dispatch_groups(0), 0);
    assert_eq!(dispatch_groups(1), 1);
    assert_eq!(dispatch_groups(32), 1);
    assert_eq!(dispatch_groups(33), 2);
    assert_eq!(dispatch_groups(1000), 32);
    assert_eq!(dispatch_groups(1024), 32);
}
