use predator_prey::cell::{Category, Cell, Config, ConfigError, Shade};
use predator_prey::engine::advance;
use predator_prey::grid::Grid;
use predator_prey::population::{counts, Counts};
use predator_prey::rng::{SeqGen, SEED};
use predator_prey::sim::{place, populate, Simulation};

fn predator(health: u16) -> Cell {
    Cell { category: Category::Predator, health }
}

fn prey(health: u16) -> Cell {
    Cell { category: Category::Prey, health }
}

fn sim(h: usize, w: usize, prey_h: u16, pred_h: u16, split: u16) -> Simulation {
    Simulation::new(h, w, prey_h, pred_h, split).unwrap()
}

fn place_read(s: &mut Simulation, row: usize, col: usize, category: Category) {
    let cfg = s.cfg;
    let g = if s.read_is_first { &mut s.first } else { &mut s.second };
    place(g, row, col, category, &cfg);
}

#[test]
fn generator_first_draws() {
    let mut g = SeqGen::new();
    assert_eq!(g.state, SEED);
    assert_eq!(g.next(), 19081);
    assert_eq!(g.state, 46347652635);
    assert_eq!(g.next(), 17033);
    assert_eq!(g.next(), 15269);
    assert_eq!(g.next(), 25461);
    assert_eq!(g.next(), 13856);
}

#[test]
fn generator_wraps_on_overflow() {
    let mut g = SeqGen::with_state(u64::MAX);
    assert_eq!(g.next(), 15929);
    assert_eq!(g.state, 18446744072606048716);
}

#[test]
fn config_rejects_zero_values() {
    assert_eq!(Config::new(0, 5, 3), Err(ConfigError::ZeroValue));
    assert_eq!(Config::new(1, 0, 3), Err(ConfigError::ZeroValue));
    assert_eq!(Config::new(1, 5, 0), Err(ConfigError::ZeroValue));
    let c = Config::new(1, 5, 3).unwrap();
    assert_eq!(c.prey_initial_health, 1);
    assert_eq!(c.predator_initial_health, 5);
    assert_eq!(c.prey_split_threshold, 3);
}

#[test]
fn grid_rejects_bad_dimensions() {
    assert_eq!(Grid::new(0, 4), Err(ConfigError::ZeroDimension));
    assert_eq!(Grid::new(4, 0), Err(ConfigError::ZeroDimension));
    assert_eq!(Grid::new(usize::MAX, 2), Err(ConfigError::TooLarge));
    assert!(matches!(
        Simulation::new(3, 3, 0, 5, 3),
        Err(ConfigError::ZeroValue)
    ));
    assert!(matches!(
        Simulation::new(0, 3, 1, 5, 3),
        Err(ConfigError::ZeroDimension)
    ));
}

#[test]
fn grid_get_set_and_bounds() {
    let mut g = Grid::new(3, 4).unwrap();
    assert_eq!(g.cells.len(), 12);
    assert_eq!(g.get(2, 3), Cell::empty());
    g.set(1, 2, prey(7));
    assert_eq!(g.get(1, 2), prey(7));
    assert_eq!(g.cells[6], prey(7));
    assert!(g.in_bounds(0, 0));
    assert!(g.in_bounds(2, 3));
    assert!(!g.in_bounds(3, 0));
    assert!(!g.in_bounds(0, 4));
    assert!(!g.in_bounds(-1, 0));
    assert!(!g.in_bounds(0, -1));
}

#[test]
fn neighbor_offsets_in_fixed_order() {
    let g = Grid::new(3, 3).unwrap();
    let expected = [(2, 1), (2, 2), (1, 2), (0, 2), (0, 1), (0, 0), (1, 0)];
    for (d, e) in expected.iter().enumerate() {
        assert_eq!(g.neighbor(1, 1, d), Some(*e));
    }
    assert_eq!(g.neighbor(0, 0, 4), None);
    assert_eq!(g.neighbor(0, 0, 6), None);
    assert_eq!(g.neighbor(2, 2, 0), None);
    assert_eq!(g.neighbor(0, 0, 1), Some((1, 1)));
}

#[test]
fn cells_fresh_change_and_shade() {
    let cfg = Config::new(2, 6, 4).unwrap();
    assert_eq!(Cell::new_cell(Category::Prey, &cfg), prey(2));
    assert_eq!(Cell::new_cell(Category::Predator, &cfg), predator(6));
    assert_eq!(Cell::new_cell(Category::Empty, &cfg), Cell::empty());
    let mut c = prey(9);
    c.change(Category::Predator, &cfg);
    assert_eq!(c, predator(6));
    c.change(Category::Empty, &cfg);
    assert_eq!(c, Cell { category: Category::Empty, health: 0 });
    assert_eq!(predator(3).shade(), Shade::Red);
    assert_eq!(prey(3).shade(), Shade::Green);
    assert_eq!(Cell::empty().shade(), Shade::Black);
}

#[test]
fn counts_and_extinction() {
    let mut g = Grid::new(2, 3).unwrap();
    assert_eq!(counts(&g), Counts { predators: 0, prey: 0 });
    g.set(0, 0, prey(1));
    g.set(0, 1, prey(4));
    g.set(1, 2, predator(2));
    let c = counts(&g);
    assert_eq!(c, Counts { predators: 1, prey: 2 });
    assert!(!c.is_extinct());
    assert!(Counts { predators: 0, prey: 3 }.is_extinct());
    assert!(Counts { predators: 3, prey: 0 }.is_extinct());
}

#[test]
fn predator_eats_adjacent_prey_and_driver_reports_extinction() {
    let mut s = sim(5, 5, 1, 5, 3);
    place_read(&mut s, 2, 2, Category::Predator);
    place_read(&mut s, 2, 3, Category::Prey);
    assert_eq!(s.read_grid().get(2, 2), predator(5));
    let r = s.tick();
    let g = s.read_grid();
    // The prey's cell holds a fresh predator; the hunter, 5 - 1 + 1, drew
    // direction (0,-1) and moved there; its old place is empty.
    assert_eq!(g.get(2, 3), predator(5));
    assert_eq!(g.get(2, 1), predator(5));
    assert_eq!(g.get(2, 2), Cell::empty());
    assert_eq!(r.counts, Counts { predators: 2, prey: 0 });
    assert_eq!(r.generation, 1);
    assert!(r.extinct);
}

#[test]
fn starving_predator_dies_in_place() {
    let mut s = sim(3, 3, 1, 1, 3);
    place_read(&mut s, 1, 1, Category::Predator);
    place_read(&mut s, 1, 2, Category::Prey);
    let r = s.tick();
    let g = s.read_grid();
    assert_eq!(r.counts.predators, 0);
    // The prey was not eaten; it drew (0,-1) and moved into the cell the
    // predator left empty.
    assert_eq!(g.get(1, 1), prey(2));
    assert_eq!(g.get(1, 2), Cell::empty());
    assert_eq!(r.counts.prey, 1);
    // Only the prey drew a direction.
    let mut one = SeqGen::new();
    one.next();
    assert_eq!(s.rng, one);
}

#[test]
fn predator_eats_only_one_of_two_prey() {
    let mut s = sim(5, 5, 1, 5, 3);
    place_read(&mut s, 2, 2, Category::Predator);
    place_read(&mut s, 3, 2, Category::Prey);
    place_read(&mut s, 2, 3, Category::Prey);
    let r = s.tick();
    let g = s.read_grid();
    // The prey along (+1,0) is eaten; the one along (0,+1) lives on and moves.
    assert_eq!(g.get(3, 2), predator(5));
    assert_eq!(g.get(2, 1), predator(5));
    assert_eq!(g.get(2, 4), prey(2));
    assert_eq!(g.get(2, 3), Cell::empty());
    assert_eq!(r.counts, Counts { predators: 2, prey: 1 });
    assert!(!r.extinct);
}

#[test]
fn prey_at_threshold_splits_when_it_moves() {
    let mut s = sim(5, 5, 1, 5, 2);
    place_read(&mut s, 2, 2, Category::Prey);
    let r = s.tick();
    let g = s.read_grid();
    assert_eq!(g.get(2, 1), prey(1));
    assert_eq!(g.get(2, 2), prey(1));
    assert_eq!(r.counts.prey, 2);
}

#[test]
fn prey_below_threshold_moves_with_its_health() {
    let mut s = sim(5, 5, 1, 5, 3);
    place_read(&mut s, 2, 2, Category::Prey);
    let r = s.tick();
    let g = s.read_grid();
    assert_eq!(g.get(2, 1), prey(2));
    assert_eq!(g.get(2, 2), Cell::empty());
    assert_eq!(r.counts.prey, 1);
}

#[test]
fn trapped_prey_stays_and_grows() {
    let mut s = sim(1, 1, 1, 5, 2);
    place_read(&mut s, 0, 0, Category::Prey);
    for expected in 2..6u16 {
        let r = s.tick();
        assert_eq!(s.read_grid().get(0, 0), prey(expected));
        assert_eq!(r.counts.prey, 1);
    }
    assert_eq!(s.rng, SeqGen::new());
}

#[test]
fn surrounded_prey_in_write_buffer_stays() {
    let cfg = Config::new(1, 5, 2).unwrap();
    let mut read = Grid::new(2, 2).unwrap();
    let mut write = Grid::new(2, 2).unwrap();
    read.set(0, 0, prey(3));
    write.set(1, 0, prey(1));
    write.set(1, 1, prey(1));
    write.set(0, 1, prey(1));
    let mut rng = SeqGen::new();
    advance(&mut read, &mut write, &cfg, &mut rng);
    assert_eq!(write.get(0, 0), prey(4));
    assert_eq!(read.get(0, 0), prey(3));
    assert_eq!(rng, SeqGen::new());
}

#[test]
fn prey_health_saturates() {
    let mut s = sim(1, 1, 1, 5, 2);
    let g = if s.read_is_first { &mut s.first } else { &mut s.second };
    g.set(0, 0, prey(u16::MAX));
    s.tick();
    assert_eq!(s.read_grid().get(0, 0), prey(u16::MAX));
}

#[test]
fn swapping_twice_restores_buffer_roles() {
    let mut s = sim(2, 2, 1, 5, 3);
    assert!(std::ptr::eq(s.read_grid(), &s.first));
    s.swap();
    assert!(std::ptr::eq(s.write_grid(), &s.first));
    assert!(std::ptr::eq(s.read_grid(), &s.second));
    s.swap();
    assert!(std::ptr::eq(s.read_grid(), &s.first));
    assert!(std::ptr::eq(s.write_grid(), &s.second));
    assert!(s.read_is_first);
}

#[test]
fn two_runs_agree_at_every_generation() {
    let mut a = sim(8, 9, 1, 5, 3);
    let mut b = sim(8, 9, 1, 5, 3);
    let spots = [(0, 0, Category::Prey), (3, 4, Category::Predator), (3, 5, Category::Prey),
        (7, 8, Category::Prey), (5, 1, Category::Predator), (6, 6, Category::Prey)];
    for (r, c, k) in spots.iter() {
        place_read(&mut a, *r, *c, *k);
        place_read(&mut b, *r, *c, *k);
    }
    for _ in 0..25 {
        let ra = a.tick();
        let rb = b.tick();
        assert_eq!(ra, rb);
        assert_eq!(a.read_grid(), b.read_grid());
        assert_eq!(a.write_grid(), b.write_grid());
        assert_eq!(a.rng, b.rng);
    }
}

#[test]
fn populate_reports_cells_gained() {
    let cfg = Config::new(1, 5, 3).unwrap();
    let mut g = Grid::new(1, 1).unwrap();
    assert_eq!(populate(&mut g, Category::Prey, 5, &cfg), 1);
    assert_eq!(g.get(0, 0), prey(1));
    assert_eq!(populate(&mut g, Category::Predator, 0, &cfg), 0);
    assert_eq!(populate(&mut g, Category::Predator, 2, &cfg), 1);
    assert_eq!(g.get(0, 0), predator(5));
}

#[test]
fn populate_reaches_every_row_and_column() {
    let cfg = Config::new(1, 5, 3).unwrap();
    let mut g = Grid::new(2, 2).unwrap();
    let placed = populate(&mut g, Category::Prey, 400, &cfg);
    // Four cells, drawn uniformly 400 times: each is hit.
    assert_eq!(placed, 4);
    for r in 0..2 {
        for c in 0..2 {
            assert_eq!(g.get(r, c), prey(1));
        }
    }
}

#[test]
fn prey_that_stays_leaves_read_untouched() {
    let cfg = Config::new(1, 5, 2).unwrap();
    let mut read = Grid::new(1, 1).unwrap();
    let mut write = Grid::new(1, 1).unwrap();
    read.set(0, 0, prey(4));
    let mut rng = SeqGen::new();
    advance(&mut read, &mut write, &cfg, &mut rng);
    assert_eq!(read.get(0, 0), prey(4));
    assert_eq!(write.get(0, 0), prey(5));
}

#[test]
fn simulation_populate_stays_in_range() {
    let mut s = sim(20, 30, 1, 5, 3);
    let placed = s.populate(Category::Prey, 50);
    assert!(placed <= 50);
    let c = counts(s.read_grid());
    assert_eq!(c.prey as u64, placed);
    assert_eq!(counts(s.write_grid()), Counts { predators: 0, prey: 0 });
}
