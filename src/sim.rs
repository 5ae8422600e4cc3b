//! The simulation driver's decisions: the two buffers and their swap,
//! initial placement, and one tick of the run.
use vstd::prelude::*;
use crate::cell::{Category, Cell, Config, ConfigError};
use crate::engine::{advance, buffers_of, generation, pair_wf, Buffers};
use crate::grid::{flat, lemma_flat_bounds, Grid};
use crate::population::{count_of, counts, lemma_count_update, spec_extinct, Counts};
use crate::rng::SeqGen;

verus! {

/// Relies on macroquad::rand::RandomRange::gen_range for `usize`, which maps
/// a uniform draw `r` in `[0, 1)` to `(hi * r) as usize`: below `hi` when
/// `hi` is positive (exactly, for `hi` up to `u32::MAX`), and 0 when `hi` is 0.
#[verifier::external_body]
fn draw_below(hi: usize) -> (r: usize)
    requires
        hi <= u32::MAX,
    ensures
        hi == 0 ==> r == 0,
        hi > 0 ==> r < hi,
{
    <usize as macroquad::rand::RandomRange>::gen_range(0, hi)
}

/// Turns the cell at `(row, col)` into a fresh creature of `category`,
/// overwriting whatever stood there. Returns whether the cell held another
/// category before, that is whether the count of `category` grew.
pub fn place(grid: &mut Grid, row: usize, col: usize, category: Category, cfg: &Config) -> (r: bool)
    requires
        old(grid).wf(),
        cfg.wf(),
        row < old(grid).height,
        col < old(grid).width,
    ensures
        final(grid).wf(),
        final(grid).height == old(grid).height,
        final(grid).width == old(grid).width,
        final(grid).cells@ == old(grid).cells@.update(
            flat(old(grid).width as int, row as int, col as int), Cell::fresh(category, *cfg)),
        r == (old(grid).at(row as int, col as int).category != category),
        count_of(final(grid).cells@, category) == count_of(old(grid).cells@, category) + if r { 1int } else { 0int },
{
    proof {
        lemma_flat_bounds(grid.height as int, grid.width as int, row as int, col as int);
        lemma_count_update(grid.cells@, flat(grid.width as int, row as int, col as int), Cell::fresh(category, *cfg), category);
    }
    let before = grid.get(row, col);
    grid.set(row, col, Cell::new_cell(category, cfg));
    before.category != category
}

/// Scatters `count` creatures of `category` at uniformly drawn positions,
/// each overwriting what stood there. Returns how many cells newly hold
/// `category`, which collisions can make smaller than `count`. With no
/// creature to place the grid is left as it was; otherwise at least the last
/// one placed stands as a fresh creature.
pub fn populate(grid: &mut Grid, category: Category, count: u64, cfg: &Config) -> (placed: u64)
    requires
        old(grid).wf(),
        cfg.wf(),
        old(grid).height <= u32::MAX,
        old(grid).width <= u32::MAX,
    ensures
        final(grid).wf(),
        final(grid).height == old(grid).height,
        final(grid).width == old(grid).width,
        placed <= count,
        count == 0 ==> final(grid).cells@ == old(grid).cells@,
        count > 0 ==> exists|i: int| 0 <= i < final(grid).cells@.len()
            && #[trigger] final(grid).cells@[i] == Cell::fresh(category, *cfg),
        count_of(final(grid).cells@, category) == count_of(old(grid).cells@, category) + placed,
        forall|i: int| 0 <= i < final(grid).cells@.len() ==>
            #[trigger] final(grid).cells@[i] == old(grid).cells@[i]
            || final(grid).cells@[i] == Cell::fresh(category, *cfg),
{
    let ghost start = grid.cells@;
    let mut placed: u64 = 0;
    let mut i: u64 = 0;
    while i < count
        invariant
            i <= count,
            placed <= i,
            grid.wf(),
            cfg.wf(),
            grid.height == old(grid).height,
            grid.width == old(grid).width,
            grid.height <= u32::MAX,
            grid.width <= u32::MAX,
            grid.cells@.len() == start.len(),
            count_of(grid.cells@, category) == count_of(start, category) + placed,
            i == 0 ==> grid.cells@ == start,
            i > 0 ==> exists|j: int| 0 <= j < grid.cells@.len()
                && #[trigger] grid.cells@[j] == Cell::fresh(category, *cfg),
            forall|j: int| 0 <= j < grid.cells@.len() ==>
                #[trigger] grid.cells@[j] == start[j] || grid.cells@[j] == Cell::fresh(category, *cfg),
        decreases count - i,
    {
        let col = draw_below(grid.width);
        let row = draw_below(grid.height);
        let ghost prev = grid.cells@;
        let fresh_here = place(grid, row, col, category, cfg);
        if fresh_here {
            placed = placed + 1;
        }
        proof {
            lemma_flat_bounds(grid.height as int, grid.width as int, row as int, col as int);
            let p = flat(grid.width as int, row as int, col as int);
            assert(grid.cells@[p] == Cell::fresh(category, *cfg));
        }
        assert forall|j: int| 0 <= j < grid.cells@.len() implies
            #[trigger] grid.cells@[j] == start[j] || grid.cells@[j] == Cell::fresh(category, *cfg) by {
            assert(grid.cells@[j] == prev[j] || grid.cells@[j] == Cell::fresh(category, *cfg));
        }
        i = i + 1;
    }
    placed
}

/// What a tick reports: the live creatures after the pass, the generation
/// reached, and whether a species has died out.
#[derive(Clone, Copy, Debug, PartialEq, Eq, Structural)]
pub struct Report {
    pub counts: Counts,
    pub generation: u64,
    pub extinct: bool,
}

/// The two buffers, which of them is read next, the generation reached, the
/// sequence generator and the configuration.
#[derive(Debug)]
pub struct Simulation {
    pub first: Grid,
    pub second: Grid,
    pub read_is_first: bool,
    pub generation: u64,
    pub rng: SeqGen,
    pub cfg: Config,
}

/// The same simulation with the roles of its buffers exchanged.
pub open spec fn swapped(s: Simulation) -> Simulation {
    Simulation { read_is_first: !s.read_is_first, ..s }
}

/// The buffers one generation on: the pass runs, then the buffer just
/// written becomes the one read next.
pub open spec fn tick_buffers(h: int, w: int, cfg: Config, b: Buffers) -> Buffers {
    let g = generation(h, w, cfg, b);
    Buffers { read: g.write, write: g.read, rng: g.rng }
}

/// The buffers after `n` ticks.
pub open spec fn run(h: int, w: int, cfg: Config, b: Buffers, n: nat) -> Buffers
    decreases n,
{
    if n == 0 {
        b
    } else {
        tick_buffers(h, w, cfg, run(h, w, cfg, b, (n - 1) as nat))
    }
}

impl Simulation {
    /// The buffer read by the next pass.
    pub open spec fn read(&self) -> Grid {
        if self.read_is_first { self.first } else { self.second }
    }

    /// The buffer written by the next pass.
    pub open spec fn write(&self) -> Grid {
        if self.read_is_first { self.second } else { self.first }
    }

    /// Both buffers and the generator, seen from the next pass.
    pub open spec fn state(&self) -> Buffers {
        buffers_of(self.read(), self.write(), self.rng)
    }

    pub open spec fn height(&self) -> int {
        self.first.height as int
    }

    pub open spec fn width(&self) -> int {
        self.first.width as int
    }

    /// Two well-formed buffers of one size and a well-formed configuration.
    pub open spec fn wf(&self) -> bool {
        pair_wf(self.first, self.second) && self.cfg.wf()
    }

    /// A simulation at generation 0 with two empty `height x width` buffers
    /// and a freshly seeded generator; refused as `Config::new` and
    /// `Grid::new` refuse their values.
    pub fn new(
        height: usize,
        width: usize,
        prey_initial_health: u16,
        predator_initial_health: u16,
        prey_split_threshold: u16,
    ) -> (r: Result<Simulation, ConfigError>)
        ensures
            r is Ok <==> (prey_initial_health >= 1 && predator_initial_health >= 1
                && prey_split_threshold >= 1 && height >= 1 && width >= 1
                && height * width <= usize::MAX),
            match r {
                Ok(s) => s.wf() && s.generation == 0 && s.rng.state == crate::rng::SEED
                    && s.read_is_first && s.height() == height && s.width() == width
                    && s.cfg.prey_initial_health == prey_initial_health
                    && s.cfg.predator_initial_health == predator_initial_health
                    && s.cfg.prey_split_threshold == prey_split_threshold
                    && (forall|i: int| 0 <= i < s.first.cells@.len() ==> #[trigger] s.first.cells@[i] == Cell::spec_empty())
                    && (forall|i: int| 0 <= i < s.second.cells@.len() ==> #[trigger] s.second.cells@[i] == Cell::spec_empty()),
                Err(e) => if prey_initial_health == 0 || predator_initial_health == 0 || prey_split_threshold == 0 {
                    e == ConfigError::ZeroValue
                } else if height == 0 || width == 0 {
                    e == ConfigError::ZeroDimension
                } else {
                    e == ConfigError::TooLarge
                },
            },
    {
        let cfg = match Config::new(prey_initial_health, predator_initial_health, prey_split_threshold) {
            Ok(c) => c,
            Err(e) => {
                return Err(e);
            },
        };
        let first = match Grid::new(height, width) {
            Ok(g) => g,
            Err(e) => {
                return Err(e);
            },
        };
        let second = match Grid::new(height, width) {
            Ok(g) => g,
            Err(e) => {
                return Err(e);
            },
        };
        Ok(Simulation { first, second, read_is_first: true, generation: 0, rng: SeqGen::new(), cfg })
    }

    /// The buffer read by the next pass; after a tick, the one just written.
    pub fn read_grid(&self) -> (r: &Grid)
        ensures
            *r == self.read(),
    {
        if self.read_is_first {
            &self.first
        } else {
            &self.second
        }
    }

    /// The buffer written by the next pass.
    pub fn write_grid(&self) -> (r: &Grid)
        ensures
            *r == self.write(),
    {
        if self.read_is_first {
            &self.second
        } else {
            &self.first
        }
    }

    /// Exchanges the roles of the two buffers, without copying.
    pub fn swap(&mut self)
        ensures
            *final(self) == swapped(*old(self)),
    {
        self.read_is_first = !self.read_is_first;
    }

    /// Scatters `count` creatures of `category` over the buffer read next,
    /// as `populate` does. Returns how many cells newly hold `category`.
    pub fn populate(&mut self, category: Category, count: u64) -> (placed: u64)
        requires
            old(self).wf(),
            old(self).height() <= u32::MAX,
            old(self).width() <= u32::MAX,
        ensures
            final(self).wf(),
            final(self).write() == old(self).write(),
            final(self).read().height == old(self).read().height,
            final(self).read().width == old(self).read().width,
            final(self).read_is_first == old(self).read_is_first,
            final(self).generation == old(self).generation,
            final(self).rng == old(self).rng,
            final(self).cfg == old(self).cfg,
            placed <= count,
            count == 0 ==> final(self).read().cells@ == old(self).read().cells@,
            count > 0 ==> exists|i: int| 0 <= i < final(self).read().cells@.len()
                && #[trigger] final(self).read().cells@[i] == Cell::fresh(category, old(self).cfg),
            count_of(final(self).read().cells@, category) == count_of(old(self).read().cells@, category) + placed,
            forall|i: int| 0 <= i < final(self).read().cells@.len() ==>
                #[trigger] final(self).read().cells@[i] == old(self).read().cells@[i]
                || final(self).read().cells@[i] == Cell::fresh(category, old(self).cfg),
    {
        if self.read_is_first {
            populate(&mut self.first, category, count, &self.cfg)
        } else {
            populate(&mut self.second, category, count, &self.cfg)
        }
    }

    /// Runs one generation, swaps the buffers so that the one just written
    /// is read next, and counts it. The run has ended when a species has died
    /// out; the report then gives the generation at which that happened.
    pub fn tick(&mut self) -> (r: Report)
        requires
            old(self).wf(),
            old(self).generation < u64::MAX,
        ensures
            final(self).wf(),
            final(self).height() == old(self).height(),
            final(self).width() == old(self).width(),
            final(self).cfg == old(self).cfg,
            final(self).generation == old(self).generation + 1,
            final(self).read_is_first == !old(self).read_is_first,
            final(self).state() == tick_buffers(old(self).height(), old(self).width(), old(self).cfg, old(self).state()),
            r.generation == final(self).generation,
            r.counts.predators == count_of(final(self).read().cells@, Category::Predator),
            r.counts.prey == count_of(final(self).read().cells@, Category::Prey),
            r.extinct == spec_extinct(r.counts),
    {
        if self.read_is_first {
            advance(&mut self.first, &mut self.second, &self.cfg, &mut self.rng);
        } else {
            advance(&mut self.second, &mut self.first, &self.cfg, &mut self.rng);
        }
        self.read_is_first = !self.read_is_first;
        self.generation = self.generation + 1;
        let c = counts(self.read_grid());
        Report { counts: c, generation: self.generation, extinct: c.is_extinct() }
    }
}

/// Exchanging the roles of the buffers twice gives back the very same
/// simulation: the same buffer is read and the same one written.
pub proof fn lemma_swap_twice(s: Simulation)
    ensures
        swapped(swapped(s)) == s,
        swapped(swapped(s)).read() == s.read(),
        swapped(swapped(s)).write() == s.write(),
        swapped(s).read() == s.write(),
        swapped(s).write() == s.read(),
{
}

/// Two runs from the same buffers and generator state, on one grid size and
/// configuration, agree on both buffers and the generator at every generation.
pub proof fn lemma_reproducible(h: int, w: int, cfg: Config, b1: Buffers, b2: Buffers, n: nat)
    requires
        b1 == b2,
    ensures
        forall|k: nat| k <= n ==> #[trigger] run(h, w, cfg, b1, k) == run(h, w, cfg, b2, k),
{
}

} // verus!
