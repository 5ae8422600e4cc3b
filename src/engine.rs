//! One generation: every cell of `read` takes its turn in row-major order,
//! writing its outcome into `write`.
use vstd::prelude::*;
use crate::cell::{Category, Cell, Config, PREDATOR_STARVATION_HEALTH};
use crate::population::{count_of, lemma_count_update};
use crate::grid::{
    flat, lemma_flat_bounds, lemma_flat_injective, lemma_position, spec_neighbor, Grid, NUM_DIRECTIONS,
};
use crate::rng::{next_state, output_of, SeqGen};

verus! {

/// The two buffers and the generator state, as a pass sees them.
pub struct Buffers {
    pub read: Seq<Cell>,
    pub write: Seq<Cell>,
    pub rng: u64,
}

/// What a predator has gathered while looking around: its health, whether it
/// has eaten, the buffers, and for each direction looked at whether it was
/// a safe move.
pub struct PredScan {
    pub health: u16,
    pub fed: bool,
    pub read: Seq<Cell>,
    pub write: Seq<Cell>,
    pub safe: Seq<bool>,
}

/// A predator carrying `health`.
pub open spec fn hunter(health: u16) -> Cell {
    Cell { category: Category::Predator, health }
}

/// A prey carrying `health`.
pub open spec fn grazer(health: u16) -> Cell {
    Cell { category: Category::Prey, health }
}

/// The direction index picked by a generator whose state has just become `s`.
pub open spec fn pick_of(s: u64) -> int {
    (output_of(s) % 7) as int
}

/// The predator at `(row, col)` looks along direction `d` in `read`: it eats
/// the first prey it finds (taking the prey's health, leaving a fresh
/// predator in `write` at the prey's place and clearing it in `read`), and
/// notes an empty neighbour as a safe move.
#[verifier::opaque]
pub open spec fn pred_look(h: int, w: int, cfg: Config, row: int, col: int, s: PredScan, d: int) -> PredScan {
    match spec_neighbor(h, w, row, col, d) {
        None => PredScan { safe: s.safe.push(false), ..s },
        Some((nr, nc)) => {
            let q = flat(w, nr, nc);
            let target = s.read[q];
            match target.category {
                Category::Prey => if s.fed {
                    PredScan { safe: s.safe.push(false), ..s }
                } else {
                    PredScan {
                        health: s.health.saturating_add(target.health),
                        fed: true,
                        read: s.read.update(q, Cell::spec_empty()),
                        write: s.write.update(q, Cell::fresh(Category::Predator, cfg)),
                        safe: s.safe.push(false),
                    }
                },
                Category::Empty => PredScan { safe: s.safe.push(true), ..s },
                Category::Predator => PredScan { safe: s.safe.push(false), ..s },
            }
        },
    }
}

/// The predator's look along the first `n` directions, from `start`.
pub open spec fn pred_scan(h: int, w: int, cfg: Config, row: int, col: int, start: PredScan, n: nat) -> PredScan
    decreases n,
{
    if n == 0 {
        start
    } else {
        pred_look(h, w, cfg, row, col, pred_scan(h, w, cfg, row, col, start, (n - 1) as nat), n - 1)
    }
}

/// Where a creature at `(row, col)` ends up when direction `d` is drawn:
/// the neighbour if that direction was noted as safe, else where it stands.
pub open spec fn landing(h: int, w: int, row: int, col: int, safe: Seq<bool>, d: int) -> int {
    match spec_neighbor(h, w, row, col, d) {
        Some((nr, nc)) => if safe[d] { flat(w, nr, nc) } else { flat(w, row, col) },
        None => flat(w, row, col),
    }
}

/// The look-around of the predator at `(row, col)` that did not starve.
pub open spec fn pred_start(w: int, row: int, col: int, b: Buffers) -> PredScan {
    PredScan {
        health: (b.read[flat(w, row, col)].health - 1) as u16,
        fed: false,
        read: b.read,
        write: b.write,
        safe: Seq::empty(),
    }
}

/// The turn of the predator at `(row, col)`.
pub open spec fn predator_step(h: int, w: int, cfg: Config, row: int, col: int, b: Buffers) -> Buffers {
    let own = flat(w, row, col);
    if b.read[own].health == PREDATOR_STARVATION_HEALTH {
        Buffers {
            read: b.read.update(own, Cell::spec_empty()),
            write: b.write.update(own, Cell::spec_empty()),
            rng: b.rng,
        }
    } else {
        let s = pred_scan(h, w, cfg, row, col, pred_start(w, row, col, b), 7);
        let rng = next_state(b.rng);
        let dest = landing(h, w, row, col, s.safe, pick_of(rng));
        Buffers {
            read: s.read.update(own, Cell::spec_empty()),
            write: s.write.update(dest, hunter(s.health)),
            rng,
        }
    }
}

/// Whether direction `d` from `(row, col)` leads to an empty cell of `write`.
pub open spec fn prey_safe(h: int, w: int, write: Seq<Cell>, row: int, col: int, d: int) -> bool {
    match spec_neighbor(h, w, row, col, d) {
        Some((nr, nc)) => write[flat(w, nr, nc)].category == Category::Empty,
        None => false,
    }
}

/// Whether some direction from `(row, col)` is safe for a prey.
pub open spec fn prey_can_move(h: int, w: int, write: Seq<Cell>, row: int, col: int) -> bool {
    exists|d: int| 0 <= d < 7 && #[trigger] prey_safe(h, w, write, row, col, d)
}

/// Whether the prey at `(row, col)`, able to move, draws a safe direction
/// from a generator whose state has just become `s`.
pub open spec fn prey_moves(h: int, w: int, write: Seq<Cell>, row: int, col: int, s: u64) -> bool {
    prey_safe(h, w, write, row, col, pick_of(s))
}

/// The turn of the prey at `(row, col)`.
pub open spec fn prey_step(h: int, w: int, cfg: Config, row: int, col: int, b: Buffers) -> Buffers {
    let own = flat(w, row, col);
    let grown = grazer(b.read[own].health.saturating_add(1));
    if !prey_can_move(h, w, b.write, row, col) {
        Buffers { read: b.read, write: b.write.update(own, grown), rng: b.rng }
    } else {
        let rng = next_state(b.rng);
        let d = pick_of(rng);
        match spec_neighbor(h, w, row, col, d) {
            Some((nr, nc)) => if prey_safe(h, w, b.write, row, col, d) {
                let dest = flat(w, nr, nc);
                if grown.health >= cfg.prey_split_threshold {
                    let child = Cell::fresh(Category::Prey, cfg);
                    Buffers {
                        read: b.read.update(own, Cell::spec_empty()),
                        write: b.write.update(dest, child).update(own, child),
                        rng,
                    }
                } else {
                    Buffers {
                        read: b.read.update(own, Cell::spec_empty()),
                        write: b.write.update(dest, grown),
                        rng,
                    }
                }
            } else {
                Buffers { read: b.read, write: b.write.update(own, grown), rng }
            },
            None => Buffers { read: b.read, write: b.write.update(own, grown), rng },
        }
    }
}

/// The turn of whatever stands at row-major position `k` of `read`.
pub open spec fn cell_step(h: int, w: int, cfg: Config, b: Buffers, k: int) -> Buffers {
    let row = k / w;
    let col = k % w;
    match b.read[k].category {
        Category::Predator => predator_step(h, w, cfg, row, col, b),
        Category::Prey => prey_step(h, w, cfg, row, col, b),
        Category::Empty => b,
    }
}

/// The buffers after the first `n` positions, in row-major order, took their turn.
pub open spec fn pass(h: int, w: int, cfg: Config, b: Buffers, n: nat) -> Buffers
    decreases n,
{
    if n == 0 {
        b
    } else {
        cell_step(h, w, cfg, pass(h, w, cfg, b, (n - 1) as nat), n - 1)
    }
}

/// The buffers after one full generation over a `h x w` grid.
pub open spec fn generation(h: int, w: int, cfg: Config, b: Buffers) -> Buffers {
    pass(h, w, cfg, b, (h * w) as nat)
}

/// The buffers of two grids and a generator.
pub open spec fn buffers_of(read: Grid, write: Grid, rng: SeqGen) -> Buffers {
    Buffers { read: read.cells@, write: write.cells@, rng: rng.state }
}

/// Both grids well formed and of one size.
pub open spec fn pair_wf(read: Grid, write: Grid) -> bool {
    read.wf() && write.wf() && read.height == write.height && read.width == write.width
}

/// Draws a direction index from the generator.
fn draw_direction(rng: &mut SeqGen) -> (r: usize)
    ensures
        final(rng).state == next_state(old(rng).state),
        r as int == pick_of(final(rng).state),
        r < NUM_DIRECTIONS,
{
    (rng.next() % 7) as usize
}

/// The predator at `(row, col)` looks along direction `d`.
fn predator_look(
    read: &mut Grid,
    write: &mut Grid,
    cfg: &Config,
    row: usize,
    col: usize,
    d: usize,
    health: &mut u16,
    fed: &mut bool,
    safe: &mut Vec<bool>,
)
    requires
        pair_wf(*old(read), *old(write)),
        cfg.wf(),
        row < old(read).height,
        col < old(read).width,
        d < NUM_DIRECTIONS,
        *old(health) >= 1,
    ensures
        pair_wf(*final(read), *final(write)),
        final(read).height == old(read).height,
        final(read).width == old(read).width,
        *final(health) >= 1,
        final(safe)@.len() == old(safe)@.len() + 1,
        (PredScan { health: *final(health), fed: *final(fed), read: final(read).cells@, write: final(write).cells@, safe: final(safe)@ })
            == pred_look(old(read).height as int, old(read).width as int, *cfg, row as int, col as int,
                PredScan { health: *old(health), fed: *old(fed), read: old(read).cells@, write: old(write).cells@, safe: old(safe)@ },
                d as int),
{
    reveal(pred_look);
    match read.neighbor(row, col, d) {
        Some((nr, nc)) => {
            let target = read.get(nr, nc);
            match target.category {
                Category::Prey => {
                    if !*fed {
                        *health = health.saturating_add(target.health);
                        write.set(nr, nc, Cell::new_cell(Category::Predator, cfg));
                        read.set(nr, nc, Cell::empty());
                        *fed = true;
                    }
                    safe.push(false);
                },
                Category::Empty => {
                    safe.push(true);
                },
                Category::Predator => {
                    safe.push(false);
                },
            }
        },
        None => {
            safe.push(false);
        },
    }
}

/// The predator at `(row, col)`, done looking, draws a direction and moves
/// there if it was noted as safe, else stays; its old place in `read` is cleared.
fn predator_settle(read: &mut Grid, write: &mut Grid, rng: &mut SeqGen, row: usize, col: usize, health: u16, safe: &Vec<bool>)
    requires
        pair_wf(*old(read), *old(write)),
        row < old(read).height,
        col < old(read).width,
        health >= 1,
        safe@.len() == NUM_DIRECTIONS,
    ensures
        pair_wf(*final(read), *final(write)),
        final(read).height == old(read).height,
        final(read).width == old(read).width,
        final(rng).state == next_state(old(rng).state),
        final(read).cells@ == old(read).cells@.update(
            flat(old(read).width as int, row as int, col as int), Cell::spec_empty()),
        final(write).cells@ == old(write).cells@.update(
            landing(old(read).height as int, old(read).width as int, row as int, col as int, safe@, pick_of(final(rng).state)),
            hunter(health)),
{
    let pick = draw_direction(rng);
    let moved = Cell { category: Category::Predator, health };
    match read.neighbor(row, col, pick) {
        Some((nr, nc)) => {
            if safe[pick] {
                write.set(nr, nc, moved);
            } else {
                write.set(row, col, moved);
            }
        },
        None => {
            write.set(row, col, moved);
        },
    }
    read.set(row, col, Cell::empty());
}

/// The turn of the predator standing at `(row, col)` of `read`.
fn predator_turn(read: &mut Grid, write: &mut Grid, cfg: &Config, rng: &mut SeqGen, row: usize, col: usize)
    requires
        pair_wf(*old(read), *old(write)),
        cfg.wf(),
        row < old(read).height,
        col < old(read).width,
        old(read).at(row as int, col as int).category == Category::Predator,
    ensures
        pair_wf(*final(read), *final(write)),
        final(read).height == old(read).height,
        final(read).width == old(read).width,
        buffers_of(*final(read), *final(write), *final(rng)) == predator_step(
            old(read).height as int, old(read).width as int, *cfg, row as int, col as int,
            buffers_of(*old(read), *old(write), *old(rng))),
{
    let ghost h = read.height as int;
    let ghost w = read.width as int;
    let ghost b = buffers_of(*read, *write, *rng);
    proof {
        lemma_flat_bounds(h, w, row as int, col as int);
    }
    let me = read.get(row, col);
    if me.health == PREDATOR_STARVATION_HEALTH {
        write.set(row, col, Cell::empty());
        read.set(row, col, Cell::empty());
        return;
    }
    let mut health: u16 = me.health - 1;
    let mut fed = false;
    let mut safe: Vec<bool> = Vec::new();
    let ghost start = pred_start(w, row as int, col as int, b);
    let mut d: usize = 0;
    while d < NUM_DIRECTIONS
        invariant
            d <= NUM_DIRECTIONS,
            pair_wf(*read, *write),
            read.height == h,
            read.width == w,
            row < h,
            col < w,
            cfg.wf(),
            health >= 1,
            safe@.len() == d,
            (PredScan { health, fed, read: read.cells@, write: write.cells@, safe: safe@ })
                == pred_scan(h, w, *cfg, row as int, col as int, start, d as nat),
        decreases NUM_DIRECTIONS - d,
    {
        predator_look(read, write, cfg, row, col, d, &mut health, &mut fed, &mut safe);
        d = d + 1;
    }
    predator_settle(read, write, rng, row, col, health, &safe);
}

/// The turn of the prey standing at `(row, col)` of `read`.
fn prey_turn(read: &mut Grid, write: &mut Grid, cfg: &Config, rng: &mut SeqGen, row: usize, col: usize)
    requires
        pair_wf(*old(read), *old(write)),
        cfg.wf(),
        row < old(read).height,
        col < old(read).width,
        old(read).at(row as int, col as int).category == Category::Prey,
    ensures
        pair_wf(*final(read), *final(write)),
        final(read).height == old(read).height,
        final(read).width == old(read).width,
        buffers_of(*final(read), *final(write), *final(rng)) == prey_step(
            old(read).height as int, old(read).width as int, *cfg, row as int, col as int,
            buffers_of(*old(read), *old(write), *old(rng))),
{
    let ghost h = read.height as int;
    let ghost w = read.width as int;
    proof {
        lemma_flat_bounds(h, w, row as int, col as int);
    }
    let me = read.get(row, col);
    let grown = Cell { category: Category::Prey, health: me.health.saturating_add(1) };
    let mut safe: Vec<bool> = Vec::new();
    let mut any = false;
    let mut d: usize = 0;
    while d < NUM_DIRECTIONS
        invariant
            d <= NUM_DIRECTIONS,
            pair_wf(*read, *write),
            read.height == h,
            read.width == w,
            row < h,
            col < w,
            safe@.len() == d,
            forall|j: int| 0 <= j < d ==> safe@[j] == prey_safe(h, w, write.cells@, row as int, col as int, j),
            any == exists|j: int| 0 <= j < d && #[trigger] prey_safe(h, w, write.cells@, row as int, col as int, j),
        decreases NUM_DIRECTIONS - d,
    {
        let open = match write.neighbor(row, col, d) {
            Some((nr, nc)) => {
                proof {
                    lemma_flat_bounds(h, w, nr as int, nc as int);
                }
                write.get(nr, nc).category == Category::Empty
            },
            None => false,
        };
        proof {
            assert(open == prey_safe(h, w, write.cells@, row as int, col as int, d as int));
        }
        safe.push(open);
        any = any || open;
        d = d + 1;
    }
    if !any {
        write.set(row, col, grown);
        return;
    }
    let pick = draw_direction(rng);
    match write.neighbor(row, col, pick) {
        Some((nr, nc)) => {
            if safe[pick] {
                if grown.health >= cfg.prey_split_threshold {
                    write.set(nr, nc, Cell::new_cell(Category::Prey, cfg));
                    write.set(row, col, Cell::new_cell(Category::Prey, cfg));
                } else {
                    write.set(nr, nc, grown);
                }
                read.set(row, col, Cell::empty());
                return;
            }
        },
        None => {},
    }
    write.set(row, col, grown);
}

/// Runs one generation: every position of `read`, in row-major order, takes
/// its turn, reading `read` and writing `write`. Predators starve, eat and
/// move; prey grow, move and split; the generator is drawn from as the turns
/// require. Both grids stay well formed: a cell is empty exactly when its
/// health is zero.
pub fn advance(read: &mut Grid, write: &mut Grid, cfg: &Config, rng: &mut SeqGen)
    requires
        pair_wf(*old(read), *old(write)),
        cfg.wf(),
    ensures
        pair_wf(*final(read), *final(write)),
        final(read).height == old(read).height,
        final(read).width == old(read).width,
        buffers_of(*final(read), *final(write), *final(rng)) == generation(
            old(read).height as int, old(read).width as int, *cfg,
            buffers_of(*old(read), *old(write), *old(rng))),
        forall|p: int| 0 <= p < final(read).cells@.len() ==> #[trigger] final(read).cells@[p] == old(read).cells@[p]
            || final(read).cells@[p] == Cell::spec_empty(),
{
    let ghost h = read.height as int;
    let ghost w = read.width as int;
    let ghost b0 = buffers_of(*read, *write, *rng);
    let n = read.cells.len();
    let mut k: usize = 0;
    while k < n
        invariant
            k <= n,
            n == h * w,
            pair_wf(*read, *write),
            read.height == h,
            read.width == w,
            cfg.wf(),
            buffers_of(*read, *write, *rng) == pass(h, w, *cfg, b0, k as nat),
        decreases n - k,
    {
        proof {
            lemma_position(h, w, k as int);
        }
        let row = k / read.width;
        let col = k % read.width;
        let here = read.get(row, col);
        match here.category {
            Category::Predator => predator_turn(read, write, cfg, rng, row, col),
            Category::Prey => prey_turn(read, write, cfg, rng, row, col),
            Category::Empty => {},
        }
        k = k + 1;
    }
    proof {
        lemma_pass_only_clears(h, w, *cfg, b0, n as nat);
    }
}

/// Positions and lengths that a turn at `(row, col)` of an `h x w` grid needs.
pub open spec fn turn_ok(h: int, w: int, row: int, col: int, b: Buffers) -> bool {
    0 <= row < h && 0 <= col < w && b.read.len() == h * w && b.write.len() == h * w
}

/// A predator that starts its turn with health 1 dies where it stands: its
/// place becomes empty in both buffers, nothing else changes, and no
/// direction is drawn.
pub proof fn lemma_starving_predator(h: int, w: int, cfg: Config, row: int, col: int, b: Buffers)
    requires
        turn_ok(h, w, row, col, b),
        b.read[flat(w, row, col)].category == Category::Predator,
        b.read[flat(w, row, col)].health == 1,
    ensures
        ({
            let own = flat(w, row, col);
            let r = predator_step(h, w, cfg, row, col, b);
            &&& r.read[own] == Cell::spec_empty()
            &&& r.write[own] == Cell::spec_empty()
            &&& r.rng == b.rng
            &&& forall|p: int| 0 <= p < h * w && p != own ==> r.read[p] == b.read[p] && r.write[p] == b.write[p]
        }),
{
    lemma_flat_bounds(h, w, row, col);
}

/// While a predator looks around, `read` changes in at most one place: the
/// first prey it finds, which becomes empty.
proof fn lemma_scan_eats_once(h: int, w: int, cfg: Config, row: int, col: int, start: PredScan, n: nat)
    requires
        !start.fed,
        0 <= row < h,
        0 <= col < w,
        start.read.len() == h * w,
        start.write.len() == h * w,
    ensures
        ({
            let s = pred_scan(h, w, cfg, row, col, start, n);
            s.write.len() == h * w
        }),
        ({
            let s = pred_scan(h, w, cfg, row, col, start, n);
            (!s.fed && s.read == start.read) || (s.fed && exists|q: int|
                0 <= q < start.read.len() && start.read[q].category == Category::Prey
                && s.read == #[trigger] start.read.update(q, Cell::spec_empty()))
        }),
    decreases n,
{
    if n > 0 {
        lemma_scan_eats_once(h, w, cfg, row, col, start, (n - 1) as nat);
        reveal(pred_look);
        let s0 = pred_scan(h, w, cfg, row, col, start, (n - 1) as nat);
        match spec_neighbor(h, w, row, col, n - 1) {
            Some((nr, nc)) => {
                lemma_flat_bounds(h, w, nr, nc);
                let q = flat(w, nr, nc);
                if !s0.fed && s0.read[q].category == Category::Prey {
                    assert(pred_scan(h, w, cfg, row, col, start, n).read == start.read.update(q, Cell::spec_empty()));
                }
            },
            None => {},
        }
    }
}

/// A predator eats at most one prey a generation, however many are adjacent:
/// apart from its own place, its turn changes `read` in at most one position,
/// and that position held a prey and is left empty.
pub proof fn lemma_predator_eats_at_most_once(h: int, w: int, cfg: Config, row: int, col: int, b: Buffers)
    requires
        turn_ok(h, w, row, col, b),
        b.read[flat(w, row, col)].category == Category::Predator,
    ensures
        ({
            let own = flat(w, row, col);
            let r = predator_step(h, w, cfg, row, col, b);
            &&& forall|p: int, q: int|
                0 <= p < h * w && 0 <= q < h * w && p != own && q != own
                && r.read[p] != b.read[p] && r.read[q] != b.read[q] ==> p == q
            &&& forall|p: int| 0 <= p < h * w && p != own && r.read[p] != b.read[p] ==>
                b.read[p].category == Category::Prey && r.read[p] == Cell::spec_empty()
        }),
{
    let own = flat(w, row, col);
    lemma_flat_bounds(h, w, row, col);
    if b.read[own].health != PREDATOR_STARVATION_HEALTH {
        lemma_scan_eats_once(h, w, cfg, row, col, pred_start(w, row, col, b), 7);
    }
}

/// A prey that reaches the split threshold and moves leaves two fresh prey:
/// one at the empty neighbour it moved to and one in its own place. Against
/// staying put, the prey in `write` are exactly one more.
pub proof fn lemma_prey_split(h: int, w: int, cfg: Config, row: int, col: int, b: Buffers)
    requires
        turn_ok(h, w, row, col, b),
        b.read[flat(w, row, col)].category == Category::Prey,
        b.read[flat(w, row, col)].health.saturating_add(1) >= cfg.prey_split_threshold,
        prey_moves(h, w, b.write, row, col, next_state(b.rng)),
    ensures
        ({
            let own = flat(w, row, col);
            let r = prey_step(h, w, cfg, row, col, b);
            let stay = b.write.update(own, grazer(b.read[own].health.saturating_add(1)));
            &&& exists|dest: int| 0 <= dest < h * w && dest != own
                && b.write[dest].category == Category::Empty
                && r.write == #[trigger] b.write.update(dest, Cell::fresh(Category::Prey, cfg)).update(own, Cell::fresh(Category::Prey, cfg))
            &&& r.write[own] == Cell::fresh(Category::Prey, cfg)
            &&& r.read[own] == Cell::spec_empty()
            &&& count_of(r.write, Category::Prey) == count_of(stay, Category::Prey) + 1
        }),
{
    let own = flat(w, row, col);
    lemma_flat_bounds(h, w, row, col);
    let d = pick_of(next_state(b.rng));
    assert(prey_can_move(h, w, b.write, row, col));
    match spec_neighbor(h, w, row, col, d) {
        Some((nr, nc)) => {
            lemma_flat_bounds(h, w, nr, nc);
            let dest = flat(w, nr, nc);
            if dest == own {
                lemma_flat_injective(w, nr, nc, row, col);
                assert(false);
            }
            let child = Cell::fresh(Category::Prey, cfg);
            let v = b.write.update(dest, child);
            lemma_count_update(b.write, dest, child, Category::Prey);
            lemma_count_update(v, own, child, Category::Prey);
            lemma_count_update(b.write, own, grazer(b.read[own].health.saturating_add(1)), Category::Prey);
            assert(prey_step(h, w, cfg, row, col, b).write == v.update(own, child));
        },
        None => {},
    }
}

/// A prey with no safe direction stays where it is and does not split, yet
/// its health still grows by one (up to the largest health); no direction is
/// drawn and no other cell changes.
pub proof fn lemma_trapped_prey(h: int, w: int, cfg: Config, row: int, col: int, b: Buffers)
    requires
        turn_ok(h, w, row, col, b),
        b.read[flat(w, row, col)].category == Category::Prey,
        !prey_can_move(h, w, b.write, row, col),
    ensures
        ({
            let own = flat(w, row, col);
            let r = prey_step(h, w, cfg, row, col, b);
            let grown = grazer(b.read[own].health.saturating_add(1));
            &&& r.write == b.write.update(own, grown)
            &&& r.read == b.read
            &&& r.rng == b.rng
            &&& b.read[own].health < u16::MAX ==> r.write[own].health == b.read[own].health + 1
        }),
{
    lemma_flat_bounds(h, w, row, col);
}

/// One turn changes `read` only by clearing cells, and keeps both buffers
/// at their length.
proof fn lemma_step_only_clears(h: int, w: int, cfg: Config, b: Buffers, k: int)
    requires
        0 <= k < h * w,
        w >= 1,
        b.read.len() == h * w,
        b.write.len() == h * w,
    ensures
        cell_step(h, w, cfg, b, k).read.len() == h * w,
        cell_step(h, w, cfg, b, k).write.len() == h * w,
        forall|p: int| 0 <= p < h * w ==> #[trigger] cell_step(h, w, cfg, b, k).read[p] == b.read[p]
            || cell_step(h, w, cfg, b, k).read[p] == Cell::spec_empty(),
{
    lemma_position(h, w, k);
    let row = k / w;
    let col = k % w;
    lemma_flat_bounds(h, w, row, col);
    if b.read[k].category == Category::Predator && b.read[k].health != PREDATOR_STARVATION_HEALTH {
        let s = pred_scan(h, w, cfg, row, col, pred_start(w, row, col, b), 7);
        lemma_scan_eats_once(h, w, cfg, row, col, pred_start(w, row, col, b), 7);
        let dest = landing(h, w, row, col, s.safe, pick_of(next_state(b.rng)));
        match spec_neighbor(h, w, row, col, pick_of(next_state(b.rng))) {
            Some((nr, nc)) => {
                lemma_flat_bounds(h, w, nr, nc);
            },
            None => {},
        }
        assert(0 <= dest < h * w);
    } else if b.read[k].category == Category::Prey {
        match spec_neighbor(h, w, row, col, pick_of(next_state(b.rng))) {
            Some((nr, nc)) => {
                lemma_flat_bounds(h, w, nr, nc);
            },
            None => {},
        }
    }
}

/// A pass changes `read` only by clearing cells: after any number of turns,
/// each cell of `read` is as it was or empty.
pub proof fn lemma_pass_only_clears(h: int, w: int, cfg: Config, b: Buffers, n: nat)
    requires
        n <= h * w,
        w >= 1,
        b.read.len() == h * w,
        b.write.len() == h * w,
    ensures
        pass(h, w, cfg, b, n).read.len() == h * w,
        pass(h, w, cfg, b, n).write.len() == h * w,
        forall|p: int| 0 <= p < h * w ==> #[trigger] pass(h, w, cfg, b, n).read[p] == b.read[p]
            || pass(h, w, cfg, b, n).read[p] == Cell::spec_empty(),
    decreases n,
{
    if n > 0 {
        let m = (n - 1) as nat;
        lemma_pass_only_clears(h, w, cfg, b, m);
        lemma_step_only_clears(h, w, cfg, pass(h, w, cfg, b, m), m as int);
        assert forall|p: int| 0 <= p < h * w implies #[trigger] pass(h, w, cfg, b, n).read[p] == b.read[p]
            || pass(h, w, cfg, b, n).read[p] == Cell::spec_empty() by {
            assert(pass(h, w, cfg, b, m).read[p] == b.read[p] || pass(h, w, cfg, b, m).read[p] == Cell::spec_empty());
        }
    }
}

} // verus!
