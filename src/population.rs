//! Counting live creatures and detecting extinction.
use vstd::prelude::*;
use crate::cell::{Category, Cell};
use crate::grid::Grid;

verus! {

/// How many cells of `cells` hold the category `c`.
pub open spec fn count_of(cells: Seq<Cell>, c: Category) -> nat
    decreases cells.len(),
{
    if cells.len() == 0 {
        0
    } else {
        count_of(cells.drop_last(), c) + if cells.last().category == c { 1nat } else { 0nat }
    }
}

pub proof fn lemma_count_bound(cells: Seq<Cell>, c: Category)
    ensures
        count_of(cells, c) <= cells.len(),
    decreases cells.len(),
{
    if cells.len() > 0 {
        lemma_count_bound(cells.drop_last(), c);
    }
}

/// Replacing one cell changes the count by what left and what came.
pub proof fn lemma_count_update(cells: Seq<Cell>, i: int, v: Cell, c: Category)
    requires
        0 <= i < cells.len(),
    ensures
        count_of(cells.update(i, v), c) + (if cells[i].category == c { 1int } else { 0int })
            == count_of(cells, c) + (if v.category == c { 1int } else { 0int }),
    decreases cells.len(),
{
    let u = cells.update(i, v);
    if i == cells.len() - 1 {
        assert(u.drop_last() =~= cells.drop_last());
    } else {
        assert(u.drop_last() =~= cells.drop_last().update(i, v));
        lemma_count_update(cells.drop_last(), i, v, c);
    }
}

/// Live creatures of each kind.
#[derive(Clone, Copy, Debug, PartialEq, Eq, Structural)]
pub struct Counts {
    pub predators: usize,
    pub prey: usize,
}

/// Counts the predators and the prey of `grid`.
pub fn counts(grid: &Grid) -> (r: Counts)
    ensures
        r.predators == count_of(grid.cells@, Category::Predator),
        r.prey == count_of(grid.cells@, Category::Prey),
{
    let mut predators: usize = 0;
    let mut prey: usize = 0;
    let mut i: usize = 0;
    let n = grid.cells.len();
    while i < n
        invariant
            i <= n,
            n == grid.cells@.len(),
            predators == count_of(grid.cells@.take(i as int), Category::Predator),
            prey == count_of(grid.cells@.take(i as int), Category::Prey),
        decreases n - i,
    {
        let ghost before = grid.cells@.take(i as int);
        let ghost after = grid.cells@.take(i + 1);
        proof {
            assert(after.drop_last() =~= before);
            lemma_count_bound(before, Category::Predator);
            lemma_count_bound(before, Category::Prey);
        }
        match grid.cells[i].category {
            Category::Predator => {
                predators = predators + 1;
            },
            Category::Prey => {
                prey = prey + 1;
            },
            Category::Empty => {},
        }
        i = i + 1;
    }
    proof {
        assert(grid.cells@.take(n as int) =~= grid.cells@);
    }
    Counts { predators, prey }
}

/// A species has died out: no predator or no prey is left.
pub open spec fn spec_extinct(c: Counts) -> bool {
    c.predators == 0 || c.prey == 0
}

impl Counts {
    /// Whether a species has died out.
    pub fn is_extinct(&self) -> (r: bool)
        ensures
            r == spec_extinct(*self),
    {
        self.predators == 0 || self.prey == 0
    }
}

} // verus!
