//! A fixed-size rectangular array of cells with bounds-checked neighbour lookup.
use vstd::prelude::*;
use crate::cell::{Cell, ConfigError};

verus! {

/// Number of neighbour offsets a creature looks at.
pub const NUM_DIRECTIONS: usize = 7;

/// The neighbour offset `(row_delta, col_delta)` of direction `d`, in the
/// fixed order `(+1,0) (+1,+1) (0,+1) (-1,+1) (-1,0) (-1,-1) (0,-1)`.
pub open spec fn offset(d: int) -> (int, int) {
    if d == 0 {
        (1, 0)
    } else if d == 1 {
        (1, 1)
    } else if d == 2 {
        (0, 1)
    } else if d == 3 {
        (-1, 1)
    } else if d == 4 {
        (-1, 0)
    } else if d == 5 {
        (-1, -1)
    } else {
        (0, -1)
    }
}

/// Whether `(row, col)` lies on a `height x width` grid.
pub open spec fn spec_in_bounds(height: int, width: int, row: int, col: int) -> bool {
    0 <= row < height && 0 <= col < width
}

/// The in-bounds coordinate reached from `(row, col)` along direction `d`.
pub open spec fn spec_neighbor(height: int, width: int, row: int, col: int, d: int) -> Option<(int, int)> {
    let nr = row + offset(d).0;
    let nc = col + offset(d).1;
    if spec_in_bounds(height, width, nr, nc) {
        Some((nr, nc))
    } else {
        None
    }
}

/// Position of `(row, col)` in the row-major cell sequence.
pub open spec fn flat(width: int, row: int, col: int) -> int {
    row * width + col
}

pub proof fn lemma_flat_bounds(height: int, width: int, row: int, col: int)
    requires
        0 <= row < height,
        0 <= col < width,
    ensures
        0 <= flat(width, row, col) < height * width,
        0 <= row * width <= row * width + col,
        flat(width, row, col) / width == row,
        flat(width, row, col) % width == col,
{
    assert(0 <= row * width + col < height * width) by (nonlinear_arith)
        requires 0 <= row < height, 0 <= col < width;
    assert(0 <= row * width) by (nonlinear_arith)
        requires 0 <= row, 0 <= width;
    vstd::arithmetic::div_mod::lemma_fundamental_div_mod_converse(
        row * width + col, width, row, col);
}

/// The row-major position `k` names the coordinate `(k / width, k % width)`.
pub proof fn lemma_position(height: int, width: int, k: int)
    requires
        0 <= k < height * width,
        width >= 1,
    ensures
        0 <= k / width < height,
        0 <= k % width < width,
        flat(width, k / width, k % width) == k,
{
    assert(height * width == width * height) by (nonlinear_arith);
    vstd::arithmetic::div_mod::lemma_multiply_divide_lt(k, width, height);
    vstd::arithmetic::div_mod::lemma_fundamental_div_mod(k, width);
    vstd::arithmetic::div_mod::lemma_mod_pos_bound(k, width);
    assert(0 <= k / width) by {
        vstd::arithmetic::div_mod::lemma_div_pos_is_pos(k, width);
    }
    assert(width * (k / width) == (k / width) * width) by (nonlinear_arith);
}

/// Two distinct coordinates occupy distinct positions.
pub proof fn lemma_flat_injective(width: int, r1: int, c1: int, r2: int, c2: int)
    requires
        0 <= c1 < width,
        0 <= c2 < width,
        flat(width, r1, c1) == flat(width, r2, c2),
    ensures
        r1 == r2 && c1 == c2,
{
    if r1 < r2 {
        assert(r1 * width + width <= r2 * width) by (nonlinear_arith)
            requires r1 < r2, 0 < width;
    } else if r2 < r1 {
        assert(r2 * width + width <= r1 * width) by (nonlinear_arith)
            requires r2 < r1, 0 < width;
    }
}

/// A `height x width` grid stored row by row.
#[derive(Clone, Debug, PartialEq, Eq)]
pub struct Grid {
    pub height: usize,
    pub width: usize,
    pub cells: Vec<Cell>,
}

/// Every cell of a sequence is well formed.
pub open spec fn all_wf(cells: Seq<Cell>) -> bool {
    forall|i: int| 0 <= i < cells.len() ==> #[trigger] cells[i].wf()
}

impl Grid {
    /// Positive dimensions, one cell per position, every cell well formed.
    pub open spec fn wf(&self) -> bool {
        self.height >= 1 && self.width >= 1
            && self.cells@.len() == self.height * self.width
            && all_wf(self.cells@)
    }

    /// The cell at `(row, col)`.
    pub open spec fn at(&self, row: int, col: int) -> Cell {
        self.cells@[flat(self.width as int, row, col)]
    }

    /// A grid of the given size with every cell empty; refused when a
    /// dimension is zero or the cell count does not fit in memory indices.
    pub fn new(height: usize, width: usize) -> (r: Result<Grid, ConfigError>)
        ensures
            match r {
                Ok(g) => g.wf() && g.height == height && g.width == width
                    && forall|i: int| 0 <= i < g.cells@.len() ==> #[trigger] g.cells@[i] == Cell::spec_empty(),
                Err(e) => (e == ConfigError::ZeroDimension) == (height == 0 || width == 0)
                    && (e == ConfigError::TooLarge) == (height >= 1 && width >= 1 && height * width > usize::MAX),
            },
            r is Ok <==> (height >= 1 && width >= 1 && height * width <= usize::MAX),
    {
        if height == 0 || width == 0 {
            return Err(ConfigError::ZeroDimension);
        }
        let n = match height.checked_mul(width) {
            Some(n) => n,
            None => {
                return Err(ConfigError::TooLarge);
            },
        };
        let mut cells: Vec<Cell> = Vec::with_capacity(n);
        let mut i: usize = 0;
        while i < n
            invariant
                i <= n,
                cells@.len() == i,
                forall|j: int| 0 <= j < i ==> #[trigger] cells@[j] == Cell::spec_empty(),
            decreases n - i,
        {
            cells.push(Cell::empty());
            i = i + 1;
        }
        Ok(Grid { height, width, cells })
    }

    /// Whether `(row, col)` lies on the grid.
    pub fn in_bounds(&self, row: isize, col: isize) -> (r: bool)
        ensures
            r == spec_in_bounds(self.height as int, self.width as int, row as int, col as int),
    {
        row >= 0 && col >= 0 && (row as usize) < self.height && (col as usize) < self.width
    }

    /// The cell at `(row, col)`.
    pub fn get(&self, row: usize, col: usize) -> (r: Cell)
        requires
            self.wf(),
            row < self.height,
            col < self.width,
        ensures
            r == self.at(row as int, col as int),
            r.wf(),
    {
        proof {
            lemma_flat_bounds(self.height as int, self.width as int, row as int, col as int);
            assert(self.cells@.len() == self.cells.len());
        }
        self.cells[row * self.width + col]
    }

    /// Stores `cell` at `(row, col)`.
    pub fn set(&mut self, row: usize, col: usize, cell: Cell)
        requires
            old(self).wf(),
            row < old(self).height,
            col < old(self).width,
            cell.wf(),
        ensures
            final(self).wf(),
            final(self).height == old(self).height,
            final(self).width == old(self).width,
            final(self).cells@ == old(self).cells@.update(
                flat(old(self).width as int, row as int, col as int), cell),
    {
        proof {
            lemma_flat_bounds(self.height as int, self.width as int, row as int, col as int);
            assert(self.cells@.len() == self.cells.len());
        }
        let i = row * self.width + col;
        self.cells.set(i, cell);
    }

    /// The in-bounds neighbour of `(row, col)` along direction `d`, if any.
    pub fn neighbor(&self, row: usize, col: usize, d: usize) -> (r: Option<(usize, usize)>)
        requires
            row < self.height,
            col < self.width,
            d < NUM_DIRECTIONS,
        ensures
            match r {
                Some((nr, nc)) => spec_neighbor(self.height as int, self.width as int, row as int, col as int, d as int)
                    == Some((nr as int, nc as int)),
                None => spec_neighbor(self.height as int, self.width as int, row as int, col as int, d as int) is None,
            },
    {
        // Row step: 0 = up by one, 1 = stay, 2 = down by one; likewise for columns.
        let (dr, dc): (u8, u8) = if d == 0 {
            (2, 1)
        } else if d == 1 {
            (2, 2)
        } else if d == 2 {
            (1, 2)
        } else if d == 3 {
            (0, 2)
        } else if d == 4 {
            (0, 1)
        } else if d == 5 {
            (0, 0)
        } else {
            (1, 0)
        };
        let nr = if dr == 0 {
            if row == 0 {
                return None;
            }
            row - 1
        } else if dr == 2 {
            if row + 1 >= self.height {
                return None;
            }
            row + 1
        } else {
            row
        };
        let nc = if dc == 0 {
            if col == 0 {
                return None;
            }
            col - 1
        } else if dc == 2 {
            if col + 1 >= self.width {
                return None;
            }
            col + 1
        } else {
            col
        };
        Some((nr, nc))
    }
}

} // verus!
