//! The engine: a grid of cells on a torus, advanced a generation at a time.
use crate::bits::{bits_blocks, bits_cleared, bits_copy, bits_get, bits_of, bits_set, block_bit};
use crate::laws::lemma_set_alive_cells;
use crate::random::draw_ratio;
use crate::rules::{default_pattern, lemma_wrap_values, next_state, valid_dims, wrap, GridModel};
use fixedbitset::FixedBitSet;
use vstd::arithmetic::div_mod::lemma_fundamental_div_mod_converse;
use vstd::prelude::*;
use vstd::string::StringExecFns;

verus! {

/// Why an operation on a grid was refused.
#[derive(Debug, Clone, Copy, PartialEq, Eq, Structural)]
pub enum GridError {
    /// A width or height of zero, or a grid whose cell count does not fit in `usize`.
    InvalidDimension,
    /// A coordinate outside the grid.
    OutOfBounds,
}

/// A grid of `width * height` cells on a torus, one bit per cell in
/// row-major order.
pub struct Universe {
    width: usize,
    height: usize,
    cells: FixedBitSet,
}

impl View for Universe {
    type V = GridModel;

    closed spec fn view(&self) -> GridModel {
        GridModel { width: self.width as nat, height: self.height as nat, cells: bits_of(self.cells) }
    }
}

/// `row * width + col` lies below `width * height` when `(row, col)` lies in the grid.
proof fn lemma_index_in_grid(row: int, col: int, width: int, height: int)
    requires
        0 <= row < height,
        0 <= col < width,
    ensures
        0 <= row * width + col < width * height,
{
    assert(0 <= row * width + col < width * height) by (nonlinear_arith)
        requires
            0 <= row < height,
            0 <= col < width,
    ;
}

/// Moves `x` by `d` (one of -1, 0, 1) on a ring of `n` places.
fn wrap_coord(x: usize, d: isize, n: usize) -> (r: usize)
    requires
        x < n,
        -1 <= d <= 1,
    ensures
        r == wrap(x as int, d as int, n as int),
        r < n,
{
    proof {
        lemma_wrap_values(x as int, n as int);
    }
    if d < 0 {
        if x == 0 {
            n - 1
        } else {
            x - 1
        }
    } else if d > 0 {
        if x + 1 == n {
            0
        } else {
            x + 1
        }
    } else {
        x
    }
}

/// The numerator of the chance that a cell starts alive in a random grid.
pub const DENSITY_NUMERATOR: u32 = 1;

/// The denominator of the chance that a cell starts alive in a random grid:
/// one cell in ten.
pub const DENSITY_DENOMINATOR: u32 = 10;

/// The number of cells of a `width` by `height` grid, or `None` where the
/// dimensions are not valid.
fn cell_count(width: usize, height: usize) -> (r: Option<usize>)
    ensures
        r is Some <==> valid_dims(width as int, height as int),
        r matches Some(n) ==> n == width * height,
{
    if width == 0 || height == 0 {
        None
    } else {
        width.checked_mul(height)
    }
}

/// A buffer of `capacity` bits in which bit `i` is what `pred` gives for `i`.
fn gen_cells<F: Fn(usize) -> bool>(capacity: usize, pred: F) -> (r: FixedBitSet)
    requires
        forall|i: usize| i < capacity ==> pred.requires((i,)),
    ensures
        bits_of(r).len() == capacity,
        forall|i: int| 0 <= i < capacity ==> pred.ensures((i as usize,), #[trigger] bits_of(r)[i]),
{
    let mut bitset = bits_cleared(capacity);
    let mut i: usize = 0;
    while i < capacity
        invariant
            i <= capacity,
            forall|j: usize| j < capacity ==> pred.requires((j,)),
            bits_of(bitset).len() == capacity,
            forall|j: int| 0 <= j < i ==> pred.ensures((j as usize,), #[trigger] bits_of(bitset)[j]),
            forall|j: int| i <= j < capacity ==> !bits_of(bitset)[j],
        decreases capacity - i,
    {
        let alive = pred(i);
        if alive {
            bits_set(&mut bitset, i, true);
        }
        i += 1;
    }
    bitset
}

impl Universe {
    /// A grid with cell `i` alive exactly when `i` is even or a multiple of
    /// 7; `InvalidDimension` where the dimensions are not valid.
    pub fn new(width: usize, height: usize) -> (r: Result<Universe, GridError>)
        ensures
            r is Ok <==> valid_dims(width as int, height as int),
            r matches Err(e) ==> e == GridError::InvalidDimension,
            r matches Ok(u) ==> {
                &&& u.wf()
                &&& u@.width == width
                &&& u@.height == height
                &&& forall|i: int| 0 <= i < u@.cells.len() ==> u@.cells[i] == default_pattern(i)
            },
    {
        match cell_count(width, height) {
            None => Err(GridError::InvalidDimension),
            Some(n) => {
                let cells = gen_cells(
                    n,
                    (|i: usize| -> (r: bool)
                        ensures
                            r == default_pattern(i as int),
                        { i % 2 == 0 || i % 7 == 0 }),
                );
                Ok(Universe { width, height, cells })
            },
        }
    }

    /// A grid whose cells are given in row-major order; `InvalidDimension`
    /// where the dimensions are not valid or `states` does not hold one entry
    /// per cell. Seeds a grid from any source of draws.
    pub fn from_states(width: usize, height: usize, states: &[bool]) -> (r: Result<
        Universe,
        GridError,
    >)
        ensures
            r is Ok <==> valid_dims(width as int, height as int) && states@.len() == width
                * height,
            r matches Err(e) ==> e == GridError::InvalidDimension,
            r matches Ok(u) ==> u.wf() && u@ == (GridModel {
                width: width as nat,
                height: height as nat,
                cells: states@,
            }),
    {
        match cell_count(width, height) {
            None => Err(GridError::InvalidDimension),
            Some(n) => {
                if states.len() != n {
                    return Err(GridError::InvalidDimension);
                }
                let cells = gen_cells(
                    n,
                    (|i: usize| -> (r: bool)
                        requires
                            i < states@.len(),
                        ensures
                            r == states@[i as int],
                        { states[i] }),
                );
                let u = Universe { width, height, cells };
                assert(u@.cells =~= states@);
                Ok(u)
            },
        }
    }

    /// A grid in which each cell is alive with probability
    /// `DENSITY_NUMERATOR / DENSITY_DENOMINATOR`, independently;
    /// `InvalidDimension` where the dimensions are not valid.
    pub fn rand(width: usize, height: usize) -> (r: Result<Universe, GridError>)
        ensures
            r is Ok <==> valid_dims(width as int, height as int),
            r matches Err(e) ==> e == GridError::InvalidDimension,
            r matches Ok(u) ==> u.wf() && u@.width == width && u@.height == height,
    {
        match cell_count(width, height) {
            None => Err(GridError::InvalidDimension),
            Some(n) => {
                let cells = gen_cells(n, |_i: usize| draw_ratio(DENSITY_NUMERATOR, DENSITY_DENOMINATOR));
                Ok(Universe { width, height, cells })
            },
        }
    }

    /// The dimensions are valid and the buffer holds one bit per cell.
    pub open spec fn wf(&self) -> bool {
        self@.wf()
    }

    /// The number of columns.
    pub fn width(&self) -> (r: usize)
        ensures
            r == self@.width,
    {
        self.width
    }

    /// The number of rows.
    pub fn height(&self) -> (r: usize)
        ensures
            r == self@.height,
    {
        self.height
    }

    /// The linear index of `(row, column)`: `row * width + column`. The
    /// coordinates are not wrapped or checked against the height.
    pub fn get_idx(&self, row: usize, column: usize) -> (r: usize)
        requires
            row * self@.width + column <= usize::MAX,
        ensures
            r == self@.index(row as int, column as int),
    {
        row * self.width + column
    }

    /// 1 if the neighbour of `(row, column)` at offset `(dr, dc)` is alive, else 0.
    fn live_at(&self, row: usize, column: usize, dr: isize, dc: isize) -> (r: u8)
        requires
            self.wf(),
            row < self@.height,
            column < self@.width,
            -1 <= dr <= 1,
            -1 <= dc <= 1,
        ensures
            r == self@.live_at(row as int, column as int, dr as int, dc as int),
    {
        let r = wrap_coord(row, dr, self.height);
        let c = wrap_coord(column, dc, self.width);
        proof {
            lemma_index_in_grid(r as int, c as int, self.width as int, self.height as int);
        }
        let idx = self.get_idx(r, c);
        if bits_get(&self.cells, idx) {
            1
        } else {
            0
        }
    }

    /// The number of live cells among the eight around `(row, column)`,
    /// wrapping around the edges.
    pub fn live_neighbor_count(&self, row: usize, column: usize) -> (r: u8)
        requires
            self.wf(),
            row < self@.height,
            column < self@.width,
        ensures
            r == self@.neighbors(row as int, column as int),
            r <= 8,
    {
        self.live_at(row, column, 0, 1) + self.live_at(row, column, 0, -1) + self.live_at(
            row,
            column,
            -1,
            0,
        ) + self.live_at(row, column, 1, 0) + self.live_at(row, column, 1, 1) + self.live_at(
            row,
            column,
            1,
            -1,
        ) + self.live_at(row, column, -1, -1) + self.live_at(row, column, -1, 1)
    }
    /// Advances every cell one generation at once: each cell's neighbours
    /// are counted on the grid as it stood before the step.
    pub fn tick(&mut self)
        requires
            old(self).wf(),
        ensures
            final(self)@ == old(self)@.step(),
            final(self).wf(),
    {
        let ghost g = self@;
        let mut next = bits_copy(&self.cells);
        let mut row: usize = 0;
        while row < self.height
            invariant
                self@ == g,
                g.wf(),
                row <= g.height,
                bits_of(next).len() == g.cells.len(),
                forall|i: int| 0 <= i < row * g.width ==> bits_of(next)[i] == g.step().cells[i],
                forall|i: int|
                    row * g.width <= i < g.cells.len() ==> bits_of(next)[i] == g.cells[i],
            decreases g.height - row,
        {
            let mut column: usize = 0;
            while column < self.width
                invariant
                    self@ == g,
                    g.wf(),
                    row < g.height,
                    column <= g.width,
                    bits_of(next).len() == g.cells.len(),
                    forall|i: int|
                        0 <= i < row * g.width + column ==> bits_of(next)[i] == g.step().cells[i],
                    forall|i: int|
                        row * g.width + column <= i < g.cells.len() ==> bits_of(next)[i]
                            == g.cells[i],
                decreases g.width - column,
            {
                proof {
                    lemma_index_in_grid(row as int, column as int, g.width as int, g.height as int);
                    lemma_fundamental_div_mod_converse(
                        row * g.width + column,
                        g.width as int,
                        row as int,
                        column as int,
                    );
                }
                let idx = self.get_idx(row, column);
                let live_neighbors = self.live_neighbor_count(row, column);
                let is_cell_alive = bits_get(&self.cells, idx);
                match (is_cell_alive, live_neighbors) {
                    (true, 2..=3) => {},
                    (true, _) => bits_set(&mut next, idx, false),
                    (false, 3) => bits_set(&mut next, idx, true),
                    (false, _) => {},
                }
                column += 1;
            }
            proof {
                assert(row * g.width + g.width == (row + 1) * g.width) by (nonlinear_arith);
            }
            row += 1;
        }
        proof {
            assert(g.height * g.width == g.cells.len()) by (nonlinear_arith)
                requires
                    g.cells.len() == g.width * g.height,
            ;
            assert(bits_of(next) =~= g.step().cells);
        }
        self.cells = next;
    }
    /// Sets the number of columns and clears every cell: the old content is
    /// discarded, not carried over. `InvalidDimension`, with the grid left as
    /// it was, where the new dimensions are not valid.
    pub fn set_width(&mut self, width: usize) -> (r: Result<(), GridError>)
        requires
            old(self).wf(),
        ensures
            final(self).wf(),
            r is Ok <==> valid_dims(width as int, old(self)@.height as int),
            r is Ok ==> final(self)@ == GridModel::blank(width as nat, old(self)@.height),
            r matches Err(e) ==> e == GridError::InvalidDimension && final(self)@ == old(self)@,
    {
        match cell_count(width, self.height) {
            None => Err(GridError::InvalidDimension),
            Some(n) => {
                self.width = width;
                self.cells = bits_cleared(n);
                Ok(())
            },
        }
    }

    /// Sets the number of rows and clears every cell: the old content is
    /// discarded, not carried over. `InvalidDimension`, with the grid left as
    /// it was, where the new dimensions are not valid.
    pub fn set_height(&mut self, height: usize) -> (r: Result<(), GridError>)
        requires
            old(self).wf(),
        ensures
            final(self).wf(),
            r is Ok <==> valid_dims(old(self)@.width as int, height as int),
            r is Ok ==> final(self)@ == GridModel::blank(old(self)@.width, height as nat),
            r matches Err(e) ==> e == GridError::InvalidDimension && final(self)@ == old(self)@,
    {
        match cell_count(self.width, height) {
            None => Err(GridError::InvalidDimension),
            Some(n) => {
                self.height = height;
                self.cells = bits_cleared(n);
                Ok(())
            },
        }
    }

    /// The packed cell buffer as 32-bit blocks, cell `i` at bit `i % 32` of
    /// block `i / 32`. Valid until the grid is next changed.
    pub fn cells(&self) -> (r: &[u32])
        ensures
            r@.len() == (self@.cells.len() + 31) / 32,
            forall|i: int|
                0 <= i < self@.cells.len() ==> #[trigger] block_bit(r@, i) == self@.cells[i],
    {
        bits_blocks(&self.cells)
    }

    /// The packed cell buffer itself.
    pub fn get_cells(&self) -> (r: &FixedBitSet)
        ensures
            bits_of(*r) == self@.cells,
    {
        &self.cells
    }

    /// Whether the cell at `(row, column)` is alive.
    pub fn is_alive(&self, row: usize, column: usize) -> (r: bool)
        requires
            self.wf(),
            row < self@.height,
            column < self@.width,
        ensures
            r == self@.alive(row as int, column as int),
    {
        proof {
            lemma_index_in_grid(row as int, column as int, self.width as int, self.height as int);
        }
        let idx = self.get_idx(row, column);
        bits_get(&self.cells, idx)
    }

    /// Makes alive the cell at each `(row, column)` of `cells`, leaving the
    /// others as they are. `OutOfBounds`, with the grid unchanged, where any
    /// pair lies outside the grid.
    pub fn set_cells(&mut self, cells: &[(usize, usize)]) -> (r: Result<(), GridError>)
        requires
            old(self).wf(),
        ensures
            final(self).wf(),
            r is Ok <==> forall|k: int|
                0 <= k < cells@.len() ==> old(self)@.in_bounds(
                    #[trigger] cells@[k].0 as int,
                    cells@[k].1 as int,
                ),
            r is Ok ==> final(self)@ == old(self)@.set_alive(cells@),
            final(self)@.width == old(self)@.width,
            final(self)@.height == old(self)@.height,
            r is Ok ==> forall|i: int|
                0 <= i < old(self)@.cells.len() ==> #[trigger] final(self)@.cells[i] == (old(
                    self,
                )@.cells[i] || exists|k: int|
                    0 <= k < cells@.len() && old(self)@.index(
                        #[trigger] cells@[k].0 as int,
                        cells@[k].1 as int,
                    ) == i),
            r matches Err(e) ==> e == GridError::OutOfBounds && final(self)@ == old(self)@,
    {
        let mut k: usize = 0;
        while k < cells.len()
            invariant
                self.wf(),
                self@ == old(self)@,
                k <= cells@.len(),
                forall|j: int|
                    0 <= j < k ==> self@.in_bounds(#[trigger] cells@[j].0 as int, cells@[j].1 as int),
            decreases cells@.len() - k,
        {
            let (row, col) = cells[k];
            if row >= self.height || col >= self.width {
                return Err(GridError::OutOfBounds);
            }
            k += 1;
        }
        let ghost g = self@;
        let mut k: usize = 0;
        while k < cells.len()
            invariant
                g.wf(),
                k <= cells@.len(),
                forall|j: int|
                    0 <= j < cells@.len() ==> g.in_bounds(
                        #[trigger] cells@[j].0 as int,
                        cells@[j].1 as int,
                    ),
                self.wf(),
                self@.width == g.width,
                self@.height == g.height,
                self@ == g.set_alive(cells@.subrange(0, k as int)),
            decreases cells@.len() - k,
        {
            let (row, col) = cells[k];
            assert(g.in_bounds(cells@[k as int].0 as int, cells@[k as int].1 as int));
            assert(cells@.subrange(0, k + 1).drop_last() =~= cells@.subrange(0, k as int));
            proof {
                lemma_index_in_grid(row as int, col as int, self.width as int, self.height as int);
            }
            let idx = self.get_idx(row, col);
            bits_set(&mut self.cells, idx, true);
            k += 1;
        }
        assert(cells@.subrange(0, cells@.len() as int) =~= cells@);
        proof {
            lemma_set_alive_cells(g, cells@);
        }
        Ok(())
    }

    /// The grid as text: `height` lines of `width` glyphs, each line ended by
    /// a line break.
    pub fn render(&self) -> (r: String)
        requires
            self.wf(),
        ensures
            r@ == self@.text(),
    {
        let mut text = String::new();
        let mut row: usize = 0;
        while row < self.height
            invariant
                self.wf(),
                row <= self@.height,
                text@ == self@.text_prefix(row * self@.width),
            decreases self@.height - row,
        {
            let mut column: usize = 0;
            while column < self.width
                invariant
                    self.wf(),
                    row < self@.height,
                    column <= self@.width,
                    text@ == self@.text_prefix(row * self@.width + column),
                decreases self@.width - column,
            {
                proof {
                    lemma_index_in_grid(row as int, column as int, self.width as int, self.height as int);
                }
                let idx = self.get_idx(row, column);
                proof {
                    let w = self@.width as int;
                    if column + 1 < w {
                        lemma_fundamental_div_mod_converse(idx + 1, w, row as int, column + 1);
                    } else {
                        assert(idx + 1 == (row + 1) * w) by (nonlinear_arith)
                            requires
                                idx == row * w + column,
                                column + 1 == w,
                        ;
                        lemma_fundamental_div_mod_converse(idx + 1, w, row + 1, 0);
                    }
                    reveal_strlit("\u{25FC}");
                    reveal_strlit("\u{25FB}");
                    reveal_strlit("\n");
                }
                if bits_get(&self.cells, idx) {
                    text.append("\u{25FC}");
                } else {
                    text.append("\u{25FB}");
                }
                if column + 1 == self.width {
                    text.append("\n");
                }
                column += 1;
            }
            proof {
                assert(row * self@.width + self@.width == (row + 1) * self@.width) by (nonlinear_arith);
            }
            row += 1;
        }
        proof {
            assert(self@.height * self@.width == self@.cells.len()) by (nonlinear_arith)
                requires
                    self@.cells.len() == self@.width * self@.height,
            ;
        }
        text
    }
}

} // verus!
