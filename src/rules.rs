//! The mathematical model of a grid and of Conway's rule on a torus.
use vstd::arithmetic::div_mod::{lemma_mod_add_multiples_vanish, lemma_mod_self_0, lemma_small_mod};
use vstd::prelude::*;

verus! {

/// A grid as its dimensions and its cells in row-major order, `true` alive.
pub struct GridModel {
    pub width: nat,
    pub height: nat,
    pub cells: Seq<bool>,
}

/// Coordinate `x` moved by `d` on a ring of `n` places; the `+ n` keeps the
/// sum non-negative for `d >= -n`.
pub open spec fn wrap(x: int, d: int, n: int) -> int {
    (x + d + n) % n
}

/// The three places around `x` on a ring of `n` places, written without `%`.
pub proof fn lemma_wrap_values(x: int, n: int)
    requires
        0 <= x < n,
    ensures
        wrap(x, -1, n) == if x == 0 {
            n - 1
        } else {
            x - 1
        },
        wrap(x, 0, n) == x,
        wrap(x, 1, n) == if x + 1 == n {
            0
        } else {
            x + 1
        },
{
    lemma_mod_add_multiples_vanish(x - 1, n);
    lemma_mod_add_multiples_vanish(x, n);
    lemma_mod_add_multiples_vanish(x + 1, n);
    lemma_small_mod(x as nat, n as nat);
    if x > 0 {
        lemma_small_mod((x - 1) as nat, n as nat);
    } else {
        lemma_small_mod((n - 1) as nat, n as nat);
    }
    if x + 1 < n {
        lemma_small_mod((x + 1) as nat, n as nat);
    } else {
        lemma_mod_self_0(n);
    }
}

/// The state after one generation of a cell with `n` live neighbours.
pub open spec fn next_state(alive: bool, n: int) -> bool {
    if alive {
        n == 2 || n == 3
    } else {
        n == 3
    }
}

/// The fixed starting pattern: cell `i` is alive when `i` is even or a multiple of 7.
pub open spec fn default_pattern(i: int) -> bool {
    i % 2 == 0 || i % 7 == 0
}

/// The glyph of a cell in text: a filled square alive, a hollow one dead.
pub open spec fn glyph(alive: bool) -> char {
    if alive {
        '\u{25FC}'
    } else {
        '\u{25FB}'
    }
}

/// The 2 by 2 block whose top-left cell is `(row, col)`, wrapping around a
/// `width` by `height` torus.
pub open spec fn block_shape(width: int, height: int, row: int, col: int) -> spec_fn(int, int) -> bool {
    |r: int, c: int|
        (r == row || r == wrap(row, 1, height)) && (c == col || c == wrap(col, 1, width))
}

/// Three cells in a row centred on `(row, col)`, wrapping around a `width` by
/// `height` torus.
pub open spec fn horizontal_bar(width: int, height: int, row: int, col: int) -> spec_fn(int, int) -> bool {
    |r: int, c: int| r == row && (c == wrap(col, -1, width) || c == col || c == wrap(col, 1, width))
}

/// Three cells in a column centred on `(row, col)`, wrapping around a `width`
/// by `height` torus.
pub open spec fn vertical_bar(width: int, height: int, row: int, col: int) -> spec_fn(int, int) -> bool {
    |r: int, c: int| c == col && (r == wrap(row, -1, height) || r == row || r == wrap(row, 1, height))
}

/// Whether both dimensions are positive and the number of cells fits in `usize`.
pub open spec fn valid_dims(width: int, height: int) -> bool {
    width > 0 && height > 0 && width * height <= usize::MAX
}

impl GridModel {
    /// The dimensions are valid and there is one cell per place.
    pub open spec fn wf(self) -> bool {
        &&& valid_dims(self.width as int, self.height as int)
        &&& self.cells.len() == self.width * self.height
    }

    /// The linear index of `(row, col)`.
    pub open spec fn index(self, row: int, col: int) -> int {
        row * self.width + col
    }

    /// Whether the cell at `(row, col)` is alive.
    pub open spec fn alive(self, row: int, col: int) -> bool {
        self.cells[self.index(row, col)]
    }

    /// 1 if the neighbour of `(row, col)` at offset `(dr, dc)`, wrapped
    /// around the torus, is alive, else 0.
    pub open spec fn live_at(self, row: int, col: int, dr: int, dc: int) -> int {
        if self.alive(wrap(row, dr, self.height as int), wrap(col, dc, self.width as int)) {
            1
        } else {
            0
        }
    }

    /// The number of live cells among the eight around `(row, col)`.
    pub open spec fn neighbors(self, row: int, col: int) -> int {
        self.live_at(row, col, 0, 1) + self.live_at(row, col, 0, -1) + self.live_at(row, col, -1, 0)
            + self.live_at(row, col, 1, 0) + self.live_at(row, col, 1, 1) + self.live_at(
            row,
            col,
            1,
            -1,
        ) + self.live_at(row, col, -1, -1) + self.live_at(row, col, -1, 1)
    }

    /// The grid one generation later: every cell follows the rule on the
    /// neighbours it had before.
    pub open spec fn step(self) -> GridModel {
        GridModel {
            width: self.width,
            height: self.height,
            cells: Seq::new(
                self.cells.len(),
                |i: int| next_state(self.cells[i], self.neighbors(i / self.width as int, i % self.width as int)),
            ),
        }
    }

    /// The grid `n` generations later.
    pub open spec fn steps(self, n: nat) -> GridModel
        decreases n,
    {
        if n == 0 {
            self
        } else {
            self.steps((n - 1) as nat).step()
        }
    }

    /// Whether `(row, col)` lies in the grid.
    pub open spec fn in_bounds(self, row: int, col: int) -> bool {
        0 <= row < self.height && 0 <= col < self.width
    }

    /// The grid with the cell at each of `pairs` (row, column) made alive,
    /// in order.
    pub open spec fn set_alive(self, pairs: Seq<(usize, usize)>) -> GridModel
        decreases pairs.len(),
    {
        if pairs.len() == 0 {
            self
        } else {
            let g = self.set_alive(pairs.drop_last());
            let (row, col) = pairs.last();
            GridModel { cells: g.cells.update(g.index(row as int, col as int), true), ..g }
        }
    }

    /// The text of the first `n` cells: one glyph per cell, a line break
    /// after each full row.
    pub open spec fn text_prefix(self, n: int) -> Seq<char>
        decreases n,
    {
        if n <= 0 || self.width == 0 {
            Seq::empty()
        } else {
            let line_end = if n % (self.width as int) == 0 {
                seq!['\n']
            } else {
                Seq::empty()
            };
            self.text_prefix(n - 1) + seq![glyph(self.cells[n - 1])] + line_end
        }
    }

    /// The grid as text: `height` lines of `width` glyphs, each ended by a
    /// line break.
    pub open spec fn text(self) -> Seq<char> {
        self.text_prefix(self.cells.len() as int)
    }

    /// The grid of the given dimensions whose cell `(row, col)` is `p(row, col)`.
    pub open spec fn from_fn(width: nat, height: nat, p: spec_fn(int, int) -> bool) -> GridModel {
        GridModel {
            width,
            height,
            cells: Seq::new(width * height, |i: int| p(i / width as int, i % width as int)),
        }
    }

    /// A grid of the given dimensions with every cell dead.
    pub open spec fn blank(width: nat, height: nat) -> GridModel {
        GridModel { width, height, cells: Seq::new(width * height, |i: int| false) }
    }
}

} // verus!
