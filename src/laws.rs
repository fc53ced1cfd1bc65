//! Properties of the rule and of the grid operations, proved over the model.
use crate::rules::{
    block_shape,
    horizontal_bar,
    lemma_wrap_values,
    next_state,
    valid_dims,
    vertical_bar,
    wrap,
    GridModel,
};
use vstd::arithmetic::div_mod::{
    lemma_div_pos_is_pos,
    lemma_fundamental_div_mod,
    lemma_fundamental_div_mod_converse,
    lemma_mod_pos_bound,
};
use vstd::prelude::*;

verus! {

/// The cell at `(row, col)` reads from position `row * width + col`, which
/// the step's row-major walk maps back to `(row, col)`.
proof fn lemma_step_at(g: GridModel, row: int, col: int)
    requires
        g.wf(),
        g.in_bounds(row, col),
    ensures
        0 <= g.index(row, col) < g.cells.len(),
        g.step().alive(row, col) == next_state(g.alive(row, col), g.neighbors(row, col)),
{
    let w = g.width as int;
    assert(0 <= row * w + col < w * g.height) by (nonlinear_arith)
        requires
            0 <= row < g.height,
            0 <= col < w,
    ;
    lemma_fundamental_div_mod_converse(row * w + col, w, row, col);
}

/// A dead cell comes alive after a step exactly when it has three live
/// neighbours; with any other count from 0 to 8 it stays dead.
pub proof fn lemma_birth_rule(g: GridModel, row: int, col: int)
    requires
        g.wf(),
        g.in_bounds(row, col),
        !g.alive(row, col),
    ensures
        g.step().alive(row, col) <==> g.neighbors(row, col) == 3,
{
    lemma_step_at(g, row, col);
}

/// A live cell stays alive after a step exactly when it has two or three
/// live neighbours.
pub proof fn lemma_survival_rule(g: GridModel, row: int, col: int)
    requires
        g.wf(),
        g.in_bounds(row, col),
        g.alive(row, col),
    ensures
        g.step().alive(row, col) <==> (g.neighbors(row, col) == 2 || g.neighbors(row, col) == 3),
{
    lemma_step_at(g, row, col);
}

/// After a resize every cell is dead and there is exactly one cell per place.
pub proof fn lemma_blank_is_dead(width: nat, height: nat)
    ensures
        GridModel::blank(width, height).cells.len() == width * height,
        forall|i: int|
            0 <= i < width * height ==> !#[trigger] GridModel::blank(width, height).cells[i],
{
}

/// Grids that start equal are equal after any number of steps.
pub proof fn lemma_determinism(a: GridModel, b: GridModel, n: nat)
    requires
        a == b,
    ensures
        a.steps(n) == b.steps(n),
{
}

/// Setting cells alive keeps the dimensions; afterwards a cell is alive
/// exactly when it was alive before or one of the pairs names it.
pub proof fn lemma_set_alive_cells(g: GridModel, pairs: Seq<(usize, usize)>)
    requires
        g.wf(),
        forall|k: int| 0 <= k < pairs.len() ==> g.in_bounds(#[trigger] pairs[k].0 as int, pairs[k].1 as int),
    ensures
        g.set_alive(pairs).wf(),
        g.set_alive(pairs).width == g.width,
        g.set_alive(pairs).height == g.height,
        forall|i: int|
            0 <= i < g.cells.len() ==> #[trigger] g.set_alive(pairs).cells[i] == (g.cells[i] || exists|k: int|
                0 <= k < pairs.len() && g.index(#[trigger] pairs[k].0 as int, pairs[k].1 as int) == i),
    decreases pairs.len(),
{
    if pairs.len() > 0 {
        let rest = pairs.drop_last();
        lemma_set_alive_cells(g, rest);
        let (row, col) = pairs.last();
        assert(g.in_bounds(pairs[pairs.len() - 1].0 as int, pairs[pairs.len() - 1].1 as int));
        assert(0 <= row * g.width + col < g.width * g.height) by (nonlinear_arith)
            requires
                0 <= row < g.height,
                0 <= col < g.width,
        ;
        assert forall|i: int| 0 <= i < g.cells.len() implies #[trigger] g.set_alive(pairs).cells[i] == (
        g.cells[i] || exists|k: int|
            0 <= k < pairs.len() && g.index(#[trigger] pairs[k].0 as int, pairs[k].1 as int) == i) by {
            if exists|k: int|
                0 <= k < pairs.len() && g.index(#[trigger] pairs[k].0 as int, pairs[k].1 as int) == i {
                let k = choose|k: int|
                    0 <= k < pairs.len() && g.index(#[trigger] pairs[k].0 as int, pairs[k].1 as int) == i;
                if k < pairs.len() - 1 {
                    assert(rest[k] == pairs[k]);
                }
            }
            if exists|k: int|
                0 <= k < rest.len() && g.index(#[trigger] rest[k].0 as int, rest[k].1 as int) == i {
                let k = choose|k: int|
                    0 <= k < rest.len() && g.index(#[trigger] rest[k].0 as int, rest[k].1 as int) == i;
                assert(rest[k] == pairs[k]);
            }
        }
    }
}

/// Setting one cell alive makes that cell alive and leaves every other cell,
/// and the dimensions, as they were.
pub proof fn lemma_set_one_cell(g: GridModel, row: usize, col: usize)
    requires
        g.wf(),
        g.in_bounds(row as int, col as int),
    ensures
        g.set_alive(seq![(row, col)]).wf(),
        g.set_alive(seq![(row, col)]).alive(row as int, col as int),
        forall|i: int|
            0 <= i < g.cells.len() && i != g.index(row as int, col as int) ==> #[trigger] g.set_alive(
                seq![(row, col)],
            ).cells[i] == g.cells[i],
{
    let pairs = seq![(row, col)];
    assert(pairs.drop_last() =~= Seq::<(usize, usize)>::empty());
    assert(g.set_alive(pairs.drop_last()) == g);
    assert(pairs.last() == (row, col));
    assert(0 <= row * g.width + col < g.width * g.height) by (nonlinear_arith)
        requires
            0 <= row < g.height,
            0 <= col < g.width,
    ;
}

/// 1 if the pattern holds at `(row, col)`, else 0.
spec fn pattern_at(p: spec_fn(int, int) -> bool, row: int, col: int) -> int {
    if p(row, col) {
        1
    } else {
        0
    }
}

/// The number of places around `(row, col)` on a `width` by `height` torus
/// where the pattern holds.
spec fn pattern_neighbors(width: int, height: int, p: spec_fn(int, int) -> bool, row: int, col: int) -> int {
    pattern_at(p, wrap(row, 0, height), wrap(col, 1, width)) + pattern_at(
        p,
        wrap(row, 0, height),
        wrap(col, -1, width),
    ) + pattern_at(p, wrap(row, -1, height), wrap(col, 0, width)) + pattern_at(
        p,
        wrap(row, 1, height),
        wrap(col, 0, width),
    ) + pattern_at(p, wrap(row, 1, height), wrap(col, 1, width)) + pattern_at(
        p,
        wrap(row, 1, height),
        wrap(col, -1, width),
    ) + pattern_at(p, wrap(row, -1, height), wrap(col, -1, width)) + pattern_at(
        p,
        wrap(row, -1, height),
        wrap(col, 1, width),
    )
}

/// A grid built from a pattern holds the pattern at each place.
proof fn lemma_pattern_alive(width: nat, height: nat, p: spec_fn(int, int) -> bool, row: int, col: int)
    requires
        valid_dims(width as int, height as int),
        0 <= row < height,
        0 <= col < width,
    ensures
        0 <= row * width + col < GridModel::from_fn(width, height, p).cells.len(),
        GridModel::from_fn(width, height, p).alive(row, col) == p(row, col),
{
    assert(0 <= row * width + col < width * height) by (nonlinear_arith)
        requires
            0 <= row < height,
            0 <= col < width,
    ;
    lemma_fundamental_div_mod_converse(row * width + col, width as int, row, col);
}

/// In a grid built from a pattern, a cell's neighbours are the places around
/// it where the pattern holds.
proof fn lemma_pattern_neighbors(
    width: nat,
    height: nat,
    p: spec_fn(int, int) -> bool,
    row: int,
    col: int,
)
    requires
        valid_dims(width as int, height as int),
        0 <= row < height,
        0 <= col < width,
    ensures
        GridModel::from_fn(width, height, p).neighbors(row, col) == pattern_neighbors(
            width as int,
            height as int,
            p,
            row,
            col,
        ),
{
    let w = width as int;
    let h = height as int;
    lemma_wrap_values(row, h);
    lemma_wrap_values(col, w);
    lemma_pattern_alive(width, height, p, wrap(row, -1, h), wrap(col, -1, w));
    lemma_pattern_alive(width, height, p, wrap(row, -1, h), wrap(col, 0, w));
    lemma_pattern_alive(width, height, p, wrap(row, -1, h), wrap(col, 1, w));
    lemma_pattern_alive(width, height, p, wrap(row, 0, h), wrap(col, -1, w));
    lemma_pattern_alive(width, height, p, wrap(row, 0, h), wrap(col, 1, w));
    lemma_pattern_alive(width, height, p, wrap(row, 1, h), wrap(col, -1, w));
    lemma_pattern_alive(width, height, p, wrap(row, 1, h), wrap(col, 0, w));
    lemma_pattern_alive(width, height, p, wrap(row, 1, h), wrap(col, 1, w));
}

/// A step takes the grid of pattern `p` to the grid of pattern `q` when, at
/// every place, `q` is what the rule gives for `p` there.
proof fn lemma_pattern_step(
    width: nat,
    height: nat,
    p: spec_fn(int, int) -> bool,
    q: spec_fn(int, int) -> bool,
)
    requires
        valid_dims(width as int, height as int),
        forall|r: int, c: int|
            0 <= r < height && 0 <= c < width ==> #[trigger] q(r, c) == next_state(
                p(r, c),
                pattern_neighbors(width as int, height as int, p, r, c),
            ),
    ensures
        GridModel::from_fn(width, height, p).step() == GridModel::from_fn(width, height, q),
{
    let g = GridModel::from_fn(width, height, p);
    let w = width as int;
    assert forall|k: int| 0 <= k < g.cells.len() implies #[trigger] g.step().cells[k]
        == GridModel::from_fn(width, height, q).cells[k] by {
        let r = k / w;
        let c = k % w;
        lemma_fundamental_div_mod(k, w);
        lemma_mod_pos_bound(k, w);
        lemma_div_pos_is_pos(k, w);
        assert(r < height) by (nonlinear_arith)
            requires
                k == w * r + c,
                0 <= c,
                k < w * height,
                w > 0,
        ;
        lemma_pattern_neighbors(width, height, p, r, c);
    }
    assert(g.step().cells =~= GridModel::from_fn(width, height, q).cells);
}

/// A 2 by 2 block on an otherwise dead grid of at least 4 by 4 cells is
/// unchanged by a step, wherever it stands.
pub proof fn lemma_block_is_still_life(width: nat, height: nat, row: int, col: int)
    requires
        valid_dims(width as int, height as int),
        width >= 4,
        height >= 4,
        0 <= row < height,
        0 <= col < width,
    ensures
        ({
            let g = GridModel::from_fn(width, height, block_shape(width as int, height as int, row, col));
            g.step() == g
        }),
{
    let w = width as int;
    let h = height as int;
    let p = block_shape(w, h, row, col);
    assert forall|r: int, c: int| 0 <= r < height && 0 <= c < width implies #[trigger] p(r, c)
        == next_state(p(r, c), pattern_neighbors(w, h, p, r, c)) by {
        lemma_wrap_values(r, h);
        lemma_wrap_values(c, w);
        lemma_wrap_values(row, h);
        lemma_wrap_values(col, w);
    }
    lemma_pattern_step(width, height, p, p);
}

/// A bar of three cells on an otherwise dead grid of at least 5 by 5 cells
/// turns from horizontal to vertical in one step and back in the next, so it
/// repeats every two steps.
pub proof fn lemma_blinker_period_two(width: nat, height: nat, row: int, col: int)
    requires
        valid_dims(width as int, height as int),
        width >= 5,
        height >= 5,
        0 <= row < height,
        0 <= col < width,
    ensures
        ({
            let across = GridModel::from_fn(
                width,
                height,
                horizontal_bar(width as int, height as int, row, col),
            );
            let down = GridModel::from_fn(width, height, vertical_bar(width as int, height as int, row, col));
            &&& across.step() == down
            &&& down.step() == across
            &&& across.steps(2) == across
        }),
{
    let w = width as int;
    let h = height as int;
    let across = horizontal_bar(w, h, row, col);
    let down = vertical_bar(w, h, row, col);
    assert forall|r: int, c: int| 0 <= r < height && 0 <= c < width implies #[trigger] down(r, c)
        == next_state(across(r, c), pattern_neighbors(w, h, across, r, c)) by {
        lemma_wrap_values(r, h);
        lemma_wrap_values(c, w);
        lemma_wrap_values(row, h);
        lemma_wrap_values(col, w);
    }
    lemma_pattern_step(width, height, across, down);
    assert forall|r: int, c: int| 0 <= r < height && 0 <= c < width implies #[trigger] across(r, c)
        == next_state(down(r, c), pattern_neighbors(w, h, down, r, c)) by {
        lemma_wrap_values(r, h);
        lemma_wrap_values(c, w);
        lemma_wrap_values(row, h);
        lemma_wrap_values(col, w);
    }
    lemma_pattern_step(width, height, down, across);
    let g = GridModel::from_fn(width, height, across);
    assert(g.steps(1) == g.steps(0).step());
}

} // verus!
