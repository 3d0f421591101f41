use vstd::prelude::*;
use crate::grid::{alive_clamped, dead_grid, indicator, live_neighbors, next_generation, survives};

verus! {

/// The grid of side `n` whose living cells are those where `alive` holds.
pub open spec fn pattern(n: nat, alive: spec_fn(int, int) -> bool) -> Seq<Seq<bool>> {
    Seq::new(n, |i: int| Seq::new(n, |j: int| alive(i, j)))
}

/// Every living cell of the pattern lies off the border of a grid of side
/// `n`, so no clamped read can reach one.
pub open spec fn off_border(n: nat, alive: spec_fn(int, int) -> bool) -> bool {
    forall|a: int, b: int| #[trigger] alive(a, b) ==> 1 <= a && a + 2 <= n && 1 <= b && b + 2 <= n
}

/// The number of living cells among the eight true neighbours of `(i, j)`.
pub open spec fn open_count(alive: spec_fn(int, int) -> bool, i: int, j: int) -> int {
    indicator(alive(i - 1, j - 1)) + indicator(alive(i - 1, j)) + indicator(alive(i - 1, j + 1))
        + indicator(alive(i, j - 1)) + indicator(alive(i, j + 1)) + indicator(alive(i + 1, j - 1))
        + indicator(alive(i + 1, j)) + indicator(alive(i + 1, j + 1))
}

/// One living cell at `(r, c)`.
pub open spec fn single(r: int, c: int) -> spec_fn(int, int) -> bool {
    |a: int, b: int| a == r && b == c
}

/// The block: the 2x2 square with top-left cell `(r, c)`.
pub open spec fn block(r: int, c: int) -> spec_fn(int, int) -> bool {
    |a: int, b: int| (a == r || a == r + 1) && (b == c || b == c + 1)
}

/// The blinker lying across: three cells in row `r` centred on column `c`.
pub open spec fn blinker_across(r: int, c: int) -> spec_fn(int, int) -> bool {
    |a: int, b: int| a == r && c - 1 <= b <= c + 1
}

/// The blinker standing up: three cells in column `c` centred on row `r`.
pub open spec fn blinker_down(r: int, c: int) -> spec_fn(int, int) -> bool {
    |a: int, b: int| r - 1 <= a <= r + 1 && b == c
}

proof fn lemma_clamped_read(n: nat, alive: spec_fn(int, int) -> bool, a: int, b: int)
    requires
        off_border(n, alive),
        n >= 1,
        -1 <= a <= n,
        -1 <= b <= n,
    ensures
        alive_clamped(pattern(n, alive), a, b) == alive(a, b),
{
    if alive(a, b) {
        assert(1 <= a && a + 2 <= n && 1 <= b && b + 2 <= n);
    }
    let ca = if a < 0 { 0 } else if a >= n { n - 1 } else { a };
    let cb = if b < 0 { 0 } else if b >= n { n - 1 } else { b };
    if alive(ca, cb) {
        assert(1 <= ca && ca + 2 <= n && 1 <= cb && cb + 2 <= n);
    }
    assert(pattern(n, alive)[ca][cb] == alive(ca, cb));
}

/// For a pattern off the border, the clamped count is the plain count and the
/// next generation follows the rule on it.
pub proof fn lemma_pattern_step(n: nat, alive: spec_fn(int, int) -> bool, i: int, j: int)
    requires
        off_border(n, alive),
        0 <= i < n,
        0 <= j < n,
    ensures
        live_neighbors(pattern(n, alive), i, j) == open_count(alive, i, j),
        next_generation(pattern(n, alive))[i][j] == survives(alive(i, j), open_count(alive, i, j)),
{
    lemma_clamped_read(n, alive, i - 1, j - 1);
    lemma_clamped_read(n, alive, i - 1, j);
    lemma_clamped_read(n, alive, i - 1, j + 1);
    lemma_clamped_read(n, alive, i, j - 1);
    lemma_clamped_read(n, alive, i, j + 1);
    lemma_clamped_read(n, alive, i + 1, j - 1);
    lemma_clamped_read(n, alive, i + 1, j);
    lemma_clamped_read(n, alive, i + 1, j + 1);
}

/// A lone living cell off the border dies, each of its eight neighbours has
/// exactly one living neighbour, and the whole grid is dead next generation.
pub proof fn lemma_lone_cell_dies(n: nat, r: int, c: int)
    requires
        1 <= r && r + 2 <= n,
        1 <= c && c + 2 <= n,
    ensures
        live_neighbors(pattern(n, single(r, c)), r, c) == 0,
        forall|di: int, dj: int|
            -1 <= di <= 1 && -1 <= dj <= 1 && !(di == 0 && dj == 0) ==> #[trigger] live_neighbors(
                pattern(n, single(r, c)),
                r + di,
                c + dj,
            ) == 1,
        next_generation(pattern(n, single(r, c))) == dead_grid(n),
{
    let alive = single(r, c);
    assert(off_border(n, alive));
    lemma_pattern_step(n, alive, r, c);
    assert forall|di: int, dj: int|
        -1 <= di <= 1 && -1 <= dj <= 1 && !(di == 0 && dj == 0) implies #[trigger] live_neighbors(
            pattern(n, alive),
            r + di,
            c + dj,
        ) == 1 by {
        lemma_pattern_step(n, alive, r + di, c + dj);
    }
    assert forall|i: int, j: int| 0 <= i < n && 0 <= j < n implies #[trigger] next_generation(
        pattern(n, alive),
    )[i][j] == dead_grid(n)[i][j] by {
        lemma_pattern_step(n, alive, i, j);
    }
    assert(next_generation(pattern(n, alive)) =~~= dead_grid(n));
}

/// The block, placed with a ring of dead cells between it and the border, is
/// a fixed point.
pub proof fn lemma_block_is_still(n: nat, r: int, c: int)
    requires
        1 <= r && r + 3 <= n,
        1 <= c && c + 3 <= n,
    ensures
        next_generation(pattern(n, block(r, c))) == pattern(n, block(r, c)),
{
    let alive = block(r, c);
    assert(off_border(n, alive));
    assert forall|i: int, j: int| 0 <= i < n && 0 <= j < n implies #[trigger] next_generation(
        pattern(n, alive),
    )[i][j] == pattern(n, alive)[i][j] by {
        lemma_pattern_step(n, alive, i, j);
    }
    assert(next_generation(pattern(n, alive)) =~~= pattern(n, alive));
}

/// The blinker, centred at least two cells from the border, turns from lying
/// across to standing up and back, so it repeats every two generations.
pub proof fn lemma_blinker_oscillates(n: nat, r: int, c: int)
    requires
        2 <= r && r + 3 <= n,
        2 <= c && c + 3 <= n,
    ensures
        next_generation(pattern(n, blinker_across(r, c))) == pattern(n, blinker_down(r, c)),
        next_generation(pattern(n, blinker_down(r, c))) == pattern(n, blinker_across(r, c)),
        next_generation(next_generation(pattern(n, blinker_across(r, c)))) == pattern(
            n,
            blinker_across(r, c),
        ),
{
    let across = blinker_across(r, c);
    let down = blinker_down(r, c);
    assert(off_border(n, across));
    assert(off_border(n, down));
    assert forall|i: int, j: int| 0 <= i < n && 0 <= j < n implies #[trigger] next_generation(
        pattern(n, across),
    )[i][j] == pattern(n, down)[i][j] by {
        lemma_pattern_step(n, across, i, j);
    }
    assert(next_generation(pattern(n, across)) =~~= pattern(n, down));
    assert forall|i: int, j: int| 0 <= i < n && 0 <= j < n implies #[trigger] next_generation(
        pattern(n, down),
    )[i][j] == pattern(n, across)[i][j] by {
        lemma_pattern_step(n, down, i, j);
    }
    assert(next_generation(pattern(n, down)) =~~= pattern(n, across));
}

} // verus!
