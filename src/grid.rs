use vstd::prelude::*;

verus! {

/// A grid of cells as a sequence of rows, each a sequence of cell states.
pub open spec fn is_square(g: Seq<Seq<bool>>) -> bool {
    forall|i: int| 0 <= i < g.len() ==> (#[trigger] g[i]).len() == g.len()
}

/// The all-dead grid of side `n`.
pub open spec fn dead_grid(n: nat) -> Seq<Seq<bool>> {
    Seq::new(n, |i: int| Seq::new(n, |j: int| false))
}

/// Pulls a coordinate into `[0, n)`.
pub open spec fn clamp_index(v: int, n: int) -> int {
    if v < 0 {
        0
    } else if v >= n {
        n - 1
    } else {
        v
    }
}

/// The state read at `(i, j)` when out-of-range coordinates are clamped.
pub open spec fn alive_clamped(g: Seq<Seq<bool>>, i: int, j: int) -> bool {
    g[clamp_index(i, g.len() as int)][clamp_index(j, g.len() as int)]
}

/// One for a living cell, zero for a dead one.
pub open spec fn indicator(b: bool) -> int {
    if b {
        1
    } else {
        0
    }
}

/// The number of living cells among the eight neighbours of `(i, j)`, each
/// neighbour read through `alive_clamped`.
pub open spec fn live_neighbors(g: Seq<Seq<bool>>, i: int, j: int) -> int {
    indicator(alive_clamped(g, i - 1, j - 1)) + indicator(alive_clamped(g, i - 1, j))
        + indicator(alive_clamped(g, i - 1, j + 1)) + indicator(alive_clamped(g, i, j - 1))
        + indicator(alive_clamped(g, i, j + 1)) + indicator(alive_clamped(g, i + 1, j - 1))
        + indicator(alive_clamped(g, i + 1, j)) + indicator(alive_clamped(g, i + 1, j + 1))
}

/// The transition rule: a living cell survives with two or three living
/// neighbours, a dead cell is born with exactly three.
pub open spec fn survives(alive: bool, count: int) -> bool {
    if alive {
        count == 2 || count == 3
    } else {
        count == 3
    }
}

/// The next generation, every cell computed from the current one.
pub open spec fn next_generation(g: Seq<Seq<bool>>) -> Seq<Seq<bool>> {
    Seq::new(
        g.len(),
        |i: int| Seq::new(g.len(), |j: int| survives(g[i][j], live_neighbors(g, i, j))),
    )
}

/// `g` with the cell at `(r, c)` flipped.
pub open spec fn toggled(g: Seq<Seq<bool>>, r: int, c: int) -> Seq<Seq<bool>> {
    g.update(r, g[r].update(c, !g[r][c]))
}

/// The next generation depends on the grid alone: two runs of `advance`, or
/// of two steps of it, on equal grids give equal results.
pub proof fn lemma_advance_deterministic(a: Seq<Seq<bool>>, b: Seq<Seq<bool>>)
    requires
        a == b,
    ensures
        next_generation(a) == next_generation(b),
        next_generation(next_generation(a)) == next_generation(next_generation(b)),
{
}

/// A cell with at most one living neighbour is dead in the next generation,
/// whatever its state.
pub proof fn lemma_lonely_cell_dies(g: Seq<Seq<bool>>, i: int, j: int)
    requires
        is_square(g),
        0 <= i < g.len(),
        0 <= j < g.len(),
        live_neighbors(g, i, j) <= 1,
    ensures
        !next_generation(g)[i][j],
{
}

/// A cell with four or more living neighbours is dead in the next
/// generation, whatever its state.
pub proof fn lemma_crowded_cell_dies(g: Seq<Seq<bool>>, i: int, j: int)
    requires
        is_square(g),
        0 <= i < g.len(),
        0 <= j < g.len(),
        live_neighbors(g, i, j) >= 4,
    ensures
        !next_generation(g)[i][j],
{
}

/// An all-dead grid stays all dead: nothing is born from nothing.
pub proof fn lemma_dead_grid_stays_dead(n: nat)
    ensures
        next_generation(dead_grid(n)) == dead_grid(n),
{
    assert(next_generation(dead_grid(n)) =~~= dead_grid(n));
}

/// Flipping the same cell twice gives the grid back.
pub proof fn lemma_toggle_twice(g: Seq<Seq<bool>>, r: int, c: int)
    requires
        is_square(g),
        0 <= r < g.len(),
        0 <= c < g.len(),
    ensures
        toggled(toggled(g, r, c), r, c) == g,
{
    assert(toggled(toggled(g, r, c), r, c) =~~= g);
}

/// Applies the transition rule to one cell.
pub fn next_state(alive: bool, live_neighbors: u8) -> (r: bool)
    ensures
        r == survives(alive, live_neighbors as int),
{
    match (alive, live_neighbors) {
        (true, 2..=3) | (false, 3) => true,
        _ => false,
    }
}

/// A square grid of cells, stored row by row.
pub struct Grid {
    rows: Vec<Vec<bool>>,
}

impl View for Grid {
    type V = Seq<Seq<bool>>;

    closed spec fn view(&self) -> Seq<Seq<bool>> {
        self.rows@.map_values(|r: Vec<bool>| r@)
    }
}

impl Grid {
    /// Every row is as long as the grid is high.
    pub open spec fn wf(&self) -> bool {
        is_square(self@)
    }

    /// An all-dead grid of side `n`.
    pub fn new(n: usize) -> (g: Grid)
        ensures
            g.wf(),
            g@ == dead_grid(n as nat),
    {
        let mut rows: Vec<Vec<bool>> = Vec::new();
        let mut i: usize = 0;
        while i < n
            invariant
                i <= n,
                rows@.len() == i,
                forall|a: int| 0 <= a < i ==> (#[trigger] rows@[a])@ == Seq::new(n as nat, |j: int| false),
            decreases n - i,
        {
            let row: Vec<bool> = vec![false; n];
            proof {
                assert(row@ =~= Seq::new(n as nat, |j: int| false));
            }
            rows.push(row);
            i += 1;
        }
        let g = Grid { rows };
        proof {
            assert(g@ =~= dead_grid(n as nat));
        }
        g
    }

    /// The side of the grid.
    pub fn size(&self) -> (n: usize)
        ensures
            n == self@.len(),
    {
        self.rows.len()
    }

    /// The state of the cell at `(row, col)`.
    pub fn get(&self, row: usize, col: usize) -> (b: bool)
        requires
            self.wf(),
            row < self@.len(),
            col < self@.len(),
        ensures
            b == self@[row as int][col as int],
    {
        proof {
            assert(self@[row as int].len() == self@.len());
        }
        self.rows[row][col]
    }

    /// Counts the living neighbours of `(row, col)`, clamping at the border.
    pub fn count_live_neighbors(&self, row: usize, col: usize) -> (count: u8)
        requires
            self.wf(),
            row < self@.len(),
            col < self@.len(),
        ensures
            count == live_neighbors(self@, row as int, col as int),
    {
        let n = self.rows.len();
        let top = if row == 0 {
            0
        } else {
            row - 1
        };
        let bottom = if row + 1 >= n {
            n - 1
        } else {
            row + 1
        };
        let left = if col == 0 {
            0
        } else {
            col - 1
        };
        let right = if col + 1 >= n {
            n - 1
        } else {
            col + 1
        };
        proof {
            assert(self@[top as int].len() == n);
            assert(self@[row as int].len() == n);
            assert(self@[bottom as int].len() == n);
        }
        let mut count: u8 = 0;
        if self.rows[top][left] {
            count += 1;
        }
        if self.rows[top][col] {
            count += 1;
        }
        if self.rows[top][right] {
            count += 1;
        }
        if self.rows[row][left] {
            count += 1;
        }
        if self.rows[row][right] {
            count += 1;
        }
        if self.rows[bottom][left] {
            count += 1;
        }
        if self.rows[bottom][col] {
            count += 1;
        }
        if self.rows[bottom][right] {
            count += 1;
        }
        count
    }

    /// The next generation, computed from a full snapshot of this one.
    pub fn advance(&self) -> (next: Grid)
        requires
            self.wf(),
        ensures
            next.wf(),
            next@ == next_generation(self@),
    {
        let n = self.rows.len();
        let mut rows: Vec<Vec<bool>> = Vec::new();
        let mut i: usize = 0;
        while i < n
            invariant
                self.wf(),
                n == self@.len(),
                i <= n,
                rows@.len() == i,
                forall|a: int| 0 <= a < i ==> (#[trigger] rows@[a])@ == next_generation(self@)[a],
            decreases n - i,
        {
            let mut row: Vec<bool> = Vec::new();
            let mut j: usize = 0;
            while j < n
                invariant
                    self.wf(),
                    n == self@.len(),
                    i < n,
                    j <= n,
                    row@.len() == j,
                    forall|b: int| 0 <= b < j ==> #[trigger] row@[b] == next_generation(self@)[i as int][b],
                decreases n - j,
            {
                let count = self.count_live_neighbors(i, j);
                let alive = self.get(i, j);
                row.push(next_state(alive, count));
                j += 1;
            }
            proof {
                assert(row@ =~= next_generation(self@)[i as int]);
            }
            rows.push(row);
            i += 1;
        }
        let next = Grid { rows };
        proof {
            assert(next@ =~= next_generation(self@));
        }
        next
    }
    /// Replaces the grid by its next generation.
    pub fn simulate(&mut self)
        requires
            old(self).wf(),
        ensures
            final(self).wf(),
            final(self)@ == next_generation(old(self)@),
    {
        *self = self.advance();
    }

    /// Flips the cell at `(row, col)`.
    pub fn toggle(&mut self, row: usize, col: usize)
        requires
            old(self).wf(),
            row < old(self)@.len(),
            col < old(self)@.len(),
        ensures
            final(self).wf(),
            final(self)@ == toggled(old(self)@, row as int, col as int),
    {
        let ghost pre = self@;
        proof {
            assert(self@[row as int].len() == self@.len());
        }
        let v = self.rows[row][col];
        self.rows[row][col] = !v;
        proof {
            assert(self@ =~= toggled(pre, row as int, col as int));
        }
    }

    /// Kills every cell; the side stays as it is.
    pub fn clear(&mut self)
        requires
            old(self).wf(),
        ensures
            final(self).wf(),
            final(self)@ == dead_grid(old(self)@.len()),
    {
        let n = self.rows.len();
        *self = Grid::new(n);
    }
}

} // verus!
