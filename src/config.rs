use vstd::prelude::*;

verus! {

/// Why a window size and a grid size cannot be used together.
#[derive(Debug, Clone, Copy, PartialEq, Eq, Structural)]
pub enum ConfigError {
    /// The grid has no cells.
    EmptyGrid,
    /// The window side is not a positive multiple of the grid side, so cells
    /// would not all be the same whole number of pixels.
    UnevenCells,
}

/// The fixed settings of a run: a square window of `window_size` pixels
/// showing `grid_size` cells a side, each `cell_size` pixels wide, and one
/// generation every `tick_ms` milliseconds while running.
#[derive(Debug, Clone, Copy, PartialEq, Eq, Structural)]
pub struct Config {
    pub window_size: usize,
    pub grid_size: usize,
    pub cell_size: usize,
    pub tick_ms: u64,
}

/// The cell under the pixel `(x, y)` as `(row, column)`, if the pixel lies
/// in the window.
pub open spec fn cell_under(cfg: Config, x: int, y: int) -> Option<(usize, usize)> {
    if 0 <= x < cfg.window_size && 0 <= y < cfg.window_size {
        Some(((y / cfg.cell_size as int) as usize, (x / cfg.cell_size as int) as usize))
    } else {
        None
    }
}

proof fn lemma_cell_in_grid(cfg: Config, p: int)
    requires
        cfg.wf(),
        0 <= p < cfg.window_size,
    ensures
        0 <= p / (cfg.cell_size as int),
        p / (cfg.cell_size as int) <= p,
        p / (cfg.cell_size as int) < cfg.grid_size,
{
    let c = cfg.cell_size as int;
    let g = cfg.grid_size as int;
    assert(0 <= p / c <= p) by (nonlinear_arith)
        requires
            0 <= p,
            c > 0,
    ;
    assert(p / c < g) by (nonlinear_arith)
        requires
            0 <= p < c * g,
            c > 0,
    ;
}

/// A cell found by `cell_under` lies in the grid.
pub proof fn lemma_cell_under_in_grid(cfg: Config, x: int, y: int)
    requires
        cfg.wf(),
    ensures
        cell_under(cfg, x, y) matches Some((r, c)) ==> r < cfg.grid_size && c < cfg.grid_size,
{
    if 0 <= x < cfg.window_size && 0 <= y < cfg.window_size {
        lemma_cell_in_grid(cfg, x);
        lemma_cell_in_grid(cfg, y);
    }
}

impl Config {
    /// The cells tile the window exactly.
    pub open spec fn wf(&self) -> bool {
        &&& self.grid_size > 0
        &&& self.cell_size > 0
        &&& self.cell_size * self.grid_size == self.window_size
    }

    /// Checks that `grid_size` cells of equal whole width fill a window of
    /// `window_size` pixels.
    pub fn new(window_size: usize, grid_size: usize, tick_ms: u64) -> (r: Result<Config, ConfigError>)
        ensures
            grid_size == 0 ==> r == Err::<Config, ConfigError>(ConfigError::EmptyGrid),
            grid_size > 0 && (window_size == 0 || window_size % grid_size != 0) ==> r == Err::<
                Config,
                ConfigError,
            >(ConfigError::UnevenCells),
            grid_size > 0 && window_size > 0 && window_size % grid_size == 0 ==> r == Ok::<
                Config,
                ConfigError,
            >(
                (Config {
                    window_size,
                    grid_size,
                    cell_size: (window_size / grid_size) as usize,
                    tick_ms,
                }),
            ),
            r matches Ok(c) ==> c.wf(),
    {
        if grid_size == 0 {
            return Err(ConfigError::EmptyGrid);
        }
        if window_size == 0 || window_size % grid_size != 0 {
            return Err(ConfigError::UnevenCells);
        }
        let cell_size = window_size / grid_size;
        proof {
            let w = window_size as int;
            let g = grid_size as int;
            assert(w == g * (w / g) + w % g) by (nonlinear_arith)
                requires
                    g > 0,
            ;
            assert(w / g > 0) by (nonlinear_arith)
                requires
                    w > 0,
                    g > 0,
                    w == g * (w / g),
            ;
            assert((w / g) * g == w) by (nonlinear_arith)
                requires
                    w == g * (w / g),
            ;
        }
        Ok(Config { window_size, grid_size, cell_size, tick_ms })
    }

    /// The settings of the classic board: a 1000-pixel window, 25 cells a
    /// side, one generation a second.
    pub fn classic() -> (c: Config)
        ensures
            c.wf(),
            c.window_size == 1000,
            c.grid_size == 25,
            c.cell_size == 40,
            c.tick_ms == 1000,
    {
        Config { window_size: 1000, grid_size: 25, cell_size: 40, tick_ms: 1000 }
    }

    /// The cell under the pixel `(x, y)`, or `None` outside the window.
    pub fn cell_at(&self, x: i64, y: i64) -> (r: Option<(usize, usize)>)
        requires
            self.wf(),
        ensures
            r == cell_under(*self, x as int, y as int),
            r matches Some((row, col)) ==> row < self.grid_size && col < self.grid_size,
    {
        proof {
            lemma_cell_under_in_grid(*self, x as int, y as int);
        }
        if x < 0 || y < 0 {
            return None;
        }
        if x as u64 >= self.window_size as u64 || y as u64 >= self.window_size as u64 {
            return None;
        }
        let xu = x as u64 as usize;
        let yu = y as u64 as usize;
        Some((yu / self.cell_size, xu / self.cell_size))
    }

    /// The top-left pixel `(x, y)` of the cell at `(row, col)`.
    pub fn cell_origin(&self, row: usize, col: usize) -> (p: (usize, usize))
        requires
            self.wf(),
            row < self.grid_size,
            col < self.grid_size,
        ensures
            p.0 == col * self.cell_size,
            p.1 == row * self.cell_size,
    {
        proof {
            let c = self.cell_size as int;
            let g = self.grid_size as int;
            assert(row * c < c * g && col * c < c * g) by (nonlinear_arith)
                requires
                    row < g,
                    col < g,
                    c > 0,
            ;
        }
        (col * self.cell_size, row * self.cell_size)
    }
}

} // verus!
