use vstd::prelude::*;
use crate::config::{cell_under, lemma_cell_under_in_grid, Config};
use crate::grid::{
    dead_grid, indicator, is_square, lemma_dead_grid_stays_dead, lemma_toggle_twice, next_generation,
    toggled, Grid,
};

verus! {

/// What happened since the last frame: the clock in milliseconds, the
/// pointer's pixel position, and which discrete events fired (each at most
/// once a frame).
#[derive(Debug, Clone, Copy, PartialEq, Eq, Structural)]
pub struct Input {
    pub now_ms: u64,
    pub pointer_x: i64,
    pub pointer_y: i64,
    pub click: bool,
    pub toggle_run: bool,
    pub reset: bool,
}

/// How a cell is drawn.
#[derive(Debug, Clone, Copy, PartialEq, Eq, Structural)]
pub enum Look {
    /// A living cell: filled, fully opaque.
    Filled,
    /// A dead cell under the pointer: outlined, fully opaque.
    Highlighted,
    /// Any other dead cell: outlined, faint.
    Faint,
}

/// `g` after a click on the pixel `(x, y)`: the cell under it flips, and a
/// click outside the window changes nothing.
pub open spec fn clicked(g: Seq<Seq<bool>>, cfg: Config, x: int, y: int) -> Seq<Seq<bool>> {
    match cell_under(cfg, x, y) {
        Some((r, c)) => toggled(g, r as int, c as int),
        None => g,
    }
}

/// The run flag after a frame with `input`.
pub open spec fn run_after(running: bool, input: Input) -> bool {
    running != input.toggle_run
}

/// The grid after the input of a frame and before any generation: first the
/// click, then the reset.
pub open spec fn edited(g: Seq<Seq<bool>>, cfg: Config, input: Input) -> Seq<Seq<bool>> {
    if input.reset {
        dead_grid(g.len())
    } else if input.click {
        clicked(g, cfg, input.pointer_x as int, input.pointer_y as int)
    } else {
        g
    }
}

/// The deadline set after a generation fired at `now`.
pub open spec fn next_deadline(now: u64, tick: u64) -> u64 {
    if now + tick > u64::MAX {
        u64::MAX
    } else {
        (now + tick) as u64
    }
}

/// The look of a cell from its state and whether the pointer is over it.
pub open spec fn look_spec(alive: bool, hovered: bool) -> Look {
    if alive {
        Look::Filled
    } else if hovered {
        Look::Highlighted
    } else {
        Look::Faint
    }
}

/// The run flag after a sequence of frames.
pub open spec fn run_after_frames(running: bool, inputs: Seq<Input>) -> bool
    decreases inputs.len(),
{
    if inputs.len() == 0 {
        running
    } else {
        run_after_frames(run_after(running, inputs[0]), inputs.drop_first())
    }
}

/// How many of the frames fired the run toggle.
pub open spec fn toggle_count(inputs: Seq<Input>) -> nat
    decreases inputs.len(),
{
    if inputs.len() == 0 {
        0
    } else {
        (indicator(inputs[0].toggle_run) + toggle_count(inputs.drop_first())) as nat
    }
}

/// Over any sequence of frames the run flag ends where it started when the
/// toggle fired an even number of times, and flipped when odd.
pub proof fn lemma_toggle_parity(running: bool, inputs: Seq<Input>)
    ensures
        run_after_frames(running, inputs) == if toggle_count(inputs) % 2 == 0 {
            running
        } else {
            !running
        },
    decreases inputs.len(),
{
    if inputs.len() > 0 {
        lemma_toggle_parity(run_after(running, inputs[0]), inputs.drop_first());
    }
}

/// A frame with the reset event leaves an all-dead grid, whatever the grid
/// held and whether a generation fired.
pub proof fn lemma_reset_frame_clears(g: Seq<Seq<bool>>, cfg: Config, input: Input, advanced: bool)
    requires
        input.reset,
    ensures
        (if advanced {
            next_generation(edited(g, cfg, input))
        } else {
            edited(g, cfg, input)
        }) == dead_grid(g.len()),
{
    lemma_dead_grid_stays_dead(g.len());
}

/// Two clicks on the same pixel give the grid back.
pub proof fn lemma_click_twice(g: Seq<Seq<bool>>, cfg: Config, x: int, y: int)
    requires
        cfg.wf(),
        is_square(g),
        g.len() == cfg.grid_size,
    ensures
        clicked(clicked(g, cfg, x, y), cfg, x, y) == g,
{
    lemma_cell_under_in_grid(cfg, x, y);
    if let Some((r, c)) = cell_under(cfg, x, y) {
        lemma_toggle_twice(g, r as int, c as int);
    }
}

/// Picks how a cell is drawn.
pub fn look_of(alive: bool, hovered: bool) -> (l: Look)
    ensures
        l == look_spec(alive, hovered),
{
    if alive {
        Look::Filled
    } else if hovered {
        Look::Highlighted
    } else {
        Look::Faint
    }
}

/// The state of a run: the grid, the run flag and the time at which the next
/// generation is due.
pub struct Game {
    pub config: Config,
    pub grid: Grid,
    pub running: bool,
    pub deadline_ms: u64,
}

impl Game {
    /// The grid has the configured side.
    pub open spec fn wf(&self) -> bool {
        &&& self.config.wf()
        &&& self.grid.wf()
        &&& self.grid@.len() == self.config.grid_size
    }

    /// A paused run on an all-dead grid, with the first generation due at
    /// `now_ms`.
    pub fn new(config: Config, now_ms: u64) -> (g: Game)
        requires
            config.wf(),
        ensures
            g.wf(),
            g.config == config,
            g.grid@ == dead_grid(config.grid_size as nat),
            !g.running,
            g.deadline_ms == now_ms,
    {
        Game { config, grid: Grid::new(config.grid_size), running: false, deadline_ms: now_ms }
    }

    /// Flips the cell under the pixel `(x, y)`; outside the window nothing
    /// changes.
    pub fn click(&mut self, x: i64, y: i64)
        requires
            old(self).wf(),
        ensures
            final(self).wf(),
            final(self).config == old(self).config,
            final(self).running == old(self).running,
            final(self).deadline_ms == old(self).deadline_ms,
            final(self).grid@ == clicked(old(self).grid@, old(self).config, x as int, y as int),
    {
        if let Some((row, col)) = self.config.cell_at(x, y) {
            self.grid.toggle(row, col);
        }
    }

    /// Flips the run flag.
    pub fn toggle_run(&mut self)
        requires
            old(self).wf(),
        ensures
            final(self).wf(),
            final(self).config == old(self).config,
            final(self).grid@ == old(self).grid@,
            final(self).running == !old(self).running,
            final(self).deadline_ms == old(self).deadline_ms,
    {
        self.running = !self.running;
    }

    /// Kills every cell; the run flag and the deadline stay.
    pub fn reset(&mut self)
        requires
            old(self).wf(),
        ensures
            final(self).wf(),
            final(self).config == old(self).config,
            final(self).grid@ == dead_grid(old(self).config.grid_size as nat),
            final(self).running == old(self).running,
            final(self).deadline_ms == old(self).deadline_ms,
    {
        self.grid.clear();
    }

    /// Handles one frame: whether a generation is due is read from the clock
    /// first, then the click, the run toggle and the reset apply in that
    /// order, and last, if running and due, one generation is computed and
    /// the next deadline set. Returns whether a generation was computed.
    pub fn frame(&mut self, input: &Input) -> (advanced: bool)
        requires
            old(self).wf(),
        ensures
            final(self).wf(),
            final(self).config == old(self).config,
            final(self).running == run_after(old(self).running, *input),
            advanced == (final(self).running && old(self).deadline_ms <= input.now_ms),
            final(self).grid@ == (if advanced {
                next_generation(edited(old(self).grid@, old(self).config, *input))
            } else {
                edited(old(self).grid@, old(self).config, *input)
            }),
            final(self).deadline_ms == (if advanced {
                next_deadline(input.now_ms, old(self).config.tick_ms)
            } else {
                old(self).deadline_ms
            }),
    {
        let due = self.deadline_ms <= input.now_ms;
        if input.click {
            self.click(input.pointer_x, input.pointer_y);
        }
        if input.toggle_run {
            self.toggle_run();
        }
        if input.reset {
            self.reset();
        }
        if self.running && due {
            self.grid.simulate();
            self.deadline_ms = input.now_ms.saturating_add(self.config.tick_ms);
            true
        } else {
            false
        }
    }

    /// The cell under the pixel `(x, y)`, for drawing the pointer's cell.
    pub fn hover_cell(&self, x: i64, y: i64) -> (r: Option<(usize, usize)>)
        requires
            self.wf(),
        ensures
            r == cell_under(self.config, x as int, y as int),
    {
        self.config.cell_at(x, y)
    }
}

} // verus!
