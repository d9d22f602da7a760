//! The session controller: direction intents, pause, game over, and the
//! per-tick transition that drives the grid.

use vstd::prelude::*;

use crate::geom::{step_loc, Block, Direction, Location};
use crate::grid::Grid;
use crate::{COLS, ROWS};

verus! {

/// The session state around one [`Grid`]: whether the simulation runs,
/// whether the game has ended, the committed movement direction, and the
/// latest buffered direction intent.
pub struct App {
    pub grid: Grid,
    pub started: bool,
    pub game_over: bool,
    pub direction: Direction,
    pub want_direction: Option<Direction>,
}

/// The direction a step commits to: a pending intent wins unless it is the
/// exact opposite of the current direction, in which case it is discarded.
pub open spec fn resolved_dir(cur: Direction, want: Option<Direction>) -> Direction {
    match want {
        Some(d) => if d.opposite_spec() != cur {
            d
        } else {
            cur
        },
        None => cur,
    }
}

/// A buffered intent that exactly reverses the current direction is
/// rejected: the step it feeds keeps the current direction.
pub proof fn lemma_reversal_rejected(cur: Direction)
    ensures
        resolved_dir(cur, Some(cur.opposite_spec())) == cur,
{
}

impl App {
    /// The controller invariant: the grid it drives is well formed. The one
    /// exception is the session that ended because the body filled the whole
    /// field — there no cell is left for food, so the grid stays in its
    /// mid-growth shape and the game is over.
    pub open spec fn wf(self) -> bool {
        self.grid.wf() || (self.game_over && self.grid.wf_growing())
    }

    /// A simulation step may run: the session is started and not over.
    pub open spec fn sim_active(self) -> bool {
        self.started && !self.game_over
    }

    /// Where the head moves on the next step: the toroidal neighbor of the
    /// head in the direction the pending intent resolves to.
    pub open spec fn near_head_loc(self) -> Location {
        step_loc(
            self.grid.head_loc(),
            resolved_dir(self.direction, self.want_direction),
            self.grid.rows as int,
            self.grid.cols as int,
        )
    }

    /// How one simulation step relates the state before it (`pre`) to the
    /// state after it (`post`): the pending intent is resolved, then the
    /// head's toroidal neighbor decides between growth, self-collision and
    /// a plain slide.
    pub open spec fn step_rel(pre: App, post: App) -> bool {
        let d = resolved_dir(pre.direction, pre.want_direction);
        let near = pre.near_head_loc();
        &&& post.started == pre.started
        &&& post.direction == d
        &&& post.want_direction is None
        &&& post.grid.rows == pre.grid.rows
        &&& post.grid.cols == pre.grid.cols
        &&& if near == pre.grid.new_block.loc {
            // growth: the food becomes the new head
            &&& post.grid.snake@ == pre.grid.snake@.push(Block { loc: near })
            &&& if pre.grid.has_free_cell() {
                // fresh food appears on a cell that was free before the step
                &&& post.game_over == pre.game_over
                &&& !pre.grid.occupied(post.grid.new_block.loc)
            } else {
                // the body now fills the whole field: no cell is left for
                // food, and the session ends
                &&& post.game_over
                &&& post.grid.cells@ == pre.grid.cells@
                &&& post.grid.new_block == pre.grid.new_block
            }
        } else if pre.grid.occupied(near) {
            // self-collision: the game ends and the grid stays as it was
            &&& post.game_over
            &&& post.grid.snake@ == pre.grid.snake@
            &&& post.grid.cells@ == pre.grid.cells@
            &&& post.grid.new_block == pre.grid.new_block
        } else {
            // slide: the body shifts one cell and the vacated tail cell
            // becomes free
            &&& post.game_over == pre.game_over
            &&& post.grid.snake@ == pre.grid.snake@.subrange(
                1,
                pre.grid.snake@.len() as int,
            ).push(Block { loc: near })
            &&& post.grid.new_block == pre.grid.new_block
            &&& !post.grid.occupied(pre.grid.snake@[0].loc)
        }
    }

    /// A fresh session on a standard field: running, not over, heading up,
    /// no pending intent.
    pub fn new() -> (a: App)
        ensures
            a.grid.wf(),
            a.started,
            !a.game_over,
            a.direction == Direction::Up,
            a.want_direction is None,
            a.grid.rows == ROWS,
            a.grid.cols == COLS,
            a.grid.snake@.len() == 1,
            a.grid.snake@[0].loc == (Location { x: COLS / 2, y: ROWS / 2 }),
    {
        App {
            grid: Grid::new(),
            started: true,
            game_over: false,
            direction: Direction::Up,
            want_direction: None,
        }
    }

    /// Discards the session and starts a fresh one: new grid, running, not
    /// over, heading up, no pending intent.
    pub fn reset(&mut self)
        ensures
            final(self).grid.wf(),
            final(self).started,
            !final(self).game_over,
            final(self).direction == Direction::Up,
            final(self).want_direction is None,
            final(self).grid.rows == ROWS,
            final(self).grid.cols == COLS,
            final(self).grid.snake@.len() == 1,
            final(self).grid.snake@[0].loc == (Location { x: COLS / 2, y: ROWS / 2 }),
    {
        self.grid = Grid::new();
        self.started = true;
        self.game_over = false;
        self.direction = Direction::Up;
        self.want_direction = None;
    }

    /// Buffers the latest direction intent; the next step resolves it.
    pub fn request_direction(&mut self, d: Direction)
        ensures
            final(self).want_direction == Some(d),
            final(self).grid == old(self).grid,
            final(self).started == old(self).started,
            final(self).game_over == old(self).game_over,
            final(self).direction == old(self).direction,
    {
        self.want_direction = Some(d);
    }

    /// Flips the pause flag and touches nothing else.
    pub fn toggle_pause(&mut self)
        ensures
            final(self).started == !old(self).started,
            final(self).grid == old(self).grid,
            final(self).game_over == old(self).game_over,
            final(self).direction == old(self).direction,
            final(self).want_direction == old(self).want_direction,
    {
        self.started = !self.started;
    }

    /// Resolves the pending intent: commits it unless it is the exact
    /// opposite of the current direction; clears it either way.
    pub fn update_direction(&mut self)
        ensures
            final(self).direction == resolved_dir(old(self).direction, old(self).want_direction),
            final(self).want_direction is None,
            final(self).grid == old(self).grid,
            final(self).started == old(self).started,
            final(self).game_over == old(self).game_over,
    {
        if let Some(dir) = self.want_direction {
            if self.direction != dir.opposite() {
                self.direction = dir;
            }
            self.want_direction = None;
        }
    }

    /// One simulation step: resolve the intent, then grow onto the food,
    /// end the game on a self-collision, or slide. A growth step that
    /// leaves no cell for fresh food — the body fills the whole field —
    /// ends the game instead of respawning.
    pub fn update_logic(&mut self)
        requires
            old(self).grid.wf(),
        ensures
            final(self).wf(),
            old(self).grid.has_free_cell() ==> final(self).grid.wf(),
            App::step_rel(*old(self), *final(self)),
    {
        self.update_direction();
        proof {
            assert(self.grid.in_bounds(self.grid.snake@[self.grid.snake@.len() - 1].loc));
        }
        let head = self.grid.head();
        let near_head = head.in_direction(&self.grid, self.direction);
        if near_head == self.grid.new_block {
            let free = self.grid.find_free_cell();
            let block = self.grid.new_block;
            self.grid.add_to_snake(block);
            if free.is_some() {
                self.grid.add_block();
            } else {
                self.game_over = true;
            }
        } else if self.grid.contains(&near_head) {
            self.game_over = true;
        } else {
            self.grid.move_snake(self.direction);
        }
    }

    /// One gated tick: a simulation step runs only while the session is
    /// started and the game is not over; otherwise the state is untouched.
    pub fn step(&mut self)
        requires
            old(self).wf(),
        ensures
            final(self).wf(),
            old(self).sim_active() ==> App::step_rel(*old(self), *final(self)),
            old(self).sim_active() && old(self).grid.has_free_cell() ==> final(self).grid.wf(),
            !old(self).sim_active() ==> *final(self) == *old(self),
    {
        if !self.game_over && self.started {
            self.update_logic();
        }
    }
}

/// A growth step lengthens the body by exactly one, the old food location
/// becomes the new head, and the fresh food is on an occupied cell distinct
/// from every body cell.
pub proof fn lemma_growth_step(pre: App, post: App)
    requires
        pre.grid.wf(),
        post.grid.wf(),
        App::step_rel(pre, post),
        pre.near_head_loc() == pre.grid.new_block.loc,
        pre.grid.has_free_cell(),
    ensures
        post.grid.snake@.len() == pre.grid.snake@.len() + 1,
        post.grid.head_loc() == pre.grid.new_block.loc,
        post.grid.occupied(post.grid.new_block.loc),
        !post.grid.snake_at(post.grid.new_block.loc),
{
    assert(post.grid.cell(post.grid.new_block.loc) == post.grid.expected_cell(
        post.grid.new_block.loc,
        true,
    ));
}

/// A slide step keeps the body length, moves the head to the resolved
/// toroidal neighbor, and frees the cell the tail vacated.
pub proof fn lemma_slide_step(pre: App, post: App)
    requires
        pre.grid.wf(),
        App::step_rel(pre, post),
        pre.near_head_loc() != pre.grid.new_block.loc,
        !pre.grid.occupied(pre.near_head_loc()),
    ensures
        post.grid.snake@.len() == pre.grid.snake@.len(),
        post.grid.head_loc() == pre.near_head_loc(),
        !post.grid.occupied(pre.grid.snake@[0].loc),
        post.game_over == pre.game_over,
{
}

/// A step whose destination is on the snake body ends the game and leaves
/// the grid — body, occupancy and food alike — untouched.
pub proof fn lemma_collision_step(pre: App, post: App)
    requires
        pre.grid.wf(),
        App::step_rel(pre, post),
        pre.near_head_loc() != pre.grid.new_block.loc,
        pre.grid.snake_at(pre.near_head_loc()),
    ensures
        post.game_over,
        post.grid.snake@ == pre.grid.snake@,
        post.grid.cells@ == pre.grid.cells@,
        post.grid.new_block == pre.grid.new_block,
{
    let near = pre.near_head_loc();
    let i = choose|i: int| 0 <= i < pre.grid.snake@.len() && (#[trigger] pre.grid.snake@[i]).loc == near;
    assert(pre.grid.in_bounds(near));
    assert(pre.grid.cell(near) == pre.grid.expected_cell(near, true));
    assert(pre.grid.occupied(near));
}

/// Once the game is over, the session is inert whether paused or not: a
/// pause toggle — which flips `started` and leaves `game_over` alone — can
/// never re-enable simulation steps.
pub proof fn lemma_pause_inert_when_game_over(a: App, b: App)
    requires
        a.game_over,
        b.game_over == a.game_over,
        b.started == !a.started,
    ensures
        !a.sim_active(),
        !b.sim_active(),
{
}

} // verus!
