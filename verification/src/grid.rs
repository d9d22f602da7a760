//! The playing field: occupancy map, snake body, and the current food block.

use vstd::prelude::*;

use crate::geom::{step_loc, Block, Direction, Location};
use crate::rng::random_below;
use crate::{COLS, ROWS};

verus! {

/// Some of the first `k` blocks of `s` covers `l`.
pub open spec fn seq_prefix_at(s: Seq<Block>, k: int, l: Location) -> bool {
    exists|j: int| 0 <= j < k && (#[trigger] s[j]).loc == l
}

/// The playing field. `cells` is the occupancy map, a flat row-major array
/// of `rows * cols` optional blocks; `snake` is the body, tail first, head
/// last; `new_block` is the current food block.
///
/// The occupancy map and the body are two views of one state, tied together
/// by [`Grid::wf`]: an in-bounds cell holds a block exactly when the snake or
/// the food covers it.
pub struct Grid {
    pub rows: usize,
    pub cols: usize,
    pub cells: Vec<Option<Block>>,
    pub snake: Vec<Block>,
    pub new_block: Block,
}

impl Grid {
    /// `l` lies on the field.
    pub open spec fn in_bounds(self, l: Location) -> bool {
        l.x < self.cols && l.y < self.rows
    }

    /// Row-major index of `l` into the occupancy map.
    pub open spec fn sidx(self, l: Location) -> int {
        l.y * self.cols + l.x
    }

    /// Content of the occupancy map at `l`.
    pub open spec fn cell(self, l: Location) -> Option<Block>
        recommends
            self.dims_ok(),
            self.in_bounds(l),
    {
        self.cells@[self.sidx(l)]
    }

    /// `l` lies on the field and its cell is occupied.
    pub open spec fn occupied(self, l: Location) -> bool {
        self.in_bounds(l) && self.cell(l) is Some
    }

    /// Some body segment covers `l`.
    pub open spec fn snake_at(self, l: Location) -> bool {
        exists|i: int| 0 <= i < self.snake@.len() && (#[trigger] self.snake@[i]).loc == l
    }

    /// The dimensions are positive and the occupancy map covers the field.
    pub open spec fn dims_ok(self) -> bool {
        &&& 1 <= self.rows
        &&& 1 <= self.cols
        &&& self.cells@.len() == self.rows * self.cols
    }

    /// The body is non-empty, on the field, and self-overlap free.
    pub open spec fn snake_ok(self) -> bool {
        &&& self.snake@.len() >= 1
        &&& forall|i: int| 0 <= i < self.snake@.len() ==> self.in_bounds((#[trigger] self.snake@[i]).loc)
        &&& forall|i: int, j: int|
            0 <= i < j < self.snake@.len() ==> (#[trigger] self.snake@[i]).loc != (#[trigger] self.snake@[j]).loc
    }

    /// What the occupancy map must hold at `l`: the block covering `l` when
    /// the snake — or, if `with_food` is set, the food — covers it, nothing
    /// otherwise.
    pub open spec fn expected_cell(self, l: Location, with_food: bool) -> Option<Block> {
        if self.snake_at(l) || (with_food && self.new_block.loc == l) {
            Some(Block { loc: l })
        } else {
            None
        }
    }

    /// The occupancy map mirrors the body (and the food, if `with_food`).
    pub open spec fn occ_ok(self, with_food: bool) -> bool {
        forall|l: Location| self.in_bounds(l) ==> #[trigger] self.cell(l) == self.expected_cell(l, with_food)
    }

    /// Well-formed mid-growth state: the body has just absorbed the food and
    /// `new_block` is stale, so the occupancy map mirrors the body alone.
    pub open spec fn wf_growing(self) -> bool {
        &&& self.dims_ok()
        &&& self.snake_ok()
        &&& self.occ_ok(false)
    }

    /// The steady-state invariant: dimensions and body are well formed, the
    /// food is on the field and off the body, and the occupancy map mirrors
    /// body plus food.
    pub open spec fn wf(self) -> bool {
        &&& self.dims_ok()
        &&& self.snake_ok()
        &&& self.in_bounds(self.new_block.loc)
        &&& !self.snake_at(self.new_block.loc)
        &&& self.occ_ok(true)
    }

    /// Location of the head, the last body segment.
    pub open spec fn head_loc(self) -> Location {
        self.snake@.last().loc
    }

    /// A free cell remains on the field.
    pub open spec fn has_free_cell(self) -> bool {
        exists|l: Location| self.in_bounds(l) && !self.occupied(l)
    }

    /// Row-major indices of in-bounds locations stay inside the occupancy map.
    pub proof fn lemma_sidx_in_range(self, l: Location)
        requires
            self.dims_ok(),
            self.in_bounds(l),
        ensures
            0 <= self.sidx(l) < self.cells@.len(),
    {
        assert(l.y * self.cols + l.x < self.rows * self.cols) by (nonlinear_arith)
            requires
                l.x < self.cols,
                l.y < self.rows,
                1 <= self.cols,
                1 <= self.rows,
        ;
    }

    /// Distinct in-bounds locations get distinct row-major indices.
    pub proof fn lemma_sidx_injective(self, a: Location, b: Location)
        requires
            self.dims_ok(),
            self.in_bounds(a),
            self.in_bounds(b),
            self.sidx(a) == self.sidx(b),
        ensures
            a == b,
    {
        assert(a.x == b.x && a.y == b.y) by (nonlinear_arith)
            requires
                a.x < self.cols,
                b.x < self.cols,
                a.y < self.rows,
                b.y < self.rows,
                a.y * self.cols + a.x == b.y * self.cols + b.x,
        ;
    }

    pub fn valid_x(&self, x: usize) -> (r: bool)
        ensures
            r == (x < self.cols),
    {
        x < self.cols
    }

    pub fn valid_y(&self, y: usize) -> (r: bool)
        ensures
            r == (y < self.rows),
    {
        y < self.rows
    }

    pub fn valid(&self, x: usize, y: usize) -> (r: bool)
        ensures
            r == self.in_bounds(Location { x, y }),
    {
        self.valid_x(x) && self.valid_y(y)
    }

    /// Whether the cell under `block` is occupied; false off the field.
    pub fn contains(&self, block: &Block) -> (r: bool)
        requires
            self.dims_ok(),
        ensures
            r == self.occupied(block.loc),
    {
        if self.valid(block.loc.x, block.loc.y) {
            proof {
                self.lemma_sidx_in_range(block.loc);
            }
            let _n: usize = self.cells.len();
            let i: usize = block.loc.y * self.cols + block.loc.x;
            self.cells[i].is_some()
        } else {
            false
        }
    }

    /// Marks `block`'s cell occupied by `block`; a no-op off the field.
    pub fn insert(&mut self, block: Block)
        requires
            old(self).dims_ok(),
        ensures
            final(self).rows == old(self).rows,
            final(self).cols == old(self).cols,
            final(self).snake@ == old(self).snake@,
            final(self).new_block == old(self).new_block,
            old(self).in_bounds(block.loc) ==> final(self).cells@ == old(self).cells@.update(
                old(self).sidx(block.loc),
                Some(block),
            ),
            !old(self).in_bounds(block.loc) ==> final(self).cells@ == old(self).cells@,
    {
        let x: usize = block.loc.x;
        let y: usize = block.loc.y;
        if !self.valid(x, y) {
            return;
        }
        proof {
            self.lemma_sidx_in_range(block.loc);
        }
        let _n: usize = self.cells.len();
        let i: usize = y * self.cols + x;
        let held: Option<Block> = self.cells[i];
        if held.is_none() || held.unwrap() != block {
            self.cells[i] = Some(block);
        } else {
            proof {
                assert(self.cells@ =~= old(self).cells@.update(old(self).sidx(block.loc), Some(block)));
            }
        }
    }

    /// The head: the last element of the body sequence.
    pub fn head(&self) -> (b: Block)
        requires
            self.snake@.len() >= 1,
        ensures
            b == self.snake@.last(),
            b.loc == self.head_loc(),
    {
        let n: usize = self.snake.len();
        self.snake[n - 1]
    }

    /// Appends a new head segment without removing the tail: the growth
    /// path, taken when the head is about to reach the food. The food block
    /// becomes the head, so the occupancy map is untouched; the caller must
    /// respawn food with `add_block` right after.
    pub fn add_to_snake(&mut self, block: Block)
        requires
            old(self).wf(),
            block == old(self).new_block,
        ensures
            final(self).wf_growing(),
            final(self).snake@ == old(self).snake@.push(block),
            final(self).cells@ == old(self).cells@,
            final(self).rows == old(self).rows,
            final(self).cols == old(self).cols,
            final(self).new_block == old(self).new_block,
            final(self).has_free_cell() == old(self).has_free_cell(),
    {
        self.snake.push(block);
        proof {
            let pre = *old(self);
            let post = *self;
            let n = pre.snake@.len() as int;
            assert forall|l: Location| post.snake_at(l) == (pre.snake_at(l) || pre.new_block.loc == l) by {
                if pre.snake_at(l) {
                    let i = choose|i: int| 0 <= i < pre.snake@.len() && pre.snake@[i].loc == l;
                    assert(post.snake@[i].loc == l);
                }
                if pre.new_block.loc == l {
                    assert(post.snake@[n].loc == l);
                }
                if post.snake_at(l) {
                    let i = choose|i: int| 0 <= i < post.snake@.len() && post.snake@[i].loc == l;
                    if i < n {
                        assert(pre.snake@[i].loc == l);
                    }
                }
            }
            assert forall|l: Location| post.in_bounds(l) implies #[trigger] post.cell(l)
                == post.expected_cell(l, false) by {
                assert(pre.cell(l) == pre.expected_cell(l, true));
            }
            assert forall|i: int, j: int| 0 <= i < j < post.snake@.len() implies (#[trigger] post.snake@[i]).loc
                != (#[trigger] post.snake@[j]).loc by {
                if j == n {
                    assert(post.snake@[i] == pre.snake@[i]);
                    assert(!pre.snake_at(pre.new_block.loc));
                    assert(pre.snake@[i].loc != pre.new_block.loc);
                }
            }
            assert(forall|l: Location| post.occupied(l) == pre.occupied(l));
            if pre.has_free_cell() {
                let l = choose|l: Location| pre.in_bounds(l) && !pre.occupied(l);
                assert(post.in_bounds(l) && !post.occupied(l));
            }
            if post.has_free_cell() {
                let l = choose|l: Location| post.in_bounds(l) && !post.occupied(l);
                assert(pre.in_bounds(l) && !pre.occupied(l));
            }
        }
    }

    /// Advances the body one cell in `direction`: the destination cell is
    /// marked, every segment takes its head-ward neighbor's place, and the
    /// vacated tail cell is cleared. The destination must be unoccupied;
    /// the controller checks that before calling.
    pub fn move_snake(&mut self, direction: Direction)
        requires
            old(self).wf(),
            !old(self).occupied(
                step_loc(old(self).head_loc(), direction, old(self).rows as int, old(self).cols as int),
            ),
        ensures
            final(self).wf(),
            final(self).rows == old(self).rows,
            final(self).cols == old(self).cols,
            final(self).new_block == old(self).new_block,
            final(self).snake@ == old(self).snake@.subrange(1, old(self).snake@.len() as int).push(
                Block {
                    loc: step_loc(
                        old(self).head_loc(),
                        direction,
                        old(self).rows as int,
                        old(self).cols as int,
                    ),
                },
            ),
            !final(self).occupied(old(self).snake@[0].loc),
    {
        proof {
            assert(self.in_bounds(self.snake@[self.snake@.len() - 1].loc));
        }
        let head = self.head();
        let dest = head.in_direction(self, direction);
        proof {
            self.lemma_sidx_in_range(dest.loc);
        }
        let _cn: usize = self.cells.len();
        let di: usize = dest.loc.y * self.cols + dest.loc.x;
        self.cells[di] = Some(dest);
        let ghost pre_snake = old(self).snake@;
        let n: usize = self.snake.len();
        let mut blocks: Vec<Block> = Vec::new();
        let mut idx: usize = 1;
        while idx < n
            invariant
                1 <= idx <= n,
                n == pre_snake.len(),
                self.snake@ == pre_snake,
                blocks@ == pre_snake.subrange(1, idx as int),
            decreases n - idx,
        {
            blocks.push(self.snake[idx]);
            proof {
                assert(blocks@ =~= pre_snake.subrange(1, idx + 1));
            }
            idx = idx + 1;
        }
        blocks.push(dest);
        let tail: Block = self.snake[0];
        self.snake = blocks;
        proof {
            assert(self.in_bounds(tail.loc));
            self.lemma_sidx_in_range(tail.loc);
        }
        let ti: usize = tail.loc.y * self.cols + tail.loc.x;
        self.cells[ti] = None;
        proof {
            let pre = *old(self);
            let post = *self;
            let dl = dest.loc;
            let tl = tail.loc;
            assert(post.snake@ =~= pre.snake@.subrange(1, pre.snake@.len() as int).push(dest));
            let n = pre.snake@.len() as int;
            // the destination was free, so it is off the old body and is not the food
            assert(pre.cell(dl) == pre.expected_cell(dl, true));
            assert(!pre.snake_at(dl));
            assert(pre.new_block.loc != dl);
            // the vacated tail cell is distinct from the destination
            assert(pre.snake_at(tl)) by {
                assert(pre.snake@[0].loc == tl);
            }
            assert(dl != tl);
            if pre.sidx(dl) == pre.sidx(tl) {
                pre.lemma_sidx_injective(dl, tl);
            }
            // how membership in the new body relates to the old one
            assert forall|l: Location| post.snake_at(l) == ((pre.snake_at(l) && l != tl) || l == dl) by {
                if pre.snake_at(l) && l != tl {
                    let i = choose|i: int| 0 <= i < pre.snake@.len() && pre.snake@[i].loc == l;
                    if i == 0 {
                        assert(l == tl);
                    } else {
                        assert(post.snake@[i - 1].loc == l);
                    }
                }
                if l == dl {
                    assert(post.snake@[n - 1].loc == l);
                }
                if post.snake_at(l) {
                    let i = choose|i: int| 0 <= i < post.snake@.len() && post.snake@[i].loc == l;
                    if i < n - 1 {
                        assert(pre.snake@[i + 1].loc == l);
                        assert(pre.snake_at(l));
                        if l == tl {
                            assert(pre.snake@[0].loc != pre.snake@[i + 1].loc);
                        }
                    } else {
                        assert(l == dl);
                    }
                }
            }
            // the occupancy map mirrors the new body plus the unchanged food
            assert forall|l: Location| post.in_bounds(l) implies #[trigger] post.cell(l)
                == post.expected_cell(l, true) by {
                pre.lemma_sidx_in_range(l);
                assert(pre.cell(l) == pre.expected_cell(l, true));
                if l != dl && pre.sidx(l) == pre.sidx(dl) {
                    pre.lemma_sidx_injective(l, dl);
                }
                if l != tl && pre.sidx(l) == pre.sidx(tl) {
                    pre.lemma_sidx_injective(l, tl);
                }
            }
            // the new body stays self-overlap free
            assert forall|i: int, j: int| 0 <= i < j < post.snake@.len() implies (#[trigger] post.snake@[i]).loc
                != (#[trigger] post.snake@[j]).loc by {
                if j < n - 1 {
                    assert(pre.snake@[i + 1].loc != pre.snake@[j + 1].loc);
                } else {
                    assert(post.snake@[j] == dest);
                    assert(pre.snake@[i + 1].loc == post.snake@[i].loc);
                    assert(!pre.snake_at(dl));
                    assert(pre.snake@[i + 1].loc != dl);
                }
            }
            // the unchanged food stays off the new body
            assert(!post.snake_at(post.new_block.loc));
        }
    }

    /// A fresh occupancy map with every cell empty.
    fn empty_cells(rows: usize, cols: usize) -> (v: Vec<Option<Block>>)
        requires
            1 <= rows,
            1 <= cols,
            rows * cols <= usize::MAX,
        ensures
            v@.len() == rows * cols,
            forall|i: int| 0 <= i < v@.len() ==> v@[i] is None,
    {
        let total: usize = rows * cols;
        let mut v: Vec<Option<Block>> = Vec::new();
        let mut i: usize = 0;
        while i < total
            invariant
                i <= total,
                v@.len() == i,
                forall|j: int| 0 <= j < i ==> v@[j] is None,
            decreases total - i,
        {
            v.push(None);
            i = i + 1;
        }
        v
    }

    /// Makes `block` the food: marks its free cell and records it as
    /// `new_block`, restoring the steady-state invariant.
    fn place_food(&mut self, block: Block)
        requires
            old(self).wf_growing(),
            old(self).in_bounds(block.loc),
            !old(self).occupied(block.loc),
        ensures
            final(self).wf(),
            final(self).rows == old(self).rows,
            final(self).cols == old(self).cols,
            final(self).snake@ == old(self).snake@,
            final(self).new_block == block,
    {
        self.insert(block);
        self.new_block = block;
        proof {
            let pre = *old(self);
            let post = *self;
            assert(pre.cell(block.loc) == pre.expected_cell(block.loc, false));
            assert(!pre.snake_at(block.loc));
            assert(post.snake@ == pre.snake@);
            pre.lemma_sidx_in_range(block.loc);
            assert(post.cells@ == pre.cells@.update(pre.sidx(block.loc), Some(block)));
            assert forall|l: Location| post.in_bounds(l) implies #[trigger] post.cell(l)
                == post.expected_cell(l, true) by {
                pre.lemma_sidx_in_range(l);
                assert(pre.cell(l) == pre.expected_cell(l, false));
                assert(post.sidx(l) == pre.sidx(l));
                assert(post.snake_at(l) == pre.snake_at(l));
                if l == block.loc {
                    assert(post.cell(l) == Some(block));
                    assert(block == (Block { loc: l }));
                    assert(post.expected_cell(l, true) == Some(Block { loc: l }));
                } else {
                    if pre.sidx(l) == pre.sidx(block.loc) {
                        pre.lemma_sidx_injective(l, block.loc);
                    }
                    assert(post.cell(l) == pre.cell(l));
                    assert(post.expected_cell(l, true) == pre.expected_cell(l, false));
                }
            }
        }
    }

    /// Places the food on a machine-chosen free cell: a bounded round of
    /// rejection sampling, then — should chance exhaust it — a deterministic
    /// scan for the first free cell, which the precondition guarantees to
    /// exist.
    pub fn add_block(&mut self)
        requires
            old(self).wf_growing(),
            old(self).has_free_cell(),
        ensures
            final(self).wf(),
            final(self).rows == old(self).rows,
            final(self).cols == old(self).cols,
            final(self).snake@ == old(self).snake@,
            !old(self).occupied(final(self).new_block.loc),
    {
        let mut tries: usize = 0;
        while tries < 64
            invariant
                self.rows == old(self).rows,
                self.cols == old(self).cols,
                self.snake@ == old(self).snake@,
                self.cells@ == old(self).cells@,
                self.new_block == old(self).new_block,
                self.wf_growing(),
                self.has_free_cell(),
            decreases 64 - tries,
        {
            let x: usize = random_below(self.cols);
            let y: usize = random_below(self.rows);
            let block = Block { loc: Location { x, y } };
            if !self.contains(&block) {
                self.place_food(block);
                return;
            }
            tries = tries + 1;
        }
        let mut y: usize = 0;
        while y < self.rows
            invariant
                self.rows == old(self).rows,
                self.cols == old(self).cols,
                self.snake@ == old(self).snake@,
                self.cells@ == old(self).cells@,
                self.new_block == old(self).new_block,
                self.wf_growing(),
                self.has_free_cell(),
                y <= self.rows,
                forall|l: Location| self.in_bounds(l) && l.y < y ==> self.occupied(l),
            decreases self.rows - y,
        {
            let mut x: usize = 0;
            while x < self.cols
                invariant
                    self.rows == old(self).rows,
                    self.cols == old(self).cols,
                    self.snake@ == old(self).snake@,
                    self.cells@ == old(self).cells@,
                    self.new_block == old(self).new_block,
                    self.wf_growing(),
                    self.has_free_cell(),
                    y < self.rows,
                    x <= self.cols,
                    forall|l: Location| self.in_bounds(l) && l.y < y ==> self.occupied(l),
                    forall|l: Location| self.in_bounds(l) && l.y == y && l.x < x ==> self.occupied(l),
                decreases self.cols - x,
            {
                let block = Block { loc: Location { x, y } };
                if !self.contains(&block) {
                    self.place_food(block);
                    return;
                }
                x = x + 1;
                proof {
                    assert forall|l: Location| self.in_bounds(l) && l.y == y && l.x < x implies self.occupied(
                        l,
                    ) by {
                        if l.x + 1 == x {
                            assert(l == block.loc);
                        }
                    }
                }
            }
            y = y + 1;
        }
        proof {
            let l = choose|l: Location| self.in_bounds(l) && !self.occupied(l);
            assert(self.occupied(l));
            assert(false);
        }
    }

    /// The first free cell in row-major order, or `None` exactly when every
    /// cell on the field is occupied.
    #[verifier::loop_isolation(false)]
    pub fn find_free_cell(&self) -> (r: Option<Location>)
        requires
            self.dims_ok(),
        ensures
            (r is Some) == self.has_free_cell(),
            r matches Some(l) ==> self.in_bounds(l) && !self.occupied(l),
    {
        let mut y: usize = 0;
        while y < self.rows
            invariant
                y <= self.rows,
                forall|l: Location| self.in_bounds(l) && l.y < y ==> self.occupied(l),
            decreases self.rows - y,
        {
            let mut x: usize = 0;
            while x < self.cols
                invariant
                    y < self.rows,
                    x <= self.cols,
                    forall|l: Location| self.in_bounds(l) && l.y < y ==> self.occupied(l),
                    forall|l: Location| self.in_bounds(l) && l.y == y && l.x < x ==> self.occupied(l),
                decreases self.cols - x,
            {
                let candidate = Location { x, y };
                if !self.contains(&Block { loc: candidate }) {
                    return Some(candidate);
                }
                x = x + 1;
                proof {
                    assert forall|l: Location| self.in_bounds(l) && l.y == y && l.x < x implies self.occupied(
                        l,
                    ) by {
                        if l.x + 1 == x {
                            assert(l == candidate);
                        }
                    }
                }
            }
            y = y + 1;
        }
        proof {
            if self.has_free_cell() {
                let l = choose|l: Location| self.in_bounds(l) && !self.occupied(l);
                assert(self.occupied(l));
            }
        }
        None
    }

    /// A field assembled from given parts: dimensions, body and food block.
    /// For callers that replay a known position.
    #[verifier::loop_isolation(false)]
    pub fn from_parts(rows: usize, cols: usize, snake: Vec<Block>, food: Block) -> (g: Grid)
        requires
            1 <= rows,
            1 <= cols,
            rows * cols <= usize::MAX,
            snake@.len() >= 1,
            forall|i: int| 0 <= i < snake@.len() ==> (#[trigger] snake@[i]).loc.x < cols && snake@[i].loc.y < rows,
            forall|i: int, j: int|
                0 <= i < j < snake@.len() ==> (#[trigger] snake@[i]).loc != (#[trigger] snake@[j]).loc,
            food.loc.x < cols,
            food.loc.y < rows,
            forall|i: int| 0 <= i < snake@.len() ==> (#[trigger] snake@[i]).loc != food.loc,
        ensures
            g.wf(),
            g.rows == rows,
            g.cols == cols,
            g.snake@ == snake@,
            g.new_block == food,
    {
        let ghost s = snake@;
        let cells = Self::empty_cells(rows, cols);
        let mut g = Grid { rows, cols, cells, snake, new_block: food };
        proof {
            assert forall|l: Location| g.in_bounds(l) implies #[trigger] g.cell(l) == (if seq_prefix_at(
                s,
                0,
                l,
            ) {
                Some(Block { loc: l })
            } else {
                None
            }) by {
                g.lemma_sidx_in_range(l);
            }
        }
        let n: usize = g.snake.len();
        let mut i: usize = 0;
        while i < n
            invariant
                i <= n,
                n == s.len(),
                g.rows == rows,
                g.cols == cols,
                g.snake@ == s,
                g.new_block == food,
                g.dims_ok(),
                forall|k: int| 0 <= k < s.len() ==> (#[trigger] s[k]).loc.x < cols && s[k].loc.y < rows,
                forall|l: Location| g.in_bounds(l) ==> #[trigger] g.cell(l) == (if seq_prefix_at(
                    s,
                    i as int,
                    l,
                ) {
                    Some(Block { loc: l })
                } else {
                    None
                }),
            decreases n - i,
        {
            let b = g.snake[i];
            let ghost pre = g;
            g.insert(b);
            proof {
                assert(pre.in_bounds(b.loc));
                pre.lemma_sidx_in_range(b.loc);
                assert(g.cells@ == pre.cells@.update(pre.sidx(b.loc), Some(b)));
                assert forall|l: Location| g.in_bounds(l) implies #[trigger] g.cell(l) == (if seq_prefix_at(
                    s,
                    i + 1,
                    l,
                ) {
                    Some(Block { loc: l })
                } else {
                    None
                }) by {
                    pre.lemma_sidx_in_range(l);
                    if l != b.loc && pre.sidx(l) == pre.sidx(b.loc) {
                        pre.lemma_sidx_injective(l, b.loc);
                    }
                    if l == b.loc {
                        assert(seq_prefix_at(s, i + 1, l)) by {
                            assert(s[i as int].loc == l);
                        }
                        assert(Block { loc: l } == b);
                        assert(g.cell(l) == Some(b));
                    } else {
                        assert(g.sidx(l) == pre.sidx(l));
                        assert(g.cell(l) == pre.cell(l));
                        assert(pre.cell(l) == (if seq_prefix_at(s, i as int, l) {
                            Some(Block { loc: l })
                        } else {
                            None
                        }));
                        assert(seq_prefix_at(s, i + 1, l) == seq_prefix_at(s, i as int, l)) by {
                            if seq_prefix_at(s, i + 1, l) {
                                let j = choose|j: int| 0 <= j < i + 1 && s[j].loc == l;
                                assert(j < i);
                            }
                            if seq_prefix_at(s, i as int, l) {
                                let j = choose|j: int| 0 <= j < i && s[j].loc == l;
                                assert(0 <= j < i + 1 && s[j].loc == l);
                            }
                        }
                    }
                }
            }
            i = i + 1;
        }
        let ghost pre = g;
        g.insert(food);
        proof {
            pre.lemma_sidx_in_range(food.loc);
            assert(g.cells@ == pre.cells@.update(pre.sidx(food.loc), Some(food)));
            assert forall|l: Location| g.snake_at(l) == seq_prefix_at(s, s.len() as int, l) by {
                if g.snake_at(l) {
                    let j = choose|j: int| 0 <= j < g.snake@.len() && (#[trigger] g.snake@[j]).loc == l;
                    assert(s[j].loc == l);
                }
                if seq_prefix_at(s, s.len() as int, l) {
                    let j = choose|j: int| 0 <= j < s.len() && (#[trigger] s[j]).loc == l;
                    assert(g.snake@[j].loc == l);
                }
            }
            assert forall|l: Location| g.in_bounds(l) implies #[trigger] g.cell(l) == g.expected_cell(
                l,
                true,
            ) by {
                pre.lemma_sidx_in_range(l);
                assert(g.sidx(l) == pre.sidx(l));
                if l == food.loc {
                    assert(g.cell(l) == Some(food));
                    assert(food == (Block { loc: l }));
                } else {
                    if pre.sidx(l) == pre.sidx(food.loc) {
                        pre.lemma_sidx_injective(l, food.loc);
                    }
                    assert(g.cell(l) == pre.cell(l));
                }
            }
            assert(!g.snake_at(food.loc)) by {
                if g.snake_at(food.loc) {
                    let j = choose|j: int| 0 <= j < g.snake@.len() && (#[trigger] g.snake@[j]).loc == food.loc;
                    assert(s[j].loc != food.loc);
                }
            }
        }
        g
    }

    /// A fresh standard field: a one-block snake at the exact center and one
    /// food block on a machine-chosen free cell.
    pub fn new() -> (g: Grid)
        ensures
            g.wf(),
            g.rows == ROWS,
            g.cols == COLS,
            g.snake@.len() == 1,
            g.snake@[0].loc == (Location { x: COLS / 2, y: ROWS / 2 }),
    {
        let center = Block::new(Location::new(COLS / 2, ROWS / 2));
        let cells = Self::empty_cells(ROWS, COLS);
        let mut g = Grid { rows: ROWS, cols: COLS, cells, snake: Vec::new(), new_block: center };
        g.snake.push(center);
        let ghost pre = g;
        g.insert(center);
        proof {
            assert forall|l: Location| g.in_bounds(l) implies #[trigger] g.cell(l) == g.expected_cell(
                l,
                false,
            ) by {
                pre.lemma_sidx_in_range(l);
                if l != center.loc && pre.sidx(l) == pre.sidx(center.loc) {
                    pre.lemma_sidx_injective(l, center.loc);
                }
                if g.snake_at(l) {
                    let j = choose|j: int| 0 <= j < g.snake@.len() && g.snake@[j].loc == l;
                    assert(l == center.loc);
                }
                if l == center.loc {
                    assert(g.snake@[0].loc == l);
                }
            }
            let corner = Location { x: 0, y: 0 };
            assert(g.in_bounds(corner));
            g.lemma_sidx_in_range(corner);
            assert(g.cell(corner) is None);
            assert(g.has_free_cell());
        }
        g.add_block();
        g
    }
}

impl Block {
    /// The toroidal neighbor of this block one cell away in `dir` on
    /// `grid`'s field.
    pub fn in_direction(&self, grid: &Grid, dir: Direction) -> (b: Block)
        requires
            1 <= grid.rows,
            1 <= grid.cols,
            grid.in_bounds(self.loc),
        ensures
            b.loc == step_loc(self.loc, dir, grid.rows as int, grid.cols as int),
            grid.in_bounds(b.loc),
    {
        let x: usize = self.loc.x;
        let y: usize = self.loc.y;
        let loc = match dir {
            Direction::Up => if y == 0 {
                Location { x, y: grid.rows - 1 }
            } else {
                Location { x, y: y - 1 }
            },
            Direction::Down => if y + 1 == grid.rows {
                Location { x, y: 0 }
            } else {
                Location { x, y: y + 1 }
            },
            Direction::Left => if x == 0 {
                Location { x: grid.cols - 1, y }
            } else {
                Location { x: x - 1, y }
            },
            Direction::Right => if x + 1 == grid.cols {
                Location { x: 0, y }
            } else {
                Location { x: x + 1, y }
            },
        };
        Block { loc }
    }
}

} // verus!
