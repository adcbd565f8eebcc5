use vstd::prelude::*;
use crate::cell::{CellType, amount_of, add_food_spec, aged, decays};
use crate::random::{random_below, choose_position};
use crate::protocol::FoodSnapshot;
use crate::action::{Action, motion_of, direction_delta};
use crate::spatial::SpatialIndex;

verus! {

/// Mathematical picture of a world: its dimensions and its cells, row by row.
pub ghost struct WorldView {
    pub width: nat,
    pub height: nat,
    pub cells: Seq<CellType>,
}

/// Position of the cell (x, y) in a row-major grid of the given width.
pub open spec fn grid_index(x: int, y: int, width: int) -> int {
    y * width + x
}

pub open spec fn in_grid(x: int, y: int, width: int, height: int) -> bool {
    0 <= x < width && 0 <= y < height
}

pub proof fn lemma_grid_index_bounds(x: int, y: int, width: int, height: int)
    requires
        in_grid(x, y, width, height),
    ensures
        0 <= grid_index(x, y, width) < width * height,
{
    assert(0 <= y * width + x < width * height) by (nonlinear_arith)
        requires
            0 <= x < width,
            0 <= y < height,
    ;
}

/// Distinct grid positions have distinct row-major indices.
pub proof fn lemma_grid_index_injective(x1: int, y1: int, x2: int, y2: int, width: int, height: int)
    requires
        in_grid(x1, y1, width, height),
        in_grid(x2, y2, width, height),
        grid_index(x1, y1, width) == grid_index(x2, y2, width),
    ensures
        x1 == x2 && y1 == y2,
{
    if y1 < y2 {
        assert(y1 * width + width <= y2 * width) by (nonlinear_arith)
            requires
                y1 < y2,
                0 < width,
        ;
    } else if y2 < y1 {
        assert(y2 * width + width <= y1 * width) by (nonlinear_arith)
            requires
                y2 < y1,
                0 < width,
        ;
    }
}

/// Candidate k (0..9) of the 3x3 block around (x, y), as an offset pair.
pub open spec fn block_dx(k: int) -> int {
    k / 3 - 1
}

pub open spec fn block_dy(k: int) -> int {
    k % 3 - 1
}

/// Whether candidate k around (x, y) is a Moore neighbor inside the grid.
pub open spec fn is_block_neighbor(x: int, y: int, width: int, height: int, k: int) -> bool {
    k != 4 && in_grid(x + block_dx(k), y + block_dy(k), width, height)
}

/// The in-grid Moore neighbors among the first k candidates of the 3x3 block,
/// in the order (dx, dy) = (-1,-1), (-1,0), (-1,1), (0,-1), ... , (1,1).
pub open spec fn moore_prefix(x: int, y: int, width: int, height: int, k: int) -> Seq<(usize, usize)>
    decreases k,
{
    if k <= 0 {
        Seq::empty()
    } else {
        let rest = moore_prefix(x, y, width, height, k - 1);
        if is_block_neighbor(x, y, width, height, k - 1) {
            rest.push(((x + block_dx(k - 1)) as usize, (y + block_dy(k - 1)) as usize))
        } else {
            rest
        }
    }
}

/// The up to 8 in-grid Moore neighbors of (x, y), without wrap-around.
pub open spec fn moore_neighbors(x: int, y: int, width: int, height: int) -> Seq<(usize, usize)> {
    moore_prefix(x, y, width, height, 9)
}

/// Sum of the food amounts over a sequence of cells.
pub open spec fn food_sum(cells: Seq<CellType>) -> nat
    decreases cells.len(),
{
    if cells.len() == 0 {
        0
    } else {
        food_sum(cells.drop_last()) + amount_of(cells.last())
    }
}

/// Number of entries that are true.
pub open spec fn count_true(bs: Seq<bool>) -> nat
    decreases bs.len(),
{
    if bs.len() == 0 {
        0
    } else {
        count_true(bs.drop_last()) + if bs.last() { 1nat } else { 0nat }
    }
}

/// A cell after one step of the aging sweep: one tick older, then gone if too old.
pub open spec fn swept(c: CellType, plant_decay_ticks: u32, meat_decay_ticks: u32) -> CellType {
    if decays(aged(c), plant_decay_ticks, meat_decay_ticks) {
        CellType::Empty
    } else {
        aged(c)
    }
}

/// The cell after `k` single units of plant food were added to it, capped at `max`.
pub open spec fn plant_added(c: CellType, k: nat, max: u32) -> CellType
    decreases k,
{
    if k == 0 {
        c
    } else {
        add_food_spec(plant_added(c, (k - 1) as nat, max), 1, max, false)
    }
}

pub open spec fn nat_sum(s: Seq<nat>) -> nat
    decreases s.len(),
{
    if s.len() == 0 {
        0
    } else {
        nat_sum(s.drop_last()) + s.last()
    }
}

proof fn lemma_nat_sum_bump(s: Seq<nat>, i: int)
    requires
        0 <= i < s.len(),
    ensures
        nat_sum(s.update(i, s[i] + 1)) == nat_sum(s) + 1,
    decreases s.len(),
{
    let t = s.update(i, s[i] + 1);
    if i == s.len() - 1 {
        assert(t.drop_last() == s.drop_last());
    } else {
        lemma_nat_sum_bump(s.drop_last(), i);
        assert(t.drop_last() == s.drop_last().update(i, s[i] + 1));
    }
}

proof fn lemma_nat_sum_zeros(s: Seq<nat>)
    requires
        forall|i: int| 0 <= i < s.len() ==> s[i] == 0,
    ensures
        nat_sum(s) == 0,
    decreases s.len(),
{
    if s.len() > 0 {
        lemma_nat_sum_zeros(s.drop_last());
    }
}

/// Lower end of the window of the given radius around a coordinate.
pub open spec fn window_lo(c: int, radius: int) -> int {
    if c >= radius { c - radius } else { 0 }
}

/// Upper end of the window of the given radius around a coordinate, inside [0, size).
pub open spec fn window_hi(c: int, radius: int, size: int) -> int {
    if c + radius <= size - 1 { c + radius } else { size - 1 }
}

/// Number of food cells at (cx, cy) with x_lo <= cx < x_to.
pub open spec fn food_in_row(cells: Seq<CellType>, width: int, cy: int, x_lo: int, x_to: int) -> nat
    decreases x_to - x_lo,
{
    if x_to <= x_lo {
        0
    } else {
        food_in_row(cells, width, cy, x_lo, x_to - 1) + if cells[grid_index(x_to - 1, cy, width)] is Food { 1nat } else { 0nat }
    }
}

/// Number of food cells in the columns [x_lo, x_hi] of the rows y_lo <= cy < y_to.
pub open spec fn food_in_rows(cells: Seq<CellType>, width: int, x_lo: int, x_hi: int, y_lo: int, y_to: int) -> nat
    decreases y_to - y_lo,
{
    if y_to <= y_lo {
        0
    } else {
        food_in_rows(cells, width, x_lo, x_hi, y_lo, y_to - 1) + food_in_row(cells, width, y_to - 1, x_lo, x_hi + 1)
    }
}

proof fn lemma_food_in_rows_empty(cells: Seq<CellType>, width: int, x_lo: int, x_hi: int, y_lo: int, y_to: int)
    requires
        x_hi < x_lo || y_to <= y_lo,
    ensures
        food_in_rows(cells, width, x_lo, x_hi, y_lo, y_to) == 0,
    decreases y_to - y_lo,
{
    if y_to > y_lo {
        lemma_food_in_rows_empty(cells, width, x_lo, x_hi, y_lo, y_to - 1);
    }
}

/// The food cells (with a positive amount) among the first `n` cells of a
/// row-major grid of the given width, in grid order.
pub open spec fn food_list(cells: Seq<CellType>, width: int, n: int) -> Seq<FoodSnapshot>
    decreases n,
{
    if n <= 0 {
        Seq::empty()
    } else {
        let rest = food_list(cells, width, n - 1);
        match cells[n - 1] {
            CellType::Food { amount, is_meat, .. } => if amount > 0 {
                rest.push(FoodSnapshot { x: ((n - 1) % width) as usize, y: ((n - 1) / width) as usize, amount, is_meat })
            } else {
                rest
            },
            CellType::Empty => rest,
        }
    }
}

/// The aging sweep never makes food younger: a cell that still holds food
/// after the sweep held the same food before, exactly one tick younger.
pub proof fn lemma_sweep_ages_by_one(c: CellType, plant_decay_ticks: u32, meat_decay_ticks: u32)
    ensures
        swept(c, plant_decay_ticks, meat_decay_ticks) matches CellType::Food { amount, is_meat, age } ==> (
            c matches CellType::Food { amount: a0, is_meat: m0, age: g0 } && a0 == amount && m0 == is_meat && age == g0 + 1),
{
}

/// `v` clamped into [0, size - 1].
pub open spec fn clamp_into(v: int, size: int) -> int {
    if v < 0 { 0 } else if v > size - 1 { size - 1 } else { v }
}

/// Counts of the kinds of cells around a position.
#[derive(Debug, Clone, Copy, PartialEq, Eq, Structural)]
pub struct NeighborCensus {
    pub food: usize,
    pub empty: usize,
    pub plant: usize,
    pub meat: usize,
}

/// Number of positions in `ps` whose cell satisfies `pred`.
pub open spec fn tally(cells: Seq<CellType>, width: int, ps: Seq<(usize, usize)>, pred: spec_fn(CellType) -> bool) -> nat
    decreases ps.len(),
{
    if ps.len() == 0 {
        0
    } else {
        tally(cells, width, ps.drop_last(), pred) + if pred(cells[grid_index(ps.last().0 as int, ps.last().1 as int, width)]) {
            1nat
        } else {
            0nat
        }
    }
}

pub open spec fn holds_food(c: CellType) -> bool {
    c is Food
}

pub open spec fn holds_nothing(c: CellType) -> bool {
    c is Empty
}

pub open spec fn holds_plant(c: CellType) -> bool {
    c matches CellType::Food { is_meat: false, .. }
}

pub open spec fn holds_meat(c: CellType) -> bool {
    c matches CellType::Food { is_meat: true, .. }
}

/// Dense row-major grid of cells.
#[derive(Debug, Clone)]
pub struct World {
    width: usize,
    height: usize,
    grid: Vec<CellType>,
}

impl View for World {
    type V = WorldView;

    closed spec fn view(&self) -> WorldView {
        WorldView { width: self.width as nat, height: self.height as nat, cells: self.grid@ }
    }
}

impl World {
    /// The grid holds exactly one cell per position.
    pub open spec fn wf(&self) -> bool {
        self@.cells.len() == self@.width * self@.height
    }

    pub open spec fn cell_at(&self, x: int, y: int) -> CellType {
        self@.cells[grid_index(x, y, self@.width as int)]
    }

    pub open spec fn contains(&self, x: int, y: int) -> bool {
        in_grid(x, y, self@.width as int, self@.height as int)
    }

    /// An all-empty world of the given dimensions.
    pub fn new(width: usize, height: usize) -> (r: World)
        requires
            width * height <= usize::MAX,
        ensures
            r.wf(),
            r@.width == width,
            r@.height == height,
            forall|i: int| 0 <= i < r@.cells.len() ==> r@.cells[i] == CellType::Empty,
    {
        let n: usize = width * height;
        let mut grid: Vec<CellType> = Vec::new();
        while grid.len() < n
            invariant
                grid.len() <= n,
                forall|i: int| 0 <= i < grid.len() ==> grid@[i] == CellType::Empty,
            decreases n - grid.len(),
        {
            grid.push(CellType::Empty);
        }
        World { width, height, grid }
    }

    pub fn width(&self) -> (r: usize)
        ensures
            r == self@.width,
    {
        self.width
    }

    pub fn height(&self) -> (r: usize)
        ensures
            r == self@.height,
    {
        self.height
    }

    /// The cell at (x, y), or None outside the grid.
    pub fn get(&self, x: usize, y: usize) -> (r: Option<&CellType>)
        requires
            self.wf(),
        ensures
            r.is_some() == self.contains(x as int, y as int),
            r.is_some() ==> *r.unwrap() == self.cell_at(x as int, y as int),
    {
        if x >= self.width || y >= self.height {
            return None;
        }
        proof {
            lemma_grid_index_bounds(x as int, y as int, self.width as int, self.height as int);
            assert(self.grid@.len() == self.grid.len());
        }
        Some(&self.grid[y * self.width + x])
    }

    /// Mutable access to the cell at (x, y), or None outside the grid.
    pub fn get_mut(&mut self, x: usize, y: usize) -> (r: Option<&mut CellType>)
        requires
            old(self).wf(),
        ensures
            r.is_some() == old(self).contains(x as int, y as int),
            r.is_some() ==> *r.unwrap() == old(self).cell_at(x as int, y as int),
            r.is_some() ==> final(self)@ == (WorldView {
                cells: old(self)@.cells.update(
                    grid_index(x as int, y as int, old(self)@.width as int),
                    *final(r.unwrap()),
                ),
                ..old(self)@
            }),
            r.is_none() ==> final(self)@ == old(self)@,
    {
        if x >= self.width || y >= self.height {
            return None;
        }
        proof {
            lemma_grid_index_bounds(x as int, y as int, self.width as int, self.height as int);
            assert(self.grid@.len() == self.grid.len());
        }
        let idx = y * self.width + x;
        Some(&mut self.grid[idx])
    }

    /// Replaces the cell at (x, y); does nothing outside the grid.
    pub fn set(&mut self, x: usize, y: usize, cell: CellType)
        requires
            old(self).wf(),
        ensures
            final(self).wf(),
            old(self).contains(x as int, y as int) ==> final(self)@ == (WorldView {
                cells: old(self)@.cells.update(grid_index(x as int, y as int, old(self)@.width as int), cell),
                ..old(self)@
            }),
            !old(self).contains(x as int, y as int) ==> final(self)@ == old(self)@,
    {
        if x < self.width && y < self.height {
            proof {
                lemma_grid_index_bounds(x as int, y as int, self.width as int, self.height as int);
            }
        }
        if let Some(c) = self.get_mut(x, y) {
            *c = cell;
        }
    }

    /// The up to 8 in-grid Moore neighbors of (x, y); no wrap-around.
    pub fn neighbors(&self, x: usize, y: usize) -> (r: Vec<(usize, usize)>)
        ensures
            r@ == moore_neighbors(x as int, y as int, self@.width as int, self@.height as int),
    {
        let mut result: Vec<(usize, usize)> = Vec::new();
        let mut k: usize = 0;
        while k < 9
            invariant
                k <= 9,
                result@ == moore_prefix(x as int, y as int, self@.width as int, self@.height as int, k as int),
            decreases 9 - k,
        {
            let dx: usize = k / 3;
            let dy: usize = k % 3;
            if k != 4 {
                let x_ok = (dx == 0 && x >= 1) || dx == 1 || (dx == 2 && x < usize::MAX);
                let y_ok = (dy == 0 && y >= 1) || dy == 1 || (dy == 2 && y < usize::MAX);
                if x_ok && y_ok {
                    let nx: usize = if dx == 0 { x - 1 } else if dx == 1 { x } else { x + 1 };
                    let ny: usize = if dy == 0 { y - 1 } else if dy == 1 { y } else { y + 1 };
                    if nx < self.width && ny < self.height {
                        result.push((nx, ny));
                    }
                }
            }
            k = k + 1;
        }
        result
    }

    /// The Moore neighbors of (x, y) whose cell is empty, in the order of `neighbors`.
    pub fn empty_neighbors(&self, x: usize, y: usize) -> (r: Vec<(usize, usize)>)
        requires
            self.wf(),
        ensures
            r@ == moore_neighbors(x as int, y as int, self@.width as int, self@.height as int).filter(
                |p: (usize, usize)| self.cell_at(p.0 as int, p.1 as int) is Empty,
            ),
    {
        let ns = self.neighbors(x, y);
        let ghost pred: spec_fn((usize, usize)) -> bool = |p: (usize, usize)| self.cell_at(p.0 as int, p.1 as int) is Empty;
        proof {
            self.lemma_moore_in_grid(x as int, y as int, 9);
        }
        let mut result: Vec<(usize, usize)> = Vec::new();
        let mut i: usize = 0;
        while i < ns.len()
            invariant
                i <= ns@.len(),
                self.wf(),
                pred == (|p: (usize, usize)| self.cell_at(p.0 as int, p.1 as int) is Empty),
                ns@ == moore_neighbors(x as int, y as int, self@.width as int, self@.height as int),
                forall|j: int| 0 <= j < ns@.len() ==> self.contains(ns@[j].0 as int, ns@[j].1 as int),
                result@ == ns@.subrange(0, i as int).filter(pred),
            decreases ns@.len() - i,
        {
            let (nx, ny) = ns[i];
            let keep = match self.get(nx, ny) {
                Some(c) => c.is_empty(),
                None => false,
            };
            proof {
                reveal(Seq::filter);
                assert(ns@.subrange(0, i + 1).drop_last() == ns@.subrange(0, i as int));
                assert(ns@.subrange(0, i + 1).last() == ns@[i as int]);
                assert(ns@[i as int] == (nx, ny));
                assert(self.contains(nx as int, ny as int));
                assert(pred(ns@[i as int]) == (self.cell_at(nx as int, ny as int) is Empty));
                assert(pred(ns@[i as int]) == keep);
            }
            if keep {
                result.push((nx, ny));
            }
            i = i + 1;
        }
        proof {
            assert(ns@.subrange(0, ns@.len() as int) == ns@);
        }
        result
    }

    /// Every entry of a Moore prefix lies inside the grid.
    proof fn lemma_moore_in_grid(&self, x: int, y: int, k: int)
        ensures
            forall|j: int| 0 <= j < moore_prefix(x, y, self@.width as int, self@.height as int, k).len()
                ==> self.contains(
                    (#[trigger] moore_prefix(x, y, self@.width as int, self@.height as int, k)[j]).0 as int,
                    moore_prefix(x, y, self@.width as int, self@.height as int, k)[j].1 as int,
                ),
        decreases k,
    {
        if k > 0 {
            self.lemma_moore_in_grid(x, y, k - 1);
            let w = self@.width as int;
            let h = self@.height as int;
            let rest = moore_prefix(x, y, w, h, k - 1);
            if is_block_neighbor(x, y, w, h, k - 1) {
                let nx = x + block_dx(k - 1);
                let ny = y + block_dy(k - 1);
                assert(self@.width <= usize::MAX && self@.height <= usize::MAX);
                assert(nx as usize as int == nx && ny as usize as int == ny);
                assert(moore_prefix(x, y, w, h, k) == rest.push((nx as usize, ny as usize)));
            }
        }
    }

    /// The number of cells for which `predicate` answers true.
    pub fn count_cells<F: Fn(&CellType) -> bool>(&self, predicate: F) -> (r: usize)
        requires
            forall|c: &CellType| #[trigger] predicate.requires((c,)),
        ensures
            exists|answers: Seq<bool>| {
                &&& answers.len() == self@.cells.len()
                &&& forall|i: int| 0 <= i < answers.len() ==> predicate.ensures((&self@.cells[i],), #[trigger] answers[i])
                &&& r == count_true(answers)
            },
    {
        let mut count: usize = 0;
        let mut i: usize = 0;
        let ghost mut answers: Seq<bool> = Seq::empty();
        while i < self.grid.len()
            invariant
                i <= self.grid@.len(),
                answers.len() == i,
                forall|j: int| 0 <= j < i ==> predicate.ensures((&self.grid@[j],), #[trigger] answers[j]),
                forall|c: &CellType| #[trigger] predicate.requires((c,)),
                count == count_true(answers),
                count <= i,
            decreases self.grid@.len() - i,
        {
            let b = predicate(&self.grid[i]);
            proof {
                let ghost prev = answers;
                answers = answers.push(b);
                assert(answers.drop_last() == prev);
            }
            if b {
                count = count + 1;
            }
            i = i + 1;
        }
        proof {
            assert(self@.cells == self.grid@);
        }
        count
    }

    /// Total food over the grid, saturating at the 64-bit bound.
    pub fn total_food(&self) -> (r: u64)
        ensures
            r == vstd::math::min(food_sum(self@.cells) as int, u64::MAX as int),
    {
        let mut total: u64 = 0;
        let mut i: usize = 0;
        while i < self.grid.len()
            invariant
                i <= self.grid@.len(),
                total == vstd::math::min(food_sum(self.grid@.subrange(0, i as int)) as int, u64::MAX as int),
            decreases self.grid@.len() - i,
        {
            let a = self.grid[i].food_amount();
            proof {
                assert(self.grid@.subrange(0, i + 1).drop_last() == self.grid@.subrange(0, i as int));
            }
            total = total.saturating_add(a as u64);
            i = i + 1;
        }
        proof {
            assert(self.grid@.subrange(0, self.grid@.len() as int) == self.grid@);
        }
        total
    }

    /// One tick of food aging: every food cell gets one tick older and is
    /// emptied once its age reaches the threshold of its kind.
    pub fn age_and_decay_food(&mut self, plant_decay_ticks: u32, meat_decay_ticks: u32)
        requires
            old(self).wf(),
        ensures
            final(self).wf(),
            final(self)@.width == old(self)@.width,
            final(self)@.height == old(self)@.height,
            forall|i: int| 0 <= i < final(self)@.cells.len() ==> final(self)@.cells[i] == swept(
                #[trigger] old(self)@.cells[i],
                plant_decay_ticks,
                meat_decay_ticks,
            ),
    {
        let mut i: usize = 0;
        while i < self.grid.len()
            invariant
                i <= self.grid@.len(),
                self.width == old(self).width,
                self.height == old(self).height,
                self.grid@.len() == old(self).grid@.len(),
                forall|j: int| 0 <= j < i ==> self.grid@[j] == swept(#[trigger] old(self).grid@[j], plant_decay_ticks, meat_decay_ticks),
                forall|j: int| i <= j < self.grid@.len() ==> self.grid@[j] == old(self).grid@[j],
            decreases self.grid@.len() - i,
        {
            let mut c = self.grid[i];
            c.age_food();
            if c.should_decay(plant_decay_ticks, meat_decay_ticks) {
                c.decay();
            }
            self.grid.set(i, c);
            i = i + 1;
        }
    }

    /// Adds one unit of plant food, capped at `max_per_cell`, at each of
    /// `num_cells` uniformly drawn positions (a position may be drawn twice).
    pub fn regenerate_food(&mut self, num_cells: usize, max_per_cell: u32)
        requires
            old(self).wf(),
        ensures
            final(self).wf(),
            final(self)@.width == old(self)@.width,
            final(self)@.height == old(self)@.height,
            exists|hits: Seq<nat>| {
                &&& hits.len() == old(self)@.cells.len()
                &&& (old(self)@.cells.len() > 0 ==> nat_sum(hits) == num_cells)
                &&& forall|i: int| 0 <= i < hits.len() ==> final(self)@.cells[i] == plant_added(
                    old(self)@.cells[i],
                    #[trigger] hits[i],
                    max_per_cell,
                )
            },
    {
        let ghost mut hits: Seq<nat> = Seq::new(self.grid@.len(), |i: int| 0nat);
        proof {
            lemma_nat_sum_zeros(hits);
            assert forall|i: int| 0 <= i < hits.len() implies self.grid@[i] == plant_added(
                old(self).grid@[i], #[trigger] hits[i], max_per_cell) by {}
        }
        if self.width == 0 || self.height == 0 {
            proof {
                assert(self.grid@.len() == 0) by (nonlinear_arith)
                    requires self.grid@.len() == self.width * self.height, self.width == 0 || self.height == 0;
            }
            return;
        }
        let mut n: usize = 0;
        while n < num_cells
            invariant
                n <= num_cells,
                self.wf(),
                self.width == old(self).width,
                self.height == old(self).height,
                self.width > 0 && self.height > 0,
                hits.len() == self.grid@.len(),
                nat_sum(hits) == n,
                forall|i: int| 0 <= i < hits.len() ==> self.grid@[i] == plant_added(
                    old(self).grid@[i], #[trigger] hits[i], max_per_cell),
            decreases num_cells - n,
        {
            let x = random_below(self.width);
            let y = random_below(self.height);
            proof {
                lemma_grid_index_bounds(x as int, y as int, self.width as int, self.height as int);
                assert(self.grid@.len() == self.grid.len());
            }
            let idx = y * self.width + x;
            let mut c = self.grid[idx];
            c.add_food(1, max_per_cell, false);
            self.grid.set(idx, c);
            proof {
                lemma_nat_sum_bump(hits, idx as int);
                let prev = hits;
                hits = hits.update(idx as int, hits[idx as int] + 1);
                assert forall|i: int| 0 <= i < hits.len() implies self.grid@[i] == plant_added(
                    old(self).grid@[i], #[trigger] hits[i], max_per_cell) by {
                    if i == idx as int {
                        assert(hits[i] == prev[i] + 1);
                    }
                }
            }
            n = n + 1;
        }
    }

    /// A uniformly drawn Moore neighbor of (x, y) whose cell is empty and on
    /// which no creature stands, or None when there is none.
    pub fn find_free_neighbor(&self, occupants: &SpatialIndex, x: usize, y: usize) -> (r: Option<(usize, usize)>)
        requires
            self.wf(),
            occupants.wf(),
        ensures
            r is None <==> moore_neighbors(x as int, y as int, self@.width as int, self@.height as int).filter(
                |p: (usize, usize)| self.cell_at(p.0 as int, p.1 as int) is Empty && occupants.is_free(p.0 as int, p.1 as int),
            ).len() == 0,
            r is Some ==> moore_neighbors(x as int, y as int, self@.width as int, self@.height as int).contains(r.unwrap()),
            r is Some ==> self.cell_at(r.unwrap().0 as int, r.unwrap().1 as int) is Empty,
            r is Some ==> occupants.is_free(r.unwrap().0 as int, r.unwrap().1 as int),
    {
        let ns = self.neighbors(x, y);
        let ghost pred: spec_fn((usize, usize)) -> bool = |p: (usize, usize)|
            self.cell_at(p.0 as int, p.1 as int) is Empty && occupants.is_free(p.0 as int, p.1 as int);
        proof {
            self.lemma_moore_in_grid(x as int, y as int, 9);
        }
        let mut free: Vec<(usize, usize)> = Vec::new();
        let mut i: usize = 0;
        while i < ns.len()
            invariant
                i <= ns@.len(),
                self.wf(),
                occupants.wf(),
                pred == (|p: (usize, usize)| self.cell_at(p.0 as int, p.1 as int) is Empty && occupants.is_free(p.0 as int, p.1 as int)),
                ns@ == moore_neighbors(x as int, y as int, self@.width as int, self@.height as int),
                forall|j: int| 0 <= j < ns@.len() ==> self.contains(ns@[j].0 as int, ns@[j].1 as int),
                free@ == ns@.subrange(0, i as int).filter(pred),
            decreases ns@.len() - i,
        {
            let (nx, ny) = ns[i];
            let empty = match self.get(nx, ny) {
                Some(c) => c.is_empty(),
                None => false,
            };
            let keep = empty && occupants.creature_at(nx, ny).is_none();
            proof {
                reveal(Seq::filter);
                assert(ns@.subrange(0, i + 1).drop_last() == ns@.subrange(0, i as int));
                assert(ns@.subrange(0, i + 1).last() == ns@[i as int]);
                assert(ns@[i as int] == (nx, ny));
                assert(self.contains(nx as int, ny as int));
                assert(pred(ns@[i as int]) == keep);
            }
            if keep {
                free.push((nx, ny));
            }
            i = i + 1;
        }
        proof {
            assert(ns@.subrange(0, ns@.len() as int) == ns@);
        }
        let r = choose_position(&free);
        proof {
            if r is Some {
                let j = choose|j: int| 0 <= j < free@.len() && free@[j] == r.unwrap();
                ns@.lemma_filter_contains_rev(pred, r.unwrap());
                ns@.lemma_filter_pred(pred, j);
            }
        }
        r
    }

    /// Number of food cells in the square of the given radius around (x, y),
    /// clipped to the grid.
    pub fn count_food_in_area(&self, x: usize, y: usize, radius: usize) -> (r: usize)
        requires
            self.wf(),
            self@.width > 0,
            self@.height > 0,
        ensures
            r == food_in_rows(
                self@.cells,
                self@.width as int,
                window_lo(x as int, radius as int),
                window_hi(x as int, radius as int, self@.width as int),
                window_lo(y as int, radius as int),
                window_hi(y as int, radius as int, self@.height as int) + 1,
            ),
    {
        let x_min = x.saturating_sub(radius);
        let x_max = x.saturating_add(radius).min(self.width - 1);
        let y_min = y.saturating_sub(radius);
        let y_max = y.saturating_add(radius).min(self.height - 1);
        let ghost w = self@.width as int;
        let mut count: usize = 0;
        if x_min > x_max || y_min > y_max {
            proof {
                lemma_food_in_rows_empty(self@.cells, w, x_min as int, x_max as int, y_min as int, y_max as int + 1);
            }
            return 0;
        }
        let mut cy: usize = y_min;
        while cy <= y_max
            invariant
                self.wf(),
                w == self@.width,
                y_min <= cy <= y_max + 1,
                x_min <= x_max < self@.width,
                y_max < self@.height,
                count == food_in_rows(self@.cells, w, x_min as int, x_max as int, y_min as int, cy as int),
                count <= (cy - y_min) * (x_max - x_min + 1),
            decreases y_max + 1 - cy,
        {
            let mut cx: usize = x_min;
            let ghost before = count;
            while cx <= x_max
                invariant
                    self.wf(),
                    w == self@.width,
                    y_min <= cy <= y_max,
                    x_min <= cx <= x_max + 1,
                    x_min <= x_max < self@.width,
                    y_max < self@.height,
                    before == food_in_rows(self@.cells, w, x_min as int, x_max as int, y_min as int, cy as int),
                    before <= (cy - y_min) * (x_max - x_min + 1),
                    count == before + food_in_row(self@.cells, w, cy as int, x_min as int, cx as int),
                    count <= before + (cx - x_min),
                decreases x_max + 1 - cx,
            {
                proof {
                    lemma_grid_index_bounds(cx as int, cy as int, self.width as int, self.height as int);
                    assert(self.grid@.len() == self.grid.len());
                }
                proof {
                    assert(self@.cells == self.grid@);
                    assert(food_in_row(self@.cells, w, cy as int, x_min as int, cx + 1) == food_in_row(self@.cells, w, cy as int, x_min as int, cx as int)
                        + if self@.cells[grid_index(cx as int, cy as int, w)] is Food { 1nat } else { 0nat });
                }
                if self.grid[cy * self.width + cx].is_food() {
                    proof {
                        assert((cy - y_min) * (x_max - x_min + 1) + (x_max - x_min + 1) <= (y_max - y_min + 1) * (x_max - x_min + 1)) by (nonlinear_arith)
                            requires cy <= y_max, y_min <= cy, x_min <= x_max;
                        assert((y_max - y_min + 1) * (x_max - x_min + 1) <= self.width * self.height) by (nonlinear_arith)
                            requires y_max < self.height, x_max < self.width, y_min <= y_max, x_min <= x_max;
                        assert(self.grid@.len() == self.grid.len());
                    }
                    count = count + 1;
                }
                cx = cx + 1;
            }
            proof {
                assert((cy - y_min) * (x_max - x_min + 1) + (x_max - x_min + 1) == (cy + 1 - y_min) * (x_max - x_min + 1)) by (nonlinear_arith);
            }
            cy = cy + 1;
        }
        count
    }

    /// Every cell holding a positive amount of food, in row-major order.
    pub fn food_snapshots(&self) -> (r: Vec<FoodSnapshot>)
        requires
            self.wf(),
        ensures
            r@ == food_list(self@.cells, self@.width as int, self@.cells.len() as int),
    {
        let mut food: Vec<FoodSnapshot> = Vec::new();
        let mut i: usize = 0;
        while i < self.grid.len()
            invariant
                self.wf(),
                i <= self.grid@.len(),
                food@ == food_list(self@.cells, self@.width as int, i as int),
            decreases self.grid@.len() - i,
        {
            proof {
                assert(self@.cells == self.grid@);
                assert(self.width > 0) by (nonlinear_arith)
                    requires self.grid@.len() == self.width * self.height, i < self.grid@.len();
            }
            let cell = self.grid[i];
            if cell.is_food() {
                let amount = cell.food_amount();
                if amount > 0 {
                    food.push(FoodSnapshot { x: i % self.width, y: i / self.width, amount, is_meat: cell.is_meat() });
                }
            }
            i = i + 1;
        }
        food
    }

    /// Where `action` would take a creature standing at (x, y): one step in its
    /// direction, clamped to the grid; (x, y) itself, clamped, for other actions.
    pub fn move_target(&self, x: usize, y: usize, action: Action) -> (r: (usize, usize))
        requires
            self@.width > 0,
            self@.height > 0,
        ensures
            r.0 == clamp_into(x + action.to_delta_spec().0, self@.width as int),
            r.1 == clamp_into(y + action.to_delta_spec().1, self@.height as int),
    {
        let (dx, dy) = action.to_delta();
        let nx: usize = if dx < 0 {
            if x == 0 { 0 } else { (x - 1).min(self.width - 1) }
        } else if dx > 0 {
            if x >= self.width - 1 { self.width - 1 } else { x + 1 }
        } else {
            x.min(self.width - 1)
        };
        let ny: usize = if dy < 0 {
            if y == 0 { 0 } else { (y - 1).min(self.height - 1) }
        } else if dy > 0 {
            if y >= self.height - 1 { self.height - 1 } else { y + 1 }
        } else {
            y.min(self.height - 1)
        };
        (nx, ny)
    }

    /// A world of the given dimensions holding `cells` row by row; None when
    /// the number of cells is not width * height.
    pub fn from_cells(width: usize, height: usize, cells: Vec<CellType>) -> (r: Option<World>)
        ensures
            r is Some <==> cells@.len() == width * height,
            r is Some ==> r.unwrap().wf() && r.unwrap()@ == (WorldView { width: width as nat, height: height as nat, cells: cells@ }),
    {
        match width.checked_mul(height) {
            Some(n) => {
                if cells.len() == n {
                    Some(World { width, height, grid: cells })
                } else {
                    None
                }
            },
            None => {
                proof {
                    assert(cells@.len() == cells.len());
                }
                None
            },
        }
    }

    /// How many Moore neighbors of (x, y) hold food, are empty, hold plant
    /// food and hold meat.
    pub fn neighbor_census(&self, x: usize, y: usize) -> (r: NeighborCensus)
        requires
            self.wf(),
        ensures
            ({
                let ns = moore_neighbors(x as int, y as int, self@.width as int, self@.height as int);
                let w = self@.width as int;
                &&& r.food == tally(self@.cells, w, ns, |c: CellType| holds_food(c))
                &&& r.empty == tally(self@.cells, w, ns, |c: CellType| holds_nothing(c))
                &&& r.plant == tally(self@.cells, w, ns, |c: CellType| holds_plant(c))
                &&& r.meat == tally(self@.cells, w, ns, |c: CellType| holds_meat(c))
            }),
    {
        let ns = self.neighbors(x, y);
        let ghost w = self@.width as int;
        proof {
            self.lemma_moore_in_grid(x as int, y as int, 9);
        }
        let mut census = NeighborCensus { food: 0, empty: 0, plant: 0, meat: 0 };
        let mut i: usize = 0;
        while i < ns.len()
            invariant
                i <= ns@.len(),
                self.wf(),
                w == self@.width,
                ns@ == moore_neighbors(x as int, y as int, self@.width as int, self@.height as int),
                forall|j: int| 0 <= j < ns@.len() ==> self.contains(ns@[j].0 as int, ns@[j].1 as int),
                census.food == tally(self@.cells, w, ns@.subrange(0, i as int), |c: CellType| holds_food(c)),
                census.empty == tally(self@.cells, w, ns@.subrange(0, i as int), |c: CellType| holds_nothing(c)),
                census.plant == tally(self@.cells, w, ns@.subrange(0, i as int), |c: CellType| holds_plant(c)),
                census.meat == tally(self@.cells, w, ns@.subrange(0, i as int), |c: CellType| holds_meat(c)),
                census.food <= i && census.empty <= i && census.plant <= i && census.meat <= i,
            decreases ns@.len() - i,
        {
            let (nx, ny) = ns[i];
            proof {
                assert(ns@.subrange(0, i + 1).drop_last() == ns@.subrange(0, i as int));
                assert(ns@.subrange(0, i + 1).last() == ns@[i as int]);
                assert(ns@[i as int] == (nx, ny));
                assert(self.contains(nx as int, ny as int));
            }
            if let Some(cell) = self.get(nx, ny) {
                if cell.is_food() {
                    census.food = census.food + 1;
                    if cell.is_meat() {
                        census.meat = census.meat + 1;
                    } else {
                        census.plant = census.plant + 1;
                    }
                } else {
                    census.empty = census.empty + 1;
                }
            }
            i = i + 1;
        }
        proof {
            assert(ns@.subrange(0, ns@.len() as int) == ns@);
        }
        census
    }

    /// Leaves a corpse's meat on (x, y): `amount` units of meat, capped at
    /// `max_per_cell`, replacing any plant food there. Nothing happens for a
    /// zero amount or outside the grid.
    pub fn drop_meat(&mut self, x: usize, y: usize, amount: u32, max_per_cell: u32)
        requires
            old(self).wf(),
        ensures
            final(self).wf(),
            (amount > 0 && old(self).contains(x as int, y as int)) ==> final(self)@ == (WorldView {
                cells: old(self)@.cells.update(
                    grid_index(x as int, y as int, old(self)@.width as int),
                    add_food_spec(old(self).cell_at(x as int, y as int), amount, max_per_cell, true),
                ),
                ..old(self)@
            }),
            !(amount > 0 && old(self).contains(x as int, y as int)) ==> final(self)@ == old(self)@,
    {
        if amount == 0 {
            return;
        }
        if x < self.width && y < self.height {
            proof {
                lemma_grid_index_bounds(x as int, y as int, self.width as int, self.height as int);
            }
        }
        if let Some(cell) = self.get_mut(x, y) {
            cell.add_food(amount, max_per_cell, true);
        }
    }
}

} // verus!
