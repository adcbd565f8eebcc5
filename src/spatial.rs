use vstd::prelude::*;
use crate::action::Direction;
use crate::random::random_below;
use crate::world::{grid_index, in_grid, lemma_grid_index_bounds, lemma_grid_index_injective, window_hi, window_lo};

verus! {

/// Mathematical picture of a spatial index: its dimensions and, row by row,
/// the id of the creature standing on each cell.
pub ghost struct SpatialView {
    pub width: nat,
    pub height: nat,
    pub cells: Seq<Option<u64>>,
}

/// Whether (cx, cy) comes strictly before (x, y) in row-major order.
pub open spec fn row_major_before(cx: int, cy: int, x: int, y: int) -> bool {
    cy < y || (cy == y && cx < x)
}

/// The index agrees with a position map: a cell names a creature exactly when
/// that creature stands there, and every creature stands inside the grid.
pub open spec fn agrees_with(v: SpatialView, positions: Map<u64, (int, int)>) -> bool {
    &&& v.cells.len() == v.width * v.height
    &&& forall|id: u64| #[trigger] positions.contains_key(id) ==> {
        &&& in_grid(positions[id].0, positions[id].1, v.width as int, v.height as int)
        &&& v.cells[grid_index(positions[id].0, positions[id].1, v.width as int)] == Some(id)
    }
    &&& forall|x: int, y: int| in_grid(x, y, v.width as int, v.height as int)
        && (#[trigger] v.cells[grid_index(x, y, v.width as int)]) is Some ==> {
        &&& positions.contains_key(v.cells[grid_index(x, y, v.width as int)].unwrap())
        &&& positions[v.cells[grid_index(x, y, v.width as int)].unwrap()] == (x, y)
    }
}

/// The view after freeing (x, y).
pub open spec fn vacated(v: SpatialView, x: int, y: int) -> SpatialView {
    SpatialView { cells: v.cells.update(grid_index(x, y, v.width as int), None), ..v }
}

/// The view after recording `id` on (x, y).
pub open spec fn occupied(v: SpatialView, x: int, y: int, id: u64) -> SpatialView {
    SpatialView { cells: v.cells.update(grid_index(x, y, v.width as int), Some(id)), ..v }
}

/// The view after a creature moves from (ox, oy) to (nx, ny); an old position
/// outside the grid is left alone.
pub open spec fn relocated(v: SpatialView, id: u64, ox: int, oy: int, nx: int, ny: int) -> SpatialView {
    let freed = if in_grid(ox, oy, v.width as int, v.height as int) { vacated(v, ox, oy) } else { v };
    occupied(freed, nx, ny, id)
}

/// A cell of the index names a creature exactly when that creature stands there.
pub proof fn lemma_cell_names_occupant(v: SpatialView, positions: Map<u64, (int, int)>, x: int, y: int, id: u64)
    requires
        agrees_with(v, positions),
        in_grid(x, y, v.width as int, v.height as int),
    ensures
        v.cells[grid_index(x, y, v.width as int)] == Some(id) <==> (positions.contains_key(id) && positions[id] == (x, y)),
{
}

/// While the index agrees with the positions, no two creatures share a cell.
pub proof fn lemma_no_shared_cells(v: SpatialView, positions: Map<u64, (int, int)>, a: u64, b: u64)
    requires
        agrees_with(v, positions),
        positions.contains_key(a),
        positions.contains_key(b),
        a != b,
    ensures
        positions[a] != positions[b],
{
}

proof fn lemma_index_distinct(x1: int, y1: int, x2: int, y2: int, w: int, h: int)
    requires
        in_grid(x1, y1, w, h),
        in_grid(x2, y2, w, h),
        (x1, y1) != (x2, y2),
    ensures
        grid_index(x1, y1, w) != grid_index(x2, y2, w),
{
    if grid_index(x1, y1, w) == grid_index(x2, y2, w) {
        lemma_grid_index_injective(x1, y1, x2, y2, w, h);
    }
}

/// Moving a creature onto a free cell (or staying put) keeps the index in
/// agreement with the updated positions.
pub proof fn lemma_relocate_agrees(
    v: SpatialView,
    positions: Map<u64, (int, int)>,
    id: u64,
    nx: int,
    ny: int,
)
    requires
        agrees_with(v, positions),
        positions.contains_key(id),
        in_grid(nx, ny, v.width as int, v.height as int),
        v.cells[grid_index(nx, ny, v.width as int)] is None || positions[id] == (nx, ny),
    ensures
        agrees_with(relocated(v, id, positions[id].0, positions[id].1, nx, ny), positions.insert(id, (nx, ny))),
{
    let (ox, oy) = positions[id];
    let w = v.width as int;
    let h = v.height as int;
    let r = relocated(v, id, ox, oy, nx, ny);
    let p2 = positions.insert(id, (nx, ny));
    lemma_grid_index_bounds(ox, oy, w, h);
    lemma_grid_index_bounds(nx, ny, w, h);
    assert forall|k: u64| #[trigger] p2.contains_key(k) implies {
        &&& in_grid(p2[k].0, p2[k].1, w, h)
        &&& r.cells[grid_index(p2[k].0, p2[k].1, w)] == Some(k)
    } by {
        if k != id {
            let (kx, ky) = positions[k];
            lemma_grid_index_bounds(kx, ky, w, h);
            assert(positions[k] != positions[id]);
            lemma_index_distinct(kx, ky, ox, oy, w, h);
            if (kx, ky) == (nx, ny) {
                assert(v.cells[grid_index(nx, ny, w)] == Some(k));
            }
            lemma_index_distinct(kx, ky, nx, ny, w, h);
        }
    }
    assert forall|x: int, y: int| in_grid(x, y, w, h) && (#[trigger] r.cells[grid_index(x, y, w)]) is Some implies {
        &&& p2.contains_key(r.cells[grid_index(x, y, w)].unwrap())
        &&& p2[r.cells[grid_index(x, y, w)].unwrap()] == (x, y)
    } by {
        lemma_grid_index_bounds(x, y, w, h);
        if (x, y) != (nx, ny) {
            lemma_index_distinct(x, y, nx, ny, w, h);
            if (x, y) != (ox, oy) {
                lemma_index_distinct(x, y, ox, oy, w, h);
                assert(r.cells[grid_index(x, y, w)] == v.cells[grid_index(x, y, w)]);
                let k = v.cells[grid_index(x, y, w)].unwrap();
                assert(positions[k] == (x, y));
                assert(k != id);
            } else {
                assert(r.cells[grid_index(x, y, w)] is None);
            }
        }
    }
}

/// Placing a new creature on a free cell keeps the index in agreement.
pub proof fn lemma_place_agrees(v: SpatialView, positions: Map<u64, (int, int)>, id: u64, x: int, y: int)
    requires
        agrees_with(v, positions),
        !positions.contains_key(id),
        in_grid(x, y, v.width as int, v.height as int),
        v.cells[grid_index(x, y, v.width as int)] is None,
    ensures
        agrees_with(occupied(v, x, y, id), positions.insert(id, (x, y))),
{
    let w = v.width as int;
    let h = v.height as int;
    let r = occupied(v, x, y, id);
    let p2 = positions.insert(id, (x, y));
    lemma_grid_index_bounds(x, y, w, h);
    assert forall|k: u64| #[trigger] p2.contains_key(k) implies {
        &&& in_grid(p2[k].0, p2[k].1, w, h)
        &&& r.cells[grid_index(p2[k].0, p2[k].1, w)] == Some(k)
    } by {
        if k != id {
            let (kx, ky) = positions[k];
            lemma_grid_index_bounds(kx, ky, w, h);
            if (kx, ky) == (x, y) {
                assert(v.cells[grid_index(x, y, w)] == Some(k));
            }
            lemma_index_distinct(kx, ky, x, y, w, h);
        }
    }
    assert forall|cx: int, cy: int| in_grid(cx, cy, w, h) && (#[trigger] r.cells[grid_index(cx, cy, w)]) is Some implies {
        &&& p2.contains_key(r.cells[grid_index(cx, cy, w)].unwrap())
        &&& p2[r.cells[grid_index(cx, cy, w)].unwrap()] == (cx, cy)
    } by {
        lemma_grid_index_bounds(cx, cy, w, h);
        if (cx, cy) != (x, y) {
            lemma_index_distinct(cx, cy, x, y, w, h);
            let k = v.cells[grid_index(cx, cy, w)].unwrap();
            assert(positions.contains_key(k));
        }
    }
}

/// Removing a creature and freeing its cell keeps the index in agreement.
pub proof fn lemma_vacate_agrees(v: SpatialView, positions: Map<u64, (int, int)>, id: u64)
    requires
        agrees_with(v, positions),
        positions.contains_key(id),
    ensures
        agrees_with(vacated(v, positions[id].0, positions[id].1), positions.remove(id)),
{
    let (x, y) = positions[id];
    let w = v.width as int;
    let h = v.height as int;
    let r = vacated(v, x, y);
    let p2 = positions.remove(id);
    lemma_grid_index_bounds(x, y, w, h);
    assert forall|k: u64| #[trigger] p2.contains_key(k) implies {
        &&& in_grid(p2[k].0, p2[k].1, w, h)
        &&& r.cells[grid_index(p2[k].0, p2[k].1, w)] == Some(k)
    } by {
        let (kx, ky) = positions[k];
        lemma_grid_index_bounds(kx, ky, w, h);
        assert(positions[k] != positions[id]);
        lemma_index_distinct(kx, ky, x, y, w, h);
    }
    assert forall|cx: int, cy: int| in_grid(cx, cy, w, h) && (#[trigger] r.cells[grid_index(cx, cy, w)]) is Some implies {
        &&& p2.contains_key(r.cells[grid_index(cx, cy, w)].unwrap())
        &&& p2[r.cells[grid_index(cx, cy, w)].unwrap()] == (cx, cy)
    } by {
        lemma_grid_index_bounds(cx, cy, w, h);
        if (cx, cy) != (x, y) {
            lemma_index_distinct(cx, cy, x, y, w, h);
            let k = v.cells[grid_index(cx, cy, w)].unwrap();
            assert(positions.contains_key(k));
            assert(k != id);
        }
    }
}

/// The four von Neumann neighbors of (x, y), in the order Up, Down, Left, Right,
/// each with the side from which a creature at (x, y) reaches it.
pub open spec fn von_neumann(x: int, y: int) -> Seq<(int, int, Direction)> {
    seq![(x, y - 1, Direction::Down), (x, y + 1, Direction::Up), (x - 1, y, Direction::Right), (x + 1, y, Direction::Left)]
}

/// The occupants among the first k von Neumann neighbors of (x, y), each with
/// the side it is reached from.
pub open spec fn adjacent_prefix(v: SpatialView, x: int, y: int, k: int) -> Seq<(u64, Direction)>
    decreases k,
{
    if k <= 0 {
        Seq::empty()
    } else {
        let rest = adjacent_prefix(v, x, y, k - 1);
        let (nx, ny, d) = von_neumann(x, y)[k - 1];
        if in_grid(nx, ny, v.width as int, v.height as int) && v.cells[grid_index(nx, ny, v.width as int)] is Some {
            rest.push((v.cells[grid_index(nx, ny, v.width as int)].unwrap(), d))
        } else {
            rest
        }
    }
}

/// Number of occupied cells at (cx, cy) with x_lo <= cx < x_to.
pub open spec fn occupied_in_row(v: SpatialView, cy: int, x_lo: int, x_to: int) -> nat
    decreases x_to - x_lo,
{
    if x_to <= x_lo {
        0
    } else {
        occupied_in_row(v, cy, x_lo, x_to - 1) + if v.cells[grid_index(x_to - 1, cy, v.width as int)] is Some { 1nat } else { 0nat }
    }
}

/// Number of occupied cells in the columns [x_lo, x_hi] of the rows y_lo <= cy < y_to.
pub open spec fn occupied_in_rows(v: SpatialView, x_lo: int, x_hi: int, y_lo: int, y_to: int) -> nat
    decreases y_to - y_lo,
{
    if y_to <= y_lo {
        0
    } else {
        occupied_in_rows(v, x_lo, x_hi, y_lo, y_to - 1) + occupied_in_row(v, y_to - 1, x_lo, x_hi + 1)
    }
}

proof fn lemma_occupied_in_rows_empty(v: SpatialView, x_lo: int, x_hi: int, y_lo: int, y_to: int)
    requires
        x_hi < x_lo || y_to <= y_lo,
    ensures
        occupied_in_rows(v, x_lo, x_hi, y_lo, y_to) == 0,
    decreases y_to - y_lo,
{
    if y_to > y_lo {
        lemma_occupied_in_rows_empty(v, x_lo, x_hi, y_lo, y_to - 1);
    }
}

/// The position map described by a list of (id, x, y) entries.
pub open spec fn positions_of(entries: Seq<(u64, usize, usize)>) -> Map<u64, (int, int)>
    decreases entries.len(),
{
    if entries.len() == 0 {
        Map::empty()
    } else {
        let (id, x, y) = entries.last();
        positions_of(entries.drop_last()).insert(id, (x as int, y as int))
    }
}

/// Entries name distinct creatures on distinct cells, all inside the grid.
pub open spec fn placeable(entries: Seq<(u64, usize, usize)>, width: int, height: int) -> bool {
    &&& forall|i: int| 0 <= i < entries.len() ==> in_grid((#[trigger] entries[i]).1 as int, entries[i].2 as int, width, height)
    &&& forall|i: int, j: int| 0 <= i < j < entries.len() ==> (#[trigger] entries[i]).0 != (#[trigger] entries[j]).0
        && (entries[i].1, entries[i].2) != (entries[j].1, entries[j].2)
}

/// Every creature of the map built from entries comes from one of them.
proof fn lemma_positions_of_source(entries: Seq<(u64, usize, usize)>, id: u64)
    requires
        positions_of(entries).contains_key(id),
    ensures
        exists|j: int| 0 <= j < entries.len() && (#[trigger] entries[j]).0 == id
            && positions_of(entries)[id] == (entries[j].1 as int, entries[j].2 as int),
    decreases entries.len(),
{
    let (k, x, y) = entries.last();
    if k != id {
        lemma_positions_of_source(entries.drop_last(), id);
        let j = choose|j: int| 0 <= j < entries.drop_last().len() && (#[trigger] entries.drop_last()[j]).0 == id
            && positions_of(entries.drop_last())[id] == (entries.drop_last()[j].1 as int, entries.drop_last()[j].2 as int);
        assert(entries[j] == entries.drop_last()[j]);
    } else {
        assert(entries[entries.len() - 1] == entries.last());
    }
}

/// Dense width x height array mapping each cell to the creature on it, if any.
#[derive(Debug, Clone)]
pub struct SpatialIndex {
    width: usize,
    height: usize,
    cells: Vec<Option<u64>>,
}

impl View for SpatialIndex {
    type V = SpatialView;

    closed spec fn view(&self) -> SpatialView {
        SpatialView { width: self.width as nat, height: self.height as nat, cells: self.cells@ }
    }
}

impl SpatialIndex {
    /// One entry per cell.
    pub open spec fn wf(&self) -> bool {
        self@.cells.len() == self@.width * self@.height
    }

    pub open spec fn contains(&self, x: int, y: int) -> bool {
        in_grid(x, y, self@.width as int, self@.height as int)
    }

    /// No creature is recorded at (x, y); positions outside the index count as free.
    pub open spec fn is_free(&self, x: int, y: int) -> bool {
        !self.contains(x, y) || self.occupant(x, y) is None
    }

    /// The occupant recorded at (x, y).
    pub open spec fn occupant(&self, x: int, y: int) -> Option<u64> {
        self@.cells[grid_index(x, y, self@.width as int)]
    }

    /// An index of the given dimensions with every cell free.
    pub fn new(width: usize, height: usize) -> (r: SpatialIndex)
        requires
            width * height <= usize::MAX,
        ensures
            r.wf(),
            r@.width == width,
            r@.height == height,
            forall|i: int| 0 <= i < r@.cells.len() ==> r@.cells[i] is None,
    {
        let n: usize = width * height;
        let mut cells: Vec<Option<u64>> = Vec::new();
        while cells.len() < n
            invariant
                cells.len() <= n,
                forall|i: int| 0 <= i < cells.len() ==> cells@[i] is None,
            decreases n - cells.len(),
        {
            cells.push(None);
        }
        SpatialIndex { width, height, cells }
    }

    fn idx(&self, x: usize, y: usize) -> (r: usize)
        requires
            self.wf(),
            self.contains(x as int, y as int),
        ensures
            r == grid_index(x as int, y as int, self@.width as int),
            r < self@.cells.len(),
    {
        proof {
            lemma_grid_index_bounds(x as int, y as int, self.width as int, self.height as int);
            assert(self.cells@.len() == self.cells.len());
        }
        y * self.width + x
    }

    /// The creature at (x, y), if any.
    pub fn get(&self, x: usize, y: usize) -> (r: Option<u64>)
        requires
            self.wf(),
            self.contains(x as int, y as int),
        ensures
            r == self.occupant(x as int, y as int),
    {
        self.cells[self.idx(x, y)]
    }

    /// Records `creature_id` as standing on (x, y).
    pub fn set(&mut self, x: usize, y: usize, creature_id: u64)
        requires
            old(self).wf(),
            old(self).contains(x as int, y as int),
        ensures
            final(self)@ == (SpatialView {
                cells: old(self)@.cells.update(grid_index(x as int, y as int, old(self)@.width as int), Some(creature_id)),
                ..old(self)@
            }),
            final(self).wf(),
    {
        let idx = self.idx(x, y);
        self.cells.set(idx, Some(creature_id));
    }

    /// Frees the cell (x, y).
    pub fn clear(&mut self, x: usize, y: usize)
        requires
            old(self).wf(),
            old(self).contains(x as int, y as int),
        ensures
            final(self)@ == (SpatialView {
                cells: old(self)@.cells.update(grid_index(x as int, y as int, old(self)@.width as int), None),
                ..old(self)@
            }),
            final(self).wf(),
    {
        let idx = self.idx(x, y);
        self.cells.set(idx, None);
    }

    /// Frees every cell.
    pub fn clear_all(&mut self)
        ensures
            final(self)@.width == old(self)@.width,
            final(self)@.height == old(self)@.height,
            final(self)@.cells.len() == old(self)@.cells.len(),
            forall|i: int| 0 <= i < final(self)@.cells.len() ==> final(self)@.cells[i] is None,
    {
        let mut i: usize = 0;
        while i < self.cells.len()
            invariant
                i <= self.cells@.len(),
                self.width == old(self).width,
                self.height == old(self).height,
                self.cells@.len() == old(self).cells@.len(),
                forall|j: int| 0 <= j < i ==> self.cells@[j] is None,
            decreases self.cells@.len() - i,
        {
            self.cells.set(i, None);
            i = i + 1;
        }
    }

    /// Moves creature `creature_id` from (old_x, old_y) to (new_x, new_y): the
    /// old cell is freed when it lies inside the grid, then the new one is taken.
    pub fn relocate(&mut self, creature_id: u64, old_x: usize, old_y: usize, new_x: usize, new_y: usize)
        requires
            old(self).wf(),
            old(self).contains(new_x as int, new_y as int),
        ensures
            final(self).wf(),
            final(self)@ == relocated(old(self)@, creature_id, old_x as int, old_y as int, new_x as int, new_y as int),
    {
        if old_x < self.width && old_y < self.height {
            self.clear(old_x, old_y);
        }
        self.set(new_x, new_y, creature_id);
    }

    pub fn width(&self) -> (r: usize)
        ensures
            r == self@.width,
    {
        self.width
    }

    pub fn height(&self) -> (r: usize)
        ensures
            r == self@.height,
    {
        self.height
    }
}

impl SpatialIndex {
    /// Iterates over the occupied cells of the inclusive rectangle
    /// [x_min, x_max] x [y_min, y_max], row by row.
    pub fn iter_box(&self, x_min: usize, y_min: usize, x_max: usize, y_max: usize) -> (r: BoundingBoxIter<'_>)
        requires
            self.wf(),
            x_max < self@.width,
            y_max < self@.height,
        ensures
            r.wf(),
            r.source() == *self,
            forall|cx: int, cy: int| #[trigger] r.pending(cx, cy) <==> (x_min <= cx <= x_max && y_min <= cy <= y_max),
    {
        let start_y = if x_min <= x_max && y_min <= y_max { y_min } else { y_max + 1 };
        BoundingBoxIter { index: self, x: x_min, y: start_y, x_min, x_max, y_max }
    }
}

/// Row-by-row walk over the occupied cells of a rectangle of a spatial index.
pub struct BoundingBoxIter<'a> {
    index: &'a SpatialIndex,
    x: usize,
    y: usize,
    x_min: usize,
    x_max: usize,
    y_max: usize,
}

impl<'a> BoundingBoxIter<'a> {
    /// The index being walked.
    pub closed spec fn source(&self) -> SpatialIndex {
        *self.index
    }

    /// Whether (cx, cy) is still to be visited.
    pub closed spec fn pending(&self, cx: int, cy: int) -> bool {
        &&& self.x_min <= cx <= self.x_max
        &&& cy <= self.y_max
        &&& !row_major_before(cx, cy, self.x as int, self.y as int)
    }

    pub closed spec fn wf(&self) -> bool {
        &&& self.index.wf()
        &&& self.x_max < self.index@.width
        &&& self.y_max < self.index@.height
        &&& (self.y <= self.y_max ==> self.x_min <= self.x <= self.x_max)
        &&& self.y <= self.y_max + 1
    }

    /// Moves to the next cell of the rectangle in row-major order.
    fn advance(&mut self)
        requires
            old(self).wf(),
            old(self).y <= old(self).y_max,
        ensures
            final(self).wf(),
            final(self).index == old(self).index,
            final(self).x_min == old(self).x_min,
            final(self).x_max == old(self).x_max,
            final(self).y_max == old(self).y_max,
            forall|cx: int, cy: int| #[trigger] final(self).pending(cx, cy) <==> (old(self).pending(cx, cy)
                && !(cx == old(self).x && cy == old(self).y)),
            (final(self).y > old(self).y) || (final(self).y == old(self).y && final(self).x > old(self).x),
    {
        if self.x >= self.x_max {
            self.x = self.x_min;
            self.y = self.y + 1;
        } else {
            self.x = self.x + 1;
        }
    }

    /// The next occupied cell of the rectangle as (x, y, id), or None when the walk is over.
    pub fn next(&mut self) -> (r: Option<(usize, usize, u64)>)
        requires
            old(self).wf(),
        ensures
            final(self).wf(),
            final(self).source() == old(self).source(),
            r is None ==> forall|cx: int, cy: int| #[trigger] old(self).pending(cx, cy)
                ==> old(self).source().occupant(cx, cy) is None,
            r is None ==> forall|cx: int, cy: int| !#[trigger] final(self).pending(cx, cy),
            r is Some ==> old(self).pending(r.unwrap().0 as int, r.unwrap().1 as int),
            r is Some ==> old(self).source().occupant(r.unwrap().0 as int, r.unwrap().1 as int) == Some(r.unwrap().2),
            r is Some ==> forall|cx: int, cy: int| #[trigger] old(self).pending(cx, cy)
                && row_major_before(cx, cy, r.unwrap().0 as int, r.unwrap().1 as int)
                ==> old(self).source().occupant(cx, cy) is None,
            r is Some ==> forall|cx: int, cy: int| #[trigger] final(self).pending(cx, cy) <==> (old(self).pending(cx, cy)
                && row_major_before(r.unwrap().0 as int, r.unwrap().1 as int, cx, cy)),
    {
        while self.y <= self.y_max
            invariant
                self.wf(),
                self.index == old(self).index,
                self.x_min == old(self).x_min,
                self.x_max == old(self).x_max,
                self.y_max == old(self).y_max,
                forall|cx: int, cy: int| #[trigger] self.pending(cx, cy) ==> old(self).pending(cx, cy),
                forall|cx: int, cy: int| #[trigger] old(self).pending(cx, cy) && !self.pending(cx, cy)
                    ==> self.index.occupant(cx, cy) is None && row_major_before(cx, cy, self.x as int, self.y as int),
            decreases self.y_max + 1 - self.y, self.x_max - self.x,
        {
            if let Some(id) = self.index.get(self.x, self.y) {
                let result = (self.x, self.y, id);
                assert(self.pending(self.x as int, self.y as int));
                self.advance();
                return Some(result);
            }
            self.advance();
        }
        None
    }
}

impl SpatialIndex {
    /// The creature at (x, y); None when the cell is free or outside the grid.
    pub fn creature_at(&self, x: usize, y: usize) -> (r: Option<u64>)
        requires
            self.wf(),
        ensures
            r == if self.contains(x as int, y as int) { self.occupant(x as int, y as int) } else { None },
    {
        if x < self.width && y < self.height {
            self.get(x, y)
        } else {
            None
        }
    }

    /// The creatures on the von Neumann neighbors of (x, y), in the order Up,
    /// Down, Left, Right, each with the side it is reached from (the Up
    /// neighbor is reached from below).
    pub fn adjacent_occupants(&self, x: usize, y: usize) -> (r: Vec<(u64, Direction)>)
        requires
            self.wf(),
        ensures
            r@ == adjacent_prefix(self@, x as int, y as int, 4),
    {
        let mut result: Vec<(u64, Direction)> = Vec::new();
        let ghost v = self@;
        proof {
            assert(v.width <= usize::MAX && v.height <= usize::MAX);
            assert(result@ == adjacent_prefix(v, x as int, y as int, 0));
        }
        if y >= 1 {
            if let Some(id) = self.creature_at(x, y - 1) {
                result.push((id, Direction::Down));
            }
        }
        assert(result@ == adjacent_prefix(v, x as int, y as int, 1));
        if y < usize::MAX {
            if let Some(id) = self.creature_at(x, y + 1) {
                result.push((id, Direction::Up));
            }
        }
        assert(result@ == adjacent_prefix(v, x as int, y as int, 2));
        if x >= 1 {
            if let Some(id) = self.creature_at(x - 1, y) {
                result.push((id, Direction::Right));
            }
        }
        assert(result@ == adjacent_prefix(v, x as int, y as int, 3));
        if x < usize::MAX {
            if let Some(id) = self.creature_at(x + 1, y) {
                result.push((id, Direction::Left));
            }
        }
        result
    }

    /// The first creature other than `self_id` on a von Neumann neighbor of
    /// (x, y), in the order Up, Down, Left, Right.
    pub fn first_adjacent_other(&self, x: usize, y: usize, self_id: u64) -> (r: Option<u64>)
        requires
            self.wf(),
        ensures
            r is None <==> forall|i: int| 0 <= i < adjacent_prefix(self@, x as int, y as int, 4).len()
                ==> (#[trigger] adjacent_prefix(self@, x as int, y as int, 4)[i]).0 == self_id,
            r is Some ==> exists|i: int| 0 <= i < adjacent_prefix(self@, x as int, y as int, 4).len()
                && #[trigger] adjacent_prefix(self@, x as int, y as int, 4)[i].0 == r.unwrap()
                && r.unwrap() != self_id
                && forall|j: int| 0 <= j < i ==> (#[trigger] adjacent_prefix(self@, x as int, y as int, 4)[j]).0 == self_id,
    {
        let adjacent = self.adjacent_occupants(x, y);
        let mut i: usize = 0;
        while i < adjacent.len()
            invariant
                i <= adjacent@.len(),
                adjacent@ == adjacent_prefix(self@, x as int, y as int, 4),
                forall|j: int| 0 <= j < i ==> (#[trigger] adjacent@[j]).0 == self_id,
            decreases adjacent@.len() - i,
        {
            let (id, _) = adjacent[i];
            if id != self_id {
                return Some(id);
            }
            i = i + 1;
        }
        None
    }

    /// Number of occupied cells in the square of the given radius around
    /// (x, y), clipped to the grid.
    pub fn count_in_area(&self, x: usize, y: usize, radius: usize) -> (r: usize)
        requires
            self.wf(),
            self@.width > 0,
            self@.height > 0,
        ensures
            r == occupied_in_rows(
                self@,
                window_lo(x as int, radius as int),
                window_hi(x as int, radius as int, self@.width as int),
                window_lo(y as int, radius as int),
                window_hi(y as int, radius as int, self@.height as int) + 1,
            ),
    {
        let x_min = x.saturating_sub(radius);
        let x_max = x.saturating_add(radius).min(self.width - 1);
        let y_min = y.saturating_sub(radius);
        let y_max = y.saturating_add(radius).min(self.height - 1);
        let mut count: usize = 0;
        if x_min > x_max || y_min > y_max {
            proof {
                lemma_occupied_in_rows_empty(self@, x_min as int, x_max as int, y_min as int, y_max as int + 1);
            }
            return 0;
        }
        let mut cy: usize = y_min;
        while cy <= y_max
            invariant
                self.wf(),
                y_min <= cy <= y_max + 1,
                x_min <= x_max < self@.width,
                y_max < self@.height,
                count == occupied_in_rows(self@, x_min as int, x_max as int, y_min as int, cy as int),
                count <= (cy - y_min) * (x_max - x_min + 1),
            decreases y_max + 1 - cy,
        {
            let mut cx: usize = x_min;
            let ghost before = count;
            while cx <= x_max
                invariant
                    self.wf(),
                    y_min <= cy <= y_max,
                    x_min <= cx <= x_max + 1,
                    x_min <= x_max < self@.width,
                    y_max < self@.height,
                    before == occupied_in_rows(self@, x_min as int, x_max as int, y_min as int, cy as int),
                    before <= (cy - y_min) * (x_max - x_min + 1),
                    count == before + occupied_in_row(self@, cy as int, x_min as int, cx as int),
                    count <= before + (cx - x_min),
                decreases x_max + 1 - cx,
            {
                proof {
                    assert(occupied_in_row(self@, cy as int, x_min as int, cx + 1) == occupied_in_row(self@, cy as int, x_min as int, cx as int)
                        + if self@.cells[grid_index(cx as int, cy as int, self@.width as int)] is Some { 1nat } else { 0nat });
                }
                if self.get(cx, cy).is_some() {
                    proof {
                        assert((cy - y_min) * (x_max - x_min + 1) + (x_max - x_min + 1) <= (y_max - y_min + 1) * (x_max - x_min + 1)) by (nonlinear_arith)
                            requires cy <= y_max, y_min <= cy, x_min <= x_max;
                        assert((y_max - y_min + 1) * (x_max - x_min + 1) <= self.width * self.height) by (nonlinear_arith)
                            requires y_max < self.height, x_max < self.width, y_min <= y_max, x_min <= x_max;
                        assert(self.cells@.len() == self.cells.len());
                    }
                    count = count + 1;
                }
                cx = cx + 1;
            }
            proof {
                assert((cy - y_min) * (x_max - x_min + 1) + (x_max - x_min + 1) == (cy + 1 - y_min) * (x_max - x_min + 1)) by (nonlinear_arith);
            }
            cy = cy + 1;
        }
        count
    }
}

impl SpatialIndex {
    /// A fresh index of the given dimensions holding each (id, x, y) entry.
    /// When the entries are placeable, the index agrees with their position map.
    pub fn rebuild(width: usize, height: usize, entries: &Vec<(u64, usize, usize)>) -> (r: SpatialIndex)
        requires
            width * height <= usize::MAX,
            forall|i: int| 0 <= i < entries@.len() ==> in_grid(
                (#[trigger] entries@[i]).1 as int, entries@[i].2 as int, width as int, height as int),
        ensures
            r.wf(),
            r@.width == width,
            r@.height == height,
            placeable(entries@, width as int, height as int) ==> agrees_with(r@, positions_of(entries@)),
    {
        let mut index = SpatialIndex::new(width, height);
        proof {
            let p0 = positions_of(entries@.subrange(0, 0));
            assert(p0 == Map::<u64, (int, int)>::empty());
            assert forall|x: int, y: int| in_grid(x, y, width as int, height as int)
                && (#[trigger] index@.cells[grid_index(x, y, width as int)]) is Some implies false by {
                lemma_grid_index_bounds(x, y, width as int, height as int);
            }
        }
        let mut i: usize = 0;
        while i < entries.len()
            invariant
                i <= entries@.len(),
                index.wf(),
                index@.width == width,
                index@.height == height,
                forall|k: int| 0 <= k < entries@.len() ==> in_grid(
                    (#[trigger] entries@[k]).1 as int, entries@[k].2 as int, width as int, height as int),
                placeable(entries@, width as int, height as int) ==> agrees_with(index@, positions_of(entries@.subrange(0, i as int))),
            decreases entries@.len() - i,
        {
            let (id, x, y) = entries[i];
            proof {
                let prefix = entries@.subrange(0, i as int);
                let next = entries@.subrange(0, i + 1);
                assert(next.drop_last() == prefix);
                assert(next.last() == entries@[i as int]);
                if placeable(entries@, width as int, height as int) {
                    let pm = positions_of(prefix);
                    if pm.contains_key(id) {
                        lemma_positions_of_source(prefix, id);
                        let j = choose|j: int| 0 <= j < prefix.len() && (#[trigger] prefix[j]).0 == id
                            && pm[id] == (prefix[j].1 as int, prefix[j].2 as int);
                        assert(entries@[j] == prefix[j]);
                        assert(false);
                    }
                    lemma_grid_index_bounds(x as int, y as int, width as int, height as int);
                    if index@.cells[grid_index(x as int, y as int, width as int)] is Some {
                        let k = index@.cells[grid_index(x as int, y as int, width as int)].unwrap();
                        assert(pm.contains_key(k) && pm[k] == (x as int, y as int));
                        lemma_positions_of_source(prefix, k);
                        let j = choose|j: int| 0 <= j < prefix.len() && (#[trigger] prefix[j]).0 == k
                            && pm[k] == (prefix[j].1 as int, prefix[j].2 as int);
                        assert(entries@[j] == prefix[j]);
                        assert(false);
                    }
                    lemma_place_agrees(index@, pm, id, x as int, y as int);
                }
            }
            index.set(x, y, id);
            i = i + 1;
        }
        proof {
            assert(entries@.subrange(0, entries@.len() as int) == entries@);
        }
        index
    }
}

/// Whether draw k is the one kept: its cell is free, or it is the last draw.
pub open spec fn kept_draw(v: SpatialView, draws: Seq<(usize, usize)>, k: int) -> bool {
    v.cells[grid_index(draws[k].0 as int, draws[k].1 as int, v.width as int)] is None || k == draws.len() - 1
}

impl SpatialIndex {
    /// The first of the drawn cells on which no creature stands; the last
    /// draw when every drawn cell is taken.
    pub fn first_free_or_last(&self, draws: &Vec<(usize, usize)>) -> (r: (usize, usize))
        requires
            self.wf(),
            draws@.len() > 0,
            forall|k: int| 0 <= k < draws@.len() ==> self.contains((#[trigger] draws@[k]).0 as int, draws@[k].1 as int),
        ensures
            exists|k: int| 0 <= k < draws@.len() && r == draws@[k] && kept_draw(self@, draws@, k)
                && forall|j: int| 0 <= j < k ==> !#[trigger] kept_draw(self@, draws@, j),
    {
        let mut k: usize = 0;
        while k < draws.len() - 1
            invariant
                self.wf(),
                k < draws@.len(),
                forall|m: int| 0 <= m < draws@.len() ==> self.contains((#[trigger] draws@[m]).0 as int, draws@[m].1 as int),
                forall|j: int| 0 <= j < k ==> !#[trigger] kept_draw(self@, draws@, j),
            decreases draws@.len() - k,
        {
            let (x, y) = draws[k];
            if self.get(x, y).is_none() {
                proof {
                    assert(kept_draw(self@, draws@, k as int));
                }
                return (x, y);
            }
            k = k + 1;
        }
        proof {
            assert(kept_draw(self@, draws@, k as int));
        }
        draws[k]
    }

    /// A uniformly drawn cell for a resurrected creature: up to 11 uniform
    /// draws, of which the first free one is kept (the last one when all are
    /// taken).
    pub fn resurrection_spot(&self) -> (r: (usize, usize))
        requires
            self.wf(),
            self@.width > 0,
            self@.height > 0,
        ensures
            self.contains(r.0 as int, r.1 as int),
    {
        let mut draws: Vec<(usize, usize)> = Vec::new();
        while draws.len() < 11
            invariant
                self@.width > 0,
                self@.height > 0,
                draws@.len() <= 11,
                forall|m: int| 0 <= m < draws@.len() ==> self.contains((#[trigger] draws@[m]).0 as int, draws@[m].1 as int),
            decreases 11 - draws@.len(),
        {
            let x = random_below(self.width);
            let y = random_below(self.height);
            draws.push((x, y));
        }
        self.first_free_or_last(&draws)
    }
}

impl Default for SpatialIndex {
    fn default() -> (r: SpatialIndex)
        ensures
            r.wf(),
            r@.width == 0,
            r@.height == 0,
            r@.cells.len() == 0,
    {
        SpatialIndex { width: 0, height: 0, cells: Vec::new() }
    }
}

} // verus!
