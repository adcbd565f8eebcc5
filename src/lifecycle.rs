use vstd::prelude::*;
use std::collections::HashMap;
use std::collections::VecDeque;
use crate::action::Direction;
use crate::random::shuffle_ids;
use crate::world::{window_hi, window_lo};

verus! {

broadcast use vstd::std_specs::hash::group_hash_axioms;

/// How many corpses the recently-dead queue keeps.
pub const RECENTLY_DEAD_CAPACITY: usize = 100;

/// The queue after appending `corpse` and, when over capacity, dropping the oldest.
pub open spec fn pushed_bounded<T>(q: Seq<T>, corpse: T) -> Seq<T> {
    let grown = q.push(corpse);
    if grown.len() > RECENTLY_DEAD_CAPACITY {
        grown.subrange(grown.len() - RECENTLY_DEAD_CAPACITY, grown.len() as int)
    } else {
        grown
    }
}

/// Bounded FIFO of the most recent corpses, oldest first; consulted only to
/// repopulate an extinct world.
#[derive(Debug, Clone)]
pub struct RecentlyDead<T> {
    corpses: VecDeque<T>,
}

impl<T> View for RecentlyDead<T> {
    type V = Seq<T>;

    closed spec fn view(&self) -> Seq<T> {
        self.corpses@
    }
}

impl<T> RecentlyDead<T> {
    pub open spec fn wf(&self) -> bool {
        self@.len() <= RECENTLY_DEAD_CAPACITY
    }

    pub fn new() -> (r: RecentlyDead<T>)
        ensures
            r@ == Seq::<T>::empty(),
            r.wf(),
    {
        RecentlyDead { corpses: VecDeque::new() }
    }

    /// Appends a corpse, evicting the oldest one when the queue is full.
    pub fn push(&mut self, corpse: T)
        requires
            old(self).wf(),
        ensures
            final(self)@ == pushed_bounded(old(self)@, corpse),
            final(self).wf(),
    {
        self.corpses.push_back(corpse);
        if self.corpses.len() > RECENTLY_DEAD_CAPACITY {
            let _ = self.corpses.pop_front();
        }
    }

    pub fn len(&self) -> (r: usize)
        ensures
            r == self@.len(),
    {
        self.corpses.len()
    }

    pub fn is_empty(&self) -> (r: bool)
        ensures
            r == (self@.len() == 0),
    {
        self.corpses.len() == 0
    }

    /// The corpse pushed `i` pushes ago (0 is the newest), if there is one.
    pub fn most_recent(&self, i: usize) -> (r: Option<&T>)
        ensures
            r is Some <==> i < self@.len(),
            r is Some ==> *r.unwrap() == self@[self@.len() - 1 - i],
    {
        let n = self.corpses.len();
        if i < n {
            Some(&self.corpses[n - 1 - i])
        } else {
            None
        }
    }

    /// How many creatures the extinction failsafe brings back: none unless the
    /// population is empty and corpses are at hand; otherwise as many as the
    /// initial population, limited by the corpses kept.
    pub fn resurrection_count(&self, population: usize, initial_population: usize) -> (r: usize)
        ensures
            r == if population == 0 && self@.len() > 0 {
                vstd::math::min(initial_population as int, self@.len() as int)
            } else {
                0
            },
            r > 0 ==> population == 0 && self@.len() > 0,
            r <= self@.len(),
    {
        if population == 0 && self.corpses.len() > 0 {
            initial_population.min(self.corpses.len())
        } else {
            0
        }
    }
}

/// Whether one more creature may be born: always when `max_population` is
/// zero (no cap), otherwise while the population is below the cap.
pub fn can_spawn_new_creature(population: usize, max_population: usize) -> (r: bool)
    ensures
        r == (max_population == 0 || population < max_population),
        r && max_population > 0 ==> population + 1 <= max_population,
{
    if max_population == 0 {
        return true;
    }
    population < max_population
}

/// The order in which creatures act during a tick: the given ids, uniformly shuffled.
pub fn processing_order(ids: Vec<u64>) -> (r: Vec<u64>)
    ensures
        r@.to_multiset() == ids@.to_multiset(),
        r@.len() == ids@.len(),
{
    let mut order = ids;
    shuffle_ids(&mut order);
    proof {
        broadcast use vstd::seq_lib::group_to_multiset_ensures;
        assert(order@.to_multiset().len() == ids@.to_multiset().len());
    }
    order
}

/// The ids to remove so that at most `max_population` remain, drawn
/// uniformly: none when `max_population` is zero (no cap) or already met.
pub fn ids_to_cull(ids: Vec<u64>, max_population: usize) -> (r: Vec<u64>)
    ensures
        (max_population == 0 || ids@.len() <= max_population) ==> r@.len() == 0,
        (max_population > 0 && ids@.len() > max_population) ==> r@.len() == ids@.len() - max_population,
        forall|k: int| 0 <= k < r@.len() ==> ids@.contains(#[trigger] r@[k]),
        ids@.no_duplicates() ==> r@.no_duplicates(),
{
    if max_population == 0 || ids.len() <= max_population {
        return Vec::new();
    }
    let to_remove = ids.len() - max_population;
    let mut shuffled = ids;
    let ghost original = shuffled@;
    shuffle_ids(&mut shuffled);
    let mut r: Vec<u64> = Vec::new();
    let mut k: usize = 0;
    proof {
        broadcast use vstd::seq_lib::group_to_multiset_ensures;
        assert(shuffled@.len() == original.len()) by {
            assert(shuffled@.to_multiset().len() == original.to_multiset().len());
        }
        if original.no_duplicates() {
            original.lemma_multiset_has_no_duplicates();
            shuffled@.lemma_multiset_has_no_duplicates_conv();
        }
    }
    while k < to_remove
        invariant
            k <= to_remove,
            to_remove <= shuffled@.len(),
            r@ == shuffled@.subrange(0, k as int),
            shuffled@.to_multiset() == original.to_multiset(),
            original.no_duplicates() ==> shuffled@.no_duplicates(),
        decreases to_remove - k,
    {
        r.push(shuffled[k]);
        k = k + 1;
        proof {
            assert(r@ == shuffled@.subrange(0, k as int));
        }
    }
    proof {
        broadcast use vstd::seq_lib::group_to_multiset_ensures;
        assert forall|k: int| 0 <= k < r@.len() implies original.contains(#[trigger] r@[k]) by {
            assert(shuffled@.contains(shuffled@[k]));
            assert(shuffled@.to_multiset().count(shuffled@[k]) > 0);
        }
    }
    r
}

/// Whether an (id, x, y, generation) entry is kin of creature `self_id` of
/// generation `self_generation` inside the box [x_lo, x_hi] x [y_lo, y_hi]:
/// another creature, inside the box, at most two generations apart.
pub open spec fn is_kin_in_box(
    e: (u64, usize, usize, u64),
    self_id: u64,
    self_generation: u64,
    x_lo: int,
    x_hi: int,
    y_lo: int,
    y_hi: int,
) -> bool {
    &&& e.0 != self_id
    &&& x_lo <= e.1 <= x_hi
    &&& y_lo <= e.2 <= y_hi
    &&& -2 <= e.3 - self_generation <= 2
}

/// Number of kin among the first n entries.
pub open spec fn kin_count(
    entries: Seq<(u64, usize, usize, u64)>,
    n: int,
    self_id: u64,
    self_generation: u64,
    x_lo: int,
    x_hi: int,
    y_lo: int,
    y_hi: int,
) -> nat
    decreases n,
{
    if n <= 0 {
        0
    } else {
        kin_count(entries, n - 1, self_id, self_generation, x_lo, x_hi, y_lo, y_hi)
            + if is_kin_in_box(entries[n - 1], self_id, self_generation, x_lo, x_hi, y_lo, y_hi) { 1nat } else { 0nat }
    }
}

/// Number of creatures other than `self_id`, listed as (id, x, y, generation),
/// standing in the square of the given radius around (x, y) clipped to a
/// width x height grid, whose generation differs from `self_generation` by at most 2.
pub fn count_nearby_kin(
    entries: &Vec<(u64, usize, usize, u64)>,
    self_id: u64,
    x: usize,
    y: usize,
    self_generation: u64,
    radius: usize,
    width: usize,
    height: usize,
) -> (r: usize)
    requires
        width > 0,
        height > 0,
    ensures
        r == kin_count(
            entries@,
            entries@.len() as int,
            self_id,
            self_generation,
            window_lo(x as int, radius as int),
            window_hi(x as int, radius as int, width as int),
            window_lo(y as int, radius as int),
            window_hi(y as int, radius as int, height as int),
        ),
{
    let x_min = x.saturating_sub(radius);
    let x_max = x.saturating_add(radius).min(width - 1);
    let y_min = y.saturating_sub(radius);
    let y_max = y.saturating_add(radius).min(height - 1);
    let mut count: usize = 0;
    let mut i: usize = 0;
    while i < entries.len()
        invariant
            i <= entries@.len(),
            count <= i,
            count == kin_count(entries@, i as int, self_id, self_generation, x_min as int, x_max as int, y_min as int, y_max as int),
        decreases entries@.len() - i,
    {
        let (id, ex, ey, generation) = entries[i];
        let close = if generation >= self_generation {
            generation - self_generation <= 2
        } else {
            self_generation - generation <= 2
        };
        if id != self_id && ex >= x_min && ex <= x_max && ey >= y_min && ey <= y_max && close {
            count = count + 1;
        }
        i = i + 1;
    }
    count
}

/// For each victim, the sides from which it was struck during one tick.
#[derive(Debug, Clone)]
pub struct AttackMap {
    attacks: HashMap<u64, Vec<Direction>>,
}

impl View for AttackMap {
    type V = Map<u64, Seq<Direction>>;

    closed spec fn view(&self) -> Map<u64, Seq<Direction>> {
        self.attacks@.map_values(|v: Vec<Direction>| v@)
    }
}

/// The directions recorded against `victim` so far (none if it was not struck).
pub open spec fn struck_from(m: Map<u64, Seq<Direction>>, victim: u64) -> Seq<Direction> {
    if m.contains_key(victim) { m[victim] } else { Seq::empty() }
}

impl AttackMap {
    pub fn new() -> (r: AttackMap)
        ensures
            r@ == Map::<u64, Seq<Direction>>::empty(),
    {
        let r = AttackMap { attacks: HashMap::new() };
        proof {
            assert(r@ =~= Map::<u64, Seq<Direction>>::empty());
        }
        r
    }

    /// Records that `victim` was struck from `from`.
    pub fn record(&mut self, victim: u64, from: Direction)
        ensures
            final(self)@ == old(self)@.insert(victim, struck_from(old(self)@, victim).push(from)),
    {
        let ghost before = self@;
        let mut list = match self.attacks.remove(&victim) {
            Some(v) => v,
            None => Vec::new(),
        };
        proof {
            assert(list@ == struck_from(before, victim));
        }
        list.push(from);
        self.attacks.insert(victim, list);
        proof {
            assert(self@ =~= before.insert(victim, struck_from(before, victim).push(from)));
        }
    }

    /// Whether `victim` was struck from `from`.
    pub fn attacked_from(&self, victim: u64, from: Direction) -> (r: bool)
        ensures
            r == struck_from(self@, victim).contains(from),
    {
        match self.attacks.get(&victim) {
            Some(list) => {
                proof {
                    assert(list@ == struck_from(self@, victim));
                }
                let mut i: usize = 0;
                while i < list.len()
                    invariant
                        i <= list@.len(),
                        list@ == struck_from(self@, victim),
                        forall|j: int| 0 <= j < i ==> list@[j] != from,
                    decreases list@.len() - i,
                {
                    if list[i] == from {
                        proof {
                            assert(list@[i as int] == from);
                        }
                        return true;
                    }
                    i = i + 1;
                }
                false
            },
            None => false,
        }
    }
}

} // verus!
