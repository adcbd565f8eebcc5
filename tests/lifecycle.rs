use evosim::action::Direction;
use evosim::lifecycle::{can_spawn_new_creature, count_nearby_kin, ids_to_cull, processing_order, AttackMap, RecentlyDead, RECENTLY_DEAD_CAPACITY};
use evosim::spatial::SpatialIndex;

#[test]
fn recently_dead_keeps_the_newest_hundred() {
    let mut q: RecentlyDead<u32> = RecentlyDead::new();
    assert!(q.is_empty());
    for i in 0..150u32 {
        q.push(i);
    }
    assert_eq!(q.len(), RECENTLY_DEAD_CAPACITY);
    assert_eq!(q.most_recent(0), Some(&149));
    assert_eq!(q.most_recent(99), Some(&50));
    assert_eq!(q.most_recent(100), None);
}

#[test]
fn failsafe_needs_corpses() {
    // every creature gone and nothing remembered: nobody comes back
    let empty: RecentlyDead<u32> = RecentlyDead::new();
    assert_eq!(empty.resurrection_count(0, 10), 0);

    let mut q: RecentlyDead<u32> = RecentlyDead::new();
    q.push(7);
    // solo creature starved: one corpse, initial population one
    assert_eq!(q.resurrection_count(0, 1), 1);
    // population not extinct: no resurrection
    assert_eq!(q.resurrection_count(3, 10), 0);
    for i in 0..4u32 {
        q.push(i);
    }
    assert_eq!(q.resurrection_count(0, 10), 5);
    assert_eq!(q.resurrection_count(0, 2), 2);
}

#[test]
fn attack_map_records_directions() {
    let mut m = AttackMap::new();
    assert!(!m.attacked_from(2, Direction::Down));
    m.record(2, Direction::Down);
    m.record(2, Direction::Left);
    m.record(5, Direction::Up);
    assert!(m.attacked_from(2, Direction::Down));
    assert!(m.attacked_from(2, Direction::Left));
    assert!(!m.attacked_from(2, Direction::Up));
    assert!(m.attacked_from(5, Direction::Up));
    assert!(!m.attacked_from(6, Direction::Up));
}

#[test]
fn population_cap_check() {
    assert!(can_spawn_new_creature(5, 0));
    assert!(can_spawn_new_creature(9, 10));
    assert!(!can_spawn_new_creature(10, 10));
    assert!(!can_spawn_new_creature(11, 10));
}

#[test]
fn move_into_occupant_is_reported_from_the_far_side() {
    // A at (5,5) moves up into B at (5,4): B is struck from below.
    let mut index = SpatialIndex::new(10, 10);
    index.set(5, 5, 1);
    index.set(5, 4, 2);
    let world = evosim::world::World::new(10, 10);
    let target = world.move_target(5, 5, evosim::action::Action::MoveUp);
    assert_eq!(target, (5, 4));
    assert_eq!(index.creature_at(target.0, target.1), Some(2));
    let mut attacks = AttackMap::new();
    attacks.record(2, evosim::action::Action::MoveUp.incoming_direction().unwrap());
    assert!(attacks.attacked_from(2, Direction::Down));
    assert_eq!(index.get(5, 5), Some(1));
}

#[test]
fn culling_removes_exactly_the_excess() {
    let ids: Vec<u64> = (0..20).collect();
    let culled = ids_to_cull(ids.clone(), 15);
    assert_eq!(culled.len(), 5);
    for id in &culled {
        assert!(ids.contains(id));
    }
    let mut sorted = culled.clone();
    sorted.sort();
    sorted.dedup();
    assert_eq!(sorted.len(), 5);
    assert!(ids_to_cull(ids.clone(), 0).is_empty());
    assert!(ids_to_cull(ids.clone(), 20).is_empty());
    assert!(ids_to_cull(ids, 25).is_empty());
}

#[test]
fn culling_draws_varied_victims() {
    let ids: Vec<u64> = (0..20).collect();
    let first_five: Vec<u64> = (0..5).collect();
    let mut saw_other = false;
    for _ in 0..20 {
        let mut culled = ids_to_cull(ids.clone(), 15);
        culled.sort();
        if culled != first_five {
            saw_other = true;
        }
    }
    assert!(saw_other);
}

#[test]
fn processing_order_is_a_permutation() {
    let ids: Vec<u64> = (0..50).collect();
    let mut order = processing_order(ids.clone());
    assert_eq!(order.len(), 50);
    let shuffled_copy = order.clone();
    order.sort();
    assert_eq!(order, ids);
    let mut moved = shuffled_copy != ids;
    for _ in 0..5 {
        moved = moved || processing_order(ids.clone()) != ids;
    }
    assert!(moved);
}

#[test]
fn resurrection_spot_prefers_a_free_cell() {
    let mut index = SpatialIndex::new(2, 1);
    index.set(0, 0, 1);
    let mut free_hits = 0;
    for _ in 0..20 {
        let (x, y) = index.resurrection_spot();
        assert!(x < 2 && y < 1);
        if (x, y) == (1, 0) {
            free_hits += 1;
        }
    }
    // eleven draws all landing on the occupied cell is very unlikely
    assert!(free_hits >= 19);
}

#[test]
fn kin_counts_close_generations_in_the_box() {
    let entries = vec![
        (1u64, 10usize, 10usize, 5u64), // self
        (2, 12, 10, 7),                 // kin
        (3, 15, 15, 3),                 // kin, box corner
        (4, 16, 10, 5),                 // outside the box
        (5, 9, 9, 8),                   // three generations apart
        (6, 5, 5, 4),                   // kin, other corner
    ];
    assert_eq!(count_nearby_kin(&entries, 1, 10, 10, 5, 5, 100, 100), 3);
    assert_eq!(count_nearby_kin(&entries, 1, 10, 10, 5, 1, 100, 100), 0);
    // the box is clipped to a 12x12 grid: only columns and rows up to 11 remain
    assert_eq!(count_nearby_kin(&entries, 1, 10, 10, 5, 5, 12, 12), 1);
    assert_eq!(count_nearby_kin(&vec![(7, 0, 0, u64::MAX)], 1, 0, 0, 0, 3, 5, 5), 0);
}
