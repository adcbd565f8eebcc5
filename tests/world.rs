use evosim::cell::CellType;
use evosim::action::Action;
use evosim::spatial::SpatialIndex;
use evosim::world::World;

fn plant(amount: u32) -> CellType {
    CellType::Food { amount, is_meat: false, age: 0 }
}

#[test]
fn test_world_creation() {
    let world = World::new(10, 10);
    assert_eq!(world.width(), 10);
    assert_eq!(world.height(), 10);
    assert_eq!(world.count_cells(|c| c.is_empty()), 100);
}

#[test]
fn test_world_get_set() {
    let mut world = World::new(10, 10);
    assert!(world.get(5, 5).unwrap().is_empty());
    world.set(5, 5, plant(10));
    assert_eq!(world.get(5, 5).unwrap().food_amount(), 10);
}

#[test]
fn test_world_neighbors() {
    let world = World::new(10, 10);
    let neighbors = world.neighbors(5, 5);
    assert_eq!(neighbors.len(), 8);
    let neighbors = world.neighbors(0, 0);
    assert_eq!(neighbors.len(), 3);
    let neighbors = world.neighbors(9, 9);
    assert_eq!(neighbors.len(), 3);
}

#[test]
fn test_world_empty_neighbors() {
    let mut world = World::new(10, 10);
    world.set(4, 4, plant(5));
    world.set(5, 4, plant(5));
    let empty = world.empty_neighbors(5, 5);
    assert_eq!(empty.len(), 6);
}

#[test]
fn test_world_total_food() {
    let mut world = World::new(10, 10);
    world.set(0, 0, plant(5));
    world.set(1, 1, plant(10));
    assert_eq!(world.total_food(), 15);
}

#[test]
fn test_food_cap() {
    let mut world = World::new(10, 10);
    for _ in 0..1000 {
        // a rate of 1.0 over 100 cells draws 100 cells per round
        world.regenerate_food(100, 5);
    }
    for y in 0..10 {
        for x in 0..10 {
            if let Some(cell) = world.get(x, y) {
                assert!(cell.food_amount() <= 5);
            }
        }
    }
}

#[test]
fn out_of_bounds_access_is_none() {
    let mut world = World::new(4, 3);
    assert!(world.get(4, 0).is_none());
    assert!(world.get(0, 3).is_none());
    assert!(world.get_mut(7, 7).is_none());
    world.set(9, 9, plant(3));
    assert_eq!(world.total_food(), 0);
}

#[test]
fn get_mut_writes_through() {
    let mut world = World::new(4, 3);
    if let Some(c) = world.get_mut(3, 2) {
        c.add_food(4, 10, true);
    }
    assert_eq!(world.get(3, 2), Some(&CellType::Food { amount: 4, is_meat: true, age: 0 }));
    assert_eq!(world.total_food(), 4);
}

#[test]
fn neighbors_order_and_edges() {
    let world = World::new(10, 10);
    assert_eq!(world.neighbors(0, 0), vec![(0, 1), (1, 0), (1, 1)]);
    assert_eq!(
        world.neighbors(5, 5),
        vec![(4, 4), (4, 5), (4, 6), (5, 4), (5, 6), (6, 4), (6, 5), (6, 6)]
    );
    let one = World::new(1, 1);
    assert!(one.neighbors(0, 0).is_empty());
}

#[test]
fn aging_sweep_ages_then_decays() {
    let mut world = World::new(3, 1);
    world.set(0, 0, plant(2));
    world.set(1, 0, CellType::Food { amount: 1, is_meat: true, age: 0 });
    world.age_and_decay_food(3, 2);
    assert_eq!(world.get(0, 0), Some(&CellType::Food { amount: 2, is_meat: false, age: 1 }));
    assert_eq!(world.get(1, 0), Some(&CellType::Food { amount: 1, is_meat: true, age: 1 }));
    world.age_and_decay_food(3, 2);
    assert!(world.get(1, 0).unwrap().is_empty());
    assert_eq!(world.get(0, 0).unwrap().food_amount(), 2);
    world.age_and_decay_food(3, 2);
    assert!(world.get(0, 0).unwrap().is_empty());
    assert!(world.get(2, 0).unwrap().is_empty());
}

#[test]
fn regeneration_adds_one_unit_per_draw() {
    let mut world = World::new(300, 300);
    world.regenerate_food(90, 10);
    assert_eq!(world.total_food(), 90);
    let food_cells = world.count_cells(|c| c.is_food());
    assert!(food_cells >= 1 && food_cells <= 90);
    assert_eq!(world.count_cells(|c| c.is_meat()), 0);
}

#[test]
fn regeneration_rate_matches_expected_events() {
    // 300x300 at rate 0.001: 90 draws per tick
    let mut world = World::new(300, 300);
    let mut total: u64 = 0;
    for _ in 0..20 {
        world.regenerate_food(90, 1000);
        let now = world.total_food();
        let added = now - total;
        assert!(added > 90 - 30 && added <= 90);
        total = now;
    }
}

#[test]
fn regeneration_on_empty_world_is_noop() {
    let mut world = World::new(0, 5);
    world.regenerate_food(10, 5);
    assert_eq!(world.total_food(), 0);
}

#[test]
fn find_free_neighbor_skips_food_and_creatures() {
    let mut world = World::new(2, 2);
    let mut index = SpatialIndex::new(2, 2);
    world.set(0, 1, plant(1));
    assert_eq!(world.find_free_neighbor(&index, 0, 0).map(|p| p == (0, 1)), Some(false));
    index.set(1, 0, 5);
    assert_eq!(world.find_free_neighbor(&index, 0, 0), Some((1, 1)));
    index.set(1, 1, 6);
    assert_eq!(world.find_free_neighbor(&index, 0, 0), None);
}

#[test]
fn count_food_in_area_clips_to_grid() {
    let mut world = World::new(10, 10);
    world.set(0, 0, plant(1));
    world.set(2, 2, plant(1));
    world.set(3, 3, CellType::Food { amount: 1, is_meat: true, age: 0 });
    world.set(9, 9, plant(1));
    assert_eq!(world.count_food_in_area(0, 0, 2), 2);
    assert_eq!(world.count_food_in_area(1, 1, 2), 3);
    assert_eq!(world.count_food_in_area(9, 9, 1), 1);
    assert_eq!(world.count_food_in_area(5, 5, 100), 4);
}

#[test]
fn food_snapshots_list_food_cells_in_order() {
    let mut world = World::new(4, 3);
    world.set(2, 1, CellType::Food { amount: 3, is_meat: true, age: 4 });
    world.set(1, 0, plant(2));
    world.set(3, 2, CellType::Food { amount: 0, is_meat: false, age: 0 });
    let food = world.food_snapshots();
    assert_eq!(food.len(), 2);
    assert_eq!((food[0].x, food[0].y, food[0].amount, food[0].is_meat), (1, 0, 2, false));
    assert_eq!((food[1].x, food[1].y, food[1].amount, food[1].is_meat), (2, 1, 3, true));
}

#[test]
fn total_food_sums_amounts() {
    let mut world = World::new(2, 1);
    world.set(0, 0, plant(u32::MAX));
    world.set(1, 0, plant(u32::MAX));
    assert_eq!(world.total_food(), 2 * u32::MAX as u64);
}

#[test]
fn neighbor_census_counts_kinds() {
    let mut world = World::new(10, 10);
    world.set(4, 4, plant(1));
    world.set(5, 4, CellType::Food { amount: 2, is_meat: true, age: 0 });
    world.set(6, 6, plant(3));
    world.set(5, 5, plant(3)); // the centre is not a neighbor
    let c = world.neighbor_census(5, 5);
    assert_eq!((c.food, c.empty, c.plant, c.meat), (3, 5, 2, 1));
    let corner = world.neighbor_census(0, 0);
    assert_eq!((corner.food, corner.empty), (0, 3));
}

#[test]
fn move_target_clamps_to_the_grid() {
    let world = World::new(10, 8);
    assert_eq!(world.move_target(5, 5, Action::MoveUp), (5, 4));
    assert_eq!(world.move_target(5, 0, Action::SprintUp), (5, 0));
    assert_eq!(world.move_target(9, 3, Action::MoveRight), (9, 3));
    assert_eq!(world.move_target(0, 3, Action::MoveLeft), (0, 3));
    assert_eq!(world.move_target(2, 7, Action::MoveDown), (2, 7));
    assert_eq!(world.move_target(2, 2, Action::Attack), (2, 2));
}

#[test]
fn from_cells_checks_the_length() {
    assert!(World::from_cells(2, 2, vec![CellType::Empty; 3]).is_none());
    let w = World::from_cells(2, 2, vec![plant(1), CellType::Empty, CellType::Empty, plant(2)]).unwrap();
    assert_eq!(w.get(1, 1).unwrap().food_amount(), 2);
    assert_eq!(w.total_food(), 3);
}

#[test]
fn meat_replaces_plant_on_death() {
    // cell (3,3) holds 2 plant food; a corpse with energy 30 leaves ceil(30/20) = 2 meat
    let mut world = World::new(10, 10);
    world.set(3, 3, plant(2));
    world.drop_meat(3, 3, 2, 10);
    assert_eq!(world.get(3, 3), Some(&CellType::Food { amount: 2, is_meat: true, age: 0 }));
    world.drop_meat(3, 3, 20, 10);
    assert_eq!(world.get(3, 3).unwrap().food_amount(), 10);
    world.drop_meat(4, 4, 0, 10);
    assert!(world.get(4, 4).unwrap().is_empty());
    world.drop_meat(40, 4, 3, 10);
    assert_eq!(world.total_food(), 10);
}
