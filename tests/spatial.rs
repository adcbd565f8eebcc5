use evosim::action::Direction;
use evosim::spatial::{BoundingBoxIter, SpatialIndex};

fn collect(mut it: BoundingBoxIter<'_>) -> Vec<(usize, usize, u64)> {
    let mut out = Vec::new();
    while let Some(item) = it.next() {
        out.push(item);
    }
    out
}

#[test]
fn test_spatial_index_basic_operations() {
    let mut index = SpatialIndex::new(4, 3);
    assert_eq!(index.get(1, 1), None);

    index.set(1, 1, 42);
    assert_eq!(index.get(1, 1), Some(42));

    index.clear(1, 1);
    assert_eq!(index.get(1, 1), None);

    index.set(2, 2, 7);
    index.set(3, 2, 8);

    let collected: Vec<_> = collect(index.iter_box(0, 0, 3, 2));
    assert!(collected.contains(&(2, 2, 7)));
    assert!(collected.contains(&(3, 2, 8)));
    assert_eq!(collected.len(), 2);

    index.clear_all();
    assert!(index.iter_box(0, 0, 3, 2).next().is_none());
}

#[test]
fn iter_box_walks_rows_inside_the_rectangle() {
    let mut index = SpatialIndex::new(5, 5);
    index.set(0, 0, 1);
    index.set(3, 1, 2);
    index.set(1, 2, 3);
    index.set(2, 2, 4);
    index.set(4, 4, 5);
    assert_eq!(collect(index.iter_box(1, 1, 3, 3)), vec![(3, 1, 2), (1, 2, 3), (2, 2, 4)]);
    assert_eq!(collect(index.iter_box(0, 0, 4, 4)).len(), 5);
    assert_eq!(collect(index.iter_box(4, 4, 4, 4)), vec![(4, 4, 5)]);
    assert!(collect(index.iter_box(3, 0, 1, 4)).is_empty());
}

#[test]
fn relocate_moves_the_occupant() {
    let mut index = SpatialIndex::new(10, 10);
    index.set(5, 5, 1);
    index.set(5, 4, 2);
    index.relocate(1, 5, 5, 6, 5);
    assert_eq!(index.get(5, 5), None);
    assert_eq!(index.get(6, 5), Some(1));
    assert_eq!(index.get(5, 4), Some(2));
    // an old position outside the grid is ignored
    index.relocate(3, 50, 50, 0, 0);
    assert_eq!(index.get(0, 0), Some(3));
}

#[test]
fn default_index_is_empty() {
    let index = SpatialIndex::default();
    assert_eq!(index.width(), 0);
    assert_eq!(index.height(), 0);
}

#[test]
fn creature_at_is_none_outside_the_grid() {
    let mut index = SpatialIndex::new(3, 3);
    index.set(2, 2, 9);
    assert_eq!(index.creature_at(2, 2), Some(9));
    assert_eq!(index.creature_at(3, 2), None);
    assert_eq!(index.creature_at(usize::MAX, 0), None);
}

#[test]
fn adjacent_occupants_in_fixed_order() {
    let mut index = SpatialIndex::new(5, 5);
    index.set(2, 1, 10); // up
    index.set(3, 2, 11); // right
    index.set(1, 2, 12); // left
    assert_eq!(
        index.adjacent_occupants(2, 2),
        vec![(10, Direction::Down), (12, Direction::Right), (11, Direction::Left)]
    );
    assert_eq!(index.first_adjacent_other(2, 2, 10), Some(12));
    assert_eq!(index.first_adjacent_other(2, 2, 99), Some(10));
    assert!(index.adjacent_occupants(0, 0).is_empty());
    assert_eq!(index.first_adjacent_other(0, 0, 1), None);
}

#[test]
fn count_in_area_counts_occupants() {
    let mut index = SpatialIndex::new(20, 20);
    index.set(10, 10, 1);
    index.set(15, 10, 2);
    index.set(16, 10, 3);
    index.set(0, 0, 4);
    assert_eq!(index.count_in_area(10, 10, 5), 2);
    assert_eq!(index.count_in_area(10, 10, 1), 1);
    assert_eq!(index.count_in_area(2, 2, 5), 1);
    assert_eq!(index.count_in_area(10, 10, 100), 4);
}

#[test]
fn rebuild_places_every_entry() {
    let index = SpatialIndex::rebuild(4, 4, &vec![(1, 0, 0), (2, 3, 3), (7, 1, 2)]);
    assert_eq!(index.get(0, 0), Some(1));
    assert_eq!(index.get(3, 3), Some(2));
    assert_eq!(index.get(1, 2), Some(7));
    assert_eq!(index.count_in_area(0, 0, 10), 3);
}

#[test]
fn first_free_or_last_keeps_first_free_draw() {
    let mut index = SpatialIndex::new(4, 4);
    index.set(0, 0, 1);
    index.set(1, 1, 2);
    assert_eq!(index.first_free_or_last(&vec![(0, 0), (1, 1), (2, 2), (3, 3)]), (2, 2));
    assert_eq!(index.first_free_or_last(&vec![(3, 0)]), (3, 0));
    // every draw taken: the last one is kept
    assert_eq!(index.first_free_or_last(&vec![(1, 1), (0, 0)]), (0, 0));
}
