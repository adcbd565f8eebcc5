use evosim::cell::CellType;

#[test]
fn test_cell_type_empty() {
    let cell = CellType::Empty;
    assert!(cell.is_empty());
    assert!(!cell.is_food());
    assert_eq!(cell.food_amount(), 0);
}

#[test]
fn test_cell_type_food() {
    let cell = CellType::Food { amount: 5, is_meat: false, age: 0 };
    assert!(!cell.is_empty());
    assert!(cell.is_food());
    assert_eq!(cell.food_amount(), 5);
    assert!(!cell.is_meat());

    let meat_cell = CellType::Food { amount: 3, is_meat: true, age: 0 };
    assert!(meat_cell.is_food());
    assert!(meat_cell.is_meat());
    assert_eq!(meat_cell.food_amount(), 3);
}

#[test]
fn test_add_food() {
    let mut cell = CellType::Empty;
    cell.add_food(5, 10, false);
    assert_eq!(cell.food_amount(), 5);
    assert!(!cell.is_meat());

    cell.add_food(3, 10, false);
    assert_eq!(cell.food_amount(), 8);

    cell.add_food(5, 10, false);
    assert_eq!(cell.food_amount(), 10);

    let mut meat_cell = CellType::Empty;
    meat_cell.add_food(7, 10, true);
    assert_eq!(meat_cell.food_amount(), 7);
    assert!(meat_cell.is_meat());
}

#[test]
fn test_consume_food() {
    let mut cell = CellType::Food { amount: 5, is_meat: false, age: 10 };
    let (amount, is_meat) = cell.consume_food();
    assert_eq!(amount, 5);
    assert!(!is_meat);
    assert!(cell.is_empty());

    let (amount_again, _) = cell.consume_food();
    assert_eq!(amount_again, 0);

    let mut meat_cell = CellType::Food { amount: 3, is_meat: true, age: 5 };
    let (meat_amount, meat_flag) = meat_cell.consume_food();
    assert_eq!(meat_amount, 3);
    assert!(meat_flag);
}

#[test]
fn test_food_aging_and_decay() {
    let mut cell = CellType::Food { amount: 5, is_meat: false, age: 0 };
    cell.age_food();
    if let CellType::Food { age, .. } = cell {
        assert_eq!(age, 1);
    }
    assert!(!cell.should_decay(100, 50));
    for _ in 0..99 {
        cell.age_food();
    }
    assert!(cell.should_decay(100, 50));

    let mut meat = CellType::Food { amount: 3, is_meat: true, age: 49 };
    assert!(!meat.should_decay(100, 50));
    meat.age_food();
    assert!(meat.should_decay(100, 50));
    meat.decay();
    assert!(meat.is_empty());
}

#[test]
fn add_food_of_other_kind_replaces_and_resets_age() {
    // Two units of plant food; meat of amount 2 takes the cell over.
    let mut cell = CellType::Food { amount: 2, is_meat: false, age: 40 };
    cell.add_food(2, 10, true);
    assert_eq!(cell, CellType::Food { amount: 2, is_meat: true, age: 0 });
}

#[test]
fn add_food_of_same_kind_resets_age_and_saturates() {
    let mut cell = CellType::Food { amount: 9, is_meat: false, age: 17 };
    cell.add_food(u32::MAX, 10, false);
    assert_eq!(cell, CellType::Food { amount: 10, is_meat: false, age: 0 });
    let mut fresh = CellType::Empty;
    fresh.add_food(25, 10, true);
    assert_eq!(fresh, CellType::Food { amount: 10, is_meat: true, age: 0 });
}

#[test]
fn food_age_only_grows_until_decay() {
    let mut cell = CellType::Empty;
    cell.add_food(1, 10, false);
    let mut last = 0;
    for _ in 0..5 {
        cell.age_food();
        if let CellType::Food { age, .. } = cell {
            assert!(age > last);
            last = age;
        }
    }
    assert_eq!(last, 5);
    cell.add_food(1, 10, false);
    assert_eq!(cell, CellType::Food { amount: 2, is_meat: false, age: 0 });
}

#[test]
fn empty_cell_does_not_decay_or_age() {
    let mut cell = CellType::Empty;
    cell.age_food();
    assert_eq!(cell, CellType::Empty);
    assert!(!cell.should_decay(0, 0));
    assert!(!cell.is_meat());
}
