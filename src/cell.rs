use vstd::prelude::*;

verus! {

/// Contents of one grid cell.
#[derive(Debug, Clone, Copy, PartialEq, Eq, Structural)]
pub enum CellType {
    Empty,
    Food { amount: u32, is_meat: bool, age: u32 },
}

/// The amount of food a cell holds (zero for an empty cell).
pub open spec fn amount_of(c: CellType) -> nat {
    match c {
        CellType::Food { amount, .. } => amount as nat,
        CellType::Empty => 0,
    }
}

/// The cell after adding `amount` food of the given kind, capped at `max`.
/// Food of the same kind accumulates; food of the other kind is replaced.
/// Either way the age restarts at zero.
pub open spec fn add_food_spec(c: CellType, amount: u32, max: u32, is_meat: bool) -> CellType {
    match c {
        CellType::Food { amount: cur, is_meat: cur_meat, .. } if cur_meat == is_meat => CellType::Food {
            amount: vstd::math::min(cur + amount, max as int) as u32,
            is_meat,
            age: 0,
        },
        _ => CellType::Food { amount: vstd::math::min(amount as int, max as int) as u32, is_meat, age: 0 },
    }
}

/// Whether a cell holds food old enough to disappear.
pub open spec fn decays(c: CellType, plant_decay_ticks: u32, meat_decay_ticks: u32) -> bool {
    match c {
        CellType::Food { is_meat, age, .. } => if is_meat {
            age >= meat_decay_ticks
        } else {
            age >= plant_decay_ticks
        },
        CellType::Empty => false,
    }
}

/// The cell one tick older (age saturates at the integer's bound).
pub open spec fn aged(c: CellType) -> CellType {
    match c {
        CellType::Food { amount, is_meat, age } => CellType::Food {
            amount,
            is_meat,
            age: if age < u32::MAX { (age + 1) as u32 } else { age },
        },
        CellType::Empty => CellType::Empty,
    }
}

impl CellType {
    pub fn is_empty(&self) -> (r: bool)
        ensures
            r == (*self is Empty),
    {
        match self {
            CellType::Empty => true,
            _ => false,
        }
    }

    pub fn is_food(&self) -> (r: bool)
        ensures
            r == (*self is Food),
    {
        match self {
            CellType::Food { .. } => true,
            _ => false,
        }
    }

    pub fn food_amount(&self) -> (r: u32)
        ensures
            r == amount_of(*self),
    {
        match self {
            CellType::Food { amount, .. } => *amount,
            _ => 0,
        }
    }

    pub fn is_meat(&self) -> (r: bool)
        ensures
            r == (*self matches CellType::Food { is_meat: true, .. }),
    {
        match self {
            CellType::Food { is_meat, .. } => *is_meat,
            _ => false,
        }
    }

    pub fn add_food(&mut self, amount: u32, max: u32, is_meat: bool)
        ensures
            *final(self) == add_food_spec(*old(self), amount, max, is_meat),
    {
        match *self {
            CellType::Food { amount: current, is_meat: current_is_meat, .. } => {
                if current_is_meat != is_meat {
                    *self = CellType::Food { amount: amount.min(max), is_meat, age: 0 };
                } else {
                    *self = CellType::Food {
                        amount: current.saturating_add(amount).min(max),
                        is_meat,
                        age: 0,
                    };
                }
            },
            CellType::Empty => {
                *self = CellType::Food { amount: amount.min(max), is_meat, age: 0 };
            },
        }
    }

    /// Empties the cell and returns the (amount, is_meat) that was there.
    pub fn consume_food(&mut self) -> (r: (u32, bool))
        ensures
            *final(self) == CellType::Empty,
            r == (match *old(self) {
                CellType::Food { amount, is_meat, .. } => (amount, is_meat),
                CellType::Empty => (0u32, false),
            }),
    {
        match *self {
            CellType::Food { amount, is_meat, .. } => {
                *self = CellType::Empty;
                (amount, is_meat)
            },
            CellType::Empty => (0, false),
        }
    }

    /// Makes the food in the cell one tick older.
    pub fn age_food(&mut self)
        ensures
            *final(self) == aged(*old(self)),
    {
        if let CellType::Food { age, .. } = self {
            if *age < u32::MAX {
                *age = *age + 1;
            }
        }
    }

    pub fn should_decay(&self, plant_decay_ticks: u32, meat_decay_ticks: u32) -> (r: bool)
        ensures
            r == decays(*self, plant_decay_ticks, meat_decay_ticks),
    {
        match self {
            CellType::Food { is_meat, age, .. } => {
                if *is_meat {
                    *age >= meat_decay_ticks
                } else {
                    *age >= plant_decay_ticks
                }
            },
            CellType::Empty => false,
        }
    }

    pub fn decay(&mut self)
        ensures
            *final(self) == CellType::Empty,
    {
        *self = CellType::Empty;
    }
}

} // verus!
