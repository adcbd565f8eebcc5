use vstd::prelude::*;

verus! {

/// What a creature does during one tick.
#[derive(Debug, Clone, Copy, PartialEq, Eq, Structural)]
pub enum Action {
    Stay,
    MoveUp,
    MoveDown,
    MoveLeft,
    MoveRight,
    Attack,
    Reproduce,
    ShareEnergy,
    SprintUp,
    SprintDown,
    SprintLeft,
    SprintRight,
    Rest,
}

/// One of the four von Neumann directions.
#[derive(Debug, Clone, Copy, PartialEq, Eq, Hash, Structural)]
pub enum Direction {
    Up,
    Down,
    Left,
    Right,
}

/// The fixed mapping from network output index to action.
pub open spec fn action_of_index(index: int) -> Action {
    if index == 0 {
        Action::MoveUp
    } else if index == 1 {
        Action::MoveDown
    } else if index == 2 {
        Action::MoveLeft
    } else if index == 3 {
        Action::MoveRight
    } else if index == 4 {
        Action::Attack
    } else if index == 5 {
        Action::Reproduce
    } else if index == 6 {
        Action::ShareEnergy
    } else if index == 7 {
        Action::SprintUp
    } else if index == 8 {
        Action::SprintDown
    } else if index == 9 {
        Action::SprintLeft
    } else if index == 10 {
        Action::SprintRight
    } else if index == 11 {
        Action::Rest
    } else {
        Action::Stay
    }
}

/// The direction of motion of a movement action.
pub open spec fn motion_of(a: Action) -> Option<Direction> {
    match a {
        Action::MoveUp | Action::SprintUp => Some(Direction::Up),
        Action::MoveDown | Action::SprintDown => Some(Direction::Down),
        Action::MoveLeft | Action::SprintLeft => Some(Direction::Left),
        Action::MoveRight | Action::SprintRight => Some(Direction::Right),
        _ => None,
    }
}

/// The grid offset of one step in a direction (y grows downwards).
pub open spec fn direction_delta(d: Direction) -> (i32, i32) {
    match d {
        Direction::Up => (0i32, -1i32),
        Direction::Down => (0i32, 1i32),
        Direction::Left => (-1i32, 0i32),
        Direction::Right => (1i32, 0i32),
    }
}

pub open spec fn opposite_of(d: Direction) -> Direction {
    match d {
        Direction::Up => Direction::Down,
        Direction::Down => Direction::Up,
        Direction::Left => Direction::Right,
        Direction::Right => Direction::Left,
    }
}

impl Direction {
    /// The direction pointing the other way.
    pub fn opposite(&self) -> (r: Direction)
        ensures
            r == opposite_of(*self),
    {
        match self {
            Direction::Up => Direction::Down,
            Direction::Down => Direction::Up,
            Direction::Left => Direction::Right,
            Direction::Right => Direction::Left,
        }
    }
}

impl Action {
    /// The grid offset of the action: one step for moves and sprints, none otherwise.
    pub open spec fn to_delta_spec(&self) -> (int, int) {
        match motion_of(*self) {
            Some(d) => (direction_delta(d).0 as int, direction_delta(d).1 as int),
            None => (0, 0),
        }
    }

    /// Maps a network output index to its action; indices past the table mean Stay.
    pub fn from_index(index: usize) -> (r: Action)
        ensures
            r == action_of_index(index as int),
    {
        match index {
            0 => Action::MoveUp,
            1 => Action::MoveDown,
            2 => Action::MoveLeft,
            3 => Action::MoveRight,
            4 => Action::Attack,
            5 => Action::Reproduce,
            6 => Action::ShareEnergy,
            7 => Action::SprintUp,
            8 => Action::SprintDown,
            9 => Action::SprintLeft,
            10 => Action::SprintRight,
            11 => Action::Rest,
            _ => Action::Stay,
        }
    }

    /// The grid offset of the action: one step for moves and sprints, none otherwise.
    pub fn to_delta(&self) -> (r: (i32, i32))
        ensures
            r == (match motion_of(*self) {
                Some(d) => direction_delta(d),
                None => (0i32, 0i32),
            }),
    {
        match self {
            Action::Stay => (0, 0),
            Action::MoveUp => (0, -1),
            Action::MoveDown => (0, 1),
            Action::MoveLeft => (-1, 0),
            Action::MoveRight => (1, 0),
            Action::SprintUp => (0, -1),
            Action::SprintDown => (0, 1),
            Action::SprintLeft => (-1, 0),
            Action::SprintRight => (1, 0),
            Action::Attack => (0, 0),
            Action::Reproduce => (0, 0),
            Action::ShareEnergy => (0, 0),
            Action::Rest => (0, 0),
        }
    }

    pub fn is_movement(&self) -> (r: bool)
        ensures
            r == motion_of(*self) is Some,
    {
        match self {
            Action::MoveUp | Action::MoveDown | Action::MoveLeft | Action::MoveRight | Action::SprintUp
            | Action::SprintDown | Action::SprintLeft | Action::SprintRight => true,
            _ => false,
        }
    }

    pub fn is_sprint(&self) -> (r: bool)
        ensures
            r == (*self is SprintUp || *self is SprintDown || *self is SprintLeft || *self is SprintRight),
    {
        match self {
            Action::SprintUp | Action::SprintDown | Action::SprintLeft | Action::SprintRight => true,
            _ => false,
        }
    }

    /// The direction in which the action moves the creature, if it is a movement.
    pub fn motion(&self) -> (r: Option<Direction>)
        ensures
            r == motion_of(*self),
    {
        match self {
            Action::MoveUp | Action::SprintUp => Some(Direction::Up),
            Action::MoveDown | Action::SprintDown => Some(Direction::Down),
            Action::MoveLeft | Action::SprintLeft => Some(Direction::Left),
            Action::MoveRight | Action::SprintRight => Some(Direction::Right),
            _ => None,
        }
    }

    /// For a movement that bumps into an occupant, the side the occupant is struck from:
    /// the opposite of the motion (moving up strikes from below).
    pub fn incoming_direction(&self) -> (r: Option<Direction>)
        ensures
            r == (match motion_of(*self) {
                Some(d) => Some(opposite_of(d)),
                None => None,
            }),
    {
        match self.motion() {
            Some(d) => Some(d.opposite()),
            None => None,
        }
    }
}

} // verus!
