use vstd::prelude::*;

verus! {

/// One food cell as sent to observers.
#[derive(Debug, Clone, Copy, PartialEq, Eq, Structural)]
pub struct FoodSnapshot {
    pub x: usize,
    pub y: usize,
    pub amount: u32,
    pub is_meat: bool,
}

/// Requests an observer may send.
#[derive(Debug, Clone, Copy, PartialEq, Eq, Structural)]
pub enum ClientMessage {
    GetState,
    GetRegion { x: usize, y: usize, width: usize, height: usize },
    GetCreatureDetails { creature_id: u64 },
    SubscribeCreature { creature_id: Option<u64> },
}

} // verus!
