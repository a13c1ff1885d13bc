use vstd::prelude::*;

verus! {

/// The gas state kept for one player between connections.
#[derive(Debug, Clone, Copy, PartialEq, Eq, Structural)]
pub struct Params {
    pub gas: u8,
    pub refilling_in: u8,
    pub max_gas: u8,
    pub base_points: u8,
    pub active: bool,
}

impl Params {
    /// A fresh, active session with a full tank and no refill pending.
    pub fn defualt(max_gas: u8, base_points: u8) -> (p: Self)
        ensures
            p == (Params { gas: max_gas, refilling_in: 0, max_gas, base_points, active: true }),
    {
        Self { gas: max_gas, refilling_in: 0, max_gas, base_points, active: true }
    }
}

} // verus!
