//! The gold ledger.

use vstd::prelude::*;

verus! {

/// The gold a new city starts with.
pub const STARTING_GOLD: i32 = 1000;

/// What the city owns. Gold may be negative: wages are paid whether or not the
/// city can afford them.
#[derive(Debug, Clone, Copy, PartialEq, Eq, Structural)]
pub struct GlobalResources {
    pub gold: i32,
}

impl Default for GlobalResources {
    fn default() -> (r: GlobalResources)
        ensures
            r.gold == STARTING_GOLD,
    {
        GlobalResources { gold: STARTING_GOLD }
    }
}

} // verus!
