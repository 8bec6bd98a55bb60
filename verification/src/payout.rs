//! The payout contract.

use vstd::prelude::*;

verus! {

/// The payout contract. It holds no state.
pub struct PayoutContract;

impl PayoutContract {
    /// Liveness probe: returns a fixed value so that callers can check that the
    /// contract answers. Open to any caller.
    pub fn hello() -> (r: u32)
        ensures
            r == 789,
    {
        789
    }
}

} // verus!
