//! The fee of the lottery and the sponsor's share of it.

use vstd::prelude::*;

verus! {

/// The fee a player pays, and the hundredths of it that go to the sponsor.
#[derive(Clone, Copy, Debug, PartialEq, Eq, Structural)]
pub struct FeePolicy {
    pub fee_amount_egld: u128,
    pub sponsor_reward_percent: u8,
}

impl FeePolicy {
    /// The sponsor's share never exceeds the fee.
    pub open spec fn wf(&self) -> bool {
        self.sponsor_reward_percent <= 100
    }
}

} // verus!
