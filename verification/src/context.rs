//! What a contract learns from its host about the call being served.

use vstd::prelude::*;
use crate::address::Address;

verus! {

/// The facts of one call: who sent it, who owns the contract, and the block
/// the call runs in.
#[derive(Clone, Copy, Debug, PartialEq, Eq, Structural)]
pub struct CallContext {
    pub caller: Address,
    pub owner: Address,
    pub block_timestamp: u64,
    pub block_epoch: u64,
}

impl CallContext {
    /// A call is always sent by somebody: the reserved zero address never
    /// calls.
    pub open spec fn wf(&self) -> bool {
        !self.caller.is_zero()
    }

    /// Whether the caller is the contract's owner.
    pub open spec fn spec_by_owner(&self) -> bool {
        self.caller == self.owner
    }

    /// Builds the context of a call, or nothing when `caller` is the zero
    /// address.
    pub fn new(caller: Address, owner: Address, block_timestamp: u64, block_epoch: u64) -> (ctx:
        Option<CallContext>)
        ensures
            ctx == if caller.is_zero() {
                None
            } else {
                Some(CallContext { caller, owner, block_timestamp, block_epoch })
            },
            ctx is Some ==> ctx->0.wf(),
    {
        if caller.is_zero() {
            None
        } else {
            Some(CallContext { caller, owner, block_timestamp, block_epoch })
        }
    }

    /// Whether the caller is the contract's owner.
    #[verifier::when_used_as_spec(spec_by_owner)]
    pub fn by_owner(&self) -> (yes: bool)
        ensures
            yes == self.spec_by_owner(),
    {
        self.caller == self.owner
    }
}

/// What the stored states of all contracts share: a notion of which of them
/// are valid. Endpoints expect a valid state and leave one behind.
pub trait ContractBase {
    /// Whether the stored state satisfies the contract's invariant.
    spec fn wf(&self) -> bool;
}

} // verus!
