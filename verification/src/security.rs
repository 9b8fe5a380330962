//! What the owner can do against abuse: disable an instance, bar an address.

use vstd::prelude::*;
use crate::action::Event;
use crate::address::Address;
use crate::context::{CallContext, ContractBase};
use crate::error::Error;
use crate::event::EventModule;
use crate::instance::{Instance, InstanceModule, InstanceState};
use crate::state::{lemma_open_count_kept, settled_kept, PrizeContract};

verus! {

impl PrizeContract {
    /// Whether `address` is barred.
    pub open spec fn spec_is_blacklisted(&self, address: Address) -> bool {
        self.address_blacklist@.contains(address)
    }

    /// Where `address` stands in the blacklist, if it is barred.
    fn blacklist_position(&self, address: Address) -> (at: Option<usize>)
        ensures
            match at {
                Some(i) => i < self.address_blacklist@.len() && self.address_blacklist@[i as int]
                    == address,
                None => !self.spec_is_blacklisted(address),
            },
    {
        let mut i: usize = 0;
        while i < self.address_blacklist.len()
            invariant
                i <= self.address_blacklist@.len(),
                forall|j: int| 0 <= j < i ==> self.address_blacklist@[j] != address,
            decreases self.address_blacklist@.len() - i,
        {
            if self.address_blacklist[i] == address {
                return Some(i);
            }
            i += 1;
        }
        None
    }

    /// Whether `address` is barred.
    #[verifier::when_used_as_spec(spec_is_blacklisted)]
    pub fn is_blacklisted(&self, address: Address) -> (barred: bool)
        ensures
            barred == self.spec_is_blacklisted(address),
    {
        self.blacklist_position(address).is_some()
    }
}

/// The endpoints against abuse.
pub trait SecurityModule: InstanceModule {
    /// Disables the instance numbered `iid`, or enables it again. The
    /// instance must still wait for its draw. Reserved to the owner.
    fn disable_instance(&mut self, ctx: &CallContext, iid: u32, disable_status: bool) -> (res:
        Result<(), Error>)
        requires
            old(self)@.wf(),
        ensures
            final(self)@.wf(),
            res == if !ctx.by_owner() {
                Err::<(), Error>(Error::OnlyOwner)
            } else {
                match old(self)@.spec_instance(iid) {
                    None => Err(Error::NoSuchInstance),
                    Some(inst) => if !inst.state.winner_info.address.is_zero() {
                        Err(Error::AlreadyDrawn)
                    } else if inst.state.disabled == disable_status {
                        Err(Error::AlreadyInDisableState)
                    } else {
                        Ok(())
                    },
                }
            },
            res is Err ==> final(self)@ == old(self)@,
            res is Ok ==> {
                let i = old(self)@.spec_index(iid);
                let inst = old(self)@.instances@[i];
                &&& final(self)@ == (PrizeContract {
                    instances: final(self)@.instances,
                    journal: final(self)@.journal,
                    ..old(self)@
                })
                &&& final(self)@.instances@ == old(self)@.instances@.update(
                    i,
                    Instance {
                        state: InstanceState { disabled: disable_status, ..inst.state },
                        ..inst
                    },
                )
                &&& final(self)@.journal@ == old(self)@.journal@ + old(self)@.logged(
                    Event::DisableInstance { epoch: ctx.block_epoch, iid, disable_status },
                )
            },
            settled_kept(old(self)@.instances@, final(self)@.instances@),
    ;

    /// Bars `address`. Reserved to the owner.
    fn add_addr_blacklist(&mut self, ctx: &CallContext, address: Address) -> (res: Result<(), Error>)
        requires
            old(self)@.wf(),
        ensures
            final(self)@.wf(),
            res == if !ctx.by_owner() {
                Err::<(), Error>(Error::OnlyOwner)
            } else if old(self)@.spec_is_blacklisted(address) {
                Err(Error::AlreadyBlacklisted)
            } else {
                Ok(())
            },
            res is Err ==> final(self)@ == old(self)@,
            res is Ok ==> final(self)@ == (PrizeContract {
                address_blacklist: final(self)@.address_blacklist,
                journal: final(self)@.journal,
                ..old(self)@
            }) && final(self)@.address_blacklist@ == old(self)@.address_blacklist@.push(address)
                && final(self)@.journal@ == old(self)@.journal@ + old(self)@.logged(
                Event::AddAddrBlacklist { epoch: ctx.block_epoch, address },
            ),
            res is Ok ==> final(self)@.spec_is_blacklisted(address),
    ;

    /// Admits `address` again. Reserved to the owner.
    fn rm_addr_blacklist(&mut self, ctx: &CallContext, address: Address) -> (res: Result<(), Error>)
        requires
            old(self)@.wf(),
        ensures
            final(self)@.wf(),
            res == if !ctx.by_owner() {
                Err::<(), Error>(Error::OnlyOwner)
            } else if !old(self)@.spec_is_blacklisted(address) {
                Err(Error::NotBlacklisted)
            } else {
                Ok(())
            },
            res is Err ==> final(self)@ == old(self)@,
            res is Ok ==> final(self)@ == (PrizeContract {
                address_blacklist: final(self)@.address_blacklist,
                journal: final(self)@.journal,
                ..old(self)@
            }) && final(self)@.address_blacklist@ == old(self)@.address_blacklist@.remove(
                old(self)@.address_blacklist@.index_of(address),
            ) && final(self)@.journal@ == old(self)@.journal@ + old(self)@.logged(
                Event::RmAddrBlacklist { epoch: ctx.block_epoch, address },
            ),
            res is Ok ==> !final(self)@.spec_is_blacklisted(address),
    ;

    /// The barred addresses, in the order in which they were barred.
    fn get_address_blacklist(&self) -> (addresses: Vec<Address>)
        ensures
            addresses@ == self@.address_blacklist@,
    ;
}

impl SecurityModule for PrizeContract {
    fn disable_instance(&mut self, ctx: &CallContext, iid: u32, disable_status: bool) -> (res:
        Result<(), Error>) {
        if !ctx.by_owner() {
            return Err(Error::OnlyOwner);
        }
        match self.find(iid) {
            None => Err(Error::NoSuchInstance),
            Some(i) => {
                if !self.instances[i].state.winner_info.address.is_zero() {
                    return Err(Error::AlreadyDrawn);
                }
                if self.instances[i].state.disabled != disable_status {
                    self.instances[i].state.disabled = disable_status;
                    proof {
                        let before = old(self).instances@;
                        let after = self.instances@;
                        assert(after == before.update(i as int, after[i as int]));
                        lemma_open_count_kept(before, i as int, after[i as int]);
                    }
                    self.event_wrapper_disable_instance(ctx.block_epoch, iid, disable_status);
                    Ok(())
                } else {
                    Err(Error::AlreadyInDisableState)
                }
            },
        }
    }

    fn add_addr_blacklist(&mut self, ctx: &CallContext, address: Address) -> (res: Result<(), Error>) {
        if !ctx.by_owner() {
            return Err(Error::OnlyOwner);
        }
        if self.is_blacklisted(address) {
            return Err(Error::AlreadyBlacklisted);
        }
        self.address_blacklist.push(address);
        proof {
            let before = old(self).address_blacklist@;
            let after = self.address_blacklist@;
            assert(after[before.len() as int] == address);
            assert forall|a: int, b: int| 0 <= a < after.len() && 0 <= b < after.len() && a
                != b implies after[a] != after[b] by {
                if a < before.len() && b < before.len() {
                } else if a < before.len() {
                    assert(before.contains(before[a]));
                } else if b < before.len() {
                    assert(before.contains(before[b]));
                }
            }
        }
        self.event_wrapper_add_addr_blacklist(ctx.block_epoch, &address);
        Ok(())
    }

    fn rm_addr_blacklist(&mut self, ctx: &CallContext, address: Address) -> (res: Result<(), Error>) {
        if !ctx.by_owner() {
            return Err(Error::OnlyOwner);
        }
        match self.blacklist_position(address) {
            None => Err(Error::NotBlacklisted),
            Some(i) => {
                self.address_blacklist.remove(i);
                proof {
                    let before = old(self).address_blacklist@;
                    let after = self.address_blacklist@;
                    assert(before.contains(address));
                    assert(before.index_of(address) == i);
                    assert forall|a: int, b: int| 0 <= a < after.len() && 0 <= b < after.len() && a
                        != b implies after[a] != after[b] by {
                        let a0 = if a < i { a } else { a + 1 };
                        let b0 = if b < i { b } else { b + 1 };
                        assert(after[a] == before[a0] && after[b] == before[b0]);
                    }
                    assert forall|a: int| 0 <= a < after.len() implies after[a] != address by {
                        let a0 = if a < i { a } else { a + 1 };
                        assert(after[a] == before[a0]);
                    }
                }
                self.event_wrapper_rm_addr_blacklist(ctx.block_epoch, &address);
                Ok(())
            },
        }
    }

    fn get_address_blacklist(&self) -> (addresses: Vec<Address>) {
        self.address_blacklist.clone()
    }
}

} // verus!
