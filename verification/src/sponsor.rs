//! The instances of each sponsor.

use vstd::prelude::*;
use crate::context::ContractBase;
use crate::address::Address;
use crate::instance::{Instance, InstanceModule, InstanceStatus};
use crate::registry::{iids_where, lemma_iids_where_ends, lemma_iids_where_step};
use crate::state::{PrizeContract};

verus! {

/// The test "`sponsor` funds the instance".
pub open spec fn sponsored_by(sponsor: Address) -> spec_fn(Instance) -> bool {
    |inst: Instance| inst.info.sponsor_info.address == sponsor
}

/// The test "`sponsor` funds the instance, and it is running at time `now`".
pub open spec fn run_by(now: u64, sponsor: Address) -> spec_fn(Instance) -> bool {
    |inst: Instance|
        inst.info.sponsor_info.address == sponsor && inst.spec_status(now)
            == InstanceStatus::Running
}

/// The endpoints over the instances of a sponsor.
pub trait SponsorModule: InstanceModule {
    /// The numbers of the instances that `sponsor_address` funds, by
    /// increasing number.
    fn get_sponsor_instances(&self, sponsor_address: Address) -> (iids: Vec<u32>)
        requires
            self@.wf(),
        ensures
            iids@ == iids_where(self@.instances@, sponsored_by(sponsor_address)),
    ;

    /// How many instances of `sponsor_address` are running at time `now`.
    fn get_nb_sponsor_running(&self, now: u64, sponsor_address: Address) -> (count: u32)
        requires
            self@.wf(),
        ensures
            count == iids_where(self@.instances@, run_by(now, sponsor_address)).len(),
    ;
}

impl SponsorModule for PrizeContract {
    fn get_sponsor_instances(&self, sponsor_address: Address) -> (iids: Vec<u32>) {
        let mut sponsor_iids: Vec<u32> = Vec::new();
        let mut i: usize = 0;
        proof {
            lemma_iids_where_ends(self.instances@, sponsored_by(sponsor_address));
        }
        while i < self.instances.len()
            invariant
                i <= self.instances@.len(),
                sponsor_iids@ == iids_where(
                    self.instances@.take(i as int),
                    sponsored_by(sponsor_address),
                ),
            decreases self.instances@.len() - i,
        {
            proof {
                lemma_iids_where_step(self.instances@, sponsored_by(sponsor_address), i as int);
            }
            if self.instances[i].info.sponsor_info.address == sponsor_address {
                sponsor_iids.push(self.instances[i].iid);
            }
            i += 1;
        }
        sponsor_iids
    }

    fn get_nb_sponsor_running(&self, now: u64, sponsor_address: Address) -> (count: u32) {
        proof {
            self.lemma_instances_counted();
            lemma_iids_where_ends(self.instances@, run_by(now, sponsor_address));
        }
        let mut nb_instances: u32 = 0;
        let mut i: usize = 0;
        while i < self.instances.len()
            invariant
                i <= self.instances@.len(),
                self.instances@.len() <= u32::MAX,
                nb_instances == iids_where(
                    self.instances@.take(i as int),
                    run_by(now, sponsor_address),
                ).len(),
                nb_instances <= i,
            decreases self.instances@.len() - i,
        {
            proof {
                lemma_iids_where_step(self.instances@, run_by(now, sponsor_address), i as int);
            }
            if self.instances[i].info.sponsor_info.address == sponsor_address
                && self.instances[i].status(now) == InstanceStatus::Running {
                nb_instances += 1;
            }
            i += 1;
        }
        nb_instances
    }
}

} // verus!
