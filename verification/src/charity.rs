//! The charity pool: sponsor rewards of charity instances, kept for the
//! owner to pass on.

use vstd::prelude::*;
use crate::action::{Action, Event, Memo};
use crate::context::{CallContext, ContractBase};
use crate::error::Error;
use crate::event::EventModule;
use crate::state::PrizeContract;

verus! {

/// The endpoints of the charity pool.
pub trait CharityModule: EventModule {
    /// Pays the whole charity pool to the owner. Reserved to the owner.
    fn claim_donations(&mut self, ctx: &CallContext) -> (res: Result<(), Error>)
        requires
            old(self)@.wf(),
        ensures
            final(self)@.wf(),
            res == if !ctx.by_owner() {
                Err::<(), Error>(Error::OnlyOwner)
            } else if old(self)@.charity_pool == 0 {
                Err(Error::NoDonation)
            } else {
                Ok(())
            },
            res is Err ==> final(self)@ == old(self)@,
            res is Ok ==> final(self)@ == (PrizeContract {
                charity_pool: 0,
                journal: final(self)@.journal,
                ..old(self)@
            }) && final(self)@.journal@ == old(self)@.journal@.push(
                Action::DirectEgld {
                    to: ctx.owner,
                    amount: old(self)@.charity_pool,
                    memo: Memo::DonationsClaimed,
                },
            ) + old(self)@.logged(
                Event::ClaimDonations {
                    epoch: ctx.block_epoch,
                    donations_amount: old(self)@.charity_pool,
                },
            ),
    ;

    /// The donations collected and not yet paid out.
    fn get_charity_pool(&self) -> (pool: u128)
        ensures
            pool == self@.charity_pool,
    ;

    /// Gives the charity pool its first value, zero, unless it has one.
    fn init_donations_if_empty(&mut self)
        ensures
            old(self)@.wf() ==> final(self)@.wf(),
            final(self)@ == old(self)@,
    ;
}

impl CharityModule for PrizeContract {
    fn claim_donations(&mut self, ctx: &CallContext) -> (res: Result<(), Error>) {
        if !ctx.by_owner() {
            return Err(Error::OnlyOwner);
        }
        if self.charity_pool == 0 {
            return Err(Error::NoDonation);
        }
        let donations_amount: u128 = self.charity_pool;
        self.enqueue(
            Action::DirectEgld {
                to: ctx.owner,
                amount: donations_amount,
                memo: Memo::DonationsClaimed,
            },
        );
        self.charity_pool = 0;
        self.event_wrapper_claim_donations(ctx.block_epoch, donations_amount);
        Ok(())
    }

    fn get_charity_pool(&self) -> (pool: u128) {
        self.charity_pool
    }

    fn init_donations_if_empty(&mut self) {
    }
}

} // verus!
