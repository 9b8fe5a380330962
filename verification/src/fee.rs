//! Fees: what a player pays, and how a payment is split between the owner,
//! the sponsor of the instance and the referrer.

use vstd::prelude::*;
use crate::action::{Action, Event, Memo};
use crate::address::Address;
use crate::amount::{
    checked_credit, lemma_percent_of_nothing, lemma_two_shares_bounded, percent_of, spec_percent_of,
};
use crate::context::{CallContext, ContractBase};
use crate::error::Error;
use crate::event::EventModule;
use crate::state::PrizeContract;

verus! {

/// The fee a player pays, and the hundredths of it that go to the sponsor
/// and to the referrer.
#[derive(Clone, Copy, Debug, PartialEq, Eq, Structural)]
pub struct FeePolicy {
    pub fee_amount_egld: u128,
    pub sponsor_reward_percent: u8,
    pub link_reward_percent: u8,
}

impl FeePolicy {
    /// The two rewards together never exceed the fee.
    pub open spec fn wf(&self) -> bool {
        self.sponsor_reward_percent + self.link_reward_percent <= 100
    }
}

/// How one payment of fees is divided.
#[derive(Clone, Copy, Debug, PartialEq, Eq, Structural)]
pub struct FeeSplit {
    /// What the sponsor of the instance earns.
    pub sponsor: u128,
    /// What the referrer earns.
    pub link: u128,
    /// What is left for the owner.
    pub owner: u128,
}

/// The referrer's percentage for one payment: nothing without a referrer;
/// else the policy's percentage, cut down to what the sponsor's percentage
/// leaves of the hundred.
pub open spec fn spec_link_percent(policy_percent: u8, sponsor_percent: u8, referred: bool) -> u8 {
    if !referred {
        0
    } else if sponsor_percent + policy_percent > 100 {
        (100 - sponsor_percent) as u8
    } else {
        policy_percent
    }
}

/// The division of `fees`: each reward is its percentage of the fees,
/// rounded down, and the owner gets the rest.
pub open spec fn spec_split(fees: u128, sponsor_percent: u8, link_percent: u8) -> FeeSplit {
    FeeSplit {
        sponsor: spec_percent_of(fees, sponsor_percent) as u128,
        link: spec_percent_of(fees, link_percent) as u128,
        owner: (fees - spec_percent_of(fees, sponsor_percent) - spec_percent_of(
            fees,
            link_percent,
        )) as u128,
    }
}

/// Nothing is lost and nothing is made in a split: the three parts add up
/// to the fees.
pub proof fn lemma_split_conserves(fees: u128, sponsor_percent: u8, link_percent: u8)
    requires
        sponsor_percent + link_percent <= 100,
    ensures
        spec_split(fees, sponsor_percent, link_percent).sponsor + spec_split(
            fees,
            sponsor_percent,
            link_percent,
        ).link + spec_split(fees, sponsor_percent, link_percent).owner == fees,
        spec_split(fees, sponsor_percent, link_percent).sponsor == spec_percent_of(
            fees,
            sponsor_percent,
        ),
        spec_split(fees, sponsor_percent, link_percent).link == spec_percent_of(fees, link_percent),
{
    lemma_two_shares_bounded(fees, sponsor_percent, link_percent);
}

/// The referrer's percentage for one payment.
pub fn link_percent(policy_percent: u8, sponsor_percent: u8, referred: bool) -> (percent: u8)
    requires
        sponsor_percent <= 100,
        policy_percent <= 100,
    ensures
        percent == spec_link_percent(policy_percent, sponsor_percent, referred),
        sponsor_percent + percent <= 100,
{
    if !referred {
        0
    } else if sponsor_percent + policy_percent > 100 {
        100 - sponsor_percent
    } else {
        policy_percent
    }
}

/// Divides `fees` between the sponsor, the referrer and the owner.
pub fn split(fees: u128, sponsor_percent: u8, link_percent: u8) -> (parts: FeeSplit)
    requires
        sponsor_percent + link_percent <= 100,
    ensures
        parts == spec_split(fees, sponsor_percent, link_percent),
        parts.sponsor + parts.link + parts.owner == fees,
{
    proof {
        lemma_split_conserves(fees, sponsor_percent, link_percent);
    }
    let sponsor = percent_of(fees, sponsor_percent);
    let link = percent_of(fees, link_percent);
    FeeSplit { sponsor, link, owner: fees - sponsor - link }
}

impl PrizeContract {
    /// The referrer's percentage that applies now to a payment for an
    /// instance whose sponsor earns `sponsor_percent`.
    pub open spec fn spec_link_percent_now(&self, sponsor_percent: u8, referred: bool) -> u8 {
        match self.fee_policy {
            Some(policy) => spec_link_percent(
                policy.link_reward_percent,
                sponsor_percent,
                referred,
            ),
            None => 0,
        }
    }

    /// How a payment of `fees` is divided now.
    pub open spec fn spec_split_now(
        &self,
        fees: u128,
        sponsor_percent: u8,
        link_address: Option<Address>,
    ) -> FeeSplit {
        spec_split(
            fees,
            sponsor_percent,
            self.spec_link_percent_now(sponsor_percent, link_address is Some),
        )
    }

    /// What the referrer's pool would hold after a payment of `fees`, as a
    /// number that may exceed what the pool can hold.
    pub open spec fn spec_link_pool_after(
        &self,
        fees: u128,
        sponsor_percent: u8,
        link_address: Option<Address>,
    ) -> int {
        match link_address {
            Some(address) => self.link_reward_pool.spec_get_or(address, 0u128)
                + self.spec_split_now(fees, sponsor_percent, link_address).link,
            None => 0,
        }
    }

    /// What `update_fees_and_compute_rewards` answers.
    pub open spec fn spec_update_fees(
        &self,
        fees: u128,
        sponsor_percent: u8,
        link_address: Option<Address>,
    ) -> Result<u128, Error> {
        let parts = self.spec_split_now(fees, sponsor_percent, link_address);
        if fees == 0 {
            Ok(0u128)
        } else if link_address is Some && self.fee_policy is None {
            Err(Error::StorageDecode)
        } else if self.fee_pool + parts.owner > u128::MAX {
            Err(Error::Overflow)
        } else if self.spec_link_pool_after(fees, sponsor_percent, link_address) > u128::MAX {
            Err(Error::Overflow)
        } else {
            Ok(parts.sponsor)
        }
    }

    /// The referrers' pools after a payment of `fees` that was accepted.
    pub open spec fn spec_link_pools_credited(
        &self,
        fees: u128,
        sponsor_percent: u8,
        link_address: Option<Address>,
    ) -> Map<Address, u128> {
        let parts = self.spec_split_now(fees, sponsor_percent, link_address);
        match link_address {
            Some(address) => if parts.link > 0 {
                self.link_reward_pool@.insert(
                    address,
                    (self.link_reward_pool.spec_get_or(address, 0u128) + parts.link) as u128,
                )
            } else {
                self.link_reward_pool@
            },
            None => self.link_reward_pool@,
        }
    }
}

impl PrizeContract {
    /// How a payment of `fees` would be divided now, or why it would be
    /// refused. Changes nothing.
    pub fn quote_fees(&self, fees: u128, sponsor_reward_percent: u8, link_address: Option<Address>) -> (res:
        Result<FeeSplit, Error>)
        requires
            self.wf(),
            sponsor_reward_percent <= 100,
        ensures
            match res {
                Ok(parts) => self.spec_update_fees(fees, sponsor_reward_percent, link_address)
                    == Ok::<u128, Error>(parts.sponsor) && parts == self.spec_split_now(
                    fees,
                    sponsor_reward_percent,
                    link_address,
                ) && parts.sponsor + parts.link + parts.owner == fees,
                Err(e) => self.spec_update_fees(fees, sponsor_reward_percent, link_address)
                    == Err::<u128, Error>(e),
            },
    {
        if fees == 0 {
            proof {
                lemma_percent_of_nothing(sponsor_reward_percent);
                lemma_percent_of_nothing(
                    self.spec_link_percent_now(sponsor_reward_percent, link_address is Some),
                );
            }
            return Ok(FeeSplit { sponsor: 0, link: 0, owner: 0 });
        }
        let mut percent: u8 = 0;
        if link_address.is_some() {
            match self.fee_policy {
                Some(policy) => {
                    percent =
                    link_percent(policy.link_reward_percent, sponsor_reward_percent, true);
                },
                None => {
                    return Err(Error::StorageDecode);
                },
            }
        }
        let parts = split(fees, sponsor_reward_percent, percent);
        if checked_credit(self.fee_pool, parts.owner).is_none() {
            return Err(Error::Overflow);
        }
        match link_address {
            Some(address) => {
                let held: u128 = self.link_reward_pool.get_or(address, 0);
                if checked_credit(held, parts.link).is_none() {
                    return Err(Error::Overflow);
                }
            },
            None => {},
        }
        Ok(parts)
    }
}

/// The endpoints of the fee policy and of the pools that fees go to.
pub trait FeeModule: EventModule {
    /// Sets the fee and the two reward percentages. Reserved to the owner.
    fn set_fee_policy(
        &mut self,
        ctx: &CallContext,
        fee_amount_egld: u128,
        sponsor_reward_percent: u8,
        link_reward_percent: u8,
    ) -> (res: Result<(), Error>)
        requires
            old(self)@.wf(),
        ensures
            final(self)@.wf(),
            res == if !ctx.by_owner() {
                Err::<(), Error>(Error::OnlyOwner)
            } else if sponsor_reward_percent + link_reward_percent > 100 {
                Err(Error::WrongRewards)
            } else {
                Ok(())
            },
            res is Err ==> final(self)@ == old(self)@,
            res is Ok ==> final(self)@ == (PrizeContract {
                fee_policy: Some(
                    FeePolicy { fee_amount_egld, sponsor_reward_percent, link_reward_percent },
                ),
                journal: final(self)@.journal,
                ..old(self)@
            }) && final(self)@.journal@ == old(self)@.journal@ + old(self)@.logged(
                Event::SetFeePolicy {
                    epoch: ctx.block_epoch,
                    fee_amount_egld,
                    sponsor_reward_percent,
                    link_reward_percent,
                },
            ),
    ;

    /// Pays the whole fee pool to the owner. Reserved to the owner.
    fn claim_fees(&mut self, ctx: &CallContext) -> (res: Result<(), Error>)
        requires
            old(self)@.wf(),
        ensures
            final(self)@.wf(),
            res == if !ctx.by_owner() {
                Err::<(), Error>(Error::OnlyOwner)
            } else if old(self)@.fee_pool == 0 {
                Err(Error::NoFees)
            } else {
                Ok(())
            },
            res is Err ==> final(self)@ == old(self)@,
            res is Ok ==> final(self)@ == (PrizeContract {
                fee_pool: 0,
                journal: final(self)@.journal,
                ..old(self)@
            }) && final(self)@.journal@ == old(self)@.journal@.push(
                Action::DirectEgld {
                    to: ctx.owner,
                    amount: old(self)@.fee_pool,
                    memo: Memo::FeesClaimed,
                },
            ) + old(self)@.logged(
                Event::ClaimFees { epoch: ctx.block_epoch, fee_amount: old(self)@.fee_pool },
            ),
    ;

    /// Pays the caller the referral rewards it has earned.
    fn claim_link_rewards(&mut self, ctx: &CallContext) -> (res: Result<(), Error>)
        requires
            old(self)@.wf(),
        ensures
            final(self)@.wf(),
            res == if old(self)@.link_reward_pool.spec_get_or(ctx.caller, 0u128) == 0 {
                Err::<(), Error>(Error::NoRewards)
            } else {
                Ok(())
            },
            res is Err ==> final(self)@ == old(self)@,
            res is Ok ==> final(self)@ == (PrizeContract {
                link_reward_pool: final(self)@.link_reward_pool,
                journal: final(self)@.journal,
                ..old(self)@
            }) && final(self)@.link_reward_pool@ == old(self)@.link_reward_pool@.insert(
                ctx.caller,
                0u128,
            ) && final(self)@.journal@ == old(self)@.journal@.push(
                Action::DirectEgld {
                    to: ctx.caller,
                    amount: old(self)@.link_reward_pool.spec_get_or(ctx.caller, 0u128),
                    memo: Memo::LinkRewardsClaimed,
                },
            ) + old(self)@.logged(
                Event::ClaimLinkRewards {
                    epoch: ctx.block_epoch,
                    reward_amount: old(self)@.link_reward_pool.spec_get_or(ctx.caller, 0u128),
                    link_address: ctx.caller,
                },
            ),
    ;

    /// The fee and the sponsor's and the referrer's percentages.
    fn get_fee_policy(&self) -> (res: Result<(u128, u8, u8), Error>)
        ensures
            res == match self@.fee_policy {
                Some(policy) => Ok::<(u128, u8, u8), Error>(
                    (
                        policy.fee_amount_egld,
                        policy.sponsor_reward_percent,
                        policy.link_reward_percent,
                    ),
                ),
                None => Err(Error::StorageDecode),
            },
    ;

    /// The fees collected for the owner and not yet paid out.
    fn get_fee_pool(&self) -> (pool: u128)
        ensures
            pool == self@.fee_pool,
    ;

    /// The referral rewards that `link_address` has earned and not yet
    /// claimed.
    fn get_link_reward_pool(&self, link_address: Address) -> (pool: u128)
        requires
            self@.wf(),
        ensures
            pool == self@.link_reward_pool.spec_get_or(link_address, 0u128),
    ;

    /// Stores the given policy unless one is stored already. The fee pool
    /// starts at zero by itself.
    fn init_fees_if_empty(
        &mut self,
        fee_amount_egld: u128,
        sponsor_reward_percent: u8,
        link_reward_percent: u8,
    )
        requires
            old(self)@.wf(),
            sponsor_reward_percent + link_reward_percent <= 100,
        ensures
            final(self)@.wf(),
            final(self)@ == (PrizeContract {
                fee_policy: match old(self)@.fee_policy {
                    Some(policy) => Some(policy),
                    None => Some(
                        FeePolicy { fee_amount_egld, sponsor_reward_percent, link_reward_percent },
                    ),
                },
                ..old(self)@
            }),
    ;

    /// Divides a payment of `fees` for an instance whose sponsor earns
    /// `sponsor_reward_percent`: credits the owner's and the referrer's
    /// pools, and answers the sponsor's part.
    fn update_fees_and_compute_rewards(
        &mut self,
        epoch: u64,
        fees: u128,
        sponsor_reward_percent: u8,
        link_address: Option<Address>,
    ) -> (res: Result<u128, Error>)
        requires
            old(self)@.wf(),
            sponsor_reward_percent <= 100,
        ensures
            final(self)@.wf(),
            res == old(self)@.spec_update_fees(fees, sponsor_reward_percent, link_address),
            res is Err || fees == 0 ==> final(self)@ == old(self)@,
            res is Ok && fees != 0 ==> final(self)@ == (PrizeContract {
                fee_pool: (old(self)@.fee_pool + old(self)@.spec_split_now(
                    fees,
                    sponsor_reward_percent,
                    link_address,
                ).owner) as u128,
                link_reward_pool: final(self)@.link_reward_pool,
                journal: final(self)@.journal,
                ..old(self)@
            }) && final(self)@.link_reward_pool@ == old(self)@.spec_link_pools_credited(
                fees,
                sponsor_reward_percent,
                link_address,
            ) && final(self)@.journal@ == old(self)@.journal@ + old(self)@.logged(
                Event::FeePoolInfo { epoch, fees: final(self)@.fee_pool },
            ),
    ;
}

impl FeeModule for PrizeContract {
    fn set_fee_policy(
        &mut self,
        ctx: &CallContext,
        fee_amount_egld: u128,
        sponsor_reward_percent: u8,
        link_reward_percent: u8,
    ) -> (res: Result<(), Error>) {
        if !ctx.by_owner() {
            return Err(Error::OnlyOwner);
        }
        if sponsor_reward_percent > 100 || link_reward_percent > 100 - sponsor_reward_percent {
            return Err(Error::WrongRewards);
        }
        self.fee_policy = Some(
            FeePolicy { fee_amount_egld, sponsor_reward_percent, link_reward_percent },
        );
        self.event_wrapper_set_fee_policy(
            ctx.block_epoch,
            fee_amount_egld,
            sponsor_reward_percent,
            link_reward_percent,
        );
        Ok(())
    }

    fn claim_fees(&mut self, ctx: &CallContext) -> (res: Result<(), Error>) {
        if !ctx.by_owner() {
            return Err(Error::OnlyOwner);
        }
        let fee_amount: u128 = self.fee_pool;
        if fee_amount == 0 {
            return Err(Error::NoFees);
        }
        self.enqueue(
            Action::DirectEgld { to: ctx.owner, amount: fee_amount, memo: Memo::FeesClaimed },
        );
        self.fee_pool = 0;
        self.event_wrapper_claim_fees(ctx.block_epoch, fee_amount);
        Ok(())
    }

    fn claim_link_rewards(&mut self, ctx: &CallContext) -> (res: Result<(), Error>) {
        let caller = ctx.caller;
        let reward_amount: u128 = self.link_reward_pool.get_or(caller, 0);
        if reward_amount == 0 {
            return Err(Error::NoRewards);
        }
        self.enqueue(
            Action::DirectEgld { to: caller, amount: reward_amount, memo: Memo::LinkRewardsClaimed },
        );
        self.link_reward_pool.set(caller, 0);
        self.event_wrapper_claim_link_rewards(ctx.block_epoch, reward_amount, &caller);
        Ok(())
    }

    fn get_fee_policy(&self) -> (res: Result<(u128, u8, u8), Error>) {
        match self.fee_policy {
            Some(policy) => Ok(
                (
                    policy.fee_amount_egld,
                    policy.sponsor_reward_percent,
                    policy.link_reward_percent,
                ),
            ),
            None => Err(Error::StorageDecode),
        }
    }

    fn get_fee_pool(&self) -> (pool: u128) {
        self.fee_pool
    }

    fn get_link_reward_pool(&self, link_address: Address) -> (pool: u128) {
        self.link_reward_pool.get_or(link_address, 0)
    }

    fn init_fees_if_empty(
        &mut self,
        fee_amount_egld: u128,
        sponsor_reward_percent: u8,
        link_reward_percent: u8,
    ) {
        if self.fee_policy.is_none() {
            self.fee_policy = Some(
                FeePolicy { fee_amount_egld, sponsor_reward_percent, link_reward_percent },
            );
        }
    }

    fn update_fees_and_compute_rewards(
        &mut self,
        epoch: u64,
        fees: u128,
        sponsor_reward_percent: u8,
        link_address: Option<Address>,
    ) -> (res: Result<u128, Error>) {
        if fees == 0 {
            return Ok(0);
        }
        let parts = match self.quote_fees(fees, sponsor_reward_percent, link_address) {
            Ok(parts) => parts,
            Err(e) => {
                return Err(e);
            },
        };
        match link_address {
            Some(address) => {
                if parts.link > 0 {
                    let held: u128 = self.link_reward_pool.get_or(address, 0);
                    self.link_reward_pool.set(address, held + parts.link);
                }
            },
            None => {},
        }
        self.fee_pool = self.fee_pool + parts.owner;
        self.event_wrapper_fee_pool_info(epoch, self.fee_pool);
        Ok(parts.sponsor)
    }
}

} // verus!
