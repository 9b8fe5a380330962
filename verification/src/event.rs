//! The log of the prize contract: one entry for each thing that happens,
//! written only while logging is switched on.

use vstd::prelude::*;
use crate::action::{journal_extended, Event};
use crate::address::Address;
use crate::context::{CallContext, ContractBase};
use crate::error::Error;
use crate::state::PrizeContract;

verus! {

/// The log switch, and one function for each kind of entry.
pub trait EventModule: View<V = PrizeContract> {
    /// Switches logging on or off. Reserved to the owner.
    fn set_log_enable_status(&mut self, ctx: &CallContext, enable: bool) -> (res: Result<(), Error>)
        requires
            old(self)@.wf(),
        ensures
            final(self)@.wf(),
            !ctx.by_owner() ==> res == Err::<(), Error>(Error::OnlyOwner) && final(self)@ == old(self)@,
            ctx.by_owner() ==> res == Ok::<(), Error>(()) && final(self)@ == (PrizeContract {
                log_enable: enable,
                ..old(self)@
            }),
    ;

    /// Whether logging is switched on.
    fn get_log_enable_status(&self) -> (enabled: bool)
        ensures
            enabled == self@.log_enable,
    ;

    /// Logs the creation of an instance, if logging is switched on.
    fn event_wrapper_create_instance(
        &mut self,
        epoch: u64,
        sponsor_address: &Address,
        iid: u32,
        token_identifier: &Vec<u8>,
        token_nonce: u64,
        token_amount: u128,
        duration_in_s: u64,
        pseudo: &Vec<u8>,
    )
        ensures
            old(self)@.wf() ==> final(self)@.wf(),
            final(self)@ == (PrizeContract { journal: final(self)@.journal, ..old(self)@ }),
            journal_extended(
                old(self)@.journal@,
                final(self)@.journal@,
                old(self)@.logged(
                    Event::CreateInstance {
                        epoch,
                        sponsor_address: *sponsor_address,
                        iid,
                        token_identifier: *token_identifier,
                        token_nonce,
                        token_amount,
                        duration_in_s,
                        pseudo: *pseudo,
                    },
                ),
            ),
    ;

    /// Logs a ticket sold, if logging is switched on.
    fn event_wrapper_play(
        &mut self,
        epoch: u64,
        player_address: &Address,
        iid: u32,
        ticket_number: usize,
        fees: u128,
    )
        ensures
            old(self)@.wf() ==> final(self)@.wf(),
            final(self)@ == (PrizeContract { journal: final(self)@.journal, ..old(self)@ }),
            final(self)@.journal@ == old(self)@.journal@ + old(self)@.logged(
                Event::Play { epoch, player_address: *player_address, iid, ticket_number, fees },
            ),
    ;

    /// Logs the draw of an instance, if logging is switched on.
    fn event_wrapper_trigger(
        &mut self,
        epoch: u64,
        iid: u32,
        ticket_number: usize,
        winner_address: &Address,
    )
        ensures
            old(self)@.wf() ==> final(self)@.wf(),
            final(self)@ == (PrizeContract { journal: final(self)@.journal, ..old(self)@ }),
            final(self)@.journal@ == old(self)@.journal@ + old(self)@.logged(
                Event::Trigger { epoch, iid, ticket_number, winner_address: *winner_address },
            ),
    ;

    /// Logs the owner's fee pool after a payment, if logging is switched on.
    fn event_wrapper_fee_pool_info(&mut self, epoch: u64, fees: u128)
        ensures
            old(self)@.wf() ==> final(self)@.wf(),
            final(self)@ == (PrizeContract { journal: final(self)@.journal, ..old(self)@ }),
            final(self)@.journal@ == old(self)@.journal@ + old(self)@.logged(
                Event::FeePoolInfo { epoch, fees },
            ),
    ;

    /// Logs the reward pool of an instance after a payment, if logging is switched on.
    fn event_wrapper_reward_pool_info(&mut self, epoch: u64, iid: u32, reward_pool: u128)
        ensures
            old(self)@.wf() ==> final(self)@.wf(),
            final(self)@ == (PrizeContract { journal: final(self)@.journal, ..old(self)@ }),
            final(self)@.journal@ == old(self)@.journal@ + old(self)@.logged(
                Event::RewardPoolInfo { epoch, iid, reward_pool },
            ),
    ;

    /// Logs the rewards paid to a sponsor, if logging is switched on.
    fn event_wrapper_send_rewards(&mut self, epoch: u64, iid: u32, rewards: u128)
        ensures
            old(self)@.wf() ==> final(self)@.wf(),
            final(self)@ == (PrizeContract { journal: final(self)@.journal, ..old(self)@ }),
            final(self)@.journal@ == old(self)@.journal@ + old(self)@.logged(
                Event::SendRewards { epoch, iid, rewards },
            ),
    ;

    /// Logs a prize paid at the draw, if logging is switched on.
    fn event_wrapper_auto_claim_prize(&mut self, epoch: u64, iid: u32)
        ensures
            old(self)@.wf() ==> final(self)@.wf(),
            final(self)@ == (PrizeContract { journal: final(self)@.journal, ..old(self)@ }),
            final(self)@.journal@ == old(self)@.journal@ + old(self)@.logged(
                Event::AutoClaimPrize { epoch, iid },
            ),
    ;

    /// Logs the fees paid out to the owner, if logging is switched on.
    fn event_wrapper_claim_fees(&mut self, epoch: u64, fee_amount: u128)
        ensures
            old(self)@.wf() ==> final(self)@.wf(),
            final(self)@ == (PrizeContract { journal: final(self)@.journal, ..old(self)@ }),
            final(self)@.journal@ == old(self)@.journal@ + old(self)@.logged(
                Event::ClaimFees { epoch, fee_amount },
            ),
    ;

    /// Logs the rewards paid out to a referrer, if logging is switched on.
    fn event_wrapper_claim_link_rewards(
        &mut self,
        epoch: u64,
        reward_amount: u128,
        link_address: &Address,
    )
        ensures
            old(self)@.wf() ==> final(self)@.wf(),
            final(self)@ == (PrizeContract { journal: final(self)@.journal, ..old(self)@ }),
            final(self)@.journal@ == old(self)@.journal@ + old(self)@.logged(
                Event::ClaimLinkRewards { epoch, reward_amount, link_address: *link_address },
            ),
    ;

    /// Logs the donations paid out to the owner, if logging is switched on.
    fn event_wrapper_claim_donations(&mut self, epoch: u64, donations_amount: u128)
        ensures
            old(self)@.wf() ==> final(self)@.wf(),
            final(self)@ == (PrizeContract { journal: final(self)@.journal, ..old(self)@ }),
            final(self)@.journal@ == old(self)@.journal@ + old(self)@.logged(
                Event::ClaimDonations { epoch, donations_amount },
            ),
    ;

    /// Logs a prize claimed by its winner, if logging is switched on.
    fn event_wrapper_manual_claim_prize(&mut self, epoch: u64, iid: u32)
        ensures
            old(self)@.wf() ==> final(self)@.wf(),
            final(self)@ == (PrizeContract { journal: final(self)@.journal, ..old(self)@ }),
            final(self)@.journal@ == old(self)@.journal@ + old(self)@.logged(
                Event::ManualClaimPrize { epoch, iid },
            ),
    ;

    /// Logs the removal of a claimed instance, if logging is switched on.
    fn event_wrapper_clean_claim(&mut self, epoch: u64, iid: u32)
        ensures
            old(self)@.wf() ==> final(self)@.wf(),
            final(self)@ == (PrizeContract { journal: final(self)@.journal, ..old(self)@ }),
            final(self)@.journal@ == old(self)@.journal@ + old(self)@.logged(
                Event::CleanClaim { epoch, iid },
            ),
    ;

    /// Logs a change of an instance's premium flag, if logging is switched on.
    fn event_wrapper_set_premium(&mut self, epoch: u64, iid: u32, premium_status: bool)
        ensures
            old(self)@.wf() ==> final(self)@.wf(),
            final(self)@ == (PrizeContract { journal: final(self)@.journal, ..old(self)@ }),
            final(self)@.journal@ == old(self)@.journal@ + old(self)@.logged(
                Event::SetPremium { epoch, iid, premium_status },
            ),
    ;

    /// Logs an instance disabled or enabled again, if logging is switched on.
    fn event_wrapper_disable_instance(&mut self, epoch: u64, iid: u32, disable_status: bool)
        ensures
            old(self)@.wf() ==> final(self)@.wf(),
            final(self)@ == (PrizeContract { journal: final(self)@.journal, ..old(self)@ }),
            final(self)@.journal@ == old(self)@.journal@ + old(self)@.logged(
                Event::DisableInstance { epoch, iid, disable_status },
            ),
    ;

    /// Logs a new fee policy, if logging is switched on.
    fn event_wrapper_set_fee_policy(
        &mut self,
        epoch: u64,
        fee_amount_egld: u128,
        sponsor_reward_percent: u8,
        link_reward_percent: u8,
    )
        ensures
            old(self)@.wf() ==> final(self)@.wf(),
            final(self)@ == (PrizeContract { journal: final(self)@.journal, ..old(self)@ }),
            final(self)@.journal@ == old(self)@.journal@ + old(self)@.logged(
                Event::SetFeePolicy { epoch, fee_amount_egld, sponsor_reward_percent, link_reward_percent },
            ),
    ;

    /// Logs new bounds on an instance's duration, if logging is switched on.
    fn event_wrapper_set_param_duration(&mut self, epoch: u64, duration_min: u64, duration_max: u64)
        ensures
            old(self)@.wf() ==> final(self)@.wf(),
            final(self)@ == (PrizeContract { journal: final(self)@.journal, ..old(self)@ }),
            final(self)@.journal@ == old(self)@.journal@ + old(self)@.logged(
                Event::SetParamDuration { epoch, duration_min, duration_max },
            ),
    ;

    /// Logs a new bound on the length of a sponsor's texts, if logging is switched on.
    fn event_wrapper_set_param_sponsor_info_max_length(&mut self, epoch: u64, length_max: u32)
        ensures
            old(self)@.wf() ==> final(self)@.wf(),
            final(self)@ == (PrizeContract { journal: final(self)@.journal, ..old(self)@ }),
            final(self)@.journal@ == old(self)@.journal@ + old(self)@.logged(
                Event::SetParamSponsorInfoMaxLength { epoch, length_max },
            ),
    ;

    /// Logs a new bound on a sponsor's open instances, if logging is switched on.
    fn event_wrapper_set_param_nb_max_instances_per_sponsor(
        &mut self,
        epoch: u64,
        nb_instances_max: u32,
    )
        ensures
            old(self)@.wf() ==> final(self)@.wf(),
            final(self)@ == (PrizeContract { journal: final(self)@.journal, ..old(self)@ }),
            final(self)@.journal@ == old(self)@.journal@ + old(self)@.logged(
                Event::SetParamNbMaxInstancesPerSponsor { epoch, nb_instances_max },
            ),
    ;

    /// Logs a change of how prizes are handed out, if logging is switched on.
    fn event_wrapper_set_param_manual_claim(&mut self, epoch: u64, manual_claim: bool)
        ensures
            old(self)@.wf() ==> final(self)@.wf(),
            final(self)@ == (PrizeContract { journal: final(self)@.journal, ..old(self)@ }),
            final(self)@.journal@ == old(self)@.journal@ + old(self)@.logged(
                Event::SetParamManualClaim { epoch, manual_claim },
            ),
    ;

    /// Logs an address barred, if logging is switched on.
    fn event_wrapper_add_addr_blacklist(&mut self, epoch: u64, address: &Address)
        ensures
            old(self)@.wf() ==> final(self)@.wf(),
            final(self)@ == (PrizeContract { journal: final(self)@.journal, ..old(self)@ }),
            final(self)@.journal@ == old(self)@.journal@ + old(self)@.logged(
                Event::AddAddrBlacklist { epoch, address: *address },
            ),
    ;

    /// Logs an address admitted again, if logging is switched on.
    fn event_wrapper_rm_addr_blacklist(&mut self, epoch: u64, address: &Address)
        ensures
            old(self)@.wf() ==> final(self)@.wf(),
            final(self)@ == (PrizeContract { journal: final(self)@.journal, ..old(self)@ }),
            final(self)@.journal@ == old(self)@.journal@ + old(self)@.logged(
                Event::RmAddrBlacklist { epoch, address: *address },
            ),
    ;
}

impl EventModule for PrizeContract {
    fn set_log_enable_status(&mut self, ctx: &CallContext, enable: bool) -> (res: Result<(), Error>) {
        if !ctx.by_owner() {
            return Err(Error::OnlyOwner);
        }
        self.log_enable = enable;
        Ok(())
    }

    fn get_log_enable_status(&self) -> (enabled: bool) {
        self.log_enable
    }

    fn event_wrapper_create_instance(
        &mut self,
        epoch: u64,
        sponsor_address: &Address,
        iid: u32,
        token_identifier: &Vec<u8>,
        token_nonce: u64,
        token_amount: u128,
        duration_in_s: u64,
        pseudo: &Vec<u8>,
    ) {
        let event = Event::CreateInstance {
            epoch,
            sponsor_address: *sponsor_address,
            iid,
            token_identifier: token_identifier.clone(),
            token_nonce,
            token_amount,
            duration_in_s,
            pseudo: pseudo.clone(),
        };
        self.log(event);
        proof {
            let before = old(self).journal@;
            assert(self.journal@.subrange(0, before.len() as int) =~= before);
        }
    }

    fn event_wrapper_play(
        &mut self,
        epoch: u64,
        player_address: &Address,
        iid: u32,
        ticket_number: usize,
        fees: u128,
    ) {
        self.log(Event::Play { epoch, player_address: *player_address, iid, ticket_number, fees });
    }

    fn event_wrapper_trigger(
        &mut self,
        epoch: u64,
        iid: u32,
        ticket_number: usize,
        winner_address: &Address,
    ) {
        self.log(Event::Trigger { epoch, iid, ticket_number, winner_address: *winner_address });
    }

    fn event_wrapper_fee_pool_info(&mut self, epoch: u64, fees: u128) {
        self.log(Event::FeePoolInfo { epoch, fees });
    }

    fn event_wrapper_reward_pool_info(&mut self, epoch: u64, iid: u32, reward_pool: u128) {
        self.log(Event::RewardPoolInfo { epoch, iid, reward_pool });
    }

    fn event_wrapper_send_rewards(&mut self, epoch: u64, iid: u32, rewards: u128) {
        self.log(Event::SendRewards { epoch, iid, rewards });
    }

    fn event_wrapper_auto_claim_prize(&mut self, epoch: u64, iid: u32) {
        self.log(Event::AutoClaimPrize { epoch, iid });
    }

    fn event_wrapper_claim_fees(&mut self, epoch: u64, fee_amount: u128) {
        self.log(Event::ClaimFees { epoch, fee_amount });
    }

    fn event_wrapper_claim_link_rewards(
        &mut self,
        epoch: u64,
        reward_amount: u128,
        link_address: &Address,
    ) {
        self.log(Event::ClaimLinkRewards { epoch, reward_amount, link_address: *link_address });
    }

    fn event_wrapper_claim_donations(&mut self, epoch: u64, donations_amount: u128) {
        self.log(Event::ClaimDonations { epoch, donations_amount });
    }

    fn event_wrapper_manual_claim_prize(&mut self, epoch: u64, iid: u32) {
        self.log(Event::ManualClaimPrize { epoch, iid });
    }

    fn event_wrapper_clean_claim(&mut self, epoch: u64, iid: u32) {
        self.log(Event::CleanClaim { epoch, iid });
    }

    fn event_wrapper_set_premium(&mut self, epoch: u64, iid: u32, premium_status: bool) {
        self.log(Event::SetPremium { epoch, iid, premium_status });
    }

    fn event_wrapper_disable_instance(&mut self, epoch: u64, iid: u32, disable_status: bool) {
        self.log(Event::DisableInstance { epoch, iid, disable_status });
    }

    fn event_wrapper_set_fee_policy(
        &mut self,
        epoch: u64,
        fee_amount_egld: u128,
        sponsor_reward_percent: u8,
        link_reward_percent: u8,
    ) {
        self.log(Event::SetFeePolicy { epoch, fee_amount_egld, sponsor_reward_percent, link_reward_percent });
    }

    fn event_wrapper_set_param_duration(
        &mut self,
        epoch: u64,
        duration_min: u64,
        duration_max: u64,
    ) {
        self.log(Event::SetParamDuration { epoch, duration_min, duration_max });
    }

    fn event_wrapper_set_param_sponsor_info_max_length(&mut self, epoch: u64, length_max: u32) {
        self.log(Event::SetParamSponsorInfoMaxLength { epoch, length_max });
    }

    fn event_wrapper_set_param_nb_max_instances_per_sponsor(
        &mut self,
        epoch: u64,
        nb_instances_max: u32,
    ) {
        self.log(Event::SetParamNbMaxInstancesPerSponsor { epoch, nb_instances_max });
    }

    fn event_wrapper_set_param_manual_claim(&mut self, epoch: u64, manual_claim: bool) {
        self.log(Event::SetParamManualClaim { epoch, manual_claim });
    }

    fn event_wrapper_add_addr_blacklist(&mut self, epoch: u64, address: &Address) {
        self.log(Event::AddAddrBlacklist { epoch, address: *address });
    }

    fn event_wrapper_rm_addr_blacklist(&mut self, epoch: u64, address: &Address) {
        self.log(Event::RmAddrBlacklist { epoch, address: *address });
    }
}

} // verus!
