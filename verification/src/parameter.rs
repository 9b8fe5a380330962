//! The owner's settings of the prize contract.

use vstd::prelude::*;
use crate::action::Event;
use crate::context::{CallContext, ContractBase};
use crate::error::Error;
use crate::event::EventModule;
use crate::state::PrizeContract;

verus! {

/// The endpoints of the owner's settings.
pub trait ParameterModule: EventModule {
    /// Chooses whether winners have to claim their prize (`true`) or are
    /// paid at the draw (`false`). Reserved to the owner.
    fn set_param_manual_claim(&mut self, ctx: &CallContext, manual_claim: bool) -> (res: Result<
        (),
        Error,
    >)
        requires
            old(self)@.wf(),
        ensures
            final(self)@.wf(),
            !ctx.by_owner() ==> res == Err::<(), Error>(Error::OnlyOwner) && final(self)@ == old(self)@,
            ctx.by_owner() ==> res == Ok::<(), Error>(()) && final(self)@ == (PrizeContract {
                param_manual_claim: manual_claim,
                journal: final(self)@.journal,
                ..old(self)@
            }) && final(self)@.journal@ == old(self)@.journal@ + old(self)@.logged(
                Event::SetParamManualClaim { epoch: ctx.block_epoch, manual_claim },
            ),
    ;

    /// Sets how many instances a sponsor may have waiting for their draw.
    /// Reserved to the owner.
    fn set_param_nb_max_instances_per_sponsor(
        &mut self,
        ctx: &CallContext,
        nb_instances_max: u32,
    ) -> (res: Result<(), Error>)
        requires
            old(self)@.wf(),
        ensures
            final(self)@.wf(),
            !ctx.by_owner() ==> res == Err::<(), Error>(Error::OnlyOwner) && final(self)@ == old(self)@,
            ctx.by_owner() ==> res == Ok::<(), Error>(()) && final(self)@ == (PrizeContract {
                param_nb_max_instances_per_sponsor: nb_instances_max,
                journal: final(self)@.journal,
                ..old(self)@
            }) && final(self)@.journal@ == old(self)@.journal@ + old(self)@.logged(
                Event::SetParamNbMaxInstancesPerSponsor {
                    epoch: ctx.block_epoch,
                    nb_instances_max,
                },
            ),
    ;

    /// Sets the shortest and the longest duration of a new instance, in
    /// seconds. Reserved to the owner.
    fn set_param_duration(&mut self, ctx: &CallContext, duration_min: u64, duration_max: u64) -> (res:
        Result<(), Error>)
        requires
            old(self)@.wf(),
        ensures
            final(self)@.wf(),
            res == if !ctx.by_owner() {
                Err::<(), Error>(Error::OnlyOwner)
            } else if duration_min > duration_max {
                Err(Error::DurationOrder)
            } else {
                Ok(())
            },
            res is Err ==> final(self)@ == old(self)@,
            res is Ok ==> final(self)@ == (PrizeContract {
                param_duration_min: duration_min,
                param_duration_max: duration_max,
                journal: final(self)@.journal,
                ..old(self)@
            }) && final(self)@.journal@ == old(self)@.journal@ + old(self)@.logged(
                Event::SetParamDuration { epoch: ctx.block_epoch, duration_min, duration_max },
            ),
    ;

    /// Sets how many bytes a sponsor's texts may hold together. Reserved to
    /// the owner.
    fn set_param_sponsor_info_max_length(&mut self, ctx: &CallContext, length_max: u32) -> (res:
        Result<(), Error>)
        requires
            old(self)@.wf(),
        ensures
            final(self)@.wf(),
            !ctx.by_owner() ==> res == Err::<(), Error>(Error::OnlyOwner) && final(self)@ == old(self)@,
            ctx.by_owner() ==> res == Ok::<(), Error>(()) && final(self)@ == (PrizeContract {
                param_sponsor_info_max_length: length_max,
                journal: final(self)@.journal,
                ..old(self)@
            }) && final(self)@.journal@ == old(self)@.journal@ + old(self)@.logged(
                Event::SetParamSponsorInfoMaxLength { epoch: ctx.block_epoch, length_max },
            ),
    ;

    fn get_param_manual_claim(&self) -> (manual_claim: bool)
        ensures
            manual_claim == self@.param_manual_claim,
    ;

    fn get_param_nb_max_instances_per_sponsor(&self) -> (nb_instances_max: u32)
        ensures
            nb_instances_max == self@.param_nb_max_instances_per_sponsor,
    ;

    /// The shortest and the longest duration of a new instance.
    fn get_param_duration(&self) -> (bounds: (u64, u64))
        ensures
            bounds == (self@.param_duration_min, self@.param_duration_max),
    ;

    fn get_param_sponsor_info_max_length(&self) -> (length_max: u32)
        ensures
            length_max == self@.param_sponsor_info_max_length,
    ;
}

impl ParameterModule for PrizeContract {
    fn set_param_manual_claim(&mut self, ctx: &CallContext, manual_claim: bool) -> (res: Result<
        (),
        Error,
    >) {
        if !ctx.by_owner() {
            return Err(Error::OnlyOwner);
        }
        self.param_manual_claim = manual_claim;
        self.event_wrapper_set_param_manual_claim(ctx.block_epoch, manual_claim);
        Ok(())
    }

    fn set_param_nb_max_instances_per_sponsor(
        &mut self,
        ctx: &CallContext,
        nb_instances_max: u32,
    ) -> (res: Result<(), Error>) {
        if !ctx.by_owner() {
            return Err(Error::OnlyOwner);
        }
        self.param_nb_max_instances_per_sponsor = nb_instances_max;
        self.event_wrapper_set_param_nb_max_instances_per_sponsor(
            ctx.block_epoch,
            nb_instances_max,
        );
        Ok(())
    }

    fn set_param_duration(&mut self, ctx: &CallContext, duration_min: u64, duration_max: u64) -> (res:
        Result<(), Error>) {
        if !ctx.by_owner() {
            return Err(Error::OnlyOwner);
        }
        if duration_min > duration_max {
            return Err(Error::DurationOrder);
        }
        self.param_duration_min = duration_min;
        self.param_duration_max = duration_max;
        self.event_wrapper_set_param_duration(ctx.block_epoch, duration_min, duration_max);
        Ok(())
    }

    fn set_param_sponsor_info_max_length(&mut self, ctx: &CallContext, length_max: u32) -> (res:
        Result<(), Error>) {
        if !ctx.by_owner() {
            return Err(Error::OnlyOwner);
        }
        self.param_sponsor_info_max_length = length_max;
        self.event_wrapper_set_param_sponsor_info_max_length(ctx.block_epoch, length_max);
        Ok(())
    }

    fn get_param_manual_claim(&self) -> (manual_claim: bool) {
        self.param_manual_claim
    }

    fn get_param_nb_max_instances_per_sponsor(&self) -> (nb_instances_max: u32) {
        self.param_nb_max_instances_per_sponsor
    }

    fn get_param_duration(&self) -> (bounds: (u64, u64)) {
        (self.param_duration_min, self.param_duration_max)
    }

    fn get_param_sponsor_info_max_length(&self) -> (length_max: u32) {
        self.param_sponsor_info_max_length
    }
}

} // verus!
