//! Instances of the prize contract: what is recorded of each prize round,
//! the status that follows from it, and the queries over all rounds.

use vstd::prelude::*;
use crate::action::Event;
use crate::address::{none_zero, Address};
use crate::context::{CallContext, ContractBase};
use crate::error::Error;
use crate::event::EventModule;
use crate::registry::{
    iids_where, lemma_ascending_numbers, lemma_iids_where_ends, lemma_iids_where_step,
};
use crate::state::{lemma_open_count_kept, settled_kept, PrizeContract};

verus! {

/// The kind of asset a prize is paid in.
#[derive(Clone, Copy, Debug, PartialEq, Eq, PartialOrd, Ord, Structural)]
pub enum PrizeType {
    EgldPrize,
    EsdtPrize,
    UnknownPrize,
}

impl PrizeType {
    /// How many kinds there are.
    pub const VARIANT_COUNT: usize = 3;
}

/// Where an instance stands in its life. The status is never stored: it
/// follows from the instance's state and the current time.
#[derive(Clone, Copy, Debug, PartialEq, Eq, PartialOrd, Ord, Structural)]
pub enum InstanceStatus {
    NotExisting,
    Running,
    Ended,
    Triggered,
    Claimed,
    Disabled,
}

impl InstanceStatus {
    /// How many statuses there are.
    pub const VARIANT_COUNT: usize = 6;
}

/// Who funds an instance, and how the sponsor presents itself.
#[derive(Clone, Debug, PartialEq, Eq)]
pub struct SponsorInfo {
    pub address: Address,
    pub pseudo: Vec<u8>,
    pub url1: Vec<u8>,
    pub url2: Vec<u8>,
    pub url3: Vec<u8>,
    pub reserved: Vec<u8>,
    pub graphic: Vec<u8>,
    pub logo_link: Vec<u8>,
    pub free_text: Vec<u8>,
}

/// The prize of an instance: an amount of one token.
#[derive(Clone, Debug, PartialEq, Eq)]
pub struct PrizeInfo {
    pub token_identifier: Vec<u8>,
    pub token_nonce: u64,
    pub token_amount: u128,
}

/// What is fixed when an instance is created.
#[derive(Clone, Debug, PartialEq, Eq)]
pub struct InstanceInfo {
    pub sponsor_info: SponsorInfo,
    pub prize_info: PrizeInfo,
    pub premium: bool,
    pub charity: bool,
    pub deadline: u64,
}

/// The sponsor's share of the fees paid by the players of an instance.
#[derive(Clone, Copy, Debug, PartialEq, Eq, Structural)]
pub struct RewardInfo {
    pub percent: u8,
    pub pool: u128,
}

/// The outcome of the draw. A zero address means that no draw has taken
/// place; ticket number zero means that nobody played.
#[derive(Clone, Copy, Debug, PartialEq, Eq, Structural)]
pub struct WinnerInfo {
    pub ticket_number: usize,
    pub address: Address,
}

/// What changes during the life of an instance.
#[derive(Clone, Copy, Debug, PartialEq, Eq, Structural)]
pub struct InstanceState {
    pub claimed_status: bool,
    pub reward_info: RewardInfo,
    pub winner_info: WinnerInfo,
    pub disabled: bool,
}

/// The state of an instance in short: the reward pool without its
/// percentage, and the winner without the ticket.
#[derive(Clone, Copy, Debug, PartialEq, Eq, Structural)]
pub struct InstanceData {
    pub sponsor_rewards_pool: u128,
    pub claimed_status: bool,
    pub winner_address: Address,
    pub disabled: bool,
}

impl InstanceState {
    /// This state in short.
    pub open spec fn spec_data(&self) -> InstanceData {
        InstanceData {
            sponsor_rewards_pool: self.reward_info.pool,
            claimed_status: self.claimed_status,
            winner_address: self.winner_info.address,
            disabled: self.disabled,
        }
    }

    /// This state in short.
    #[verifier::when_used_as_spec(spec_data)]
    pub fn data(&self) -> (data: InstanceData)
        ensures
            data == self.spec_data(),
    {
        InstanceData {
            sponsor_rewards_pool: self.reward_info.pool,
            claimed_status: self.claimed_status,
            winner_address: self.winner_info.address,
            disabled: self.disabled,
        }
    }
}

/// Everything the contract holds of one instance. `players` lists who
/// played, in order: the player at index `k` holds ticket `k + 1`.
#[derive(Clone, Debug, PartialEq, Eq)]
pub struct Instance {
    pub iid: u32,
    pub info: InstanceInfo,
    pub state: InstanceState,
    pub players: Vec<Address>,
}

impl SponsorInfo {
    /// Equal in every field, byte strings compared by content.
    pub open spec fn agrees(self, other: SponsorInfo) -> bool {
        &&& self.address == other.address
        &&& self.pseudo@ == other.pseudo@
        &&& self.url1@ == other.url1@
        &&& self.url2@ == other.url2@
        &&& self.url3@ == other.url3@
        &&& self.reserved@ == other.reserved@
        &&& self.graphic@ == other.graphic@
        &&& self.logo_link@ == other.logo_link@
        &&& self.free_text@ == other.free_text@
    }

    /// The number of bytes in the sponsor's texts, all together.
    pub open spec fn spec_text_length(&self) -> nat {
        self.pseudo@.len() + self.url1@.len() + self.url2@.len() + self.url3@.len()
            + self.reserved@.len() + self.graphic@.len() + self.logo_link@.len()
            + self.free_text@.len()
    }

    /// A copy that holds the same bytes.
    pub fn duplicate(&self) -> (copy: SponsorInfo)
        ensures
            self.agrees(copy),
    {
        SponsorInfo {
            address: self.address,
            pseudo: self.pseudo.clone(),
            url1: self.url1.clone(),
            url2: self.url2.clone(),
            url3: self.url3.clone(),
            reserved: self.reserved.clone(),
            graphic: self.graphic.clone(),
            logo_link: self.logo_link.clone(),
            free_text: self.free_text.clone(),
        }
    }
}

impl PrizeInfo {
    /// Equal in every field, the token's name compared by content.
    pub open spec fn agrees(self, other: PrizeInfo) -> bool {
        &&& self.token_identifier@ == other.token_identifier@
        &&& self.token_nonce == other.token_nonce
        &&& self.token_amount == other.token_amount
    }

    /// A copy that holds the same bytes.
    pub fn duplicate(&self) -> (copy: PrizeInfo)
        ensures
            self.agrees(copy),
    {
        PrizeInfo {
            token_identifier: self.token_identifier.clone(),
            token_nonce: self.token_nonce,
            token_amount: self.token_amount,
        }
    }
}

impl InstanceInfo {
    /// Equal in every field, byte strings compared by content.
    pub open spec fn agrees(self, other: InstanceInfo) -> bool {
        &&& self.sponsor_info.agrees(other.sponsor_info)
        &&& self.prize_info.agrees(other.prize_info)
        &&& self.premium == other.premium
        &&& self.charity == other.charity
        &&& self.deadline == other.deadline
    }

    /// A copy that holds the same bytes.
    pub fn duplicate(&self) -> (copy: InstanceInfo)
        ensures
            self.agrees(copy),
    {
        InstanceInfo {
            sponsor_info: self.sponsor_info.duplicate(),
            prize_info: self.prize_info.duplicate(),
            premium: self.premium,
            charity: self.charity,
            deadline: self.deadline,
        }
    }
}

impl Instance {
    /// The status of an instance that exists, at time `now`. The first of
    /// these that applies decides: disabled, claimed, drawn, past its
    /// deadline; an instance to which none applies is running.
    pub open spec fn spec_status(&self, now: u64) -> InstanceStatus {
        if self.state.disabled {
            InstanceStatus::Disabled
        } else if self.state.claimed_status {
            InstanceStatus::Claimed
        } else if !self.state.winner_info.address.is_zero() {
            InstanceStatus::Triggered
        } else if now > self.info.deadline {
            InstanceStatus::Ended
        } else {
            InstanceStatus::Running
        }
    }

    /// Whether the instance still waits for its draw and counts against
    /// `sponsor`'s allowance.
    pub open spec fn is_open_for(&self, sponsor: Address) -> bool {
        self.info.sponsor_info.address == sponsor && self.state.winner_info.address.is_zero()
    }

    /// Whether `player` holds a ticket of this instance.
    pub open spec fn spec_has_player(&self, player: Address) -> bool {
        self.players@.contains(player)
    }

    /// The invariant of one instance.
    pub open spec fn wf(&self) -> bool {
        &&& self.iid >= 1
        &&& !self.info.sponsor_info.address.is_zero()
        &&& self.state.reward_info.percent <= 100
        &&& self.state.claimed_status ==> !self.state.winner_info.address.is_zero()
        &&& self.state.winner_info.address.is_zero() ==> self.state.winner_info.ticket_number == 0
        &&& forall|k: int| 0 <= k < self.players@.len() ==> !(#[trigger] self.players@[k]).is_zero()
    }

    /// Whether the invariant of one instance holds of this one.
    pub fn is_valid(&self) -> (valid: bool)
        ensures
            valid == self.wf(),
    {
        self.iid >= 1 && !self.info.sponsor_info.address.is_zero()
            && self.state.reward_info.percent <= 100 && (!self.state.claimed_status
            || !self.state.winner_info.address.is_zero()) && (
        !self.state.winner_info.address.is_zero() || self.state.winner_info.ticket_number == 0)
            && none_zero(&self.players)
    }

    /// The status at time `now`.
    #[verifier::when_used_as_spec(spec_status)]
    pub fn status(&self, now: u64) -> (status: InstanceStatus)
        ensures
            status == self.spec_status(now),
            status != InstanceStatus::NotExisting,
    {
        if self.state.disabled {
            InstanceStatus::Disabled
        } else if self.state.claimed_status {
            InstanceStatus::Claimed
        } else if !self.state.winner_info.address.is_zero() {
            InstanceStatus::Triggered
        } else if now > self.info.deadline {
            InstanceStatus::Ended
        } else {
            InstanceStatus::Running
        }
    }

    /// Whether `player` holds a ticket of this instance.
    #[verifier::when_used_as_spec(spec_has_player)]
    pub fn has_player(&self, player: Address) -> (found: bool)
        ensures
            found == self.spec_has_player(player),
    {
        let mut k: usize = 0;
        while k < self.players.len()
            invariant
                k <= self.players@.len(),
                forall|j: int| 0 <= j < k ==> self.players@[j] != player,
            decreases self.players@.len() - k,
        {
            if self.players[k] == player {
                return true;
            }
            k += 1;
        }
        false
    }
}

/// The order of precedence among the facts that decide a status: a
/// disabled instance is `Disabled` whatever else holds of it, a claimed one
/// that is not disabled is `Claimed`, and so on down to `Running`.
pub proof fn lemma_status_precedence(inst: Instance, now: u64)
    ensures
        inst.spec_status(now) != InstanceStatus::NotExisting,
        inst.spec_status(now) == InstanceStatus::Disabled <==> inst.state.disabled,
        inst.spec_status(now) == InstanceStatus::Claimed <==> !inst.state.disabled
            && inst.state.claimed_status,
        inst.spec_status(now) == InstanceStatus::Triggered <==> !inst.state.disabled
            && !inst.state.claimed_status && !inst.state.winner_info.address.is_zero(),
        inst.spec_status(now) == InstanceStatus::Ended <==> !inst.state.disabled
            && !inst.state.claimed_status && inst.state.winner_info.address.is_zero() && now
            > inst.info.deadline,
        inst.spec_status(now) == InstanceStatus::Running <==> !inst.state.disabled
            && !inst.state.claimed_status && inst.state.winner_info.address.is_zero() && now
            <= inst.info.deadline,
{
}

/// Time only moves an instance from `Running` to `Ended`: every other status
/// is the same at any two times.
pub proof fn lemma_status_over_time(inst: Instance, earlier: u64, later: u64)
    requires
        earlier <= later,
    ensures
        inst.spec_status(earlier) != InstanceStatus::Running ==> inst.spec_status(later)
            == inst.spec_status(earlier),
        inst.spec_status(earlier) == InstanceStatus::Running ==> inst.spec_status(later)
            == InstanceStatus::Running || inst.spec_status(later) == InstanceStatus::Ended,
{
}

/// How far along the life of an instance a status is.
pub open spec fn spec_stage(status: InstanceStatus) -> int {
    match status {
        InstanceStatus::NotExisting => 0,
        InstanceStatus::Running => 1,
        InstanceStatus::Ended => 2,
        InstanceStatus::Triggered => 3,
        InstanceStatus::Claimed => 4,
        InstanceStatus::Disabled => 5,
    }
}

/// Whether `after` is what `before` may have become as players, sponsors and
/// winners used the contract: the same instance with the same deadline, as
/// disabled or not as it was; drawn and claimed if it was, and with the same
/// winner.
pub open spec fn moved_on(before: Instance, after: Instance) -> bool {
    &&& after.iid == before.iid
    &&& after.info.deadline == before.info.deadline
    &&& after.state.disabled == before.state.disabled
    &&& before.state.claimed_status ==> after.state.claimed_status
    &&& !before.state.winner_info.address.is_zero() ==> after.state.winner_info
        == before.state.winner_info
}

/// Whether every instance of `before` is listed in `after` at the same
/// place, as what it may have become.
pub open spec fn all_moved_on(before: Seq<Instance>, after: Seq<Instance>) -> bool {
    &&& before.len() <= after.len()
    &&& forall|i: int| 0 <= i < before.len() ==> moved_on(#[trigger] before[i], after[i])
}

/// The life of an instance goes forward only: from running to past its
/// deadline, to drawn, to claimed. As time goes by and the contract is
/// used, the status of an instance that is not disabled never falls back.
pub proof fn lemma_life_goes_forward(before: Instance, after: Instance, earlier: u64, later: u64)
    requires
        moved_on(before, after),
        earlier <= later,
    ensures
        before.state.disabled <==> after.spec_status(later) == InstanceStatus::Disabled,
        !before.state.disabled ==> spec_stage(before.spec_status(earlier)) <= spec_stage(
            after.spec_status(later),
        ),
{
}

/// What moved on once and then once more has moved on.
pub proof fn lemma_moved_on_twice(first: Seq<Instance>, second: Seq<Instance>, third: Seq<Instance>)
    requires
        all_moved_on(first, second),
        all_moved_on(second, third),
    ensures
        all_moved_on(first, third),
{
    assert forall|i: int| 0 <= i < first.len() implies moved_on(#[trigger] first[i], third[i]) by {
        assert(moved_on(first[i], second[i]));
        assert(moved_on(second[i], third[i]));
    }
}

/// The test "the status of the instance at time `now` is one of `filter`".
pub open spec fn has_status_in(now: u64, filter: Seq<InstanceStatus>) -> spec_fn(Instance) -> bool {
    |inst: Instance| filter.contains(inst.spec_status(now))
}

/// A filter is usable if it names at least one status and no more statuses
/// than there are.
pub open spec fn spec_usable_filter(filter: Seq<InstanceStatus>) -> bool {
    1 <= filter.len() <= InstanceStatus::VARIANT_COUNT
}

/// Whether `status` is one of `filter`.
pub fn status_in(filter: &Vec<InstanceStatus>, status: InstanceStatus) -> (found: bool)
    ensures
        found == filter@.contains(status),
{
    let mut k: usize = 0;
    while k < filter.len()
        invariant
            k <= filter@.len(),
            forall|j: int| 0 <= j < k ==> filter@[j] != status,
        decreases filter@.len() - k,
    {
        if filter[k] == status {
            return true;
        }
        k += 1;
    }
    false
}

impl PrizeContract {
    /// The status at time `now` of the instance numbered `iid`.
    pub open spec fn spec_status(&self, now: u64, iid: u32) -> InstanceStatus {
        match self.spec_instance(iid) {
            Some(inst) => inst.spec_status(now),
            None => InstanceStatus::NotExisting,
        }
    }

    /// The numbers of the instances whose status at time `now` is one of
    /// `filter`, by increasing number; none if the filter is not usable.
    pub open spec fn spec_instance_ids(&self, now: u64, filter: Seq<InstanceStatus>) -> Seq<u32> {
        if spec_usable_filter(filter) {
            iids_where(self.instances@, has_status_in(now, filter))
        } else {
            Seq::empty()
        }
    }

    /// How many instances have, at time `now`, a status that is one of
    /// `filter`: all of them if the filter is empty, none if it names more
    /// statuses than there are.
    pub open spec fn spec_nb_instances(&self, now: u64, filter: Seq<InstanceStatus>) -> nat {
        if filter.len() > InstanceStatus::VARIANT_COUNT {
            0
        } else if filter.len() == 0 {
            self.instances@.len()
        } else {
            iids_where(self.instances@, has_status_in(now, filter)).len()
        }
    }

    /// A valid contract holds fewer than 2^32 instances.
    pub proof fn lemma_instances_counted(&self)
        requires
            self.wf(),
        ensures
            self.instances@.len() <= self.iid_counter,
    {
        let list = self.instances@;
        if list.len() > 0 {
            assert forall|k: int| 0 <= k < list.len() implies (#[trigger] list[k]).iid >= 1 by {
                assert(list[k].wf());
            }
            lemma_ascending_numbers(list, list.len() - 1);
            assert(list[list.len() - 1].wf());
        }
    }
}

/// The endpoints over the instances: their status and the lists by status.
pub trait InstanceModule: EventModule {
    /// Sets the premium flag of the instance numbered `iid`, which must
    /// still wait for its draw. Reserved to the owner.
    fn set_premium(&mut self, ctx: &CallContext, iid: u32, premium_status: bool) -> (res: Result<
        (),
        Error,
    >)
        requires
            old(self)@.wf(),
        ensures
            final(self)@.wf(),
            res == if !ctx.by_owner() {
                Err::<(), Error>(Error::OnlyOwner)
            } else {
                match old(self)@.spec_instance(iid) {
                    None => Err(Error::NoSuchInstance),
                    Some(inst) => if !inst.state.winner_info.address.is_zero() {
                        Err(Error::AlreadyDrawn)
                    } else {
                        Ok(())
                    },
                }
            },
            res is Err ==> final(self)@ == old(self)@,
            res is Ok ==> {
                let i = old(self)@.spec_index(iid);
                let inst = old(self)@.instances@[i];
                &&& final(self)@ == (PrizeContract {
                    instances: final(self)@.instances,
                    journal: final(self)@.journal,
                    ..old(self)@
                })
                &&& final(self)@.instances@ == old(self)@.instances@.update(
                    i,
                    Instance {
                        info: InstanceInfo { premium: premium_status, ..inst.info },
                        ..inst
                    },
                )
                &&& final(self)@.journal@ == old(self)@.journal@ + old(self)@.logged(
                    Event::SetPremium { epoch: ctx.block_epoch, iid, premium_status },
                )
            },
            settled_kept(old(self)@.instances@, final(self)@.instances@),
            all_moved_on(old(self)@.instances@, final(self)@.instances@),
    ;

    /// The status at time `now` of the instance numbered `iid`.
    fn get_instance_status(&self, now: u64, iid: u32) -> (status: InstanceStatus)
        requires
            self@.wf(),
        ensures
            status == self@.spec_status(now, iid),
    ;

    /// Whether some instance has the status `instance_status` at time `now`.
    fn is_instance_with_status(&self, now: u64, instance_status: InstanceStatus) -> (found: bool)
        requires
            self@.wf(),
        ensures
            found == (self@.spec_instance_ids(now, seq![instance_status]).len() != 0),
            found == exists|i: int|
                0 <= i < self@.instances@.len() && (#[trigger] self@.instances@[i]).spec_status(now)
                    == instance_status,
    ;

    /// How many instances have, at time `now`, one of the statuses of
    /// `status_filter`; how many there are at all, if the filter is empty.
    fn get_nb_instances(&self, now: u64, status_filter: &Vec<InstanceStatus>) -> (count: u32)
        requires
            self@.wf(),
        ensures
            count == self@.spec_nb_instances(now, status_filter@),
    ;

    /// The seconds left at time `now` until the deadline of the instance
    /// numbered `iid`.
    fn get_remaining_time(&self, now: u64, iid: u32) -> (res: Result<u64, Error>)
        requires
            self@.wf(),
        ensures
            res == match self@.spec_instance(iid) {
                None => Err::<u64, Error>(Error::NoSuchInstance),
                Some(inst) => Ok(
                    if inst.info.deadline > now {
                        (inst.info.deadline - now) as u64
                    } else {
                        0
                    },
                ),
            },
    ;

    /// The numbers of the instances that have, at time `now`, one of the
    /// statuses of `status_filter`.
    fn get_instance_ids(&self, now: u64, status_filter: &Vec<InstanceStatus>) -> (iids: Vec<u32>)
        requires
            self@.wf(),
        ensures
            iids@ == self@.spec_instance_ids(now, status_filter@),
    ;

    /// Whether `player_address` has won the instance numbered `iid`.
    fn has_won(&self, iid: u32, player_address: Address) -> (res: Result<bool, Error>)
        requires
            self@.wf(),
        ensures
            res == match self@.spec_instance(iid) {
                None => Err::<bool, Error>(Error::NoSuchInstance),
                Some(inst) => Ok(player_address == inst.state.winner_info.address),
            },
    ;
}

impl InstanceModule for PrizeContract {
    fn set_premium(&mut self, ctx: &CallContext, iid: u32, premium_status: bool) -> (res: Result<
        (),
        Error,
    >) {
        if !ctx.by_owner() {
            return Err(Error::OnlyOwner);
        }
        match self.find(iid) {
            None => Err(Error::NoSuchInstance),
            Some(i) => {
                if !self.instances[i].state.winner_info.address.is_zero() {
                    return Err(Error::AlreadyDrawn);
                }
                self.instances[i].info.premium = premium_status;
                proof {
                    let before = old(self).instances@;
                    let after = self.instances@;
                    assert(after == before.update(i as int, after[i as int]));
                    lemma_open_count_kept(before, i as int, after[i as int]);
                }
                self.event_wrapper_set_premium(ctx.block_epoch, iid, premium_status);
                Ok(())
            },
        }
    }

    fn get_instance_status(&self, now: u64, iid: u32) -> (status: InstanceStatus) {
        match self.find(iid) {
            None => InstanceStatus::NotExisting,
            Some(i) => self.instances[i].status(now),
        }
    }

    fn is_instance_with_status(&self, now: u64, instance_status: InstanceStatus) -> (found: bool) {
        let mut filter: Vec<InstanceStatus> = Vec::new();
        filter.push(instance_status);
        assert(filter@ == seq![instance_status]);
        let instances = self.get_instance_ids(now, &filter);
        proof {
            lemma_iids_where_witness(
                self.instances@,
                has_status_in(now, seq![instance_status]),
            );
            assert(forall|s: InstanceStatus|
                seq![instance_status].contains(s) <==> s == instance_status) by {
                assert(seq![instance_status][0] == instance_status);
            }
        }
        instances.len() != 0
    }

    fn get_nb_instances(&self, now: u64, status_filter: &Vec<InstanceStatus>) -> (count: u32) {
        proof {
            self.lemma_instances_counted();
        }
        if status_filter.len() > InstanceStatus::VARIANT_COUNT {
            return 0;
        }
        if status_filter.len() == 0 {
            return self.instances.len() as u32;
        }
        let mut nb_instances: u32 = 0;
        let mut i: usize = 0;
        proof {
            lemma_iids_where_ends(self.instances@, has_status_in(now, status_filter@));
        }
        while i < self.instances.len()
            invariant
                i <= self.instances@.len(),
                self.instances@.len() <= u32::MAX,
                nb_instances == iids_where(
                    self.instances@.take(i as int),
                    has_status_in(now, status_filter@),
                ).len(),
                nb_instances <= i,
            decreases self.instances@.len() - i,
        {
            proof {
                lemma_iids_where_step(
                    self.instances@,
                    has_status_in(now, status_filter@),
                    i as int,
                );
            }
            if status_in(status_filter, self.instances[i].status(now)) {
                nb_instances += 1;
            }
            i += 1;
        }
        nb_instances
    }

    fn get_remaining_time(&self, now: u64, iid: u32) -> (res: Result<u64, Error>) {
        match self.find(iid) {
            None => Err(Error::NoSuchInstance),
            Some(i) => {
                let deadline: u64 = self.instances[i].info.deadline;
                let mut remaining_time: u64 = 0;
                if deadline > now {
                    remaining_time = deadline - now;
                }
                Ok(remaining_time)
            },
        }
    }

    fn get_instance_ids(&self, now: u64, status_filter: &Vec<InstanceStatus>) -> (iids: Vec<u32>) {
        let mut instance_ids: Vec<u32> = Vec::new();
        if status_filter.len() >= 1 && status_filter.len() <= InstanceStatus::VARIANT_COUNT {
            let mut i: usize = 0;
            proof {
                lemma_iids_where_ends(self.instances@, has_status_in(now, status_filter@));
            }
            while i < self.instances.len()
                invariant
                    i <= self.instances@.len(),
                    instance_ids@ == iids_where(
                        self.instances@.take(i as int),
                        has_status_in(now, status_filter@),
                    ),
                decreases self.instances@.len() - i,
            {
                proof {
                    lemma_iids_where_step(
                        self.instances@,
                        has_status_in(now, status_filter@),
                        i as int,
                    );
                }
                if status_in(status_filter, self.instances[i].status(now)) {
                    instance_ids.push(self.instances[i].iid);
                }
                i += 1;
            }
        }
        instance_ids
    }

    fn has_won(&self, iid: u32, player_address: Address) -> (res: Result<bool, Error>) {
        match self.find(iid) {
            None => Err(Error::NoSuchInstance),
            Some(i) => Ok(player_address == self.instances[i].state.winner_info.address),
        }
    }
}

/// Some number is found exactly if some listed instance is `wanted`.
pub proof fn lemma_iids_where_witness(list: Seq<Instance>, wanted: spec_fn(Instance) -> bool)
    ensures
        iids_where(list, wanted).len() != 0 <==> exists|i: int|
            0 <= i < list.len() && wanted(#[trigger] list[i]),
    decreases list.len(),
{
    if list.len() > 0 {
        let rest = list.drop_last();
        lemma_iids_where_witness(rest, wanted);
        if wanted(list.last()) {
            assert(wanted(list[list.len() - 1]));
        } else if exists|i: int| 0 <= i < list.len() && wanted(#[trigger] list[i]) {
            let i = choose|i: int| 0 <= i < list.len() && wanted(#[trigger] list[i]);
            assert(wanted(rest[i]));
        } else if exists|i: int| 0 <= i < rest.len() && wanted(#[trigger] rest[i]) {
            let i = choose|i: int| 0 <= i < rest.len() && wanted(#[trigger] rest[i]);
            assert(wanted(list[i]));
        }
    }
}

} // verus!
