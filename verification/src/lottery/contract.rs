//! The endpoints of the token lottery.

use vstd::prelude::*;
use crate::action::{journal_extended, Action, Memo};
use crate::address::Address;
use crate::amount::checked_credit;
use crate::context::{CallContext, ContractBase};
use crate::lottery::error::Error;
use crate::lottery::instance_info::{all_moved_on, Instance, InstanceInfo, PrizeInfo, SponsorInfo};
use crate::lottery::instance_status::InstanceStatus;
use crate::registry::{
    ascending, find, iids_where, index_of, is_ascending, lemma_ascending_numbers,
    lemma_iids_where_ends, lemma_iids_where_step, lemma_lookup_at, lemma_lookup_removed, lookup,
    Numbered,
};

verus! {

/// The storage of the lottery.
#[derive(Clone, Debug, PartialEq, Eq)]
pub struct LotteryContract {
    /// The number given to the instance created last.
    pub iid_counter: u32,
    /// The instances, by increasing number.
    pub instances: Vec<Instance>,
    /// The fee that a player pays for a ticket.
    pub fees2apply: u128,
    /// The fees that belong to the owner.
    pub fees_pool: u128,
    /// What the host has to do for the calls served so far, oldest first.
    pub journal: Vec<Action>,
}

/// The test "the status of the instance at time `now` is one of `filter`".
pub open spec fn has_status_in(now: u64, filter: Seq<InstanceStatus>) -> spec_fn(Instance) -> bool {
    |inst: Instance| filter.contains(inst.info.spec_status(now))
}

/// The test "`sponsor` funds the instance".
pub open spec fn sponsored_by(sponsor: Address) -> spec_fn(Instance) -> bool {
    |inst: Instance| inst.info.sponsor_address == sponsor
}

/// The test "`player` holds a ticket of the instance".
pub open spec fn played_by(player: Address) -> spec_fn(Instance) -> bool {
    |inst: Instance| inst.spec_has_player(player)
}

/// The test "the prize of the instance has not been claimed".
pub open spec fn unclaimed() -> spec_fn(Instance) -> bool {
    |inst: Instance| !inst.info.claimed_status
}

/// A filter is usable if it names at least one status and no more statuses
/// than there are.
pub open spec fn spec_usable_filter(filter: Seq<InstanceStatus>) -> bool {
    1 <= filter.len() <= InstanceStatus::VARIANT_COUNT
}

/// The list of instances after the draw, with the random number `random`,
/// of every instance that is past its deadline at time `now`.
pub open spec fn spec_all_drawn(list: Seq<Instance>, now: u64, random: u32, upto: int) -> Seq<
    Instance,
> {
    Seq::new(
        list.len(),
        |i: int|
            if i < upto && list[i].info.spec_status(now) == InstanceStatus::Ended {
                list[i].spec_drawn(random)
            } else {
                list[i]
            },
    )
}

/// The payment that hands `prize` to `winner`.
pub open spec fn spec_prize_payment(prize: PrizeInfo, winner: Address) -> Action {
    Action::Direct {
        to: winner,
        token_identifier: prize.token_identifier,
        token_nonce: prize.token_nonce,
        amount: prize.token_amount,
        memo: Memo::PrizeClaimed,
    }
}

/// Whether `status` is one of `filter`.
pub fn status_in(filter: &Vec<InstanceStatus>, status: InstanceStatus) -> (found: bool)
    ensures
        found == filter@.contains(status),
{
    let mut k: usize = 0;
    while k < filter.len()
        invariant
            k <= filter@.len(),
            forall|j: int| 0 <= j < k ==> filter@[j] != status,
        decreases filter@.len() - k,
    {
        if filter[k] == status {
            return true;
        }
        k += 1;
    }
    false
}

impl View for LotteryContract {
    type V = LotteryContract;

    /// What is stored is plain data: the lottery is its own model.
    open spec fn view(&self) -> LotteryContract {
        *self
    }
}

impl ContractBase for LotteryContract {
    open spec fn wf(&self) -> bool {
        &&& ascending(self.instances@)
        &&& forall|i: int|
            0 <= i < self.instances@.len() ==> (#[trigger] self.instances@[i]).wf()
                && self.instances@[i].iid <= self.iid_counter
    }
}

impl LotteryContract {
    /// The instance numbered `iid`, if there is one.
    pub open spec fn spec_instance(&self, iid: u32) -> Option<Instance> {
        lookup(self.instances@, iid)
    }

    /// Where the instance numbered `iid` is stored.
    pub open spec fn spec_index(&self, iid: u32) -> int {
        index_of(self.instances@, iid)
    }

    /// The status at time `now` of the instance numbered `iid`.
    pub open spec fn spec_status(&self, now: u64, iid: u32) -> InstanceStatus {
        match self.spec_instance(iid) {
            Some(inst) => inst.info.spec_status(now),
            None => InstanceStatus::NotExisting,
        }
    }

    /// The numbers of the instances whose status at time `now` is one of
    /// `filter`, by increasing number; none if the filter is not usable.
    pub open spec fn spec_instance_ids(&self, now: u64, filter: Seq<InstanceStatus>) -> Seq<u32> {
        if spec_usable_filter(filter) {
            iids_where(self.instances@, has_status_in(now, filter))
        } else {
            Seq::empty()
        }
    }

    /// What `create_instance` answers.
    pub open spec fn spec_create_instance(&self, ctx: CallContext, duration_in_s: u64) -> Result<
        u32,
        Error,
    > {
        if duration_in_s == 0 {
            Err(Error::NullDuration)
        } else if ctx.block_timestamp + duration_in_s > u64::MAX {
            Err(Error::Overflow)
        } else if self.iid_counter == u32::MAX {
            Err(Error::Overflow)
        } else {
            Ok((self.iid_counter + 1) as u32)
        }
    }

    /// What `trigger` answers.
    pub open spec fn spec_trigger(&self, ctx: CallContext, iid: u32) -> Result<(), Error> {
        if self.spec_status(ctx.block_timestamp, iid) != InstanceStatus::Ended {
            Err(Error::WrongState)
        } else if ctx.caller != self.spec_instance(iid)->0.info.sponsor_address && ctx.caller
            != ctx.owner {
            Err(Error::BadCaller)
        } else {
            Ok(())
        }
    }

    /// What `play` answers.
    pub open spec fn spec_play(&self, ctx: CallContext, fees: u128, iid: u32) -> Result<(), Error> {
        if self.spec_status(ctx.block_timestamp, iid) != InstanceStatus::Running {
            Err(Error::NotActive)
        } else if self.spec_instance(iid)->0.spec_has_player(ctx.caller) {
            Err(Error::AlreadyPlayed)
        } else if fees != self.fees2apply {
            Err(Error::WrongFees)
        } else if self.fees_pool + fees > u128::MAX {
            Err(Error::Overflow)
        } else {
            Ok(())
        }
    }

    /// What `claim_prize` answers.
    pub open spec fn spec_claim_prize(&self, ctx: CallContext, iid: u32) -> Result<(), Error> {
        if self.spec_status(ctx.block_timestamp, iid) != InstanceStatus::Triggered {
            Err(Error::WrongState)
        } else if self.spec_instance(iid)->0.info.winner_address != ctx.caller {
            Err(Error::NotWinner)
        } else {
            Ok(())
        }
    }

    /// The lottery as it is before its first call: nothing stored.
    pub fn new() -> (contract: LotteryContract)
        ensures
            contract.wf(),
            contract.iid_counter == 0,
            contract.instances@.len() == 0,
            contract.fees2apply == 0,
            contract.fees_pool == 0,
            contract.journal@.len() == 0,
    {
        LotteryContract {
            iid_counter: 0,
            instances: Vec::new(),
            fees2apply: 0,
            fees_pool: 0,
            journal: Vec::new(),
        }
    }

    /// Whether the stored state satisfies the contract's invariant.
    pub fn is_valid(&self) -> (valid: bool)
        ensures
            valid == self.wf(),
    {
        if !is_ascending(&self.instances) {
            return false;
        }
        let mut i: usize = 0;
        while i < self.instances.len()
            invariant
                i <= self.instances@.len(),
                forall|j: int|
                    0 <= j < i ==> (#[trigger] self.instances@[j]).wf() && self.instances@[j].iid
                        <= self.iid_counter,
            decreases self.instances@.len() - i,
        {
            if !self.instances[i].is_valid() || self.instances[i].iid > self.iid_counter {
                return false;
            }
            i += 1;
        }
        true
    }

    /// Hands the journal to the host and starts an empty one.
    pub fn take_journal(&mut self) -> (actions: Vec<Action>)
        ensures
            *final(self) == (LotteryContract { journal: final(self).journal, ..*old(self) }),
            final(self).journal@.len() == 0,
            actions@ == old(self).journal@,
    {
        let mut actions: Vec<Action> = Vec::new();
        std::mem::swap(&mut self.journal, &mut actions);
        actions
    }

    /// A valid lottery holds fewer than 2^32 instances.
    pub proof fn lemma_instances_counted(&self)
        requires
            self.wf(),
        ensures
            self.instances@.len() <= self.iid_counter,
    {
        let list = self.instances@;
        if list.len() > 0 {
            assert forall|k: int| 0 <= k < list.len() implies (#[trigger] list[k]).number()
                >= 1 by {
                assert(list[k].wf());
            }
            lemma_ascending_numbers(list, list.len() - 1);
            assert(list[list.len() - 1].wf());
        }
    }
}

/// The endpoints of the lottery.
pub trait Lottery: View<V = LotteryContract> {
    /// Prepares the storage. Run when the contract is deployed, and again
    /// whenever its code is replaced; it never changes what is stored.
    fn init(&mut self) -> (res: Result<(), Error>)
        requires
            old(self)@.wf(),
        ensures
            final(self)@.wf(),
            res == Ok::<(), Error>(()),
            final(self)@ == old(self)@,
    ;

    /// Draws the winner of every instance that is past its deadline, all
    /// with the random number `random` of the block. Reserved to the owner.
    fn trigger_ended_instances(&mut self, ctx: &CallContext, random: u32) -> (res: Result<(), Error>)
        requires
            old(self)@.wf(),
        ensures
            final(self)@.wf(),
            res == if ctx.by_owner() {
                Ok::<(), Error>(())
            } else {
                Err(Error::CallerNotAllowed)
            },
            res is Err ==> final(self)@ == old(self)@,
            res is Ok ==> final(self)@ == (LotteryContract {
                instances: final(self)@.instances,
                ..old(self)@
            }) && final(self)@.instances@ == spec_all_drawn(
                old(self)@.instances@,
                ctx.block_timestamp,
                random,
                old(self)@.instances@.len() as int,
            ),
            all_moved_on(old(self)@.instances@, final(self)@.instances@),
    ;

    /// Removes every instance whose prize was claimed. Reserved to the
    /// owner.
    fn clean_claimed_instances(&mut self, ctx: &CallContext) -> (res: Result<(), Error>)
        requires
            old(self)@.wf(),
        ensures
            final(self)@.wf(),
            res == if ctx.by_owner() {
                Ok::<(), Error>(())
            } else {
                Err(Error::CallerNotAllowed)
            },
            res is Err ==> final(self)@ == old(self)@,
            res is Ok ==> final(self)@ == (LotteryContract {
                instances: final(self)@.instances,
                ..old(self)@
            }) && final(self)@.instances@ == old(self)@.instances@.filter(unclaimed()),
    ;

    /// Sets the fee that a player pays. Reserved to the owner.
    fn set_fees(&mut self, ctx: &CallContext, fees_amount: u128) -> (res: Result<(), Error>)
        requires
            old(self)@.wf(),
        ensures
            final(self)@.wf(),
            res == if ctx.by_owner() {
                Ok::<(), Error>(())
            } else {
                Err(Error::CallerNotAllowed)
            },
            res is Err ==> final(self)@ == old(self)@,
            res is Ok ==> final(self)@ == (LotteryContract { fees2apply: fees_amount, ..old(self)@ }),
    ;

    /// Pays the whole fee pool to the owner. Reserved to the owner.
    fn claim_fees(&mut self, ctx: &CallContext) -> (res: Result<(), Error>)
        requires
            old(self)@.wf(),
        ensures
            final(self)@.wf(),
            res == if !ctx.by_owner() {
                Err::<(), Error>(Error::CallerNotAllowed)
            } else if old(self)@.fees_pool == 0 {
                Err(Error::NoFees)
            } else {
                Ok(())
            },
            res is Err ==> final(self)@ == old(self)@,
            res is Ok ==> final(self)@ == (LotteryContract {
                fees_pool: 0,
                journal: final(self)@.journal,
                ..old(self)@
            }) && final(self)@.journal@ == old(self)@.journal@.push(
                Action::DirectEgld {
                    to: ctx.owner,
                    amount: old(self)@.fees_pool,
                    memo: Memo::FeesClaimed,
                },
            ),
    ;

    /// The fees collected for the owner and not yet paid out.
    fn get_fees_pool(&self) -> (pool: u128)
        ensures
            pool == self@.fees_pool,
    ;

    /// Creates an instance with the caller as sponsor and the payment that
    /// comes with the call as prize. Answers the number of the new instance.
    fn create_instance(
        &mut self,
        ctx: &CallContext,
        token_identifier: Vec<u8>,
        token_nonce: u64,
        token_amount: u128,
        duration_in_s: u64,
        pseudo: Vec<u8>,
        url: Vec<u8>,
        picture_link: Vec<u8>,
        free_text: Vec<u8>,
    ) -> (res: Result<u32, Error>)
        requires
            old(self)@.wf(),
            ctx.wf(),
        ensures
            final(self)@.wf(),
            res == old(self)@.spec_create_instance(*ctx, duration_in_s),
            res is Err ==> final(self)@ == old(self)@,
            res matches Ok(iid) ==> {
                &&& final(self)@ == (LotteryContract {
                    iid_counter: iid,
                    instances: final(self)@.instances,
                    ..old(self)@
                })
                &&& final(self)@.instances@ == old(self)@.instances@.push(
                    Instance {
                        iid,
                        info: InstanceInfo {
                            sponsor_address: ctx.caller,
                            sponsor_info: SponsorInfo { pseudo, url, picture_link, free_text },
                            prize_info: PrizeInfo { token_identifier, token_nonce, token_amount },
                            deadline: (ctx.block_timestamp + duration_in_s) as u64,
                            claimed_status: false,
                            winner_address: Address::zero(),
                        },
                        players: final(self)@.instances@.last().players,
                    },
                )
                &&& final(self)@.instances@.last().players@ == Seq::<Address>::empty()
                &&& final(self)@.spec_status(ctx.block_timestamp, iid) == InstanceStatus::Running
            },
            all_moved_on(old(self)@.instances@, final(self)@.instances@),
    ;

    /// Draws the winner of the instance numbered `iid`, which must be past
    /// its deadline, with the random number `random` of the block. Open to
    /// the sponsor of the instance and to the owner.
    fn trigger(&mut self, ctx: &CallContext, iid: u32, random: u32) -> (res: Result<(), Error>)
        requires
            old(self)@.wf(),
        ensures
            final(self)@.wf(),
            res == old(self)@.spec_trigger(*ctx, iid),
            res is Err ==> final(self)@ == old(self)@,
            res is Ok ==> {
                let i = old(self)@.spec_index(iid);
                &&& final(self)@ == (LotteryContract { instances: final(self)@.instances, ..old(self)@ })
                &&& final(self)@.instances@ == old(self)@.instances@.update(
                    i,
                    old(self)@.instances@[i].spec_drawn(random),
                )
                &&& final(self)@.spec_status(ctx.block_timestamp, iid) == InstanceStatus::Triggered
            },
            all_moved_on(old(self)@.instances@, final(self)@.instances@),
    ;

    /// Gives the caller a ticket of the instance numbered `iid`, for the
    /// `fees` that come with the call.
    fn play(&mut self, ctx: &CallContext, fees: u128, iid: u32) -> (res: Result<(), Error>)
        requires
            old(self)@.wf(),
            ctx.wf(),
        ensures
            final(self)@.wf(),
            res == old(self)@.spec_play(*ctx, fees, iid),
            res is Err ==> final(self)@ == old(self)@,
            res is Ok ==> {
                let i = old(self)@.spec_index(iid);
                &&& final(self)@ == (LotteryContract {
                    instances: final(self)@.instances,
                    fees_pool: (old(self)@.fees_pool + fees) as u128,
                    ..old(self)@
                })
                &&& final(self)@.instances@ == old(self)@.instances@.update(i, final(self)@.instances@[i])
                &&& final(self)@.instances@[i] == (Instance {
                    players: final(self)@.instances@[i].players,
                    ..old(self)@.instances@[i]
                })
                &&& final(self)@.instances@[i].players@ == old(self)@.instances@[i].players@.push(
                    ctx.caller,
                )
            },
            all_moved_on(old(self)@.instances@, final(self)@.instances@),
    ;

    /// Hands the prize of the instance numbered `iid` to the caller, who
    /// must have won it.
    fn claim_prize(&mut self, ctx: &CallContext, iid: u32) -> (res: Result<(), Error>)
        requires
            old(self)@.wf(),
        ensures
            final(self)@.wf(),
            res == old(self)@.spec_claim_prize(*ctx, iid),
            res is Err ==> final(self)@ == old(self)@,
            res is Ok ==> {
                let i = old(self)@.spec_index(iid);
                let inst = old(self)@.instances@[i];
                &&& final(self)@ == (LotteryContract {
                    instances: final(self)@.instances,
                    journal: final(self)@.journal,
                    ..old(self)@
                })
                &&& final(self)@.instances@ == old(self)@.instances@.update(
                    i,
                    Instance { info: InstanceInfo { claimed_status: true, ..inst.info }, ..inst },
                )
                &&& journal_extended(
                    old(self)@.journal@,
                    final(self)@.journal@,
                    seq![spec_prize_payment(inst.info.prize_info, ctx.caller)],
                )
                &&& final(self)@.spec_status(ctx.block_timestamp, iid) == InstanceStatus::Claimed
            },
            all_moved_on(old(self)@.instances@, final(self)@.instances@),
    ;

    /// The fee that a player pays.
    fn get_fees(&self) -> (fees: u128)
        ensures
            fees == self@.fees2apply,
    ;

    /// How many instances there are.
    fn get_nb_instances(&self) -> (count: u32)
        requires
            self@.wf(),
        ensures
            count == self@.instances@.len(),
    ;

    /// The status at time `now` of the instance numbered `iid`.
    fn get_instance_status(&self, now: u64, iid: u32) -> (status: InstanceStatus)
        requires
            self@.wf(),
        ensures
            status == self@.spec_status(now, iid),
    ;

    /// What is recorded of the instance numbered `iid`, its status at time
    /// `now`, and the number of its players.
    fn get_instance_info(&self, now: u64, iid: u32) -> (res: Result<
        (InstanceInfo, InstanceStatus, usize),
        Error,
    >)
        requires
            self@.wf(),
        ensures
            match self@.spec_instance(iid) {
                None => res == Err::<(InstanceInfo, InstanceStatus, usize), Error>(
                    Error::NoSuchInstance,
                ),
                Some(inst) => res is Ok && inst.info.agrees(res->Ok_0.0) && res->Ok_0.1
                    == inst.info.spec_status(now) && res->Ok_0.2 == inst.players@.len(),
            },
    ;

    /// The seconds left at time `now` until the deadline of the instance
    /// numbered `iid`.
    fn get_remaining_time(&self, now: u64, iid: u32) -> (res: Result<u64, Error>)
        requires
            self@.wf(),
        ensures
            res == match self@.spec_instance(iid) {
                None => Err::<u64, Error>(Error::NoSuchInstance),
                Some(inst) => Ok(
                    if inst.info.deadline > now {
                        (inst.info.deadline - now) as u64
                    } else {
                        0
                    },
                ),
            },
    ;

    /// Whether some instance has the status `instance_status` at time `now`.
    fn is_instance_with_status(&self, now: u64, instance_status: InstanceStatus) -> (found: bool)
        requires
            self@.wf(),
        ensures
            found == (self@.spec_instance_ids(now, seq![instance_status]).len() != 0),
    ;

    /// The numbers of the instances that have, at time `now`, one of the
    /// statuses of `status_filter`.
    fn get_instance_ids(&self, now: u64, status_filter: &Vec<InstanceStatus>) -> (iids: Vec<u32>)
        requires
            self@.wf(),
        ensures
            iids@ == self@.spec_instance_ids(now, status_filter@),
    ;

    /// The numbers of the instances that `sponsor_address` funds.
    fn get_sponsor_instances(&self, sponsor_address: Address) -> (iids: Vec<u32>)
        requires
            self@.wf(),
        ensures
            iids@ == iids_where(self@.instances@, sponsored_by(sponsor_address)),
    ;

    /// The numbers of the instances that `player_address` has played.
    fn get_player_instances(&self, player_address: Address) -> (iids: Vec<u32>)
        requires
            self@.wf(),
        ensures
            iids@ == iids_where(self@.instances@, played_by(player_address)),
    ;

    /// Whether `player_address` holds a ticket of the instance numbered `iid`.
    fn has_played(&self, iid: u32, player_address: Address) -> (played: bool)
        requires
            self@.wf(),
        ensures
            played == match self@.spec_instance(iid) {
                Some(inst) => inst.spec_has_player(player_address),
                None => false,
            },
    ;

    /// Whether `player_address` has won the instance numbered `iid`.
    fn has_won(&self, iid: u32, player_address: Address) -> (res: Result<bool, Error>)
        requires
            self@.wf(),
        ensures
            res == match self@.spec_instance(iid) {
                None => Err::<bool, Error>(Error::NoSuchInstance),
                Some(inst) => Ok(inst.info.winner_address == player_address),
            },
    ;
}

impl LotteryContract {
    /// The numbers of the instances that `mode` stands for, by increasing
    /// number.
    fn collect(&self, now: u64, mode: Pick<'_>) -> (iids: Vec<u32>)
        ensures
            iids@ == iids_where(self.instances@, mode.spec_test(now)),
    {
        let ghost wanted = mode.spec_test(now);
        let mut found: Vec<u32> = Vec::new();
        let mut i: usize = 0;
        proof {
            lemma_iids_where_ends(self.instances@, wanted);
        }
        while i < self.instances.len()
            invariant
                i <= self.instances@.len(),
                wanted == mode.spec_test(now),
                found@ == iids_where(self.instances@.take(i as int), wanted),
            decreases self.instances@.len() - i,
        {
            proof {
                lemma_iids_where_step(self.instances@, wanted, i as int);
            }
            if mode.test(&self.instances[i], now) {
                found.push(self.instances[i].iid);
            }
            i += 1;
        }
        found
    }
}

/// What to look for among the instances.
pub enum Pick<'a> {
    /// Those whose status is one of the given.
    Status(&'a Vec<InstanceStatus>),
    /// Those that the given address funds.
    Sponsor(Address),
    /// Those of which the given address holds a ticket.
    Player(Address),
}

impl<'a> Pick<'a> {
    /// The test that this choice stands for, at time `now`.
    pub open spec fn spec_test(&self, now: u64) -> spec_fn(Instance) -> bool {
        match *self {
            Pick::Status(filter) => has_status_in(now, filter@),
            Pick::Sponsor(sponsor) => sponsored_by(sponsor),
            Pick::Player(player) => played_by(player),
        }
    }

    /// Whether `inst` is among those looked for, at time `now`.
    pub fn test(&self, inst: &Instance, now: u64) -> (wanted: bool)
        ensures
            wanted == (self.spec_test(now))(*inst),
    {
        match *self {
            Pick::Status(filter) => status_in(filter, inst.info.status(now)),
            Pick::Sponsor(sponsor) => inst.info.sponsor_address == sponsor,
            Pick::Player(player) => inst.has_player(player),
        }
    }
}

impl Lottery for LotteryContract {
    fn init(&mut self) -> (res: Result<(), Error>) {
        Ok(())
    }

    fn trigger_ended_instances(&mut self, ctx: &CallContext, random: u32) -> (res: Result<(), Error>) {
        if !ctx.by_owner() {
            return Err(Error::CallerNotAllowed);
        }
        let now = ctx.block_timestamp;
        let ghost list = old(self).instances@;
        let mut i: usize = 0;
        assert(self.instances@ =~= spec_all_drawn(list, now, random, 0));
        while i < self.instances.len()
            invariant
                self.wf(),
                old(self).wf(),
                list == old(self).instances@,
                i <= list.len(),
                *self == (LotteryContract { instances: self.instances, ..*old(self) }),
                self.instances@ == spec_all_drawn(list, now, random, i as int),
            decreases list.len() - i,
        {
            assert(self.instances@[i as int] == list[i as int]);
            if self.instances[i].info.status(now) == InstanceStatus::Ended {
                let winner = self.instances[i].winner(random);
                self.instances[i].info.winner_address = winner;
            }
            assert(self.instances@ =~= spec_all_drawn(list, now, random, i as int + 1));
            i += 1;
        }
        Ok(())
    }

    fn clean_claimed_instances(&mut self, ctx: &CallContext) -> (res: Result<(), Error>) {
        if !ctx.by_owner() {
            return Err(Error::CallerNotAllowed);
        }
        let ghost list = old(self).instances@;
        let ghost mut k: int = 0;
        let mut i: usize = 0;
        proof {
            assert(list.take(0).filter(unclaimed()) == Seq::<Instance>::empty()) by {
                reveal(Seq::filter);
            }
            assert(Seq::<Instance>::empty() + list.skip(0) == list);
        }
        while i < self.instances.len()
            invariant
                self.wf(),
                list == old(self).instances@,
                0 <= k <= list.len(),
                *self == (LotteryContract { instances: self.instances, ..*old(self) }),
                i == list.take(k).filter(unclaimed()).len(),
                self.instances@ == list.take(k).filter(unclaimed()) + list.skip(k),
            decreases list.len() - k,
        {
            let ghost current = self.instances@;
            let ghost kept = list.take(k).filter(unclaimed());
            proof {
                assert(k < list.len());
                assert(current[i as int] == list[k]);
                list.lemma_take_succ_push(k);
                list.take(k).lemma_filter_push(list[k], unclaimed());
            }
            if self.instances[i].info.claimed_status {
                self.instances.remove(i);
                proof {
                    let after = self.instances@;
                    assert(after =~= kept + list.skip(k + 1));
                    lemma_lookup_removed(current, i as int, 0);
                    assert forall|j: int| 0 <= j < after.len() implies (#[trigger] after[j]).wf()
                        && after[j].iid <= self.iid_counter by {
                        let j0 = if j < i { j } else { j + 1 };
                        assert(after[j] == current[j0]);
                        assert(current[j0].wf());
                    }
                }
            } else {
                proof {
                    assert(current =~= kept.push(list[k]) + list.skip(k + 1));
                }
                i += 1;
            }
            proof {
                k = k + 1;
            }
        }
        proof {
            assert(k == list.len()) by {
                assert(self.instances@.len() == i + (list.len() - k));
            }
            assert(list.take(k) == list);
            assert(list.filter(unclaimed()) + list.skip(k) =~= list.filter(unclaimed()));
        }
        Ok(())
    }

    fn set_fees(&mut self, ctx: &CallContext, fees_amount: u128) -> (res: Result<(), Error>) {
        if !ctx.by_owner() {
            return Err(Error::CallerNotAllowed);
        }
        self.fees2apply = fees_amount;
        Ok(())
    }

    fn claim_fees(&mut self, ctx: &CallContext) -> (res: Result<(), Error>) {
        if !ctx.by_owner() {
            return Err(Error::CallerNotAllowed);
        }
        if self.fees_pool == 0 {
            return Err(Error::NoFees);
        }
        self.journal.push(
            Action::DirectEgld { to: ctx.owner, amount: self.fees_pool, memo: Memo::FeesClaimed },
        );
        self.fees_pool = 0;
        Ok(())
    }

    fn get_fees_pool(&self) -> (pool: u128) {
        self.fees_pool
    }

    fn create_instance(
        &mut self,
        ctx: &CallContext,
        token_identifier: Vec<u8>,
        token_nonce: u64,
        token_amount: u128,
        duration_in_s: u64,
        pseudo: Vec<u8>,
        url: Vec<u8>,
        picture_link: Vec<u8>,
        free_text: Vec<u8>,
    ) -> (res: Result<u32, Error>) {
        if duration_in_s == 0 {
            return Err(Error::NullDuration);
        }
        if duration_in_s > u64::MAX - ctx.block_timestamp {
            return Err(Error::Overflow);
        }
        let deadline: u64 = ctx.block_timestamp + duration_in_s;
        if self.iid_counter == u32::MAX {
            return Err(Error::Overflow);
        }
        let new_iid: u32 = self.iid_counter + 1;
        let sponsor_info = SponsorInfo { pseudo, url, picture_link, free_text };
        let prize_info = PrizeInfo { token_identifier, token_nonce, token_amount };
        let instance = Instance {
            iid: new_iid,
            info: InstanceInfo {
                sponsor_address: ctx.caller,
                sponsor_info,
                prize_info,
                deadline,
                claimed_status: false,
                winner_address: Address::zero(),
            },
            players: Vec::new(),
        };
        self.instances.push(instance);
        self.iid_counter = new_iid;
        proof {
            let before = old(self).instances@;
            let after = self.instances@;
            assert(after == before.push(instance));
            assert forall|i: int, j: int| 0 <= i < j < after.len() implies after[i].number()
                < after[j].number() by {
                assert(before[i].wf());
            }
            lemma_lookup_at(after, before.len() as int);
        }
        Ok(new_iid)
    }

    fn trigger(&mut self, ctx: &CallContext, iid: u32, random: u32) -> (res: Result<(), Error>) {
        let i = match find(&self.instances, iid) {
            None => {
                return Err(Error::WrongState);
            },
            Some(i) => i,
        };
        if self.instances[i].info.status(ctx.block_timestamp) != InstanceStatus::Ended {
            return Err(Error::WrongState);
        }
        if ctx.caller != self.instances[i].info.sponsor_address && ctx.caller != ctx.owner {
            return Err(Error::BadCaller);
        }
        assert(self.instances@[i as int].wf());
        let winner = self.instances[i].winner(random);
        self.instances[i].info.winner_address = winner;
        proof {
            lemma_lookup_at(self.instances@, i as int);
        }
        Ok(())
    }

    fn play(&mut self, ctx: &CallContext, fees: u128, iid: u32) -> (res: Result<(), Error>) {
        let caller = ctx.caller;
        let i = match find(&self.instances, iid) {
            None => {
                return Err(Error::NotActive);
            },
            Some(i) => i,
        };
        if self.instances[i].info.status(ctx.block_timestamp) != InstanceStatus::Running {
            return Err(Error::NotActive);
        }
        if self.instances[i].has_player(caller) {
            return Err(Error::AlreadyPlayed);
        }
        if fees != self.fees2apply {
            return Err(Error::WrongFees);
        }
        let total = match checked_credit(self.fees_pool, fees) {
            None => {
                return Err(Error::Overflow);
            },
            Some(sum) => sum,
        };
        if fees != 0 {
            self.fees_pool = total;
        }
        self.instances[i].players.push(caller);
        proof {
            let before = old(self).instances@;
            let after = self.instances@;
            assert(after == before.update(i as int, after[i as int]));
            assert(before[i as int].wf());
            assert forall|k: int| 0 <= k < after[i as int].players@.len() implies !(
            #[trigger] after[i as int].players@[k]).is_zero() by {
                if k < before[i as int].players@.len() {
                    assert(after[i as int].players@[k] == before[i as int].players@[k]);
                }
            }
        }
        Ok(())
    }

    fn claim_prize(&mut self, ctx: &CallContext, iid: u32) -> (res: Result<(), Error>) {
        let i = match find(&self.instances, iid) {
            None => {
                return Err(Error::WrongState);
            },
            Some(i) => i,
        };
        if self.instances[i].info.status(ctx.block_timestamp) != InstanceStatus::Triggered {
            return Err(Error::WrongState);
        }
        if self.instances[i].info.winner_address != ctx.caller {
            return Err(Error::NotWinner);
        }
        self.journal.push(
            Action::Direct {
                to: self.instances[i].info.winner_address,
                token_identifier: self.instances[i].info.prize_info.token_identifier.clone(),
                token_nonce: self.instances[i].info.prize_info.token_nonce,
                amount: self.instances[i].info.prize_info.token_amount,
                memo: Memo::PrizeClaimed,
            },
        );
        self.instances[i].info.claimed_status = true;
        proof {
            let before = old(self).journal@;
            assert(self.journal@.subrange(0, before.len() as int) =~= before);
            assert(old(self).instances@[i as int].wf());
            lemma_lookup_at(self.instances@, i as int);
        }
        Ok(())
    }

    fn get_fees(&self) -> (fees: u128) {
        self.fees2apply
    }

    fn get_nb_instances(&self) -> (count: u32) {
        proof {
            self.lemma_instances_counted();
        }
        self.instances.len() as u32
    }

    fn get_instance_status(&self, now: u64, iid: u32) -> (status: InstanceStatus) {
        match find(&self.instances, iid) {
            None => InstanceStatus::NotExisting,
            Some(i) => self.instances[i].info.status(now),
        }
    }

    fn get_instance_info(&self, now: u64, iid: u32) -> (res: Result<
        (InstanceInfo, InstanceStatus, usize),
        Error,
    >) {
        match find(&self.instances, iid) {
            None => Err(Error::NoSuchInstance),
            Some(i) => Ok(
                (
                    self.instances[i].info.duplicate(),
                    self.instances[i].info.status(now),
                    self.instances[i].players.len(),
                ),
            ),
        }
    }

    fn get_remaining_time(&self, now: u64, iid: u32) -> (res: Result<u64, Error>) {
        match find(&self.instances, iid) {
            None => Err(Error::NoSuchInstance),
            Some(i) => {
                let deadline: u64 = self.instances[i].info.deadline;
                let mut remaining_time: u64 = 0;
                if deadline > now {
                    remaining_time = deadline - now;
                }
                Ok(remaining_time)
            },
        }
    }

    fn is_instance_with_status(&self, now: u64, instance_status: InstanceStatus) -> (found: bool) {
        let mut filter: Vec<InstanceStatus> = Vec::new();
        filter.push(instance_status);
        assert(filter@ == seq![instance_status]);
        let instances = self.get_instance_ids(now, &filter);
        instances.len() != 0
    }

    fn get_instance_ids(&self, now: u64, status_filter: &Vec<InstanceStatus>) -> (iids: Vec<u32>) {
        if status_filter.len() >= 1 && status_filter.len() <= InstanceStatus::VARIANT_COUNT {
            self.collect(now, Pick::Status(status_filter))
        } else {
            Vec::new()
        }
    }

    fn get_sponsor_instances(&self, sponsor_address: Address) -> (iids: Vec<u32>) {
        self.collect(0, Pick::Sponsor(sponsor_address))
    }

    fn get_player_instances(&self, player_address: Address) -> (iids: Vec<u32>) {
        self.collect(0, Pick::Player(player_address))
    }

    fn has_played(&self, iid: u32, player_address: Address) -> (played: bool) {
        match find(&self.instances, iid) {
            Some(i) => self.instances[i].has_player(player_address),
            None => false,
        }
    }

    fn has_won(&self, iid: u32, player_address: Address) -> (res: Result<bool, Error>) {
        match find(&self.instances, iid) {
            None => Err(Error::NoSuchInstance),
            Some(i) => Ok(self.instances[i].info.winner_address == player_address),
        }
    }
}

} // verus!
