//! The prize contract: sponsors put up prizes, players take tickets, and a
//! draw among the tickets decides who gets the prize.

use vstd::prelude::*;
use crate::action::{
    journal_extended, lemma_journal_appended, lemma_journal_extended_alike,
    lemma_journal_extended_twice, Action, Event, Memo,
};
use crate::address::Address;
use crate::charity::CharityModule;
use crate::context::{CallContext, ContractBase};
use crate::error::Error;
use crate::event::EventModule;
use crate::fee::{FeeModule, FeePolicy};
use crate::instance::{
    all_moved_on, has_status_in, spec_usable_filter, status_in, Instance, InstanceInfo,
    InstanceModule, InstanceState, InstanceStatus, PrizeInfo, RewardInfo, SponsorInfo, WinnerInfo,
};
use crate::parameter::ParameterModule;
use crate::player::PlayerModule;
use crate::security::SecurityModule;
use crate::sponsor::SponsorModule;
use crate::registry::{
    ascending, has_iid, iids_where, index_of, lemma_ascending_is_distinct, lemma_iids_where_ends,
    lemma_iids_where_step, lemma_lookup_at, lemma_lookup_pushed, lemma_lookup_removed, lookup,
};
use crate::state::{
    lemma_open_count_kept, lemma_open_count_push, lemma_open_count_remove, lemma_open_count_update,
    open_count, settled_kept, PrizeContract,
};

verus! {

/// What the contract tells of one instance to one reader.
#[derive(Clone, Debug, PartialEq, Eq)]
pub struct GetInfoStruct {
    pub iid: u32,
    pub instance_status: InstanceStatus,
    pub number_of_players: usize,
    /// Whether the reader holds a ticket of the instance.
    pub has_played: bool,
    /// Whether the reader has won the instance.
    pub has_won: bool,
    pub winner_info: WinnerInfo,
    pub sponsor_info: SponsorInfo,
    pub prize_info: PrizeInfo,
    pub premium: bool,
    pub charity: bool,
    pub deadline: u64,
}

impl GetInfoStruct {
    /// Whether this is what the contract tells of `inst` at time `now` to
    /// the reader `player_address`. A reader with the zero address is
    /// nobody: it has neither played nor won.
    pub open spec fn describes(self, inst: Instance, now: u64, player_address: Address) -> bool {
        &&& self.iid == inst.iid
        &&& self.instance_status == inst.spec_status(now)
        &&& self.number_of_players == inst.players@.len()
        &&& self.has_played == (!player_address.is_zero() && inst.players@.contains(
            player_address,
        ))
        &&& self.has_won == (!player_address.is_zero() && player_address
            == inst.state.winner_info.address)
        &&& self.winner_info == inst.state.winner_info
        &&& inst.info.sponsor_info.agrees(self.sponsor_info)
        &&& inst.info.prize_info.agrees(self.prize_info)
        &&& self.premium == inst.info.premium
        &&& self.charity == inst.info.charity
        &&& self.deadline == inst.info.deadline
    }

    /// Whether an instance was `found` and this is what the contract tells
    /// of it.
    pub open spec fn describes_found(
        self,
        found: Option<Instance>,
        now: u64,
        player_address: Address,
    ) -> bool {
        found matches Some(inst) && self.describes(inst, now, player_address)
    }

    /// What the contract tells of `inst` at time `now` to `player_address`.
    pub fn of(inst: &Instance, now: u64, player_address: Address) -> (info: GetInfoStruct)
        ensures
            info.describes(*inst, now, player_address),
    {
        let mut has_played: bool = false;
        let mut has_won: bool = false;
        if !player_address.is_zero() {
            has_played = inst.has_player(player_address);
            has_won = player_address == inst.state.winner_info.address;
        }
        GetInfoStruct {
            iid: inst.iid,
            instance_status: inst.status(now),
            number_of_players: inst.players.len(),
            has_played,
            has_won,
            winner_info: inst.state.winner_info,
            sponsor_info: inst.info.sponsor_info.duplicate(),
            prize_info: inst.info.prize_info.duplicate(),
            premium: inst.info.premium,
            charity: inst.info.charity,
            deadline: inst.info.deadline,
        }
    }
}

/// The test "the instance is numbered `iid_start` or higher, and its status
/// at time `now` is one of `filter`".
pub open spec fn listed_from(now: u64, filter: Seq<InstanceStatus>, iid_start: u32) -> spec_fn(
    Instance,
) -> bool {
    |inst: Instance| inst.iid >= iid_start && filter.contains(inst.spec_status(now))
}

/// Whether `infos` tells of the instances numbered `iids`, one by one and in
/// order.
pub open spec fn describe_all(
    infos: Seq<GetInfoStruct>,
    list: Seq<Instance>,
    iids: Seq<u32>,
    now: u64,
    player_address: Address,
) -> bool {
    &&& infos.len() == iids.len()
    &&& forall|k: int|
        0 <= k < infos.len() ==> (#[trigger] infos[k]).describes_found(
            lookup(list, iids[k]),
            now,
            player_address,
        )
}

/// If `told` tells of the instances numbered `iids`, then `told` with one
/// more entry that tells of the instance at `i` tells of those numbered
/// `iids` and then of that one.
pub proof fn lemma_described_one_more(
    told: Seq<GetInfoStruct>,
    next: GetInfoStruct,
    list: Seq<Instance>,
    iids: Seq<u32>,
    i: int,
    now: u64,
    player_address: Address,
)
    requires
        ascending(list),
        0 <= i < list.len(),
        describe_all(told, list, iids, now, player_address),
        next.describes(list[i], now, player_address),
    ensures
        describe_all(told.push(next), list, iids.push(list[i].iid), now, player_address),
{
    let more = told.push(next);
    let longer = iids.push(list[i].iid);
    lemma_lookup_at(list, i);
    assert forall|k: int| 0 <= k < more.len() implies (#[trigger] more[k]).describes_found(
        lookup(list, longer[k]),
        now,
        player_address,
    ) by {
        if k < told.len() {
            assert(more[k] == told[k]);
            assert(longer[k] == iids[k]);
            assert(told[k].describes_found(lookup(list, iids[k]), now, player_address));
        } else {
            assert(more[k] == next);
            assert(longer[k] == list[i].iid);
        }
    }
}

/// Whether an instance was `found` and `told` gives its number, its status
/// at time `now`, the number of its players, its winner and what was fixed
/// at its creation.
pub open spec fn legacy_describes_found(
    told: (u32, InstanceStatus, usize, Address, InstanceInfo),
    found: Option<Instance>,
    now: u64,
) -> bool {
    found matches Some(inst) && told.0 == inst.iid && told.1 == inst.spec_status(now) && told.2
        == inst.players@.len() && told.3 == inst.state.winner_info.address && inst.info.agrees(
        told.4,
    )
}

/// Whether `told` tells, in the four-part form, of the instances numbered
/// `iids`, one by one and in order.
pub open spec fn legacy_describe_all(
    told: Seq<(u32, InstanceStatus, usize, Address, InstanceInfo)>,
    list: Seq<Instance>,
    iids: Seq<u32>,
    now: u64,
) -> bool {
    &&& told.len() == iids.len()
    &&& forall|k: int|
        0 <= k < told.len() ==> legacy_describes_found(
            #[trigger] told[k],
            lookup(list, iids[k]),
            now,
        )
}

/// The test "the instance is past its deadline at time `now` and waits for
/// its draw".
pub open spec fn ended_at(now: u64) -> spec_fn(Instance) -> bool {
    |inst: Instance| inst.spec_status(now) == InstanceStatus::Ended
}

/// How many of the first `upto` instances of `list` wait for their draw at
/// time `now`.
pub open spec fn spec_ended_before(list: Seq<Instance>, now: u64, upto: int) -> nat {
    iids_where(list.take(upto), ended_at(now)).len()
}

/// Whether `tickets` holds one ticket for each instance of `list` that waits
/// for its draw at time `now`, in the order of the list, and each is a
/// ticket of its instance unless the instance has none.
pub open spec fn spec_tickets_fit(list: Seq<Instance>, now: u64, tickets: Seq<usize>) -> bool {
    &&& tickets.len() == spec_ended_before(list, now, list.len() as int)
    &&& forall|i: int|
        0 <= i < list.len() && (#[trigger] list[i]).spec_status(now) == InstanceStatus::Ended
            && list[i].players@.len() > 0 ==> 1 <= tickets[spec_ended_before(list, now, i) as int]
            <= list[i].players@.len()
}

/// The sponsor rewards that the draws of the first `upto` instances of
/// `list` give to charity.
pub open spec fn spec_donated(list: Seq<Instance>, now: u64, upto: int) -> nat
    decreases upto,
{
    if upto <= 0 {
        0
    } else {
        let inst = list[upto - 1];
        spec_donated(list, now, upto - 1) + if inst.spec_status(now) == InstanceStatus::Ended
            && inst.info.charity {
            inst.state.reward_info.pool as nat
        } else {
            0nat
        }
    }
}

/// The list of instances after the draw of every instance among the first
/// `upto` that waits for it at time `now`, each with its ticket of
/// `tickets`.
pub open spec fn spec_all_drawn(
    list: Seq<Instance>,
    now: u64,
    tickets: Seq<usize>,
    manual_claim: bool,
    upto: int,
) -> Seq<Instance> {
    Seq::new(
        list.len(),
        |i: int|
            if i < upto && list[i].spec_status(now) == InstanceStatus::Ended {
                spec_drawn(list[i], tickets[spec_ended_before(list, now, i) as int], manual_claim)
            } else {
                list[i]
            },
    )
}

/// The longer the part of the list, the more draws are due in it.
pub proof fn lemma_ended_before_grows(list: Seq<Instance>, now: u64, fewer: int, upto: int)
    requires
        0 <= fewer <= upto <= list.len(),
    ensures
        spec_ended_before(list, now, fewer) <= spec_ended_before(list, now, upto),
    decreases upto,
{
    if fewer < upto {
        lemma_ended_before_grows(list, now, fewer, upto - 1);
        lemma_iids_where_step(list, ended_at(now), upto - 1);
    }
}

/// The longer the part of the list, the more its draws give to charity.
pub proof fn lemma_donated_grows(list: Seq<Instance>, now: u64, fewer: int, upto: int)
    requires
        fewer <= upto,
    ensures
        spec_donated(list, now, fewer) <= spec_donated(list, now, upto),
    decreases upto,
{
    if fewer < upto && upto > 0 {
        lemma_donated_grows(list, now, fewer, upto - 1);
    }
}

/// Whether an instance counts as claimed: its prize was handed out, and it
/// is not disabled.
pub open spec fn spec_is_claimed(inst: Instance) -> bool {
    !inst.state.disabled && inst.state.claimed_status
}

/// The instances that are left of `list` when those numbered `iids` are
/// looked at one after the other and each that counts as claimed is taken
/// out; with them, the numbers of the instances taken out, in that order.
pub open spec fn spec_cleaned(list: Seq<Instance>, iids: Seq<u32>) -> (Seq<Instance>, Seq<u32>)
    decreases iids.len(),
{
    if iids.len() == 0 {
        (list, Seq::empty())
    } else {
        let (left, taken) = spec_cleaned(list, iids.drop_last());
        let iid = iids.last();
        match lookup(left, iid) {
            Some(inst) => if spec_is_claimed(inst) {
                (left.remove(index_of(left, iid)), taken.push(iid))
            } else {
                (left, taken)
            },
            None => (left, taken),
        }
    }
}

/// What cleaning leaves: the list stays ascending, an instance is gone
/// exactly if it was named and counted as claimed, and every other instance
/// is found as before.
pub proof fn lemma_cleaned_lookup(list: Seq<Instance>, iids: Seq<u32>, iid: u32)
    requires
        ascending(list),
    ensures
        ascending(spec_cleaned(list, iids).0),
        lookup(spec_cleaned(list, iids).0, iid) == if iids.contains(iid) && lookup(list, iid)
            is Some && spec_is_claimed(lookup(list, iid)->0) {
            None
        } else {
            lookup(list, iid)
        },
    decreases iids.len(),
{
    if iids.len() > 0 {
        let fewer = iids.drop_last();
        let last = iids.last();
        let left = spec_cleaned(list, fewer).0;
        lemma_cleaned_lookup(list, fewer, iid);
        lemma_cleaned_lookup(list, fewer, last);
        assert(iids.contains(iid) <==> fewer.contains(iid) || iid == last) by {
            if fewer.contains(iid) {
                let k = choose|k: int| 0 <= k < fewer.len() && fewer[k] == iid;
                assert(iids[k] == iid);
            }
            if iids.contains(iid) {
                let k = choose|k: int| 0 <= k < iids.len() && iids[k] == iid;
                if k < fewer.len() {
                    assert(fewer[k] == iid);
                }
            }
            assert(iids[iids.len() - 1] == last);
        }
        match lookup(left, last) {
            Some(inst) => {
                if spec_is_claimed(inst) {
                    let at = index_of(left, last);
                    assert(has_iid(left, last));
                    lemma_lookup_removed(left, at, iid);
                }
            },
            None => {},
        }
    } else {
        assert(!iids.contains(iid));
    }
}

/// The shortest duration of an instance, in seconds, unless the owner sets
/// another.
pub const DEFAULT_MIN_DURATION: u64 = 60;

/// The longest duration of an instance, in seconds, unless the owner sets
/// another: one year.
pub const DEFAULT_MAX_DURATION: u64 = 31536000;

/// How many instances a sponsor may have waiting for their draw, unless the
/// owner sets another number.
pub const DEFAULT_MAX_NB_INSTANCES_PER_SPONSOR: u32 = 20;

/// How many bytes a sponsor's texts may hold together, unless the owner sets
/// another number.
pub const DEFAULT_MAX_SPONSOR_INFO_LENGTH: u32 = 1000;

/// The value a setting takes when the contract is initialised: the one it
/// has, or `default` while it has none (zero).
pub open spec fn spec_or_default(current: int, default: int) -> int {
    if current == 0 {
        default
    } else {
        current
    }
}

impl PrizeContract {
    /// What `create_instance` answers.
    pub open spec fn spec_create_instance(
        &self,
        ctx: CallContext,
        token_amount: u128,
        duration_in_s: u64,
        text_length: nat,
        premium: bool,
    ) -> Result<u32, Error> {
        if self.spec_is_blacklisted(ctx.caller) {
            Err(Error::CallerBlacklisted)
        } else if self.nb_instances_running.spec_get_or(ctx.caller, 0u32)
            >= self.param_nb_max_instances_per_sponsor {
            Err(Error::MaxInstancesReached)
        } else if duration_in_s < self.param_duration_min || duration_in_s
            > self.param_duration_max {
            Err(Error::DurationOutOfRange)
        } else if token_amount == 0 {
            Err(Error::NullPrize)
        } else if premium {
            Err(Error::PremiumNotAllowed)
        } else if text_length > self.param_sponsor_info_max_length {
            Err(Error::SponsorInfoTooLong)
        } else if self.iid_counter == u32::MAX {
            Err(Error::Overflow)
        } else if ctx.block_timestamp + duration_in_s > u64::MAX {
            Err(Error::Overflow)
        } else if self.fee_policy is None {
            Err(Error::StorageDecode)
        } else {
            Ok((self.iid_counter + 1) as u32)
        }
    }

    /// What paying `rewards` to the sponsor of the instance numbered `iid`
    /// adds to the journal: nothing if there are none.
    pub open spec fn spec_reward_actions(
        &self,
        epoch: u64,
        iid: u32,
        sponsor_address: Address,
        rewards: u128,
    ) -> Seq<Action> {
        if rewards > 0 {
            seq![
                Action::DirectEgld {
                    to: sponsor_address,
                    amount: rewards,
                    memo: Memo::SponsorRewards,
                },
            ] + self.logged(Event::SendRewards { epoch, iid, rewards })
        } else {
            Seq::empty()
        }
    }

    /// The log entries for the removal of the instances numbered `iids`.
    pub open spec fn spec_clean_log(&self, epoch: u64, iids: Seq<u32>) -> Seq<Action> {
        if self.log_enable {
            iids.map_values(|iid: u32| Action::Log(Event::CleanClaim { epoch, iid }))
        } else {
            Seq::empty()
        }
    }

    /// The numbers of the instances that `clean_claimed_instances` looks at:
    /// those it is given, or all that count as claimed if it is given none.
    pub open spec fn spec_clean_targets(&self, now: u64, iids: Seq<u32>) -> Seq<u32> {
        if iids.len() == 0 {
            self.spec_instance_ids(now, seq![InstanceStatus::Claimed])
        } else {
            iids
        }
    }

    /// The numbers of the instances that `get_all_instance_info_frag` would
    /// tell of if it told of all of them.
    pub open spec fn spec_frag_ids(&self, now: u64, filter: Seq<InstanceStatus>, iid_start: u32) -> Seq<
        u32,
    > {
        if spec_usable_filter(filter) {
            iids_where(self.instances@, listed_from(now, filter, iid_start))
        } else {
            Seq::empty()
        }
    }

    /// What the draws of the first `upto` instances add to the journal.
    pub open spec fn spec_draws_journal(&self, epoch: u64, now: u64, tickets: Seq<usize>, upto: int) -> Seq<
        Action,
    >
        decreases upto,
    {
        if upto <= 0 {
            Seq::empty()
        } else {
            let inst = self.instances@[upto - 1];
            let ticket = tickets[spec_ended_before(self.instances@, now, upto - 1) as int];
            self.spec_draws_journal(epoch, now, tickets, upto - 1) + if inst.spec_status(now)
                == InstanceStatus::Ended {
                (if inst.info.charity {
                    Seq::<Action>::empty()
                } else {
                    self.spec_reward_actions(
                        epoch,
                        inst.iid,
                        inst.info.sponsor_info.address,
                        inst.state.reward_info.pool,
                    )
                }) + self.spec_draw_actions(epoch, inst, ticket)
            } else {
                Seq::<Action>::empty()
            }
        }
    }

    /// What `distributed_prizes` answers.
    pub open spec fn spec_distributed_prizes(&self, ctx: CallContext, tickets: Seq<usize>) -> Result<
        (),
        Error,
    > {
        if !ctx.by_owner() {
            Err(Error::OnlyOwner)
        } else if !spec_tickets_fit(self.instances@, ctx.block_timestamp, tickets) {
            Err(Error::IndexOutOfRange)
        } else if self.charity_pool + spec_donated(
            self.instances@,
            ctx.block_timestamp,
            self.instances@.len() as int,
        ) > u128::MAX {
            Err(Error::Overflow)
        } else {
            Ok(())
        }
    }

    /// What `play` answers.
    pub open spec fn spec_play(
        &self,
        ctx: CallContext,
        fees: u128,
        iid: u32,
        link_address: Option<Address>,
    ) -> Result<usize, Error> {
        if self.spec_is_blacklisted(ctx.caller) {
            Err(Error::CallerBlacklisted)
        } else if self.spec_status(ctx.block_timestamp, iid) != InstanceStatus::Running {
            Err(Error::NotActive)
        } else if self.spec_players(iid).contains(ctx.caller) {
            Err(Error::AlreadyPlayed)
        } else if self.fee_policy is None {
            Err(Error::StorageDecode)
        } else if fees != self.fee_policy->0.fee_amount_egld {
            Err(Error::WrongFees)
        } else {
            let reward_info = self.spec_instance(iid)->0.state.reward_info;
            match self.spec_update_fees(fees, reward_info.percent, link_address) {
                Err(e) => Err(e),
                Ok(reward) => if reward_info.pool + reward > u128::MAX {
                    Err(Error::Overflow)
                } else {
                    Ok((self.spec_players(iid).len() + 1) as usize)
                },
            }
        }
    }

    /// What `trigger` answers.
    pub open spec fn spec_trigger(&self, ctx: CallContext, iid: u32, winning_ticket: usize) -> Result<
        (),
        Error,
    > {
        if self.spec_status(ctx.block_timestamp, iid) != InstanceStatus::Ended {
            Err(Error::UnexpectedState)
        } else {
            let inst = self.spec_instance(iid)->0;
            if ctx.caller != inst.info.sponsor_info.address && ctx.caller != ctx.owner {
                Err(Error::BadCaller)
            } else if inst.info.charity && self.charity_pool + inst.state.reward_info.pool
                > u128::MAX {
                Err(Error::Overflow)
            } else if inst.players@.len() > 0 && !(1 <= winning_ticket <= inst.players@.len()) {
                Err(Error::IndexOutOfRange)
            } else {
                Ok(())
            }
        }
    }

    /// What `claim_prize` answers.
    pub open spec fn spec_claim_prize(&self, ctx: CallContext, iid: u32) -> Result<(), Error> {
        if self.spec_is_blacklisted(ctx.caller) {
            Err(Error::CallerBlacklisted)
        } else if self.spec_status(ctx.block_timestamp, iid) != InstanceStatus::Triggered {
            Err(Error::WrongState)
        } else if ctx.caller != self.spec_instance(iid)->0.state.winner_info.address {
            Err(Error::NotWinner)
        } else {
            Ok(())
        }
    }
}

/// The outcome of the draw of `inst` with `winning_ticket`: the holder of
/// that ticket wins; if nobody played, the prize goes back to the sponsor,
/// and the ticket number recorded is zero.
pub open spec fn spec_winner(inst: Instance, winning_ticket: usize) -> WinnerInfo {
    if inst.players@.len() == 0 {
        WinnerInfo { ticket_number: 0, address: inst.info.sponsor_info.address }
    } else {
        WinnerInfo { ticket_number: winning_ticket, address: inst.players@[winning_ticket - 1] }
    }
}

/// The winner of a draw took part: it is the sponsor of the instance or the
/// holder of the ticket drawn, and it is somebody.
pub proof fn lemma_winner_took_part(inst: Instance, winning_ticket: usize)
    requires
        inst.wf(),
        inst.players@.len() > 0 ==> 1 <= winning_ticket <= inst.players@.len(),
    ensures
        !spec_winner(inst, winning_ticket).address.is_zero(),
        inst.players@.len() == 0 ==> spec_winner(inst, winning_ticket).address
            == inst.info.sponsor_info.address,
        inst.players@.len() > 0 ==> inst.players@.contains(
            spec_winner(inst, winning_ticket).address,
        ) && spec_winner(inst, winning_ticket).ticket_number == winning_ticket,
{
    if inst.players@.len() > 0 {
        assert(inst.players@[winning_ticket - 1] == spec_winner(inst, winning_ticket).address);
    }
}

/// The state of `inst` after its draw with `winning_ticket`. Unless winners
/// have to claim their prize, it counts as claimed at once.
pub open spec fn spec_drawn(inst: Instance, winning_ticket: usize, manual_claim: bool) -> Instance {
    Instance {
        state: InstanceState {
            claimed_status: if manual_claim {
                inst.state.claimed_status
            } else {
                true
            },
            winner_info: spec_winner(inst, winning_ticket),
            ..inst.state
        },
        ..inst
    }
}

impl PrizeContract {
    /// What the draw of `inst` adds to the journal, after what is done with
    /// the sponsor's rewards: the payment of the prize unless winners have to
    /// claim it, and the log entries.
    pub open spec fn spec_draw_actions(&self, epoch: u64, inst: Instance, winning_ticket: usize) -> Seq<
        Action,
    > {
        let winner = spec_winner(inst, winning_ticket);
        (if self.param_manual_claim {
            Seq::<Action>::empty()
        } else {
            seq![spec_prize_payment(inst.info.prize_info, winner.address)] + self.logged(
                Event::AutoClaimPrize { epoch, iid: inst.iid },
            )
        }) + self.logged(
            Event::Trigger {
                epoch,
                iid: inst.iid,
                ticket_number: winner.ticket_number,
                winner_address: winner.address,
            },
        )
    }
}

impl PrizeContract {
    /// Whether `tickets` holds one fitting ticket for each draw that is due
    /// at time `now`.
    pub fn tickets_fit(&self, now: u64, tickets: &Vec<usize>) -> (fit: bool)
        ensures
            fit == spec_tickets_fit(self.instances@, now, tickets@),
    {
        let ghost list = self.instances@;
        let ghost wanted = ended_at(now);
        let mut rank: usize = 0;
        let mut i: usize = 0;
        proof {
            lemma_iids_where_ends(list, wanted);
        }
        while i < self.instances.len()
            invariant
                list == self.instances@,
                wanted == ended_at(now),
                i <= list.len(),
                rank == spec_ended_before(list, now, i as int),
                rank <= i,
                rank <= tickets@.len(),
                forall|j: int|
                    0 <= j < i && (#[trigger] list[j]).spec_status(now) == InstanceStatus::Ended
                        && list[j].players@.len() > 0 ==> 1 <= tickets@[spec_ended_before(
                        list,
                        now,
                        j,
                    ) as int] <= list[j].players@.len(),
            decreases list.len() - i,
        {
            proof {
                lemma_iids_where_step(list, wanted, i as int);
            }
            if self.instances[i].status(now) == InstanceStatus::Ended {
                if rank >= tickets.len() {
                    proof {
                        lemma_ended_before_grows(list, now, i as int + 1, list.len() as int);
                    }
                    return false;
                }
                let nb_players = self.instances[i].players.len();
                let ticket = tickets[rank];
                if nb_players > 0 && (ticket == 0 || ticket > nb_players) {
                    assert(list[i as int].spec_status(now) == InstanceStatus::Ended);
                    return false;
                }
                rank += 1;
            }
            i += 1;
        }
        proof {
            assert(list.take(list.len() as int) == list);
        }
        rank == tickets.len()
    }

    /// Whether the charity pool can hold what the draws that are due at time
    /// `now` give it.
    pub fn donations_fit(&self, now: u64) -> (fit: bool)
        ensures
            fit == (self.charity_pool + spec_donated(
                self.instances@,
                now,
                self.instances@.len() as int,
            ) <= u128::MAX),
    {
        let ghost list = self.instances@;
        let mut donations: u128 = self.charity_pool;
        let mut i: usize = 0;
        while i < self.instances.len()
            invariant
                list == self.instances@,
                i <= list.len(),
                donations == self.charity_pool + spec_donated(list, now, i as int),
            decreases list.len() - i,
        {
            if self.instances[i].status(now) == InstanceStatus::Ended
                && self.instances[i].info.charity {
                donations = match crate::amount::checked_credit(
                    donations,
                    self.instances[i].state.reward_info.pool,
                ) {
                    Some(sum) => sum,
                    None => {
                        proof {
                            lemma_donated_grows(list, now, i as int + 1, list.len() as int);
                        }
                        return false;
                    },
                };
            }
            i += 1;
        }
        true
    }
}

impl PrizeContract {
    /// Whether the draw asked for can take place, and where the instance is
    /// stored.
    fn check_trigger(&self, ctx: &CallContext, iid: u32, winning_ticket: usize) -> (res: Result<
        usize,
        Error,
    >)
        requires
            self.wf(),
        ensures
            match res {
                Ok(i) => self.spec_trigger(*ctx, iid, winning_ticket) == Ok::<(), Error>(()) && i
                    == self.spec_index(iid) && i < self.instances@.len()
                    && self.instances@[i as int].iid == iid && self.instances@[i as int].spec_status(
                    ctx.block_timestamp,
                ) == InstanceStatus::Ended,
                Err(e) => self.spec_trigger(*ctx, iid, winning_ticket) == Err::<(), Error>(e),
            },
    {
        let i = match self.find(iid) {
            None => {
                return Err(Error::UnexpectedState);
            },
            Some(i) => i,
        };
        if self.instances[i].status(ctx.block_timestamp) != InstanceStatus::Ended {
            return Err(Error::UnexpectedState);
        }
        let sponsor = self.instances[i].info.sponsor_info.address;
        if ctx.caller != sponsor && ctx.caller != ctx.owner {
            return Err(Error::BadCaller);
        }
        if self.instances[i].info.charity && crate::amount::checked_credit(
            self.charity_pool,
            self.instances[i].state.reward_info.pool,
        ).is_none() {
            return Err(Error::Overflow);
        }
        let nb_players: usize = self.instances[i].players.len();
        if nb_players > 0 && (winning_ticket == 0 || winning_ticket > nb_players) {
            return Err(Error::IndexOutOfRange);
        }
        Ok(i)
    }

    /// Appends to the journal what the draw of `inst` asks of the host.
    fn announce_draw(
        &mut self,
        epoch: u64,
        iid: u32,
        charity: bool,
        sponsor: Address,
        rewards: u128,
        prize_info: &PrizeInfo,
        winner_info: WinnerInfo,
        Ghost(inst): Ghost<Instance>,
        Ghost(winning_ticket): Ghost<usize>,
    )
        requires
            inst.iid == iid,
            inst.info.prize_info.agrees(*prize_info),
            winner_info == spec_winner(inst, winning_ticket),
        ensures
            *final(self) == (PrizeContract { journal: final(self).journal, ..*old(self) }),
            journal_extended(
                old(self).journal@,
                final(self).journal@,
                (if charity {
                    Seq::<Action>::empty()
                } else {
                    old(self).spec_reward_actions(epoch, iid, sponsor, rewards)
                }) + old(self).spec_draw_actions(epoch, inst, winning_ticket),
            ),
    {
        if !charity {
            self.pay_rewards_to_sponsor(epoch, iid, sponsor, rewards);
        }
        let ghost rewarded = if charity {
            Seq::<Action>::empty()
        } else {
            old(self).spec_reward_actions(epoch, iid, sponsor, rewards)
        };
        let ghost journal_1 = self.journal@;
        proof {
            assert(journal_1 == old(self).journal@ + rewarded);
            lemma_journal_appended(old(self).journal@, rewarded);
        }
        let ghost paid = if self.param_manual_claim {
            Seq::<Action>::empty()
        } else {
            seq![spec_prize_payment(inst.info.prize_info, winner_info.address)] + old(self).logged(
                Event::AutoClaimPrize { epoch, iid },
            )
        };
        if !self.param_manual_claim {
            self.func_send_prize(prize_info, &winner_info.address);
            let ghost journal_2 = self.journal@;
            self.event_wrapper_auto_claim_prize(epoch, iid);
            proof {
                let payment = seq![spec_prize_payment(inst.info.prize_info, winner_info.address)];
                let logged = old(self).logged(Event::AutoClaimPrize { epoch, iid });
                lemma_journal_extended_alike(
                    journal_1,
                    journal_2,
                    seq![spec_prize_payment(*prize_info, winner_info.address)],
                    payment,
                );
                lemma_journal_appended(journal_2, logged);
                lemma_journal_extended_twice(journal_1, journal_2, self.journal@, payment, logged);
            }
        } else {
            proof {
                lemma_journal_appended(journal_1, Seq::<Action>::empty());
                assert(journal_1 + Seq::<Action>::empty() == journal_1);
            }
        }
        let ghost journal_3 = self.journal@;
        self.event_wrapper_trigger(epoch, iid, winner_info.ticket_number, &winner_info.address);
        proof {
            let told = old(self).logged(
                Event::Trigger {
                    epoch,
                    iid,
                    ticket_number: winner_info.ticket_number,
                    winner_address: winner_info.address,
                },
            );
            lemma_journal_appended(journal_3, told);
            lemma_journal_extended_twice(journal_1, journal_3, self.journal@, paid, told);
            lemma_journal_extended_twice(
                old(self).journal@,
                journal_1,
                self.journal@,
                rewarded,
                paid + told,
            );
            assert(paid + told == old(self).spec_draw_actions(epoch, inst, winning_ticket));
        }
    }

    /// Records the outcome of the draw of the instance stored at `i`.
    fn record_draw(&mut self, i: usize, winner_info: WinnerInfo, claimed: bool)
        requires
            old(self).wf(),
            i < old(self).instances@.len(),
            old(self).instances@[i as int].state.winner_info.address.is_zero(),
            !winner_info.address.is_zero(),
        ensures
            final(self).wf(),
            *final(self) == (PrizeContract {
                instances: final(self).instances,
                nb_instances_running: final(self).nb_instances_running,
                ..*old(self)
            }),
            final(self).instances@ == old(self).instances@.update(
                i as int,
                Instance {
                    state: InstanceState {
                        claimed_status: claimed,
                        winner_info,
                        ..old(self).instances@[i as int].state
                    },
                    ..old(self).instances@[i as int]
                },
            ),
            old(self).nb_instances_running.spec_get_or(
                old(self).instances@[i as int].info.sponsor_info.address,
                0u32,
            ) >= 1,
            final(self).nb_instances_running@ == old(self).nb_instances_running@.insert(
                old(self).instances@[i as int].info.sponsor_info.address,
                (old(self).nb_instances_running.spec_get_or(
                    old(self).instances@[i as int].info.sponsor_info.address,
                    0u32,
                ) - 1) as u32,
            ),
    {
        let ghost before = old(self).instances@;
        let sponsor = self.instances[i].info.sponsor_info.address;
        self.instances[i].state.winner_info = winner_info;
        self.instances[i].state.claimed_status = claimed;
        let running: u32 = self.nb_instances_running.get_or(sponsor, 0);
        proof {
            let after = self.instances@;
            assert(after == before.update(i as int, after[i as int]));
            lemma_open_count_update(before, i as int, after[i as int], sponsor);
            assert(running == open_count(before, sponsor));
            assert(before[i as int].wf());
        }
        self.nb_instances_running.set(sponsor, running - 1);
        proof {
            let after = self.instances@;
            assert forall|other: Address|
                self.nb_instances_running.spec_get_or(other, 0u32) == #[trigger] open_count(
                    after,
                    other,
                ) by {
                lemma_open_count_update(before, i as int, after[i as int], other);
                assert(old(self).nb_instances_running.spec_get_or(other, 0u32) == open_count(
                    before,
                    other,
                ));
            }
        }
    }
}

/// The payment that hands `prize` to `winner`.
pub open spec fn spec_prize_payment(prize: PrizeInfo, winner: Address) -> Action {
    Action::Direct {
        to: winner,
        token_identifier: prize.token_identifier,
        token_nonce: prize.token_nonce,
        amount: prize.token_amount,
        memo: Memo::SendPrize,
    }
}

/// The endpoints of the prize contract itself: the life of an instance from
/// its creation to the removal of what is left of it, and what there is to
/// tell of it.
pub trait Prize:
    InstanceModule + SponsorModule + PlayerModule + SecurityModule + ParameterModule + FeeModule
    + CharityModule + EventModule {
    /// Gives every setting that has no value yet its default. Run when the
    /// contract is deployed, and again whenever its code is replaced.
    fn init(&mut self) -> (res: Result<(), Error>)
        requires
            old(self)@.wf(),
        ensures
            final(self)@.wf(),
            res == Ok::<(), Error>(()),
            final(self)@ == (PrizeContract {
                param_nb_max_instances_per_sponsor: spec_or_default(
                    old(self)@.param_nb_max_instances_per_sponsor as int,
                    DEFAULT_MAX_NB_INSTANCES_PER_SPONSOR as int,
                ) as u32,
                param_duration_min: spec_or_default(
                    old(self)@.param_duration_min as int,
                    DEFAULT_MIN_DURATION as int,
                ) as u64,
                param_duration_max: spec_or_default(
                    old(self)@.param_duration_max as int,
                    DEFAULT_MAX_DURATION as int,
                ) as u64,
                param_sponsor_info_max_length: spec_or_default(
                    old(self)@.param_sponsor_info_max_length as int,
                    DEFAULT_MAX_SPONSOR_INFO_LENGTH as int,
                ) as u32,
                fee_policy: match old(self)@.fee_policy {
                    Some(policy) => Some(policy),
                    None => Some(
                        FeePolicy {
                            fee_amount_egld: 0,
                            sponsor_reward_percent: 0,
                            link_reward_percent: 0,
                        },
                    ),
                },
                ..old(self)@
            }),
    ;

    /// Creates an instance with the caller as sponsor and the payment that
    /// comes with the call as prize. Answers the number of the new instance.
    /// The players recorded under that number, if there are any, are the
    /// instance's players from the start.
    fn create_instance(
        &mut self,
        ctx: &CallContext,
        token_identifier: Vec<u8>,
        token_nonce: u64,
        token_amount: u128,
        duration_in_s: u64,
        pseudo: Vec<u8>,
        url1: Vec<u8>,
        url2: Vec<u8>,
        url3: Vec<u8>,
        reserved: Vec<u8>,
        graphic: Vec<u8>,
        logo_link: Vec<u8>,
        free_text: Vec<u8>,
        premium: bool,
        charity: bool,
    ) -> (res: Result<u32, Error>)
        requires
            old(self)@.wf(),
            ctx.wf(),
        ensures
            final(self)@.wf(),
            res == old(self)@.spec_create_instance(
                *ctx,
                token_amount,
                duration_in_s,
                (SponsorInfo {
                    address: ctx.caller,
                    pseudo,
                    url1,
                    url2,
                    url3,
                    reserved,
                    graphic,
                    logo_link,
                    free_text,
                }).spec_text_length(),
                premium,
            ),
            res is Err ==> final(self)@ == old(self)@,
            res matches Ok(iid) ==> {
                &&& final(self)@ == (PrizeContract {
                    iid_counter: iid,
                    instances: final(self)@.instances,
                    unlisted_players: final(self)@.unlisted_players,
                    nb_instances_running: final(self)@.nb_instances_running,
                    journal: final(self)@.journal,
                    ..old(self)@
                })
                &&& final(self)@.instances@ == old(self)@.instances@.push(
                    Instance {
                        iid,
                        info: InstanceInfo {
                            sponsor_info: SponsorInfo {
                                address: ctx.caller,
                                pseudo,
                                url1,
                                url2,
                                url3,
                                reserved,
                                graphic,
                                logo_link,
                                free_text,
                            },
                            prize_info: PrizeInfo { token_identifier, token_nonce, token_amount },
                            premium: false,
                            charity,
                            deadline: (ctx.block_timestamp + duration_in_s) as u64,
                        },
                        state: InstanceState {
                            claimed_status: false,
                            reward_info: RewardInfo {
                                percent: old(self)@.fee_policy->0.sponsor_reward_percent,
                                pool: 0,
                            },
                            winner_info: WinnerInfo { ticket_number: 0, address: Address::zero() },
                            disabled: false,
                        },
                        players: final(self)@.instances@.last().players,
                    },
                )
                &&& final(self)@.instances@.last().players@ == old(self)@.spec_players(iid)
                &&& forall|number: u32| #[trigger]
                    final(self)@.spec_players(number) == old(self)@.spec_players(number)
                &&& final(self)@.nb_instances_running@ == old(self)@.nb_instances_running@.insert(
                    ctx.caller,
                    (old(self)@.nb_instances_running.spec_get_or(ctx.caller, 0u32) + 1) as u32,
                )
                &&& journal_extended(
                    old(self)@.journal@,
                    final(self)@.journal@,
                    old(self)@.logged(
                        Event::CreateInstance {
                            epoch: ctx.block_epoch,
                            sponsor_address: ctx.caller,
                            iid,
                            token_identifier,
                            token_nonce,
                            token_amount,
                            duration_in_s,
                            pseudo,
                        },
                    ),
                )
                &&& final(self)@.spec_status(ctx.block_timestamp, iid) == InstanceStatus::Running
            },
            settled_kept(old(self)@.instances@, final(self)@.instances@),
            all_moved_on(old(self)@.instances@, final(self)@.instances@),
    ;

    /// Draws the winner of the instance numbered `iid`, which must be past
    /// its deadline. `winning_ticket` is the ticket drawn by the host, at
    /// random among the tickets sold; it is not looked at when none was sold.
    /// Open to the sponsor of the instance and to the owner.
    fn trigger(&mut self, ctx: &CallContext, iid: u32, winning_ticket: usize) -> (res: Result<
        (),
        Error,
    >)
        requires
            old(self)@.wf(),
        ensures
            final(self)@.wf(),
            res == old(self)@.spec_trigger(*ctx, iid, winning_ticket),
            res is Err ==> final(self)@ == old(self)@,
            res is Ok ==> {
                let i = old(self)@.spec_index(iid);
                let inst = old(self)@.instances@[i];
                let sponsor = inst.info.sponsor_info.address;
                &&& final(self)@ == (PrizeContract {
                    instances: final(self)@.instances,
                    nb_instances_running: final(self)@.nb_instances_running,
                    charity_pool: if inst.info.charity {
                        (old(self)@.charity_pool + inst.state.reward_info.pool) as u128
                    } else {
                        old(self)@.charity_pool
                    },
                    journal: final(self)@.journal,
                    ..old(self)@
                })
                &&& final(self)@.instances@ == old(self)@.instances@.update(
                    i,
                    spec_drawn(inst, winning_ticket, old(self)@.param_manual_claim),
                )
                &&& final(self)@.nb_instances_running@ == old(self)@.nb_instances_running@.insert(
                    sponsor,
                    (old(self)@.nb_instances_running.spec_get_or(sponsor, 0u32) - 1) as u32,
                )
                &&& old(self)@.nb_instances_running.spec_get_or(sponsor, 0u32) >= 1
                &&& journal_extended(
                    old(self)@.journal@,
                    final(self)@.journal@,
                    (if inst.info.charity {
                        Seq::<Action>::empty()
                    } else {
                        old(self)@.spec_reward_actions(
                            ctx.block_epoch,
                            iid,
                            sponsor,
                            inst.state.reward_info.pool,
                        )
                    }) + old(self)@.spec_draw_actions(ctx.block_epoch, inst, winning_ticket),
                )
                &&& !spec_winner(inst, winning_ticket).address.is_zero()
                &&& final(self)@.spec_status(ctx.block_timestamp, iid) == if old(self)@.param_manual_claim {
                    InstanceStatus::Triggered
                } else {
                    InstanceStatus::Claimed
                }
            },
            settled_kept(old(self)@.instances@, final(self)@.instances@),
            all_moved_on(old(self)@.instances@, final(self)@.instances@),
    ;

    /// Gives the caller a ticket of the instance numbered `iid`, for the
    /// `fees` that come with the call. `link_address` names the referrer, if
    /// there is one. Answers the number of the ticket.
    fn play(&mut self, ctx: &CallContext, fees: u128, iid: u32, link_address: Option<Address>) -> (res:
        Result<usize, Error>)
        requires
            old(self)@.wf(),
            ctx.wf(),
        ensures
            final(self)@.wf(),
            res == old(self)@.spec_play(*ctx, fees, iid, link_address),
            res is Err ==> final(self)@ == old(self)@,
            res matches Ok(ticket_number) ==> {
                let i = old(self)@.spec_index(iid);
                let inst = old(self)@.instances@[i];
                let parts = old(self)@.spec_split_now(
                    fees,
                    inst.state.reward_info.percent,
                    link_address,
                );
                let reward_pool = (inst.state.reward_info.pool + parts.sponsor) as u128;
                &&& parts.sponsor + parts.link + parts.owner == fees
                &&& final(self)@ == (PrizeContract {
                    instances: final(self)@.instances,
                    fee_pool: (old(self)@.fee_pool + parts.owner) as u128,
                    link_reward_pool: final(self)@.link_reward_pool,
                    journal: final(self)@.journal,
                    ..old(self)@
                })
                &&& final(self)@.link_reward_pool@ == old(self)@.spec_link_pools_credited(
                    fees,
                    inst.state.reward_info.percent,
                    link_address,
                )
                &&& final(self)@.instances@ == old(self)@.instances@.update(i, final(self)@.instances@[i])
                &&& final(self)@.instances@[i] == (Instance {
                    state: InstanceState {
                        reward_info: RewardInfo { pool: reward_pool, ..inst.state.reward_info },
                        ..inst.state
                    },
                    players: final(self)@.instances@[i].players,
                    ..inst
                })
                &&& final(self)@.instances@[i].players@ == inst.players@.push(ctx.caller)
                &&& final(self)@.journal@ == old(self)@.journal@ + (if fees != 0 {
                    old(self)@.logged(
                        Event::FeePoolInfo { epoch: ctx.block_epoch, fees: final(self)@.fee_pool },
                    )
                } else {
                    Seq::<Action>::empty()
                }) + old(self)@.logged(
                    Event::RewardPoolInfo { epoch: ctx.block_epoch, iid, reward_pool },
                ) + old(self)@.logged(
                    Event::Play {
                        epoch: ctx.block_epoch,
                        player_address: ctx.caller,
                        iid,
                        ticket_number,
                        fees,
                    },
                )
            },
            settled_kept(old(self)@.instances@, final(self)@.instances@),
            all_moved_on(old(self)@.instances@, final(self)@.instances@),
    ;

    /// Hands the prize of the instance numbered `iid` to the caller, who
    /// must have won it.
    fn claim_prize(&mut self, ctx: &CallContext, iid: u32) -> (res: Result<(), Error>)
        requires
            old(self)@.wf(),
        ensures
            final(self)@.wf(),
            res == old(self)@.spec_claim_prize(*ctx, iid),
            res is Err ==> final(self)@ == old(self)@,
            res is Ok ==> {
                let i = old(self)@.spec_index(iid);
                let inst = old(self)@.instances@[i];
                &&& final(self)@ == (PrizeContract {
                    instances: final(self)@.instances,
                    journal: final(self)@.journal,
                    ..old(self)@
                })
                &&& final(self)@.instances@ == old(self)@.instances@.update(
                    i,
                    Instance { state: InstanceState { claimed_status: true, ..inst.state }, ..inst },
                )
                &&& journal_extended(
                    old(self)@.journal@,
                    final(self)@.journal@,
                    seq![spec_prize_payment(inst.info.prize_info, ctx.caller)] + old(self)@.logged(
                        Event::ManualClaimPrize { epoch: ctx.block_epoch, iid },
                    ),
                )
                &&& final(self)@.spec_status(ctx.block_timestamp, iid) == InstanceStatus::Claimed
            },
            settled_kept(old(self)@.instances@, final(self)@.instances@),
            all_moved_on(old(self)@.instances@, final(self)@.instances@),
    ;

    /// Draws the winner of every instance that is past its deadline, as
    /// `trigger` does for one. `winning_tickets` holds the tickets drawn by
    /// the host, one for each of those instances, by increasing number of the
    /// instance. Reserved to the owner.
    fn distributed_prizes(&mut self, ctx: &CallContext, winning_tickets: &Vec<usize>) -> (res:
        Result<(), Error>)
        requires
            old(self)@.wf(),
        ensures
            final(self)@.wf(),
            res == old(self)@.spec_distributed_prizes(*ctx, winning_tickets@),
            res is Err ==> final(self)@ == old(self)@,
            res is Ok ==> {
                let now = ctx.block_timestamp;
                let list = old(self)@.instances@;
                &&& final(self)@ == (PrizeContract {
                    instances: final(self)@.instances,
                    nb_instances_running: final(self)@.nb_instances_running,
                    charity_pool: (old(self)@.charity_pool + spec_donated(
                        list,
                        now,
                        list.len() as int,
                    )) as u128,
                    journal: final(self)@.journal,
                    ..old(self)@
                })
                &&& final(self)@.instances@ == spec_all_drawn(
                    list,
                    now,
                    winning_tickets@,
                    old(self)@.param_manual_claim,
                    list.len() as int,
                )
                &&& journal_extended(
                    old(self)@.journal@,
                    final(self)@.journal@,
                    old(self)@.spec_draws_journal(
                        ctx.block_epoch,
                        now,
                        winning_tickets@,
                        list.len() as int,
                    ),
                )
            },
            settled_kept(old(self)@.instances@, final(self)@.instances@),
            all_moved_on(old(self)@.instances@, final(self)@.instances@),
    ;

    /// Removes instances whose prize was handed out: those numbered `iids`
    /// that count as claimed, or every instance that does if `iids` is empty.
    /// Reserved to the owner.
    fn clean_claimed_instances(&mut self, ctx: &CallContext, iids: &Vec<u32>) -> (res: Result<
        (),
        Error,
    >)
        requires
            old(self)@.wf(),
        ensures
            final(self)@.wf(),
            res == if ctx.by_owner() {
                Ok::<(), Error>(())
            } else {
                Err(Error::OnlyOwner)
            },
            res is Err ==> final(self)@ == old(self)@,
            res is Ok ==> {
                let cleaned = spec_cleaned(
                    old(self)@.instances@,
                    old(self)@.spec_clean_targets(ctx.block_timestamp, iids@),
                );
                &&& final(self)@ == (PrizeContract {
                    instances: final(self)@.instances,
                    journal: final(self)@.journal,
                    ..old(self)@
                })
                &&& final(self)@.instances@ == cleaned.0
                &&& final(self)@.journal@ == old(self)@.journal@ + old(self)@.spec_clean_log(
                    ctx.block_epoch,
                    cleaned.1,
                )
            },
    ;

    /// The status at time `now` of the instance numbered `iid`, the number
    /// of its players, its winner, and what was fixed at its creation.
    fn get_instance_info_legacy(&self, now: u64, iid: u32) -> (res: Result<
        (InstanceStatus, usize, Address, InstanceInfo),
        Error,
    >)
        requires
            self@.wf(),
        ensures
            match self@.spec_instance(iid) {
                None => res == Err::<(InstanceStatus, usize, Address, InstanceInfo), Error>(
                    Error::NoSuchInstance,
                ),
                Some(inst) => res is Ok && legacy_describes_found(
                    (iid, res->Ok_0.0, res->Ok_0.1, res->Ok_0.2, res->Ok_0.3),
                    Some(inst),
                    now,
                ),
            },
    ;

    /// For every instance that has, at time `now`, one of the statuses of
    /// `status_filter`: its number and what `get_instance_info_legacy` tells
    /// of it; with it, how many they are.
    fn get_all_instance_info_legacy(&self, now: u64, status_filter: &Vec<InstanceStatus>) -> (res: (
        usize,
        Vec<(u32, InstanceStatus, usize, Address, InstanceInfo)>,
    ))
        requires
            self@.wf(),
        ensures
            res.0 == res.1@.len(),
            legacy_describe_all(
                res.1@,
                self@.instances@,
                self@.spec_instance_ids(now, status_filter@),
                now,
            ),
    ;

    /// What there is to tell, at time `now`, of the instance numbered `iid`
    /// to the reader `player_address`.
    fn get_instance_info(&self, now: u64, iid: u32, player_address: Address) -> (res: Result<
        GetInfoStruct,
        Error,
    >)
        requires
            self@.wf(),
        ensures
            match self@.spec_instance(iid) {
                None => res == Err::<GetInfoStruct, Error>(Error::NoSuchInstance),
                Some(inst) => res is Ok && res->Ok_0.describes(inst, now, player_address),
            },
    ;

    /// What there is to tell of every instance that has, at time `now`, one
    /// of the statuses of `status_filter`; with it, how many they are.
    fn get_all_instance_info(
        &self,
        now: u64,
        player_address: Address,
        status_filter: &Vec<InstanceStatus>,
    ) -> (res: (usize, Vec<GetInfoStruct>))
        requires
            self@.wf(),
        ensures
            res.0 == res.1@.len(),
            describe_all(
                res.1@,
                self@.instances@,
                self@.spec_instance_ids(now, status_filter@),
                now,
                player_address,
            ),
    ;

    /// The same for the instances numbered `iid_start` or higher, but for at
    /// most `max_nb_instances_returned` of them; with it, whether the last
    /// of them is among those told of.
    fn get_all_instance_info_frag(
        &self,
        now: u64,
        player_address: Address,
        iid_start: u32,
        max_nb_instances_returned: u32,
        status_filter: &Vec<InstanceStatus>,
    ) -> (res: (bool, Vec<GetInfoStruct>))
        requires
            self@.wf(),
        ensures
            ({
                let all = self@.spec_frag_ids(now, status_filter@, iid_start);
                &&& res.0 == (1 <= all.len() <= max_nb_instances_returned)
                &&& describe_all(
                    res.1@,
                    self@.instances@,
                    if all.len() <= max_nb_instances_returned {
                        all
                    } else {
                        all.take(max_nb_instances_returned as int)
                    },
                    now,
                    player_address,
                )
            }),
    ;

    /// Asks the host to hand the prize to the winner.
    fn func_send_prize(&mut self, prize_info: &PrizeInfo, winner_address: &Address)
        ensures
            old(self)@.wf() ==> final(self)@.wf(),
            final(self)@ == (PrizeContract { journal: final(self)@.journal, ..old(self)@ }),
            journal_extended(
                old(self)@.journal@,
                final(self)@.journal@,
                seq![spec_prize_payment(*prize_info, *winner_address)],
            ),
    ;

    /// Asks the host to pay `rewards` to the sponsor of the instance numbered
    /// `iid`, if there are any.
    fn pay_rewards_to_sponsor(&mut self, epoch: u64, iid: u32, sponsor_address: Address, rewards: u128)
        ensures
            old(self)@.wf() ==> final(self)@.wf(),
            final(self)@ == (PrizeContract { journal: final(self)@.journal, ..old(self)@ }),
            final(self)@.journal@ == old(self)@.journal@ + old(self)@.spec_reward_actions(
                epoch,
                iid,
                sponsor_address,
                rewards,
            ),
    ;
}

impl Prize for PrizeContract {
    fn init(&mut self) -> (res: Result<(), Error>) {
        if self.param_nb_max_instances_per_sponsor == 0 {
            self.param_nb_max_instances_per_sponsor = DEFAULT_MAX_NB_INSTANCES_PER_SPONSOR;
        }
        if self.param_duration_min == 0 {
            self.param_duration_min = DEFAULT_MIN_DURATION;
        }
        if self.param_duration_max == 0 {
            self.param_duration_max = DEFAULT_MAX_DURATION;
        }
        if self.param_sponsor_info_max_length == 0 {
            self.param_sponsor_info_max_length = DEFAULT_MAX_SPONSOR_INFO_LENGTH;
        }
        self.init_fees_if_empty(0, 0, 0);
        self.init_donations_if_empty();
        Ok(())
    }

    fn create_instance(
        &mut self,
        ctx: &CallContext,
        token_identifier: Vec<u8>,
        token_nonce: u64,
        token_amount: u128,
        duration_in_s: u64,
        pseudo: Vec<u8>,
        url1: Vec<u8>,
        url2: Vec<u8>,
        url3: Vec<u8>,
        reserved: Vec<u8>,
        graphic: Vec<u8>,
        logo_link: Vec<u8>,
        free_text: Vec<u8>,
        premium: bool,
        charity: bool,
    ) -> (res: Result<u32, Error>) {
        let caller = ctx.caller;
        if self.is_blacklisted(caller) {
            return Err(Error::CallerBlacklisted);
        }
        let running: u32 = self.nb_instances_running.get_or(caller, 0);
        if running >= self.param_nb_max_instances_per_sponsor {
            return Err(Error::MaxInstancesReached);
        }
        if duration_in_s < self.param_duration_min || duration_in_s > self.param_duration_max {
            return Err(Error::DurationOutOfRange);
        }
        if token_amount == 0 {
            return Err(Error::NullPrize);
        }
        if premium {
            return Err(Error::PremiumNotAllowed);
        }
        let sponsor_info_length: u128 = pseudo.len() as u128 + url1.len() as u128 + url2.len() as u128
            + url3.len() as u128 + reserved.len() as u128 + graphic.len() as u128
            + logo_link.len() as u128 + free_text.len() as u128;
        if sponsor_info_length > self.param_sponsor_info_max_length as u128 {
            return Err(Error::SponsorInfoTooLong);
        }
        if self.iid_counter == u32::MAX {
            return Err(Error::Overflow);
        }
        let new_iid: u32 = self.iid_counter + 1;
        if duration_in_s > u64::MAX - ctx.block_timestamp {
            return Err(Error::Overflow);
        }
        let deadline: u64 = ctx.block_timestamp + duration_in_s;
        let percent: u8 = match self.fee_policy {
            Some(policy) => policy.sponsor_reward_percent,
            None => {
                return Err(Error::StorageDecode);
            },
        };
        let logged_token = token_identifier.clone();
        let logged_pseudo = pseudo.clone();
        let ghost before = old(self).instances@;
        proof {
            if has_iid(before, new_iid) {
                assert(before[index_of(before, new_iid)].wf());
            }
        }
        let players = self.take_unlisted(new_iid);
        let instance = Instance {
            iid: new_iid,
            info: InstanceInfo {
                sponsor_info: SponsorInfo {
                    address: caller,
                    pseudo,
                    url1,
                    url2,
                    url3,
                    reserved,
                    graphic,
                    logo_link,
                    free_text,
                },
                prize_info: PrizeInfo { token_identifier, token_nonce, token_amount },
                premium: false,
                charity,
                deadline,
            },
            state: InstanceState {
                claimed_status: false,
                reward_info: RewardInfo { percent, pool: 0 },
                winner_info: WinnerInfo { ticket_number: 0, address: Address::zero() },
                disabled: false,
            },
            players,
        };
        self.iid_counter = new_iid;
        self.instances.push(instance);
        self.nb_instances_running.set(caller, running + 1);
        proof {
            let after = self.instances@;
            assert(after == before.push(instance));
            assert(instance.wf());
            lemma_ascending_is_distinct(before);
            assert forall|number: u32| #[trigger]
                self.spec_players(number) == old(self).spec_players(number) by {
                lemma_lookup_pushed(before, instance, number);
            }
            assert forall|j: int, i: int|
                0 <= j < self.unlisted_players@.len() && 0 <= i < after.len() implies (
            #[trigger] self.unlisted_players@[j]).iid != (#[trigger] after[i]).iid by {
                if i == before.len() {
                    if self.unlisted_players@[j].iid == new_iid {
                        assert(has_iid(self.unlisted_players@, new_iid));
                    }
                }
            }
            assert forall|i: int, j: int| 0 <= i < j < after.len() implies after[i].iid
                < after[j].iid by {
                assert(before[i].wf());
            }
            assert forall|sponsor: Address|
                self.nb_instances_running.spec_get_or(sponsor, 0u32) == #[trigger] open_count(
                    after,
                    sponsor,
                ) by {
                lemma_open_count_push(before, instance, sponsor);
                assert(old(self).nb_instances_running.spec_get_or(sponsor, 0u32) == open_count(
                    before,
                    sponsor,
                ));
            }
            lemma_lookup_at(after, before.len() as int);
        }
        let ghost recorded = *self;
        self.event_wrapper_create_instance(
            ctx.block_epoch,
            &caller,
            new_iid,
            &logged_token,
            token_nonce,
            token_amount,
            duration_in_s,
            &logged_pseudo,
        );
        proof {
            let held = Event::CreateInstance {
                epoch: ctx.block_epoch,
                sponsor_address: caller,
                iid: new_iid,
                token_identifier: logged_token,
                token_nonce,
                token_amount,
                duration_in_s,
                pseudo: logged_pseudo,
            };
            let given = Event::CreateInstance {
                epoch: ctx.block_epoch,
                sponsor_address: caller,
                iid: new_iid,
                token_identifier: instance.info.prize_info.token_identifier,
                token_nonce,
                token_amount,
                duration_in_s,
                pseudo: instance.info.sponsor_info.pseudo,
            };
            assert forall|number: u32| #[trigger]
                self.spec_players(number) == old(self).spec_players(number) by {
                assert(recorded.spec_players(number) == old(self).spec_players(number));
            }
            assert(given.agrees(held));
            lemma_journal_extended_alike(
                old(self).journal@,
                self.journal@,
                old(self).logged(held),
                old(self).logged(given),
            );
        }
        Ok(new_iid)
    }

    fn trigger(&mut self, ctx: &CallContext, iid: u32, winning_ticket: usize) -> (res: Result<
        (),
        Error,
    >) {
        let i = match self.check_trigger(ctx, iid, winning_ticket) {
            Err(e) => {
                return Err(e);
            },
            Ok(i) => i,
        };
        let ghost inst = old(self).instances@[i as int];
        let sponsor = self.instances[i].info.sponsor_info.address;
        let charity = self.instances[i].info.charity;
        let rewards: u128 = self.instances[i].state.reward_info.pool;
        let mut winner_info = self.instances[i].state.winner_info;
        if self.instances[i].players.len() == 0 {
            winner_info.address = sponsor;
        } else {
            winner_info.ticket_number = winning_ticket;
            winner_info.address = self.instances[i].players[winning_ticket - 1];
        }
        proof {
            assert(inst.wf());
            assert(winner_info == spec_winner(inst, winning_ticket));
        }
        let prize_info = self.instances[i].info.prize_info.duplicate();
        let claimed = if self.param_manual_claim {
            self.instances[i].state.claimed_status
        } else {
            true
        };
        if charity {
            self.charity_pool = self.charity_pool + rewards;
        }
        self.announce_draw(
            ctx.block_epoch,
            iid,
            charity,
            sponsor,
            rewards,
            &prize_info,
            winner_info,
            Ghost(inst),
            Ghost(winning_ticket),
        );
        self.record_draw(i, winner_info, claimed);
        proof {
            lemma_lookup_at(self.instances@, i as int);
        }
        Ok(())
    }

    fn play(&mut self, ctx: &CallContext, fees: u128, iid: u32, link_address: Option<Address>) -> (res:
        Result<usize, Error>) {
        let caller = ctx.caller;
        if self.is_blacklisted(caller) {
            return Err(Error::CallerBlacklisted);
        }
        let i = match self.find(iid) {
            None => {
                return Err(Error::NotActive);
            },
            Some(i) => i,
        };
        if self.instances[i].status(ctx.block_timestamp) != InstanceStatus::Running {
            return Err(Error::NotActive);
        }
        if self.instances[i].has_player(caller) {
            return Err(Error::AlreadyPlayed);
        }
        let policy = match self.fee_policy {
            None => {
                return Err(Error::StorageDecode);
            },
            Some(policy) => policy,
        };
        if fees != policy.fee_amount_egld {
            return Err(Error::WrongFees);
        }
        let ghost inst = old(self).instances@[i as int];
        let ghost before = old(self).instances@;
        proof {
            assert(inst.wf());
        }
        let percent: u8 = self.instances[i].state.reward_info.percent;
        let parts = match self.quote_fees(fees, percent, link_address) {
            Err(e) => {
                return Err(e);
            },
            Ok(parts) => parts,
        };
        let reward_pool: u128 = match crate::amount::checked_credit(
            self.instances[i].state.reward_info.pool,
            parts.sponsor,
        ) {
            None => {
                return Err(Error::Overflow);
            },
            Some(sum) => sum,
        };

        let paid = self.update_fees_and_compute_rewards(ctx.block_epoch, fees, percent, link_address);
        assert(paid == Ok::<u128, Error>(parts.sponsor));
        let ghost journal_1 = self.journal@;

        self.instances[i].state.reward_info.pool = reward_pool;
        proof {
            let after = self.instances@;
            assert(after == before.update(i as int, after[i as int]));
            lemma_open_count_kept(before, i as int, after[i as int]);
        }
        self.event_wrapper_reward_pool_info(ctx.block_epoch, iid, reward_pool);
        let ghost middle = self.instances@;
        proof {
            lemma_lookup_at(middle, i as int);
        }
        let ticket_number = self.add_player(iid, &caller);
        self.event_wrapper_play(ctx.block_epoch, &caller, iid, ticket_number, fees);
        proof {
            let after = self.instances@;
            lemma_lookup_at(before, i as int);
            assert(after == before.update(i as int, after[i as int]));
        }
        Ok(ticket_number)
    }

    fn claim_prize(&mut self, ctx: &CallContext, iid: u32) -> (res: Result<(), Error>) {
        if self.is_blacklisted(ctx.caller) {
            return Err(Error::CallerBlacklisted);
        }
        let i = match self.find(iid) {
            None => {
                return Err(Error::WrongState);
            },
            Some(i) => i,
        };
        if self.instances[i].status(ctx.block_timestamp) != InstanceStatus::Triggered {
            return Err(Error::WrongState);
        }
        let winner = self.instances[i].state.winner_info.address;
        if ctx.caller != winner {
            return Err(Error::NotWinner);
        }
        let prize_info = self.instances[i].info.prize_info.duplicate();
        let ghost inst = old(self).instances@[i as int];
        let ghost before = old(self).instances@;
        self.func_send_prize(&prize_info, &winner);
        let ghost journal_1 = self.journal@;
        self.instances[i].state.claimed_status = true;
        proof {
            let after = self.instances@;
            assert(after == before.update(i as int, after[i as int]));
            lemma_open_count_kept(before, i as int, after[i as int]);
            lemma_lookup_at(after, i as int);
        }
        self.event_wrapper_manual_claim_prize(ctx.block_epoch, iid);
        proof {
            let payment = seq![spec_prize_payment(inst.info.prize_info, winner)];
            let logged = old(self).logged(
                Event::ManualClaimPrize { epoch: ctx.block_epoch, iid },
            );
            lemma_journal_extended_alike(
                old(self).journal@,
                journal_1,
                seq![spec_prize_payment(prize_info, winner)],
                payment,
            );
            lemma_journal_appended(journal_1, logged);
            lemma_journal_extended_twice(
                old(self).journal@,
                journal_1,
                self.journal@,
                payment,
                logged,
            );
        }
        Ok(())
    }

    fn distributed_prizes(&mut self, ctx: &CallContext, winning_tickets: &Vec<usize>) -> (res:
        Result<(), Error>) {
        if !ctx.by_owner() {
            return Err(Error::OnlyOwner);
        }
        let now = ctx.block_timestamp;
        let ghost list = old(self).instances@;
        let ghost tickets = winning_tickets@;
        let ghost wanted = ended_at(now);
        if !self.tickets_fit(now, winning_tickets) {
            return Err(Error::IndexOutOfRange);
        }
        if !self.donations_fit(now) {
            return Err(Error::Overflow);
        }
        let mut rank: usize = 0;
        let mut i: usize = 0;

        let ghost manual_claim = self.param_manual_claim;
        let ghost epoch = ctx.block_epoch;
        proof {
            lemma_iids_where_ends(list, wanted);
            assert(self.instances@ =~= spec_all_drawn(list, now, tickets, manual_claim, 0));
            lemma_journal_appended(old(self).journal@, Seq::<Action>::empty());
            assert(old(self).journal@ + Seq::<Action>::empty() == old(self).journal@);
        }
        while i < self.instances.len()
            invariant
                self.wf(),
                old(self).wf(),
                ctx.by_owner(),
                now == ctx.block_timestamp,
                epoch == ctx.block_epoch,
                list == old(self).instances@,
                tickets == winning_tickets@,
                wanted == ended_at(now),
                manual_claim == old(self).param_manual_claim,
                spec_tickets_fit(list, now, tickets),
                old(self).charity_pool + spec_donated(list, now, list.len() as int) <= u128::MAX,
                i <= list.len(),
                rank == spec_ended_before(list, now, i as int),
                *self == (PrizeContract {
                    instances: self.instances,
                    nb_instances_running: self.nb_instances_running,
                    charity_pool: (old(self).charity_pool + spec_donated(list, now, i as int)) as u128,
                    journal: self.journal,
                    ..*old(self)
                }),
                self.instances@ == spec_all_drawn(list, now, tickets, manual_claim, i as int),
                journal_extended(
                    old(self).journal@,
                    self.journal@,
                    old(self).spec_draws_journal(epoch, now, tickets, i as int),
                ),
            decreases list.len() - i,
        {
            proof {
                lemma_iids_where_step(list, wanted, i as int);
                lemma_donated_grows(list, now, i as int + 1, list.len() as int);
                lemma_ended_before_grows(list, now, i as int + 1, list.len() as int);
            }
            let ghost current = self.instances@;
            let ghost journal_before = self.journal@;
            let ghost told = old(self).spec_draws_journal(epoch, now, tickets, i as int);
            assert(current[i as int] == list[i as int]);
            if self.instances[i].status(now) == InstanceStatus::Ended {
                let iid = self.instances[i].iid;
                let ticket = winning_tickets[rank];
                proof {
                    lemma_lookup_at(current, i as int);
                }
                let drawn = self.trigger(ctx, iid, ticket);
                assert(drawn is Ok);
                proof {
                    let inst = list[i as int];
                    let added = (if inst.info.charity {
                        Seq::<Action>::empty()
                    } else {
                        old(self).spec_reward_actions(
                            epoch,
                            iid,
                            inst.info.sponsor_info.address,
                            inst.state.reward_info.pool,
                        )
                    }) + old(self).spec_draw_actions(epoch, inst, ticket);
                    lemma_journal_extended_twice(
                        old(self).journal@,
                        journal_before,
                        self.journal@,
                        told,
                        added,
                    );
                    assert(self.instances@ =~= spec_all_drawn(
                        list,
                        now,
                        tickets,
                        manual_claim,
                        i as int + 1,
                    ));
                }
                rank += 1;
            } else {
                proof {
                    assert(told + Seq::<Action>::empty() == told);
                    assert(self.instances@ =~= spec_all_drawn(
                        list,
                        now,
                        tickets,
                        manual_claim,
                        i as int + 1,
                    ));
                }
            }
            i += 1;
        }
        proof {
            let after = self.instances@;
            assert forall|j: int|
                0 <= j < list.len() && !(#[trigger] list[j]).state.winner_info.address.is_zero()
                implies j < after.len() && after[j] == (Instance {
                state: InstanceState {
                    claimed_status: after[j].state.claimed_status,
                    ..list[j].state
                },
                ..list[j]
            }) by {
                assert(after[j] == list[j]);
            }
        }
        Ok(())
    }

    fn clean_claimed_instances(&mut self, ctx: &CallContext, iids: &Vec<u32>) -> (res: Result<
        (),
        Error,
    >) {
        if !ctx.by_owner() {
            return Err(Error::OnlyOwner);
        }
        let claimed_instances: Vec<u32> = if iids.len() == 0 {
            let mut filter: Vec<InstanceStatus> = Vec::new();
            filter.push(InstanceStatus::Claimed);
            assert(filter@ == seq![InstanceStatus::Claimed]);
            self.get_instance_ids(ctx.block_timestamp, &filter)
        } else {
            iids.clone()
        };
        let ghost targets = old(self).spec_clean_targets(ctx.block_timestamp, iids@);
        let ghost epoch = ctx.block_epoch;
        assert(claimed_instances@ == targets);
        let mut k: usize = 0;
        proof {
            assert(targets.take(0) == Seq::<u32>::empty());
            assert(self.journal@ == old(self).journal@ + old(self).spec_clean_log(
                epoch,
                Seq::<u32>::empty(),
            ));
        }
        while k < claimed_instances.len()
            invariant
                self.wf(),
                k <= claimed_instances@.len(),
                claimed_instances@ == targets,
                epoch == ctx.block_epoch,
                *self == (PrizeContract {
                    instances: self.instances,
                    journal: self.journal,
                    ..*old(self)
                }),
                self.instances@ == spec_cleaned(old(self).instances@, targets.take(k as int)).0,
                self.journal@ == old(self).journal@ + old(self).spec_clean_log(
                    epoch,
                    spec_cleaned(old(self).instances@, targets.take(k as int)).1,
                ),
            decreases claimed_instances@.len() - k,
        {
            let iid = claimed_instances[k];
            let ghost list = self.instances@;
            let ghost taken = spec_cleaned(old(self).instances@, targets.take(k as int)).1;
            proof {
                assert(targets.take(k + 1).drop_last() == targets.take(k as int));
                assert(targets.take(k + 1).last() == iid);
            }
            match self.find(iid) {
                None => {},
                Some(i) => {
                    if self.instances[i].status(ctx.block_timestamp) == InstanceStatus::Claimed {
                        self.clear_players(iid);
                        let ghost cleared = self.instances@;
                        self.instances.remove(i);
                        proof {
                            let after = self.instances@;
                            assert(after == list.remove(i as int)) by {
                                assert(cleared == list.update(i as int, cleared[i as int]));
                                assert(cleared.remove(i as int) =~= list.remove(i as int));
                            }
                            assert(list[i as int].wf());
                            lemma_lookup_removed(list, i as int, iid);
                            assert forall|sponsor: Address|
                                self.nb_instances_running.spec_get_or(sponsor, 0u32)
                                    == #[trigger] open_count(after, sponsor) by {
                                lemma_open_count_remove(list, i as int, sponsor);
                                assert(self.nb_instances_running.spec_get_or(sponsor, 0u32)
                                    == open_count(list, sponsor));
                            }
                            assert forall|j: int| 0 <= j < after.len() implies (
                            #[trigger] after[j]).wf() && after[j].iid <= self.iid_counter by {
                                let j0 = if j < i { j } else { j + 1 };
                                assert(after[j] == list[j0]);
                                assert(list[j0].wf());
                            }
                        }
                        self.event_wrapper_clean_claim(ctx.block_epoch, iid);
                        proof {
                            if old(self).log_enable {
                                let entry = |iid: u32| Action::Log(Event::CleanClaim { epoch, iid });
                                assert(taken.push(iid).map_values(entry) == taken.map_values(
                                    entry,
                                ).push(entry(iid)));
                            }
                        }
                    }
                },
            }
            k += 1;
        }
        proof {
            assert(targets.take(targets.len() as int) == targets);
        }
        Ok(())
    }

    fn get_instance_info_legacy(&self, now: u64, iid: u32) -> (res: Result<
        (InstanceStatus, usize, Address, InstanceInfo),
        Error,
    >) {
        match self.find(iid) {
            None => Err(Error::NoSuchInstance),
            Some(i) => Ok(
                (
                    self.instances[i].status(now),
                    self.instances[i].players.len(),
                    self.instances[i].state.winner_info.address,
                    self.instances[i].info.duplicate(),
                ),
            ),
        }
    }

    fn get_all_instance_info_legacy(&self, now: u64, status_filter: &Vec<InstanceStatus>) -> (res: (
        usize,
        Vec<(u32, InstanceStatus, usize, Address, InstanceInfo)>,
    )) {
        let mut instances: Vec<(u32, InstanceStatus, usize, Address, InstanceInfo)> = Vec::new();
        if status_filter.len() >= 1 && status_filter.len() <= InstanceStatus::VARIANT_COUNT {
            let ghost wanted = has_status_in(now, status_filter@);
            let mut i: usize = 0;
            proof {
                lemma_iids_where_ends(self.instances@, wanted);
            }
            while i < self.instances.len()
                invariant
                    ascending(self.instances@),
                    i <= self.instances@.len(),
                    wanted == has_status_in(now, status_filter@),
                    legacy_describe_all(
                        instances@,
                        self.instances@,
                        iids_where(self.instances@.take(i as int), wanted),
                        now,
                    ),
                decreases self.instances@.len() - i,
            {
                proof {
                    lemma_iids_where_step(self.instances@, wanted, i as int);
                    lemma_lookup_at(self.instances@, i as int);
                }
                if status_in(status_filter, self.instances[i].status(now)) {
                    let ghost told = instances@;
                    let ghost found = iids_where(self.instances@.take(i as int), wanted);
                    instances.push(
                        (
                            self.instances[i].iid,
                            self.instances[i].status(now),
                            self.instances[i].players.len(),
                            self.instances[i].state.winner_info.address,
                            self.instances[i].info.duplicate(),
                        ),
                    );
                    proof {
                        let more = instances@;
                        let longer = found.push(self.instances@[i as int].iid);
                        assert forall|k: int| 0 <= k < more.len() implies legacy_describes_found(
                            #[trigger] more[k],
                            lookup(self.instances@, longer[k]),
                            now,
                        ) by {
                            if k < told.len() {
                                assert(more[k] == told[k]);
                                assert(longer[k] == found[k]);
                                assert(legacy_describes_found(
                                    told[k],
                                    lookup(self.instances@, found[k]),
                                    now,
                                ));
                            }
                        }
                    }
                }
                i += 1;
            }
        }
        (instances.len(), instances)
    }

    fn get_instance_info(&self, now: u64, iid: u32, player_address: Address) -> (res: Result<
        GetInfoStruct,
        Error,
    >) {
        match self.find(iid) {
            None => Err(Error::NoSuchInstance),
            Some(i) => Ok(GetInfoStruct::of(&self.instances[i], now, player_address)),
        }
    }

    fn get_all_instance_info(
        &self,
        now: u64,
        player_address: Address,
        status_filter: &Vec<InstanceStatus>,
    ) -> (res: (usize, Vec<GetInfoStruct>)) {
        let mut instances: Vec<GetInfoStruct> = Vec::new();
        if status_filter.len() >= 1 && status_filter.len() <= InstanceStatus::VARIANT_COUNT {
            let ghost wanted = has_status_in(now, status_filter@);
            let mut i: usize = 0;
            proof {
                lemma_iids_where_ends(self.instances@, wanted);
            }
            while i < self.instances.len()
                invariant
                    ascending(self.instances@),
                    i <= self.instances@.len(),
                    wanted == has_status_in(now, status_filter@),
                    describe_all(
                        instances@,
                        self.instances@,
                        iids_where(self.instances@.take(i as int), wanted),
                        now,
                        player_address,
                    ),
                decreases self.instances@.len() - i,
            {
                proof {
                    lemma_iids_where_step(self.instances@, wanted, i as int);
                    lemma_lookup_at(self.instances@, i as int);
                }
                if status_in(status_filter, self.instances[i].status(now)) {
                    let ghost told = instances@;
                    let ghost found = iids_where(self.instances@.take(i as int), wanted);
                    instances.push(GetInfoStruct::of(&self.instances[i], now, player_address));
                    proof {
                        lemma_described_one_more(
                            told,
                            instances@.last(),
                            self.instances@,
                            found,
                            i as int,
                            now,
                            player_address,
                        );
                    }
                }
                i += 1;
            }
        }
        (instances.len(), instances)
    }

    fn get_all_instance_info_frag(
        &self,
        now: u64,
        player_address: Address,
        iid_start: u32,
        max_nb_instances_returned: u32,
        status_filter: &Vec<InstanceStatus>,
    ) -> (res: (bool, Vec<GetInfoStruct>)) {
        let mut instances: Vec<GetInfoStruct> = Vec::new();
        let mut instance_counter: u32 = 0;
        let mut left_out: bool = false;
        if status_filter.len() >= 1 && status_filter.len() <= InstanceStatus::VARIANT_COUNT {
            let ghost wanted = listed_from(now, status_filter@, iid_start);
            let mut i: usize = 0;
            proof {
                lemma_iids_where_ends(self.instances@, wanted);
            }
            while i < self.instances.len()
                invariant
                    ascending(self.instances@),
                    i <= self.instances@.len(),
                    wanted == listed_from(now, status_filter@, iid_start),
                    instance_counter <= max_nb_instances_returned,
                    instance_counter == instances@.len(),
                    ({
                        let found = iids_where(self.instances@.take(i as int), wanted);
                        &&& left_out == (found.len() > max_nb_instances_returned)
                        &&& describe_all(
                            instances@,
                            self.instances@,
                            if found.len() <= max_nb_instances_returned {
                                found
                            } else {
                                found.take(max_nb_instances_returned as int)
                            },
                            now,
                            player_address,
                        )
                    }),
                decreases self.instances@.len() - i,
            {
                let ghost found = iids_where(self.instances@.take(i as int), wanted);
                proof {
                    lemma_iids_where_step(self.instances@, wanted, i as int);
                    lemma_lookup_at(self.instances@, i as int);
                }
                if self.instances[i].iid >= iid_start && status_in(
                    status_filter,
                    self.instances[i].status(now),
                ) {
                    if instance_counter < max_nb_instances_returned {
                        let ghost told = instances@;
                        instances.push(GetInfoStruct::of(&self.instances[i], now, player_address));
                        instance_counter += 1;
                        proof {
                            lemma_described_one_more(
                                told,
                                instances@.last(),
                                self.instances@,
                                found,
                                i as int,
                                now,
                                player_address,
                            );
                        }
                    } else {
                        left_out = true;
                        proof {
                            let more = found.push(self.instances@[i as int].iid);
                            if found.len() <= max_nb_instances_returned {
                                assert(more.take(max_nb_instances_returned as int) == found);
                            } else {
                                assert(more.take(max_nb_instances_returned as int) == found.take(
                                    max_nb_instances_returned as int,
                                ));
                            }
                        }
                    }
                }
                i += 1;
            }
        }
        (instance_counter > 0 && !left_out, instances)
    }

    fn func_send_prize(&mut self, prize_info: &PrizeInfo, winner_address: &Address) {
        self.enqueue(
            Action::Direct {
                to: *winner_address,
                token_identifier: prize_info.token_identifier.clone(),
                token_nonce: prize_info.token_nonce,
                amount: prize_info.token_amount,
                memo: Memo::SendPrize,
            },
        );
        proof {
            let before = old(self).journal@;
            assert(self.journal@.subrange(0, before.len() as int) =~= before);
        }
    }

    fn pay_rewards_to_sponsor(&mut self, epoch: u64, iid: u32, sponsor_address: Address, rewards: u128) {
        if rewards > 0 {
            self.enqueue(
                Action::DirectEgld {
                    to: sponsor_address,
                    amount: rewards,
                    memo: Memo::SponsorRewards,
                },
            );
            self.event_wrapper_send_rewards(epoch, iid, rewards);
            assert(self.journal@ == old(self).journal@ + old(self).spec_reward_actions(
                epoch,
                iid,
                sponsor_address,
                rewards,
            ));
        } else {
            assert(self.journal@ == old(self).journal@ + Seq::<Action>::empty());
        }
    }
}

} // verus!
