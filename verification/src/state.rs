//! What the prize contract stores, and the invariant that ties it together.

use vstd::prelude::*;
use crate::action::{Action, Event};
use crate::address::{all_distinct, Address};
use crate::address_map::{has_key, lemma_entry_is_mapped, AddressMap};
use crate::context::ContractBase;
use crate::fee::FeePolicy;
use crate::instance::{Instance, InstanceState};
use crate::player::{listed_players, PlayerList};
use crate::registry::{
    ascending, distinct_numbers, find, has_iid, index_of, is_ascending, is_distinct, lookup,
    Numbered,
};

verus! {

/// The number of listed instances of `sponsor` that still wait for their
/// draw.
pub open spec fn open_count(list: Seq<Instance>, sponsor: Address) -> nat
    decreases list.len(),
{
    if list.len() == 0 {
        0
    } else {
        open_count(list.drop_last(), sponsor) + if list.last().is_open_for(sponsor) {
            1nat
        } else {
            0nat
        }
    }
}

/// One if `inst` is open for `sponsor`, zero otherwise.
pub open spec fn open_weight(inst: Instance, sponsor: Address) -> nat {
    if inst.is_open_for(sponsor) {
        1
    } else {
        0
    }
}

/// What one more instance at the end adds to a sponsor's count.
pub proof fn lemma_open_count_push(list: Seq<Instance>, inst: Instance, sponsor: Address)
    ensures
        open_count(list.push(inst), sponsor) == open_count(list, sponsor) + open_weight(
            inst,
            sponsor,
        ),
{
    assert(list.push(inst).drop_last() == list);
}

/// How a sponsor's count changes when the instance at `i` is replaced.
pub proof fn lemma_open_count_update(list: Seq<Instance>, i: int, inst: Instance, sponsor: Address)
    requires
        0 <= i < list.len(),
    ensures
        open_count(list.update(i, inst), sponsor) + open_weight(list[i], sponsor) == open_count(
            list,
            sponsor,
        ) + open_weight(inst, sponsor),
    decreases list.len(),
{
    let updated = list.update(i, inst);
    if i == list.len() - 1 {
        assert(updated.drop_last() == list.drop_last());
    } else {
        assert(updated.drop_last() == list.drop_last().update(i, inst));
        lemma_open_count_update(list.drop_last(), i, inst, sponsor);
    }
}

/// How a sponsor's count changes when the instance at `i` is taken out.
pub proof fn lemma_open_count_remove(list: Seq<Instance>, i: int, sponsor: Address)
    requires
        0 <= i < list.len(),
    ensures
        open_count(list.remove(i), sponsor) + open_weight(list[i], sponsor) == open_count(
            list,
            sponsor,
        ),
    decreases list.len(),
{
    let removed = list.remove(i);
    if i == list.len() - 1 {
        assert(removed == list.drop_last());
    } else {
        assert(removed.drop_last() == list.drop_last().remove(i));
        assert(removed.last() == list.last());
        lemma_open_count_remove(list.drop_last(), i, sponsor);
    }
}

/// What the instance at `i` adds to the count of those before it.
pub proof fn lemma_open_count_step(list: Seq<Instance>, i: int, sponsor: Address)
    requires
        0 <= i < list.len(),
    ensures
        open_count(list.take(i + 1), sponsor) == open_count(list.take(i), sponsor) + open_weight(
            list[i],
            sponsor,
        ),
{
    assert(list.take(i + 1).drop_last() == list.take(i));
}

/// A sponsor without instances has none that waits for its draw.
pub proof fn lemma_open_count_none(list: Seq<Instance>, sponsor: Address)
    requires
        forall|i: int| 0 <= i < list.len() ==> (#[trigger] list[i]).info.sponsor_info.address
            != sponsor,
    ensures
        open_count(list, sponsor) == 0,
    decreases list.len(),
{
    if list.len() > 0 {
        let fewer = list.drop_last();
        assert forall|i: int| 0 <= i < fewer.len() implies (
        #[trigger] fewer[i]).info.sponsor_info.address != sponsor by {
            assert(fewer[i] == list[i]);
        }
        lemma_open_count_none(fewer, sponsor);
        assert(list[list.len() - 1].info.sponsor_info.address != sponsor);
    }
}

/// If the instance at `i` is replaced by one with the same sponsor that waits
/// for its draw exactly if the old one did, no sponsor's count changes.
pub proof fn lemma_open_count_kept(list: Seq<Instance>, i: int, inst: Instance)
    requires
        0 <= i < list.len(),
        inst.info.sponsor_info.address == list[i].info.sponsor_info.address,
        inst.state.winner_info.address.is_zero() == list[i].state.winner_info.address.is_zero(),
    ensures
        forall|sponsor: Address| #[trigger]
            open_count(list.update(i, inst), sponsor) == open_count(list, sponsor),
{
    assert forall|sponsor: Address| #[trigger]
        open_count(list.update(i, inst), sponsor) == open_count(list, sponsor) by {
        lemma_open_count_update(list, i, inst, sponsor);
    }
}

/// Whether every instance of `before` that had its draw is still listed in
/// `after`, at the same place and under the same number, with its terms and
/// its state unchanged but for the flag that tells whether its prize was
/// claimed.
pub open spec fn settled_kept(before: Seq<Instance>, after: Seq<Instance>) -> bool {
    forall|i: int|
        0 <= i < before.len() && !(#[trigger] before[i]).state.winner_info.address.is_zero() ==> i
            < after.len() && after[i].iid == before[i].iid && after[i].info == before[i].info
            && after[i].state == (InstanceState {
            claimed_status: after[i].state.claimed_status,
            ..before[i].state
        })
}

/// Whatever is kept from one state to a second and from the second to a
/// third is kept from the first to the third: however many calls keep the
/// instances that had their draw, such an instance stays as it is, but for
/// the flag that tells whether its prize was claimed.
pub proof fn lemma_settled_kept_twice(first: Seq<Instance>, second: Seq<Instance>, third: Seq<Instance>)
    requires
        settled_kept(first, second),
        settled_kept(second, third),
    ensures
        settled_kept(first, third),
{
    assert forall|i: int|
        0 <= i < first.len() && !(#[trigger] first[i]).state.winner_info.address.is_zero() implies i
        < third.len() && third[i].iid == first[i].iid && third[i].info == first[i].info
        && third[i].state == (InstanceState {
        claimed_status: third[i].state.claimed_status,
        ..first[i].state
    }) by {
        assert(!second[i].state.winner_info.address.is_zero());
    }
}

/// The storage of the prize contract.
#[derive(Clone, Debug, PartialEq, Eq)]
pub struct PrizeContract {
    /// The number given to the instance created last.
    pub iid_counter: u32,
    /// The instances, by increasing number.
    pub instances: Vec<Instance>,
    /// The players recorded under numbers that no instance has.
    pub unlisted_players: Vec<PlayerList>,
    /// For each sponsor, how many of its instances wait for their draw.
    pub nb_instances_running: AddressMap<u32>,
    /// The addresses barred from creating, playing and claiming, in the
    /// order in which they were barred.
    pub address_blacklist: Vec<Address>,
    pub param_manual_claim: bool,
    pub param_nb_max_instances_per_sponsor: u32,
    pub param_duration_min: u64,
    pub param_duration_max: u64,
    pub param_sponsor_info_max_length: u32,
    /// The fee policy; none before the contract is initialised.
    pub fee_policy: Option<FeePolicy>,
    /// The fees that belong to the owner.
    pub fee_pool: u128,
    /// For each referrer, the rewards it has earned and not yet claimed.
    pub link_reward_pool: AddressMap<u128>,
    /// The sponsor rewards given to charity.
    pub charity_pool: u128,
    pub log_enable: bool,
    /// What the host has to do for the calls served so far, oldest first.
    pub journal: Vec<Action>,
}

impl Numbered for Instance {
    open spec fn number(&self) -> u32 {
        self.iid
    }

    fn iid(&self) -> (iid: u32) {
        self.iid
    }
}

impl View for PrizeContract {
    type V = PrizeContract;

    /// What is stored is plain data: the contract is its own model.
    open spec fn view(&self) -> PrizeContract {
        *self
    }
}

impl ContractBase for PrizeContract {
    /// The invariant of the stored state. Each sponsor's stored count is
    /// derived data: it is the number of the sponsor's instances that wait
    /// for their draw, and a state in which a count says otherwise is not
    /// valid.
    open spec fn wf(&self) -> bool {
        &&& ascending(self.instances@)
        &&& forall|i: int|
            0 <= i < self.instances@.len() ==> (#[trigger] self.instances@[i]).wf()
                && self.instances@[i].iid <= self.iid_counter
        &&& distinct_numbers(self.unlisted_players@)
        &&& forall|j: int|
            0 <= j < self.unlisted_players@.len() ==> (#[trigger] self.unlisted_players@[j]).wf()
        &&& forall|j: int, i: int|
            0 <= j < self.unlisted_players@.len() && 0 <= i < self.instances@.len() ==> (
            #[trigger] self.unlisted_players@[j]).iid != (#[trigger] self.instances@[i]).iid
        &&& self.address_blacklist@.no_duplicates()
        &&& self.fee_policy matches Some(policy) ==> policy.wf()
        &&& self.nb_instances_running.wf()
        &&& self.link_reward_pool.wf()
        &&& forall|sponsor: Address|
            self.nb_instances_running.spec_get_or(sponsor, 0u32) == #[trigger] open_count(
                self.instances@,
                sponsor,
            )
    }
}

impl PrizeContract {
    /// The instance numbered `iid`, if there is one.
    pub open spec fn spec_instance(&self, iid: u32) -> Option<Instance> {
        lookup(self.instances@, iid)
    }

    /// Where the instance numbered `iid` is stored.
    pub open spec fn spec_index(&self, iid: u32) -> int {
        index_of(self.instances@, iid)
    }

    /// The players recorded under the number `iid`, by ticket: those of the
    /// instance that has the number, or those recorded though no instance
    /// has it.
    pub open spec fn spec_players(&self, iid: u32) -> Seq<Address> {
        match self.spec_instance(iid) {
            Some(inst) => inst.players@,
            None => listed_players(self.unlisted_players@, iid),
        }
    }

    /// The entry that `event` adds to the journal: none while logging is
    /// switched off.
    pub open spec fn logged(&self, event: Event) -> Seq<Action> {
        if self.log_enable {
            seq![Action::Log(event)]
        } else {
            Seq::empty()
        }
    }

    /// The contract as it is before its first call: nothing stored.
    pub fn new() -> (contract: PrizeContract)
        ensures
            contract.wf(),
            contract.iid_counter == 0,
            contract.instances@.len() == 0,
            contract.unlisted_players@.len() == 0,
            contract.nb_instances_running@ == Map::<Address, u32>::empty(),
            contract.address_blacklist@.len() == 0,
            !contract.param_manual_claim,
            contract.param_nb_max_instances_per_sponsor == 0,
            contract.param_duration_min == 0,
            contract.param_duration_max == 0,
            contract.param_sponsor_info_max_length == 0,
            contract.fee_policy is None,
            contract.fee_pool == 0,
            contract.link_reward_pool@ == Map::<Address, u128>::empty(),
            contract.charity_pool == 0,
            !contract.log_enable,
            contract.journal@.len() == 0,
    {
        let contract = PrizeContract {
            iid_counter: 0,
            instances: Vec::new(),
            unlisted_players: Vec::new(),
            nb_instances_running: AddressMap::new(),
            address_blacklist: Vec::new(),
            param_manual_claim: false,
            param_nb_max_instances_per_sponsor: 0,
            param_duration_min: 0,
            param_duration_max: 0,
            param_sponsor_info_max_length: 0,
            fee_policy: None,
            fee_pool: 0,
            link_reward_pool: AddressMap::new(),
            charity_pool: 0,
            log_enable: false,
            journal: Vec::new(),
        };
        contract
    }

    /// How many instances of `sponsor` wait for their draw.
    pub fn count_open(&self, sponsor: Address) -> (count: usize)
        ensures
            count == open_count(self.instances@, sponsor),
    {
        let mut count: usize = 0;
        let mut i: usize = 0;
        assert(self.instances@.take(0).len() == 0);
        while i < self.instances.len()
            invariant
                i <= self.instances@.len(),
                count == open_count(self.instances@.take(i as int), sponsor),
                count <= i,
            decreases self.instances@.len() - i,
        {
            proof {
                lemma_open_count_step(self.instances@, i as int, sponsor);
            }
            if self.instances[i].info.sponsor_info.address == sponsor
                && self.instances[i].state.winner_info.address.is_zero() {
                count += 1;
            }
            i += 1;
        }
        assert(self.instances@.take(self.instances@.len() as int) == self.instances@);
        count
    }

    /// Whether every instance is valid and numbered no higher than the
    /// counter.
    fn instances_valid(&self) -> (valid: bool)
        ensures
            valid == forall|i: int|
                0 <= i < self.instances@.len() ==> (#[trigger] self.instances@[i]).wf()
                    && self.instances@[i].iid <= self.iid_counter,
    {
        let mut i: usize = 0;
        while i < self.instances.len()
            invariant
                i <= self.instances@.len(),
                forall|j: int|
                    0 <= j < i ==> (#[trigger] self.instances@[j]).wf() && self.instances@[j].iid
                        <= self.iid_counter,
            decreases self.instances@.len() - i,
        {
            if !self.instances[i].is_valid() || self.instances[i].iid > self.iid_counter {
                return false;
            }
            i += 1;
        }
        true
    }

    /// Whether each sponsor's count is the number of its instances that wait
    /// for their draw.
    fn counts_valid(&self) -> (valid: bool)
        requires
            self.nb_instances_running.wf(),
        ensures
            valid == forall|sponsor: Address|
                self.nb_instances_running.spec_get_or(sponsor, 0u32) == #[trigger] open_count(
                    self.instances@,
                    sponsor,
                ),
    {
        let ghost entries = self.nb_instances_running.entries@;
        let ghost list = self.instances@;
        let mut j: usize = 0;
        while j < self.nb_instances_running.entries.len()
            invariant
                entries == self.nb_instances_running.entries@,
                list == self.instances@,
                self.nb_instances_running.wf(),
                j <= entries.len(),
                forall|k: int|
                    0 <= k < j ==> (#[trigger] entries[k]).1 == open_count(list, entries[k].0),
            decreases entries.len() - j,
        {
            let sponsor = self.nb_instances_running.entries[j].0;
            let count = self.nb_instances_running.entries[j].1;
            proof {
                lemma_entry_is_mapped(entries, j as int);
            }
            if count as usize != self.count_open(sponsor) {
                assert(self.nb_instances_running.spec_get_or(sponsor, 0u32) != open_count(
                    list,
                    sponsor,
                ));
                return false;
            }
            j += 1;
        }
        let mut i: usize = 0;
        while i < self.instances.len()
            invariant
                entries == self.nb_instances_running.entries@,
                list == self.instances@,
                self.nb_instances_running.wf(),
                i <= list.len(),
                forall|k: int|
                    0 <= k < entries.len() ==> (#[trigger] entries[k]).1 == open_count(
                        list,
                        entries[k].0,
                    ),
                forall|k: int|
                    0 <= k < i ==> self.nb_instances_running.spec_get_or(
                        (#[trigger] list[k]).info.sponsor_info.address,
                        0u32,
                    ) == open_count(list, list[k].info.sponsor_info.address),
            decreases list.len() - i,
        {
            let sponsor = self.instances[i].info.sponsor_info.address;
            let count: u32 = self.nb_instances_running.get_or(sponsor, 0);
            if count as usize != self.count_open(sponsor) {
                assert(self.nb_instances_running.spec_get_or(sponsor, 0u32) != open_count(
                    list,
                    sponsor,
                ));
                return false;
            }
            i += 1;
        }
        proof {
            assert forall|sponsor: Address|
                self.nb_instances_running.spec_get_or(sponsor, 0u32) == #[trigger] open_count(
                    list,
                    sponsor,
                ) by {
                if has_key(entries, sponsor) {
                    let k = choose|k: int| 0 <= k < entries.len() && (#[trigger] entries[k]).0
                        == sponsor;
                    lemma_entry_is_mapped(entries, k);
                } else if exists|k: int|
                    0 <= k < list.len() && (#[trigger] list[k]).info.sponsor_info.address
                        == sponsor {
                    let k = choose|k: int|
                        0 <= k < list.len() && (#[trigger] list[k]).info.sponsor_info.address
                            == sponsor;
                    assert(self.nb_instances_running.spec_get_or(
                        list[k].info.sponsor_info.address,
                        0u32,
                    ) == open_count(list, list[k].info.sponsor_info.address));
                } else {
                    lemma_open_count_none(list, sponsor);
                }
            }
        }
        true
    }

    /// Whether every list of players under a number without instance holds
    /// real addresses only, and no instance has its number.
    fn unlisted_valid(&self) -> (valid: bool)
        requires
            ascending(self.instances@),
        ensures
            valid == ((forall|j: int|
                0 <= j < self.unlisted_players@.len() ==> (#[trigger] self.unlisted_players@[j]).wf())
                && (forall|j: int, i: int|
                0 <= j < self.unlisted_players@.len() && 0 <= i < self.instances@.len() ==> (
                #[trigger] self.unlisted_players@[j]).iid != (#[trigger] self.instances@[i]).iid)),
    {
        let mut j: usize = 0;
        while j < self.unlisted_players.len()
            invariant
                ascending(self.instances@),
                j <= self.unlisted_players@.len(),
                forall|k: int| 0 <= k < j ==> (#[trigger] self.unlisted_players@[k]).wf(),
                forall|k: int, i: int|
                    0 <= k < j && 0 <= i < self.instances@.len() ==> (
                    #[trigger] self.unlisted_players@[k]).iid != (#[trigger] self.instances@[i]).iid,
            decreases self.unlisted_players@.len() - j,
        {
            if !self.unlisted_players[j].is_valid() {
                return false;
            }
            match find(&self.instances, self.unlisted_players[j].iid) {
                Some(i) => {
                    return false;
                },
                None => {
                    assert forall|i: int| 0 <= i < self.instances@.len() implies (
                    #[trigger] self.instances@[i]).iid != self.unlisted_players@[j as int].iid by {
                        if self.instances@[i].iid == self.unlisted_players@[j as int].iid {
                            assert(has_iid(self.instances@, self.unlisted_players@[j as int].iid));
                        }
                    }
                },
            }
            j += 1;
        }
        true
    }

    /// Whether the stored state satisfies the contract's invariant.
    pub fn is_valid(&self) -> (valid: bool)
        ensures
            valid == self.wf(),
    {
        is_ascending(&self.instances) && self.instances_valid() && is_distinct(
            &self.unlisted_players,
        ) && self.unlisted_valid() && all_distinct(&self.address_blacklist) && (match self.fee_policy {
            Some(policy) => policy.sponsor_reward_percent <= 100 && policy.link_reward_percent
                <= 100 - policy.sponsor_reward_percent,
            None => true,
        }) && self.nb_instances_running.is_valid() && self.link_reward_pool.is_valid()
            && self.counts_valid()
    }

    /// Where the instance numbered `iid` is stored, if there is one.
    pub fn find(&self, iid: u32) -> (at: Option<usize>)
        requires
            self.wf(),
        ensures
            match at {
                Some(i) => i < self.instances@.len() && self.instances@[i as int].iid == iid
                    && self.spec_instance(iid) == Some(self.instances@[i as int])
                    && self.spec_index(iid) == i,
                None => self.spec_instance(iid) is None,
            },
    {
        find(&self.instances, iid)
    }

    /// Appends `event` to the journal if logging is switched on.
    pub fn log(&mut self, event: Event)
        ensures
            *final(self) == (PrizeContract { journal: final(self).journal, ..*old(self) }),
            final(self).journal@ == old(self).journal@ + old(self).logged(event),
    {
        if self.log_enable {
            self.journal.push(Action::Log(event));
        }
    }

    /// Appends `action` to the journal.
    pub fn enqueue(&mut self, action: Action)
        ensures
            *final(self) == (PrizeContract { journal: final(self).journal, ..*old(self) }),
            final(self).journal@ == old(self).journal@.push(action),
    {
        self.journal.push(action);
    }

    /// Hands the journal to the host and starts an empty one.
    pub fn take_journal(&mut self) -> (actions: Vec<Action>)
        ensures
            *final(self) == (PrizeContract { journal: final(self).journal, ..*old(self) }),
            final(self).journal@.len() == 0,
            actions@ == old(self).journal@,
    {
        let mut actions: Vec<Action> = Vec::new();
        std::mem::swap(&mut self.journal, &mut actions);
        actions
    }
}

} // verus!
