//! The players of each instance, and the tickets they hold.

use vstd::prelude::*;
use crate::context::ContractBase;
use crate::address::{none_zero, Address};
use crate::error::Error;
use crate::instance::{Instance, InstanceModule};
use crate::registry::{
    find_distinct, has_iid, iids_where, lemma_ascending_is_distinct, lemma_distinct_lookup_removed,
    lemma_iids_where_ends, lemma_iids_where_step, lemma_lookup_pushed, lemma_lookup_updated,
    lookup, Numbered,
};
use crate::instance::all_moved_on;
use crate::state::{lemma_open_count_kept, settled_kept, PrizeContract};

verus! {

/// The players recorded under one number, by ticket: the player at index
/// `k` holds ticket `k + 1`.
#[derive(Clone, Debug, PartialEq, Eq)]
pub struct PlayerList {
    pub iid: u32,
    pub players: Vec<Address>,
}

impl Numbered for PlayerList {
    open spec fn number(&self) -> u32 {
        self.iid
    }

    fn iid(&self) -> (iid: u32) {
        self.iid
    }
}

impl PlayerList {
    /// Every player is somebody: the zero address holds no ticket.
    pub open spec fn wf(&self) -> bool {
        forall|k: int| 0 <= k < self.players@.len() ==> !(#[trigger] self.players@[k]).is_zero()
    }

    /// Whether the invariant of a list of players holds of this one.
    pub fn is_valid(&self) -> (valid: bool)
        ensures
            valid == self.wf(),
    {
        none_zero(&self.players)
    }
}

/// The players that `lists` hold under the number `iid`: none if no list
/// has the number.
pub open spec fn listed_players(lists: Seq<PlayerList>, iid: u32) -> Seq<Address> {
    match lookup(lists, iid) {
        Some(list) => list.players@,
        None => Seq::empty(),
    }
}

/// Whether the instances of `after` are those of `before`, each unchanged
/// but for its players.
pub open spec fn same_but_players(before: Seq<Instance>, after: Seq<Instance>) -> bool {
    &&& after.len() == before.len()
    &&& forall|i: int|
        0 <= i < before.len() ==> (#[trigger] after[i]) == (Instance {
            players: after[i].players,
            ..before[i]
        })
}

/// The test "`player` holds a ticket of the instance".
pub open spec fn played_by(player: Address) -> spec_fn(Instance) -> bool {
    |inst: Instance| inst.spec_has_player(player)
}

/// The endpoints over the players of the instances.
pub trait PlayerModule: InstanceModule {
    /// The numbers of the instances that `player_address` has played, by
    /// increasing number.
    fn get_player_instances(&self, player_address: Address) -> (iids: Vec<u32>)
        requires
            self@.wf(),
        ensures
            iids@ == iids_where(self@.instances@, played_by(player_address)),
    ;

    /// Whether `player_address` holds a ticket recorded under the number
    /// `iid`.
    fn has_played(&self, iid: u32, player_address: Address) -> (played: bool)
        requires
            self@.wf(),
        ensures
            played == self@.spec_players(iid).contains(player_address),
    ;

    /// Records `player_address` as the holder of the next ticket under the
    /// number `iid`, whether an instance has the number or not, and answers
    /// the ticket's number. Nothing is asked of the player: it may hold a
    /// ticket already. Only the zero address leaves a state that is not
    /// valid, since it stands for "no winner".
    fn add_player(&mut self, iid: u32, player_address: &Address) -> (ticket_number: usize)
        requires
            old(self)@.wf(),
        ensures
            !player_address.is_zero() ==> final(self)@.wf(),
            ticket_number == old(self)@.spec_players(iid).len() + 1,
            final(self)@ == (PrizeContract {
                instances: final(self)@.instances,
                unlisted_players: final(self)@.unlisted_players,
                ..old(self)@
            }),
            forall|number: u32| #[trigger]
                final(self)@.spec_players(number) == if number == iid {
                    old(self)@.spec_players(iid).push(*player_address)
                } else {
                    old(self)@.spec_players(number)
                },
            same_but_players(old(self)@.instances@, final(self)@.instances@),
            match old(self)@.spec_instance(iid) {
                Some(inst) => {
                    let i = old(self)@.spec_index(iid);
                    &&& final(self)@.unlisted_players == old(self)@.unlisted_players
                    &&& final(self)@.instances@ == old(self)@.instances@.update(
                        i,
                        final(self)@.instances@[i],
                    )
                    &&& final(self)@.instances@[i].players@ == inst.players@.push(*player_address)
                },
                None => final(self)@.instances == old(self)@.instances,
            },
            settled_kept(old(self)@.instances@, final(self)@.instances@),
            all_moved_on(old(self)@.instances@, final(self)@.instances@),
    ;

    /// How many tickets are recorded under the number `iid`.
    fn get_nb_players(&self, iid: u32) -> (count: usize)
        requires
            self@.wf(),
        ensures
            count == self@.spec_players(iid).len(),
    ;

    /// Who holds the ticket numbered `ticket_number` under the number `iid`.
    /// Tickets are numbered from one.
    fn get_ticket_owner(&self, iid: u32, ticket_number: usize) -> (res: Result<Address, Error>)
        requires
            self@.wf(),
        ensures
            res == if 1 <= ticket_number <= self@.spec_players(iid).len() {
                Ok::<Address, Error>(self@.spec_players(iid)[ticket_number - 1])
            } else {
                Err(Error::IndexOutOfRange)
            },
    ;

    /// Withdraws every ticket recorded under the number `iid`.
    fn clear_players(&mut self, iid: u32)
        requires
            old(self)@.wf(),
        ensures
            final(self)@.wf(),
            final(self)@ == (PrizeContract {
                instances: final(self)@.instances,
                unlisted_players: final(self)@.unlisted_players,
                ..old(self)@
            }),
            forall|number: u32| #[trigger]
                final(self)@.spec_players(number) == if number == iid {
                    Seq::<Address>::empty()
                } else {
                    old(self)@.spec_players(number)
                },
            same_but_players(old(self)@.instances@, final(self)@.instances@),
            match old(self)@.spec_instance(iid) {
                Some(inst) => {
                    let i = old(self)@.spec_index(iid);
                    &&& final(self)@.unlisted_players == old(self)@.unlisted_players
                    &&& final(self)@.instances@ == old(self)@.instances@.update(
                        i,
                        final(self)@.instances@[i],
                    )
                    &&& final(self)@.instances@[i].players@ == Seq::<Address>::empty()
                },
                None => final(self)@.instances == old(self)@.instances,
            },
            settled_kept(old(self)@.instances@, final(self)@.instances@),
            all_moved_on(old(self)@.instances@, final(self)@.instances@),
    ;
}

impl PlayerModule for PrizeContract {
    fn get_player_instances(&self, player_address: Address) -> (iids: Vec<u32>) {
        let mut player_iids: Vec<u32> = Vec::new();
        let mut i: usize = 0;
        proof {
            lemma_iids_where_ends(self.instances@, played_by(player_address));
        }
        while i < self.instances.len()
            invariant
                i <= self.instances@.len(),
                player_iids@ == iids_where(self.instances@.take(i as int), played_by(player_address)),
            decreases self.instances@.len() - i,
        {
            proof {
                lemma_iids_where_step(self.instances@, played_by(player_address), i as int);
            }
            if self.instances[i].has_player(player_address) {
                player_iids.push(self.instances[i].iid);
            }
            i += 1;
        }
        player_iids
    }

    fn has_played(&self, iid: u32, player_address: Address) -> (played: bool) {
        match self.find(iid) {
            Some(i) => self.instances[i].has_player(player_address),
            None => match find_distinct(&self.unlisted_players, iid) {
                Some(j) => holds(&self.unlisted_players[j].players, player_address),
                None => {
                    assert(!Seq::<Address>::empty().contains(player_address));
                    false
                },
            },
        }
    }

    fn add_player(&mut self, iid: u32, player_address: &Address) -> (ticket_number: usize) {
        let ghost before = old(self).instances@;
        let ghost lists = old(self).unlisted_players@;
        proof {
            lemma_ascending_is_distinct(before);
        }
        match self.find(iid) {
            Some(i) => {
                self.instances[i].players.push(*player_address);
                proof {
                    let after = self.instances@;
                    assert(after == before.update(i as int, after[i as int]));
                    lemma_open_count_kept(before, i as int, after[i as int]);
                    assert forall|k: int|
                        0 <= k < after[i as int].players@.len()
                            && !player_address.is_zero() implies !(
                    #[trigger] after[i as int].players@[k]).is_zero() by {
                        assert(before[i as int].wf());
                        if k < before[i as int].players@.len() {
                            assert(after[i as int].players@[k] == before[i as int].players@[k]);
                        }
                    }
                    assert forall|number: u32| #[trigger]
                        self.spec_players(number) == if number == iid {
                            old(self).spec_players(iid).push(*player_address)
                        } else {
                            old(self).spec_players(number)
                        } by {
                        lemma_lookup_updated(before, i as int, after[i as int], number);
                    }
                }
                self.instances[i].players.len()
            },
            None => {
                assert forall|i: int| 0 <= i < before.len() implies (#[trigger] before[i]).iid
                    != iid by {
                    if before[i].iid == iid {
                        assert(has_iid(before, iid));
                    }
                }
                match find_distinct(&self.unlisted_players, iid) {
                    Some(j) => {
                        self.unlisted_players[j].players.push(*player_address);
                        proof {
                            let after = self.unlisted_players@;
                            assert(after == lists.update(j as int, after[j as int]));
                            assert(lists[j as int].wf());
                            assert forall|k: int|
                                0 <= k < after[j as int].players@.len()
                                    && !player_address.is_zero() implies !(
                            #[trigger] after[j as int].players@[k]).is_zero() by {
                                if k < lists[j as int].players@.len() {
                                    assert(after[j as int].players@[k] == lists[j as int].players@[k]);
                                }
                            }
                            assert forall|number: u32| #[trigger]
                                self.spec_players(number) == if number == iid {
                                    old(self).spec_players(iid).push(*player_address)
                                } else {
                                    old(self).spec_players(number)
                                } by {
                                lemma_lookup_updated(lists, j as int, after[j as int], number);
                            }
                        }
                        self.unlisted_players[j].players.len()
                    },
                    None => {
                        let mut players: Vec<Address> = Vec::new();
                        players.push(*player_address);
                        let list = PlayerList { iid, players };
                        self.unlisted_players.push(list);
                        proof {
                            let after = self.unlisted_players@;
                            assert(after == lists.push(list));
                            assert(list.players@ == Seq::<Address>::empty().push(*player_address));
                            assert forall|number: u32| #[trigger]
                                self.spec_players(number) == if number == iid {
                                    old(self).spec_players(iid).push(*player_address)
                                } else {
                                    old(self).spec_players(number)
                                } by {
                                lemma_lookup_pushed(lists, list, number);
                            }
                            lemma_lookup_pushed(lists, list, iid);
                        }
                        1
                    },
                }
            },
        }
    }

    fn get_nb_players(&self, iid: u32) -> (count: usize) {
        match self.find(iid) {
            Some(i) => self.instances[i].players.len(),
            None => match find_distinct(&self.unlisted_players, iid) {
                Some(j) => self.unlisted_players[j].players.len(),
                None => 0,
            },
        }
    }

    fn get_ticket_owner(&self, iid: u32, ticket_number: usize) -> (res: Result<Address, Error>) {
        match self.find(iid) {
            Some(i) => {
                if ticket_number == 0 || ticket_number > self.instances[i].players.len() {
                    Err(Error::IndexOutOfRange)
                } else {
                    Ok(self.instances[i].players[ticket_number - 1])
                }
            },
            None => match find_distinct(&self.unlisted_players, iid) {
                Some(j) => {
                    if ticket_number == 0 || ticket_number > self.unlisted_players[j].players.len() {
                        Err(Error::IndexOutOfRange)
                    } else {
                        Ok(self.unlisted_players[j].players[ticket_number - 1])
                    }
                },
                None => Err(Error::IndexOutOfRange),
            },
        }
    }

    fn clear_players(&mut self, iid: u32) {
        let ghost before = old(self).instances@;
        let ghost lists = old(self).unlisted_players@;
        proof {
            lemma_ascending_is_distinct(before);
        }
        match self.find(iid) {
            Some(i) => {
                self.instances[i].players.clear();
                proof {
                    let after = self.instances@;
                    assert(after == before.update(i as int, after[i as int]));
                    lemma_open_count_kept(before, i as int, after[i as int]);
                    assert(after[i as int].players@ == Seq::<Address>::empty());
                    assert(before[i as int].wf());
                    assert forall|number: u32| #[trigger]
                        self.spec_players(number) == if number == iid {
                            Seq::<Address>::empty()
                        } else {
                            old(self).spec_players(number)
                        } by {
                        lemma_lookup_updated(before, i as int, after[i as int], number);
                    }
                }
            },
            None => {
                match find_distinct(&self.unlisted_players, iid) {
                    Some(j) => {
                        self.unlisted_players[j].players.clear();
                        proof {
                            let after = self.unlisted_players@;
                            assert(after == lists.update(j as int, after[j as int]));
                            assert(after[j as int].players@ == Seq::<Address>::empty());
                            assert forall|number: u32| #[trigger]
                                self.spec_players(number) == if number == iid {
                                    Seq::<Address>::empty()
                                } else {
                                    old(self).spec_players(number)
                                } by {
                                lemma_lookup_updated(lists, j as int, after[j as int], number);
                            }
                        }
                    },
                    None => {},
                }
            },
        }
    }
}

impl PrizeContract {
    /// Takes out the players recorded under the number `iid`, which no
    /// instance has: they are the first players of the instance that is
    /// about to get the number.
    pub fn take_unlisted(&mut self, iid: u32) -> (players: Vec<Address>)
        requires
            old(self).wf(),
            old(self).spec_instance(iid) is None,
        ensures
            final(self).wf(),
            *final(self) == (PrizeContract {
                unlisted_players: final(self).unlisted_players,
                ..*old(self)
            }),
            players@ == old(self).spec_players(iid),
            forall|k: int| 0 <= k < players@.len() ==> !(#[trigger] players@[k]).is_zero(),
            lookup(final(self).unlisted_players@, iid) is None,
            forall|number: u32|
                number != iid ==> #[trigger] lookup(final(self).unlisted_players@, number)
                    == lookup(old(self).unlisted_players@, number),
    {
        let ghost lists = self.unlisted_players@;
        match find_distinct(&self.unlisted_players, iid) {
            Some(j) => {
                let list = self.unlisted_players.remove(j);
                proof {
                    let after = self.unlisted_players@;
                    assert(after == lists.remove(j as int));
                    assert(lists[j as int].wf());
                    lemma_distinct_lookup_removed(lists, j as int, iid);
                    assert forall|number: u32| number != iid implies #[trigger] lookup(
                        after,
                        number,
                    ) == lookup(lists, number) by {
                        lemma_distinct_lookup_removed(lists, j as int, number);
                    }
                    assert forall|k: int| 0 <= k < after.len() implies (#[trigger] after[k]).wf()
                        && exists|k0: int| 0 <= k0 < lists.len() && lists[k0] == after[k] by {
                        let k0 = if k < j { k } else { k + 1 };
                        assert(after[k] == lists[k0]);
                        assert(lists[k0].wf());
                    }
                    assert forall|k: int, i: int|
                        0 <= k < after.len() && 0 <= i < self.instances@.len() implies (
                    #[trigger] after[k]).iid != (#[trigger] self.instances@[i]).iid by {
                        let k0 = if k < j { k } else { k + 1 };
                        assert(after[k] == lists[k0]);
                    }
                }
                list.players
            },
            None => Vec::new(),
        }
    }
}

/// Whether `player` is one of `players`.
pub fn holds(players: &Vec<Address>, player: Address) -> (found: bool)
    ensures
        found == players@.contains(player),
{
    let mut k: usize = 0;
    while k < players.len()
        invariant
            k <= players@.len(),
            forall|j: int| 0 <= j < k ==> players@[j] != player,
        decreases players@.len() - k,
    {
        if players[k] == player {
            return true;
        }
        k += 1;
    }
    false
}

} // verus!
