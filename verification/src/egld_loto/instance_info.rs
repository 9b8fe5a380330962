//! What the draw contract records of each instance.

use vstd::prelude::*;
use crate::address::{none_zero, Address};
use crate::lottery::instance_status::InstanceStatus;
use crate::registry::Numbered;

verus! {

/// How the sponsor of an instance presents itself.
#[derive(Clone, Debug, PartialEq, Eq)]
pub struct SponsorInfo {
    pub pseudo: Vec<u8>,
    pub url: Vec<u8>,
    pub picture_link: Vec<u8>,
    pub free_text: Vec<u8>,
}

/// What is recorded of an instance. A zero winner address means that no
/// draw has taken place.
#[derive(Clone, Debug, PartialEq, Eq)]
pub struct InstanceInfo {
    pub sponsor_address: Address,
    /// The prize, in the native currency.
    pub prize: u128,
    pub sponsor_info: SponsorInfo,
    pub deadline: u64,
    pub winner_address: Address,
    pub claimed_status: bool,
}

/// An instance with its number and its players. The player at index `k`
/// holds ticket `k + 1`.
#[derive(Clone, Debug, PartialEq, Eq)]
pub struct Instance {
    pub iid: u32,
    pub info: InstanceInfo,
    pub players: Vec<Address>,
}

impl SponsorInfo {
    /// Equal in every field, byte strings compared by content.
    pub open spec fn agrees(self, other: SponsorInfo) -> bool {
        &&& self.pseudo@ == other.pseudo@
        &&& self.url@ == other.url@
        &&& self.picture_link@ == other.picture_link@
        &&& self.free_text@ == other.free_text@
    }

    /// A copy that holds the same bytes.
    pub fn duplicate(&self) -> (copy: SponsorInfo)
        ensures
            self.agrees(copy),
    {
        SponsorInfo {
            pseudo: self.pseudo.clone(),
            url: self.url.clone(),
            picture_link: self.picture_link.clone(),
            free_text: self.free_text.clone(),
        }
    }
}

impl InstanceInfo {
    /// Equal in every field, byte strings compared by content.
    pub open spec fn agrees(self, other: InstanceInfo) -> bool {
        &&& self.sponsor_address == other.sponsor_address
        &&& self.prize == other.prize
        &&& self.sponsor_info.agrees(other.sponsor_info)
        &&& self.deadline == other.deadline
        &&& self.claimed_status == other.claimed_status
        &&& self.winner_address == other.winner_address
    }

    /// A copy that holds the same bytes.
    pub fn duplicate(&self) -> (copy: InstanceInfo)
        ensures
            self.agrees(copy),
    {
        InstanceInfo {
            sponsor_address: self.sponsor_address,
            prize: self.prize,
            sponsor_info: self.sponsor_info.duplicate(),
            deadline: self.deadline,
            winner_address: self.winner_address,
            claimed_status: self.claimed_status,
        }
    }

    /// The status at time `now` of an instance of which this is recorded.
    /// The first of these that applies decides: claimed, drawn, past its
    /// deadline; an instance to which none applies is running.
    pub open spec fn spec_status(&self, now: u64) -> InstanceStatus {
        if self.claimed_status {
            InstanceStatus::Claimed
        } else if !self.winner_address.is_zero() {
            InstanceStatus::Triggered
        } else if now > self.deadline {
            InstanceStatus::Ended
        } else {
            InstanceStatus::Running
        }
    }

    /// The status at time `now`.
    #[verifier::when_used_as_spec(spec_status)]
    pub fn status(&self, now: u64) -> (status: InstanceStatus)
        ensures
            status == self.spec_status(now),
            status != InstanceStatus::NotExisting,
    {
        if self.claimed_status {
            InstanceStatus::Claimed
        } else if !self.winner_address.is_zero() {
            InstanceStatus::Triggered
        } else if now > self.deadline {
            InstanceStatus::Ended
        } else {
            InstanceStatus::Running
        }
    }
}

impl Numbered for Instance {
    open spec fn number(&self) -> u32 {
        self.iid
    }

    fn iid(&self) -> (iid: u32) {
        self.iid
    }
}

impl Instance {
    /// The invariant of one instance.
    pub open spec fn wf(&self) -> bool {
        &&& self.iid >= 1
        &&& !self.info.sponsor_address.is_zero()
        &&& forall|k: int| 0 <= k < self.players@.len() ==> !(#[trigger] self.players@[k]).is_zero()
    }

    /// Whether the invariant of one instance holds of this one.
    pub fn is_valid(&self) -> (valid: bool)
        ensures
            valid == self.wf(),
    {
        self.iid >= 1 && !self.info.sponsor_address.is_zero() && none_zero(&self.players)
    }

    /// Whether `player` holds a ticket of this instance.
    pub open spec fn spec_has_player(&self, player: Address) -> bool {
        self.players@.contains(player)
    }

    /// Whether `player` holds a ticket of this instance.
    #[verifier::when_used_as_spec(spec_has_player)]
    pub fn has_player(&self, player: Address) -> (found: bool)
        ensures
            found == self.spec_has_player(player),
    {
        let mut k: usize = 0;
        while k < self.players.len()
            invariant
                k <= self.players@.len(),
                forall|j: int| 0 <= j < k ==> self.players@[j] != player,
            decreases self.players@.len() - k,
        {
            if self.players[k] == player {
                return true;
            }
            k += 1;
        }
        false
    }

    /// Who wins the draw of this instance with the random number `random`:
    /// the player whose place in the list is the remainder of `random` by
    /// the number of players; the sponsor if nobody played.
    pub open spec fn spec_winner(&self, random: u32) -> Address {
        if self.players@.len() == 0 {
            self.info.sponsor_address
        } else {
            self.players@[(random as int) % (self.players@.len() as int)]
        }
    }

    /// This instance after its draw with the random number `random`.
    pub open spec fn spec_drawn(self, random: u32) -> Instance {
        Instance {
            info: InstanceInfo { winner_address: self.spec_winner(random), ..self.info },
            ..self
        }
    }

    /// Who wins the draw of this instance with the random number `random`.
    #[verifier::when_used_as_spec(spec_winner)]
    pub fn winner(&self, random: u32) -> (winner: Address)
        ensures
            winner == self.spec_winner(random),
            self.wf() ==> !winner.is_zero(),
    {
        let nb_players = self.players.len();
        if nb_players == 0 {
            self.info.sponsor_address
        } else {
            let winning_address_index: usize = (random as usize % nb_players) + 1;
            self.players[winning_address_index - 1]
        }
    }
}

/// The winner of a draw took part: it is the sponsor of the instance or one
/// of its players, and it is somebody, whatever the random number.
pub proof fn lemma_winner_took_part(inst: Instance, random: u32)
    requires
        inst.wf(),
    ensures
        !inst.spec_winner(random).is_zero(),
        inst.players@.len() == 0 ==> inst.spec_winner(random) == inst.info.sponsor_address,
        inst.players@.len() > 0 ==> inst.players@.contains(inst.spec_winner(random)),
{
    if inst.players@.len() > 0 {
        let at = (random as int) % (inst.players@.len() as int);
        assert(inst.players@[at] == inst.spec_winner(random));
    }
}

/// How far along the life of an instance a status is.
pub open spec fn spec_stage(status: InstanceStatus) -> int {
    match status {
        InstanceStatus::NotExisting => 0,
        InstanceStatus::Running => 1,
        InstanceStatus::Ended => 2,
        InstanceStatus::Triggered => 3,
        InstanceStatus::Claimed => 4,
    }
}

/// Whether `after` is what `before` may have become as the contract was
/// used: the same instance with the same deadline; drawn and claimed if it
/// was, and with the same winner.
pub open spec fn moved_on(before: Instance, after: Instance) -> bool {
    &&& after.iid == before.iid
    &&& after.info.deadline == before.info.deadline
    &&& before.info.claimed_status ==> after.info.claimed_status
    &&& !before.info.winner_address.is_zero() ==> after.info.winner_address
        == before.info.winner_address
}

/// Whether every instance of `before` is listed in `after` at the same
/// place, as what it may have become.
pub open spec fn all_moved_on(before: Seq<Instance>, after: Seq<Instance>) -> bool {
    &&& before.len() <= after.len()
    &&& forall|i: int| 0 <= i < before.len() ==> moved_on(#[trigger] before[i], after[i])
}

/// The life of an instance goes forward only: from running to past its
/// deadline, to drawn, to claimed. As time goes by and the contract is
/// used, the status of an instance never falls back.
pub proof fn lemma_life_goes_forward(before: Instance, after: Instance, earlier: u64, later: u64)
    requires
        moved_on(before, after),
        earlier <= later,
    ensures
        spec_stage(before.info.spec_status(earlier)) <= spec_stage(after.info.spec_status(later)),
{
}

/// What moved on once and then once more has moved on.
pub proof fn lemma_moved_on_twice(first: Seq<Instance>, second: Seq<Instance>, third: Seq<Instance>)
    requires
        all_moved_on(first, second),
        all_moved_on(second, third),
    ensures
        all_moved_on(first, third),
{
    assert forall|i: int| 0 <= i < first.len() implies moved_on(#[trigger] first[i], third[i]) by {
        assert(moved_on(first[i], second[i]));
        assert(moved_on(second[i], third[i]));
    }
}

/// The order of precedence among the facts that decide a status.
pub proof fn lemma_status_precedence(info: InstanceInfo, now: u64)
    ensures
        info.spec_status(now) != InstanceStatus::NotExisting,
        info.spec_status(now) == InstanceStatus::Claimed <==> info.claimed_status,
        info.spec_status(now) == InstanceStatus::Triggered <==> !info.claimed_status
            && !info.winner_address.is_zero(),
        info.spec_status(now) == InstanceStatus::Ended <==> !info.claimed_status
            && info.winner_address.is_zero() && now > info.deadline,
        info.spec_status(now) == InstanceStatus::Running <==> !info.claimed_status
            && info.winner_address.is_zero() && now <= info.deadline,
{
}

} // verus!
