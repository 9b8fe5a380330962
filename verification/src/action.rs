//! What a contract asks its host to do: payments and log entries.

use vstd::prelude::*;
use crate::address::Address;

verus! {

/// The note that accompanies a payment.
#[derive(Clone, Copy, Debug, PartialEq, Eq, Structural)]
pub enum Memo {
    SendPrize,
    SponsorRewards,
    FeesClaimed,
    LinkRewardsClaimed,
    DonationsClaimed,
    PrizeClaimed,
    WinningTicket,
    LotoFee,
    TicketRefund,
}

impl Memo {
    /// The text sent along with the payment.
    pub open spec fn spec_text(&self) -> Seq<char> {
        match *self {
            Memo::SendPrize => "Send prize"@,
            Memo::SponsorRewards => "Sponsor rewards"@,
            Memo::FeesClaimed => "Fees from pool claimed"@,
            Memo::LinkRewardsClaimed => "Link rewards claimed"@,
            Memo::DonationsClaimed => "Donations from pool claimed"@,
            Memo::PrizeClaimed => "Prize claimed"@,
            Memo::WinningTicket => "You have the winning ticket! Congratulations!"@,
            Memo::LotoFee => "loto fee"@,
            Memo::TicketRefund => "Loto cancelled, this is your ticket refund!"@,
        }
    }

    /// The text sent along with the payment.
    pub fn text(&self) -> (t: &'static str)
        ensures
            t@ == self.spec_text(),
    {
        match *self {
            Memo::SendPrize => "Send prize",
            Memo::SponsorRewards => "Sponsor rewards",
            Memo::FeesClaimed => "Fees from pool claimed",
            Memo::LinkRewardsClaimed => "Link rewards claimed",
            Memo::DonationsClaimed => "Donations from pool claimed",
            Memo::PrizeClaimed => "Prize claimed",
            Memo::WinningTicket => "You have the winning ticket! Congratulations!",
            Memo::LotoFee => "loto fee",
            Memo::TicketRefund => "Loto cancelled, this is your ticket refund!",
        }
    }
}

/// A log entry. Every entry carries the epoch of the block it was written in.
#[derive(Clone, Debug, PartialEq, Eq)]
pub enum Event {
    CreateInstance {
        epoch: u64,
        sponsor_address: Address,
        iid: u32,
        token_identifier: Vec<u8>,
        token_nonce: u64,
        token_amount: u128,
        duration_in_s: u64,
        pseudo: Vec<u8>,
    },
    Play { epoch: u64, player_address: Address, iid: u32, ticket_number: usize, fees: u128 },
    Trigger { epoch: u64, iid: u32, ticket_number: usize, winner_address: Address },
    FeePoolInfo { epoch: u64, fees: u128 },
    RewardPoolInfo { epoch: u64, iid: u32, reward_pool: u128 },
    SendRewards { epoch: u64, iid: u32, rewards: u128 },
    AutoClaimPrize { epoch: u64, iid: u32 },
    ClaimFees { epoch: u64, fee_amount: u128 },
    ClaimLinkRewards { epoch: u64, reward_amount: u128, link_address: Address },
    ClaimDonations { epoch: u64, donations_amount: u128 },
    ManualClaimPrize { epoch: u64, iid: u32 },
    CleanClaim { epoch: u64, iid: u32 },
    SetPremium { epoch: u64, iid: u32, premium_status: bool },
    DisableInstance { epoch: u64, iid: u32, disable_status: bool },
    SetFeePolicy {
        epoch: u64,
        fee_amount_egld: u128,
        sponsor_reward_percent: u8,
        link_reward_percent: u8,
    },
    SetParamDuration { epoch: u64, duration_min: u64, duration_max: u64 },
    SetParamSponsorInfoMaxLength { epoch: u64, length_max: u32 },
    SetParamNbMaxInstancesPerSponsor { epoch: u64, nb_instances_max: u32 },
    SetParamManualClaim { epoch: u64, manual_claim: bool },
    AddAddrBlacklist { epoch: u64, address: Address },
    RmAddrBlacklist { epoch: u64, address: Address },
}

/// One thing the host has to do after a call that succeeded.
#[derive(Clone, Debug, PartialEq, Eq)]
pub enum Action {
    /// Pay `amount` of the native currency to `to`.
    DirectEgld { to: Address, amount: u128, memo: Memo },
    /// Pay `amount` of the token `token_identifier` (with `token_nonce`) to `to`.
    Direct { to: Address, token_identifier: Vec<u8>, token_nonce: u64, amount: u128, memo: Memo },
    /// Write `0` to the log.
    Log(Event),
}

impl Event {
    /// Two entries agree when they say the same thing: equal in every field,
    /// byte strings compared by content.
    pub open spec fn agrees(self, other: Event) -> bool {
        match self {
            Event::CreateInstance {
                epoch,
                sponsor_address,
                iid,
                token_identifier,
                token_nonce,
                token_amount,
                duration_in_s,
                pseudo,
            } => {
                &&& other is CreateInstance
                &&& other->CreateInstance_epoch == epoch
                &&& other->sponsor_address == sponsor_address
                &&& other->CreateInstance_iid == iid
                &&& other->token_identifier@ == token_identifier@
                &&& other->token_nonce == token_nonce
                &&& other->token_amount == token_amount
                &&& other->duration_in_s == duration_in_s
                &&& other->pseudo@ == pseudo@
            },
            _ => other == self,
        }
    }
}

impl Action {
    /// Two actions agree when they ask for the same thing: equal in every
    /// field, byte strings compared by content.
    pub open spec fn agrees(self, other: Action) -> bool {
        match self {
            Action::Direct { to, token_identifier, token_nonce, amount, memo } => {
                &&& other is Direct
                &&& other->Direct_to == to
                &&& other->Direct_token_identifier@ == token_identifier@
                &&& other->Direct_token_nonce == token_nonce
                &&& other->Direct_amount == amount
                &&& other->Direct_memo == memo
            },
            Action::Log(event) => other is Log && event.agrees(other->Log_0),
            _ => other == self,
        }
    }
}

/// `after` is `before` followed by actions that agree, one by one and in
/// order, with `added`.
pub open spec fn journal_extended(before: Seq<Action>, after: Seq<Action>, added: Seq<Action>) -> bool {
    &&& after.len() == before.len() + added.len()
    &&& after.subrange(0, before.len() as int) == before
    &&& forall|k: int| 0 <= k < added.len() ==> (#[trigger] added[k]).agrees(after[before.len() + k])
}

/// The amount that `action` pays: nothing for a log entry.
pub open spec fn spec_amount(action: Action) -> nat {
    match action {
        Action::DirectEgld { amount, .. } => amount as nat,
        Action::Direct { amount, .. } => amount as nat,
        Action::Log(_) => 0,
    }
}

/// The sum of the amounts that `actions` pay.
pub open spec fn spec_total_paid(actions: Seq<Action>) -> nat
    decreases actions.len(),
{
    if actions.len() == 0 {
        0
    } else {
        spec_total_paid(actions.drop_last()) + spec_amount(actions.last())
    }
}

/// What two lists of actions pay together is the sum of what each pays.
pub proof fn lemma_total_paid_adds(first: Seq<Action>, second: Seq<Action>)
    ensures
        spec_total_paid(first + second) == spec_total_paid(first) + spec_total_paid(second),
    decreases second.len(),
{
    if second.len() == 0 {
        assert(first + second == first);
    } else {
        lemma_total_paid_adds(first, second.drop_last());
        assert((first + second).drop_last() == first + second.drop_last());
        assert((first + second).last() == second.last());
    }
}

/// Every action agrees with itself.
pub proof fn lemma_agrees_reflexive(action: Action)
    ensures
        action.agrees(action),
{
}

/// Agreement carries over: what agrees with an action agrees with whatever
/// that action agrees with.
pub proof fn lemma_agrees_transitive(first: Action, second: Action, third: Action)
    requires
        first.agrees(second),
        second.agrees(third),
    ensures
        first.agrees(third),
{
}

/// A journal extended by `added` was extended by any list of actions that
/// agree with those of `added` one by one.
pub proof fn lemma_journal_extended_alike(
    before: Seq<Action>,
    after: Seq<Action>,
    added: Seq<Action>,
    alike: Seq<Action>,
)
    requires
        journal_extended(before, after, added),
        alike.len() == added.len(),
        forall|k: int| 0 <= k < alike.len() ==> (#[trigger] alike[k]).agrees(added[k]),
    ensures
        journal_extended(before, after, alike),
{
    assert forall|k: int| 0 <= k < alike.len() implies (#[trigger] alike[k]).agrees(
        after[before.len() + k],
    ) by {
        assert(added[k].agrees(after[before.len() + k]));
        lemma_agrees_transitive(alike[k], added[k], after[before.len() + k]);
    }
}

/// A journal that grew by exactly `added` was extended by `added`.
pub proof fn lemma_journal_appended(before: Seq<Action>, added: Seq<Action>)
    ensures
        journal_extended(before, before + added, added),
{
    let after = before + added;
    assert(after.subrange(0, before.len() as int) =~= before);
    assert forall|k: int| 0 <= k < added.len() implies (#[trigger] added[k]).agrees(
        after[before.len() + k],
    ) by {
        lemma_agrees_reflexive(added[k]);
    }
}

/// Two extensions in a row make one extension by both lists of actions.
pub proof fn lemma_journal_extended_twice(
    before: Seq<Action>,
    middle: Seq<Action>,
    after: Seq<Action>,
    first: Seq<Action>,
    second: Seq<Action>,
)
    requires
        journal_extended(before, middle, first),
        journal_extended(middle, after, second),
    ensures
        journal_extended(before, after, first + second),
{
    let added = first + second;
    assert(after.subrange(0, before.len() as int) =~= middle.subrange(0, before.len() as int)) by {
        assert(after.subrange(0, middle.len() as int) == middle);
        assert forall|k: int| 0 <= k < before.len() implies after[k] == middle[k] by {
            assert(after.subrange(0, middle.len() as int)[k] == after[k]);
        }
    }
    assert forall|k: int| 0 <= k < added.len() implies (#[trigger] added[k]).agrees(
        after[before.len() + k],
    ) by {
        if k < first.len() {
            assert(first[k].agrees(middle[before.len() + k]));
            assert(after.subrange(0, middle.len() as int)[before.len() + k] == after[before.len()
                + k]);
        } else {
            assert(second[k - first.len()].agrees(after[middle.len() + (k - first.len())]));
        }
    }
}

} // verus!
