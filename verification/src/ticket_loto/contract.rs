//! The endpoints of the ticket pool.

use vstd::prelude::*;
use crate::action::{lemma_total_paid_adds, spec_total_paid, Action, Memo};
use crate::address::Address;
use crate::address_map::{has_key, lemma_entry_is_mapped, AddressMap};
use crate::amount::checked_credit;
use crate::context::{CallContext, ContractBase};
use crate::ticket_loto::error::Error;
use crate::ticket_loto::loto_info::{lemma_ticket_price_split, LotoInfo};
use crate::ticket_loto::status::Status;

verus! {

/// How many of the tickets `holders` belong to `holder`.
pub open spec fn occurrences(holders: Seq<Address>, holder: Address) -> nat
    decreases holders.len(),
{
    if holders.len() == 0 {
        0
    } else {
        occurrences(holders.drop_last(), holder) + if holders.last() == holder {
            1nat
        } else {
            0nat
        }
    }
}

/// Nobody holds more tickets than were sold, and the holder of a ticket
/// holds at least one.
pub proof fn lemma_occurrences_bounds(holders: Seq<Address>, holder: Address)
    ensures
        occurrences(holders, holder) <= holders.len(),
        holders.contains(holder) <==> occurrences(holders, holder) > 0,
    decreases holders.len(),
{
    if holders.len() > 0 {
        let fewer = holders.drop_last();
        lemma_occurrences_bounds(fewer, holder);
        if holders.last() == holder {
            assert(holders[holders.len() - 1] == holder);
        } else {
            if holders.contains(holder) {
                let i = choose|i: int| 0 <= i < holders.len() && holders[i] == holder;
                assert(fewer[i] == holder);
            }
            if fewer.contains(holder) {
                let i = choose|i: int| 0 <= i < fewer.len() && fewer[i] == holder;
                assert(holders[i] == holder);
            }
        }
    }
}

/// What the ticket at `i` adds to a holder's count among those before it.
pub proof fn lemma_occurrences_step(holders: Seq<Address>, i: int, holder: Address)
    requires
        0 <= i < holders.len(),
    ensures
        occurrences(holders.take(i + 1), holder) == occurrences(holders.take(i), holder) + if holders[i]
            == holder {
            1nat
        } else {
            0nat
        },
{
    assert(holders.take(i + 1).drop_last() == holders.take(i));
}

/// How many of the tickets `holders` belong to `holder`.
pub fn count_tickets(holders: &Vec<Address>, holder: Address) -> (count: usize)
    ensures
        count == occurrences(holders@, holder),
{
    let mut count: usize = 0;
    let mut i: usize = 0;
    assert(holders@.take(0).len() == 0);
    while i < holders.len()
        invariant
            i <= holders@.len(),
            count == occurrences(holders@.take(i as int), holder),
            count <= i,
        decreases holders@.len() - i,
    {
        proof {
            lemma_occurrences_step(holders@, i as int, holder);
        }
        if holders[i] == holder {
            count += 1;
        }
        i += 1;
    }
    assert(holders@.take(holders@.len() as int) == holders@);
    count
}

/// The storage of the ticket pool.
#[derive(Clone, Debug, PartialEq, Eq)]
pub struct LotoContract {
    /// The terms and the pools; none while the pool is not started.
    pub loto_info: Option<LotoInfo>,
    /// Who holds each ticket; tickets are numbered from zero.
    pub ticket_holder: Vec<Address>,
    pub holder_number_of_tickets: AddressMap<u32>,
    /// For each holder, the number of the ticket it bought last.
    pub holder_last_ticket_number: AddressMap<u32>,
    /// What the host has to do for the calls served so far, oldest first.
    pub journal: Vec<Action>,
}

impl LotoContract {
    /// How many tickets `holder` is recorded to hold.
    pub open spec fn spec_number_of_tickets(&self, holder: Address) -> u32 {
        self.holder_number_of_tickets.spec_get_or(holder, 0u32)
    }

    /// The number of the ticket that `holder` is recorded to have bought
    /// last.
    pub open spec fn spec_last_ticket_number(&self, holder: Address) -> u32 {
        self.holder_last_ticket_number.spec_get_or(holder, 0u32)
    }

    /// Whether what is recorded of the holders fits the tickets: the terms
    /// count every ticket, each holder's count is the number of its tickets,
    /// its last ticket is its last, and nothing is recorded of anybody else.
    pub open spec fn spec_consistent(&self) -> bool {
        let holders = self.ticket_holder@;
        &&& self.holder_number_of_tickets.wf()
        &&& self.holder_last_ticket_number.wf()
        &&& match self.loto_info {
            Some(info) => info.fee_percent <= 100 && holders.len() == info.current_ticket_number,
            None => holders.len() == 0,
        }
        &&& forall|holder: Address|
            self.spec_number_of_tickets(holder) == #[trigger] occurrences(holders, holder)
        &&& forall|holder: Address|
            #[trigger] occurrences(holders, holder) == 0 ==> self.spec_last_ticket_number(holder)
                == 0
        &&& forall|i: int|
            0 <= i < holders.len() ==> {
                let last = self.spec_last_ticket_number(#[trigger] holders[i]);
                i <= last < holders.len() && holders[last as int] == holders[i]
            }
    }

    /// The status of the pool at time `now`.
    pub open spec fn spec_status(&self, now: u64) -> Status {
        match self.loto_info {
            None => Status::Inactive,
            Some(info) => if now > info.deadline {
                Status::Ended
            } else {
                Status::Running
            },
        }
    }

    /// What `start` answers.
    pub open spec fn spec_start(
        &self,
        ctx: CallContext,
        ticket_price: u128,
        delay_in_s: u64,
        fee_percent: u128,
    ) -> Result<(), Error> {
        if !ctx.by_owner() {
            Err(Error::CallerNotAllowed)
        } else if self.loto_info is Some {
            Err(Error::AlreadyStarted)
        } else if ticket_price == 0 {
            Err(Error::NullTicketPrice)
        } else if fee_percent > 100 {
            Err(Error::FeePercentTooHigh)
        } else if delay_in_s == 0 {
            Err(Error::NullDelay)
        } else if ctx.block_timestamp + delay_in_s > u64::MAX {
            Err(Error::Overflow)
        } else {
            Ok(())
        }
    }

    /// What `update_after_buy_ticket` answers while the pool is started.
    pub open spec fn spec_sale(&self, payment: u128) -> Result<(), Error> {
        let info = self.loto_info->0;
        if payment != info.ticket_price {
            Err(Error::WrongTicketPrice)
        } else if info.current_ticket_number == u32::MAX {
            Err(Error::Overflow)
        } else if info.prize_pool + info.spec_ticket_value() > u128::MAX {
            Err(Error::Overflow)
        } else if info.fee_pool + info.spec_ticket_fee() > u128::MAX {
            Err(Error::Overflow)
        } else {
            Ok(())
        }
    }

    /// What `buy_ticket` answers.
    pub open spec fn spec_buy_ticket(&self, ctx: CallContext, payment: u128) -> Result<(), Error> {
        match self.spec_status(ctx.block_timestamp) {
            Status::Inactive => Err(Error::SalesNotOpen),
            Status::Running => self.spec_sale(payment),
            Status::Ended => Err(Error::SalesClosed),
        }
    }

    /// What paying out the fee pool adds to the journal: nothing if the pool
    /// is empty.
    pub open spec fn spec_fee_payment(&self, owner: Address) -> Seq<Action> {
        match self.loto_info {
            Some(info) => if info.fee_pool > 0 {
                seq![Action::DirectEgld { to: owner, amount: info.fee_pool, memo: Memo::LotoFee }]
            } else {
                Seq::empty()
            },
            None => Seq::empty(),
        }
    }

    /// What the draw with the random number `random` adds to the journal:
    /// the payment of the prize pool to the holder of the ticket whose number
    /// is the remainder of `random` by the number of tickets; nothing if no
    /// ticket was sold.
    pub open spec fn spec_prize_payment(&self, random: u32) -> Seq<Action> {
        match self.loto_info {
            Some(info) => if info.current_ticket_number > 0 {
                seq![
                    Action::DirectEgld {
                        to: self.ticket_holder@[(random % info.current_ticket_number) as int],
                        amount: info.prize_pool,
                        memo: Memo::WinningTicket,
                    },
                ]
            } else {
                Seq::empty()
            },
            None => Seq::empty(),
        }
    }

    /// What refunding the holders of the first `upto` tickets adds to the
    /// journal: for each ticket that is the last its holder bought, the
    /// payment to that holder of the value of all its tickets.
    pub open spec fn spec_refunds(&self, upto: int) -> Seq<Action>
        decreases upto,
    {
        if upto <= 0 || self.loto_info is None {
            Seq::empty()
        } else {
            let holder = self.ticket_holder@[upto - 1];
            self.spec_refunds(upto - 1) + if upto - 1 == self.spec_last_ticket_number(holder) {
                seq![
                    Action::DirectEgld {
                        to: holder,
                        amount: (self.loto_info->0.spec_ticket_value()
                            * self.spec_number_of_tickets(holder)) as u128,
                        memo: Memo::TicketRefund,
                    },
                ]
            } else {
                Seq::<Action>::empty()
            }
        }
    }

    /// Whether nothing is stored but the journal.
    pub open spec fn spec_blank(&self) -> bool {
        &&& self.loto_info is None
        &&& self.ticket_holder@.len() == 0
        &&& forall|holder: Address| #[trigger]
            self.spec_number_of_tickets(holder) == 0
        &&& forall|holder: Address| #[trigger]
            self.spec_last_ticket_number(holder) == 0
    }

    /// Whether each holder's count is the number of its tickets.
    fn counts_valid(&self) -> (valid: bool)
        requires
            self.holder_number_of_tickets.wf(),
        ensures
            valid == forall|holder: Address|
                self.spec_number_of_tickets(holder) == #[trigger] occurrences(
                    self.ticket_holder@,
                    holder,
                ),
    {
        let ghost entries = self.holder_number_of_tickets.entries@;
        let ghost holders = self.ticket_holder@;
        let mut j: usize = 0;
        while j < self.holder_number_of_tickets.entries.len()
            invariant
                entries == self.holder_number_of_tickets.entries@,
                holders == self.ticket_holder@,
                self.holder_number_of_tickets.wf(),
                j <= entries.len(),
                forall|k: int|
                    0 <= k < j ==> (#[trigger] entries[k]).1 == occurrences(holders, entries[k].0),
            decreases entries.len() - j,
        {
            let holder = self.holder_number_of_tickets.entries[j].0;
            let count = self.holder_number_of_tickets.entries[j].1;
            proof {
                lemma_entry_is_mapped(entries, j as int);
            }
            if count as usize != count_tickets(&self.ticket_holder, holder) {
                assert(self.spec_number_of_tickets(holder) != occurrences(holders, holder));
                return false;
            }
            j += 1;
        }
        let mut i: usize = 0;
        while i < self.ticket_holder.len()
            invariant
                entries == self.holder_number_of_tickets.entries@,
                holders == self.ticket_holder@,
                self.holder_number_of_tickets.wf(),
                i <= holders.len(),
                forall|k: int|
                    0 <= k < entries.len() ==> (#[trigger] entries[k]).1 == occurrences(
                        holders,
                        entries[k].0,
                    ),
                forall|k: int|
                    0 <= k < i ==> self.spec_number_of_tickets(#[trigger] holders[k])
                        == occurrences(holders, holders[k]),
            decreases holders.len() - i,
        {
            let holder = self.ticket_holder[i];
            let count: u32 = self.holder_number_of_tickets.get_or(holder, 0);
            if count as usize != count_tickets(&self.ticket_holder, holder) {
                assert(self.spec_number_of_tickets(holder) != occurrences(holders, holder));
                return false;
            }
            i += 1;
        }
        proof {
            assert forall|holder: Address|
                self.spec_number_of_tickets(holder) == #[trigger] occurrences(
                    holders,
                    holder,
                ) by {
                lemma_occurrences_bounds(holders, holder);
                if has_key(entries, holder) {
                    let k = choose|k: int| 0 <= k < entries.len() && (#[trigger] entries[k]).0
                        == holder;
                    lemma_entry_is_mapped(entries, k);
                } else if holders.contains(holder) {
                    let k = choose|k: int| 0 <= k < holders.len() && holders[k] == holder;
                    assert(self.spec_number_of_tickets(holders[k]) == occurrences(
                        holders,
                        holders[k],
                    ));
                }
            }
        }
        true
    }

    /// Whether nothing is recorded as the last ticket of somebody who holds
    /// none.
    fn strangers_valid(&self) -> (valid: bool)
        requires
            self.holder_last_ticket_number.wf(),
        ensures
            valid == forall|holder: Address|
                #[trigger] occurrences(self.ticket_holder@, holder) == 0
                    ==> self.spec_last_ticket_number(holder) == 0,
    {
        let ghost entries = self.holder_last_ticket_number.entries@;
        let ghost holders = self.ticket_holder@;
        let mut j: usize = 0;
        while j < self.holder_last_ticket_number.entries.len()
            invariant
                entries == self.holder_last_ticket_number.entries@,
                holders == self.ticket_holder@,
                self.holder_last_ticket_number.wf(),
                j <= entries.len(),
                forall|k: int|
                    0 <= k < j ==> (occurrences(holders, (#[trigger] entries[k]).0) == 0
                        ==> entries[k].1 == 0),
            decreases entries.len() - j,
        {
            let holder = self.holder_last_ticket_number.entries[j].0;
            let last = self.holder_last_ticket_number.entries[j].1;
            proof {
                lemma_entry_is_mapped(entries, j as int);
            }
            if last != 0 && count_tickets(&self.ticket_holder, holder) == 0 {
                assert(occurrences(holders, holder) == 0 && self.spec_last_ticket_number(holder)
                    != 0);
                return false;
            }
            j += 1;
        }
        proof {
            assert forall|holder: Address| #[trigger] occurrences(holders, holder) == 0 implies
                self.spec_last_ticket_number(holder) == 0 by {
                if has_key(entries, holder) {
                    let k = choose|k: int| 0 <= k < entries.len() && (#[trigger] entries[k]).0
                        == holder;
                    lemma_entry_is_mapped(entries, k);
                }
            }
        }
        true
    }

    /// Whether each holder's last ticket is its last.
    fn last_tickets_valid(&self) -> (valid: bool)
        requires
            self.holder_last_ticket_number.wf(),
        ensures
            valid == forall|i: int|
                0 <= i < self.ticket_holder@.len() ==> {
                    let last = self.spec_last_ticket_number(#[trigger] self.ticket_holder@[i]);
                    i <= last < self.ticket_holder@.len() && self.ticket_holder@[last as int]
                        == self.ticket_holder@[i]
                },
    {
        let ghost holders = self.ticket_holder@;
        let mut i: usize = 0;
        while i < self.ticket_holder.len()
            invariant
                holders == self.ticket_holder@,
                self.holder_last_ticket_number.wf(),
                i <= holders.len(),
                forall|k: int|
                    0 <= k < i ==> {
                        let last = self.spec_last_ticket_number(#[trigger] holders[k]);
                        k <= last < holders.len() && holders[last as int] == holders[k]
                    },
            decreases holders.len() - i,
        {
            let holder = self.ticket_holder[i];
            let last: u32 = self.holder_last_ticket_number.get_or(holder, 0);
            if (last as usize) < i || last as usize >= self.ticket_holder.len() {
                return false;
            }
            if self.ticket_holder[last as usize] != holder {
                return false;
            }
            i += 1;
        }
        true
    }

    /// Whether what is recorded of the holders fits the tickets.
    pub fn is_consistent(&self) -> (valid: bool)
        ensures
            valid == self.spec_consistent(),
    {
        self.holder_number_of_tickets.is_valid() && self.holder_last_ticket_number.is_valid() && (
        match self.loto_info {
            Some(info) => info.fee_percent <= 100 && self.ticket_holder.len()
                == info.current_ticket_number as usize,
            None => self.ticket_holder.len() == 0,
        }) && self.counts_valid() && self.strangers_valid() && self.last_tickets_valid()
    }

    /// Whether the stored state satisfies the contract's invariant.
    pub fn is_valid(&self) -> (valid: bool)
        ensures
            valid == self.wf(),
    {
        self.is_consistent() && (match self.loto_info {
            Some(info) => info.is_valid(),
            None => true,
        })
    }

    /// The pool as it is before its first call: nothing stored.
    pub fn new() -> (contract: LotoContract)
        ensures
            contract.wf(),
            contract.spec_blank(),
            contract.journal@.len() == 0,
    {
        LotoContract {
            loto_info: None,
            ticket_holder: Vec::new(),
            holder_number_of_tickets: AddressMap::new(),
            holder_last_ticket_number: AddressMap::new(),
            journal: Vec::new(),
        }
    }

    /// Hands the journal to the host and starts an empty one.
    pub fn take_journal(&mut self) -> (actions: Vec<Action>)
        ensures
            *final(self) == (LotoContract { journal: final(self).journal, ..*old(self) }),
            final(self).journal@.len() == 0,
            actions@ == old(self).journal@,
    {
        let mut actions: Vec<Action> = Vec::new();
        std::mem::swap(&mut self.journal, &mut actions);
        actions
    }
}

impl View for LotoContract {
    type V = LotoContract;

    /// What is stored is plain data: the pool is its own model.
    open spec fn view(&self) -> LotoContract {
        *self
    }
}

impl ContractBase for LotoContract {
    open spec fn wf(&self) -> bool {
        &&& self.spec_consistent()
        &&& self.loto_info matches Some(info) ==> info.wf()
    }
}

/// The endpoints of the ticket pool, and the steps they are made of.
pub trait Loto: View<V = LotoContract> {
    /// Prepares the storage; there is nothing to prepare.
    fn init(&mut self)
        ensures
            old(self)@.wf() ==> final(self)@.wf(),
            final(self)@ == old(self)@,
    ;

    /// Starts a pool that sells tickets at `ticket_price` for `delay_in_s`
    /// seconds and keeps `fee_percent` hundredths of each price as fee.
    /// Reserved to the owner.
    fn start(&mut self, ctx: &CallContext, ticket_price: u128, delay_in_s: u64, fee_percent: u128) -> (res:
        Result<(), Error>)
        requires
            old(self)@.wf(),
        ensures
            final(self)@.wf(),
            res == old(self)@.spec_start(*ctx, ticket_price, delay_in_s, fee_percent),
            res is Err ==> final(self)@ == old(self)@,
            res is Ok ==> final(self)@ == (LotoContract {
                loto_info: Some(
                    LotoInfo {
                        ticket_price,
                        deadline: (ctx.block_timestamp + delay_in_s) as u64,
                        current_ticket_number: 0,
                        prize_pool: 0,
                        fee_pool: 0,
                        fee_percent,
                    },
                ),
                ..old(self)@
            }),
            res is Ok ==> final(self)@.spec_status(ctx.block_timestamp) == Status::Running,
    ;

    /// Sells the caller a ticket for the `payment` that comes with the call.
    fn buy_ticket(&mut self, ctx: &CallContext, payment: u128) -> (res: Result<(), Error>)
        requires
            old(self)@.wf(),
        ensures
            final(self)@.wf(),
            res == old(self)@.spec_buy_ticket(*ctx, payment),
            res is Err ==> final(self)@ == old(self)@,
            res is Ok ==> final(self)@.spec_sold(old(self)@, ctx.caller),
    ;

    /// Pays the fees collected so far to the owner. Reserved to the owner.
    fn get_fee(&mut self, ctx: &CallContext) -> (res: Result<(), Error>)
        requires
            old(self)@.wf(),
        ensures
            final(self)@.wf(),
            res == if !ctx.by_owner() {
                Err::<(), Error>(Error::CallerNotAllowed)
            } else if old(self)@.loto_info is None {
                Err(Error::Inactive)
            } else {
                Ok(())
            },
            res is Err ==> final(self)@ == old(self)@,
            res is Ok ==> final(self)@ == (LotoContract {
                loto_info: Some(LotoInfo { fee_pool: 0, ..old(self)@.loto_info->0 }),
                journal: final(self)@.journal,
                ..old(self)@
            }) && final(self)@.journal@ == old(self)@.journal@ + old(self)@.spec_fee_payment(ctx.owner),
    ;

    /// Calls the pool off: every holder gets the value of its tickets back,
    /// the owner gets the fees, and nothing is left. Reserved to the owner.
    fn cancel(&mut self, ctx: &CallContext) -> (res: Result<(), Error>)
        requires
            old(self)@.wf(),
        ensures
            final(self)@.wf(),
            res == if !ctx.by_owner() {
                Err::<(), Error>(Error::CallerNotAllowed)
            } else if old(self)@.loto_info is None {
                Err(Error::Inactive)
            } else {
                Ok(())
            },
            res is Err ==> final(self)@ == old(self)@,
            res is Ok ==> final(self)@.spec_blank() && final(self)@.journal@ == old(self)@.journal@
                + old(self)@.spec_refunds(old(self)@.ticket_holder@.len() as int)
                + old(self)@.spec_fee_payment(ctx.owner),
    ;

    /// The status of the pool at time `now`.
    fn status(&self, now: u64) -> (status: Status)
        ensures
            status == self@.spec_status(now),
    ;

    /// Draws the winning ticket with the random number `random` of the
    /// block, pays the prize pool to its holder and the fees to the owner,
    /// and leaves nothing. The pool must be past its deadline. Reserved to
    /// the owner.
    fn trigger(&mut self, ctx: &CallContext, random: u32) -> (res: Result<(), Error>)
        requires
            old(self)@.wf(),
        ensures
            final(self)@.wf(),
            res == if !ctx.by_owner() {
                Err::<(), Error>(Error::CallerNotAllowed)
            } else {
                match old(self)@.spec_status(ctx.block_timestamp) {
                    Status::Inactive => Err(Error::Inactive),
                    Status::Running => Err(Error::StillRunning),
                    Status::Ended => Ok(()),
                }
            },
            res is Err ==> final(self)@ == old(self)@,
            res is Ok ==> final(self)@.spec_blank() && final(self)@.journal@ == old(self)@.journal@
                + old(self)@.spec_prize_payment(random) + old(self)@.spec_fee_payment(ctx.owner),
    ;

    /// Records the sale of a ticket to the caller, who paid `payment`.
    fn update_after_buy_ticket(&mut self, ctx: &CallContext, payment: u128) -> (res: Result<
        (),
        Error,
    >)
        requires
            old(self)@.wf(),
        ensures
            final(self)@.wf(),
            res == if old(self)@.loto_info is None {
                Err::<(), Error>(Error::SalesNotOpen)
            } else {
                old(self)@.spec_sale(payment)
            },
            res is Err ==> final(self)@ == old(self)@,
            res is Ok ==> final(self)@.spec_sold(old(self)@, ctx.caller),
    ;

    /// Pays the prize pool to the holder of the winning ticket.
    fn distribute_prizes(&mut self, random: u32)
        requires
            old(self)@.spec_consistent(),
        ensures
            final(self)@.spec_consistent(),
            final(self)@ == (LotoContract {
                loto_info: match old(self)@.loto_info {
                    Some(info) => Some(
                        if info.current_ticket_number > 0 {
                            LotoInfo { prize_pool: 0, ..info }
                        } else {
                            info
                        },
                    ),
                    None => None,
                },
                journal: final(self)@.journal,
                ..old(self)@
            }),
            final(self)@.journal@ == old(self)@.journal@ + old(self)@.spec_prize_payment(random),
    ;

    /// Pays the fee pool to the owner.
    fn pay_current_fee(&mut self, ctx: &CallContext)
        requires
            old(self)@.spec_consistent(),
        ensures
            final(self)@.spec_consistent(),
            old(self)@.wf() ==> final(self)@.wf(),
            final(self)@ == (LotoContract {
                loto_info: match old(self)@.loto_info {
                    Some(info) => Some(LotoInfo { fee_pool: 0, ..info }),
                    None => None,
                },
                journal: final(self)@.journal,
                ..old(self)@
            }),
            final(self)@.journal@ == old(self)@.journal@ + old(self)@.spec_fee_payment(ctx.owner),
    ;

    /// Pays every holder the value of its tickets.
    fn refund_buyers(&mut self)
        requires
            old(self)@.wf(),
        ensures
            final(self)@.wf(),
            final(self)@ == (LotoContract { journal: final(self)@.journal, ..old(self)@ }),
            final(self)@.journal@ == old(self)@.journal@ + old(self)@.spec_refunds(
                old(self)@.ticket_holder@.len() as int,
            ),
    ;

    /// Forgets the pool and its tickets.
    fn clear_storage(&mut self)
        requires
            old(self)@.spec_consistent(),
        ensures
            final(self)@.wf(),
            final(self)@.spec_blank(),
            final(self)@.journal == old(self)@.journal,
            final(self)@.spec_consistent(),
    ;
}

impl Loto for LotoContract {
    fn init(&mut self) {
    }

    fn start(&mut self, ctx: &CallContext, ticket_price: u128, delay_in_s: u64, fee_percent: u128) -> (res:
        Result<(), Error>) {
        if !ctx.by_owner() {
            return Err(Error::CallerNotAllowed);
        }
        if self.status(ctx.block_timestamp) != Status::Inactive {
            return Err(Error::AlreadyStarted);
        }
        if ticket_price == 0 {
            return Err(Error::NullTicketPrice);
        }
        if fee_percent > 100 {
            return Err(Error::FeePercentTooHigh);
        }
        if delay_in_s == 0 {
            return Err(Error::NullDelay);
        }
        if delay_in_s > u64::MAX - ctx.block_timestamp {
            return Err(Error::Overflow);
        }
        let deadline: u64 = ctx.block_timestamp + delay_in_s;
        let info = LotoInfo {
            ticket_price,
            deadline,
            current_ticket_number: 0,
            prize_pool: 0,
            fee_pool: 0,
            fee_percent,
        };
        assert(0 * info.spec_ticket_value() == 0) by (nonlinear_arith);
        self.loto_info = Some(info);
        Ok(())
    }

    fn buy_ticket(&mut self, ctx: &CallContext, payment: u128) -> (res: Result<(), Error>) {
        match self.status(ctx.block_timestamp) {
            Status::Inactive => Err(Error::SalesNotOpen),
            Status::Running => self.update_after_buy_ticket(ctx, payment),
            Status::Ended => Err(Error::SalesClosed),
        }
    }

    fn get_fee(&mut self, ctx: &CallContext) -> (res: Result<(), Error>) {
        if !ctx.by_owner() {
            return Err(Error::CallerNotAllowed);
        }
        match self.status(ctx.block_timestamp) {
            Status::Inactive => Err(Error::Inactive),
            _ => {
                self.pay_current_fee(ctx);
                Ok(())
            },
        }
    }

    fn cancel(&mut self, ctx: &CallContext) -> (res: Result<(), Error>) {
        if !ctx.by_owner() {
            return Err(Error::CallerNotAllowed);
        }
        match self.status(ctx.block_timestamp) {
            Status::Inactive => Err(Error::Inactive),
            _ => {
                self.refund_buyers();
                self.pay_current_fee(ctx);
                self.clear_storage();
                Ok(())
            },
        }
    }

    fn status(&self, now: u64) -> (status: Status) {
        match self.loto_info {
            None => Status::Inactive,
            Some(info) => {
                if now > info.deadline {
                    Status::Ended
                } else {
                    Status::Running
                }
            },
        }
    }

    fn trigger(&mut self, ctx: &CallContext, random: u32) -> (res: Result<(), Error>) {
        if !ctx.by_owner() {
            return Err(Error::CallerNotAllowed);
        }
        match self.status(ctx.block_timestamp) {
            Status::Inactive => Err(Error::Inactive),
            Status::Running => Err(Error::StillRunning),
            Status::Ended => {
                self.distribute_prizes(random);
                self.pay_current_fee(ctx);
                self.clear_storage();
                Ok(())
            },
        }
    }

    fn update_after_buy_ticket(&mut self, ctx: &CallContext, payment: u128) -> (res: Result<
        (),
        Error,
    >) {
        let mut info = match self.loto_info {
            None => {
                return Err(Error::SalesNotOpen);
            },
            Some(info) => info,
        };
        let caller = ctx.caller;
        if payment != info.ticket_price {
            return Err(Error::WrongTicketPrice);
        }
        if info.current_ticket_number == u32::MAX {
            return Err(Error::Overflow);
        }
        let fee: u128 = info.ticket_fee();
        let value: u128 = info.ticket_value();
        let prize_pool = match checked_credit(info.prize_pool, value) {
            None => {
                return Err(Error::Overflow);
            },
            Some(sum) => sum,
        };
        let fee_pool = match checked_credit(info.fee_pool, fee) {
            None => {
                return Err(Error::Overflow);
            },
            Some(sum) => sum,
        };
        let ghost holders = self.ticket_holder@;
        let held: u32 = self.holder_number_of_tickets.get_or(caller, 0);
        proof {
            lemma_occurrences_bounds(holders, caller);
        }
        self.ticket_holder.push(caller);
        self.holder_number_of_tickets.set(caller, held + 1);
        self.holder_last_ticket_number.set(caller, info.current_ticket_number);
        let ghost sold = info.current_ticket_number;
        info.current_ticket_number += 1;
        info.prize_pool = prize_pool;
        info.fee_pool = fee_pool;
        self.loto_info = Some(info);
        proof {
            let after = self.ticket_holder@;
            assert(after == holders.push(caller));
            assert(after.drop_last() == holders);
            assert forall|holder: Address|
                self.spec_number_of_tickets(holder) == #[trigger] occurrences(after, holder) by {
                assert(old(self).spec_number_of_tickets(holder) == occurrences(holders, holder));
            }
            assert forall|holder: Address| #[trigger] occurrences(after, holder) == 0 implies
                self.spec_last_ticket_number(holder) == 0 by {
                assert(occurrences(holders, holder) == 0);
            }
            assert forall|i: int| 0 <= i < after.len() implies ({
                let last = self.spec_last_ticket_number(#[trigger] after[i]);
                i <= last < after.len() && after[last as int] == after[i]
            }) by {
                if i < holders.len() && after[i] != caller {
                    assert(after[i] == holders[i]);
                    let last = old(self).spec_last_ticket_number(holders[i]);
                    assert(i <= last < holders.len() && holders[last as int] == holders[i]);
                }
            }
            assert((sold + 1) * info.spec_ticket_value() == sold * info.spec_ticket_value()
                + info.spec_ticket_value()) by (nonlinear_arith);
        }
        Ok(())
    }

    fn distribute_prizes(&mut self, random: u32) {
        match self.loto_info {
            None => {
                assert(self.journal@ == old(self).journal@ + Seq::<Action>::empty());
            },
            Some(info) => {
                let total_tickets: u32 = info.current_ticket_number;
                if total_tickets > 0 {
                    let winning_ticket_id: u32 = random % total_tickets;
                    let winner_address = self.ticket_holder[winning_ticket_id as usize];
                    self.journal.push(
                        Action::DirectEgld {
                            to: winner_address,
                            amount: info.prize_pool,
                            memo: Memo::WinningTicket,
                        },
                    );
                    self.loto_info = Some(
                        LotoInfo {
                            prize_pool: 0,
                            ..info
                        },
                    );
                    assert(self.journal@ == old(self).journal@ + old(self).spec_prize_payment(
                        random,
                    ));
                } else {
                    assert(self.journal@ == old(self).journal@ + Seq::<Action>::empty());
                }
            },
        }
    }

    fn pay_current_fee(&mut self, ctx: &CallContext) {
        match self.loto_info {
            None => {
                assert(self.journal@ == old(self).journal@ + Seq::<Action>::empty());
            },
            Some(info) => {
                if info.fee_pool > 0 {
                    self.journal.push(
                        Action::DirectEgld {
                            to: ctx.owner,
                            amount: info.fee_pool,
                            memo: Memo::LotoFee,
                        },
                    );
                    self.loto_info = Some(LotoInfo { fee_pool: 0, ..info });
                    assert(self.journal@ == old(self).journal@ + old(self).spec_fee_payment(
                        ctx.owner,
                    ));
                } else {
                    assert(self.journal@ == old(self).journal@ + Seq::<Action>::empty());
                }
            },
        }
    }

    fn refund_buyers(&mut self) {
        let info = match self.loto_info {
            None => {
                assert(self.journal@ == old(self).journal@ + Seq::<Action>::empty());
                return ;
            },
            Some(info) => info,
        };
        let ticket_value: u128 = info.ticket_value();
        let ghost holders = self.ticket_holder@;
        let mut i: u32 = 0;
        assert(self.journal@ == old(self).journal@ + Seq::<Action>::empty());
        while i < info.current_ticket_number
            invariant
                old(self).wf(),
                old(self).loto_info == Some(info),
                ticket_value == info.spec_ticket_value(),
                holders == old(self).ticket_holder@,
                i <= info.current_ticket_number,
                *self == (LotoContract { journal: self.journal, ..*old(self) }),
                self.journal@ == old(self).journal@ + old(self).spec_refunds(i as int),
            decreases info.current_ticket_number - i,
        {
            let refund_address = self.ticket_holder[i as usize];
            let holder_last_ticket_number = self.holder_last_ticket_number.get_or(refund_address, 0);
            let holder_number_of_tickets = self.holder_number_of_tickets.get_or(refund_address, 0);
            proof {
                lemma_occurrences_bounds(holders, refund_address);
                assert(holder_number_of_tickets == occurrences(holders, refund_address));
                assert(ticket_value * holder_number_of_tickets <= info.prize_pool) by (nonlinear_arith)
                    requires
                        holder_number_of_tickets <= info.current_ticket_number,
                        info.prize_pool == info.current_ticket_number * ticket_value,
                ;
            }
            let refund: u128 = ticket_value * (holder_number_of_tickets as u128);
            let ghost before = self.journal@;
            if i == holder_last_ticket_number {
                self.journal.push(
                    Action::DirectEgld {
                        to: refund_address,
                        amount: refund,
                        memo: Memo::TicketRefund,
                    },
                );
            }
            proof {
                let step = old(self).spec_refunds(i as int + 1);
                let prior = old(self).spec_refunds(i as int);
                if i == holder_last_ticket_number {
                    assert(self.journal@ == old(self).journal@ + step);
                } else {
                    assert(step == prior + Seq::<Action>::empty());
                    assert(step == prior);
                }
            }
            i += 1;
        }
    }

    fn clear_storage(&mut self) {
        let ghost holders = self.ticket_holder@;
        let mut i: usize = 0;
        while i < self.ticket_holder.len()
            invariant
                holders == old(self).ticket_holder@,
                holders == self.ticket_holder@,
                i <= holders.len(),
                self.journal == old(self).journal,
                self.holder_number_of_tickets.wf(),
                self.holder_last_ticket_number.wf(),
                forall|holder: Address| #[trigger]
                    self.spec_number_of_tickets(holder) == if holders.take(i as int).contains(
                        holder,
                    ) {
                        0
                    } else {
                        old(self).spec_number_of_tickets(holder)
                    },
                forall|holder: Address| #[trigger]
                    self.spec_last_ticket_number(holder) == if holders.take(i as int).contains(
                        holder,
                    ) {
                        0
                    } else {
                        old(self).spec_last_ticket_number(holder)
                    },
            decreases holders.len() - i,
        {
            let holder = self.ticket_holder[i];
            let ghost earlier = *self;
            self.holder_last_ticket_number.set(holder, 0);
            self.holder_number_of_tickets.set(holder, 0);
            proof {
                let fewer = holders.take(i as int);
                let more = holders.take(i as int + 1);
                assert(more == fewer.push(holder));
                assert forall|other: Address| more.contains(other) == (fewer.contains(other)
                    || other == holder) by {
                    if fewer.contains(other) {
                        let k = choose|k: int| 0 <= k < fewer.len() && fewer[k] == other;
                        assert(more[k] == other);
                    }
                    if more.contains(other) {
                        let k = choose|k: int| 0 <= k < more.len() && more[k] == other;
                        if k < fewer.len() {
                            assert(fewer[k] == other);
                        }
                    }
                    assert(more[i as int] == holder);
                }
                assert forall|other: Address| #[trigger]
                    self.spec_number_of_tickets(other) == if more.contains(other) {
                        0
                    } else {
                        old(self).spec_number_of_tickets(other)
                    } by {
                    assert(earlier.spec_number_of_tickets(other) == if fewer.contains(other) {
                        0
                    } else {
                        old(self).spec_number_of_tickets(other)
                    });
                    assert(more.contains(other) == (fewer.contains(other) || other == holder));
                }
                assert forall|other: Address| #[trigger]
                    self.spec_last_ticket_number(other) == if more.contains(other) {
                        0
                    } else {
                        old(self).spec_last_ticket_number(other)
                    } by {
                    assert(earlier.spec_last_ticket_number(other) == if fewer.contains(other) {
                        0
                    } else {
                        old(self).spec_last_ticket_number(other)
                    });
                    assert(more.contains(other) == (fewer.contains(other) || other == holder));
                }
            }
            i += 1;
        }
        let ghost cleared = *self;
        proof {
            assert(holders.take(holders.len() as int) == holders);
            assert forall|holder: Address| #[trigger] cleared.spec_number_of_tickets(holder)
                == 0 by {
                lemma_occurrences_bounds(holders, holder);
                assert(old(self).spec_number_of_tickets(holder) == occurrences(holders, holder));
            }
            assert forall|holder: Address| #[trigger] cleared.spec_last_ticket_number(holder)
                == 0 by {
                lemma_occurrences_bounds(holders, holder);
                if !holders.contains(holder) {
                    assert(occurrences(holders, holder) == 0);
                }
            }
        }
        self.ticket_holder.clear();
        self.loto_info = None;
        proof {
            assert forall|holder: Address| #[trigger]
                self.spec_number_of_tickets(holder) == 0 by {
                assert(cleared.spec_number_of_tickets(holder) == 0);
            }
            assert forall|holder: Address| #[trigger]
                self.spec_last_ticket_number(holder) == 0 by {
                assert(cleared.spec_last_ticket_number(holder) == 0);
            }
            assert forall|holder: Address|
                self.spec_number_of_tickets(holder) == #[trigger] occurrences(
                    self.ticket_holder@,
                    holder,
                ) by {
                assert(self.spec_number_of_tickets(holder) == 0);
            }
        }
    }
}

impl LotoContract {
    /// Whether this is `before` with one more ticket, sold to `buyer`: the
    /// ticket and its holder are recorded, the prize pool has grown by the
    /// value of the ticket and the fee pool by the fee, and they add up to
    /// the price.
    pub open spec fn spec_sold(&self, before: LotoContract, buyer: Address) -> bool {
        let terms = before.loto_info->0;
        &&& before.loto_info is Some
        &&& *self == (LotoContract {
            loto_info: Some(
                LotoInfo {
                    current_ticket_number: (terms.current_ticket_number + 1) as u32,
                    prize_pool: (terms.prize_pool + terms.spec_ticket_value()) as u128,
                    fee_pool: (terms.fee_pool + terms.spec_ticket_fee()) as u128,
                    ..terms
                },
            ),
            ticket_holder: self.ticket_holder,
            holder_number_of_tickets: self.holder_number_of_tickets,
            holder_last_ticket_number: self.holder_last_ticket_number,
            ..before
        })
        &&& terms.spec_ticket_value() + terms.spec_ticket_fee() == terms.ticket_price
        &&& self.ticket_holder@ == before.ticket_holder@.push(buyer)
        &&& self.holder_number_of_tickets@ == before.holder_number_of_tickets@.insert(
            buyer,
            (before.spec_number_of_tickets(buyer) + 1) as u32,
        )
        &&& self.holder_last_ticket_number@ == before.holder_last_ticket_number@.insert(
            buyer,
            terms.current_ticket_number,
        )
    }
}

/// How many of the first `upto` tickets belong to a holder whose last ticket
/// is numbered below `bound`.
pub open spec fn spec_settled(contract: LotoContract, upto: int, bound: int) -> nat
    decreases upto,
{
    if upto <= 0 {
        0
    } else {
        spec_settled(contract, upto - 1, bound) + if contract.spec_last_ticket_number(
            contract.ticket_holder@[upto - 1],
        ) < bound {
            1nat
        } else {
            0nat
        }
    }
}

/// Raising the bound by one settles the tickets of the holder whose last
/// ticket is numbered `bound`, if there is such a holder, and no others.
proof fn lemma_settled_step(contract: LotoContract, upto: int, bound: int)
    requires
        contract.spec_consistent(),
        0 <= upto <= contract.ticket_holder@.len(),
        0 <= bound < contract.ticket_holder@.len(),
    ensures
        spec_settled(contract, upto, bound + 1) == spec_settled(contract, upto, bound) + if bound
            == contract.spec_last_ticket_number(contract.ticket_holder@[bound]) {
            occurrences(contract.ticket_holder@.take(upto), contract.ticket_holder@[bound])
        } else {
            0
        },
    decreases upto,
{
    let holders = contract.ticket_holder@;
    if upto > 0 {
        lemma_settled_step(contract, upto - 1, bound);
        let j = upto - 1;
        let last = contract.spec_last_ticket_number(holders[j]);
        assert(j <= last < holders.len() && holders[last as int] == holders[j]);
        let at_bound = contract.spec_last_ticket_number(holders[bound]);
        assert(bound <= at_bound < holders.len() && holders[at_bound as int] == holders[bound]);
        lemma_occurrences_step(holders, j, holders[bound]);
        if last == bound {
            assert(holders[bound] == holders[j]);
        } else if holders[j] == holders[bound] {
            assert(at_bound == last);
        }
    } else {
        assert(holders.take(0).len() == 0);
    }
}

/// The bound that no ticket number reaches settles every ticket, and the
/// bound zero settles none.
proof fn lemma_settled_ends(contract: LotoContract, upto: int)
    requires
        contract.spec_consistent(),
        0 <= upto <= contract.ticket_holder@.len(),
    ensures
        spec_settled(contract, upto, 0) == 0,
        spec_settled(contract, upto, contract.ticket_holder@.len() as int) == upto,
    decreases upto,
{
    if upto > 0 {
        lemma_settled_ends(contract, upto - 1);
        let holders = contract.ticket_holder@;
        let last = contract.spec_last_ticket_number(holders[upto - 1]);
        assert(upto - 1 <= last < holders.len() && holders[last as int] == holders[upto - 1]);
    }
}

/// What the refunds for the first `upto` tickets pay: the value of every
/// ticket whose holder bought its last ticket among them.
proof fn lemma_refunds_so_far(contract: LotoContract, upto: int)
    requires
        contract.wf(),
        contract.loto_info is Some,
        0 <= upto <= contract.ticket_holder@.len(),
    ensures
        spec_total_paid(contract.spec_refunds(upto)) == contract.loto_info->0.spec_ticket_value()
            * spec_settled(contract, contract.ticket_holder@.len() as int, upto),
    decreases upto,
{
    let holders = contract.ticket_holder@;
    let info = contract.loto_info->0;
    let value = info.spec_ticket_value();
    let all = holders.len() as int;
    if upto <= 0 {
        lemma_settled_ends(contract, all);
        assert(value * 0 == 0) by (nonlinear_arith);
    } else {
        let k = upto - 1;
        let holder = holders[k];
        let before = contract.spec_refunds(k);
        lemma_refunds_so_far(contract, k);
        lemma_settled_step(contract, all, k);
        assert(holders.take(all) == holders);
        let settled = spec_settled(contract, all, k);
        if k == contract.spec_last_ticket_number(holder) {
            let held = contract.spec_number_of_tickets(holder);
            assert(held == occurrences(holders, holder));
            lemma_occurrences_bounds(holders, holder);
            assert(value * held <= info.prize_pool) by (nonlinear_arith)
                requires
                    held <= info.current_ticket_number,
                    info.prize_pool == info.current_ticket_number * value,
            ;
            let refund = Action::DirectEgld {
                to: holder,
                amount: (value * held) as u128,
                memo: Memo::TicketRefund,
            };
            lemma_total_paid_adds(before, seq![refund]);
            assert(seq![refund].drop_last() == Seq::<Action>::empty());
            assert(seq![refund].last() == refund);
            assert(spec_total_paid(Seq::<Action>::empty()) == 0);
            assert(spec_total_paid(seq![refund]) == value * held);
            assert(value * (settled + held) == value * settled + value * held)
                by (nonlinear_arith);
        } else {
            assert(before + Seq::<Action>::empty() == before);
        }
    }
}

/// When a pool is called off, the refunds add up to the prize pool: every
/// ticket's value goes back to the holder of the ticket, and nothing else
/// leaves the prize pool.
pub proof fn lemma_refunds_return_the_prize_pool(contract: LotoContract)
    requires
        contract.wf(),
        contract.loto_info is Some,
    ensures
        spec_total_paid(contract.spec_refunds(contract.ticket_holder@.len() as int))
            == contract.loto_info->0.prize_pool,
{
    let all = contract.ticket_holder@.len() as int;
    let value = contract.loto_info->0.spec_ticket_value();
    lemma_refunds_so_far(contract, all);
    lemma_settled_ends(contract, all);
    assert(value * (all as nat) == all * value) by (nonlinear_arith)
        requires
            all >= 0,
    ;
}

/// Each sale splits the price between the two pools, so whatever was paid
/// out in fees, the pools never hold more than the tickets brought in.
pub proof fn lemma_pools_within_sales(contract: LotoContract)
    requires
        contract.wf(),
        contract.loto_info is Some,
    ensures
        contract.loto_info->0.prize_pool <= contract.loto_info->0.current_ticket_number
            * contract.loto_info->0.ticket_price,
{
    let info = contract.loto_info->0;
    lemma_ticket_price_split(info);
    assert(info.current_ticket_number * info.spec_ticket_value() <= info.current_ticket_number
        * info.ticket_price) by (nonlinear_arith)
        requires
            info.spec_ticket_value() <= info.ticket_price,
    ;
}

} // verus!
