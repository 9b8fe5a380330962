//! The terms and the pools of a running ticket pool.

use vstd::prelude::*;
use crate::amount::{lemma_percent_of_bounded, percent_of, spec_percent_of};

verus! {

/// What is stored of a pool from its start to its draw.
#[derive(Clone, Copy, Debug, PartialEq, Eq, Structural)]
pub struct LotoInfo {
    pub ticket_price: u128,
    pub deadline: u64,
    /// How many tickets were sold; also the number of the next ticket.
    pub current_ticket_number: u32,
    /// What the winner gets.
    pub prize_pool: u128,
    /// What the owner gets.
    pub fee_pool: u128,
    /// The hundredths of each ticket's price that are kept as fee.
    pub fee_percent: u128,
}

impl LotoInfo {
    /// The fee is a share of the price, and the prize pool holds the rest of
    /// the price of every ticket sold.
    pub open spec fn wf(&self) -> bool {
        &&& self.fee_percent <= 100
        &&& self.prize_pool == self.current_ticket_number * self.spec_ticket_value()
    }

    /// The fee kept of each ticket's price.
    pub open spec fn spec_ticket_fee(&self) -> nat {
        spec_percent_of(self.ticket_price, self.fee_percent as u8)
    }

    /// What each ticket adds to the prize pool: its price less the fee.
    pub open spec fn spec_ticket_value(&self) -> nat {
        (self.ticket_price - self.spec_ticket_fee()) as nat
    }

    /// Whether the invariant of the terms holds of these.
    pub fn is_valid(&self) -> (valid: bool)
        ensures
            valid == self.wf(),
    {
        if self.fee_percent > 100 {
            return false;
        }
        let value: u128 = self.ticket_value();
        let tickets: u128 = self.current_ticket_number as u128;
        if value == 0 {
            assert(tickets * 0 == 0) by (nonlinear_arith);
            return self.prize_pool == 0;
        }
        if tickets > u128::MAX / value {
            assert(tickets * value > u128::MAX) by (nonlinear_arith)
                requires
                    tickets > u128::MAX / value,
                    value > 0,
            ;
            return false;
        }
        assert(tickets * value <= u128::MAX) by (nonlinear_arith)
            requires
                tickets <= u128::MAX / value,
                value > 0,
        ;
        self.prize_pool == tickets * value
    }

    /// The fee kept of each ticket's price.
    pub fn ticket_fee(&self) -> (fee: u128)
        requires
            self.fee_percent <= 100,
        ensures
            fee == self.spec_ticket_fee(),
            fee <= self.ticket_price,
    {
        percent_of(self.ticket_price, self.fee_percent as u8)
    }

    /// What each ticket adds to the prize pool: its price less the fee.
    pub fn ticket_value(&self) -> (value: u128)
        requires
            self.fee_percent <= 100,
        ensures
            value == self.spec_ticket_value(),
            value + self.spec_ticket_fee() == self.ticket_price,
    {
        self.ticket_price - self.ticket_fee()
    }
}

/// The price of a ticket is split without loss between the prize pool and
/// the fee pool.
pub proof fn lemma_ticket_price_split(info: LotoInfo)
    requires
        info.fee_percent <= 100,
    ensures
        info.spec_ticket_value() + info.spec_ticket_fee() == info.ticket_price,
{
    lemma_percent_of_bounded(info.ticket_price, info.fee_percent as u8);
}

} // verus!
