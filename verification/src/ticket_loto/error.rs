//! Why the ticket pool refuses a call.

use vstd::prelude::*;

verus! {

/// The reasons for which an endpoint of the ticket pool fails. A call that
/// fails leaves the stored state and the journal as they were.
#[derive(Clone, Copy, Debug, PartialEq, Eq, Structural)]
pub enum Error {
    /// An endpoint reserved to the owner was called by somebody else.
    CallerNotAllowed,
    AlreadyStarted,
    NullTicketPrice,
    FeePercentTooHigh,
    NullDelay,
    SalesNotOpen,
    SalesClosed,
    Inactive,
    StillRunning,
    WrongTicketPrice,
    /// An amount, a deadline or a ticket number would leave the range of its
    /// type.
    Overflow,
}

impl Error {
    /// The message that the host reports for this error.
    pub open spec fn spec_message(&self) -> Seq<char> {
        match *self {
            Error::CallerNotAllowed => "Caller address not allowed"@,
            Error::AlreadyStarted => "Loto is already started!"@,
            Error::NullTicketPrice => "Ticket price must be higher than 0!"@,
            Error::FeePercentTooHigh => "fee_percent can't be higher than 100!"@,
            Error::NullDelay => "delay must be higher than 0!"@,
            Error::SalesNotOpen => "Ticket sales are not open."@,
            Error::SalesClosed => "Ticket sales are closed. Awaiting winner announcement."@,
            Error::Inactive => "Loto is inactive!"@,
            Error::StillRunning => "Loto is still running!"@,
            Error::WrongTicketPrice => "Wrong ticket price!"@,
            Error::Overflow => "Value out of range"@,
        }
    }

    /// The message that the host reports for this error.
    pub fn message(&self) -> (text: &'static str)
        ensures
            text@ == self.spec_message(),
    {
        match *self {
            Error::CallerNotAllowed => "Caller address not allowed",
            Error::AlreadyStarted => "Loto is already started!",
            Error::NullTicketPrice => "Ticket price must be higher than 0!",
            Error::FeePercentTooHigh => "fee_percent can't be higher than 100!",
            Error::NullDelay => "delay must be higher than 0!",
            Error::SalesNotOpen => "Ticket sales are not open.",
            Error::SalesClosed => "Ticket sales are closed. Awaiting winner announcement.",
            Error::Inactive => "Loto is inactive!",
            Error::StillRunning => "Loto is still running!",
            Error::WrongTicketPrice => "Wrong ticket price!",
            Error::Overflow => "Value out of range",
        }
    }
}

} // verus!
