//! Why the draw contract refuses a call.

use vstd::prelude::*;

verus! {

/// The reasons for which an endpoint of the draw contract fails. A call that fails
/// leaves the stored state and the journal as they were.
#[derive(Clone, Copy, Debug, PartialEq, Eq, Structural)]
pub enum Error {
    /// An endpoint reserved to the owner was called by somebody else.
    CallerNotAllowed,
    NullDuration,
    /// The instance is not in the status that the call needs.
    WrongState,
    /// Only the sponsor of an instance or the owner may draw it.
    BadCaller,
    NotActive,
    AlreadyPlayed,
    NotWinner,
    NoSuchInstance,
    /// A deadline or an instance number would leave the range of
    /// its type.
    Overflow,
}

impl Error {
    /// The message that the host reports for this error.
    pub open spec fn spec_message(&self) -> Seq<char> {
        match *self {
            Error::CallerNotAllowed => "Caller address not allowed"@,
            Error::NullDuration => "duration cannot be null"@,
            Error::WrongState => "Instance is not in the good state"@,
            Error::BadCaller => "Instance can only be triggered by its sponsor or by administrator"@,
            Error::NotActive => "Instance is not active"@,
            Error::AlreadyPlayed => "Player has already played"@,
            Error::NotWinner => "Prize can only be claimed by the winner"@,
            Error::NoSuchInstance => "Instance does not exists"@,
            Error::Overflow => "Value out of range"@,
        }
    }

    /// The message that the host reports for this error.
    pub fn message(&self) -> (text: &'static str)
        ensures
            text@ == self.spec_message(),
    {
        match *self {
            Error::CallerNotAllowed => "Caller address not allowed",
            Error::NullDuration => "duration cannot be null",
            Error::WrongState => "Instance is not in the good state",
            Error::BadCaller => "Instance can only be triggered by its sponsor or by administrator",
            Error::NotActive => "Instance is not active",
            Error::AlreadyPlayed => "Player has already played",
            Error::NotWinner => "Prize can only be claimed by the winner",
            Error::NoSuchInstance => "Instance does not exists",
            Error::Overflow => "Value out of range",
        }
    }
}

} // verus!
