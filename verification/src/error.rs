//! Why the prize contract refuses a call.

use vstd::prelude::*;

verus! {

/// The reasons for which an endpoint of the prize contract fails. A call
/// that fails leaves the stored state and the journal as they were.
#[derive(Clone, Copy, Debug, PartialEq, Eq, Structural)]
pub enum Error {
    /// An endpoint reserved to the owner was called by somebody else.
    OnlyOwner,
    CallerBlacklisted,
    MaxInstancesReached,
    DurationOutOfRange,
    NullPrize,
    PremiumNotAllowed,
    SponsorInfoTooLong,
    /// The instance cannot be drawn now.
    UnexpectedState,
    /// Only the sponsor of an instance or the owner may draw it.
    BadCaller,
    NotActive,
    AlreadyPlayed,
    WrongFees,
    /// The instance has no prize waiting to be claimed.
    WrongState,
    NotWinner,
    NoSuchInstance,
    WrongRewards,
    NoFees,
    NoRewards,
    NoDonation,
    DurationOrder,
    AlreadyInDisableState,
    /// The instance has had its draw: nothing of it changes any more but
    /// the flag that tells whether its prize was claimed.
    AlreadyDrawn,
    AlreadyBlacklisted,
    NotBlacklisted,
    /// A ticket number that no player of the instance holds.
    IndexOutOfRange,
    /// A stored value was read before the contract was initialised.
    StorageDecode,
    /// An amount, a deadline or an instance number would leave the range of
    /// its type.
    Overflow,
}

impl Error {
    /// The message that the host reports for this error.
    pub open spec fn spec_message(&self) -> Seq<char> {
        match *self {
            Error::OnlyOwner => "Endpoint can only be called by owner"@,
            Error::CallerBlacklisted => "Caller blacklisted"@,
            Error::MaxInstancesReached => "Max instances reached for this sponsor"@,
            Error::DurationOutOfRange => "Duration out of allowed range"@,
            Error::NullPrize => "Prize cannot be null"@,
            Error::PremiumNotAllowed => "Premium is not allowed"@,
            Error::SponsorInfoTooLong => "Sponsor info length out of range"@,
            Error::UnexpectedState => "Instance is not in the expected state"@,
            Error::BadCaller => "Bad caller"@,
            Error::NotActive => "Instance is not active"@,
            Error::AlreadyPlayed => "Player has already played"@,
            Error::WrongFees => "Wrong fees amount"@,
            Error::WrongState => "Instance is not in the good state"@,
            Error::NotWinner => "Prize can only be claimed by the winner"@,
            Error::NoSuchInstance => "Instance does not exist"@,
            Error::WrongRewards => "Wrong value for rewards"@,
            Error::NoFees => "No fees to claim"@,
            Error::NoRewards => "No rewards to claim"@,
            Error::NoDonation => "No donation to claim"@,
            Error::DurationOrder => "Min duration must be lower or equal to Max duration"@,
            Error::AlreadyInDisableState => "Instance is already in the expected disable state"@,
            Error::AlreadyDrawn => "Instance cannot change once its winner is drawn"@,
            Error::AlreadyBlacklisted => "Address already blacklisted"@,
            Error::NotBlacklisted => "Address not blacklisted"@,
            Error::IndexOutOfRange => "index out of range"@,
            Error::StorageDecode => "storage decode error: input too short"@,
            Error::Overflow => "Value out of range"@,
        }
    }

    /// The message that the host reports for this error.
    pub fn message(&self) -> (text: &'static str)
        ensures
            text@ == self.spec_message(),
    {
        match *self {
            Error::OnlyOwner => "Endpoint can only be called by owner",
            Error::CallerBlacklisted => "Caller blacklisted",
            Error::MaxInstancesReached => "Max instances reached for this sponsor",
            Error::DurationOutOfRange => "Duration out of allowed range",
            Error::NullPrize => "Prize cannot be null",
            Error::PremiumNotAllowed => "Premium is not allowed",
            Error::SponsorInfoTooLong => "Sponsor info length out of range",
            Error::UnexpectedState => "Instance is not in the expected state",
            Error::BadCaller => "Bad caller",
            Error::NotActive => "Instance is not active",
            Error::AlreadyPlayed => "Player has already played",
            Error::WrongFees => "Wrong fees amount",
            Error::WrongState => "Instance is not in the good state",
            Error::NotWinner => "Prize can only be claimed by the winner",
            Error::NoSuchInstance => "Instance does not exist",
            Error::WrongRewards => "Wrong value for rewards",
            Error::NoFees => "No fees to claim",
            Error::NoRewards => "No rewards to claim",
            Error::NoDonation => "No donation to claim",
            Error::DurationOrder => "Min duration must be lower or equal to Max duration",
            Error::AlreadyInDisableState => "Instance is already in the expected disable state",
            Error::AlreadyDrawn => "Instance cannot change once its winner is drawn",
            Error::AlreadyBlacklisted => "Address already blacklisted",
            Error::NotBlacklisted => "Address not blacklisted",
            Error::IndexOutOfRange => "index out of range",
            Error::StorageDecode => "storage decode error: input too short",
            Error::Overflow => "Value out of range",
        }
    }
}

} // verus!
