//! Where an instance of the lottery stands in its life.

use vstd::prelude::*;

verus! {

/// The status of an instance. It is never stored: it follows from what is
/// recorded of the instance and from the current time.
#[derive(Clone, Copy, Debug, PartialEq, Eq, PartialOrd, Ord, Structural)]
pub enum InstanceStatus {
    NotExisting,
    Running,
    Ended,
    Triggered,
    Claimed,
}

impl InstanceStatus {
    /// How many statuses there are.
    pub const VARIANT_COUNT: usize = 5;
}

} // verus!
