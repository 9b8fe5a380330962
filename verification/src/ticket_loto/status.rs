//! Where the ticket pool stands.

use vstd::prelude::*;

verus! {

/// The status of the pool: not started, selling tickets, or past its
/// deadline and waiting for the draw.
#[derive(Clone, Copy, Debug, PartialEq, Eq, Structural)]
pub enum Status {
    Inactive,
    Running,
    Ended,
}

} // verus!
