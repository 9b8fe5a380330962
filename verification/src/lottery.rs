//! The token lottery: instances are created with a prize in any token,
//! players pay a flat fee for a ticket, and the fees go to the owner.

pub mod contract;
pub mod error;
pub mod fee_policy;
pub mod instance_info;
pub mod instance_status;
