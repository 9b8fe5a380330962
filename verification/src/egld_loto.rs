//! The first draw contract: instances are created with a prize in the
//! native currency, anybody plays for free, and the winner claims the prize.

pub mod contract;
pub mod error;
pub mod instance_info;
