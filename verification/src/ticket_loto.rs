//! The ticket pool: players buy as many tickets as they like at one price,
//! a share of each price is kept as fee, and one ticket wins the pool.

pub mod contract;
pub mod error;
pub mod loto_info;
pub mod owner_info;
pub mod status;
