//! Verified models of a family of prize-draw contracts.
//!
//! A contract is modelled as a plain value that holds everything the
//! contract keeps between calls. Each endpoint is a method that takes the
//! facts of the call (who calls, the block's time) as arguments, changes the
//! stored state, and appends what has to happen outside (payments, log
//! entries) to a journal that the host drains after the call.

pub mod action;
pub mod address;
pub mod address_map;
pub mod amount;
pub mod charity;
pub mod context;
pub mod egld_loto;
pub mod error;
pub mod event;
pub mod fee;
pub mod instance;
pub mod lottery;
pub mod parameter;
pub mod player;
pub mod prize;
pub mod registry;
pub mod security;
pub mod sponsor;
pub mod state;
pub mod ticket_loto;
