//! Detection of priority violations within one block.
//!
//! A block lists its transactions in the order in which they ran. Each has a
//! fee priority and touches accounts, some to write and some to read. A
//! transaction violates where it touches an account after a transaction with a
//! lower priority did, and one of the two wrote to it: the one that paid more
//! should have come first.
//!
//! - [`priority`]: the priority that a transaction states in its instructions.
//! - [`tracker`]: the last access of each account, and the rule that finds
//!   violations.
//! - [`block`]: one pass over a block.
//! - [`report`]: the violations by account, and the text of the report.
//! - [`theorems`]: what holds of all of these.
//! - [`account`], [`account_map`]: accounts, and maps keyed by them.

pub mod account;
pub mod account_map;
pub mod block;
pub mod priority;
pub mod report;
pub mod theorems;
pub mod tracker;
