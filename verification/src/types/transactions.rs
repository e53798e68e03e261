//! Transactions and transaction-like messages, with their byte layout,
//! signing and cost.

pub mod account;
pub mod baker;
pub mod block_item;
pub mod codec;
pub mod construct;
pub mod cost;
pub mod header;
pub mod laws;
pub mod payload;
pub mod prefixes;
pub mod send;
pub mod signature;
pub mod signing;
pub mod update;
pub mod verify;
