//! The data carried by transactions and the operations on it.

pub mod basic;
pub mod index_map;
pub mod keys;
pub mod smart_contracts;
pub mod transactions;
pub mod update_map;
