//! The simulated chain: its masternodes, its strategies and its blocks.

pub mod chance;
pub mod contract_store;
pub mod executor;
pub mod fees;
pub mod masternode;
pub mod strategy;
pub mod strategy_store;
