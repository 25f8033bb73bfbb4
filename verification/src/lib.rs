//! A workload simulator for a chain of blocks: masternodes propose the
//! blocks, a strategy says which documents each block makes, and an
//! executor runs the blocks one step at a time against a storage engine that
//! its caller drives.

pub mod alias_map;
pub mod blockchain;
pub mod commands;
pub mod explorer;
pub mod listing;
mod random;
pub mod text;
