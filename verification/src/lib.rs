//! Downloading full blocks, header and body, from peers of an Ethereum network.
//!
//! The downloads are state machines: they say what to ask of the network, and are told what came
//! back. [`client`] starts them, [`full_block`] downloads a single block, and
//! [`full_block_range`] a range of blocks.
pub mod block_access_lists;
pub mod client;
pub mod consensus;
pub mod full_block;
pub mod full_block_laws;
pub mod full_block_range;
pub mod full_block_range_chain;
pub mod full_block_range_laws;
pub mod full_block_range_outcomes;
pub mod order;
pub mod primitives;
pub mod request;
