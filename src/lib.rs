//! Validator consensus core of a proof-of-stake node: slot and epoch timing,
//! the leader lottery over epoch coins, fork chains of block proposals,
//! proposal validation and finalization into the canonical chain.
pub mod constants;
pub mod time;
pub mod bytes;
pub mod block;
pub mod chain;
pub mod blockchain;
pub mod txverify;
pub mod field;
pub mod lottery;
pub mod validator;
pub mod forks;
pub mod mempool;
pub mod participants;
pub mod receive;
pub mod node;
