//! Verified core of an Ethereum-compatible payment wallet: amount
//! conversion between human decimal notation and raw on-chain units,
//! configuration resolution, keystore bookkeeping, and the decision
//! logic of the payment pipeline.

pub mod abi;
pub mod amount;
pub mod config;
pub mod engine;
pub mod error;
pub mod paths;
pub mod text;
pub mod wallet;
pub mod x402;
