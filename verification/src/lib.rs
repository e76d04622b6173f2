//! Read-only indexer and query engine for a concentrated-liquidity AMM.
//!
//! The crate decodes the AMM dispatch contract's packed event payloads,
//! stores the typed records in an in-memory committed store, folds ordered
//! event streams into derived per-pool state (TVL, volume, fees, prices and
//! a tick-indexed liquidity curve), and reconstructs open positions from
//! mint/burn streams.  All of that logic is verified; network and disk
//! plumbing lives outside the library.

pub mod abi;
pub mod api;
pub mod db;
pub mod events;
pub mod governance;
pub mod laws;
pub mod positions;
pub mod proposals;
pub mod scanner;
pub mod strings;
pub mod tracking;
pub mod updates;
pub mod address;
pub mod u256;

pub use address::Address;
pub use u256::U256;
