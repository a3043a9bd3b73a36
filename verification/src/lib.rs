//! A leased-resource marketplace: a registry of computing resources
//! (cpu/memory/bandwidth capacity, region, NAT class) published by
//! administrators, and a rental order mechanism that lets a payer lock funds
//! to exclusively use a resource for a bounded number of blocks, with escrow
//! release to the owner on expiry or refund to the initiator on termination.
//!
//! The surrounding host (message parsing, persistent storage, the admin list,
//! the bank) is out of scope: callers hand in plain values (the caller's admin
//! capability as a `bool`, the current block height, the attached coins) and
//! receive payment instructions back as plain values.

pub mod error;
pub mod order;
pub mod order_type;
pub mod resource;
pub mod resource_type;

pub use error::ContractError;
