//! State-transition core of a replicated registry of uniquely identified
//! digital assets ("kitties").
//!
//! Each asset is an immutable 16-byte genome with a monotonically allocated
//! identifier and exactly one current owner. Three transitions — `create`,
//! `breed` and `transfer` — mutate a plain state container ([`pallet::Pallet`])
//! and are verified to preserve its cross-entity invariants: unique ownership,
//! a bounded per-owner inventory, monotonic identifier allocation, and a stake
//! escrow that always balances the number of owned assets.

pub mod balances;
pub mod errors;
pub mod events;
pub mod inventory;
pub mod kitty;
pub mod pallet;
pub mod randomness;
