#![allow(non_snake_case)]
//! Hashed and pre-hashed timelock escrow (HTLC / PHTLC) state machines.
//!
//! An escrow locks an amount under a cryptographic commitment (the hashlock,
//! a SHA-256 digest of a secret) and a deadline (the timelock).  Before the
//! deadline the recorded receiver can redeem the amount by revealing the
//! secret; after the deadline the sender can reclaim it.  A pre-commit
//! variant deposits funds before the hashlock is known and lets the sender
//! or a designated messenger convert the deposit into a full hashlocked
//! escrow later.
//!
//! The crate verifies the escrow records, their lifecycle transitions and
//! the guard logic.  Durable storage, value transfer, clocks and caller
//! authentication are the host's collaborators: operations take the current
//! time and the authenticated caller as plain values and hand back the
//! payout instructions and events the host must apply.

pub mod adapter;
pub mod addlock;
pub mod bytes;
pub mod errors;
pub mod hashing;
pub mod ident;
pub mod laws;
pub mod phtlc;
pub mod table;
