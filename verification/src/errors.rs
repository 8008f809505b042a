//! The error taxonomy of the escrow protocol.
//!
//! Every operation rejects synchronously with one of these values and
//! leaves the ledger exactly as it was; there is no partial failure.

use vstd::prelude::*;

verus! {

/// Reasons an escrow operation can be refused.
#[derive(Clone, Copy, Debug, PartialEq, Eq, Structural)]
pub enum HTLCError {
    /// A new escrow's timelock is not strictly in the future.
    NotFutureTimeLock,
    /// A reclaim was attempted before the timelock expired.
    NotPastTimeLock,
    /// Redeeming was attempted while the hashlock is still unset.
    HashlockNotSet,
    /// The candidate secret does not hash to the recorded hashlock.
    HashlockNoMatch,
    /// A hashlock was offered for a record that already has one.
    HashlockAlreadySet,
    /// The record was already settled by a redeem.
    AlreadyRedeemed,
    /// The record was already settled by an unlock.
    AlreadyUnlocked,
    /// The record was already settled by a refund.
    AlreadyRefunded,
    /// The pre-commit was already reclaimed.
    AlreadyUncommitted,
    /// The pre-commit was already converted into a locked escrow.
    AlreadyLocked,
    /// A new escrow was offered a zero amount.
    FundsNotSent,
    /// The caller is neither the sender nor the designated messenger.
    UnauthorizedAccess,
    /// The caller does not own the involved account.
    NotOwner,
    /// The caller is not the recorded sender.
    NotSender,
    /// The supplied receiver is not the recorded receiver.
    NotReciever,
    /// The supplied asset does not match the escrowed asset.
    NoToken,
    /// No record exists under the given identifier.
    RecordNotFound,
    /// A record already exists under the given identifier.
    RecordAlreadyExists,
}

impl HTLCError {
    /// A short description, mirroring the protocol's reported messages.
    pub fn message(&self) -> (m: &'static str) {
        match self {
            HTLCError::NotFutureTimeLock => "Not Future TimeLock.",
            HTLCError::NotPastTimeLock => "Not Past TimeLock.",
            HTLCError::HashlockNotSet => "Hashlock Is Not Set.",
            HTLCError::HashlockNoMatch => "Does Not Match the Hashlock.",
            HTLCError::HashlockAlreadySet => "Hashlock Already Set.",
            HTLCError::AlreadyRedeemed => "Funds Are Alredy Redeemed.",
            HTLCError::AlreadyUnlocked => "Funds Are Alredy Unlocked.",
            HTLCError::AlreadyRefunded => "Funds Are Alredy Refunded.",
            HTLCError::AlreadyUncommitted => "Funds Are Alredy Uncommitted.",
            HTLCError::AlreadyLocked => "Already Locked.",
            HTLCError::FundsNotSent => "Funds Can Not Be Zero.",
            HTLCError::UnauthorizedAccess => "Unauthorized Access.",
            HTLCError::NotOwner => "Not The Owner.",
            HTLCError::NotSender => "Not The Sender.",
            HTLCError::NotReciever => "Not The Reciever.",
            HTLCError::NoToken => "Wrong Token.",
            HTLCError::RecordNotFound => "No Record Under This Id.",
            HTLCError::RecordAlreadyExists => "Record Id Already In Use.",
        }
    }
}

} // verus!
