//! The value-transfer instruction handed back to the host.
//!
//! The asset backend (native coin or fungible token custody) is a
//! collaborator of the escrow core: a settling operation decides who is
//! paid and how much, and the host's adapter performs the movement.  The
//! contracts of the settling operations pin both fields to the record, so
//! the amount paid out always equals the amount deposited at creation.

use vstd::prelude::*;

verus! {

/// An instruction to move `amount` out of an escrow's custody to `to`.
pub struct Payout {
    /// The principal receiving the funds.
    pub to: Vec<u8>,
    /// The full escrowed amount; never split.
    pub amount: u64,
}

} // verus!
