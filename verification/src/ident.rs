//! Deterministic escrow-identifier derivation.
//!
//! Independent participants on both chains of a swap must agree on an
//! escrow identifier without a central allocator, so the identifier is the
//! SHA-256 digest of the swap parameters fed in a fixed canonical order.
//! The string-identifier deployments render the digest as hex; the binary
//! deployments use the raw 32 bytes.

use vstd::prelude::*;

use crate::bytes::append_bytes;
use crate::bytes::u64_be_bytes;
use crate::bytes::u64_to_be_bytes;
use crate::hashing::hex_encode;
use crate::hashing::hex_lower_of;
use crate::hashing::sha256;
use crate::hashing::sha256_of;

verus! {

/// The canonical hash input of the string-identifier derivation: every
/// swap parameter, in this order, amounts and timelocks big-endian.
pub open spec fn commit_id_preimage(
    src_chain: Seq<u8>,
    contract_address: Seq<u8>,
    signer: Seq<u8>,
    amount: u64,
    dst_chain: Seq<u8>,
    dst_address: Seq<u8>,
    dst_asset: Seq<u8>,
    src_asset: Seq<u8>,
    src_receiver: Seq<u8>,
    timelock: u64,
    messenger: Seq<u8>,
    token_contract: Seq<u8>,
) -> Seq<u8> {
    src_chain + contract_address + signer + u64_be_bytes(amount) + dst_chain + dst_address
        + dst_asset + src_asset + src_receiver + u64_be_bytes(timelock) + messenger
        + token_contract
}

/// The derived string identifier: the hex rendering of the SHA-256 digest
/// of the canonical preimage.
pub open spec fn spec_calculate_commit_id(
    src_chain: Seq<u8>,
    contract_address: Seq<u8>,
    signer: Seq<u8>,
    amount: u64,
    dst_chain: Seq<u8>,
    dst_address: Seq<u8>,
    dst_asset: Seq<u8>,
    src_asset: Seq<u8>,
    src_receiver: Seq<u8>,
    timelock: u64,
    messenger: Seq<u8>,
    token_contract: Seq<u8>,
) -> Seq<u8> {
    hex_lower_of(
        sha256_of(
            commit_id_preimage(
                src_chain,
                contract_address,
                signer,
                amount,
                dst_chain,
                dst_address,
                dst_asset,
                src_asset,
                src_receiver,
                timelock,
                messenger,
                token_contract,
            ),
        ),
    )
}

/// Derives the pre-commit identifier used by the string-identifier
/// deployments.  Deployments without a token asset pass an empty
/// `token_contract`, which contributes nothing to the digest input.
pub fn calculate_commit_id(
    src_chain: &Vec<u8>,
    contract_address: &Vec<u8>,
    signer: &Vec<u8>,
    amount: u64,
    dst_chain: &Vec<u8>,
    dst_address: &Vec<u8>,
    dst_asset: &Vec<u8>,
    src_asset: &Vec<u8>,
    src_receiver: &Vec<u8>,
    timelock: u64,
    messenger: &Vec<u8>,
    token_contract: &Vec<u8>,
) -> (r: Vec<u8>)
    ensures
        r@ == spec_calculate_commit_id(
            src_chain@,
            contract_address@,
            signer@,
            amount,
            dst_chain@,
            dst_address@,
            dst_asset@,
            src_asset@,
            src_receiver@,
            timelock,
            messenger@,
            token_contract@,
        ),
{
    let mut preimage: Vec<u8> = Vec::new();
    append_bytes(&mut preimage, src_chain);
    append_bytes(&mut preimage, contract_address);
    append_bytes(&mut preimage, signer);
    let amount_be = u64_to_be_bytes(amount);
    append_bytes(&mut preimage, &amount_be);
    append_bytes(&mut preimage, dst_chain);
    append_bytes(&mut preimage, dst_address);
    append_bytes(&mut preimage, dst_asset);
    append_bytes(&mut preimage, src_asset);
    append_bytes(&mut preimage, src_receiver);
    let timelock_be = u64_to_be_bytes(timelock);
    append_bytes(&mut preimage, &timelock_be);
    append_bytes(&mut preimage, messenger);
    append_bytes(&mut preimage, token_contract);
    assert(preimage@ =~= commit_id_preimage(
        src_chain@,
        contract_address@,
        signer@,
        amount,
        dst_chain@,
        dst_address@,
        dst_asset@,
        src_asset@,
        src_receiver@,
        timelock,
        messenger@,
        token_contract@,
    ));
    let digest = sha256(&preimage);
    hex_encode(&digest)
}

/// The canonical hash input of the binary-identifier derivation.
pub open spec fn binary_id_preimage(
    program_id: Seq<u8>,
    sender: Seq<u8>,
    receiver: Seq<u8>,
    amount: u64,
    timelock: u64,
) -> Seq<u8> {
    program_id + sender + receiver + u64_be_bytes(amount) + u64_be_bytes(timelock)
}

/// The derived binary identifier: the raw 32-byte SHA-256 digest of the
/// canonical preimage.
pub open spec fn spec_get_commit_id(
    program_id: Seq<u8>,
    sender: Seq<u8>,
    receiver: Seq<u8>,
    amount: u64,
    timelock: u64,
) -> Seq<u8> {
    sha256_of(binary_id_preimage(program_id, sender, receiver, amount, timelock))
}

/// Derives the 32-byte identifier used by the binary-identifier
/// deployments.
pub fn get_commit_id(
    program_id: &Vec<u8>,
    sender: &Vec<u8>,
    receiver: &Vec<u8>,
    amount: u64,
    timelock: u64,
) -> (r: Vec<u8>)
    ensures
        r@ == spec_get_commit_id(program_id@, sender@, receiver@, amount, timelock),
        r@.len() == 32,
{
    let mut preimage: Vec<u8> = Vec::new();
    append_bytes(&mut preimage, program_id);
    append_bytes(&mut preimage, sender);
    append_bytes(&mut preimage, receiver);
    let amount_be = u64_to_be_bytes(amount);
    append_bytes(&mut preimage, &amount_be);
    let timelock_be = u64_to_be_bytes(timelock);
    append_bytes(&mut preimage, &timelock_be);
    assert(preimage@ =~= binary_id_preimage(program_id@, sender@, receiver@, amount, timelock));
    sha256(&preimage)
}

/// Identifier determinism: two invocations of the derivation on equal
/// canonical inputs yield equal identifiers.  The derivation reads nothing
/// but its arguments, so independent observers agree on the identifier.
pub proof fn lemma_commit_id_deterministic(
    a: (Seq<u8>, Seq<u8>, Seq<u8>, u64, Seq<u8>, Seq<u8>, Seq<u8>, Seq<u8>, Seq<u8>, u64, Seq<u8>, Seq<u8>),
    b: (Seq<u8>, Seq<u8>, Seq<u8>, u64, Seq<u8>, Seq<u8>, Seq<u8>, Seq<u8>, Seq<u8>, u64, Seq<u8>, Seq<u8>),
)
    requires
        a == b,
    ensures
        spec_calculate_commit_id(a.0, a.1, a.2, a.3, a.4, a.5, a.6, a.7, a.8, a.9, a.10, a.11)
            == spec_calculate_commit_id(b.0, b.1, b.2, b.3, b.4, b.5, b.6, b.7, b.8, b.9, b.10, b.11),
{
}

/// Identifier determinism for the binary derivation: equal canonical
/// inputs yield equal identifiers.
pub proof fn lemma_get_commit_id_deterministic(
    a: (Seq<u8>, Seq<u8>, Seq<u8>, u64, u64),
    b: (Seq<u8>, Seq<u8>, Seq<u8>, u64, u64),
)
    requires
        a == b,
    ensures
        spec_get_commit_id(a.0, a.1, a.2, a.3, a.4) == spec_get_commit_id(b.0, b.1, b.2, b.3, b.4),
{
}

} // verus!
