//! SHA-256 hashing and hex rendering.
//!
//! The digest itself comes from the `sha2` crate and is not re-implemented
//! here: its value is named by the uninterpreted function [`sha256_of`], and
//! every contract that mentions a digest speaks through that name.  The hex
//! rendering of `hex::encode` is simple enough to state exactly, so its
//! wrapper carries a full specification.

use sha2::Digest;
use vstd::prelude::*;

verus! {

/// The SHA-256 digest of a byte string.  The digest is a pure function of
/// its input; nothing further is assumed about its value.
pub uninterp spec fn sha256_of(input: Seq<u8>) -> Seq<u8>;

/// Relies on `sha2::Sha256` (through the `Digest` trait): the digest is a
/// function of the input bytes alone and is always 32 bytes long.
#[verifier::external_body]
pub fn sha256(input: &Vec<u8>) -> (r: Vec<u8>)
    ensures
        r@ == sha256_of(input@),
        r@.len() == 32,
{
    sha2::Sha256::digest(input.as_slice()).to_vec()
}

/// The lower-case ASCII hex digit for a nibble.
pub open spec fn hex_digit(n: u8) -> u8
    recommends
        n < 16,
{
    if n < 10 {
        (n + 48) as u8
    } else {
        (n + 87) as u8
    }
}

/// The lower-case ASCII hex rendering of a byte string: two digits per
/// byte, high nibble first.
pub open spec fn hex_lower_of(data: Seq<u8>) -> Seq<u8> {
    Seq::new(
        data.len() * 2,
        |i: int|
            if i % 2 == 0 {
                hex_digit(data[i / 2] >> 4)
            } else {
                hex_digit(data[i / 2] & 0x0f)
            },
    )
}

/// Relies on `hex::encode`: each input byte becomes two lower-case hex
/// digits, high nibble first, drawn from "0123456789abcdef".
#[verifier::external_body]
pub fn hex_encode(data: &Vec<u8>) -> (r: Vec<u8>)
    ensures
        r@ == hex_lower_of(data@),
{
    hex::encode(data.as_slice()).into_bytes()
}

/// The hashlock that matches a secret in the string-identifier
/// deployments: the double SHA-256 digest, rendered as hex.
pub open spec fn double_sha_hex_of(secret: Seq<u8>) -> Seq<u8> {
    hex_lower_of(sha256_of(sha256_of(secret)))
}

/// Computes the hashlock a candidate secret would have to match in the
/// string-identifier deployments.
pub fn double_sha_hex(secret: &Vec<u8>) -> (r: Vec<u8>)
    ensures
        r@ == double_sha_hex_of(secret@),
{
    let first = sha256(secret);
    let second = sha256(&first);
    hex_encode(&second)
}

} // verus!
