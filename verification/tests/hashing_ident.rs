//! Known-vector tests for hashing, hex rendering, byte helpers and the
//! identifier derivations.

use htlc::bytes::bytes_eq;
use htlc::bytes::copy_bytes;
use htlc::bytes::is_zero32;
use htlc::bytes::make_zero32;
use htlc::bytes::u64_to_be_bytes;
use htlc::hashing::double_sha_hex;
use htlc::hashing::hex_encode;
use htlc::hashing::sha256;
use htlc::ident::calculate_commit_id;
use htlc::ident::get_commit_id;
use sha2::Digest;
use sha2::Sha256;

fn b(s: &str) -> Vec<u8> {
    s.as_bytes().to_vec()
}

#[test]
fn sha256_known_vectors() {
    let abc = sha256(&b("abc"));
    assert_eq!(
        hex::encode(&abc),
        "ba7816bf8f01cfea414140de5dae2223b00361a396177a9cb410ff61f20015ad"
    );
    let empty = sha256(&Vec::new());
    assert_eq!(
        hex::encode(&empty),
        "e3b0c44298fc1c149afbf4c8996fb92427ae41e4649b934ca495991b7852b855"
    );
}

#[test]
fn hex_encode_known_vectors() {
    assert_eq!(hex_encode(&vec![0x01, 0x02, 0x0f, 0x10]), b("01020f10"));
    assert_eq!(hex_encode(&Vec::new()), b(""));
    assert_eq!(hex_encode(&vec![0xff, 0x00, 0xab]), b("ff00ab"));
}

#[test]
fn double_sha_hex_known_vector() {
    // the double SHA-256 digest of "abc", hex rendered
    assert_eq!(
        double_sha_hex(&b("abc")),
        b("4f8b42c22dd3729b519ba6f68d2da7cc5b2d606d05daed5ad5128cc03e6c6358")
    );
}

#[test]
fn u64_big_endian_encoding() {
    assert_eq!(
        u64_to_be_bytes(0x0102030405060708),
        vec![1u8, 2, 3, 4, 5, 6, 7, 8]
    );
    assert_eq!(u64_to_be_bytes(0), vec![0u8; 8]);
    assert_eq!(
        u64_to_be_bytes(u64::MAX),
        vec![0xffu8, 0xff, 0xff, 0xff, 0xff, 0xff, 0xff, 0xff]
    );
}

#[test]
fn byte_helpers() {
    assert!(bytes_eq(&b("same"), &b("same")));
    assert!(!bytes_eq(&b("same"), &b("other")));
    assert!(!bytes_eq(&b("aa"), &b("aaa")));
    assert_eq!(copy_bytes(&b("payload")), b("payload"));
    assert!(is_zero32(&make_zero32()));
    assert!(!is_zero32(&vec![0u8; 31]));
    assert!(!is_zero32(&vec![1u8; 32]));
    assert_eq!(make_zero32(), vec![0u8; 32]);
}

#[test]
fn calculate_commit_id_matches_canonical_hash() {
    let id = calculate_commit_id(
        &b("SOLANA DEVNET"),
        &b("program-address"),
        &b("alice"),
        100,
        &b("ETHEREUM"),
        &b("0xdestination"),
        &b("ETH"),
        &b("SOL"),
        &b("bob"),
        2_000_000,
        &b("mia"),
        &b("token-mint"),
    );
    // the same digest computed directly over the canonical field order
    let mut hasher = Sha256::new();
    hasher.update(b"SOLANA DEVNET");
    hasher.update(b"program-address");
    hasher.update(b"alice");
    hasher.update(100u64.to_be_bytes());
    hasher.update(b"ETHEREUM");
    hasher.update(b"0xdestination");
    hasher.update(b"ETH");
    hasher.update(b"SOL");
    hasher.update(b"bob");
    hasher.update(2_000_000u64.to_be_bytes());
    hasher.update(b"mia");
    hasher.update(b"token-mint");
    let expected = hex::encode(hasher.finalize()).into_bytes();
    assert_eq!(id, expected);
    assert_eq!(id.len(), 64);
}

#[test]
fn calculate_commit_id_deterministic_and_input_sensitive() {
    let derive = |sender: &str, amount: u64| {
        calculate_commit_id(
            &b("SOLANA DEVNET"),
            &b("program-address"),
            &b(sender),
            amount,
            &b("ETHEREUM"),
            &b("0xdestination"),
            &b("ETH"),
            &b("SOL"),
            &b("bob"),
            2_000_000,
            &b("mia"),
            &b(""),
        )
    };
    assert_eq!(derive("alice", 100), derive("alice", 100));
    assert_ne!(derive("alice", 100), derive("alicf", 100));
    assert_ne!(derive("alice", 100), derive("alice", 101));
}

#[test]
fn get_commit_id_matches_canonical_hash() {
    let id = get_commit_id(&b("program"), &b("alice"), &b("bob"), 100, 2_000_000);
    let mut hasher = Sha256::new();
    hasher.update(b"program");
    hasher.update(b"alice");
    hasher.update(b"bob");
    hasher.update(100u64.to_be_bytes());
    hasher.update(2_000_000u64.to_be_bytes());
    let expected = hasher.finalize().to_vec();
    assert_eq!(id, expected);
    assert_eq!(id.len(), 32);
}

#[test]
fn get_commit_id_deterministic_and_input_sensitive() {
    let a = get_commit_id(&b("program"), &b("alice"), &b("bob"), 100, 2_000_000);
    let a2 = get_commit_id(&b("program"), &b("alice"), &b("bob"), 100, 2_000_000);
    let c = get_commit_id(&b("program"), &b("alice"), &b("bob"), 100, 2_000_001);
    assert_eq!(a, a2);
    assert_ne!(a, c);
}
