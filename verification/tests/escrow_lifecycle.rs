//! Lifecycle tests for the string-identifier escrow machine.

use htlc::errors::HTLCError;
use htlc::phtlc::EscrowLedger;
use htlc::phtlc::TokenCommitted;
use sha2::Digest;
use sha2::Sha256;

fn b(s: &str) -> Vec<u8> {
    s.as_bytes().to_vec()
}

/// The hashlock a secret must produce in these deployments, computed
/// independently of the library: hex of the double SHA-256 digest.
fn host_double_sha_hex(secret: &[u8]) -> Vec<u8> {
    let first = Sha256::digest(secret);
    let second = Sha256::digest(first);
    hex::encode(second).into_bytes()
}

fn commit_basic(
    l: &mut EscrowLedger,
    id: &str,
    sender: &str,
    receiver: &str,
    messenger: &str,
    now: u64,
    timelock: u64,
    amount: u64,
) -> Result<TokenCommitted, HTLCError> {
    l.commit(
        &b(sender),
        now,
        b(id),
        vec![b("chain-hop")],
        vec![b("asset-hop")],
        vec![b("addr-hop")],
        b("ETHEREUM"),
        b("ETH"),
        b("0xdestination"),
        b("SOL"),
        b(receiver),
        timelock,
        b(messenger),
        amount,
    )
}

const T: u64 = 1_000_000;

#[test]
fn scenario_commit_lockcommit_redeem() {
    let mut l = EscrowLedger::new();
    let ev = commit_basic(&mut l, "c1", "alice", "bob", "mia", T, T + 1000, 100).unwrap();
    assert_eq!(ev.commitId, b("c1"));
    assert_eq!(ev.sender, b("alice"));
    assert_eq!(ev.srcReceiver, b("bob"));
    assert_eq!(ev.amount, 100);
    assert_eq!(ev.timelock, T + 1000);
    assert_eq!(ev.messenger, b("mia"));
    assert_eq!(ev.hopChains, vec![b("chain-hop")]);

    // the messenger converts the pre-commit, supplying the hashlock
    let hashlock = host_double_sha_hex(b"supersecret");
    let ev2 = l
        .lockCommit(&b("mia"), &b("c1"), b("l1"), hashlock.clone())
        .unwrap();
    assert_eq!(ev2.commitId, b("c1"));
    assert_eq!(ev2.hashlock, hashlock);
    assert_eq!(ev2.amount, 100);

    let p = l.getCommitDetails(&b("c1")).unwrap();
    assert!(p.locked);
    assert!(!p.uncommitted);

    let h = l.getLockDetails(&b("l1")).unwrap();
    assert_eq!(h.amount, 100);
    assert_eq!(h.hashlock, hashlock);
    assert_eq!(h.sender, b("alice"));
    assert_eq!(h.srcReceiver, b("bob"));
    assert_eq!(h.timelock, T + 1000);
    assert!(!h.redeemed && !h.unlocked);
    assert!(h.secret.is_empty());

    assert_eq!(l.getLockIdByCommitId(&b("c1")).unwrap().lock_id, b("l1"));

    // anyone may call redeem; the payout goes to the recorded receiver
    let (payout, ev3) = l.redeem(&b("carol"), &b("l1"), b("supersecret")).unwrap();
    assert_eq!(payout.to, b("bob"));
    assert_eq!(payout.amount, 100);
    assert_eq!(ev3.lockId, b("l1"));
    assert_eq!(ev3.redeem_address, b("carol"));
    let h = l.getLockDetails(&b("l1")).unwrap();
    assert!(h.redeemed);
    assert_eq!(h.secret, b("supersecret"));

    // second settlement attempts: no double payout
    let again = l.redeem(&b("carol"), &b("l1"), b("supersecret"));
    assert!(matches!(again, Err(HTLCError::AlreadyRedeemed)));
    let unlock = l.unlock(&b("alice"), T + 5000, &b("l1"));
    assert!(matches!(unlock, Err(HTLCError::AlreadyRedeemed)));
}

#[test]
fn commit_rejects_bad_inputs() {
    let mut l = EscrowLedger::new();
    let past = commit_basic(&mut l, "c1", "alice", "bob", "mia", T, T, 100);
    assert!(matches!(past, Err(HTLCError::NotFutureTimeLock)));
    let zero = commit_basic(&mut l, "c1", "alice", "bob", "mia", T, T + 1, 0);
    assert!(matches!(zero, Err(HTLCError::FundsNotSent)));
    assert!(commit_basic(&mut l, "c1", "alice", "bob", "mia", T, T + 1, 5).is_ok());
    let dup = commit_basic(&mut l, "c1", "alice", "bob", "mia", T, T + 1, 5);
    assert!(matches!(dup, Err(HTLCError::RecordAlreadyExists)));
}

#[test]
fn uncommit_gated_by_timelock_and_sender() {
    let mut l = EscrowLedger::new();
    commit_basic(&mut l, "c1", "alice", "bob", "mia", T, T + 1000, 70).unwrap();

    let early = l.uncommit(&b("alice"), T + 999, &b("c1"));
    assert!(matches!(early, Err(HTLCError::NotPastTimeLock)));
    let wrong = l.uncommit(&b("bob"), T + 1000, &b("c1"));
    assert!(matches!(wrong, Err(HTLCError::NotSender)));
    let missing = l.uncommit(&b("alice"), T + 1000, &b("cX"));
    assert!(matches!(missing, Err(HTLCError::RecordNotFound)));

    let (payout, ev) = l.uncommit(&b("alice"), T + 1000, &b("c1")).unwrap();
    assert_eq!(payout.to, b("alice"));
    assert_eq!(payout.amount, 70);
    assert_eq!(ev.commitId, b("c1"));
    assert!(l.getCommitDetails(&b("c1")).unwrap().uncommitted);

    let twice = l.uncommit(&b("alice"), T + 2000, &b("c1"));
    assert!(matches!(twice, Err(HTLCError::AlreadyUncommitted)));
    let convert = l.lockCommit(&b("mia"), &b("c1"), b("l1"), host_double_sha_hex(b"s"));
    assert!(matches!(convert, Err(HTLCError::AlreadyUncommitted)));
}

#[test]
fn lock_then_unlock_after_deadline() {
    let mut l = EscrowLedger::new();
    let hashlock = host_double_sha_hex(b"opensesame");
    let ev = l
        .lock(
            &b("alice"),
            T,
            b("l1"),
            hashlock.clone(),
            T + 500,
            b("ETHEREUM"),
            b("0xdestination"),
            b("ETH"),
            b("SOL"),
            b("bob"),
            b("c-origin"),
            b("mia"),
            44,
        )
        .unwrap();
    assert_eq!(ev.hashlock, hashlock);
    assert_eq!(ev.commitId, b("c-origin"));

    let wrong_secret = l.redeem(&b("bob"), &b("l1"), b("wrong"));
    assert!(matches!(wrong_secret, Err(HTLCError::HashlockNoMatch)));
    let early = l.unlock(&b("alice"), T + 499, &b("l1"));
    assert!(matches!(early, Err(HTLCError::NotPastTimeLock)));
    let not_sender = l.unlock(&b("bob"), T + 500, &b("l1"));
    assert!(matches!(not_sender, Err(HTLCError::NotSender)));

    let (payout, ev2) = l.unlock(&b("alice"), T + 500, &b("l1")).unwrap();
    assert_eq!(payout.to, b("alice"));
    assert_eq!(payout.amount, 44);
    assert_eq!(ev2.lockId, b("l1"));

    // no double payout on the other terminal path either
    let redeem_after = l.redeem(&b("bob"), &b("l1"), b("opensesame"));
    assert!(matches!(redeem_after, Err(HTLCError::AlreadyUnlocked)));
    let unlock_again = l.unlock(&b("alice"), T + 600, &b("l1"));
    assert!(matches!(unlock_again, Err(HTLCError::AlreadyUnlocked)));
}

#[test]
fn lockcommit_rejections_change_nothing() {
    let mut l = EscrowLedger::new();
    commit_basic(&mut l, "c1", "alice", "bob", "mia", T, T + 1000, 100).unwrap();
    let hashlock = host_double_sha_hex(b"s");

    let missing = l.lockCommit(&b("mia"), &b("cX"), b("l1"), hashlock.clone());
    assert!(matches!(missing, Err(HTLCError::RecordNotFound)));
    let unauthorized = l.lockCommit(&b("eve"), &b("c1"), b("l1"), hashlock.clone());
    assert!(matches!(unauthorized, Err(HTLCError::UnauthorizedAccess)));

    // the rejected conversion left no trace
    let p = l.getCommitDetails(&b("c1")).unwrap();
    assert!(!p.locked && !p.uncommitted);
    assert!(l.getLockDetails(&b("l1")).is_none());
    assert!(l.getLockIdByCommitId(&b("c1")).is_none());

    // a colliding lock identifier is refused and converts nothing
    l.lock(
        &b("dora"),
        T,
        b("l1"),
        hashlock.clone(),
        T + 800,
        b("E"),
        b("0xd"),
        b("e"),
        b("s"),
        b("bob"),
        b(""),
        b(""),
        9,
    )
    .unwrap();
    let collision = l.lockCommit(&b("alice"), &b("c1"), b("l1"), hashlock.clone());
    assert!(matches!(collision, Err(HTLCError::RecordAlreadyExists)));
    let p = l.getCommitDetails(&b("c1")).unwrap();
    assert!(!p.locked && !p.uncommitted);

    // the sender (not only the messenger) may convert
    let ok = l.lockCommit(&b("alice"), &b("c1"), b("l2"), hashlock.clone());
    assert!(ok.is_ok());
    assert!(l.getCommitDetails(&b("c1")).unwrap().locked);
    assert_eq!(l.getLockIdByCommitId(&b("c1")).unwrap().lock_id, b("l2"));
}

#[test]
fn edge_values_empty_id_and_max_amount() {
    let mut l = EscrowLedger::new();
    // an empty identifier is just another byte string
    commit_basic(&mut l, "", "alice", "bob", "mia", T, u64::MAX, u64::MAX).unwrap();
    let p = l.getCommitDetails(&b("")).unwrap();
    assert_eq!(p.amount, u64::MAX);
    assert_eq!(p.timelock, u64::MAX);
    let dup = commit_basic(&mut l, "", "alice", "bob", "mia", T, T + 1, 1);
    assert!(matches!(dup, Err(HTLCError::RecordAlreadyExists)));
    // the whole deposit comes back, never split
    let early = l.uncommit(&b("alice"), u64::MAX - 1, &b(""));
    assert!(matches!(early, Err(HTLCError::NotPastTimeLock)));
    let (payout, _) = l.uncommit(&b("alice"), u64::MAX, &b("")).unwrap();
    assert_eq!(payout.amount, u64::MAX);
    assert_eq!(payout.to, b("alice"));
}

#[test]
fn error_messages_match_protocol() {
    assert_eq!(HTLCError::NotSender.message(), "Not The Sender.");
    assert_eq!(HTLCError::HashlockNoMatch.message(), "Does Not Match the Hashlock.");
    assert_eq!(HTLCError::NotFutureTimeLock.message(), "Not Future TimeLock.");
}
