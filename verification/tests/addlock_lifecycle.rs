//! Lifecycle tests for the binary-identifier escrow machine.

use htlc::addlock::HtlcLedger;
use htlc::errors::HTLCError;
use sha2::Digest;
use sha2::Sha256;

fn b(s: &str) -> Vec<u8> {
    s.as_bytes().to_vec()
}

fn id32(n: u8) -> Vec<u8> {
    vec![n; 32]
}

fn host_sha256(data: &[u8]) -> Vec<u8> {
    Sha256::digest(data).to_vec()
}

const T: u64 = 1_000_000;

fn commit_basic(
    l: &mut HtlcLedger,
    id: Vec<u8>,
    sender: &str,
    receiver: &str,
    now: u64,
    timelock: u64,
    amount: u64,
) -> Result<Vec<u8>, HTLCError> {
    l.commit(
        &b(sender),
        now,
        id,
        vec![b("chain-hop")],
        vec![b("asset-hop")],
        vec![b("addr-hop")],
        b("ETHEREUM"),
        b("ETH"),
        b("0xdestination"),
        b("SOL"),
        b(receiver),
        timelock,
        amount,
    )
}

#[test]
fn commit_addlock_redeem() {
    let mut l = HtlcLedger::new();
    let ret = commit_basic(&mut l, id32(1), "alice", "bob", T, T + 1000, 100).unwrap();
    assert_eq!(ret, id32(1));

    let secret = vec![7u8; 32];
    let hashlock = host_sha256(&secret);

    // the hashlock is still unset: redeeming is impossible
    let unset = l.redeem(&id32(1), secret.clone());
    assert!(matches!(unset, Err(HTLCError::HashlockNotSet)));
    {
        let h = l.getDetails(&id32(1)).unwrap();
        assert_eq!(h.hashlock, vec![0u8; 32]);
        assert_eq!(h.secret, vec![0u8; 32]);
        assert_eq!(h.amount, 100);
    }

    // only the sender may supply the hashlock
    let eve = l.add_lock(&b("eve"), T, &id32(1), hashlock.clone(), T + 2000);
    assert!(matches!(eve, Err(HTLCError::UnauthorizedAccess)));
    let past = l.add_lock(&b("alice"), T, &id32(1), hashlock.clone(), T);
    assert!(matches!(past, Err(HTLCError::NotFutureTimeLock)));
    let ret = l
        .add_lock(&b("alice"), T, &id32(1), hashlock.clone(), T + 2000)
        .unwrap();
    assert_eq!(ret, id32(1));
    {
        let h = l.getDetails(&id32(1)).unwrap();
        assert_eq!(h.hashlock, hashlock);
        assert_eq!(h.timelock, T + 2000);
    }

    // and only once
    let again = l.add_lock(&b("alice"), T, &id32(1), hashlock.clone(), T + 3000);
    assert!(matches!(again, Err(HTLCError::HashlockAlreadySet)));

    // hash round-trip: the wrong secret is refused, the right one pays out
    let wrong = l.redeem(&id32(1), vec![8u8; 32]);
    assert!(matches!(wrong, Err(HTLCError::HashlockNoMatch)));
    let payout = l.redeem(&id32(1), secret.clone()).unwrap();
    assert_eq!(payout.to, b("bob"));
    assert_eq!(payout.amount, 100);
    {
        let h = l.getDetails(&id32(1)).unwrap();
        assert!(h.redeemed);
        assert_eq!(h.secret, secret);
    }

    // no double payout
    let twice = l.redeem(&id32(1), secret);
    assert!(matches!(twice, Err(HTLCError::AlreadyRedeemed)));
    let refund = l.refund(&b("alice"), T + 5000, &id32(1));
    assert!(matches!(refund, Err(HTLCError::AlreadyRedeemed)));
}

#[test]
fn lock_then_refund_after_deadline() {
    let mut l = HtlcLedger::new();
    let secret = vec![9u8; 32];
    let hashlock = host_sha256(&secret);
    let ret = l
        .lock(
            &b("alice"),
            T,
            id32(2),
            hashlock.clone(),
            T + 500,
            55,
            b("ETHEREUM"),
            b("0xdestination"),
            b("ETH"),
            b("SOL"),
            b("bob"),
        )
        .unwrap();
    assert_eq!(ret, id32(2));

    let early = l.refund(&b("alice"), T + 499, &id32(2));
    assert!(matches!(early, Err(HTLCError::NotPastTimeLock)));
    let not_sender = l.refund(&b("bob"), T + 500, &id32(2));
    assert!(matches!(not_sender, Err(HTLCError::NotSender)));
    let missing = l.refund(&b("alice"), T + 500, &id32(3));
    assert!(matches!(missing, Err(HTLCError::RecordNotFound)));

    let payout = l.refund(&b("alice"), T + 500, &id32(2)).unwrap();
    assert_eq!(payout.to, b("alice"));
    assert_eq!(payout.amount, 55);
    assert!(l.getDetails(&id32(2)).unwrap().refunded);

    let twice = l.refund(&b("alice"), T + 600, &id32(2));
    assert!(matches!(twice, Err(HTLCError::AlreadyRefunded)));
    let redeem_after = l.redeem(&id32(2), secret);
    assert!(matches!(redeem_after, Err(HTLCError::AlreadyRefunded)));
}

#[test]
fn lock_rejects_bad_inputs() {
    let mut l = HtlcLedger::new();
    let hashlock = host_sha256(b"x");
    let past = l.lock(
        &b("alice"),
        T,
        id32(4),
        hashlock.clone(),
        T,
        10,
        b("E"),
        b("0xd"),
        b("e"),
        b("s"),
        b("bob"),
    );
    assert!(matches!(past, Err(HTLCError::NotFutureTimeLock)));
    let zero = l.lock(
        &b("alice"),
        T,
        id32(4),
        hashlock.clone(),
        T + 1,
        0,
        b("E"),
        b("0xd"),
        b("e"),
        b("s"),
        b("bob"),
    );
    assert!(matches!(zero, Err(HTLCError::FundsNotSent)));
    assert!(commit_basic(&mut l, id32(4), "alice", "bob", T, T + 1, 5).is_ok());
    let dup = commit_basic(&mut l, id32(4), "alice", "bob", T, T + 1, 5);
    assert!(matches!(dup, Err(HTLCError::RecordAlreadyExists)));
    let addlock_missing = l.add_lock(&b("alice"), T, &id32(5), hashlock, T + 10);
    assert!(matches!(addlock_missing, Err(HTLCError::RecordNotFound)));
}
