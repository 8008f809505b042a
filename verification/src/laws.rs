//! The protocol's guarantees, stated and proved over the guard and custody
//! specifications that the operations' contracts are written in.

use vstd::prelude::*;

use crate::bytes::zero32;
use crate::errors::HTLCError;
use crate::hashing::double_sha_hex_of;
use crate::hashing::sha256_of;
use crate::phtlc::htlc_custody;
use crate::phtlc::htlc_inv;
use crate::phtlc::lock_commit_guard;
use crate::phtlc::new_escrow_guard;
use crate::phtlc::phtlc_custody;
use crate::phtlc::phtlc_inv;
use crate::phtlc::uncommit_guard;
use crate::phtlc::unlock_guard;
use crate::addlock::add_lock_guard;
use crate::addlock::record_custody;
use crate::addlock::record_inv;
use crate::addlock::refund_guard;

verus! {

/// No double payout, locked escrows: once a record is terminal, a redeem
/// is refused with the matching "already" error whatever the secret, an
/// unlock is refused whoever calls and whenever, and no custody remains to
/// pay out.
pub proof fn lemma_no_double_payout_lock(
    h: crate::phtlc::HTLC,
    secret: Seq<u8>,
    caller: Seq<u8>,
    now: u64,
)
    requires
        h.redeemed || h.unlocked,
    ensures
        crate::phtlc::redeem_guard(Some(h), secret) == Err::<(), HTLCError>(
            if h.redeemed {
                HTLCError::AlreadyRedeemed
            } else {
                HTLCError::AlreadyUnlocked
            },
        ),
        unlock_guard(Some(h), caller, now) is Err,
        caller == h.sender@ ==> unlock_guard(Some(h), caller, now) == Err::<(), HTLCError>(
            if h.unlocked {
                HTLCError::AlreadyUnlocked
            } else {
                HTLCError::AlreadyRedeemed
            },
        ),
        htlc_custody(h) == 0,
{
}

/// No double settlement, pre-commits: once a pre-commit is terminal, a
/// conversion is refused with the matching "already" error whoever calls,
/// a reclaim is refused too, and no custody remains.
pub proof fn lemma_no_double_settlement_precommit(
    p: crate::phtlc::PHTLC,
    lock_exists: bool,
    caller: Seq<u8>,
    now: u64,
)
    requires
        p.locked || p.uncommitted,
    ensures
        lock_commit_guard(Some(p), lock_exists, caller) == Err::<(), HTLCError>(
            if p.uncommitted {
                HTLCError::AlreadyUncommitted
            } else {
                HTLCError::AlreadyLocked
            },
        ),
        uncommit_guard(Some(p), caller, now) is Err,
        caller == p.sender@ ==> uncommit_guard(Some(p), caller, now) == Err::<(), HTLCError>(
            if p.uncommitted {
                HTLCError::AlreadyUncommitted
            } else {
                HTLCError::AlreadyLocked
            },
        ),
        phtlc_custody(p) == 0,
{
}

/// No double payout, binary-identifier records: once terminal, a redeem is
/// refused with the matching "already" error whatever the secret, a refund
/// is refused too, and no custody remains.
pub proof fn lemma_no_double_payout_record(
    h: crate::addlock::HTLC,
    secret: Seq<u8>,
    caller: Seq<u8>,
    now: u64,
)
    requires
        h.redeemed || h.refunded,
    ensures
        crate::addlock::redeem_guard(Some(h), secret) == Err::<(), HTLCError>(
            if h.redeemed {
                HTLCError::AlreadyRedeemed
            } else {
                HTLCError::AlreadyRefunded
            },
        ),
        refund_guard(Some(h), caller, now) is Err,
        caller == h.sender@ ==> refund_guard(Some(h), caller, now) == Err::<(), HTLCError>(
            if h.refunded {
                HTLCError::AlreadyRefunded
            } else {
                HTLCError::AlreadyRedeemed
            },
        ),
        record_custody(h) == 0,
{
}

/// Hash round-trip, string-identifier deployments: on an active record a
/// redeem passes its guard exactly when the candidate secret's double
/// SHA-256 digest, hex rendered, equals the recorded hashlock.
pub proof fn lemma_hash_round_trip_lock(h: crate::phtlc::HTLC, secret: Seq<u8>)
    requires
        !h.redeemed,
        !h.unlocked,
    ensures
        crate::phtlc::redeem_guard(Some(h), secret) is Ok <==> double_sha_hex_of(secret)
            == h.hashlock@,
{
}

/// Hash round-trip, binary-identifier deployments: on an active record
/// whose hashlock is set, a redeem passes its guard exactly when the
/// candidate secret's single SHA-256 digest equals the recorded hashlock.
pub proof fn lemma_hash_round_trip_record(h: crate::addlock::HTLC, secret: Seq<u8>)
    requires
        !h.redeemed,
        !h.refunded,
        h.hashlock@ != zero32(),
    ensures
        crate::addlock::redeem_guard(Some(h), secret) is Ok <==> sha256_of(secret)
            == h.hashlock@,
{
}

/// Timelock gating, reclaim of a pre-commit: for the sender of an active
/// pre-commit, `uncommit` fails with `NotPastTimeLock` strictly before the
/// deadline and passes its guard from the deadline on.
pub proof fn lemma_timelock_gating_uncommit(p: crate::phtlc::PHTLC, caller: Seq<u8>, now: u64)
    requires
        caller == p.sender@,
        !p.locked,
        !p.uncommitted,
    ensures
        now < p.timelock <==> uncommit_guard(Some(p), caller, now) == Err::<(), HTLCError>(
            HTLCError::NotPastTimeLock,
        ),
        now >= p.timelock <==> uncommit_guard(Some(p), caller, now) is Ok,
{
}

/// Timelock gating, reclaim of a locked escrow: for the sender of an
/// active record, `unlock` fails with `NotPastTimeLock` strictly before
/// the deadline and passes its guard from the deadline on.
pub proof fn lemma_timelock_gating_unlock(h: crate::phtlc::HTLC, caller: Seq<u8>, now: u64)
    requires
        caller == h.sender@,
        !h.redeemed,
        !h.unlocked,
    ensures
        now < h.timelock <==> unlock_guard(Some(h), caller, now) == Err::<(), HTLCError>(
            HTLCError::NotPastTimeLock,
        ),
        now >= h.timelock <==> unlock_guard(Some(h), caller, now) is Ok,
{
}

/// Timelock gating, refund: for the sender of an active binary-identifier
/// record, `refund` fails with `NotPastTimeLock` strictly before the
/// deadline and passes its guard from the deadline on.
pub proof fn lemma_timelock_gating_refund(h: crate::addlock::HTLC, caller: Seq<u8>, now: u64)
    requires
        caller == h.sender@,
        !h.redeemed,
        !h.refunded,
    ensures
        now < h.timelock <==> refund_guard(Some(h), caller, now) == Err::<(), HTLCError>(
            HTLCError::NotPastTimeLock,
        ),
        now >= h.timelock <==> refund_guard(Some(h), caller, now) is Ok,
{
}

/// Timelock gating, creation: `commit` and `lock` refuse every deadline
/// not strictly in the future with `NotFutureTimeLock`, and accept every
/// strictly-future deadline together with a positive amount and a fresh
/// identifier.
pub proof fn lemma_timelock_gating_creation(
    exists_already: bool,
    timelock: u64,
    amount: u64,
    now: u64,
)
    ensures
        timelock <= now <==> new_escrow_guard(exists_already, timelock, amount, now) == Err::<
            (),
            HTLCError,
        >(HTLCError::NotFutureTimeLock),
        new_escrow_guard(exists_already, timelock, amount, now) is Ok <==> (timelock > now
            && amount != 0 && !exists_already),
{
}

/// Conservation, locked escrows: a settlement pays out exactly the amount
/// recorded at creation — the whole custody the record held — and leaves
/// no custody behind; never more, never less, never split.
pub proof fn lemma_conservation_lock(pre: crate::phtlc::HTLC, post: crate::phtlc::HTLC, paid: u64)
    requires
        htlc_inv(pre),
        !pre.redeemed,
        !pre.unlocked,
        post.redeemed || post.unlocked,
        post.amount == pre.amount,
        paid == pre.amount,
    ensures
        paid == htlc_custody(pre),
        htlc_custody(post) == 0,
        htlc_custody(pre) - htlc_custody(post) == paid,
{
}

/// Conservation, pre-commits: a settlement (conversion or reclaim) moves
/// exactly the amount recorded at creation out of the pre-commit's
/// custody.
pub proof fn lemma_conservation_precommit(
    pre: crate::phtlc::PHTLC,
    post: crate::phtlc::PHTLC,
    paid: u64,
)
    requires
        phtlc_inv(pre),
        !pre.locked,
        !pre.uncommitted,
        post.locked || post.uncommitted,
        post.amount == pre.amount,
        paid == pre.amount,
    ensures
        paid == phtlc_custody(pre),
        phtlc_custody(post) == 0,
        phtlc_custody(pre) - phtlc_custody(post) == paid,
{
}

/// Conservation, binary-identifier records.
pub proof fn lemma_conservation_record(
    pre: crate::addlock::HTLC,
    post: crate::addlock::HTLC,
    paid: u64,
)
    requires
        record_inv(pre),
        !pre.redeemed,
        !pre.refunded,
        post.redeemed || post.refunded,
        post.amount == pre.amount,
        paid == pre.amount,
    ensures
        paid == record_custody(pre),
        record_custody(post) == 0,
        record_custody(pre) - record_custody(post) == paid,
{
}

/// A settlement attempt on a locked escrow of the string-identifier
/// machine: one of its two terminal operations, with the inputs the
/// attempt is made with.
pub enum LockOp {
    Redeem { secret: Seq<u8> },
    Unlock { caller: Seq<u8>, now: u64 },
}

/// What one attempt does to the record: the guards of the operations
/// decide, a success flips the matching terminal flag and transfers the
/// custody out, a failure leaves the record as it was.
pub open spec fn lock_op_step(h: crate::phtlc::HTLC, op: LockOp) -> (crate::phtlc::HTLC, bool) {
    match op {
        LockOp::Redeem { secret } => if crate::phtlc::redeem_guard(Some(h), secret) is Ok {
            ((crate::phtlc::HTLC { redeemed: true, ..h }), true)
        } else {
            (h, false)
        },
        LockOp::Unlock { caller, now } => if unlock_guard(Some(h), caller, now) is Ok {
            ((crate::phtlc::HTLC { unlocked: true, ..h }), true)
        } else {
            (h, false)
        },
    }
}

/// How many of the attempted settlements transfer funds out, running the
/// attempts in order.
pub open spec fn lock_payouts(h: crate::phtlc::HTLC, ops: Seq<LockOp>) -> nat
    decreases ops.len(),
{
    if ops.len() == 0 {
        0
    } else {
        let step = lock_op_step(h, ops.first());
        (if step.1 {
            1nat
        } else {
            0nat
        }) + lock_payouts(step.0, ops.drop_first())
    }
}

/// A terminal record refuses every further settlement attempt.
proof fn lemma_lock_settled_pays_nothing(h: crate::phtlc::HTLC, ops: Seq<LockOp>)
    requires
        h.redeemed || h.unlocked,
    ensures
        lock_payouts(h, ops) == 0,
    decreases ops.len(),
{
    if ops.len() > 0 {
        lemma_lock_settled_pays_nothing(h, ops.drop_first());
    }
}

/// No double payout, in full: whatever the interleaving of redeem and
/// unlock attempts against one locked escrow, with whatever secrets,
/// callers and clock readings, at most one attempt ever transfers funds
/// out.
pub proof fn lemma_no_double_payout_interleaving(h: crate::phtlc::HTLC, ops: Seq<LockOp>)
    ensures
        lock_payouts(h, ops) <= 1,
    decreases ops.len(),
{
    if ops.len() > 0 {
        let step = lock_op_step(h, ops.first());
        if step.1 {
            lemma_lock_settled_pays_nothing(step.0, ops.drop_first());
        } else {
            lemma_no_double_payout_interleaving(h, ops.drop_first());
        }
    }
}

/// A settlement attempt on a pre-commit: one of its two terminal
/// operations.
pub enum PreCommitOp {
    LockCommit { lock_exists: bool, caller: Seq<u8> },
    Uncommit { caller: Seq<u8>, now: u64 },
}

/// What one attempt does to a pre-commit: a successful conversion or
/// reclaim flips the matching terminal flag and moves the custody out, a
/// failure changes nothing.
pub open spec fn precommit_op_step(p: crate::phtlc::PHTLC, op: PreCommitOp) -> (
    crate::phtlc::PHTLC,
    bool,
) {
    match op {
        PreCommitOp::LockCommit { lock_exists, caller } => if lock_commit_guard(
            Some(p),
            lock_exists,
            caller,
        ) is Ok {
            ((crate::phtlc::PHTLC { locked: true, ..p }), true)
        } else {
            (p, false)
        },
        PreCommitOp::Uncommit { caller, now } => if uncommit_guard(Some(p), caller, now) is Ok {
            ((crate::phtlc::PHTLC { uncommitted: true, ..p }), true)
        } else {
            (p, false)
        },
    }
}

/// How many of the attempted settlements move the pre-commit's custody
/// out, running the attempts in order.
pub open spec fn precommit_payouts(p: crate::phtlc::PHTLC, ops: Seq<PreCommitOp>) -> nat
    decreases ops.len(),
{
    if ops.len() == 0 {
        0
    } else {
        let step = precommit_op_step(p, ops.first());
        (if step.1 {
            1nat
        } else {
            0nat
        }) + precommit_payouts(step.0, ops.drop_first())
    }
}

proof fn lemma_precommit_settled_pays_nothing(p: crate::phtlc::PHTLC, ops: Seq<PreCommitOp>)
    requires
        p.locked || p.uncommitted,
    ensures
        precommit_payouts(p, ops) == 0,
    decreases ops.len(),
{
    if ops.len() > 0 {
        lemma_precommit_settled_pays_nothing(p, ops.drop_first());
    }
}

/// Exactly-once settlement for pre-commits: whatever the interleaving of
/// conversion and reclaim attempts against one pre-commit, at most one
/// ever moves the custody out.
pub proof fn lemma_no_double_settlement_interleaving(
    p: crate::phtlc::PHTLC,
    ops: Seq<PreCommitOp>,
)
    ensures
        precommit_payouts(p, ops) <= 1,
    decreases ops.len(),
{
    if ops.len() > 0 {
        let step = precommit_op_step(p, ops.first());
        if step.1 {
            lemma_precommit_settled_pays_nothing(step.0, ops.drop_first());
        } else {
            lemma_no_double_settlement_interleaving(p, ops.drop_first());
        }
    }
}

/// A settlement attempt on a binary-identifier record.
pub enum RecordOp {
    Redeem { secret: Seq<u8> },
    Refund { caller: Seq<u8>, now: u64 },
}

/// What one attempt does to a binary-identifier record.
pub open spec fn record_op_step(h: crate::addlock::HTLC, op: RecordOp) -> (
    crate::addlock::HTLC,
    bool,
) {
    match op {
        RecordOp::Redeem { secret } => if crate::addlock::redeem_guard(Some(h), secret) is Ok {
            ((crate::addlock::HTLC { redeemed: true, ..h }), true)
        } else {
            (h, false)
        },
        RecordOp::Refund { caller, now } => if refund_guard(Some(h), caller, now) is Ok {
            ((crate::addlock::HTLC { refunded: true, ..h }), true)
        } else {
            (h, false)
        },
    }
}

/// How many of the attempted settlements transfer funds out, running the
/// attempts in order.
pub open spec fn record_payouts(h: crate::addlock::HTLC, ops: Seq<RecordOp>) -> nat
    decreases ops.len(),
{
    if ops.len() == 0 {
        0
    } else {
        let step = record_op_step(h, ops.first());
        (if step.1 {
            1nat
        } else {
            0nat
        }) + record_payouts(step.0, ops.drop_first())
    }
}

proof fn lemma_record_settled_pays_nothing(h: crate::addlock::HTLC, ops: Seq<RecordOp>)
    requires
        h.redeemed || h.refunded,
    ensures
        record_payouts(h, ops) == 0,
    decreases ops.len(),
{
    if ops.len() > 0 {
        lemma_record_settled_pays_nothing(h, ops.drop_first());
    }
}

/// No double payout for binary-identifier records, in full: whatever the
/// interleaving of redeem and refund attempts, at most one ever transfers
/// funds out.
pub proof fn lemma_no_double_payout_record_interleaving(
    h: crate::addlock::HTLC,
    ops: Seq<RecordOp>,
)
    ensures
        record_payouts(h, ops) <= 1,
    decreases ops.len(),
{
    if ops.len() > 0 {
        let step = record_op_step(h, ops.first());
        if step.1 {
            lemma_record_settled_pays_nothing(step.0, ops.drop_first());
        } else {
            lemma_no_double_payout_record_interleaving(h, ops.drop_first());
        }
    }
}

/// A hashlock can be supplied only while none is set: `add_lock` on a
/// record whose hashlock is set fails with `HashlockAlreadySet`, and on an
/// active sender-called record with an unset hashlock and a future
/// deadline it passes its guard.
pub proof fn lemma_add_lock_once(h: crate::addlock::HTLC, caller: Seq<u8>, timelock: u64, now: u64)
    requires
        !h.redeemed,
        !h.refunded,
        caller == h.sender@,
    ensures
        h.hashlock@ != zero32() ==> add_lock_guard(Some(h), caller, timelock, now) == Err::<
            (),
            HTLCError,
        >(HTLCError::HashlockAlreadySet),
        h.hashlock@ == zero32() && timelock > now ==> add_lock_guard(
            Some(h),
            caller,
            timelock,
            now,
        ) is Ok,
{
}

} // verus!
