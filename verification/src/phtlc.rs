//! The pre-hashed timelock escrow machine of the string-identifier
//! deployments.
//!
//! Two record tables make up the ledger: pre-commits (`PHTLC`), deposits
//! whose hashlock is not yet known, and locked escrows (`HTLC`), deposits
//! secured by a hashlock.  A pre-commit is resolved exactly once, either by
//! `lockCommit` (conversion into a locked escrow by the sender or the
//! designated messenger) or by `uncommit` (reclaim by the sender after the
//! timelock).  A locked escrow is resolved exactly once, either by `redeem`
//! (revealing a secret whose double SHA-256 digest, hex rendered, equals
//! the hashlock) or by `unlock` (reclaim by the sender after the timelock).
//!
//! Each operation is a single atomic step: every guard is checked before
//! any state changes, and a rejected call leaves the ledger exactly as it
//! was.

use vstd::prelude::*;

use crate::adapter::Payout;
use crate::bytes::copy_bytes;
use crate::bytes::bytes_eq;
use crate::errors::HTLCError;
use crate::hashing::double_sha_hex;
use crate::hashing::double_sha_hex_of;
use crate::table::spec_get;
use crate::table::lemma_remove_insert;
use crate::table::Table;

verus! {

/// A pre-commit escrow: a deposit committed to a route, convertible into a
/// locked escrow once a hashlock is supplied.
pub struct PHTLC {
    pub dst_address: Vec<u8>,
    pub dst_chain: Vec<u8>,
    pub dst_asset: Vec<u8>,
    pub src_asset: Vec<u8>,
    pub sender: Vec<u8>,
    pub srcReceiver: Vec<u8>,
    pub amount: u64,
    pub timelock: u64,
    pub messenger: Vec<u8>,
    pub locked: bool,
    pub uncommitted: bool,
}

/// A locked escrow: a deposit redeemable against a secret before the
/// deadline, reclaimable by the sender after it.
pub struct HTLC {
    pub dst_address: Vec<u8>,
    pub dst_chain: Vec<u8>,
    pub dst_asset: Vec<u8>,
    pub src_asset: Vec<u8>,
    pub sender: Vec<u8>,
    pub srcReceiver: Vec<u8>,
    pub hashlock: Vec<u8>,
    pub secret: Vec<u8>,
    pub amount: u64,
    pub timelock: u64,
    pub redeemed: bool,
    pub unlocked: bool,
}

/// The lock identifier a pre-commit was converted into, kept under the
/// pre-commit's identifier.
pub struct LockIdStruct {
    pub lock_id: Vec<u8>,
}

/// Emitted when a pre-commit is created.
pub struct TokenCommitted {
    pub commitId: Vec<u8>,
    pub hopChains: Vec<Vec<u8>>,
    pub hopAssets: Vec<Vec<u8>>,
    pub hopAddress: Vec<Vec<u8>>,
    pub dst_chain: Vec<u8>,
    pub dst_address: Vec<u8>,
    pub dst_asset: Vec<u8>,
    pub sender: Vec<u8>,
    pub srcReceiver: Vec<u8>,
    pub src_asset: Vec<u8>,
    pub amount: u64,
    pub timelock: u64,
    pub messenger: Vec<u8>,
}

/// Emitted when a locked escrow is created, directly or by conversion.
pub struct TokenLocked {
    pub hashlock: Vec<u8>,
    pub dst_chain: Vec<u8>,
    pub dst_address: Vec<u8>,
    pub dst_asset: Vec<u8>,
    pub sender: Vec<u8>,
    pub srcReceiver: Vec<u8>,
    pub src_asset: Vec<u8>,
    pub amount: u64,
    pub timelock: u64,
    pub messenger: Vec<u8>,
    pub commitId: Vec<u8>,
}

/// Emitted when a locked escrow is redeemed.
pub struct TokenRedeemed {
    pub lockId: Vec<u8>,
    pub redeem_address: Vec<u8>,
}

/// Emitted when a locked escrow is reclaimed by its sender.
pub struct TokenUnlocked {
    pub lockId: Vec<u8>,
}

/// Emitted when a pre-commit is reclaimed by its sender.
pub struct TokenUncommited {
    pub commitId: Vec<u8>,
}

/// A pre-commit is solvent and at most one terminal flag is set.
pub open spec fn phtlc_inv(p: PHTLC) -> bool {
    &&& p.amount > 0
    &&& !(p.locked && p.uncommitted)
}

/// A locked escrow is solvent, at most one terminal flag is set, and the
/// secret stays empty until a redeem reveals it.
pub open spec fn htlc_inv(h: HTLC) -> bool {
    &&& h.amount > 0
    &&& !(h.redeemed && h.unlocked)
    &&& !h.redeemed ==> h.secret@ == Seq::<u8>::empty()
}

/// The custody still held for a pre-commit: the full deposit while the
/// record is active, nothing once it is terminal.
pub open spec fn phtlc_custody(p: PHTLC) -> u64 {
    if p.locked || p.uncommitted {
        0
    } else {
        p.amount
    }
}

/// The custody still held for a locked escrow.
pub open spec fn htlc_custody(h: HTLC) -> u64 {
    if h.redeemed || h.unlocked {
        0
    } else {
        h.amount
    }
}

/// The guard of both creation operations: the deadline must be strictly in
/// the future, the deposit must be non-zero, and the identifier unused.
pub open spec fn new_escrow_guard(
    exists_already: bool,
    timelock: u64,
    amount: u64,
    now: u64,
) -> Result<(), HTLCError> {
    if timelock <= now {
        Err(HTLCError::NotFutureTimeLock)
    } else if amount == 0 {
        Err(HTLCError::FundsNotSent)
    } else if exists_already {
        Err(HTLCError::RecordAlreadyExists)
    } else {
        Ok(())
    }
}

/// The guard of `lockCommit`: the pre-commit must exist and be active, the
/// caller must be its sender or its messenger, and the new lock identifier
/// must be unused.
pub open spec fn lock_commit_guard(
    rec: Option<PHTLC>,
    lock_exists: bool,
    caller: Seq<u8>,
) -> Result<(), HTLCError> {
    match rec {
        Option::None => Err(HTLCError::RecordNotFound),
        Option::Some(p) => if p.uncommitted {
            Err(HTLCError::AlreadyUncommitted)
        } else if p.locked {
            Err(HTLCError::AlreadyLocked)
        } else if caller != p.sender@ && caller != p.messenger@ {
            Err(HTLCError::UnauthorizedAccess)
        } else if lock_exists {
            Err(HTLCError::RecordAlreadyExists)
        } else {
            Ok(())
        },
    }
}

/// The guard of `redeem`: the lock must exist and be active, and the
/// secret's double SHA-256 digest, hex rendered, must equal the hashlock.
pub open spec fn redeem_guard(rec: Option<HTLC>, secret: Seq<u8>) -> Result<(), HTLCError> {
    match rec {
        Option::None => Err(HTLCError::RecordNotFound),
        Option::Some(h) => if h.redeemed {
            Err(HTLCError::AlreadyRedeemed)
        } else if h.unlocked {
            Err(HTLCError::AlreadyUnlocked)
        } else if double_sha_hex_of(secret) != h.hashlock@ {
            Err(HTLCError::HashlockNoMatch)
        } else {
            Ok(())
        },
    }
}

/// The guard of `uncommit`: only the sender, only while active, and only
/// from the deadline on.
pub open spec fn uncommit_guard(rec: Option<PHTLC>, caller: Seq<u8>, now: u64) -> Result<
    (),
    HTLCError,
> {
    match rec {
        Option::None => Err(HTLCError::RecordNotFound),
        Option::Some(p) => if caller != p.sender@ {
            Err(HTLCError::NotSender)
        } else if p.uncommitted {
            Err(HTLCError::AlreadyUncommitted)
        } else if p.locked {
            Err(HTLCError::AlreadyLocked)
        } else if now < p.timelock {
            Err(HTLCError::NotPastTimeLock)
        } else {
            Ok(())
        },
    }
}

/// The guard of `unlock`: only the sender, only while active, and only
/// from the deadline on.
pub open spec fn unlock_guard(rec: Option<HTLC>, caller: Seq<u8>, now: u64) -> Result<
    (),
    HTLCError,
> {
    match rec {
        Option::None => Err(HTLCError::RecordNotFound),
        Option::Some(h) => if caller != h.sender@ {
            Err(HTLCError::NotSender)
        } else if h.unlocked {
            Err(HTLCError::AlreadyUnlocked)
        } else if h.redeemed {
            Err(HTLCError::AlreadyRedeemed)
        } else if now < h.timelock {
            Err(HTLCError::NotPastTimeLock)
        } else {
            Ok(())
        },
    }
}

/// The ledger as contracts see it: three maps keyed by identifier bytes.
#[verifier::ext_equal]
pub struct EscrowState {
    pub commits: Map<Seq<u8>, PHTLC>,
    pub locks: Map<Seq<u8>, HTLC>,
    pub lock_ids: Map<Seq<u8>, LockIdStruct>,
}

/// Every record satisfies its invariant, and the conversion mapping holds
/// an entry exactly for the pre-commits that were converted.
pub open spec fn state_inv(s: EscrowState) -> bool {
    &&& forall|k: Seq<u8>| #[trigger] s.commits.contains_key(k) ==> phtlc_inv(s.commits[k])
    &&& forall|k: Seq<u8>| #[trigger] s.locks.contains_key(k) ==> htlc_inv(s.locks[k])
    &&& forall|k: Seq<u8>| #[trigger]
        s.lock_ids.contains_key(k) ==> s.commits.contains_key(k) && s.commits[k].locked
    &&& forall|k: Seq<u8>| #[trigger]
        s.commits.contains_key(k) && s.commits[k].locked ==> s.lock_ids.contains_key(k)
}

/// The escrow ledger of a string-identifier deployment.
pub struct EscrowLedger {
    commits: Table<PHTLC>,
    locks: Table<HTLC>,
    lock_ids: Table<LockIdStruct>,
}

impl View for EscrowLedger {
    type V = EscrowState;

    closed spec fn view(&self) -> EscrowState {
        EscrowState { commits: self.commits@, locks: self.locks@, lock_ids: self.lock_ids@ }
    }
}

impl EscrowLedger {
    /// The ledger's invariant; established by `new` and preserved by every
    /// operation.
    pub closed spec fn wf(self) -> bool {
        &&& self.commits.wf()
        &&& self.locks.wf()
        &&& self.lock_ids.wf()
        &&& state_inv(self@)
    }

    /// A well-formed ledger satisfies the record invariants callers may
    /// rely on.
    pub proof fn lemma_wf_state(self)
        requires
            self.wf(),
        ensures
            state_inv(self@),
    {
    }

    /// An empty ledger.
    pub fn new() -> (r: EscrowLedger)
        ensures
            r.wf(),
            r@.commits == Map::<Seq<u8>, PHTLC>::empty(),
            r@.locks == Map::<Seq<u8>, HTLC>::empty(),
            r@.lock_ids == Map::<Seq<u8>, LockIdStruct>::empty(),
    {
        EscrowLedger { commits: Table::new(), locks: Table::new(), lock_ids: Table::new() }
    }

    /// Creates a pre-commit under `commitId`, depositing `amount` from the
    /// caller, and reports the event to emit.
    pub fn commit(
        &mut self,
        caller: &Vec<u8>,
        now: u64,
        commitId: Vec<u8>,
        hopChains: Vec<Vec<u8>>,
        hopAssets: Vec<Vec<u8>>,
        hopAddress: Vec<Vec<u8>>,
        dst_chain: Vec<u8>,
        dst_asset: Vec<u8>,
        dst_address: Vec<u8>,
        src_asset: Vec<u8>,
        srcReceiver: Vec<u8>,
        timelock: u64,
        messenger: Vec<u8>,
        amount: u64,
    ) -> (r: Result<TokenCommitted, HTLCError>)
        requires
            old(self).wf(),
        ensures
            final(self).wf(),
            (match r {
                Ok(ev) => {
                    &&& new_escrow_guard(
                        old(self)@.commits.contains_key(commitId@),
                        timelock,
                        amount,
                        now,
                    ) is Ok
                    &&& final(self)@.commits.contains_key(commitId@)
                    &&& final(self)@.commits == old(self)@.commits.insert(
                        commitId@,
                        final(self)@.commits[commitId@],
                    )
                    &&& phtlc_matches(
                        final(self)@.commits[commitId@],
                        dst_address@,
                        dst_chain@,
                        dst_asset@,
                        src_asset@,
                        caller@,
                        srcReceiver@,
                        amount,
                        timelock,
                        messenger@,
                        false,
                        false,
                    )
                    &&& final(self)@.locks == old(self)@.locks
                    &&& final(self)@.lock_ids == old(self)@.lock_ids
                    &&& ev.commitId@ == commitId@
                    &&& ev.hopChains == hopChains
                    &&& ev.hopAssets == hopAssets
                    &&& ev.hopAddress == hopAddress
                    &&& ev.dst_chain@ == dst_chain@
                    &&& ev.dst_address@ == dst_address@
                    &&& ev.dst_asset@ == dst_asset@
                    &&& ev.sender@ == caller@
                    &&& ev.srcReceiver@ == srcReceiver@
                    &&& ev.src_asset@ == src_asset@
                    &&& ev.amount == amount
                    &&& ev.timelock == timelock
                    &&& ev.messenger@ == messenger@
                },
                Err(e) => {
                    &&& Err::<(), HTLCError>(e) == new_escrow_guard(
                        old(self)@.commits.contains_key(commitId@),
                        timelock,
                        amount,
                        now,
                    )
                    &&& final(self)@ == old(self)@
                },
            }),
    {
        if timelock <= now {
            return Err(HTLCError::NotFutureTimeLock);
        }
        if amount == 0 {
            return Err(HTLCError::FundsNotSent);
        }
        if self.commits.contains(&commitId) {
            return Err(HTLCError::RecordAlreadyExists);
        }
        let ev = TokenCommitted {
            commitId: copy_bytes(&commitId),
            hopChains,
            hopAssets,
            hopAddress,
            dst_chain: copy_bytes(&dst_chain),
            dst_address: copy_bytes(&dst_address),
            dst_asset: copy_bytes(&dst_asset),
            sender: copy_bytes(caller),
            srcReceiver: copy_bytes(&srcReceiver),
            src_asset: copy_bytes(&src_asset),
            amount,
            timelock,
            messenger: copy_bytes(&messenger),
        };
        let record = PHTLC {
            dst_address,
            dst_chain,
            dst_asset,
            src_asset,
            sender: copy_bytes(caller),
            srcReceiver,
            amount,
            timelock,
            messenger,
            locked: false,
            uncommitted: false,
        };
        self.commits.insert_new(commitId, record);
        proof {
            assert(!old(self)@.lock_ids.contains_key(commitId@)) by {
                assert(old(self)@.lock_ids.contains_key(commitId@)
                    ==> old(self)@.commits.contains_key(commitId@));
            }
            lemma_inv_commits_update(old(self)@, self@, commitId@, self@.commits[commitId@]);
        }
        Ok(ev)
    }

    /// Creates a locked escrow under `lockId` with the supplied hashlock,
    /// depositing `amount` from the caller, and reports the event to emit.
    pub fn lock(
        &mut self,
        caller: &Vec<u8>,
        now: u64,
        lockId: Vec<u8>,
        hashlock: Vec<u8>,
        timelock: u64,
        dst_chain: Vec<u8>,
        dst_address: Vec<u8>,
        dst_asset: Vec<u8>,
        src_asset: Vec<u8>,
        srcReceiver: Vec<u8>,
        commitId: Vec<u8>,
        messenger: Vec<u8>,
        amount: u64,
    ) -> (r: Result<TokenLocked, HTLCError>)
        requires
            old(self).wf(),
        ensures
            final(self).wf(),
            (match r {
                Ok(ev) => {
                    &&& new_escrow_guard(
                        old(self)@.locks.contains_key(lockId@),
                        timelock,
                        amount,
                        now,
                    ) is Ok
                    &&& final(self)@.locks.contains_key(lockId@)
                    &&& final(self)@.locks == old(self)@.locks.insert(
                        lockId@,
                        final(self)@.locks[lockId@],
                    )
                    &&& htlc_matches(
                        final(self)@.locks[lockId@],
                        dst_address@,
                        dst_chain@,
                        dst_asset@,
                        src_asset@,
                        caller@,
                        srcReceiver@,
                        hashlock@,
                        Seq::<u8>::empty(),
                        amount,
                        timelock,
                        false,
                        false,
                    )
                    &&& final(self)@.commits == old(self)@.commits
                    &&& final(self)@.lock_ids == old(self)@.lock_ids
                    &&& ev.hashlock@ == hashlock@
                    &&& ev.dst_chain@ == dst_chain@
                    &&& ev.dst_address@ == dst_address@
                    &&& ev.dst_asset@ == dst_asset@
                    &&& ev.sender@ == caller@
                    &&& ev.srcReceiver@ == srcReceiver@
                    &&& ev.src_asset@ == src_asset@
                    &&& ev.amount == amount
                    &&& ev.timelock == timelock
                    &&& ev.messenger@ == messenger@
                    &&& ev.commitId@ == commitId@
                },
                Err(e) => {
                    &&& Err::<(), HTLCError>(e) == new_escrow_guard(
                        old(self)@.locks.contains_key(lockId@),
                        timelock,
                        amount,
                        now,
                    )
                    &&& final(self)@ == old(self)@
                },
            }),
    {
        if timelock <= now {
            return Err(HTLCError::NotFutureTimeLock);
        }
        if amount == 0 {
            return Err(HTLCError::FundsNotSent);
        }
        if self.locks.contains(&lockId) {
            return Err(HTLCError::RecordAlreadyExists);
        }
        let ev = TokenLocked {
            hashlock: copy_bytes(&hashlock),
            dst_chain: copy_bytes(&dst_chain),
            dst_address: copy_bytes(&dst_address),
            dst_asset: copy_bytes(&dst_asset),
            sender: copy_bytes(caller),
            srcReceiver: copy_bytes(&srcReceiver),
            src_asset: copy_bytes(&src_asset),
            amount,
            timelock,
            messenger,
            commitId,
        };
        let record = HTLC {
            dst_address,
            dst_chain,
            dst_asset,
            src_asset,
            sender: copy_bytes(caller),
            srcReceiver,
            hashlock,
            secret: Vec::new(),
            amount,
            timelock,
            redeemed: false,
            unlocked: false,
        };
        self.locks.insert_new(lockId, record);
        proof {
            lemma_inv_locks_update(old(self)@, self@, lockId@, self@.locks[lockId@]);
        }
        Ok(ev)
    }

    /// Converts an active pre-commit into a locked escrow under a fresh
    /// `lockId`, moving the whole custody across, marking the pre-commit
    /// locked and recording the conversion.  Callable by the pre-commit's
    /// sender or messenger.  A rejected call changes nothing.
    pub fn lockCommit(
        &mut self,
        caller: &Vec<u8>,
        commitId: &Vec<u8>,
        lockId: Vec<u8>,
        hashlock: Vec<u8>,
    ) -> (r: Result<TokenLocked, HTLCError>)
        requires
            old(self).wf(),
        ensures
            final(self).wf(),
            (match r {
                Ok(ev) => {
                    &&& lock_commit_guard(
                        spec_get(old(self)@.commits, commitId@),
                        old(self)@.locks.contains_key(lockId@),
                        caller@,
                    ) is Ok
                    &&& old(self)@.commits.contains_key(commitId@)
                    &&& final(self)@.commits == old(self)@.commits.insert(
                        commitId@,
                        (PHTLC { locked: true, ..old(self)@.commits[commitId@] }),
                    )
                    &&& final(self)@.locks.contains_key(lockId@)
                    &&& final(self)@.locks == old(self)@.locks.insert(
                        lockId@,
                        final(self)@.locks[lockId@],
                    )
                    &&& htlc_matches(
                        final(self)@.locks[lockId@],
                        old(self)@.commits[commitId@].dst_address@,
                        old(self)@.commits[commitId@].dst_chain@,
                        old(self)@.commits[commitId@].dst_asset@,
                        old(self)@.commits[commitId@].src_asset@,
                        old(self)@.commits[commitId@].sender@,
                        old(self)@.commits[commitId@].srcReceiver@,
                        hashlock@,
                        Seq::<u8>::empty(),
                        old(self)@.commits[commitId@].amount,
                        old(self)@.commits[commitId@].timelock,
                        false,
                        false,
                    )
                    &&& final(self)@.lock_ids.contains_key(commitId@)
                    &&& final(self)@.lock_ids == old(self)@.lock_ids.insert(
                        commitId@,
                        final(self)@.lock_ids[commitId@],
                    )
                    &&& final(self)@.lock_ids[commitId@].lock_id@ == lockId@
                    &&& ev.hashlock@ == hashlock@
                    &&& ev.dst_chain@ == old(self)@.commits[commitId@].dst_chain@
                    &&& ev.dst_address@ == old(self)@.commits[commitId@].dst_address@
                    &&& ev.dst_asset@ == old(self)@.commits[commitId@].dst_asset@
                    &&& ev.sender@ == old(self)@.commits[commitId@].sender@
                    &&& ev.srcReceiver@ == old(self)@.commits[commitId@].srcReceiver@
                    &&& ev.src_asset@ == old(self)@.commits[commitId@].src_asset@
                    &&& ev.amount == old(self)@.commits[commitId@].amount
                    &&& ev.timelock == old(self)@.commits[commitId@].timelock
                    &&& ev.messenger@ == old(self)@.commits[commitId@].messenger@
                    &&& ev.commitId@ == commitId@
                },
                Err(e) => {
                    &&& Err::<(), HTLCError>(e) == lock_commit_guard(
                        spec_get(old(self)@.commits, commitId@),
                        old(self)@.locks.contains_key(lockId@),
                        caller@,
                    )
                    &&& final(self)@ == old(self)@
                },
            }),
    {
        match self.commits.get(commitId) {
            None => {
                return Err(HTLCError::RecordNotFound);
            },
            Some(p) => {
                if p.uncommitted {
                    return Err(HTLCError::AlreadyUncommitted);
                }
                if p.locked {
                    return Err(HTLCError::AlreadyLocked);
                }
                if !bytes_eq(caller, &p.sender) && !bytes_eq(caller, &p.messenger) {
                    return Err(HTLCError::UnauthorizedAccess);
                }
            },
        }
        if self.locks.contains(&lockId) {
            return Err(HTLCError::RecordAlreadyExists);
        }
        let (key, mut p) = self.commits.remove_entry(commitId);
        let record = HTLC {
            dst_address: copy_bytes(&p.dst_address),
            dst_chain: copy_bytes(&p.dst_chain),
            dst_asset: copy_bytes(&p.dst_asset),
            src_asset: copy_bytes(&p.src_asset),
            sender: copy_bytes(&p.sender),
            srcReceiver: copy_bytes(&p.srcReceiver),
            hashlock: copy_bytes(&hashlock),
            secret: Vec::new(),
            amount: p.amount,
            timelock: p.timelock,
            redeemed: false,
            unlocked: false,
        };
        let ev = TokenLocked {
            hashlock,
            dst_chain: copy_bytes(&p.dst_chain),
            dst_address: copy_bytes(&p.dst_address),
            dst_asset: copy_bytes(&p.dst_asset),
            sender: copy_bytes(&p.sender),
            srcReceiver: copy_bytes(&p.srcReceiver),
            src_asset: copy_bytes(&p.src_asset),
            amount: p.amount,
            timelock: p.timelock,
            messenger: copy_bytes(&p.messenger),
            commitId: copy_bytes(commitId),
        };
        p.locked = true;
        proof {
            lemma_remove_insert(old(self)@.commits, commitId@, p);
        }
        self.commits.insert_new(key, p);
        proof {
            assert(phtlc_inv(old(self)@.commits[commitId@]));
            assert(!old(self)@.lock_ids.contains_key(commitId@)) by {
                assert(old(self)@.lock_ids.contains_key(commitId@)
                    ==> old(self)@.commits[commitId@].locked);
            }
        }
        self.lock_ids.insert_new(copy_bytes(commitId), (LockIdStruct { lock_id: copy_bytes(&lockId) }));
        self.locks.insert_new(lockId, record);
        proof {
            lemma_inv_lock_commit(
                old(self)@,
                self@,
                commitId@,
                lockId@,
                self@.locks[lockId@],
                self@.lock_ids[commitId@],
            );
        }
        Ok(ev)
    }

    /// Redeems an active locked escrow with a candidate secret: on a match
    /// the secret is persisted, the record becomes redeemed, and the full
    /// custody is paid to the recorded receiver.  A rejected call changes
    /// nothing.
    pub fn redeem(&mut self, caller: &Vec<u8>, lockId: &Vec<u8>, secret: Vec<u8>) -> (r: Result<
        (Payout, TokenRedeemed),
        HTLCError,
    >)
        requires
            old(self).wf(),
        ensures
            final(self).wf(),
            (match r {
                Ok(res) => {
                    &&& redeem_guard(spec_get(old(self)@.locks, lockId@), secret@) is Ok
                    &&& old(self)@.locks.contains_key(lockId@)
                    &&& final(self)@.locks == old(self)@.locks.insert(
                        lockId@,
                        (HTLC { redeemed: true, secret: secret, ..old(self)@.locks[lockId@] }),
                    )
                    &&& final(self)@.commits == old(self)@.commits
                    &&& final(self)@.lock_ids == old(self)@.lock_ids
                    &&& res.0.to@ == old(self)@.locks[lockId@].srcReceiver@
                    &&& res.0.amount == old(self)@.locks[lockId@].amount
                    &&& res.1.lockId@ == lockId@
                    &&& res.1.redeem_address@ == caller@
                },
                Err(e) => {
                    &&& Err::<(), HTLCError>(e) == redeem_guard(
                        spec_get(old(self)@.locks, lockId@),
                        secret@,
                    )
                    &&& final(self)@ == old(self)@
                },
            }),
    {
        let candidate = double_sha_hex(&secret);
        match self.locks.get(lockId) {
            None => {
                return Err(HTLCError::RecordNotFound);
            },
            Some(h) => {
                if h.redeemed {
                    return Err(HTLCError::AlreadyRedeemed);
                }
                if h.unlocked {
                    return Err(HTLCError::AlreadyUnlocked);
                }
                if !bytes_eq(&candidate, &h.hashlock) {
                    return Err(HTLCError::HashlockNoMatch);
                }
            },
        }
        let (key, mut h) = self.locks.remove_entry(lockId);
        let payout = Payout { to: copy_bytes(&h.srcReceiver), amount: h.amount };
        let ev = TokenRedeemed { lockId: copy_bytes(lockId), redeem_address: copy_bytes(caller) };
        h.secret = secret;
        h.redeemed = true;
        proof {
            lemma_remove_insert(old(self)@.locks, lockId@, h);
        }
        self.locks.insert_new(key, h);
        proof {
            assert(htlc_inv(old(self)@.locks[lockId@]));
            lemma_inv_locks_update(old(self)@, self@, lockId@, self@.locks[lockId@]);
        }
        Ok((payout, ev))
    }

    /// Reclaims an active pre-commit for its sender once the timelock has
    /// passed, paying the full custody back.  A rejected call changes
    /// nothing.
    pub fn uncommit(&mut self, caller: &Vec<u8>, now: u64, commitId: &Vec<u8>) -> (r: Result<
        (Payout, TokenUncommited),
        HTLCError,
    >)
        requires
            old(self).wf(),
        ensures
            final(self).wf(),
            (match r {
                Ok(res) => {
                    &&& uncommit_guard(spec_get(old(self)@.commits, commitId@), caller@, now) is Ok
                    &&& old(self)@.commits.contains_key(commitId@)
                    &&& final(self)@.commits == old(self)@.commits.insert(
                        commitId@,
                        (PHTLC { uncommitted: true, ..old(self)@.commits[commitId@] }),
                    )
                    &&& final(self)@.locks == old(self)@.locks
                    &&& final(self)@.lock_ids == old(self)@.lock_ids
                    &&& res.0.to@ == old(self)@.commits[commitId@].sender@
                    &&& res.0.amount == old(self)@.commits[commitId@].amount
                    &&& res.1.commitId@ == commitId@
                },
                Err(e) => {
                    &&& Err::<(), HTLCError>(e) == uncommit_guard(
                        spec_get(old(self)@.commits, commitId@),
                        caller@,
                        now,
                    )
                    &&& final(self)@ == old(self)@
                },
            }),
    {
        match self.commits.get(commitId) {
            None => {
                return Err(HTLCError::RecordNotFound);
            },
            Some(p) => {
                if !bytes_eq(caller, &p.sender) {
                    return Err(HTLCError::NotSender);
                }
                if p.uncommitted {
                    return Err(HTLCError::AlreadyUncommitted);
                }
                if p.locked {
                    return Err(HTLCError::AlreadyLocked);
                }
                if now < p.timelock {
                    return Err(HTLCError::NotPastTimeLock);
                }
            },
        }
        let (key, mut p) = self.commits.remove_entry(commitId);
        let payout = Payout { to: copy_bytes(&p.sender), amount: p.amount };
        let ev = TokenUncommited { commitId: copy_bytes(commitId) };
        p.uncommitted = true;
        proof {
            lemma_remove_insert(old(self)@.commits, commitId@, p);
        }
        self.commits.insert_new(key, p);
        proof {
            assert(phtlc_inv(old(self)@.commits[commitId@]));
            assert(!old(self)@.lock_ids.contains_key(commitId@)) by {
                assert(old(self)@.lock_ids.contains_key(commitId@)
                    ==> old(self)@.commits[commitId@].locked);
            }
            lemma_inv_commits_update(old(self)@, self@, commitId@, self@.commits[commitId@]);
        }
        Ok((payout, ev))
    }

    /// Reclaims an active locked escrow for its sender once the timelock
    /// has passed, paying the full custody back.  A rejected call changes
    /// nothing.
    pub fn unlock(&mut self, caller: &Vec<u8>, now: u64, lockId: &Vec<u8>) -> (r: Result<
        (Payout, TokenUnlocked),
        HTLCError,
    >)
        requires
            old(self).wf(),
        ensures
            final(self).wf(),
            (match r {
                Ok(res) => {
                    &&& unlock_guard(spec_get(old(self)@.locks, lockId@), caller@, now) is Ok
                    &&& old(self)@.locks.contains_key(lockId@)
                    &&& final(self)@.locks == old(self)@.locks.insert(
                        lockId@,
                        (HTLC { unlocked: true, ..old(self)@.locks[lockId@] }),
                    )
                    &&& final(self)@.commits == old(self)@.commits
                    &&& final(self)@.lock_ids == old(self)@.lock_ids
                    &&& res.0.to@ == old(self)@.locks[lockId@].sender@
                    &&& res.0.amount == old(self)@.locks[lockId@].amount
                    &&& res.1.lockId@ == lockId@
                },
                Err(e) => {
                    &&& Err::<(), HTLCError>(e) == unlock_guard(
                        spec_get(old(self)@.locks, lockId@),
                        caller@,
                        now,
                    )
                    &&& final(self)@ == old(self)@
                },
            }),
    {
        match self.locks.get(lockId) {
            None => {
                return Err(HTLCError::RecordNotFound);
            },
            Some(h) => {
                if !bytes_eq(caller, &h.sender) {
                    return Err(HTLCError::NotSender);
                }
                if h.unlocked {
                    return Err(HTLCError::AlreadyUnlocked);
                }
                if h.redeemed {
                    return Err(HTLCError::AlreadyRedeemed);
                }
                if now < h.timelock {
                    return Err(HTLCError::NotPastTimeLock);
                }
            },
        }
        let (key, mut h) = self.locks.remove_entry(lockId);
        let payout = Payout { to: copy_bytes(&h.sender), amount: h.amount };
        let ev = TokenUnlocked { lockId: copy_bytes(lockId) };
        h.unlocked = true;
        proof {
            lemma_remove_insert(old(self)@.locks, lockId@, h);
        }
        self.locks.insert_new(key, h);
        proof {
            assert(htlc_inv(old(self)@.locks[lockId@]));
            lemma_inv_locks_update(old(self)@, self@, lockId@, self@.locks[lockId@]);
        }
        Ok((payout, ev))
    }

    /// The pre-commit record under `commitId`, if any.
    pub fn getCommitDetails(&self, commitId: &Vec<u8>) -> (r: Option<&PHTLC>)
        requires
            self.wf(),
        ensures
            (match r {
                Some(p) => self@.commits.contains_key(commitId@) && *p
                    == self@.commits[commitId@],
                None => !self@.commits.contains_key(commitId@),
            }),
    {
        self.commits.get(commitId)
    }

    /// The locked escrow record under `lockId`, if any.
    pub fn getLockDetails(&self, lockId: &Vec<u8>) -> (r: Option<&HTLC>)
        requires
            self.wf(),
        ensures
            (match r {
                Some(h) => self@.locks.contains_key(lockId@) && *h == self@.locks[lockId@],
                None => !self@.locks.contains_key(lockId@),
            }),
    {
        self.locks.get(lockId)
    }

    /// The lock identifier a pre-commit was converted into, if it was.
    pub fn getLockIdByCommitId(&self, commitId: &Vec<u8>) -> (r: Option<&LockIdStruct>)
        requires
            self.wf(),
        ensures
            (match r {
                Some(l) => self@.lock_ids.contains_key(commitId@) && *l
                    == self@.lock_ids[commitId@],
                None => !self@.lock_ids.contains_key(commitId@),
            }),
    {
        self.lock_ids.get(commitId)
    }
}

/// The state invariant survives creating or updating a pre-commit that is
/// not locked, as long as no conversion entry exists under its key.
proof fn lemma_inv_commits_update(s0: EscrowState, s1: EscrowState, k: Seq<u8>, rec: PHTLC)
    requires
        state_inv(s0),
        phtlc_inv(rec),
        !rec.locked,
        !s0.lock_ids.contains_key(k),
        s1.locks == s0.locks,
        s1.lock_ids == s0.lock_ids,
        s1.commits == s0.commits.insert(k, rec),
    ensures
        state_inv(s1),
{
    assert forall|k2: Seq<u8>| #[trigger] s1.commits.contains_key(k2) implies phtlc_inv(
        s1.commits[k2],
    ) by {
        if k2 != k {
            assert(s0.commits.contains_key(k2));
        }
    }
    assert forall|k2: Seq<u8>| #[trigger]
        s1.lock_ids.contains_key(k2) implies s1.commits.contains_key(k2)
        && s1.commits[k2].locked by {
        assert(s0.lock_ids.contains_key(k2));
        assert(k2 != k);
    }
    assert forall|k2: Seq<u8>| #[trigger]
        s1.commits.contains_key(k2) && s1.commits[k2].locked implies s1.lock_ids.contains_key(
        k2,
    ) by {
        if k2 != k {
            assert(s0.commits.contains_key(k2));
        }
    }
}

/// The state invariant survives creating or updating a locked escrow.
proof fn lemma_inv_locks_update(s0: EscrowState, s1: EscrowState, k: Seq<u8>, rec: HTLC)
    requires
        state_inv(s0),
        htlc_inv(rec),
        s1.commits == s0.commits,
        s1.lock_ids == s0.lock_ids,
        s1.locks == s0.locks.insert(k, rec),
    ensures
        state_inv(s1),
{
    assert forall|k2: Seq<u8>| #[trigger] s1.locks.contains_key(k2) implies htlc_inv(
        s1.locks[k2],
    ) by {
        if k2 != k {
            assert(s0.locks.contains_key(k2));
        }
    }
}

/// The state invariant survives a conversion: the pre-commit under `ck`
/// becomes locked, the conversion entry appears under `ck`, and a fresh
/// locked escrow appears under `lk`.
proof fn lemma_inv_lock_commit(
    s0: EscrowState,
    s1: EscrowState,
    ck: Seq<u8>,
    lk: Seq<u8>,
    hrec: HTLC,
    entry: LockIdStruct,
)
    requires
        state_inv(s0),
        s0.commits.contains_key(ck),
        !s0.commits[ck].locked,
        !s0.commits[ck].uncommitted,
        htlc_inv(hrec),
        s1.commits == s0.commits.insert(ck, (PHTLC { locked: true, ..s0.commits[ck] })),
        s1.lock_ids == s0.lock_ids.insert(ck, entry),
        s1.locks == s0.locks.insert(lk, hrec),
    ensures
        state_inv(s1),
{
    assert(phtlc_inv(s0.commits[ck]));
    assert forall|k2: Seq<u8>| #[trigger] s1.commits.contains_key(k2) implies phtlc_inv(
        s1.commits[k2],
    ) by {
        if k2 != ck {
            assert(s0.commits.contains_key(k2));
        }
    }
    assert forall|k2: Seq<u8>| #[trigger] s1.locks.contains_key(k2) implies htlc_inv(
        s1.locks[k2],
    ) by {
        if k2 != lk {
            assert(s0.locks.contains_key(k2));
        }
    }
    assert forall|k2: Seq<u8>| #[trigger]
        s1.lock_ids.contains_key(k2) implies s1.commits.contains_key(k2)
        && s1.commits[k2].locked by {
        if k2 != ck {
            assert(s0.lock_ids.contains_key(k2));
        }
    }
    assert forall|k2: Seq<u8>| #[trigger]
        s1.commits.contains_key(k2) && s1.commits[k2].locked implies s1.lock_ids.contains_key(
        k2,
    ) by {
        if k2 != ck {
            assert(s0.commits.contains_key(k2));
        }
    }
}

/// Field-by-field description of a pre-commit record, at the view level.
pub open spec fn phtlc_matches(
    p: PHTLC,
    dst_address: Seq<u8>,
    dst_chain: Seq<u8>,
    dst_asset: Seq<u8>,
    src_asset: Seq<u8>,
    sender: Seq<u8>,
    src_receiver: Seq<u8>,
    amount: u64,
    timelock: u64,
    messenger: Seq<u8>,
    locked: bool,
    uncommitted: bool,
) -> bool {
    &&& p.dst_address@ == dst_address
    &&& p.dst_chain@ == dst_chain
    &&& p.dst_asset@ == dst_asset
    &&& p.src_asset@ == src_asset
    &&& p.sender@ == sender
    &&& p.srcReceiver@ == src_receiver
    &&& p.amount == amount
    &&& p.timelock == timelock
    &&& p.messenger@ == messenger
    &&& p.locked == locked
    &&& p.uncommitted == uncommitted
}

/// Field-by-field description of a locked escrow record, at the view
/// level.
pub open spec fn htlc_matches(
    h: HTLC,
    dst_address: Seq<u8>,
    dst_chain: Seq<u8>,
    dst_asset: Seq<u8>,
    src_asset: Seq<u8>,
    sender: Seq<u8>,
    src_receiver: Seq<u8>,
    hashlock: Seq<u8>,
    secret: Seq<u8>,
    amount: u64,
    timelock: u64,
    redeemed: bool,
    unlocked: bool,
) -> bool {
    &&& h.dst_address@ == dst_address
    &&& h.dst_chain@ == dst_chain
    &&& h.dst_asset@ == dst_asset
    &&& h.src_asset@ == src_asset
    &&& h.sender@ == sender
    &&& h.srcReceiver@ == src_receiver
    &&& h.hashlock@ == hashlock
    &&& h.secret@ == secret
    &&& h.amount == amount
    &&& h.timelock == timelock
    &&& h.redeemed == redeemed
    &&& h.unlocked == unlocked
}

} // verus!
