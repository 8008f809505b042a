//! The hashed timelock escrow machine of the binary-identifier
//! deployments.
//!
//! One record table holds every escrow.  `commit` deposits before the
//! hashlock is known, leaving the hashlock at the 32-byte zero sentinel;
//! the sender later supplies it with `add_lock`.  `lock` deposits with the
//! hashlock already set.  A record is settled exactly once, either by
//! `redeem` (revealing a secret whose single SHA-256 digest equals the
//! hashlock) or by `refund` (reclaim by the sender after the timelock).
//!
//! Identifiers, hashlocks and secrets are raw 32-byte values, as the
//! fixed-width record layout of these deployments requires.

use vstd::prelude::*;

use crate::adapter::Payout;
use crate::bytes::bytes_eq;
use crate::bytes::copy_bytes;
use crate::bytes::is_zero32;
use crate::bytes::make_zero32;
use crate::bytes::zero32;
use crate::errors::HTLCError;
use crate::hashing::sha256;
use crate::hashing::sha256_of;
use crate::phtlc::new_escrow_guard;
use crate::table::spec_get;
use crate::table::lemma_remove_insert;
use crate::table::Table;

verus! {

/// An escrow of the binary-identifier deployments.  The hashlock equal to
/// the zero sentinel means "not yet set".
pub struct HTLC {
    pub dst_address: Vec<u8>,
    pub dst_chain: Vec<u8>,
    pub dst_asset: Vec<u8>,
    pub src_asset: Vec<u8>,
    pub sender: Vec<u8>,
    pub src_receiver: Vec<u8>,
    pub hashlock: Vec<u8>,
    pub secret: Vec<u8>,
    pub amount: u64,
    pub timelock: u64,
    pub redeemed: bool,
    pub refunded: bool,
}

/// The record is solvent, at most one terminal flag is set, the secret
/// stays at the zero sentinel until a redeem reveals it, and the
/// fixed-width fields are 32 bytes wide.
pub open spec fn record_inv(h: HTLC) -> bool {
    &&& h.amount > 0
    &&& !(h.redeemed && h.refunded)
    &&& !h.redeemed ==> h.secret@ == zero32()
    &&& h.hashlock@.len() == 32
    &&& h.secret@.len() == 32
}

/// The custody still held for a record: the full deposit while it is
/// active, nothing once it is terminal.
pub open spec fn record_custody(h: HTLC) -> u64 {
    if h.redeemed || h.refunded {
        0
    } else {
        h.amount
    }
}

/// The guard of `add_lock`: the record must exist and be active, the
/// caller must be its sender, the hashlock must still be unset, and the
/// new deadline must be strictly in the future.
pub open spec fn add_lock_guard(
    rec: Option<HTLC>,
    caller: Seq<u8>,
    timelock: u64,
    now: u64,
) -> Result<(), HTLCError> {
    match rec {
        Option::None => Err(HTLCError::RecordNotFound),
        Option::Some(h) => if h.redeemed {
            Err(HTLCError::AlreadyRedeemed)
        } else if h.refunded {
            Err(HTLCError::AlreadyRefunded)
        } else if caller != h.sender@ {
            Err(HTLCError::UnauthorizedAccess)
        } else if h.hashlock@ != zero32() {
            Err(HTLCError::HashlockAlreadySet)
        } else if timelock <= now {
            Err(HTLCError::NotFutureTimeLock)
        } else {
            Ok(())
        },
    }
}

/// The guard of `redeem`: the record must exist and be active, the
/// hashlock must be set, and the secret's single SHA-256 digest must equal
/// it.
pub open spec fn redeem_guard(rec: Option<HTLC>, secret: Seq<u8>) -> Result<(), HTLCError> {
    match rec {
        Option::None => Err(HTLCError::RecordNotFound),
        Option::Some(h) => if h.redeemed {
            Err(HTLCError::AlreadyRedeemed)
        } else if h.refunded {
            Err(HTLCError::AlreadyRefunded)
        } else if h.hashlock@ == zero32() {
            Err(HTLCError::HashlockNotSet)
        } else if sha256_of(secret) != h.hashlock@ {
            Err(HTLCError::HashlockNoMatch)
        } else {
            Ok(())
        },
    }
}

/// The guard of `refund`: only the sender, only while active, and only
/// from the deadline on.
pub open spec fn refund_guard(rec: Option<HTLC>, caller: Seq<u8>, now: u64) -> Result<
    (),
    HTLCError,
> {
    match rec {
        Option::None => Err(HTLCError::RecordNotFound),
        Option::Some(h) => if caller != h.sender@ {
            Err(HTLCError::NotSender)
        } else if h.refunded {
            Err(HTLCError::AlreadyRefunded)
        } else if h.redeemed {
            Err(HTLCError::AlreadyRedeemed)
        } else if now < h.timelock {
            Err(HTLCError::NotPastTimeLock)
        } else {
            Ok(())
        },
    }
}

/// Every stored record satisfies its invariant.
pub open spec fn records_inv(s: Map<Seq<u8>, HTLC>) -> bool {
    forall|k: Seq<u8>| #[trigger] s.contains_key(k) ==> record_inv(s[k])
}

proof fn lemma_inv_update(s0: Map<Seq<u8>, HTLC>, s1: Map<Seq<u8>, HTLC>, k: Seq<u8>, rec: HTLC)
    requires
        records_inv(s0),
        record_inv(rec),
        s1 == s0.insert(k, rec),
    ensures
        records_inv(s1),
{
    assert forall|k2: Seq<u8>| #[trigger] s1.contains_key(k2) implies record_inv(s1[k2]) by {
        if k2 != k {
            assert(s0.contains_key(k2));
        }
    }
}

/// The escrow ledger of a binary-identifier deployment.
pub struct HtlcLedger {
    records: Table<HTLC>,
}

impl View for HtlcLedger {
    type V = Map<Seq<u8>, HTLC>;

    closed spec fn view(&self) -> Map<Seq<u8>, HTLC> {
        self.records@
    }
}

impl HtlcLedger {
    /// The ledger's invariant; established by `new` and preserved by every
    /// operation.
    pub closed spec fn wf(self) -> bool {
        &&& self.records.wf()
        &&& records_inv(self@)
    }

    /// A well-formed ledger satisfies the record invariants callers may
    /// rely on.
    pub proof fn lemma_wf_state(self)
        requires
            self.wf(),
        ensures
            records_inv(self@),
    {
    }

    /// An empty ledger.
    pub fn new() -> (r: HtlcLedger)
        ensures
            r.wf(),
            r@ == Map::<Seq<u8>, HTLC>::empty(),
    {
        HtlcLedger { records: Table::new() }
    }

    /// Creates an escrow under `Id` with the hashlock still unset,
    /// depositing `amount` from the caller, and returns the identifier.
    #[allow(unused_variables)]
    pub fn commit(
        &mut self,
        caller: &Vec<u8>,
        now: u64,
        Id: Vec<u8>,
        hopChains: Vec<Vec<u8>>,
        hopAssets: Vec<Vec<u8>>,
        hopAddresses: Vec<Vec<u8>>,
        dst_chain: Vec<u8>,
        dst_asset: Vec<u8>,
        dst_address: Vec<u8>,
        src_asset: Vec<u8>,
        src_receiver: Vec<u8>,
        timelock: u64,
        amount: u64,
    ) -> (r: Result<Vec<u8>, HTLCError>)
        requires
            old(self).wf(),
            Id@.len() == 32,
        ensures
            final(self).wf(),
            (match r {
                Ok(ret) => {
                    &&& new_escrow_guard(old(self)@.contains_key(Id@), timelock, amount, now)
                        is Ok
                    &&& final(self)@.contains_key(Id@)
                    &&& final(self)@ == old(self)@.insert(Id@, final(self)@[Id@])
                    &&& record_matches(
                        final(self)@[Id@],
                        dst_address@,
                        dst_chain@,
                        dst_asset@,
                        src_asset@,
                        caller@,
                        src_receiver@,
                        zero32(),
                        zero32(),
                        amount,
                        timelock,
                        false,
                        false,
                    )
                    &&& ret@ == Id@
                },
                Err(e) => {
                    &&& Err::<(), HTLCError>(e) == new_escrow_guard(
                        old(self)@.contains_key(Id@),
                        timelock,
                        amount,
                        now,
                    )
                    &&& final(self)@ == old(self)@
                },
            }),
    {
        if timelock <= now {
            return Err(HTLCError::NotFutureTimeLock);
        }
        if amount == 0 {
            return Err(HTLCError::FundsNotSent);
        }
        if self.records.contains(&Id) {
            return Err(HTLCError::RecordAlreadyExists);
        }
        let ret = copy_bytes(&Id);
        let record = HTLC {
            dst_address,
            dst_chain,
            dst_asset,
            src_asset,
            sender: copy_bytes(caller),
            src_receiver,
            hashlock: make_zero32(),
            secret: make_zero32(),
            amount,
            timelock,
            redeemed: false,
            refunded: false,
        };
        self.records.insert_new(Id, record);
        proof {
            lemma_inv_update(old(self)@, self@, ret@, self@[ret@]);
        }
        Ok(ret)
    }

    /// Creates an escrow under `Id` with the supplied hashlock, depositing
    /// `amount` from the caller, and returns the identifier.
    pub fn lock(
        &mut self,
        caller: &Vec<u8>,
        now: u64,
        Id: Vec<u8>,
        hashlock: Vec<u8>,
        timelock: u64,
        amount: u64,
        dst_chain: Vec<u8>,
        dst_address: Vec<u8>,
        dst_asset: Vec<u8>,
        src_asset: Vec<u8>,
        src_receiver: Vec<u8>,
    ) -> (r: Result<Vec<u8>, HTLCError>)
        requires
            old(self).wf(),
            Id@.len() == 32,
            hashlock@.len() == 32,
        ensures
            final(self).wf(),
            (match r {
                Ok(ret) => {
                    &&& new_escrow_guard(old(self)@.contains_key(Id@), timelock, amount, now)
                        is Ok
                    &&& final(self)@.contains_key(Id@)
                    &&& final(self)@ == old(self)@.insert(Id@, final(self)@[Id@])
                    &&& record_matches(
                        final(self)@[Id@],
                        dst_address@,
                        dst_chain@,
                        dst_asset@,
                        src_asset@,
                        caller@,
                        src_receiver@,
                        hashlock@,
                        zero32(),
                        amount,
                        timelock,
                        false,
                        false,
                    )
                    &&& ret@ == Id@
                },
                Err(e) => {
                    &&& Err::<(), HTLCError>(e) == new_escrow_guard(
                        old(self)@.contains_key(Id@),
                        timelock,
                        amount,
                        now,
                    )
                    &&& final(self)@ == old(self)@
                },
            }),
    {
        if timelock <= now {
            return Err(HTLCError::NotFutureTimeLock);
        }
        if amount == 0 {
            return Err(HTLCError::FundsNotSent);
        }
        if self.records.contains(&Id) {
            return Err(HTLCError::RecordAlreadyExists);
        }
        let ret = copy_bytes(&Id);
        let record = HTLC {
            dst_address,
            dst_chain,
            dst_asset,
            src_asset,
            sender: copy_bytes(caller),
            src_receiver,
            hashlock,
            secret: make_zero32(),
            amount,
            timelock,
            redeemed: false,
            refunded: false,
        };
        self.records.insert_new(Id, record);
        proof {
            lemma_inv_update(old(self)@, self@, ret@, self@[ret@]);
        }
        Ok(ret)
    }

    /// Supplies the hashlock (and a fresh future deadline) for an active
    /// escrow whose hashlock is still unset.  Only the sender may do so,
    /// and only once.  A rejected call changes nothing.
    pub fn add_lock(
        &mut self,
        caller: &Vec<u8>,
        now: u64,
        Id: &Vec<u8>,
        hashlock: Vec<u8>,
        timelock: u64,
    ) -> (r: Result<Vec<u8>, HTLCError>)
        requires
            old(self).wf(),
            hashlock@.len() == 32,
        ensures
            final(self).wf(),
            (match r {
                Ok(ret) => {
                    &&& add_lock_guard(spec_get(old(self)@, Id@), caller@, timelock, now) is Ok
                    &&& old(self)@.contains_key(Id@)
                    &&& final(self)@ == old(self)@.insert(
                        Id@,
                        (HTLC { hashlock: hashlock, timelock: timelock, ..old(self)@[Id@] }),
                    )
                    &&& ret@ == Id@
                },
                Err(e) => {
                    &&& Err::<(), HTLCError>(e) == add_lock_guard(
                        spec_get(old(self)@, Id@),
                        caller@,
                        timelock,
                        now,
                    )
                    &&& final(self)@ == old(self)@
                },
            }),
    {
        match self.records.get(Id) {
            None => {
                return Err(HTLCError::RecordNotFound);
            },
            Some(h) => {
                if h.redeemed {
                    return Err(HTLCError::AlreadyRedeemed);
                }
                if h.refunded {
                    return Err(HTLCError::AlreadyRefunded);
                }
                if !bytes_eq(caller, &h.sender) {
                    return Err(HTLCError::UnauthorizedAccess);
                }
                if !is_zero32(&h.hashlock) {
                    return Err(HTLCError::HashlockAlreadySet);
                }
                if timelock <= now {
                    return Err(HTLCError::NotFutureTimeLock);
                }
            },
        }
        let (key, mut h) = self.records.remove_entry(Id);
        h.hashlock = hashlock;
        h.timelock = timelock;
        proof {
            assert(record_inv(old(self)@[Id@]));
            lemma_remove_insert(old(self)@, Id@, h);
        }
        self.records.insert_new(key, h);
        proof {
            lemma_inv_update(old(self)@, self@, Id@, self@[Id@]);
        }
        Ok(copy_bytes(Id))
    }

    /// Redeems an active escrow with a candidate secret: on a match the
    /// secret is persisted, the record becomes redeemed, and the full
    /// custody is paid to the recorded receiver.  A rejected call changes
    /// nothing.
    pub fn redeem(&mut self, Id: &Vec<u8>, secret: Vec<u8>) -> (r: Result<Payout, HTLCError>)
        requires
            old(self).wf(),
            secret@.len() == 32,
        ensures
            final(self).wf(),
            (match r {
                Ok(payout) => {
                    &&& redeem_guard(spec_get(old(self)@, Id@), secret@) is Ok
                    &&& old(self)@.contains_key(Id@)
                    &&& final(self)@ == old(self)@.insert(
                        Id@,
                        (HTLC { redeemed: true, secret: secret, ..old(self)@[Id@] }),
                    )
                    &&& payout.to@ == old(self)@[Id@].src_receiver@
                    &&& payout.amount == old(self)@[Id@].amount
                },
                Err(e) => {
                    &&& Err::<(), HTLCError>(e) == redeem_guard(
                        spec_get(old(self)@, Id@),
                        secret@,
                    )
                    &&& final(self)@ == old(self)@
                },
            }),
    {
        let candidate = sha256(&secret);
        match self.records.get(Id) {
            None => {
                return Err(HTLCError::RecordNotFound);
            },
            Some(h) => {
                if h.redeemed {
                    return Err(HTLCError::AlreadyRedeemed);
                }
                if h.refunded {
                    return Err(HTLCError::AlreadyRefunded);
                }
                if is_zero32(&h.hashlock) {
                    return Err(HTLCError::HashlockNotSet);
                }
                if !bytes_eq(&candidate, &h.hashlock) {
                    return Err(HTLCError::HashlockNoMatch);
                }
            },
        }
        let (key, mut h) = self.records.remove_entry(Id);
        let payout = Payout { to: copy_bytes(&h.src_receiver), amount: h.amount };
        h.secret = secret;
        h.redeemed = true;
        proof {
            assert(record_inv(old(self)@[Id@]));
            lemma_remove_insert(old(self)@, Id@, h);
        }
        self.records.insert_new(key, h);
        proof {
            lemma_inv_update(old(self)@, self@, Id@, self@[Id@]);
        }
        Ok(payout)
    }

    /// Reclaims an active escrow for its sender once the timelock has
    /// passed, paying the full custody back.  A rejected call changes
    /// nothing.
    pub fn refund(&mut self, caller: &Vec<u8>, now: u64, Id: &Vec<u8>) -> (r: Result<
        Payout,
        HTLCError,
    >)
        requires
            old(self).wf(),
        ensures
            final(self).wf(),
            (match r {
                Ok(payout) => {
                    &&& refund_guard(spec_get(old(self)@, Id@), caller@, now) is Ok
                    &&& old(self)@.contains_key(Id@)
                    &&& final(self)@ == old(self)@.insert(
                        Id@,
                        (HTLC { refunded: true, ..old(self)@[Id@] }),
                    )
                    &&& payout.to@ == old(self)@[Id@].sender@
                    &&& payout.amount == old(self)@[Id@].amount
                },
                Err(e) => {
                    &&& Err::<(), HTLCError>(e) == refund_guard(
                        spec_get(old(self)@, Id@),
                        caller@,
                        now,
                    )
                    &&& final(self)@ == old(self)@
                },
            }),
    {
        match self.records.get(Id) {
            None => {
                return Err(HTLCError::RecordNotFound);
            },
            Some(h) => {
                if !bytes_eq(caller, &h.sender) {
                    return Err(HTLCError::NotSender);
                }
                if h.refunded {
                    return Err(HTLCError::AlreadyRefunded);
                }
                if h.redeemed {
                    return Err(HTLCError::AlreadyRedeemed);
                }
                if now < h.timelock {
                    return Err(HTLCError::NotPastTimeLock);
                }
            },
        }
        let (key, mut h) = self.records.remove_entry(Id);
        let payout = Payout { to: copy_bytes(&h.sender), amount: h.amount };
        h.refunded = true;
        proof {
            assert(record_inv(old(self)@[Id@]));
            lemma_remove_insert(old(self)@, Id@, h);
        }
        self.records.insert_new(key, h);
        proof {
            lemma_inv_update(old(self)@, self@, Id@, self@[Id@]);
        }
        Ok(payout)
    }

    /// The record under `Id`, if any.
    pub fn getDetails(&self, Id: &Vec<u8>) -> (r: Option<&HTLC>)
        requires
            self.wf(),
        ensures
            (match r {
                Some(h) => self@.contains_key(Id@) && *h == self@[Id@],
                None => !self@.contains_key(Id@),
            }),
    {
        self.records.get(Id)
    }
}

/// Field-by-field description of a record, at the view level.
pub open spec fn record_matches(
    h: HTLC,
    dst_address: Seq<u8>,
    dst_chain: Seq<u8>,
    dst_asset: Seq<u8>,
    src_asset: Seq<u8>,
    sender: Seq<u8>,
    src_receiver: Seq<u8>,
    hashlock: Seq<u8>,
    secret: Seq<u8>,
    amount: u64,
    timelock: u64,
    redeemed: bool,
    refunded: bool,
) -> bool {
    &&& h.dst_address@ == dst_address
    &&& h.dst_chain@ == dst_chain
    &&& h.dst_asset@ == dst_asset
    &&& h.src_asset@ == src_asset
    &&& h.sender@ == sender
    &&& h.src_receiver@ == src_receiver
    &&& h.hashlock@ == hashlock
    &&& h.secret@ == secret
    &&& h.amount == amount
    &&& h.timelock == timelock
    &&& h.redeemed == redeemed
    &&& h.refunded == refunded
}

} // verus!
