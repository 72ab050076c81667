//! Metadata trust chain: a locally-pinned root of trust declares, for each
//! metadata role, the authorized signing keys and a signature threshold. A
//! repository becomes trusted only when its timestamp, snapshot and targets
//! documents each meet their role's threshold, are unexpired, carry a version
//! counter no lower than the last trusted counter for that role (rollback
//! protection), and are pinned to one another in order: the timestamp pins
//! the snapshot's counter, the snapshot pins the targets' counter.
//!
//! Signature checking itself is the caller's cryptography: a document's
//! `signers` lists the key identifiers whose signatures over that document
//! the caller has already checked. This module decides what those checked
//! signatures are worth.

use vstd::prelude::*;

verus! {

/// Authorized key identifiers and the signature threshold of one role.
pub struct RoleKeys {
    pub keys: Vec<Vec<u8>>,
    pub threshold: u64,
}

impl RoleKeys {
    /// A role declaration is a set of distinct keys and a positive threshold.
    pub open spec fn wf(&self) -> bool {
        &&& self.threshold >= 1
        &&& forall|i: int, j: int|
            0 <= i < j < self.keys.deep_view().len() ==> self.keys.deep_view()[i]
                != self.keys.deep_view()[j]
    }
}

/// The pinned root of trust: one role declaration per metadata role.
pub struct RootTrust {
    pub timestamp: RoleKeys,
    pub snapshot: RoleKeys,
    pub targets: RoleKeys,
}

impl RootTrust {
    pub open spec fn wf(&self) -> bool {
        self.timestamp.wf() && self.snapshot.wf() && self.targets.wf()
    }
}

/// The last trusted version counter of each role, from the local metadata
/// cache; zero when a role has never been trusted.
pub struct RoleCounters {
    pub timestamp: u64,
    pub snapshot: u64,
    pub targets: u64,
}

/// A fetched timestamp document: its own counter and expiry, the key
/// identifiers whose signatures over it were checked, and the snapshot
/// counter it pins.
pub struct TimestampDoc {
    pub version: u64,
    pub expires: u64,
    pub signers: Vec<Vec<u8>>,
    pub snapshot_version: u64,
}

/// A fetched snapshot document, pinning the targets counter.
pub struct SnapshotDoc {
    pub version: u64,
    pub expires: u64,
    pub signers: Vec<Vec<u8>>,
    pub targets_version: u64,
}

/// One available target: its name and the length and content-hash
/// commitments recorded for it in the verified targets document.
pub struct TargetMeta {
    pub name: String,
    pub length: u64,
    pub sha256: Vec<u8>,
}

/// A fetched targets document.
pub struct TargetsDoc {
    pub version: u64,
    pub expires: u64,
    pub signers: Vec<Vec<u8>>,
    pub targets: Vec<TargetMeta>,
}

#[derive(Debug, Clone, PartialEq, Eq)]
pub enum TrustRole {
    Timestamp,
    Snapshot,
    Targets,
}

/// Why a metadata chain was rejected, and at which role.
#[derive(Debug, Clone, PartialEq, Eq)]
pub enum TrustError {
    /// Too few authorized keys signed the document.
    ThresholdNotMet(TrustRole),
    /// The document's expiration timestamp is not in the future.
    ExpiredMetadata(TrustRole),
    /// The document's version counter is below the last trusted counter.
    RollbackDetected(TrustRole),
    /// The document's counter differs from the one its parent pinned.
    ChainMismatch(TrustRole),
}

/// A verified view of the repository: the targets the trusted chain lists,
/// and the counters to record as last trusted.
pub struct Repository {
    pub targets: Vec<TargetMeta>,
    pub counters: RoleCounters,
}

/// How many authorized keys appear among the checked signers. Counting runs
/// over the (distinct) authorized keys, so repeated signatures by one key
/// count once.
pub open spec fn authorized_count(keys: Seq<Seq<u8>>, signers: Seq<Seq<u8>>) -> nat
    decreases keys.len(),
{
    if keys.len() == 0 {
        0
    } else {
        authorized_count(keys.drop_last(), signers) + if signers.contains(keys.last()) {
            1nat
        } else {
            0nat
        }
    }
}

pub open spec fn threshold_met(role: RoleKeys, signers: Seq<Seq<u8>>) -> bool {
    authorized_count(role.keys.deep_view(), signers) >= role.threshold
}

/// The first reason to reject one document, if any: threshold, then expiry,
/// then rollback.
pub open spec fn doc_fail(
    role: RoleKeys,
    signers: Seq<Seq<u8>>,
    version: u64,
    expires: u64,
    now: u64,
    last: u64,
    which: TrustRole,
) -> Option<TrustError> {
    if !threshold_met(role, signers) {
        Some(TrustError::ThresholdNotMet(which))
    } else if expires <= now {
        Some(TrustError::ExpiredMetadata(which))
    } else if version < last {
        Some(TrustError::RollbackDetected(which))
    } else {
        None
    }
}

/// The first reason to reject the whole chain, if any: the timestamp
/// document, then the snapshot document and its pin, then the targets
/// document and its pin.
pub open spec fn chain_fail(
    root: RootTrust,
    last: RoleCounters,
    now: u64,
    ts: TimestampDoc,
    sn: SnapshotDoc,
    tg: TargetsDoc,
) -> Option<TrustError> {
    let ts_fail = doc_fail(
        root.timestamp,
        ts.signers.deep_view(),
        ts.version,
        ts.expires,
        now,
        last.timestamp,
        TrustRole::Timestamp,
    );
    let sn_fail = doc_fail(
        root.snapshot,
        sn.signers.deep_view(),
        sn.version,
        sn.expires,
        now,
        last.snapshot,
        TrustRole::Snapshot,
    );
    let tg_fail = doc_fail(
        root.targets,
        tg.signers.deep_view(),
        tg.version,
        tg.expires,
        now,
        last.targets,
        TrustRole::Targets,
    );
    if ts_fail is Some {
        ts_fail
    } else if sn_fail is Some {
        sn_fail
    } else if sn.version != ts.snapshot_version {
        Some(TrustError::ChainMismatch(TrustRole::Snapshot))
    } else if tg_fail is Some {
        tg_fail
    } else if tg.version != sn.targets_version {
        Some(TrustError::ChainMismatch(TrustRole::Targets))
    } else {
        None
    }
}

/// Whether two byte strings are equal.
fn bytes_eq(a: &[u8], b: &[u8]) -> (r: bool)
    ensures
        r == (a@ == b@),
{
    if a.len() != b.len() {
        proof {
            assert(a@ != b@);
        }
        return false;
    }
    let mut i: usize = 0;
    while i < a.len()
        invariant
            i <= a@.len(),
            a@.len() == b@.len(),
            forall|j: int| 0 <= j < i ==> a@[j] == b@[j],
        decreases a@.len() - i,
    {
        if a[i] != b[i] {
            proof {
                assert(a@ != b@);
            }
            return false;
        }
        i = i + 1;
    }
    proof {
        assert(a@ =~= b@);
    }
    true
}

/// Whether a key identifier appears among the checked signers.
fn has_key(signers: &Vec<Vec<u8>>, key: &Vec<u8>) -> (r: bool)
    ensures
        r == signers.deep_view().contains(key@),
{
    let ghost sv = signers.deep_view();
    proof {
        assert(sv.len() == signers@.len());
    }
    let mut i: usize = 0;
    while i < signers.len()
        invariant
            i <= sv.len(),
            sv == signers.deep_view(),
            sv.len() == signers@.len(),
            forall|j: int| 0 <= j < i ==> sv[j] != key@,
        decreases sv.len() - i,
    {
        proof {
            assert(sv[i as int] == signers@[i as int]@);
        }
        if bytes_eq(signers[i].as_slice(), key.as_slice()) {
            return true;
        }
        i = i + 1;
    }
    proof {
        if sv.contains(key@) {
            let j = choose|j: int| 0 <= j < sv.len() && sv[j] == key@;
            assert(sv[j] != key@);
        }
    }
    false
}

/// Count the authorized keys that signed.
fn count_authorized(role_keys: &Vec<Vec<u8>>, signers: &Vec<Vec<u8>>) -> (r: usize)
    ensures
        r as nat == authorized_count(role_keys.deep_view(), signers.deep_view()),
{
    let ghost kv = role_keys.deep_view();
    proof {
        assert(kv.len() == role_keys@.len());
        assert(kv.take(0) =~= Seq::<Seq<u8>>::empty());
    }
    let mut count: usize = 0;
    let mut i: usize = 0;
    while i < role_keys.len()
        invariant
            i <= kv.len(),
            kv == role_keys.deep_view(),
            kv.len() == role_keys@.len(),
            count <= i,
            count as nat == authorized_count(kv.take(i as int), signers.deep_view()),
        decreases kv.len() - i,
    {
        proof {
            assert(kv[i as int] == role_keys@[i as int]@);
            assert(kv.take(i + 1).drop_last() =~= kv.take(i as int));
            assert(kv.take(i + 1).last() == kv[i as int]);
        }
        if has_key(signers, &role_keys[i]) {
            count = count + 1;
        }
        i = i + 1;
    }
    proof {
        assert(kv.take(kv.len() as int) =~= kv);
    }
    count
}

/// Whether one document meets its role's threshold.
fn check_threshold(role: &RoleKeys, signers: &Vec<Vec<u8>>) -> (r: bool)
    ensures
        r == threshold_met(*role, signers.deep_view()),
{
    let count = count_authorized(&role.keys, signers);
    count as u64 >= role.threshold
}

/// Verify a fetched metadata chain against the pinned root of trust, the
/// last trusted counters, and the current time (seconds). Returns the
/// verified view of the repository exactly when every document meets its
/// threshold, is unexpired, does not roll a counter back, and matches the
/// counter its parent pinned; otherwise reports the first failure.
pub fn load_repository(
    root: &RootTrust,
    last: &RoleCounters,
    now: u64,
    ts: TimestampDoc,
    sn: SnapshotDoc,
    tg: TargetsDoc,
) -> (r: Result<Repository, TrustError>)
    requires
        root.wf(),
    ensures
        match r {
            Ok(repo) => {
                &&& chain_fail(*root, *last, now, ts, sn, tg) is None
                &&& repo.targets == tg.targets
                &&& repo.counters.timestamp == ts.version
                &&& repo.counters.snapshot == sn.version
                &&& repo.counters.targets == tg.version
            },
            Err(e) => chain_fail(*root, *last, now, ts, sn, tg) == Some(e),
        },
{
    if !check_threshold(&root.timestamp, &ts.signers) {
        return Err(TrustError::ThresholdNotMet(TrustRole::Timestamp));
    }
    if ts.expires <= now {
        return Err(TrustError::ExpiredMetadata(TrustRole::Timestamp));
    }
    if ts.version < last.timestamp {
        return Err(TrustError::RollbackDetected(TrustRole::Timestamp));
    }
    if !check_threshold(&root.snapshot, &sn.signers) {
        return Err(TrustError::ThresholdNotMet(TrustRole::Snapshot));
    }
    if sn.expires <= now {
        return Err(TrustError::ExpiredMetadata(TrustRole::Snapshot));
    }
    if sn.version < last.snapshot {
        return Err(TrustError::RollbackDetected(TrustRole::Snapshot));
    }
    if sn.version != ts.snapshot_version {
        return Err(TrustError::ChainMismatch(TrustRole::Snapshot));
    }
    if !check_threshold(&root.targets, &tg.signers) {
        return Err(TrustError::ThresholdNotMet(TrustRole::Targets));
    }
    if tg.expires <= now {
        return Err(TrustError::ExpiredMetadata(TrustRole::Targets));
    }
    if tg.version < last.targets {
        return Err(TrustError::RollbackDetected(TrustRole::Targets));
    }
    if tg.version != sn.targets_version {
        return Err(TrustError::ChainMismatch(TrustRole::Targets));
    }
    let counters = RoleCounters { timestamp: ts.version, snapshot: sn.version, targets: tg.version };
    Ok(Repository { targets: tg.targets, counters })
}

/// A document whose version counter is lower than the last trusted counter
/// for its role is rejected, whatever it carries otherwise: a lower counter
/// on any role makes the whole chain fail, so no repository view is ever
/// returned over it. Moreover the failure is reported as a rollback for each
/// role whose document passes its threshold and expiry checks — an earlier
/// failure in the chain is reported first, but rejection stands either way.
pub proof fn lemma_rollback_rejected(
    root: RootTrust,
    last: RoleCounters,
    now: u64,
    ts: TimestampDoc,
    sn: SnapshotDoc,
    tg: TargetsDoc,
)
    ensures
        ts.version < last.timestamp || sn.version < last.snapshot || tg.version < last.targets
            ==> chain_fail(root, last, now, ts, sn, tg) is Some,
        threshold_met(root.timestamp, ts.signers.deep_view()) && ts.expires > now && ts.version
            < last.timestamp ==> chain_fail(root, last, now, ts, sn, tg) == Some(
            TrustError::RollbackDetected(TrustRole::Timestamp),
        ),
        doc_fail(
            root.timestamp,
            ts.signers.deep_view(),
            ts.version,
            ts.expires,
            now,
            last.timestamp,
            TrustRole::Timestamp,
        ) is None && threshold_met(root.snapshot, sn.signers.deep_view()) && sn.expires > now
            && sn.version < last.snapshot ==> chain_fail(root, last, now, ts, sn, tg) == Some(
            TrustError::RollbackDetected(TrustRole::Snapshot),
        ),
        doc_fail(
            root.timestamp,
            ts.signers.deep_view(),
            ts.version,
            ts.expires,
            now,
            last.timestamp,
            TrustRole::Timestamp,
        ) is None && doc_fail(
            root.snapshot,
            sn.signers.deep_view(),
            sn.version,
            sn.expires,
            now,
            last.snapshot,
            TrustRole::Snapshot,
        ) is None && sn.version == ts.snapshot_version && threshold_met(
            root.targets,
            tg.signers.deep_view(),
        ) && tg.expires > now && tg.version < last.targets ==> chain_fail(
            root,
            last,
            now,
            ts,
            sn,
            tg,
        ) == Some(TrustError::RollbackDetected(TrustRole::Targets)),
{
}

} // verus!
