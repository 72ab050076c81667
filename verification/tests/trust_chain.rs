use filesup_update::trust::{
    load_repository, RoleCounters, RoleKeys, RootTrust, SnapshotDoc, TargetMeta, TargetsDoc,
    TimestampDoc, TrustError, TrustRole,
};

fn key(b: &[u8]) -> Vec<u8> {
    b.to_vec()
}

fn root_one_key() -> RootTrust {
    RootTrust {
        timestamp: RoleKeys { keys: vec![key(b"ts-key")], threshold: 1 },
        snapshot: RoleKeys { keys: vec![key(b"sn-key")], threshold: 1 },
        targets: RoleKeys { keys: vec![key(b"tg-key")], threshold: 1 },
    }
}

fn fresh_counters() -> RoleCounters {
    RoleCounters { timestamp: 0, snapshot: 0, targets: 0 }
}

fn ts_doc() -> TimestampDoc {
    TimestampDoc { version: 3, expires: 1000, signers: vec![key(b"ts-key")], snapshot_version: 7 }
}

fn sn_doc() -> SnapshotDoc {
    SnapshotDoc { version: 7, expires: 1000, signers: vec![key(b"sn-key")], targets_version: 9 }
}

fn tg_doc() -> TargetsDoc {
    TargetsDoc {
        version: 9,
        expires: 1000,
        signers: vec![key(b"tg-key")],
        targets: vec![TargetMeta {
            name: "filesup/desktop-linux-x86_64/app-1.1.0.zip".to_string(),
            length: 4,
            sha256: vec![0xaa, 0xbb],
        }],
    }
}

#[test]
fn trusted_chain_yields_verified_view() {
    let repo = load_repository(&root_one_key(), &fresh_counters(), 500, ts_doc(), sn_doc(), tg_doc())
        .expect("chain should verify");
    assert_eq!(repo.targets.len(), 1);
    assert_eq!(repo.targets[0].name, "filesup/desktop-linux-x86_64/app-1.1.0.zip");
    assert_eq!(repo.counters.timestamp, 3);
    assert_eq!(repo.counters.snapshot, 7);
    assert_eq!(repo.counters.targets, 9);
}

#[test]
fn rollback_counter_is_rejected() {
    // A replayed timestamp document: its counter sits below the last trusted
    // counter for the role, with valid signatures and a future expiry.
    let last = RoleCounters { timestamp: 4, snapshot: 0, targets: 0 };
    let r = load_repository(&root_one_key(), &last, 500, ts_doc(), sn_doc(), tg_doc());
    assert_eq!(r.err(), Some(TrustError::RollbackDetected(TrustRole::Timestamp)));
}

#[test]
fn rollback_of_targets_role_is_rejected() {
    let last = RoleCounters { timestamp: 0, snapshot: 0, targets: 10 };
    let r = load_repository(&root_one_key(), &last, 500, ts_doc(), sn_doc(), tg_doc());
    assert_eq!(r.err(), Some(TrustError::RollbackDetected(TrustRole::Targets)));
}

#[test]
fn equal_counter_is_not_a_rollback() {
    let last = RoleCounters { timestamp: 3, snapshot: 7, targets: 9 };
    let r = load_repository(&root_one_key(), &last, 500, ts_doc(), sn_doc(), tg_doc());
    assert!(r.is_ok());
}

#[test]
fn expired_document_is_rejected_despite_signatures() {
    let r = load_repository(&root_one_key(), &fresh_counters(), 1000, ts_doc(), sn_doc(), tg_doc());
    assert_eq!(r.err(), Some(TrustError::ExpiredMetadata(TrustRole::Timestamp)));
}

fn root_one_key_with(snapshot_keys: Vec<Vec<u8>>, threshold: u64) -> RootTrust {
    let mut root = root_one_key();
    root.snapshot = RoleKeys { keys: snapshot_keys, threshold };
    root
}

#[test]
fn threshold_counts_distinct_authorized_signers() {
    let root = root_one_key_with(vec![key(b"sn-a"), key(b"sn-b"), key(b"sn-c")], 2);
    // One authorized signature, repeated, plus an unauthorized one: one vote.
    let mut sn = sn_doc();
    sn.signers = vec![key(b"sn-a"), key(b"sn-a"), key(b"intruder")];
    let r = load_repository(&root, &fresh_counters(), 500, ts_doc(), sn, tg_doc());
    assert_eq!(r.err(), Some(TrustError::ThresholdNotMet(TrustRole::Snapshot)));
}

#[test]
fn two_authorized_signers_meet_the_threshold() {
    let root = root_one_key_with(vec![key(b"sn-a"), key(b"sn-b"), key(b"sn-c")], 2);
    let mut sn = sn_doc();
    sn.signers = vec![key(b"sn-b"), key(b"sn-a")];
    let r = load_repository(&root, &fresh_counters(), 500, ts_doc(), sn, tg_doc());
    assert!(r.is_ok());
}

#[test]
fn snapshot_must_match_timestamp_pin() {
    let mut sn = sn_doc();
    sn.version = 8;
    let mut ts = ts_doc();
    ts.snapshot_version = 7;
    let r = load_repository(&root_one_key(), &fresh_counters(), 500, ts, sn, tg_doc());
    assert_eq!(r.err(), Some(TrustError::ChainMismatch(TrustRole::Snapshot)));
}

#[test]
fn targets_must_match_snapshot_pin() {
    let mut tg = tg_doc();
    tg.version = 11;
    let r = load_repository(&root_one_key(), &fresh_counters(), 500, ts_doc(), sn_doc(), tg);
    assert_eq!(r.err(), Some(TrustError::ChainMismatch(TrustRole::Targets)));
}
