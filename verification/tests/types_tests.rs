use fork_detector::types::{
    BlockID, Commit, ErrorKind, Header, SignedHeader, Status, Time, Version,
};

fn plain_header(height: u64) -> Header {
    Header {
        version: Version { block: 11, app: 0 },
        chain_id: b"types-chain".to_vec(),
        height,
        time: Time { seconds: 0, nanos: 0 },
        last_block_id: BlockID { hash: vec![], parts_header: None },
        last_commit_hash: vec![],
        data_hash: vec![],
        validators_hash: vec![],
        next_validators_hash: vec![],
        consensus_hash: vec![],
        app_hash: vec![],
        last_results_hash: vec![],
        evidence_hash: vec![],
        proposer_address: vec![],
    }
}

#[test]
fn signed_header_requires_matching_heights() {
    let commit = Commit { height: 4, block_id: BlockID { hash: vec![1], parts_header: None } };
    assert!(SignedHeader::new(plain_header(4), commit.clone()).is_some());
    assert!(SignedHeader::new(plain_header(5), commit).is_none());
}

#[test]
fn expired_predicate_holds_only_for_the_trusting_period_error() {
    assert!(ErrorKind::TrustedStateOutsideTrustingPeriod.has_expired());
    assert!(!ErrorKind::Timeout.has_expired());
    assert!(!ErrorKind::Io.has_expired());
    assert!(!ErrorKind::InsufficientVotingPower.has_expired());
    assert!(!ErrorKind::TargetLowerThanTrustedState.has_expired());
}

#[test]
fn timeout_predicate_holds_only_for_timeout() {
    assert!(ErrorKind::Timeout.is_timeout());
    assert!(!ErrorKind::Io.is_timeout());
    assert!(!ErrorKind::Rpc.is_timeout());
    assert!(!ErrorKind::TrustedStateOutsideTrustingPeriod.is_timeout());
}

#[test]
fn status_upgrades_move_forward_along_the_chain() {
    assert!(Status::Unverified.is_upgrade_to(&Status::Verified));
    assert!(Status::Verified.is_upgrade_to(&Status::Trusted));
    assert!(Status::Unverified.is_upgrade_to(&Status::Trusted));
    assert!(!Status::Verified.is_upgrade_to(&Status::Unverified));
    assert!(!Status::Trusted.is_upgrade_to(&Status::Verified));
    assert!(!Status::Trusted.is_upgrade_to(&Status::Unverified));
    assert!(!Status::Unverified.is_upgrade_to(&Status::Unverified));
    assert!(!Status::Failed.is_upgrade_to(&Status::Verified));
    assert!(!Status::Unverified.is_upgrade_to(&Status::Failed));
}
