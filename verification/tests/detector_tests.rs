use fork_detector::detector::{
    classify, prepare_verification_store, DetectorError, Fork, ForkDetection, ForkDetector,
    ProdForkDetector, WitnessResponse,
};
use fork_detector::hasher::{Hasher, ProdHasher};
use fork_detector::types::{
    BlockID, Commit, ErrorKind, Header, LightBlock, PartsSetHeader, PeerId, SignedHeader, Status,
    Time, Validator, ValidatorSet, Version,
};

fn make_header(height: u64, data_tag: u8) -> Header {
    Header {
        version: Version { block: 11, app: 1 },
        chain_id: b"test-chain".to_vec(),
        height,
        time: Time { seconds: 1_600_000_000, nanos: 42 },
        last_block_id: BlockID {
            hash: vec![0xAA; 32],
            parts_header: Some(PartsSetHeader { total: 1, hash: vec![0xBB; 32] }),
        },
        last_commit_hash: vec![1; 32],
        data_hash: vec![data_tag; 32],
        validators_hash: vec![2; 32],
        next_validators_hash: vec![3; 32],
        consensus_hash: vec![4; 32],
        app_hash: vec![],
        last_results_hash: vec![],
        evidence_hash: vec![],
        proposer_address: vec![5; 20],
    }
}

fn make_block(height: u64, data_tag: u8, provider: u64) -> LightBlock {
    let header = make_header(height, data_tag);
    let vals = ValidatorSet::new(vec![Validator { address: vec![9; 20], power: 10 }]).unwrap();
    let next_vals = ValidatorSet::new(vec![Validator { address: vec![9; 20], power: 10 }]).unwrap();
    LightBlock {
        signed_header: SignedHeader {
            header,
            commit: Commit {
                height,
                block_id: BlockID { hash: vec![data_tag; 32], parts_header: None },
            },
        },
        validators: vals,
        next_validators: next_vals,
        provider: PeerId { value: provider },
    }
}

fn ok_response(id: u64, block: LightBlock) -> WitnessResponse {
    WitnessResponse { witness_id: PeerId { value: id }, fetch: Ok(block), verify: Ok(()) }
}

#[test]
fn clean_pass_detects_nothing() {
    let detector = ProdForkDetector::new(ProdHasher);
    let verified = make_block(10, 1, 0);
    let trusted = make_block(1, 7, 0);
    let witnesses = vec![
        ok_response(1, make_block(10, 1, 1)),
        ok_response(2, make_block(10, 1, 2)),
    ];
    let r = detector.detect_forks(&verified, &trusted, &witnesses);
    assert_eq!(r, Ok(ForkDetection::NotDetected));
}

#[test]
fn genuine_fork_is_reported() {
    let detector = ProdForkDetector::new(ProdHasher);
    let verified = make_block(10, 1, 0);
    let trusted = make_block(1, 7, 0);
    let witness_block = make_block(10, 2, 1);
    let witnesses = vec![WitnessResponse {
        witness_id: PeerId { value: 1 },
        fetch: Ok(witness_block.clone()),
        verify: Ok(()),
    }];
    let r = detector.detect_forks(&verified, &trusted, &witnesses);
    assert_eq!(
        r,
        Ok(ForkDetection::Detected(vec![Fork::Forked {
            primary: make_block(10, 1, 0),
            witness: witness_block,
        }]))
    );
}

#[test]
fn expired_trusted_state_is_still_a_fork() {
    let detector = ProdForkDetector::new(ProdHasher);
    let verified = make_block(10, 1, 0);
    let trusted = make_block(1, 7, 0);
    let witness_block = make_block(10, 3, 1);
    let witnesses = vec![WitnessResponse {
        witness_id: PeerId { value: 1 },
        fetch: Ok(witness_block.clone()),
        verify: Err(ErrorKind::TrustedStateOutsideTrustingPeriod),
    }];
    let r = detector.detect_forks(&verified, &trusted, &witnesses);
    assert_eq!(
        r,
        Ok(ForkDetection::Detected(vec![Fork::Forked {
            primary: make_block(10, 1, 0),
            witness: witness_block,
        }]))
    );
}

#[test]
fn faulty_witness_is_reported() {
    let detector = ProdForkDetector::new(ProdHasher);
    let verified = make_block(10, 1, 0);
    let trusted = make_block(1, 7, 0);
    let witness_block = make_block(10, 4, 1);
    let witnesses = vec![WitnessResponse {
        witness_id: PeerId { value: 1 },
        fetch: Ok(witness_block.clone()),
        verify: Err(ErrorKind::InsufficientVotingPower),
    }];
    let r = detector.detect_forks(&verified, &trusted, &witnesses);
    assert_eq!(
        r,
        Ok(ForkDetection::Detected(vec![Fork::Faulty(
            witness_block,
            ErrorKind::InsufficientVotingPower,
        )]))
    );
}

#[test]
fn unreachable_witness_is_reported_as_timeout() {
    let detector = ProdForkDetector::new(ProdHasher);
    let verified = make_block(10, 1, 0);
    let trusted = make_block(1, 7, 0);
    let witnesses = vec![WitnessResponse {
        witness_id: PeerId { value: 8 },
        fetch: Err(ErrorKind::Timeout),
        verify: Ok(()),
    }];
    let r = detector.detect_forks(&verified, &trusted, &witnesses);
    assert_eq!(
        r,
        Ok(ForkDetection::Detected(vec![Fork::Timeout(
            PeerId { value: 8 },
            ErrorKind::Timeout,
        )]))
    );
}

#[test]
fn timeout_during_verification_is_reported_as_timeout() {
    let detector = ProdForkDetector::new(ProdHasher);
    let verified = make_block(10, 1, 0);
    let trusted = make_block(1, 7, 0);
    let witness_block = make_block(10, 5, 3);
    let witnesses = vec![WitnessResponse {
        witness_id: PeerId { value: 3 },
        fetch: Ok(witness_block),
        verify: Err(ErrorKind::Timeout),
    }];
    let r = detector.detect_forks(&verified, &trusted, &witnesses);
    assert_eq!(
        r,
        Ok(ForkDetection::Detected(vec![Fork::Timeout(
            PeerId { value: 3 },
            ErrorKind::Timeout,
        )]))
    );
}

#[test]
fn mixed_fleet_reports_in_witness_order() {
    let detector = ProdForkDetector::new(ProdHasher);
    let verified = make_block(10, 1, 0);
    let trusted = make_block(1, 7, 0);
    let forked_block = make_block(10, 2, 2);
    let faulty_block = make_block(10, 4, 4);
    let witnesses = vec![
        ok_response(1, make_block(10, 1, 1)),
        WitnessResponse {
            witness_id: PeerId { value: 2 },
            fetch: Ok(forked_block.clone()),
            verify: Ok(()),
        },
        WitnessResponse {
            witness_id: PeerId { value: 3 },
            fetch: Err(ErrorKind::Timeout),
            verify: Ok(()),
        },
        WitnessResponse {
            witness_id: PeerId { value: 4 },
            fetch: Ok(faulty_block.clone()),
            verify: Err(ErrorKind::InsufficientVotingPower),
        },
    ];
    let r = detector.detect_forks(&verified, &trusted, &witnesses);
    assert_eq!(
        r,
        Ok(ForkDetection::Detected(vec![
            Fork::Forked { primary: make_block(10, 1, 0), witness: forked_block },
            Fork::Timeout(PeerId { value: 3 }, ErrorKind::Timeout),
            Fork::Faulty(faulty_block, ErrorKind::InsufficientVotingPower),
        ]))
    );
}

#[test]
fn heights_must_increase() {
    let detector = ProdForkDetector::new(ProdHasher);
    let verified = make_block(1, 1, 0);
    let trusted = make_block(10, 7, 0);
    let witnesses = vec![ok_response(1, make_block(1, 1, 1))];
    let r = detector.detect_forks(&verified, &trusted, &witnesses);
    assert_eq!(r, Err(DetectorError::HeightsNotIncreasing));
}

#[test]
fn equal_heights_are_rejected() {
    let detector = ProdForkDetector::new(ProdHasher);
    let verified = make_block(10, 1, 0);
    let trusted = make_block(10, 7, 0);
    let witnesses = vec![ok_response(1, make_block(10, 1, 1))];
    let r = detector.detect_forks(&verified, &trusted, &witnesses);
    assert_eq!(r, Err(DetectorError::HeightsNotIncreasing));
}

#[test]
fn empty_witness_list_is_rejected() {
    let detector = ProdForkDetector::new(ProdHasher);
    let verified = make_block(10, 1, 0);
    let trusted = make_block(1, 7, 0);
    let r = detector.detect_forks(&verified, &trusted, &vec![]);
    assert_eq!(r, Err(DetectorError::EmptyWitnessList));
}

#[test]
fn detection_is_deterministic() {
    let detector = ProdForkDetector::new(ProdHasher);
    let verified = make_block(10, 1, 0);
    let trusted = make_block(1, 7, 0);
    let make_witnesses = || {
        vec![
            ok_response(1, make_block(10, 1, 1)),
            WitnessResponse {
                witness_id: PeerId { value: 2 },
                fetch: Ok(make_block(10, 2, 2)),
                verify: Ok(()),
            },
        ]
    };
    let r1 = detector.detect_forks(&verified, &trusted, &make_witnesses());
    let r2 = detector.detect_forks(&verified, &trusted, &make_witnesses());
    assert_eq!(r1, r2);
}

#[test]
fn matching_hash_skips_verification_outcome() {
    // the witness agrees by hash; its verification outcome, however bad,
    // must not produce a record for it
    let detector = ProdForkDetector::new(ProdHasher);
    let verified = make_block(10, 1, 0);
    let trusted = make_block(1, 7, 0);
    let witnesses = vec![WitnessResponse {
        witness_id: PeerId { value: 1 },
        fetch: Ok(make_block(10, 1, 1)),
        verify: Err(ErrorKind::InvalidCommit),
    }];
    let r = detector.detect_forks(&verified, &trusted, &witnesses);
    assert_eq!(r, Ok(ForkDetection::NotDetected));
}

#[test]
fn classify_follows_the_decision_table() {
    let primary = make_block(10, 1, 0);
    let witness = make_block(10, 2, 5);
    assert_eq!(
        classify(&primary, witness.clone(), Ok(())),
        Fork::Forked { primary: primary.clone(), witness: witness.clone() }
    );
    assert_eq!(
        classify(&primary, witness.clone(), Err(ErrorKind::TrustedStateOutsideTrustingPeriod)),
        Fork::Forked { primary: primary.clone(), witness: witness.clone() }
    );
    assert_eq!(
        classify(&primary, witness.clone(), Err(ErrorKind::Timeout)),
        Fork::Timeout(PeerId { value: 5 }, ErrorKind::Timeout)
    );
    assert_eq!(
        classify(&primary, witness.clone(), Err(ErrorKind::Io)),
        Fork::Faulty(witness.clone(), ErrorKind::Io)
    );
    assert_eq!(
        classify(&primary, witness.clone(), Err(ErrorKind::Rpc)),
        Fork::Faulty(witness.clone(), ErrorKind::Rpc)
    );
    assert_eq!(
        classify(&primary, witness.clone(), Err(ErrorKind::InvalidCommit)),
        Fork::Faulty(witness.clone(), ErrorKind::InvalidCommit)
    );
    assert_eq!(
        classify(&primary, witness.clone(), Err(ErrorKind::InvalidValidatorSet)),
        Fork::Faulty(witness.clone(), ErrorKind::InvalidValidatorSet)
    );
    assert_eq!(
        classify(&primary, witness.clone(), Err(ErrorKind::TargetLowerThanTrustedState)),
        Fork::Faulty(witness, ErrorKind::TargetLowerThanTrustedState)
    );
}

#[test]
fn default_detector_agrees_with_production_hasher() {
    let by_default = ProdForkDetector::<ProdHasher>::default();
    let by_hand = ProdForkDetector::new(ProdHasher);
    let verified = make_block(10, 1, 0);
    let trusted = make_block(1, 7, 0);
    let witnesses = vec![WitnessResponse {
        witness_id: PeerId { value: 1 },
        fetch: Ok(make_block(10, 2, 1)),
        verify: Ok(()),
    }];
    assert_eq!(
        by_default.detect_forks(&verified, &trusted, &witnesses),
        by_hand.detect_forks(&verified, &trusted, &witnesses)
    );
    let header = make_header(10, 1);
    assert_eq!(
        by_default.hasher_ref().hash_header(&header),
        ProdHasher.hash_header(&header)
    );
}

#[test]
fn verification_store_is_seeded_with_both_blocks() {
    let trusted = make_block(1, 7, 0);
    let witness_block = make_block(10, 2, 1);
    let store = prepare_verification_store(&trusted, &witness_block);
    assert_eq!(store.get(1, Status::Verified), Some(trusted));
    assert_eq!(store.get(10, Status::Unverified), Some(witness_block));
    assert_eq!(store.get(10, Status::Verified), None);
    assert_eq!(store.get(1, Status::Unverified), None);
    assert_eq!(store.get(5, Status::Trusted), None);
}
