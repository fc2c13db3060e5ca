use fork_detector::encode::{
    bits32, bits64, encode_block_id, encode_le32, encode_le64, encode_time, encode_varint,
    header_leaves, zigzag,
};
use fork_detector::hasher::{Hasher, ProdHasher};
use fork_detector::types::{
    BlockID, Header, PartsSetHeader, Time, Validator, ValidatorSet, Version,
};

fn sample_header() -> Header {
    Header {
        version: Version { block: 11, app: 1 },
        chain_id: b"encode-chain".to_vec(),
        height: 600,
        time: Time { seconds: -5, nanos: 3 },
        last_block_id: BlockID {
            hash: vec![0xAA],
            parts_header: Some(PartsSetHeader { total: -1, hash: vec![0xBB] }),
        },
        last_commit_hash: vec![],
        data_hash: vec![0x11, 0x22],
        validators_hash: vec![],
        next_validators_hash: vec![],
        consensus_hash: vec![],
        app_hash: vec![],
        last_results_hash: vec![],
        evidence_hash: vec![],
        proposer_address: vec![0x0F],
    }
}

#[test]
fn varint_small_values_are_single_bytes() {
    assert_eq!(encode_varint(0), vec![0]);
    assert_eq!(encode_varint(1), vec![1]);
    assert_eq!(encode_varint(127), vec![127]);
}

#[test]
fn varint_large_values_use_continuation_bits() {
    assert_eq!(encode_varint(128), vec![0x80, 0x01]);
    assert_eq!(encode_varint(300), vec![0xAC, 0x02]);
    assert_eq!(encode_varint(u64::MAX), vec![0xFF; 9].into_iter().chain([0x01]).collect::<Vec<u8>>());
}

#[test]
fn zigzag_interleaves_signs() {
    assert_eq!(zigzag(0), 0);
    assert_eq!(zigzag(-1), 1);
    assert_eq!(zigzag(1), 2);
    assert_eq!(zigzag(-2), 3);
    assert_eq!(zigzag(2), 4);
    assert_eq!(zigzag(i64::MIN), u64::MAX);
}

#[test]
fn twos_complement_values() {
    assert_eq!(bits64(0), 0);
    assert_eq!(bits64(1), 1);
    assert_eq!(bits64(-1), u64::MAX);
    assert_eq!(bits64(i64::MIN), 0x8000_0000_0000_0000);
    assert_eq!(bits32(-1), u32::MAX);
    assert_eq!(bits32(7), 7);
}

#[test]
fn little_endian_bytes() {
    assert_eq!(
        encode_le64(0x0102_0304_0506_0708),
        vec![0x08, 0x07, 0x06, 0x05, 0x04, 0x03, 0x02, 0x01]
    );
    assert_eq!(encode_le32(0x0102_0304), vec![0x04, 0x03, 0x02, 0x01]);
}

#[test]
fn negative_seconds_encode_without_wraparound() {
    let mut expected = vec![0xFF; 8];
    expected.extend([0, 0, 0, 0]);
    assert_eq!(encode_time(-1, 0), expected);
    let mut with_nanos = vec![0xFB, 0xFF, 0xFF, 0xFF, 0xFF, 0xFF, 0xFF, 0xFF];
    with_nanos.extend([3, 0, 0, 0]);
    assert_eq!(encode_time(-5, 3), with_nanos);
}

#[test]
fn block_id_encoding_is_length_prefixed() {
    let b = BlockID {
        hash: vec![0xAA],
        parts_header: Some(PartsSetHeader { total: -1, hash: vec![0xBB] }),
    };
    assert_eq!(encode_block_id(&b), vec![1, 0xAA, 1, 1, 0xBB]);
    let bare = BlockID { hash: vec![], parts_header: None };
    assert_eq!(encode_block_id(&bare), vec![0]);
}

#[test]
fn header_has_fourteen_canonical_fields() {
    let leaves = header_leaves(&sample_header());
    assert_eq!(leaves.len(), 14);
    assert_eq!(leaves[1], b"encode-chain".to_vec());
    assert_eq!(leaves[2], vec![0xD8, 0x04]);
    // empty hash fields stay as zero-length byte strings, keeping positions
    assert_eq!(leaves[5], Vec::<u8>::new());
    assert_eq!(leaves[13], vec![0x0F]);
}

#[test]
fn header_digest_is_32_bytes_and_depends_on_content() {
    let hasher = ProdHasher;
    let a = sample_header();
    let mut b = sample_header();
    b.data_hash = vec![0x11, 0x23];
    let ha = hasher.hash_header(&a);
    let hb = hasher.hash_header(&b);
    let ha2 = hasher.hash_header(&a);
    assert_eq!(ha.len(), 32);
    assert_eq!(hb.len(), 32);
    assert_eq!(ha, ha2);
    assert_ne!(ha, hb);
}

#[test]
fn header_digest_differs_when_only_field_order_would_collide() {
    // swapping the contents of two hash fields must change the digest:
    // the Merkle structure is positional
    let hasher = ProdHasher;
    let mut a = sample_header();
    a.validators_hash = vec![0x77];
    a.next_validators_hash = vec![0x88];
    let mut b = sample_header();
    b.validators_hash = vec![0x88];
    b.next_validators_hash = vec![0x77];
    assert_ne!(hasher.hash_header(&a), hasher.hash_header(&b));
}

#[test]
fn validator_set_sums_voting_power() {
    let set = ValidatorSet::new(vec![
        Validator { address: vec![1], power: 3 },
        Validator { address: vec![2], power: 4 },
    ])
    .unwrap();
    assert_eq!(set.total_power, 7);
    assert_eq!(set.validators.len(), 2);
}

#[test]
fn validator_set_rejects_power_overflow() {
    let r = ValidatorSet::new(vec![
        Validator { address: vec![1], power: u64::MAX },
        Validator { address: vec![2], power: 1 },
    ]);
    assert!(r.is_none());
}
