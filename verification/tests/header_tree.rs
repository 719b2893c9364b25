use eq_common::header::{BlockId, DataAvailabilityHeader, ExtendedHeader, Header};
use eq_common::header_tree::{create_header_field_tree, encode_header_fields, HeaderTreeError};
use eq_common::merkle::{leaf_hash, MerkleTree};
use tendermint::block::parts::Header as PartSetHeader;
use tendermint::{account, block, chain, AppHash, Time};

fn plain() -> Header {
    Header {
        version_block: 11,
        version_app: 3,
        chain_id: "test-chain".to_string(),
        height: 42,
        time_seconds: 1_700_000_000,
        time_nanos: 5,
        last_block_id: Some(BlockId {
            hash: Some([1; 32]),
            part_set_total: 1,
            part_set_hash: Some([2; 32]),
        }),
        last_commit_hash: Some([3; 32]),
        data_hash: Some([4; 32]),
        validators_hash: Some([5; 32]),
        next_validators_hash: Some([6; 32]),
        consensus_hash: Some([7; 32]),
        app_hash: vec![8; 32],
        last_results_hash: Some([9; 32]),
        evidence_hash: Some([10; 32]),
        proposer_address: [11; 20],
    }
}

fn hash(value: &Option<[u8; 32]>) -> tendermint::Hash {
    match value {
        Some(bytes) => tendermint::Hash::Sha256(*bytes),
        None => tendermint::Hash::None,
    }
}

fn optional(value: &Option<[u8; 32]>) -> Option<tendermint::Hash> {
    value.map(tendermint::Hash::Sha256)
}

fn outside(header: &Header) -> block::Header {
    block::Header {
        version: block::header::Version { block: header.version_block, app: header.version_app },
        chain_id: chain::Id::try_from(header.chain_id.clone()).unwrap(),
        height: block::Height::try_from(header.height).unwrap(),
        time: Time::from_unix_timestamp(header.time_seconds, header.time_nanos).unwrap(),
        last_block_id: header.last_block_id.as_ref().map(|id| block::Id {
            hash: hash(&id.hash),
            part_set_header: PartSetHeader::new(id.part_set_total, hash(&id.part_set_hash)).unwrap(),
        }),
        last_commit_hash: optional(&header.last_commit_hash),
        data_hash: optional(&header.data_hash),
        validators_hash: hash(&header.validators_hash),
        next_validators_hash: hash(&header.next_validators_hash),
        consensus_hash: hash(&header.consensus_hash),
        app_hash: AppHash::try_from(header.app_hash.clone()).unwrap(),
        last_results_hash: optional(&header.last_results_hash),
        evidence_hash: optional(&header.evidence_hash),
        proposer_address: account::Id::new(header.proposer_address),
    }
}

fn block_hash(header: &Header) -> [u8; 32] {
    match outside(header).hash() {
        tendermint::Hash::Sha256(bytes) => bytes,
        tendermint::Hash::None => panic!("a header has a hash"),
    }
}

fn extended(header: Header) -> ExtendedHeader {
    let hash = Some(block_hash(&header));
    ExtendedHeader {
        header,
        hash,
        dah: DataAvailabilityHeader { row_roots: vec![], column_roots: vec![] },
    }
}

fn built(header: Header) -> (MerkleTree, eq_common::merkle::RangeProof) {
    match create_header_field_tree(&extended(header)) {
        Ok(found) => found,
        Err(e) => panic!("no header tree: {:?}", e),
    }
}

#[test]
fn root_is_the_block_hash() {
    let header = plain();
    let expected = block_hash(&header);
    let (mut tree, proof) = built(header);
    assert_eq!(tree.root(), expected);
    assert_eq!(proof.start_idx, 6);
    assert_eq!(proof.end_idx, 7);
}

#[test]
fn data_hash_proof_verifies_at_index_six() {
    let header = plain();
    let (mut tree, proof) = built(header);
    let root = tree.root();
    let mut leaf = vec![0x0a, 0x20];
    leaf.extend_from_slice(&[4; 32]);
    assert!(proof.verify_range(&root, &[leaf_hash(&leaf)]));
    // Another data hash does not verify.
    let mut other = vec![0x0a, 0x20];
    other.extend_from_slice(&[5; 32]);
    assert!(!proof.verify_range(&root, &[leaf_hash(&other)]));
}

#[test]
fn fields_are_encoded_in_order() {
    let header = plain();
    let fields = encode_header_fields(&header).unwrap();
    assert_eq!(fields.len(), 14);
    // version: field 1 = 11, field 2 = 3
    assert_eq!(fields[0], vec![0x08, 11, 0x10, 3]);
    // chain id: field 1, length 10, text
    let mut chain_id = vec![0x0a, 10];
    chain_id.extend_from_slice(b"test-chain");
    assert_eq!(fields[1], chain_id);
    // height: field 1 = 42
    assert_eq!(fields[2], vec![0x08, 42]);
    let mut data_hash = vec![0x0a, 0x20];
    data_hash.extend_from_slice(&[4; 32]);
    assert_eq!(fields[6], data_hash);
    let mut app_hash = vec![0x0a, 0x20];
    app_hash.extend_from_slice(&[8; 32]);
    assert_eq!(fields[10], app_hash);
    let mut address = vec![0x0a, 0x14];
    address.extend_from_slice(&[11; 20]);
    assert_eq!(fields[13], address);
}

#[test]
fn missing_optional_fields_take_their_default() {
    let mut header = plain();
    header.height = 1;
    header.last_block_id = None;
    header.last_commit_hash = None;
    header.last_results_hash = None;
    header.evidence_hash = None;
    let expected = block_hash(&header);
    let fields = encode_header_fields(&header).unwrap();
    // The default block identifier is an empty part set header in field 2.
    assert_eq!(fields[4], vec![0x12, 0x00]);
    assert!(fields[5].is_empty());
    assert!(fields[11].is_empty());
    assert!(fields[12].is_empty());
    let (mut tree, _) = built(header);
    assert_eq!(tree.root(), expected);
}

#[test]
fn wrong_block_hash() {
    let mut header = extended(plain());
    header.hash = Some([0; 32]);
    assert_eq!(create_header_field_tree(&header).err(), Some(HeaderTreeError::BlockHashMismatch));
    header.hash = None;
    assert_eq!(create_header_field_tree(&header).err(), Some(HeaderTreeError::BlockHashMismatch));
}

#[test]
fn header_without_data_hash() {
    // A missing data hash is encoded as the empty hash, like any other
    // missing hash, and the tree is built over it.
    let mut header = plain();
    header.data_hash = None;
    let expected = block_hash(&header);
    assert!(encode_header_fields(&header).unwrap()[6].is_empty());
    let (mut tree, proof) = built(header);
    let root = tree.root();
    assert_eq!(root, expected);
    assert_eq!(proof.start_idx, 6);
    assert_eq!(proof.end_idx, 7);
    assert!(proof.verify_range(&root, &[leaf_hash(&[])]));
    let mut other = vec![0x0a, 0x20];
    other.extend_from_slice(&[4; 32]);
    assert!(!proof.verify_range(&root, &[leaf_hash(&other)]));
}

#[test]
fn fields_without_encoding() {
    let mut header = extended(plain());
    header.header.chain_id = "no spaces allowed".to_string();
    assert_eq!(
        create_header_field_tree(&header).err(),
        Some(HeaderTreeError::FieldNotEncodable(1))
    );
    let mut header = extended(plain());
    header.header.height = u64::MAX;
    assert_eq!(
        create_header_field_tree(&header).err(),
        Some(HeaderTreeError::FieldNotEncodable(2))
    );
    let mut header = extended(plain());
    header.header.time_nanos = 1_000_000_000;
    assert_eq!(
        create_header_field_tree(&header).err(),
        Some(HeaderTreeError::FieldNotEncodable(3))
    );
    let mut header = extended(plain());
    header.header.last_block_id =
        Some(BlockId { hash: Some([1; 32]), part_set_total: 0, part_set_hash: Some([2; 32]) });
    assert_eq!(
        create_header_field_tree(&header).err(),
        Some(HeaderTreeError::FieldNotEncodable(4))
    );
}

#[test]
fn tree_of_leaves_matches_the_outside_root() {
    let leaves: Vec<&[u8]> = vec![b"leaf_1", b"leaf_2", b"leaf_3", b"leaf_4", b"leaf_5"];
    let mut tree = MerkleTree::new();
    for leaf in &leaves {
        tree.push_raw_leaf(leaf);
    }
    let expected =
        tendermint::merkle::simple_hash_from_byte_vectors::<tendermint::crypto::default::Sha256>(&leaves);
    assert_eq!(tree.root(), expected);
    let proof = tree.build_range_proof(1, 3).unwrap();
    assert_eq!(proof.start_idx, 1);
    assert_eq!(proof.end_idx, 3);
    assert!(proof.verify_range(&expected, &[leaf_hash(b"leaf_2"), leaf_hash(b"leaf_3")]));
    assert!(!proof.verify_range(&expected, &[leaf_hash(b"leaf_3"), leaf_hash(b"leaf_2")]));
    assert!(!proof.verify_range(&expected, &[leaf_hash(b"leaf_2")]));
    assert!(tree.build_range_proof(3, 3).is_none());
    assert!(tree.build_range_proof(4, 6).is_none());
}
