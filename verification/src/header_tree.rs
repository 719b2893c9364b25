//! The Merkle tree over the fields of a block header.
//!
//! The hash of a block is the root of a tree whose fourteen leaves are the
//! encoded fields of its header, in a fixed order; the data hash is the
//! seventh. The tree built here yields a proof that binds a data hash to a
//! block hash. The fields are encoded by the `tendermint` crate.

use vstd::prelude::*;
use crate::bytes::{array_views, bytes_eq};
use crate::header::{
    decode_hash,
    encode_hash,
    hash_bytes,
    hash_encoding,
    hash_view,
    BlockId,
    ExtendedHeader,
    Header,
};
use crate::merkle::{
    hash_leaf,
    range_proof_verify,
    tm_leaf_hash,
    tm_merkle_root,
    tm_range_siblings,
    tm_range_verifies,
    tree_get_index_with_proof,
    tree_leaves,
    tree_new,
    tree_push_raw_leaf,
    tree_root,
    MerkleTree,
    RangeProof,
};

verus! {

/// The place of the data hash among the fields of a header.
pub const DATA_HASH_INDEX: usize = 6;

/// The number of fields of a header.
pub const HEADER_FIELD_COUNT: usize = 14;

/// What `encode_vec` writes for the version of a header.
pub uninterp spec fn version_encoding(block: u64, app: u64) -> Seq<u8>;

/// What `encode_vec` writes for a chain identifier; `None` for a text that is
/// no chain identifier.
pub uninterp spec fn chain_id_encoding(chain_id: Seq<char>) -> Option<Seq<u8>>;

/// What `encode_vec` writes for a block height; `None` for a number that is
/// no height.
pub uninterp spec fn height_encoding(height: u64) -> Option<Seq<u8>>;

/// What `encode_vec` writes for a block time; `None` for a pair that is no
/// time.
pub uninterp spec fn time_encoding(seconds: i64, nanos: u32) -> Option<Seq<u8>>;

/// What `encode_vec` writes for a block identifier; `None` for values that
/// make no block identifier.
pub uninterp spec fn block_id_encoding(
    hash: Option<Seq<u8>>,
    part_set_total: u32,
    part_set_hash: Option<Seq<u8>>,
) -> Option<Seq<u8>>;

/// What `encode_vec` writes for the bytes of an application hash.
pub uninterp spec fn app_hash_encoding(app_hash: Seq<u8>) -> Seq<u8>;

/// The encoding of an account address as a message with one field of bytes:
/// the key of field 1, the length 20 and the bytes.
pub open spec fn address_encoding(address: [u8; 20]) -> Seq<u8> {
    seq![0x0au8, 0x14u8] + address@
}

/// `Protobuf::encode_vec` of `tendermint-proto` on a header `Version` of
/// `tendermint`.
#[verifier::external_body]
pub(crate) fn encode_version(block: u64, app: u64) -> (encoded: Vec<u8>)
    ensures
        encoded@ == version_encoding(block, app),
{
    let version = tendermint::block::header::Version { block, app };
    tendermint_proto::Protobuf::<tendermint_proto::v0_37::version::Consensus>::encode_vec(version)
}

/// `Protobuf::encode_vec` of `tendermint-proto` on the chain `Id` that
/// `tendermint` makes of the text; `None` where it makes none.
#[verifier::external_body]
pub(crate) fn encode_chain_id(chain_id: &String) -> (encoded: Option<Vec<u8>>)
    ensures
        encoded_view(encoded) == chain_id_encoding(chain_id@),
{
    let id = tendermint::chain::Id::try_from(chain_id.clone()).ok()?;
    Some(tendermint_proto::Protobuf::<String>::encode_vec(id))
}

/// `Protobuf::encode_vec` of `tendermint-proto` on the `Height` that
/// `tendermint` makes of the number; `None` where it makes none.
#[verifier::external_body]
pub(crate) fn encode_height(height: u64) -> (encoded: Option<Vec<u8>>)
    ensures
        encoded_view(encoded) == height_encoding(height),
{
    let height = tendermint::block::Height::try_from(height).ok()?;
    Some(tendermint_proto::Protobuf::<i64>::encode_vec(height))
}

/// `Protobuf::encode_vec` of `tendermint-proto` on the `Time` that
/// `tendermint` makes of seconds and nanoseconds since the epoch; `None`
/// where it makes none.
#[verifier::external_body]
pub(crate) fn encode_time(seconds: i64, nanos: u32) -> (encoded: Option<Vec<u8>>)
    ensures
        encoded_view(encoded) == time_encoding(seconds, nanos),
{
    let time = tendermint::Time::from_unix_timestamp(seconds, nanos).ok()?;
    Some(tendermint_proto::Protobuf::<tendermint_proto::google::protobuf::Timestamp>::encode_vec(time))
}

/// `Protobuf::encode_vec` of `tendermint-proto` on the block `Id` that
/// `tendermint` makes of a hash and a part set header; `None` where it makes
/// no part set header of the total and the hash.
#[verifier::external_body]
pub(crate) fn encode_block_id(id: &BlockId) -> (encoded: Option<Vec<u8>>)
    ensures
        encoded_view(encoded) == block_id_encoding(
            hash_view(id.hash),
            id.part_set_total,
            hash_view(id.part_set_hash),
        ),
{
    let hash = id.hash.map_or(tendermint::Hash::None, tendermint::Hash::Sha256);
    let part_hash = id.part_set_hash.map_or(tendermint::Hash::None, tendermint::Hash::Sha256);
    let part_set_header = tendermint::block::parts::Header::new(id.part_set_total, part_hash).ok()?;
    let outside = tendermint::block::Id { hash, part_set_header };
    Some(tendermint_proto::Protobuf::<tendermint_proto::v0_37::types::BlockId>::encode_vec(outside))
}

/// `Protobuf::encode_vec` of `tendermint-proto` on an `AppHash` of
/// `tendermint` with the given bytes.
#[verifier::external_body]
pub(crate) fn encode_app_hash(app_hash: &Vec<u8>) -> (encoded: Vec<u8>)
    ensures
        encoded@ == app_hash_encoding(app_hash@),
{
    let outside = tendermint::AppHash::try_from(app_hash.clone()).unwrap_or_default();
    tendermint_proto::Protobuf::<Vec<u8>>::encode_vec(outside)
}

/// `Protobuf::encode_vec` of `tendermint-proto` on an account `Id` of
/// `tendermint`: the 20 bytes are written as field 1 of a message, that is
/// the byte `0x0a`, the length `0x14` and the bytes.
#[verifier::external_body]
pub(crate) fn encode_address(address: &[u8; 20]) -> (encoded: Vec<u8>)
    ensures
        encoded@ == address_encoding(*address),
{
    tendermint_proto::Protobuf::<Vec<u8>>::encode_vec(tendermint::account::Id::new(*address))
}

/// The bytes of an encoding as a sequence, where there is one.
pub open spec fn encoded_view(encoded: Option<Vec<u8>>) -> Option<Seq<u8>> {
    match encoded {
        Some(bytes) => Some(bytes@),
        None => None,
    }
}

/// The block identifier that stands for a missing one.
pub open spec fn block_id_or_default(id: Option<BlockId>) -> BlockId {
    match id {
        Some(id) => id,
        None => BlockId { hash: None, part_set_total: 0, part_set_hash: None },
    }
}

/// The encoding of the previous block's identifier, a missing one standing
/// for the default.
pub open spec fn last_block_id_encoding(header: &Header) -> Option<Seq<u8>> {
    let id = block_id_or_default(header.last_block_id);
    block_id_encoding(hash_view(id.hash), id.part_set_total, hash_view(id.part_set_hash))
}

/// Whether every field of the header has an encoding.
pub open spec fn fields_encodable(header: &Header) -> bool {
    &&& chain_id_encoding(header.chain_id@) is Some
    &&& height_encoding(header.height) is Some
    &&& time_encoding(header.time_seconds, header.time_nanos) is Some
    &&& last_block_id_encoding(header) is Some
}

/// The place of the first field, in hashing order, that has no encoding.
pub open spec fn first_unencodable_field(header: &Header) -> int {
    if chain_id_encoding(header.chain_id@) is None {
        1
    } else if height_encoding(header.height) is None {
        2
    } else if time_encoding(header.time_seconds, header.time_nanos) is None {
        3
    } else {
        4
    }
}

/// The fourteen leaves of the header tree: the encoded fields in hashing
/// order, a missing hash or block identifier standing for its default.
pub open spec fn header_leaves(header: &Header) -> Seq<Seq<u8>>
    recommends
        fields_encodable(header),
{
    seq![
        version_encoding(header.version_block, header.version_app),
        chain_id_encoding(header.chain_id@).unwrap(),
        height_encoding(header.height).unwrap(),
        time_encoding(header.time_seconds, header.time_nanos).unwrap(),
        last_block_id_encoding(header).unwrap(),
        hash_encoding(header.last_commit_hash),
        hash_encoding(header.data_hash),
        hash_encoding(header.validators_hash),
        hash_encoding(header.next_validators_hash),
        hash_encoding(header.consensus_hash),
        app_hash_encoding(header.app_hash@),
        hash_encoding(header.last_results_hash),
        hash_encoding(header.evidence_hash),
        address_encoding(header.proposer_address),
    ]
}

/// Why no header tree was built.
#[derive(Clone, Copy, Debug, PartialEq, Eq, Structural)]
pub enum HeaderTreeError {
    /// The field at this place has no encoding.
    FieldNotEncodable(usize),
    /// The root of the tree is not the hash of the block.
    BlockHashMismatch,
    /// The proof of the data hash does not verify against the root.
    ProofRejected,
}

/// How the building of a header tree ends.
pub enum HeaderTreeOutcome {
    /// The field at this place has no encoding.
    FieldNotEncodable(int),
    /// The root over the fields is not the hash of the block.
    BlockHashMismatch,
    /// The proof of the data hash does not verify.
    ProofRejected,
    /// The tree is built.
    Built,
}

/// Whether the proof built for the data hash shows it to be the seventh leaf
/// under the root of the header tree.
pub open spec fn data_hash_proof_verifies(header: &Header) -> bool {
    tm_range_verifies(
        tm_range_siblings(header_leaves(header), 6, 7),
        6,
        7,
        tm_merkle_root(header_leaves(header)),
        seq![tm_leaf_hash(hash_encoding(header.data_hash))],
    )
}

/// The decision that `create_header_field_tree` takes on a header.
pub open spec fn header_tree_outcome(header: &ExtendedHeader) -> HeaderTreeOutcome {
    if !fields_encodable(&header.header) {
        HeaderTreeOutcome::FieldNotEncodable(first_unencodable_field(&header.header))
    } else if tm_merkle_root(header_leaves(&header.header)) != hash_bytes(header.hash) {
        HeaderTreeOutcome::BlockHashMismatch
    } else if !data_hash_proof_verifies(&header.header) {
        HeaderTreeOutcome::ProofRejected
    } else {
        HeaderTreeOutcome::Built
    }
}

/// Encodes the fields of a header in hashing order, a missing hash or block
/// identifier as its default; gives the place of the first field that has no
/// encoding.
pub fn encode_header_fields(header: &Header) -> (fields: Result<Vec<Vec<u8>>, usize>)
    ensures
        match fields {
            Ok(leaves) => fields_encodable(header) && leaves@.len() == 14 && crate::bytes::vec_views(
                leaves@,
            ) == header_leaves(header),
            Err(place) => !fields_encodable(header) && place == first_unencodable_field(header),
        },
{
    let chain_id = match encode_chain_id(&header.chain_id) {
        Some(encoded) => encoded,
        None => {
            return Err(1);
        },
    };
    let height = match encode_height(header.height) {
        Some(encoded) => encoded,
        None => {
            return Err(2);
        },
    };
    let time = match encode_time(header.time_seconds, header.time_nanos) {
        Some(encoded) => encoded,
        None => {
            return Err(3);
        },
    };
    let default_id = BlockId { hash: None, part_set_total: 0, part_set_hash: None };
    let last_block_id = match &header.last_block_id {
        Some(id) => encode_block_id(id),
        None => encode_block_id(&default_id),
    };
    let last_block_id = match last_block_id {
        Some(encoded) => encoded,
        None => {
            return Err(4);
        },
    };
    let mut leaves: Vec<Vec<u8>> = Vec::new();
    leaves.push(encode_version(header.version_block, header.version_app));
    leaves.push(chain_id);
    leaves.push(height);
    leaves.push(time);
    leaves.push(last_block_id);
    leaves.push(encode_hash(&header.last_commit_hash));
    leaves.push(encode_hash(&header.data_hash));
    leaves.push(encode_hash(&header.validators_hash));
    leaves.push(encode_hash(&header.next_validators_hash));
    leaves.push(encode_hash(&header.consensus_hash));
    leaves.push(encode_app_hash(&header.app_hash));
    leaves.push(encode_hash(&header.last_results_hash));
    leaves.push(encode_hash(&header.evidence_hash));
    leaves.push(encode_address(&header.proposer_address));
    assert(crate::bytes::vec_views(leaves@) =~= header_leaves(header));
    Ok(leaves)
}

/// Builds the tree over the fields of a header and the proof that its data
/// hash is the seventh leaf.
///
/// Fails where a field has no encoding, where the root of the tree is not
/// the hash of the block, and where the proof does not verify against the
/// root. On success the tree holds the fourteen encoded fields, a missing
/// data hash like any other missing hash as its empty encoding; its root is
/// the hash of the block, and the proof verifies the hashed data-hash leaf at
/// index 6 against that root. The leaf read back from the tree always decodes
/// to the data hash of the header.
pub fn create_header_field_tree(header: &ExtendedHeader) -> (result: Result<
    (MerkleTree, RangeProof),
    HeaderTreeError,
>)
    ensures
        match header_tree_outcome(header) {
            HeaderTreeOutcome::FieldNotEncodable(place) => result == Err::<
                (MerkleTree, RangeProof),
                HeaderTreeError,
            >(HeaderTreeError::FieldNotEncodable(place as usize)) && 1 <= place <= 4,
            HeaderTreeOutcome::BlockHashMismatch => result == Err::<
                (MerkleTree, RangeProof),
                HeaderTreeError,
            >(HeaderTreeError::BlockHashMismatch),
            HeaderTreeOutcome::ProofRejected => result == Err::<
                (MerkleTree, RangeProof),
                HeaderTreeError,
            >(HeaderTreeError::ProofRejected),
            HeaderTreeOutcome::Built => {
                &&& result is Ok
                &&& tree_leaves(result->Ok_0.0) == header_leaves(&header.header)
                &&& header.hash is Some
                &&& tm_merkle_root(tree_leaves(result->Ok_0.0)) == header.hash.unwrap()@
                &&& result->Ok_0.1.start_idx == 6
                &&& result->Ok_0.1.end_idx == 7
                &&& result->Ok_0.1.siblings_view() == tm_range_siblings(
                    header_leaves(&header.header),
                    6,
                    7,
                )
                &&& result->Ok_0.1.verifies(
                    header.hash.unwrap()@,
                    seq![tm_leaf_hash(hash_encoding(header.header.data_hash))],
                )
            },
        },
{
    let fields = match encode_header_fields(&header.header) {
        Ok(fields) => fields,
        Err(place) => {
            return Err(HeaderTreeError::FieldNotEncodable(place));
        },
    };
    let mut tree = tree_new();
    let mut i: usize = 0;
    while i < fields.len()
        invariant
            i <= fields@.len(),
            tree_leaves(tree) == crate::bytes::vec_views(fields@).subrange(0, i as int),
        decreases fields@.len() - i,
    {
        tree_push_raw_leaf(&mut tree, fields[i].as_slice());
        i += 1;
        assert(tree_leaves(tree) =~= crate::bytes::vec_views(fields@).subrange(0, i as int));
    }
    assert(tree_leaves(tree) =~= header_leaves(&header.header));
    let (leaf, data_hash_proof) = tree_get_index_with_proof(&mut tree, DATA_HASH_INDEX);
    assert(leaf@ == hash_encoding(header.header.data_hash));
    let decoded = decode_hash(leaf.as_slice());
    proof {
        if header.header.data_hash is Some {
            assert(leaf@.subrange(2, 34) =~= header.header.data_hash.unwrap()@);
        }
    }
    assert(decoded is Some && decoded.unwrap()@ == hash_bytes(header.header.data_hash));
    let root = tree_root(&mut tree);
    assert(root@.len() == 32);
    let block_hash_matches = match &header.hash {
        Some(hash) => bytes_eq(root.as_slice(), hash.as_slice()),
        None => false,
    };
    if !block_hash_matches {
        return Err(HeaderTreeError::BlockHashMismatch);
    }
    let mut leaf_hashes: Vec<[u8; 32]> = Vec::new();
    leaf_hashes.push(hash_leaf(leaf.as_slice()));
    assert(array_views(leaf_hashes@) =~= seq![tm_leaf_hash(hash_encoding(header.header.data_hash))]);
    if !range_proof_verify(&data_hash_proof, &root, leaf_hashes.as_slice()) {
        return Err(HeaderTreeError::ProofRejected);
    }
    Ok((tree, data_hash_proof))
}

} // verus!
