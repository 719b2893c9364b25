//! The part of a block header that the proofs read, and the encoding of its
//! hashes.

use vstd::prelude::*;
use crate::bytes::array_views;

verus! {

/// The hash of the previous block with the header of its part set.
#[derive(Clone, Debug)]
pub struct BlockId {
    /// The hash of the block; absent where the header leaves it empty.
    pub hash: Option<[u8; 32]>,
    /// The number of parts the block was cut into.
    pub part_set_total: u32,
    /// The hash of the part set; absent where the header leaves it empty.
    pub part_set_hash: Option<[u8; 32]>,
}

/// The fields of a block header, in the order in which they are hashed.
#[derive(Clone, Debug)]
pub struct Header {
    /// Version of the block protocol.
    pub version_block: u64,
    /// Version of the application.
    pub version_app: u64,
    /// Name of the chain.
    pub chain_id: String,
    /// Height of the block.
    pub height: u64,
    /// Seconds of the block time since the epoch.
    pub time_seconds: i64,
    /// Nanoseconds of the block time within its second.
    pub time_nanos: u32,
    /// The previous block; absent on the first.
    pub last_block_id: Option<BlockId>,
    /// Commit of the previous block.
    pub last_commit_hash: Option<[u8; 32]>,
    /// Root over the row and column roots of the data square.
    pub data_hash: Option<[u8; 32]>,
    /// Validators of this block.
    pub validators_hash: Option<[u8; 32]>,
    /// Validators of the next block.
    pub next_validators_hash: Option<[u8; 32]>,
    /// Consensus parameters of this block.
    pub consensus_hash: Option<[u8; 32]>,
    /// State after the transactions of the previous block.
    pub app_hash: Vec<u8>,
    /// Results of the transactions of the previous block.
    pub last_results_hash: Option<[u8; 32]>,
    /// Evidence included in the block.
    pub evidence_hash: Option<[u8; 32]>,
    /// Address of the proposer.
    pub proposer_address: [u8; 20],
}

/// The roots of the rows and of the columns of the extended data square.
#[derive(Clone, Debug)]
pub struct DataAvailabilityHeader {
    /// One root for each row, from the top.
    pub row_roots: Vec<[u8; 90]>,
    /// One root for each column, from the left.
    pub column_roots: Vec<[u8; 90]>,
}

/// A block header with what it says of the data square.
#[derive(Clone, Debug)]
pub struct ExtendedHeader {
    /// The block header.
    pub header: Header,
    /// The hash of the block as its commit gives it.
    pub hash: Option<[u8; 32]>,
    /// The roots of the data square.
    pub dah: DataAvailabilityHeader,
}

impl DataAvailabilityHeader {
    /// The leaves of the tree under the data root: the row roots, then the
    /// column roots.
    pub open spec fn leaves(&self) -> Seq<Seq<u8>> {
        array_views(self.row_roots@) + array_views(self.column_roots@)
    }
}

/// A hash as a sequence of bytes, where there is one.
pub open spec fn hash_view(hash: Option<[u8; 32]>) -> Option<Seq<u8>> {
    match hash {
        Some(h) => Some(h@),
        None => None,
    }
}

/// The bytes of a hash: 32 of them, or none for an empty hash.
pub open spec fn hash_bytes(hash: Option<[u8; 32]>) -> Seq<u8> {
    match hash {
        Some(h) => h@,
        None => Seq::<u8>::empty(),
    }
}

/// The encoding of a hash as a message with one field of bytes: nothing for
/// an empty hash, else the key of field 1, the length 32 and the bytes.
pub open spec fn hash_encoding(hash: Option<[u8; 32]>) -> Seq<u8> {
    match hash {
        Some(h) => seq![0x0au8, 0x20u8] + h@,
        None => Seq::<u8>::empty(),
    }
}

/// What `Hash::decode_vec` reads from an encoding: the bytes of the hash,
/// none for an empty hash; `None` where it gives an error.
pub uninterp spec fn hash_decoding(encoded: Seq<u8>) -> Option<Seq<u8>>;

/// `Protobuf::encode_vec` of `tendermint-proto` on a `Hash` of `tendermint`:
/// an empty hash has an empty encoding; a hash of 32 bytes is written as
/// field 1 of a message, that is the byte `0x0a`, the length `0x20` and the
/// 32 bytes.
#[verifier::external_body]
pub(crate) fn encode_hash(hash: &Option<[u8; 32]>) -> (encoded: Vec<u8>)
    ensures
        encoded@ == hash_encoding(*hash),
{
    let outside = match hash {
        Some(h) => tendermint::Hash::Sha256(*h),
        None => tendermint::Hash::None,
    };
    tendermint_proto::Protobuf::<Vec<u8>>::encode_vec(outside)
}

/// `Protobuf::decode_vec` of `tendermint-proto` for a `Hash` of `tendermint`:
/// the bytes of the hash it reads, which are 32 or none, or `None` on its
/// error. It reads back what `encode_vec` writes: an empty input is the empty
/// hash, and the byte `0x0a`, the length `0x20` and 32 bytes are the hash of
/// those bytes.
#[verifier::external_body]
pub(crate) fn decode_hash(encoded: &[u8]) -> (decoded: Option<Vec<u8>>)
    ensures
        hash_view_of(decoded) == hash_decoding(encoded@),
        decoded is Some ==> decoded.unwrap()@.len() == 32 || decoded.unwrap()@.len() == 0,
        encoded@.len() == 0 ==> decoded is Some && decoded.unwrap()@.len() == 0,
        encoded@.len() == 34 && encoded@[0] == 0x0a && encoded@[1] == 0x20 ==> decoded is Some
            && decoded.unwrap()@ == encoded@.subrange(2, 34),
{
    match <tendermint::Hash as tendermint_proto::Protobuf<Vec<u8>>>::decode_vec(encoded) {
        Ok(tendermint::Hash::Sha256(h)) => Some(h.to_vec()),
        Ok(tendermint::Hash::None) => Some(Vec::new()),
        Err(_) => None,
    }
}

/// The bytes of a decoded hash as a sequence.
pub open spec fn hash_view_of(hash: Option<Vec<u8>>) -> Option<Seq<u8>> {
    match hash {
        Some(h) => Some(h@),
        None => None,
    }
}

} // verus!
