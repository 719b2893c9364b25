//! Building the input of an inclusion proof from a blob, the header of its
//! block and the proofs of its shares.

use vstd::prelude::*;
use crate::blob::{blob_shares, blob_to_shares, keccak256, keccak256_digest, Blob, Namespace};
use crate::bytes::{array_views, bytes_eq};
use crate::error::InclusionServiceError;
use crate::header::{encode_hash, hash_encoding, ExtendedHeader};
use crate::merkle::{
    hash_leaf,
    range_proof_verify,
    tm_leaf_hash,
    tm_merkle_root,
    tm_range_siblings,
    tm_range_verifies,
    tree_build_range_proof,
    tree_leaves,
    tree_new,
    tree_push_raw_leaf,
    tree_root,
    MerkleTree,
    RangeProof,
};
use crate::nmt::NamespaceProof;
use crate::span::{
    blob_size,
    blob_size_of,
    first_row_index_of,
    last_row_index_of,
    row_span,
    span_defined,
};

verus! {

/// All that a verifier needs to check that a blob is in a block: the blob,
/// the proofs of its shares into the rows it covers, those rows' roots, the
/// proof of those roots into the data root, and the digest to be bound.
#[derive(Clone, Debug)]
pub struct KeccakInclusionToDataRootProofInput {
    /// The payload of the blob.
    pub blob_data: Vec<u8>,
    /// Offset of the first share of the blob in the extended data square.
    pub blob_index: u64,
    /// The namespace of the blob.
    pub blob_namespace: Namespace,
    /// One proof for each row the blob covers, from the first row on.
    pub nmt_multiproofs: Vec<NamespaceProof>,
    /// The proof of the covered row roots into the data root.
    pub row_root_multiproof: RangeProof,
    /// The roots of the covered rows, from the first row on.
    pub row_roots: Vec<[u8; 90]>,
    /// The encoded data hash of the header.
    pub data_root: Vec<u8>,
    /// The Keccak-256 digest of the payload.
    pub keccak_hash: [u8; 32],
}

/// What a verifier commits to once the input has passed every check.
#[derive(Clone, Debug)]
pub struct KeccakInclusionToDataRootProofOutput {
    /// The Keccak-256 digest of the payload.
    pub keccak_hash: [u8; 32],
    /// The encoded data root, as the input carries it.
    pub data_root: Vec<u8>,
}

/// The hashes that the rows have as leaves of the tree under the data root.
pub open spec fn leaf_hashes_of(rows: Seq<Seq<u8>>) -> Seq<Seq<u8>> {
    rows.map_values(|row: Seq<u8>| tm_leaf_hash(row))
}

/// The text of the error for a blob whose rows do not lie in the square.
pub open spec fn span_error_text() -> Seq<char> {
    "blob does not fit the data square"@
}

/// How the building of an input ends, step by step.
pub enum BuildOutcome {
    /// The blob has no index.
    MissingBlobIndex,
    /// The blob cannot be cut into shares; the text is that of the cause.
    ShareConversion(Seq<char>),
    /// The rows of the blob are not defined or do not lie in the square.
    SpanOutsideSquare,
    /// The roots of the header do not give its data hash.
    RootMismatch,
    /// The range proof over the covered row roots does not verify.
    ProofRejected,
    /// The input is built, for the rows `first..=last`.
    Built { first: int, last: int },
}

/// Whether the rows `first..=last` of the header are shown, by the range
/// proof built for them, to lie under its data hash.
pub open spec fn covered_rows_verify(header: &ExtendedHeader, first: int, last: int) -> bool {
    header.header.data_hash is Some && tm_range_verifies(
        tm_range_siblings(header.dah.leaves(), first, last + 1),
        first,
        last + 1,
        header.header.data_hash.unwrap()@,
        leaf_hashes_of(array_views(header.dah.row_roots@).subrange(first, last + 1)),
    )
}

/// Whether the data hash of the header is the root over its row and column
/// roots.
pub open spec fn data_hash_matches(header: &ExtendedHeader) -> bool {
    header.header.data_hash is Some && header.header.data_hash.unwrap()@ == tm_merkle_root(
        header.dah.leaves(),
    )
}

/// The decision that `create_inclusion_proof_input` takes on a blob and a
/// header.
pub open spec fn build_outcome(blob: &Blob, header: &ExtendedHeader) -> BuildOutcome {
    let eds_size = header.dah.row_roots@.len() as int;
    if blob.index is None {
        BuildOutcome::MissingBlobIndex
    } else {
        match blob_shares(blob.namespace.bytes@, blob.share_version, blob.data@) {
            Err(cause) => BuildOutcome::ShareConversion(cause),
            Ok(shares) => {
                let index = blob.index.unwrap() as int;
                let size = blob_size_of(shares.len() as int);
                let first = first_row_index_of(index, eds_size);
                let last = last_row_index_of(index, size, eds_size);
                if !span_defined(index, size, eds_size) || last >= eds_size || eds_size
                    > u32::MAX {
                    BuildOutcome::SpanOutsideSquare
                } else if !data_hash_matches(header) {
                    BuildOutcome::RootMismatch
                } else if !covered_rows_verify(header, first, last) {
                    BuildOutcome::ProofRejected
                } else {
                    BuildOutcome::Built { first, last }
                }
            },
        }
    }
}

impl KeccakInclusionToDataRootProofInput {
    /// Whether this is the input for `blob` in the block of `header`, over
    /// the rows `first..=last`, carrying `nmt_multiproofs`.
    pub open spec fn built_from(
        &self,
        blob: &Blob,
        header: &ExtendedHeader,
        nmt_multiproofs: Vec<NamespaceProof>,
        first: int,
        last: int,
    ) -> bool {
        &&& self.blob_data@ == blob.data@
        &&& blob.index == Some(self.blob_index)
        &&& self.blob_namespace == blob.namespace
        &&& self.nmt_multiproofs == nmt_multiproofs
        &&& self.row_root_multiproof.siblings_view() == tm_range_siblings(
            header.dah.leaves(),
            first,
            last + 1,
        )
        &&& self.row_root_multiproof.start_idx == first
        &&& self.row_root_multiproof.end_idx == last + 1
        &&& self.row_roots@ == header.dah.row_roots@.subrange(first, last + 1)
        &&& self.data_root@ == hash_encoding(header.header.data_hash)
        &&& self.keccak_hash@ == keccak256(blob.data@)
    }

    /// Whether the proof carried by the input shows its row roots to lie
    /// under the data hash `data_hash`.
    pub open spec fn row_roots_verify(&self, data_hash: Seq<u8>) -> bool {
        self.row_root_multiproof.verifies(data_hash, leaf_hashes_of(array_views(self.row_roots@)))
    }
}

/// Puts the row roots and then the column roots of a header into a new tree.
pub fn build_row_root_tree(header: &ExtendedHeader) -> (tree: MerkleTree)
    ensures
        tree_leaves(tree) == header.dah.leaves(),
{
    let mut tree = tree_new();
    let rows = &header.dah.row_roots;
    let columns = &header.dah.column_roots;
    let mut i: usize = 0;
    while i < rows.len()
        invariant
            i <= rows@.len(),
            tree_leaves(tree) == array_views(rows@).subrange(0, i as int),
        decreases rows@.len() - i,
    {
        tree_push_raw_leaf(&mut tree, rows[i].as_slice());
        i += 1;
        assert(tree_leaves(tree) =~= array_views(rows@).subrange(0, i as int));
    }
    assert(array_views(rows@).subrange(0, i as int) =~= array_views(rows@));
    let mut j: usize = 0;
    while j < columns.len()
        invariant
            j <= columns@.len(),
            tree_leaves(tree) == array_views(rows@) + array_views(columns@).subrange(0, j as int),
        decreases columns@.len() - j,
    {
        tree_push_raw_leaf(&mut tree, columns[j].as_slice());
        j += 1;
        assert(tree_leaves(tree) =~= array_views(rows@) + array_views(columns@).subrange(
            0,
            j as int,
        ));
    }
    assert(array_views(columns@).subrange(0, j as int) =~= array_views(columns@));
    tree
}

/// Copies the roots `first..=last` and hashes each as a leaf of the tree
/// under the data root.
pub fn covered_rows(rows: &Vec<[u8; 90]>, first: usize, last: usize) -> (covered: (
    Vec<[u8; 90]>,
    Vec<[u8; 32]>,
))
    requires
        first <= last < rows@.len(),
    ensures
        covered.0@ == rows@.subrange(first as int, last + 1),
        array_views(covered.1@) == leaf_hashes_of(
            array_views(rows@).subrange(first as int, last + 1),
        ),
{
    let mut roots: Vec<[u8; 90]> = Vec::new();
    let mut hashes: Vec<[u8; 32]> = Vec::new();
    let count = rows.len();
    let mut i: usize = first;
    while i <= last
        invariant
            first <= i <= last + 1,
            last < count == rows@.len(),
            roots@ == rows@.subrange(first as int, i as int),
            hashes@.len() == i - first,
            forall|j: int|
                0 <= j < i - first ==> (#[trigger] hashes@[j])@ == tm_leaf_hash(rows@[first + j]@),
        decreases last + 1 - i,
    {
        let root: [u8; 90] = rows[i];
        let hash = hash_leaf(root.as_slice());
        roots.push(root);
        hashes.push(hash);
        i += 1;
        assert(roots@ =~= rows@.subrange(first as int, i as int));
    }
    assert(array_views(hashes@) =~= leaf_hashes_of(
        array_views(rows@).subrange(first as int, last + 1),
    ));
    (roots, hashes)
}

/// Builds the input of the inclusion proof for `blob` in the block of
/// `header`.
///
/// The steps, each with the error it ends in: the blob has an index
/// (`MissingBlobIndex`); it can be cut into shares (`ShareConversionError`,
/// with the cause); the rows it covers are defined and lie in the square,
/// and the square has no more rows than a proof can address (`GeneralError`);
/// the root over the row and column roots is the data hash of the header
/// (`RowRootVerificationFailed`); the range proof built for the covered row
/// roots verifies against the data hash (`RowRootVerificationFailed`). The
/// input then carries the payload, its digest, the given proofs, the covered
/// row roots with their proof, and the encoded data hash.
pub fn create_inclusion_proof_input(
    blob: &Blob,
    header: &ExtendedHeader,
    nmt_multiproofs: Vec<NamespaceProof>,
) -> (result: Result<KeccakInclusionToDataRootProofInput, InclusionServiceError>)
    ensures
        match build_outcome(blob, header) {
            BuildOutcome::MissingBlobIndex => result is Err
                && result->Err_0 is MissingBlobIndex,
            BuildOutcome::ShareConversion(cause) => result is Err
                && result->Err_0 is ShareConversionError
                && result->Err_0->ShareConversionError_0@ == cause,
            BuildOutcome::SpanOutsideSquare => result is Err && result->Err_0 is GeneralError
                && result->Err_0->GeneralError_0@ == span_error_text(),
            BuildOutcome::RootMismatch => result is Err
                && result->Err_0 is RowRootVerificationFailed,
            BuildOutcome::ProofRejected => result is Err
                && result->Err_0 is RowRootVerificationFailed,
            BuildOutcome::Built { first, last } => result is Ok && result->Ok_0.built_from(
                blob,
                header,
                nmt_multiproofs,
                first,
                last,
            ) && result->Ok_0.row_roots_verify(header.header.data_hash.unwrap()@),
        },
{
    let rows = &header.dah.row_roots;
    let eds_size: u64 = rows.len() as u64;
    let blob_index: u64 = match blob.index {
        Some(index) => index,
        None => {
            return Err(InclusionServiceError::MissingBlobIndex);
        },
    };
    let share_count: u64 = match blob_to_shares(blob) {
        Ok(shares) => shares.len() as u64,
        Err(cause) => {
            return Err(InclusionServiceError::ShareConversionError(cause));
        },
    };
    let size: u64 = blob_size(share_count);
    let span = match row_span(blob_index, size, eds_size) {
        Some(span) => span,
        None => {
            return Err(
                InclusionServiceError::GeneralError(
                    String::from_str("blob does not fit the data square"),
                ),
            );
        },
    };
    if span.last_row_index >= eds_size || eds_size > 0xffff_ffff {
        return Err(
            InclusionServiceError::GeneralError(
                String::from_str("blob does not fit the data square"),
            ),
        );
    }
    let first: usize = span.first_row_index as usize;
    let last: usize = span.last_row_index as usize;

    let mut tree = build_row_root_tree(header);
    let root = tree_root(&mut tree);
    let data_hash: [u8; 32] = match header.header.data_hash {
        Some(hash) => hash,
        None => {
            return Err(InclusionServiceError::RowRootVerificationFailed);
        },
    };
    if !bytes_eq(root.as_slice(), data_hash.as_slice()) {
        return Err(InclusionServiceError::RowRootVerificationFailed);
    }
    let row_root_multiproof = tree_build_range_proof(&mut tree, first, last + 1);
    let (row_roots, leaf_hashes) = covered_rows(rows, first, last);
    if !range_proof_verify(&row_root_multiproof, &data_hash, leaf_hashes.as_slice()) {
        return Err(InclusionServiceError::RowRootVerificationFailed);
    }
    let keccak_hash = keccak256_digest(blob.data.as_slice());
    proof {
        assert(array_views(row_roots@) =~= array_views(rows@).subrange(first as int, last + 1));
    }
    Ok(
        KeccakInclusionToDataRootProofInput {
            blob_data: blob.data.clone(),
            blob_index,
            blob_namespace: blob.namespace,
            nmt_multiproofs,
            row_root_multiproof,
            row_roots,
            data_root: encode_hash(&header.header.data_hash),
            keccak_hash,
        },
    )
}

/// The builder succeeds on every valid input: a blob with an index that can
/// be cut into shares and whose rows lie in a square of addressable size,
/// under a header whose data hash is the root over its row and column roots,
/// where the range proof built for the covered rows verifies against that
/// data hash. The rows it then covers are those of the span formulas.
pub proof fn law_valid_input_is_built(blob: &Blob, header: &ExtendedHeader)
    requires
        blob.index is Some,
        blob_shares(blob.namespace.bytes@, blob.share_version, blob.data@) is Ok,
        span_defined(
            blob.index.unwrap() as int,
            blob_size_of(
                blob_shares(blob.namespace.bytes@, blob.share_version, blob.data@)->Ok_0.len() as int,
            ),
            header.dah.row_roots@.len() as int,
        ),
        last_row_index_of(
            blob.index.unwrap() as int,
            blob_size_of(
                blob_shares(blob.namespace.bytes@, blob.share_version, blob.data@)->Ok_0.len() as int,
            ),
            header.dah.row_roots@.len() as int,
        ) < header.dah.row_roots@.len() <= u32::MAX,
        data_hash_matches(header),
        covered_rows_verify(
            header,
            first_row_index_of(blob.index.unwrap() as int, header.dah.row_roots@.len() as int),
            last_row_index_of(
                blob.index.unwrap() as int,
                blob_size_of(
                    blob_shares(
                        blob.namespace.bytes@,
                        blob.share_version,
                        blob.data@,
                    )->Ok_0.len() as int,
                ),
                header.dah.row_roots@.len() as int,
            ),
        ),
    ensures
        build_outcome(blob, header) == (BuildOutcome::Built {
            first: first_row_index_of(
                blob.index.unwrap() as int,
                header.dah.row_roots@.len() as int,
            ),
            last: last_row_index_of(
                blob.index.unwrap() as int,
                blob_size_of(
                    blob_shares(
                        blob.namespace.bytes@,
                        blob.share_version,
                        blob.data@,
                    )->Ok_0.len() as int,
                ),
                header.dah.row_roots@.len() as int,
            ),
        }),
{
}

} // verus!
