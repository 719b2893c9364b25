//! The verifier that a zero-knowledge guest runs on a proof input.
//!
//! It rebuilds the shares of the blob, checks each row proof against its row
//! root, checks the proof of the row roots against the data root, and checks
//! the digest. It reads nothing but its input, and any failed check ends it:
//! an output exists only for an input that passed them all.

use vstd::prelude::*;
use vstd::slice::slice_subrange;
use crate::blob::{
    blob_commitment,
    blob_new,
    blob_shares,
    blob_to_shares,
    keccak256,
    keccak256_digest,
    Blob,
};
use crate::bytes::{array_views, bytes_eq, to_array32, vec_views};
use crate::header::{decode_hash, hash_decoding, hash_encoding, ExtendedHeader};
use crate::input::{
    build_outcome,
    leaf_hashes_of,
    BuildOutcome,
    KeccakInclusionToDataRootProofInput,
    KeccakInclusionToDataRootProofOutput,
};
use crate::merkle::{hash_leaf, range_proof_verify, tm_leaf_hash};
use crate::nmt::{check_nodes_in_order, nmt_verify_range, ProofKind};

verus! {

/// The check at which the verifier gave up.
#[derive(Debug)]
pub enum VerificationError {
    /// The data root of the input cannot be decoded.
    InvalidDataRoot,
    /// No blob can be made of the namespace and payload; the text says why.
    BlobCreation(String),
    /// The blob cannot be cut into shares; the text says why.
    ShareConversion(String),
    /// The row proof with this index is the first that fails: its range is
    /// inverted or ends past the shares that are left, it has no row root,
    /// it is a proof of absence, its nodes are out of namespace order, or it
    /// does not verify.
    ///
    /// The order asked of the nodes is that of a tree whose leaves are sorted
    /// by namespace: within each node the least namespace is not above the
    /// greatest, and each node ends before the next begins, the leaves
    /// standing among them at their place. The tree crate itself compares
    /// only the nodes it joins, and where the namespace of parity shares is
    /// left out of the ranges it lowers the greatest namespace of a joined
    /// node whose right child begins at that namespace; so it accepts some
    /// proofs for rows that are not sorted by namespace. Such proofs fail
    /// here.
    RowProofFailed(usize),
    /// The row proofs do not cover every share of the blob.
    SharesNotCovered,
    /// The data root is empty.
    EmptyDataRoot,
    /// The proof of the row roots into the data root does not verify.
    RowRootProofFailed,
    /// The digest of the payload is not the one the input carries.
    DigestMismatch,
}

/// How the verification of an input ends.
pub enum VerificationOutcome {
    /// The data root cannot be decoded.
    InvalidDataRoot,
    /// No blob can be made; the text is that of the cause.
    BlobCreation(Seq<char>),
    /// The blob cannot be cut into shares; the text is that of the cause.
    ShareConversion(Seq<char>),
    /// The row proof with this index is the first that fails.
    RowProofFailed(int),
    /// The row proofs do not cover every share.
    SharesNotCovered,
    /// The data root is empty.
    EmptyDataRoot,
    /// The proof of the row roots does not verify.
    RowRootProofFailed,
    /// The digest differs.
    DigestMismatch,
    /// Every check passed; the data root decodes to these 32 bytes.
    Accepted(Seq<u8>),
}

impl KeccakInclusionToDataRootProofInput {
    /// Whether row proof `i` passes, given that the shares before `cursor`
    /// are spoken for: its range is in order and ends within the shares that
    /// are left, it has a row root, its nodes are in order unless it is a
    /// proof of absence, and it verifies the next shares against that root,
    /// which no proof of absence does.
    pub open spec fn row_proof_passes(&self, shares: Seq<Seq<u8>>, i: int, cursor: int) -> bool {
        let proof = self.nmt_multiproofs@[i];
        &&& proof.start_idx <= proof.end_idx
        &&& cursor + proof.range_len() <= shares.len()
        &&& i < self.row_roots@.len()
        &&& proof.checkable(self.blob_namespace.bytes@)
        &&& proof.verifies(
            self.row_roots@[i]@,
            shares.subrange(cursor, cursor + proof.range_len()),
            self.blob_namespace.bytes@,
        )
    }

    /// The number of shares spoken for once the first `n` row proofs have
    /// passed; `None` if one of them fails.
    pub open spec fn cursor_after(&self, shares: Seq<Seq<u8>>, n: nat) -> Option<int>
        decreases n,
    {
        if n == 0 {
            Some(0int)
        } else {
            match self.cursor_after(shares, (n - 1) as nat) {
                None => None,
                Some(cursor) => if self.row_proof_passes(shares, n - 1, cursor) {
                    Some(cursor + self.nmt_multiproofs@[n - 1].range_len())
                } else {
                    None
                },
            }
        }
    }

    /// The decision of the verifier on this input, check by check.
    pub open spec fn verification_outcome(&self) -> VerificationOutcome {
        let namespace = self.blob_namespace.bytes@;
        match hash_decoding(self.data_root@) {
            None => VerificationOutcome::InvalidDataRoot,
            Some(data_root) => match blob_commitment(namespace, self.blob_data@) {
                Err(cause) => VerificationOutcome::BlobCreation(cause),
                Ok(_) => match blob_shares(namespace, 0, self.blob_data@) {
                    Err(cause) => VerificationOutcome::ShareConversion(cause),
                    Ok(shares) => self.outcome_on_shares(data_root, shares),
                },
            },
        }
    }

    /// The decision of the verifier once the data root is decoded and the
    /// shares of the blob are at hand.
    pub open spec fn outcome_on_shares(
        &self,
        data_root: Seq<u8>,
        shares: Seq<Seq<u8>>,
    ) -> VerificationOutcome {
        let count = self.nmt_multiproofs@.len();
        if exists|i: int| 0 <= i < count && self.first_failure(shares, i) {
            VerificationOutcome::RowProofFailed(
                choose|i: int| 0 <= i < count && self.first_failure(shares, i),
            )
        } else if self.cursor_after(shares, count) != Some(shares.len() as int) {
            VerificationOutcome::SharesNotCovered
        } else if data_root.len() != 32 {
            VerificationOutcome::EmptyDataRoot
        } else if !self.row_root_multiproof.verifies(
            data_root,
            leaf_hashes_of(array_views(self.row_roots@)),
        ) {
            VerificationOutcome::RowRootProofFailed
        } else if keccak256(self.blob_data@) != self.keccak_hash@ {
            VerificationOutcome::DigestMismatch
        } else {
            VerificationOutcome::Accepted(data_root)
        }
    }

    /// What the verifier commits to for this input once every check has
    /// passed: the digest of the payload, and the data root as carried.
    pub open spec fn committed_values(&self) -> (Seq<u8>, Seq<u8>) {
        (keccak256(self.blob_data@), self.data_root@)
    }

    /// Whether row proof `i` is the first to fail.
    pub open spec fn first_failure(&self, shares: Seq<Seq<u8>>, i: int) -> bool {
        &&& i >= 0
        &&& self.cursor_after(shares, i as nat) is Some
        &&& !self.row_proof_passes(shares, i, self.cursor_after(shares, i as nat).unwrap())
    }

    /// At most one row proof is the first to fail.
    pub proof fn lemma_first_failure_unique(&self, shares: Seq<Seq<u8>>, i: int, j: int)
        requires
            self.first_failure(shares, i),
            self.first_failure(shares, j),
        ensures
            i == j,
    {
        if i < j {
            self.lemma_cursor_prefix(shares, i, j);
        } else if j < i {
            self.lemma_cursor_prefix(shares, j, i);
        }
    }

    /// Where the proofs before `j` have all passed, so has each proof before
    /// that.
    pub proof fn lemma_cursor_prefix(&self, shares: Seq<Seq<u8>>, i: int, j: int)
        requires
            0 <= i < j,
            self.cursor_after(shares, j as nat) is Some,
        ensures
            self.cursor_after(shares, i as nat) is Some,
            self.row_proof_passes(shares, i, self.cursor_after(shares, i as nat).unwrap()),
        decreases j - i,
    {
        if i + 1 < j {
            assert(self.cursor_after(shares, (j - 1) as nat) is Some);
            self.lemma_cursor_prefix(shares, i, j - 1);
        } else {
            assert(j - 1 == i);
        }
    }
}

/// The values of an output: its digest and its data root.
pub open spec fn output_view(output: KeccakInclusionToDataRootProofOutput) -> (Seq<u8>, Seq<u8>) {
    (output.keccak_hash@, output.data_root@)
}

/// Hashes each row root as a leaf of the tree under the data root.
pub fn hash_row_roots(rows: &Vec<[u8; 90]>) -> (hashes: Vec<[u8; 32]>)
    ensures
        array_views(hashes@) == leaf_hashes_of(array_views(rows@)),
{
    let mut hashes: Vec<[u8; 32]> = Vec::new();
    let mut i: usize = 0;
    while i < rows.len()
        invariant
            i <= rows@.len(),
            hashes@.len() == i,
            forall|j: int| 0 <= j < i ==> (#[trigger] hashes@[j])@ == tm_leaf_hash(rows@[j]@),
        decreases rows@.len() - i,
    {
        let hash = hash_leaf(rows[i].as_slice());
        hashes.push(hash);
        i += 1;
    }
    assert(array_views(hashes@) =~= leaf_hashes_of(array_views(rows@)));
    hashes
}

/// Checks every row proof of the input in turn against the shares of the
/// blob; gives the number of shares they cover, or the index of the first
/// proof that fails.
pub fn verify_row_proofs(input: &KeccakInclusionToDataRootProofInput, shares: &Vec<Vec<u8>>) -> (result:
    Result<usize, usize>)
    ensures
        match result {
            Ok(cursor) => input.cursor_after(
                vec_views(shares@),
                input.nmt_multiproofs@.len(),
            ) == Some(cursor as int),
            Err(i) => i < input.nmt_multiproofs@.len() && input.first_failure(
                vec_views(shares@),
                i as int,
            ),
        },
{
    let ghost all = vec_views(shares@);
    let total = shares.len();
    let mut cursor: usize = 0;
    let mut i: usize = 0;
    while i < input.nmt_multiproofs.len()
        invariant
            i <= input.nmt_multiproofs@.len(),
            all == vec_views(shares@),
            total == shares@.len(),
            cursor <= total,
            input.cursor_after(all, i as nat) == Some(cursor as int),
        decreases input.nmt_multiproofs@.len() - i,
    {
        let proof = &input.nmt_multiproofs[i];
        if proof.end_idx < proof.start_idx {
            return Err(i);
        }
        let len: usize = (proof.end_idx - proof.start_idx) as usize;
        if len > total - cursor || i >= input.row_roots.len() {
            return Err(i);
        }
        let in_order = match proof.kind {
            ProofKind::Presence => check_nodes_in_order(proof, &input.blob_namespace),
            ProofKind::Absence(_) => true,
        };
        if !in_order {
            return Err(i);
        }
        let run = slice_subrange(shares.as_slice(), cursor, cursor + len);
        assert(vec_views(run@) =~= all.subrange(cursor as int, cursor + len));
        if !nmt_verify_range(proof, &input.row_roots[i], run, &input.blob_namespace) {
            return Err(i);
        }
        cursor = cursor + len;
        i += 1;
    }
    Ok(cursor)
}

/// Runs every check on a proof input and gives the values to commit to.
///
/// The checks, in order, each with the error it ends in: the data root can
/// be decoded; a blob can be made of the namespace and payload; it can be
/// cut into shares; each row proof passes on the shares that follow those of
/// the proof before it; the row proofs cover all shares; the data root is
/// not empty; the proof of the row roots verifies against it; the digest of
/// the payload is the one carried. The output holds that digest and the
/// data root as the input carries it.
pub fn verify_inclusion(input: &KeccakInclusionToDataRootProofInput) -> (result: Result<
    KeccakInclusionToDataRootProofOutput,
    VerificationError,
>)
    ensures
        match input.verification_outcome() {
            VerificationOutcome::InvalidDataRoot => result is Err
                && result->Err_0 is InvalidDataRoot,
            VerificationOutcome::BlobCreation(cause) => result is Err
                && result->Err_0 is BlobCreation && result->Err_0->BlobCreation_0@ == cause,
            VerificationOutcome::ShareConversion(cause) => result is Err
                && result->Err_0 is ShareConversion && result->Err_0->ShareConversion_0@ == cause,
            VerificationOutcome::RowProofFailed(i) => result is Err
                && result->Err_0 is RowProofFailed && result->Err_0->RowProofFailed_0 == i,
            VerificationOutcome::SharesNotCovered => result is Err
                && result->Err_0 is SharesNotCovered,
            VerificationOutcome::EmptyDataRoot => result is Err && result->Err_0 is EmptyDataRoot,
            VerificationOutcome::RowRootProofFailed => result is Err
                && result->Err_0 is RowRootProofFailed,
            VerificationOutcome::DigestMismatch => result is Err
                && result->Err_0 is DigestMismatch,
            VerificationOutcome::Accepted(_) => result is Ok
                && result->Ok_0.keccak_hash@ == keccak256(input.blob_data@)
                && result->Ok_0.keccak_hash@ == input.keccak_hash@
                && result->Ok_0.data_root@ == input.data_root@
                && output_view(result->Ok_0) == input.committed_values(),
        },
{
    let data_root: Vec<u8> = match decode_hash(input.data_root.as_slice()) {
        Some(data_root) => data_root,
        None => {
            return Err(VerificationError::InvalidDataRoot);
        },
    };
    let commitment: [u8; 32] = match blob_new(&input.blob_namespace, &input.blob_data) {
        Ok(commitment) => commitment,
        Err(cause) => {
            return Err(VerificationError::BlobCreation(cause));
        },
    };
    let blob = Blob {
        namespace: input.blob_namespace,
        data: input.blob_data.clone(),
        share_version: 0,
        commitment,
        index: Some(input.blob_index),
    };
    let shares: Vec<Vec<u8>> = match blob_to_shares(&blob) {
        Ok(shares) => shares,
        Err(cause) => {
            return Err(VerificationError::ShareConversion(cause));
        },
    };
    let ghost all = vec_views(shares@);
    let cursor: usize = match verify_row_proofs(input, &shares) {
        Ok(cursor) => cursor,
        Err(i) => {
            proof {
                assert forall|j: int|
                    0 <= j < input.nmt_multiproofs@.len() && input.first_failure(
                        all,
                        j,
                    ) implies j == i by {
                    input.lemma_first_failure_unique(all, i as int, j);
                }
            }
            return Err(VerificationError::RowProofFailed(i));
        },
    };
    proof {
        assert forall|j: int| 0 <= j < input.nmt_multiproofs@.len() implies !input.first_failure(
            all,
            j,
        ) by {
            input.lemma_cursor_prefix(all, j, input.nmt_multiproofs@.len() as int);
        }
    }
    if cursor != shares.len() {
        return Err(VerificationError::SharesNotCovered);
    }
    let root: [u8; 32] = match to_array32(data_root.as_slice()) {
        Some(root) => root,
        None => {
            return Err(VerificationError::EmptyDataRoot);
        },
    };
    let leaf_hashes = hash_row_roots(&input.row_roots);
    if !range_proof_verify(&input.row_root_multiproof, &root, leaf_hashes.as_slice()) {
        return Err(VerificationError::RowRootProofFailed);
    }
    let digest = keccak256_digest(input.blob_data.as_slice());
    if !bytes_eq(digest.as_slice(), input.keccak_hash.as_slice()) {
        return Err(VerificationError::DigestMismatch);
    }
    Ok(KeccakInclusionToDataRootProofOutput { keccak_hash: digest, data_root: input.data_root.clone() })
}

/// An input that was built for a blob and a header passes every check of the
/// verifier, which then commits to the digest of the blob's payload and to
/// the data root that the input carries, the encoded data hash of the
/// header; provided that what the builder never looked at holds too: the
/// blob is in share format 0 and a blob can be made of its namespace and
/// payload, the row proofs pass in turn and cover all its shares, and the
/// decoder reads the data hash back from its encoding.
pub proof fn law_built_input_is_accepted(
    input: &KeccakInclusionToDataRootProofInput,
    blob: &Blob,
    header: &ExtendedHeader,
    first: int,
    last: int,
)
    requires
        build_outcome(blob, header) == (BuildOutcome::Built { first, last }),
        input.built_from(blob, header, input.nmt_multiproofs, first, last),
        input.row_roots_verify(header.header.data_hash.unwrap()@),
        blob.share_version == 0,
        blob_commitment(blob.namespace.bytes@, blob.data@) is Ok,
        input.cursor_after(
            blob_shares(blob.namespace.bytes@, 0, blob.data@)->Ok_0,
            input.nmt_multiproofs@.len(),
        ) == Some(blob_shares(blob.namespace.bytes@, 0, blob.data@)->Ok_0.len() as int),
        hash_decoding(hash_encoding(header.header.data_hash)) == Some(
            header.header.data_hash.unwrap()@,
        ),
    ensures
        input.verification_outcome() == VerificationOutcome::Accepted(
            header.header.data_hash.unwrap()@,
        ),
        keccak256(input.blob_data@) == input.keccak_hash@,
        input.committed_values() == (keccak256(blob.data@), input.data_root@),
        input.data_root@ == hash_encoding(header.header.data_hash),
{
    let shares = blob_shares(blob.namespace.bytes@, 0, blob.data@)->Ok_0;
    let count = input.nmt_multiproofs@.len();
    assert(input.blob_data@ == blob.data@);
    assert(input.blob_namespace.bytes@ == blob.namespace.bytes@);
    assert forall|i: int| 0 <= i < count implies !input.first_failure(shares, i) by {
        input.lemma_cursor_prefix(shares, i, count as int);
    }
    assert(header.header.data_hash.unwrap()@.len() == 32);
}

/// An input that passes the verifier has a row root for each of its row
/// proofs, and its row proofs cover the shares of its blob exactly.
pub proof fn law_accepted_input_is_covered(input: &KeccakInclusionToDataRootProofInput)
    requires
        input.verification_outcome() is Accepted,
    ensures
        input.nmt_multiproofs@.len() <= input.row_roots@.len(),
        input.cursor_after(
            blob_shares(input.blob_namespace.bytes@, 0, input.blob_data@)->Ok_0,
            input.nmt_multiproofs@.len(),
        ) == Some(
            blob_shares(input.blob_namespace.bytes@, 0, input.blob_data@)->Ok_0.len() as int,
        ),
        keccak256(input.blob_data@) == input.keccak_hash@,
{
    let shares = blob_shares(input.blob_namespace.bytes@, 0, input.blob_data@)->Ok_0;
    let count = input.nmt_multiproofs@.len();
    if count > 0 {
        input.lemma_cursor_prefix(shares, count - 1, count as int);
    }
}

/// An input built for the rows `first..=last` carries one root for each of
/// those rows, so one that passes the verifier has at most that many row
/// proofs.
pub proof fn law_row_proofs_fit_span(
    input: &KeccakInclusionToDataRootProofInput,
    blob: &Blob,
    header: &ExtendedHeader,
    first: int,
    last: int,
)
    requires
        build_outcome(blob, header) == (BuildOutcome::Built { first, last }),
        input.built_from(blob, header, input.nmt_multiproofs, first, last),
        input.verification_outcome() is Accepted,
    ensures
        input.row_roots@.len() == last - first + 1,
        input.nmt_multiproofs@.len() <= last - first + 1,
{
    law_accepted_input_is_covered(input);
    let eds_size = header.dah.row_roots@.len() as int;
    let shares = blob_shares(blob.namespace.bytes@, blob.share_version, blob.data@)->Ok_0;
    crate::span::lemma_first_row_bounds(
        blob.index.unwrap() as int,
        crate::span::blob_size_of(shares.len() as int),
        eds_size,
    );
}

} // verus!
