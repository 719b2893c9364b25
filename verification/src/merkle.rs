//! The binary Merkle tree that commits to the row and column roots of a block,
//! and range proofs against its root.
//!
//! Hashing, tree construction and proof checking are done by the `nmt-rs`
//! crate. What it computes is named here by spec functions without a body, so
//! that the contracts of the library can say which call produced which value.

use vstd::prelude::*;
use crate::bytes::array_views;

verus! {

/// Length in bytes of a node of the tree.
pub const HASH_SIZE: usize = 32;

/// The hash that `TmSha2Hasher::hash_leaf` gives to the raw bytes of a leaf.
pub uninterp spec fn tm_leaf_hash(data: Seq<u8>) -> Seq<u8>;

/// The root that `MerkleTree::root` computes over the raw leaves, in order.
pub uninterp spec fn tm_merkle_root(leaves: Seq<Seq<u8>>) -> Seq<u8>;

/// The sibling hashes that `MerkleTree::build_range_proof` returns for the
/// leaves `start..end` of a tree over `leaves`.
pub uninterp spec fn tm_range_siblings(leaves: Seq<Seq<u8>>, start: int, end: int) -> Seq<Seq<u8>>;

/// Whether `Proof::verify_range` accepts the leaf hashes at `start..end`
/// against `root`, given the sibling hashes.
pub uninterp spec fn tm_range_verifies(
    siblings: Seq<Seq<u8>>,
    start: int,
    end: int,
    root: Seq<u8>,
    leaf_hashes: Seq<Seq<u8>>,
) -> bool;

/// The raw leaves that were pushed into a tree, oldest first.
pub uninterp spec fn tree_leaves(tree: MerkleTree) -> Seq<Seq<u8>>;

/// A proof that a run of consecutive leaves belongs to a tree with a given
/// root: the sibling hashes on the way up, and the indices of the run.
#[derive(Clone, Debug)]
pub struct RangeProof {
    /// The sibling hashes, in the order of an in-order walk of the tree.
    pub siblings: Vec<[u8; 32]>,
    /// Index of the first leaf of the run.
    pub start_idx: u32,
    /// Index one past the last leaf of the run.
    pub end_idx: u32,
}

impl RangeProof {
    /// The sibling hashes as sequences of bytes.
    pub open spec fn siblings_view(&self) -> Seq<Seq<u8>> {
        array_views(self.siblings@)
    }

    /// The number of leaves the proof speaks of.
    pub open spec fn range_len(&self) -> int {
        if self.end_idx >= self.start_idx {
            self.end_idx - self.start_idx
        } else {
            0
        }
    }

    /// Whether the proof shows `leaf_hashes` to be the leaves
    /// `start_idx..end_idx` of the tree with root `root`.
    pub open spec fn verifies(&self, root: Seq<u8>, leaf_hashes: Seq<Seq<u8>>) -> bool {
        tm_range_verifies(
            self.siblings_view(),
            self.start_idx as int,
            self.end_idx as int,
            root,
            leaf_hashes,
        )
    }
}

/// An append-only Merkle tree over raw leaves, hashed as Tendermint does.
#[verifier::external_body]
pub struct MerkleTree {
    inner: nmt_rs::simple_merkle::tree::MerkleTree<
        nmt_rs::simple_merkle::db::MemDb<[u8; 32]>,
        nmt_rs::TmSha2Hasher,
    >,
}

impl MerkleTree {
    /// The leaves of the tree, oldest first.
    pub open spec fn leaves(&self) -> Seq<Seq<u8>> {
        tree_leaves(*self)
    }

    /// A tree without leaves.
    pub fn new() -> (tree: MerkleTree)
        ensures
            tree.leaves() == Seq::<Seq<u8>>::empty(),
    {
        tree_new()
    }

    /// Appends a leaf.
    pub fn push_raw_leaf(&mut self, raw_leaf: &[u8])
        ensures
            final(self).leaves() == old(self).leaves().push(raw_leaf@),
    {
        tree_push_raw_leaf(self, raw_leaf)
    }

    /// The root over the leaves.
    pub fn root(&mut self) -> (root: [u8; 32])
        ensures
            root@ == tm_merkle_root(old(self).leaves()),
            final(self).leaves() == old(self).leaves(),
    {
        tree_root(self)
    }

    /// The proof for the leaves `start..end`; `None` for an empty range, a
    /// range that ends past the last leaf, or one past what a proof can
    /// address.
    pub fn build_range_proof(&mut self, start: usize, end: usize) -> (proof: Option<RangeProof>)
        ensures
            final(self).leaves() == old(self).leaves(),
            proof is Some <==> start < end <= old(self).leaves().len() && end <= u32::MAX,
            proof is Some ==> {
                &&& proof.unwrap().siblings_view() == tm_range_siblings(
                    old(self).leaves(),
                    start as int,
                    end as int,
                )
                &&& proof.unwrap().start_idx == start
                &&& proof.unwrap().end_idx == end
            },
    {
        let leaf_count = tree_len(self);
        if start < end && end <= leaf_count && end <= 0xffff_ffff {
            Some(tree_build_range_proof(self, start, end))
        } else {
            None
        }
    }
}

impl RangeProof {
    /// Checks the proof for the given leaf hashes against `root`.
    pub fn verify_range(&self, root: &[u8; 32], leaf_hashes: &[[u8; 32]]) -> (ok: bool)
        ensures
            ok == self.verifies(root@, array_views(leaf_hashes@)),
    {
        range_proof_verify(self, root, leaf_hashes)
    }
}

/// The hash of a raw leaf.
pub fn leaf_hash(data: &[u8]) -> (hash: [u8; 32])
    ensures
        hash@ == tm_leaf_hash(data@),
{
    hash_leaf(data)
}

/// `MerkleTree::with_hasher` of `nmt-rs`, with the Tendermint hasher: the new
/// tree holds no leaf.
#[verifier::external_body]
pub(crate) fn tree_new() -> (tree: MerkleTree)
    ensures
        tree_leaves(tree) == Seq::<Seq<u8>>::empty(),
{
    MerkleTree { inner: nmt_rs::simple_merkle::tree::MerkleTree::with_hasher(nmt_rs::TmSha2Hasher {}) }
}

/// `MerkleTree::leaves` of `nmt-rs`, counted: the number of leaves in the
/// tree.
#[verifier::external_body]
pub(crate) fn tree_len(tree: &MerkleTree) -> (count: usize)
    ensures
        count == tree_leaves(*tree).len(),
{
    tree.inner.leaves().len()
}

/// `MerkleTree::push_raw_leaf` of `nmt-rs`: the leaf is appended after the
/// leaves already in the tree, which stay as they are.
#[verifier::external_body]
pub(crate) fn tree_push_raw_leaf(tree: &mut MerkleTree, raw_leaf: &[u8])
    ensures
        tree_leaves(*final(tree)) == tree_leaves(*old(tree)).push(raw_leaf@),
{
    tree.inner.push_raw_leaf(raw_leaf)
}

/// `MerkleTree::root` of `nmt-rs`: the root over the leaves in the tree. The
/// call caches the root and leaves the leaves unchanged.
#[verifier::external_body]
pub(crate) fn tree_root(tree: &mut MerkleTree) -> (root: [u8; 32])
    ensures
        root@ == tm_merkle_root(tree_leaves(*old(tree))),
        tree_leaves(*final(tree)) == tree_leaves(*old(tree)),
{
    tree.inner.root()
}

/// `MerkleTree::build_range_proof` of `nmt-rs` for the leaves `start..end`:
/// the proof carries that range and the siblings the crate collects. The
/// crate panics on a range that ends past the last leaf, and stores the range
/// in 32 bits; both are excluded here.
#[verifier::external_body]
pub(crate) fn tree_build_range_proof(tree: &mut MerkleTree, start: usize, end: usize) -> (proof:
    RangeProof)
    requires
        start < end <= tree_leaves(*old(tree)).len(),
        end <= u32::MAX,
    ensures
        proof.siblings_view() == tm_range_siblings(
            tree_leaves(*old(tree)),
            start as int,
            end as int,
        ),
        proof.start_idx == start,
        proof.end_idx == end,
        tree_leaves(*final(tree)) == tree_leaves(*old(tree)),
{
    let p = tree.inner.build_range_proof(start..end);
    RangeProof { siblings: p.siblings, start_idx: p.range.start, end_idx: p.range.end }
}

/// `MerkleTree::get_index_with_proof` of `nmt-rs`: the raw leaf at `idx` and
/// the range proof for `idx..idx + 1`. The crate panics on an index past the
/// last leaf.
#[verifier::external_body]
pub(crate) fn tree_get_index_with_proof(tree: &mut MerkleTree, idx: usize) -> (found: (
    Vec<u8>,
    RangeProof,
))
    requires
        idx < tree_leaves(*old(tree)).len(),
        idx < u32::MAX,
    ensures
        found.0@ == tree_leaves(*old(tree))[idx as int],
        found.1.siblings_view() == tm_range_siblings(
            tree_leaves(*old(tree)),
            idx as int,
            idx + 1,
        ),
        found.1.start_idx == idx,
        found.1.end_idx == idx + 1,
        tree_leaves(*final(tree)) == tree_leaves(*old(tree)),
{
    let (leaf, p) = tree.inner.get_index_with_proof(idx);
    (leaf, RangeProof { siblings: p.siblings, start_idx: p.range.start, end_idx: p.range.end })
}

/// `TmSha2Hasher::hash_leaf` of `nmt-rs`: the hash of a raw leaf.
#[verifier::external_body]
pub(crate) fn hash_leaf(data: &[u8]) -> (hash: [u8; 32])
    ensures
        hash@ == tm_leaf_hash(data@),
{
    nmt_rs::simple_merkle::tree::MerkleHash::hash_leaf(&nmt_rs::TmSha2Hasher {}, data)
}

/// `Proof::verify_range` of `nmt-rs` with the Tendermint hasher: whether the
/// crate accepts the proof. It rejects any number of leaf hashes other than
/// the length of the proof's range.
#[verifier::external_body]
pub(crate) fn range_proof_verify(proof: &RangeProof, root: &[u8; 32], leaf_hashes: &[[u8; 32]]) -> (ok:
    bool)
    ensures
        ok == tm_range_verifies(
            proof.siblings_view(),
            proof.start_idx as int,
            proof.end_idx as int,
            root@,
            array_views(leaf_hashes@),
        ),
        ok ==> leaf_hashes@.len() == proof.range_len(),
{
    let p = nmt_rs::simple_merkle::proof::Proof::<nmt_rs::TmSha2Hasher> {
        siblings: proof.siblings.clone(),
        range: proof.start_idx..proof.end_idx,
    };
    p.verify_range(root, leaf_hashes).is_ok()
}

} // verus!
