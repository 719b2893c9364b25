//! Proofs that a run of shares belongs to one row of the data square.
//!
//! A row is committed to by the root of a namespaced Merkle tree: every node
//! carries, before its hash, the least and the greatest namespace found under
//! it. The proofs are checked by the `nmt-rs` crate. That crate aborts when
//! it is asked to join two nodes whose namespaces are out of order, so the
//! library first looks at the namespaces of the nodes of a proof of presence
//! and hands the crate only proofs whose nodes are in order.
//!
//! The order asked for is that of a tree over leaves sorted by namespace. It
//! asks more than the crate compares: the crate looks only at the two nodes
//! of each join, and with the namespace of parity shares left out of the
//! ranges it lowers the greatest namespace of some joined nodes. A proof for
//! a row that is not sorted by namespace may pass the crate and fail here.

use vstd::prelude::*;
use crate::blob::Namespace;
use crate::bytes::{array_views, vec_views};

verus! {

/// Length in bytes of a node: two namespaces and a 32-byte hash.
pub const NAMESPACED_HASH_SIZE: usize = 90;

/// Whether `NamespaceProof::verify_range` accepts the raw leaves as the
/// leaves `start..end` of the row with the given root, all of them in
/// `namespace`.
pub uninterp spec fn nmt_range_verifies(
    nodes: Seq<Seq<u8>>,
    absence: bool,
    leaf: Option<Seq<u8>>,
    start: int,
    end: int,
    ignore_max_ns: bool,
    root: Seq<u8>,
    raw_leaves: Seq<Seq<u8>>,
    namespace: Seq<u8>,
) -> bool;

/// The least namespace under a node.
pub open spec fn min_ns(node: Seq<u8>) -> Seq<u8> {
    node.subrange(0, 29)
}

/// The greatest namespace under a node.
pub open spec fn max_ns(node: Seq<u8>) -> Seq<u8> {
    node.subrange(29, 58)
}

/// Byte strings of one length, compared from the first byte on: `a` comes
/// before `b` or equals it.
pub open spec fn ns_le(a: Seq<u8>, b: Seq<u8>) -> bool {
    a == b || exists|i: int|
        0 <= i < a.len() && i < b.len() && #[trigger] a[i] < b[i] && a.subrange(0, i)
            == b.subrange(0, i)
}

/// The number of nodes of a proof that stand to the left of a run starting at
/// leaf `idx`: one for each binary digit 1 of `idx`.
pub open spec fn left_sibling_count(idx: nat) -> nat
    decreases idx,
{
    if idx == 0 {
        0
    } else {
        (idx % 2) + left_sibling_count(idx / 2)
    }
}

/// What a row proof claims.
#[derive(Clone, Copy, Debug)]
pub enum ProofKind {
    /// The leaves of the range are in the row.
    Presence,
    /// A namespace is absent from the row; where the namespace lies within
    /// the range of the row, the leaf that follows it is given.
    Absence(Option<[u8; 90]>),
}

/// A proof that the leaves `start_idx..end_idx` of a row are the given
/// shares, or that a namespace is absent from the row.
#[derive(Clone, Debug)]
pub struct NamespaceProof {
    /// Index of the first leaf of the run.
    pub start_idx: u32,
    /// Index one past the last leaf of the run.
    pub end_idx: u32,
    /// The nodes beside the path to the root, from left to right.
    pub nodes: Vec<[u8; 90]>,
    /// Whether the proof is one of presence or of absence.
    pub kind: ProofKind,
    /// Whether the namespace of parity shares is left out of the ranges.
    pub ignore_max_ns: bool,
}

impl NamespaceProof {
    /// The nodes as sequences of bytes.
    pub open spec fn nodes_view(&self) -> Seq<Seq<u8>> {
        array_views(self.nodes@)
    }

    /// Whether the proof is one of absence.
    pub open spec fn is_absence(&self) -> bool {
        self.kind is Absence
    }

    /// The leaf of a proof of absence as a sequence of bytes, where it has
    /// one.
    pub open spec fn leaf_view(&self) -> Option<Seq<u8>> {
        match self.kind {
            ProofKind::Absence(Some(leaf)) => Some(leaf@),
            _ => None,
        }
    }

    /// The number of leaves the proof speaks of.
    pub open spec fn range_len(&self) -> int {
        if self.end_idx >= self.start_idx {
            self.end_idx - self.start_idx
        } else {
            0
        }
    }

    /// Whether the proof shows `raw_leaves` to be leaves
    /// `start_idx..end_idx` of the row with root `root`.
    pub open spec fn verifies(&self, root: Seq<u8>, raw_leaves: Seq<Seq<u8>>, namespace: Seq<u8>) -> bool {
        nmt_range_verifies(
            self.nodes_view(),
            self.is_absence(),
            self.leaf_view(),
            self.start_idx as int,
            self.end_idx as int,
            self.ignore_max_ns,
            root,
            raw_leaves,
            namespace,
        )
    }

    /// Whether the nodes, with the leaves of `namespace` put in their place
    /// among them, run in the order of their namespaces.
    pub open spec fn nodes_in_order(&self, namespace: Seq<u8>) -> bool {
        nodes_ordered(self.nodes_view(), left_sibling_count(self.start_idx as nat) as int, namespace)
    }

    /// Whether the library hands the proof on to be checked: every proof of
    /// absence, and every other proof whose nodes are in order.
    pub open spec fn checkable(&self, namespace: Seq<u8>) -> bool {
        self.kind is Presence ==> self.nodes_in_order(namespace)
    }
}

/// What is asked of the place `i` between the nodes, where the leaves stand
/// at place `k`: the namespaces on the left end before those on the right
/// begin.
pub open spec fn link_ordered(nodes: Seq<Seq<u8>>, k: int, namespace: Seq<u8>, i: int) -> bool {
    if i == k {
        &&& i > 0 ==> ns_le(max_ns(nodes[i - 1]), namespace)
        &&& i < nodes.len() ==> ns_le(namespace, min_ns(nodes[i]))
    } else {
        0 < i < nodes.len() ==> ns_le(max_ns(nodes[i - 1]), min_ns(nodes[i]))
    }
}

/// Whether nodes of which the first `k` stand left of leaves of `namespace`
/// are in order: within each node, and from each to the next. A proof with
/// fewer than `k` nodes is never walked, and nothing is asked of it.
pub open spec fn nodes_ordered(nodes: Seq<Seq<u8>>, k: int, namespace: Seq<u8>) -> bool {
    k <= nodes.len() ==> {
        &&& forall|i: int|
            0 <= i < nodes.len() ==> ns_le(min_ns(#[trigger] nodes[i]), max_ns(nodes[i]))
        &&& forall|i: int| 0 <= i <= nodes.len() ==> #[trigger] link_ordered(nodes, k, namespace, i)
    }
}

/// Compares the 29 bytes of `a` from `a_off` on with those of `b` from
/// `b_off` on.
pub fn ns_le_at(a: &[u8], a_off: usize, b: &[u8], b_off: usize) -> (le: bool)
    requires
        a_off + 29 <= a@.len(),
        b_off + 29 <= b@.len(),
    ensures
        le == ns_le(a@.subrange(a_off as int, a_off + 29), b@.subrange(b_off as int, b_off + 29)),
{
    let ghost x = a@.subrange(a_off as int, a_off + 29);
    let ghost y = b@.subrange(b_off as int, b_off + 29);
    let a_len = a.len();
    let b_len = b.len();
    let mut i: usize = 0;
    while i < 29
        invariant
            i <= 29,
            a_off + 29 <= a_len == a@.len(),
            b_off + 29 <= b_len == b@.len(),
            x == a@.subrange(a_off as int, a_off + 29),
            y == b@.subrange(b_off as int, b_off + 29),
            x.subrange(0, i as int) == y.subrange(0, i as int),
        decreases 29 - i,
    {
        let p: u8 = a[a_off + i];
        let q: u8 = b[b_off + i];
        assert(p == x[i as int] && q == y[i as int]);
        if p < q {
            return true;
        }
        if p > q {
            assert(x != y);
            assert forall|j: int|
                0 <= j < x.len() && j < y.len() && #[trigger] x[j] < y[j] implies x.subrange(0, j)
                != y.subrange(0, j) by {
                if j < i {
                    assert(x.subrange(0, i as int)[j] == y.subrange(0, i as int)[j]);
                } else if j > i {
                    if x.subrange(0, j) == y.subrange(0, j) {
                        assert(x.subrange(0, j)[i as int] == y.subrange(0, j)[i as int]);
                    }
                }
            }
            return false;
        }
        assert(x.subrange(0, i + 1) =~= x.subrange(0, i as int).push(x[i as int]));
        assert(y.subrange(0, i + 1) =~= y.subrange(0, i as int).push(y[i as int]));
        i += 1;
    }
    assert(x =~= x.subrange(0, 29));
    assert(y =~= y.subrange(0, 29));
    true
}

/// Counts the binary digits 1 of `idx`.
pub fn count_left_siblings(idx: u32) -> (count: usize)
    ensures
        count == left_sibling_count(idx as nat),
{
    let mut rest: u32 = idx;
    let mut count: usize = 0;
    while rest != 0
        invariant
            count + left_sibling_count(rest as nat) == left_sibling_count(idx as nat),
            count + rest <= idx,
        decreases rest,
    {
        if rest % 2 == 1 {
            count += 1;
        }
        rest = rest / 2;
    }
    count
}

/// Whether the nodes of a proof, with the leaves of `namespace` among them,
/// run in the order of their namespaces.
pub fn check_nodes_in_order(proof: &NamespaceProof, namespace: &Namespace) -> (ok: bool)
    ensures
        ok == proof.nodes_in_order(namespace.bytes@),
{
    let k = count_left_siblings(proof.start_idx);
    let n = proof.nodes.len();
    if k > n {
        return true;
    }
    let ns = namespace.bytes.as_slice();
    let ghost nodes = proof.nodes_view();
    let ghost nsv = namespace.bytes@;
    let mut i: usize = 0;
    while i < n
        invariant
            i <= n,
            k <= n,
            n == proof.nodes@.len(),
            nodes == proof.nodes_view(),
            nodes.len() == n,
            nsv == namespace.bytes@,
            ns@ == nsv,
            k == left_sibling_count(proof.start_idx as nat),
            forall|j: int| 0 <= j < i ==> ns_le(min_ns(#[trigger] nodes[j]), max_ns(nodes[j])),
            forall|j: int| 0 <= j < i ==> #[trigger] link_ordered(nodes, k as int, nsv, j),
        decreases n - i,
    {
        let node = proof.nodes[i].as_slice();
        assert(node@ == nodes[i as int]);
        if !ns_le_at(node, 0, node, 29) {
            return false;
        }
        let mut linked = true;
        if i > 0 {
            let prev = proof.nodes[i - 1].as_slice();
            assert(prev@ == nodes[i - 1]);
            if i == k {
                linked = ns_le_at(prev, 29, ns, 0);
            } else {
                linked = ns_le_at(prev, 29, node, 0);
            }
        }
        if i == k {
            linked = linked && ns_le_at(ns, 0, node, 0);
        }
        assert(nsv.subrange(0, 29) =~= nsv);
        assert(linked == link_ordered(nodes, k as int, nsv, i as int));
        if !linked {
            return false;
        }
        i += 1;
    }
    let mut closed = true;
    if n == k && n > 0 {
        let last = proof.nodes[n - 1].as_slice();
        assert(last@ == nodes[n - 1]);
        assert(nsv.subrange(0, 29) =~= nsv);
        closed = ns_le_at(last, 29, ns, 0);
    }
    assert(closed == link_ordered(nodes, k as int, nsv, n as int));
    closed
}

/// `NamespaceProof::verify_range` of `nmt-rs`, on a proof of the same kind
/// put together from its nodes, range and flag: whether the crate accepts the
/// raw leaves. It accepts no proof of absence, with or without a leaf, and no
/// number of leaves other than the length of the range. The crate panics when
/// it joins two nodes whose namespaces are out of order; on nodes that are in
/// order it joins none such.
#[verifier::external_body]
pub(crate) fn nmt_verify_range(
    proof: &NamespaceProof,
    root: &[u8; 90],
    raw_leaves: &[Vec<u8>],
    namespace: &Namespace,
) -> (ok: bool)
    requires
        proof.checkable(namespace.bytes@),
    ensures
        ok == nmt_range_verifies(
            proof.nodes_view(),
            proof.is_absence(),
            proof.leaf_view(),
            proof.start_idx as int,
            proof.end_idx as int,
            proof.ignore_max_ns,
            root@,
            vec_views(raw_leaves@),
            namespace.bytes@,
        ),
        proof.kind is Absence ==> !ok,
        ok ==> raw_leaves@.len() == proof.range_len(),
{
    let node = |raw: &[u8; 90]| nmt_rs::NamespacedHash::<29>::try_from(&raw[..]).unwrap();
    let siblings = proof.nodes.iter().map(node).collect();
    let inner = nmt_rs::simple_merkle::proof::Proof { siblings, range: proof.start_idx..proof.end_idx };
    let ignore_max_ns = proof.ignore_max_ns;
    let outside: nmt_rs::NamespaceProof<nmt_rs::NamespacedSha2Hasher<29>, 29> = match &proof.kind {
        ProofKind::Presence => nmt_rs::NamespaceProof::PresenceProof { proof: inner, ignore_max_ns },
        ProofKind::Absence(leaf) => {
            nmt_rs::NamespaceProof::AbsenceProof { proof: inner, ignore_max_ns, leaf: leaf.as_ref().map(node) }
        },
    };
    outside.verify_range(&node(root), raw_leaves, nmt_rs::NamespaceId(namespace.bytes)).is_ok()
}

} // verus!
