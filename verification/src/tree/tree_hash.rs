//! The tree hash: what is hashed for a leaf and for a parent, and the walk
//! that hashes a subtree from its leaves up.
//!
//! The digest itself is not computed here. A walk hands out the bytes to hash,
//! one input at a time, and takes the digest of each in return.
use crate::encode_util::{
    encode_slice, encode_u32_slice, extend_bytes, spec_be_bytes, spec_encode_slice,
    spec_encode_u32_slice, LenType,
};
use crate::key_package::{KeyPackage, KeyPackageView};
use crate::traits::Encode;
use crate::tree::node::{Node, NodeView};
use crate::tree::{lemma_root, spec_root, Error, Tree};
use crate::util;
use crate::util::{lemma_level_children, spec_left, spec_level, spec_log2, spec_right};
use vstd::arithmetic::power2::{lemma2_to64, lemma_pow2_pos, lemma_pow2_unfold, pow2};
use vstd::prelude::*;

verus! {

/// What a parent node shows of itself in its hash: only used for encoding.
pub struct ParentNode<'a> {
    pub hpke_public_key: &'a [u8],
    pub unmerged_leaves: &'a [u32],
    pub parent_hash: &'a [u8],
}

/// The record of a parent node: its public key behind a 16-bit length, then the
/// indices of its unmerged leaves behind their number in 32 bits.
pub open spec fn spec_parent_node(public_key: Seq<u8>, unmerged_leaves: Seq<u32>) -> Seq<u8> {
    spec_encode_slice(LenType::L16, public_key) + spec_encode_u32_slice(
        LenType::L32,
        unmerged_leaves,
    )
}

impl<'a> ParentNode<'a> {
    pub fn new(
        hpke_public_key: &'a [u8],
        unmerged_leaves: &'a [u32],
        parent_hash: &'a [u8],
    ) -> (p: Self)
        ensures
            p.hpke_public_key@ == hpke_public_key@,
            p.unmerged_leaves@ == unmerged_leaves@,
            p.parent_hash@ == parent_hash@,
    {
        Self { hpke_public_key, unmerged_leaves, parent_hash }
    }
}

impl<'a> Encode for ParentNode<'a> {
    open spec fn spec_encode(&self) -> Seq<u8> {
        spec_parent_node(self.hpke_public_key@, self.unmerged_leaves@)
    }

    fn encode(&self) -> (out: Vec<u8>) {
        let mut out = Vec::new();
        encode_slice(LenType::L16, self.hpke_public_key, &mut out);
        encode_u32_slice(LenType::L32, self.unmerged_leaves, &mut out);
        assert(out@ =~= self.spec_encode());
        out
    }
}

/// What is hashed for a parent node: only used for encoding.
pub struct ParentNodeHashInput<'a> {
    pub node_index: u32,
    pub parent_node: Option<ParentNode<'a>>,
    pub left_hash: Vec<u8>,
    pub right_hash: Vec<u8>,
}

/// What is hashed for a parent node: its index in four bytes, its record if it
/// has one (a byte 1 and the record, or a byte 0), the hash of its left subtree
/// and the hash of its right subtree.
pub open spec fn spec_parent_hash_input(
    node_index: u32,
    record: Option<Seq<u8>>,
    left_hash: Seq<u8>,
    right_hash: Seq<u8>,
) -> Seq<u8> {
    spec_be_bytes(node_index as nat, 4) + (match record {
        Some(r) => seq![1u8] + r,
        None => seq![0u8],
    }) + left_hash + right_hash
}

impl<'a> ParentNodeHashInput<'a> {
    pub fn new(
        node_index: u32,
        parent_node: Option<ParentNode<'a>>,
        left_hash: Vec<u8>,
        right_hash: Vec<u8>,
    ) -> (input: Self)
        ensures
            input.node_index == node_index,
            input.parent_node == parent_node,
            input.left_hash == left_hash,
            input.right_hash == right_hash,
    {
        Self { node_index, parent_node, left_hash, right_hash }
    }
}

impl<'a> Encode for ParentNodeHashInput<'a> {
    open spec fn spec_encode(&self) -> Seq<u8> {
        spec_parent_hash_input(
            self.node_index,
            match self.parent_node {
                Some(p) => Some(spec_parent_node(p.hpke_public_key@, p.unmerged_leaves@)),
                None => None,
            },
            self.left_hash@,
            self.right_hash@,
        )
    }

    fn encode(&self) -> (out: Vec<u8>) {
        let mut out = self.node_index.encode();
        match &self.parent_node {
            Some(p) => {
                out.push(0x1);
                let mut record = p.encode();
                out.append(&mut record);
            },
            None => {
                out.push(0x0);
            },
        }
        extend_bytes(&mut out, self.left_hash.as_slice());
        extend_bytes(&mut out, self.right_hash.as_slice());
        assert(out@ =~= self.spec_encode());
        out
    }
}

/// What is hashed for a leaf: only used for encoding.
pub struct LeafNodeHashInput<'a> {
    pub node_index: u32,
    pub key_package: Option<&'a KeyPackage>,
}

/// A key package that may be missing: a byte 1 and the key package, or a byte
/// 0.
pub open spec fn spec_key_package_bytes(key_package: Option<KeyPackageView>) -> Seq<u8> {
    match key_package {
        Some(kp) => seq![1u8] + kp.spec_to_bytes(),
        None => seq![0u8],
    }
}

/// What is hashed for a leaf: its index in four bytes, then its key package if
/// it has one.
pub open spec fn spec_leaf_hash_input(
    node_index: u32,
    key_package: Option<KeyPackageView>,
) -> Seq<u8> {
    spec_be_bytes(node_index as nat, 4) + spec_key_package_bytes(key_package)
}

impl<'a> LeafNodeHashInput<'a> {
    pub fn new(node_index: u32, key_package: Option<&'a KeyPackage>) -> (input: Self)
        ensures
            input.node_index == node_index,
            input.key_package == key_package,
    {
        Self { node_index, key_package }
    }
}

impl<'a> Encode for LeafNodeHashInput<'a> {
    open spec fn spec_encode(&self) -> Seq<u8> {
        spec_leaf_hash_input(
            self.node_index,
            match self.key_package {
                Some(kp) => Some(kp@),
                None => None,
            },
        )
    }

    fn encode(&self) -> (out: Vec<u8>) {
        let mut out = self.node_index.encode();
        match self.key_package {
            Some(kp) => {
                out.push(0x1);
                let mut bytes = kp.encode();
                out.append(&mut bytes);
            },
            None => {
                out.push(0x0);
            },
        }
        assert(out@ =~= self.spec_encode());
        out
    }
}

/// What is hashed for the leaf `node`.
pub open spec fn spec_leaf_input(node: NodeView) -> Seq<u8> {
    spec_leaf_hash_input(node.id, node.key_package)
}

/// What is hashed for the parent `node`, over the hashes of its subtrees. The
/// record of the node is left out at the root of the tree, and nowhere else.
///
/// In a tree that is not full, the right child of a parent may lie beyond the
/// end of the tree. The hash of the right subtree is then the tree hash of the
/// node that stands in for that child (`spec_stand_in`): the nearest node on
/// the way down its left edge that the tree has. That way every leaf of the
/// tree goes into the hash of every node above it.
pub open spec fn spec_parent_input(
    node: NodeView,
    is_root: bool,
    left_hash: Seq<u8>,
    right_hash: Seq<u8>,
) -> Seq<u8> {
    spec_parent_hash_input(
        node.id,
        if is_root {
            None
        } else {
            Some(spec_parent_node(node.public_key, node.unmerged_leaves))
        },
        left_hash,
        right_hash,
    )
}

/// The node whose subtree stands for the subtree of `idx` in a tree of `len`
/// slots: `idx` itself where the tree has it, else the node that stands in for
/// its left child.
pub open spec fn spec_stand_in(len: nat, idx: nat) -> nat
    decreases spec_level(idx),
{
    if idx < len || spec_level(idx) == 0 {
        idx
    } else {
        proof {
            lemma_level_children(idx);
        }
        spec_stand_in(len, spec_left(idx))
    }
}

/// Whether the node `x` lies in the subtree of the node `c`.
pub open spec fn spec_in_subtree(c: nat, x: nat) -> bool {
    c < x + pow2(spec_level(c)) && x < c + pow2(spec_level(c))
}

/// Every node of a tree lies in the subtree of the root.
pub proof fn lemma_root_subtree(x: nat, n: nat)
    requires
        x < n,
    ensures
        spec_in_subtree(spec_root(n), x),
{
    lemma_root(n);
    util::lemma_log2_bounds(n);
    lemma_pow2_unfold(spec_log2(n) + 1);
}

/// The subtree of a parent node is the node itself, the subtree of its left
/// child before it and the subtree of its right child behind it.
pub proof fn lemma_subtree_split(c: nat, x: nat)
    requires
        spec_level(c) > 0,
    ensures
        spec_in_subtree(spec_left(c), x) <==> spec_in_subtree(c, x) && x < c,
        spec_in_subtree(spec_right(c), x) <==> spec_in_subtree(c, x) && x > c,
{
    lemma_level_children(c);
    util::lemma_level_le(c);
    lemma_pow2_unfold(spec_level(c));
    lemma_pow2_pos((spec_level(c) - 1) as nat);
}

/// The node that stands in for a node lies no higher than it, and its subtree
/// is a part of that node's subtree.
pub proof fn lemma_stand_in_below(len: nat, idx: nat, x: nat)
    ensures
        spec_level(spec_stand_in(len, idx)) <= spec_level(idx),
        spec_in_subtree(spec_stand_in(len, idx), x) ==> spec_in_subtree(idx, x),
    decreases spec_level(idx),
{
    if !(idx < len || spec_level(idx) == 0) {
        lemma_level_children(idx);
        lemma_stand_in_below(len, spec_left(idx), x);
        lemma_subtree_split(idx, x);
    }
}

/// Where the subtree of a node holds a node of the tree, the node that stands
/// in for it lies in the tree and has that node in its subtree.
pub proof fn lemma_stand_in_holds(len: nat, idx: nat, x: nat)
    requires
        x < len,
        spec_in_subtree(idx, x),
    ensures
        spec_stand_in(len, idx) < len,
        spec_in_subtree(spec_stand_in(len, idx), x),
    decreases spec_level(idx),
{
    lemma2_to64();
    if !(idx < len) {
        if spec_level(idx) > 0 {
            lemma_level_children(idx);
            lemma_subtree_split(idx, x);
            lemma_stand_in_holds(len, spec_left(idx), x);
        }
    }
}

/// In a tree, the leaf next to a parent node lies in the subtree of the
/// parent's right child: some node stands in for that child.
pub proof fn lemma_right_stand_in(nodes: Seq<NodeView>, idx: nat)
    requires
        nodes.len() % 2 == 1,
        idx < nodes.len(),
        spec_level(idx) > 0,
    ensures
        spec_stand_in(nodes.len(), spec_right(idx)) < nodes.len(),
        spec_in_subtree(spec_right(idx), idx + 1),
        spec_level(spec_stand_in(nodes.len(), spec_right(idx))) < spec_level(idx),
{
    lemma_level_children(idx);
    lemma_subtree_split(idx, idx + 1);
    lemma_pow2_unfold(spec_level(idx));
    lemma_pow2_pos((spec_level(idx) - 1) as nat);
    lemma_stand_in_holds(nodes.len(), spec_right(idx), idx + 1);
    lemma_stand_in_below(nodes.len(), spec_right(idx), idx + 1);
}

/// What is hashed for the node `idx` of a tree whose digest function is `h`:
/// for a leaf, the leaf; for a parent, the parent over the tree hash of its
/// left child and the tree hash of the node that stands in for its right
/// child. Nothing is hashed for a node outside the tree.
pub open spec fn spec_tree_hash_input(
    nodes: Seq<NodeView>,
    h: spec_fn(Seq<u8>) -> Seq<u8>,
    idx: nat,
) -> Seq<u8>
    decreases spec_level(idx), 0nat,
{
    if idx >= nodes.len() {
        Seq::empty()
    } else if spec_level(idx) == 0 {
        spec_leaf_input(nodes[idx as int])
    } else {
        proof {
            lemma_level_children(idx);
            lemma_stand_in_below(nodes.len(), spec_right(idx), 0);
        }
        spec_parent_input(
            nodes[idx as int],
            idx == spec_root(nodes.len()),
            spec_tree_hash(nodes, h, spec_left(idx)),
            spec_tree_hash(nodes, h, spec_stand_in(nodes.len(), spec_right(idx))),
        )
    }
}

/// The tree hash of the node `idx`: the digest of what is hashed for it. A
/// node outside the tree has the empty hash.
pub open spec fn spec_tree_hash(
    nodes: Seq<NodeView>,
    h: spec_fn(Seq<u8>) -> Seq<u8>,
    idx: nat,
) -> Seq<u8>
    decreases spec_level(idx), 1nat,
{
    if idx >= nodes.len() {
        Seq::empty()
    } else {
        h(spec_tree_hash_input(nodes, h, idx))
    }
}

/// The tree hash of a node is a function of the nodes of its subtree, of the
/// length of the tree and of the digest function: hashing the same tree twice
/// gives the same bytes.
pub proof fn lemma_tree_hash_of_same_subtree(
    a: Seq<NodeView>,
    b: Seq<NodeView>,
    h: spec_fn(Seq<u8>) -> Seq<u8>,
    c: nat,
)
    requires
        a.len() == b.len(),
        forall|i: int| 0 <= i < a.len() && spec_in_subtree(c, i as nat) ==> a[i] == b[i],
    ensures
        spec_tree_hash_input(a, h, c) == spec_tree_hash_input(b, h, c),
        spec_tree_hash(a, h, c) == spec_tree_hash(b, h, c),
    decreases spec_level(c),
{
    if c < a.len() {
        lemma_pow2_pos(spec_level(c));
        assert(spec_in_subtree(c, c));
        if spec_level(c) > 0 {
            let l = spec_left(c);
            let r = spec_stand_in(a.len(), spec_right(c));
            lemma_level_children(c);
            lemma_stand_in_below(a.len(), spec_right(c), 0);
            assert forall|i: int| 0 <= i < a.len() && spec_in_subtree(l, i as nat) implies a[i]
                == b[i] by {
                lemma_subtree_split(c, i as nat);
            }
            assert forall|i: int| 0 <= i < a.len() && spec_in_subtree(r, i as nat) implies a[i]
                == b[i] by {
                lemma_stand_in_below(a.len(), spec_right(c), i as nat);
                lemma_subtree_split(c, i as nat);
            }
            lemma_tree_hash_of_same_subtree(a, b, h, l);
            lemma_tree_hash_of_same_subtree(a, b, h, r);
        }
    }
}

/// Whether the digest function `h` never gives one digest for two inputs.
pub open spec fn spec_collision_free(h: spec_fn(Seq<u8>) -> Seq<u8>) -> bool {
    forall|x: Seq<u8>, y: Seq<u8>| #[trigger] h(x) == #[trigger] h(y) ==> x == y
}

/// Under a digest function without collisions, a change of what is hashed for
/// one leaf changes the tree hash of every node of the tree above that leaf,
/// the root among them. What is hashed for a leaf changes with the bytes of its
/// key package.
pub proof fn lemma_leaf_changes_tree_hash(
    a: Seq<NodeView>,
    b: Seq<NodeView>,
    h: spec_fn(Seq<u8>) -> Seq<u8>,
    leaf: nat,
    c: nat,
)
    requires
        a.len() == b.len(),
        leaf < a.len(),
        c < a.len(),
        spec_level(leaf) == 0,
        forall|i: int| 0 <= i < a.len() && i != leaf ==> a[i] == b[i],
        spec_leaf_input(a[leaf as int]) != spec_leaf_input(b[leaf as int]),
        spec_collision_free(h),
        spec_in_subtree(c, leaf),
    ensures
        spec_tree_hash(a, h, c) != spec_tree_hash(b, h, c),
    decreases spec_level(c),
{
    lemma2_to64();
    if spec_level(c) == 0 {
        assert(c == leaf);
        let x = spec_leaf_input(a[leaf as int]);
        let y = spec_leaf_input(b[leaf as int]);
        assert(spec_tree_hash(a, h, c) == h(x));
        assert(spec_tree_hash(b, h, c) == h(y));
        assert(h(x) == h(y) ==> x == y);
    } else {
        let l = spec_left(c);
        let r = spec_stand_in(a.len(), spec_right(c));
        lemma_level_children(c);
        lemma_subtree_split(c, leaf);
        lemma_stand_in_below(a.len(), spec_right(c), leaf);
        let is_root = c == spec_root(a.len());
        assert(a[c as int] == b[c as int]);
        if leaf < c {
            lemma_leaf_changes_tree_hash(a, b, h, leaf, l);
            assert forall|i: int| 0 <= i < a.len() && spec_in_subtree(r, i as nat) implies a[i]
                == b[i] by {
                lemma_stand_in_below(a.len(), spec_right(c), i as nat);
                lemma_subtree_split(c, i as nat);
            }
            lemma_tree_hash_of_same_subtree(a, b, h, r);
        } else {
            lemma_stand_in_holds(a.len(), spec_right(c), leaf);
            lemma_leaf_changes_tree_hash(a, b, h, leaf, r);
            assert forall|i: int| 0 <= i < a.len() && spec_in_subtree(l, i as nat) implies a[i]
                == b[i] by {
                lemma_subtree_split(c, i as nat);
            }
            lemma_tree_hash_of_same_subtree(a, b, h, l);
        }
        let la = spec_tree_hash(a, h, l);
        let ra = spec_tree_hash(a, h, r);
        let lb = spec_tree_hash(b, h, l);
        let rb = spec_tree_hash(b, h, r);
        let x = spec_parent_input(a[c as int], is_root, la, ra);
        let y = spec_parent_input(b[c as int], is_root, lb, rb);
        assert(spec_tree_hash(a, h, c) == h(x));
        assert(spec_tree_hash(b, h, c) == h(y));
        let head = spec_be_bytes(a[c as int].id as nat, 4) + (if is_root {
            seq![0u8]
        } else {
            seq![1u8] + spec_parent_node(a[c as int].public_key, a[c as int].unmerged_leaves)
        });
        assert(x == head + la + ra);
        assert(y == head + lb + rb);
        if x == y {
            assert(x.len() == y.len());
            if leaf < c {
                assert(ra == rb);
                assert(la.len() == lb.len());
                assert forall|i: int| 0 <= i < la.len() implies la[i] == lb[i] by {
                    assert(x[head.len() + i] == la[i]);
                    assert(y[head.len() + i] == lb[i]);
                }
                assert(la =~= lb);
            } else {
                assert(la == lb);
                assert(ra.len() == rb.len());
                assert forall|i: int| 0 <= i < ra.len() implies ra[i] == rb[i] by {
                    assert(x[head.len() + la.len() + i] == ra[i]);
                    assert(y[head.len() + lb.len() + i] == rb[i]);
                }
                assert(ra =~= rb);
            }
            assert(false);
        }
        assert(h(x) == h(y) ==> x == y);
    }
}

/// Under a digest function without collisions, another key package at a leaf
/// gives another tree hash at the root.
pub proof fn lemma_key_package_changes_root_hash(
    a: Seq<NodeView>,
    b: Seq<NodeView>,
    h: spec_fn(Seq<u8>) -> Seq<u8>,
    leaf: nat,
)
    requires
        a.len() == b.len(),
        leaf < a.len(),
        spec_level(leaf) == 0,
        forall|i: int| 0 <= i < a.len() && i != leaf ==> a[i] == b[i],
        a[leaf as int].id == b[leaf as int].id,
        spec_key_package_bytes(a[leaf as int].key_package) != spec_key_package_bytes(
            b[leaf as int].key_package,
        ),
        spec_collision_free(h),
    ensures
        spec_tree_hash(a, h, spec_root(a.len())) != spec_tree_hash(b, h, spec_root(b.len())),
{
    let x = a[leaf as int];
    let y = b[leaf as int];
    let head = spec_be_bytes(x.id as nat, 4);
    let kx = spec_key_package_bytes(x.key_package);
    let ky = spec_key_package_bytes(y.key_package);
    assert(spec_leaf_input(x) == head + kx);
    assert(spec_leaf_input(y) == head + ky);
    if spec_leaf_input(x) == spec_leaf_input(y) {
        assert(kx.len() == ky.len());
        assert forall|i: int| 0 <= i < kx.len() implies kx[i] == ky[i] by {
            assert((head + kx)[head.len() + i] == kx[i]);
            assert((head + ky)[head.len() + i] == ky[i]);
        }
        assert(kx =~= ky);
    }
    lemma_root(a.len());
    lemma_root_subtree(leaf, a.len());
    lemma_leaf_changes_tree_hash(a, b, h, leaf, spec_root(a.len()));
}

/// A parent node on the way from the top of a walk to the node that is being
/// hashed. It holds the hash of its left subtree once that is known.
pub struct HashFrame {
    pub node: u32,
    pub left_hash: Option<Vec<u8>>,
}

/// A walk over a subtree that hashes it from the leaves up.
pub struct TreeHashWalk {
    top: u32,
    stack: Vec<HashFrame>,
    current: u32,
    pending: Ghost<Seq<u8>>,
}

/// What a walk asks for next.
pub enum HashStep {
    /// The digest of these bytes is to be handed to the walk.
    Digest(Vec<u8>),
    /// The walk has ended: this is the tree hash that was asked for.
    Done(Vec<u8>),
}

impl TreeHashWalk {
    /// The node whose tree hash the walk computes.
    pub closed spec fn spec_top(&self) -> nat {
        self.top as nat
    }

    /// The node whose digest the walk waits for.
    pub closed spec fn spec_current(&self) -> nat {
        self.current as nat
    }

    /// The bytes whose digest the walk waits for.
    pub closed spec fn spec_pending(&self) -> Seq<u8> {
        self.pending@
    }

    /// The number of parents that wait for the hash of a subtree.
    pub closed spec fn spec_depth(&self) -> nat {
        self.stack@.len()
    }

    /// The node below the parent at position `i` of the stack that the walk has
    /// gone into: its left child until the hash of that is known, then the node
    /// that stands in for its right child in a tree of `len` slots.
    pub closed spec fn spec_child(&self, i: int, len: nat) -> nat {
        if self.stack@[i].left_hash is None {
            spec_left(self.stack@[i].node as nat)
        } else {
            spec_stand_in(len, spec_right(self.stack@[i].node as nat))
        }
    }

    /// The node at position `i` of the way from the top of the walk to the node
    /// whose digest it waits for.
    pub closed spec fn spec_way(&self, i: int) -> nat {
        if i < self.stack@.len() {
            self.stack@[i].node as nat
        } else {
            self.current as nat
        }
    }

    /// Whether the walk fits a tree of `len` slots: the parents on its stack
    /// lead from its top down to the node whose digest it waits for, each one
    /// into the node below it that it has gone into.
    pub closed spec fn wf(&self, len: nat) -> bool {
        &&& self.current < len
        &&& self.spec_way(0) == self.top
        &&& forall|i: int|
            0 <= i < self.stack@.len() ==> {
                &&& (#[trigger] self.stack@[i]).node < len
                &&& spec_level(self.stack@[i].node as nat) > 0
                &&& self.spec_way(i + 1) == self.spec_child(i, len)
            }
    }

    /// Whether what the walk holds agrees with the digest function `h`: the
    /// hashes on its stack are the tree hashes of the left subtrees, and the
    /// bytes whose digest it waits for are what is hashed for the current node.
    pub closed spec fn spec_consistent(
        &self,
        nodes: Seq<NodeView>,
        h: spec_fn(Seq<u8>) -> Seq<u8>,
    ) -> bool {
        &&& spec_tree_hash_input(nodes, h, self.current as nat) == self.pending@
        &&& forall|i: int|
            0 <= i < self.stack@.len() ==> ((#[trigger] self.stack@[i]).left_hash matches Some(
                lh,
            ) ==> spec_tree_hash(nodes, h, spec_left(self.stack@[i].node as nat)) == lh@)
    }

    /// A bound on the number of digests that the walk still asks for: one for
    /// the current node, one for each parent on the stack, and one for each node
    /// that a right subtree that it has not gone into yet can have.
    pub closed spec fn spec_digests_left(&self) -> nat {
        1 + spec_frames_left(self.stack@)
    }
}

/// The number of digests that the parents on a stack still wait for.
pub open spec fn spec_frames_left(stack: Seq<HashFrame>) -> nat
    decreases stack.len(),
{
    if stack.len() == 0 {
        0
    } else {
        spec_frames_left(stack.drop_last()) + (if stack.last().left_hash is None {
            pow2(spec_level(stack.last().node as nat))
        } else {
            1
        })
    }
}

/// The subtree of a node of level `k` in which a walk ends at a leaf takes
/// `2^k - 1` parents off the stack again.
proof fn lemma_frames_left_push(stack: Seq<HashFrame>, f: HashFrame)
    ensures
        spec_frames_left(stack.push(f)) == spec_frames_left(stack) + (if f.left_hash is None {
            pow2(spec_level(f.node as nat))
        } else {
            1
        }),
{
    assert(stack.push(f).drop_last() =~= stack);
}

impl Tree {
    /// The bytes that are hashed for the leaf `node`.
    pub fn leaf_hash_input(&self, node: &Node) -> (input: Vec<u8>)
        ensures
            input@ == spec_leaf_input(node@),
    {
        let input = LeafNodeHashInput::new(node.id, node.key_package.as_ref());
        input.encode()
    }

    /// The bytes that are hashed for the parent `node` over the hashes of its
    /// two subtrees.
    pub fn parent_hash_input(&self, node: &Node, left_hash: Vec<u8>, right_hash: Vec<u8>) -> (input:
        Vec<u8>)
        requires
            self.wf(),
            self@.len() > 0,
        ensures
            input@ == spec_parent_input(
                node@,
                node.id == spec_root(self@.len()),
                left_hash@,
                right_hash@,
            ),
    {
        let parent_node = if self.get_root().id == node.id {
            None
        } else {
            Some(
                ParentNode::new(
                    node.public_key.as_slice(),
                    node.unmerged_leaves.as_slice(),
                    node.parent_hash.as_slice(),
                ),
            )
        };
        let input = ParentNodeHashInput::new(node.id, parent_node, left_hash, right_hash);
        input.encode()
    }

    /// Goes from the current node of `walk` down to the leftmost leaf below it,
    /// and returns what is hashed for that leaf.
    fn hash_descend(&self, walk: &mut TreeHashWalk) -> (input: Vec<u8>)
        requires
            self.wf(),
            old(walk).wf(self@.len()),
        ensures
            final(walk).wf(self@.len()),
            final(walk).top == old(walk).top,
            input@ == final(walk).pending@,
            spec_level(final(walk).current as nat) == 0,
            input@ == spec_leaf_input(self@[final(walk).current as int]),
            old(walk).stack@.len() <= final(walk).stack@.len(),
            forall|i: int|
                0 <= i < old(walk).stack@.len() ==> final(walk).stack@[i] == old(walk).stack@[i],
            forall|i: int|
                old(walk).stack@.len() <= i < final(walk).stack@.len() ==> (
                #[trigger] final(walk).stack@[i]).left_hash is None,
            spec_frames_left(final(walk).stack@) + 2 == spec_frames_left(old(walk).stack@)
                + pow2(spec_level(old(walk).current as nat) + 1),
    {
        let ghost start = walk.current as nat;
        proof {
            lemma_pow2_unfold(spec_level(start) + 1);
        }
        loop
            invariant
                self.wf(),
                walk.wf(self@.len()),
                walk.top == old(walk).top,
                old(walk).stack@.len() <= walk.stack@.len(),
                forall|i: int|
                    0 <= i < old(walk).stack@.len() ==> walk.stack@[i] == old(walk).stack@[i],
                forall|i: int|
                    old(walk).stack@.len() <= i < walk.stack@.len() ==> (
                    #[trigger] walk.stack@[i]).left_hash is None,
                spec_frames_left(walk.stack@) + 2 * pow2(
                    spec_level(walk.current as nat),
                ) == spec_frames_left(old(walk).stack@) + 2 * pow2(
                    spec_level(start),
                ),
                start == old(walk).current,
            ensures
                spec_level(walk.current as nat) == 0,
            decreases spec_level(walk.current as nat),
        {
            let k = util::level(walk.current);
            if k == 0 {
                break ;
            }
            let node = walk.current;
            let ghost before = *walk;
            proof {
                lemma_level_children(node as nat);
                lemma_pow2_unfold(spec_level(node as nat));
                lemma_frames_left_push(walk.stack@, HashFrame { node, left_hash: None });
            }
            walk.stack.push(HashFrame { node, left_hash: None });
            walk.current = util::left(node);
            proof {
                assert forall|i: int| 0 <= i < walk.stack@.len() implies {
                    &&& (#[trigger] walk.stack@[i]).node < self@.len()
                    &&& spec_level(walk.stack@[i].node as nat) > 0
                    &&& walk.spec_way(i + 1) == walk.spec_child(i, self@.len())
                } by {
                    if i < before.stack@.len() {
                        assert(walk.stack@[i] == before.stack@[i]);
                        assert(before.spec_way(i + 1) == before.spec_child(i, self@.len()));
                    }
                }
                assert(before.spec_way(0) == before.top);
            }
        }
        let input = match self.get_node(walk.current) {
            Ok(node) => self.leaf_hash_input(node),
            Err(_) => Vec::new(),
        };
        walk.pending = Ghost(input@);
        proof {
            lemma2_to64();
        }
        input
    }

    /// Begins to hash the subtree of the node `node_id`. Returns the walk and
    /// the first bytes whose digest it asks for.
    pub fn hash(&self, node_id: u32) -> (r: Result<(TreeHashWalk, Vec<u8>), Error>)
        requires
            self.wf(),
        ensures
            node_id >= self@.len() ==> (r matches Err(e) && e == Error::InvalidNodeId),
            node_id < self@.len() ==> (r matches Ok((walk, input)) && {
                &&& walk.wf(self@.len())
                &&& walk.spec_top() == node_id
                &&& input@ == walk.spec_pending()
                &&& spec_level(walk.spec_current()) == 0
                &&& input@ == spec_leaf_input(self@[walk.spec_current() as int])
                &&& walk.spec_digests_left() == pow2(spec_level(node_id as nat) + 1) - 1
                &&& forall|h: spec_fn(Seq<u8>) -> Seq<u8>| #[trigger]
                    walk.spec_consistent(self@, h)
            }),
    {
        if self.get_node(node_id).is_err() {
            return Err(Error::InvalidNodeId);
        }
        let mut walk = TreeHashWalk {
            top: node_id,
            stack: Vec::new(),
            current: node_id,
            pending: Ghost(Seq::empty()),
        };
        let input = self.hash_descend(&mut walk);
        proof {
            assert forall|h: spec_fn(Seq<u8>) -> Seq<u8>| #[trigger]
                walk.spec_consistent(self@, h) by {
                assert(spec_tree_hash_input(self@, h, walk.current as nat) == walk.pending@);
            }
        }
        Ok((walk, input))
    }

    /// Begins to hash the subtree of `node`, which is the node of this tree at
    /// its index.
    pub fn hash_node(&self, node: &Node) -> (r: Result<(TreeHashWalk, Vec<u8>), Error>)
        requires
            self.wf(),
            node.id < self@.len(),
            node@ == self@[node.id as int],
        ensures
            r matches Ok((walk, input)) && {
                &&& walk.wf(self@.len())
                &&& walk.spec_top() == node.id
                &&& input@ == walk.spec_pending()
                &&& spec_level(walk.spec_current()) == 0
                &&& input@ == spec_leaf_input(self@[walk.spec_current() as int])
                &&& walk.spec_digests_left() == pow2(spec_level(node.id as nat) + 1) - 1
                &&& forall|h: spec_fn(Seq<u8>) -> Seq<u8>| #[trigger]
                    walk.spec_consistent(self@, h)
            },
    {
        self.hash(node.id)
    }

    /// The node that stands in for the right child of the parent node
    /// `parent`.
    fn right_stand_in(&self, parent: u32) -> (node: u32)
        requires
            self.wf(),
            parent < self@.len(),
            spec_level(parent as nat) > 0,
        ensures
            node == spec_stand_in(self@.len(), spec_right(parent as nat)),
            node < self@.len(),
            spec_level(node as nat) < spec_level(parent as nat),
    {
        proof {
            lemma_right_stand_in(self@, parent as nat);
            lemma2_to64();
        }
        let len = self.num_nodes();
        let mut node = util::right(parent);
        while node >= len
            invariant
                len == self@.len(),
                parent + 1 < len,
                spec_in_subtree(node as nat, (parent + 1) as nat),
                spec_stand_in(len as nat, node as nat) == spec_stand_in(
                    len as nat,
                    spec_right(parent as nat),
                ),
            decreases spec_level(node as nat),
        {
            proof {
                lemma2_to64();
                if spec_level(node as nat) > 0 {
                    lemma_level_children(node as nat);
                    lemma_subtree_split(node as nat, (parent + 1) as nat);
                }
            }
            node = util::left(node);
        }
        node
    }

    /// The step of a walk whose top parent has just got the hash of its left
    /// subtree: keeps that hash and goes into what stands for the right child.
    fn hash_turn_right(
        &self,
        walk: &mut TreeHashWalk,
        parent: u32,
        digest: Vec<u8>,
        Ghost(before): Ghost<TreeHashWalk>,
    ) -> (input: Vec<u8>)
        requires
            self.wf(),
            before.wf(self@.len()),
            before.stack@.len() > 0,
            before.stack@.last().node == parent,
            before.stack@.last().left_hash is None,
            old(walk).top == before.top,
            old(walk).stack@ == before.stack@.drop_last(),
        ensures
            final(walk).wf(self@.len()),
            final(walk).top == before.top,
            input@ == final(walk).pending@,
            final(walk).spec_digests_left() < before.spec_digests_left(),
            forall|h: spec_fn(Seq<u8>) -> Seq<u8>|
                #[trigger] before.spec_consistent(self@, h) && digest@ == h(before.pending@)
                    ==> final(walk).spec_consistent(self@, h),
    {
        let ghost nodes = self@;
        let ghost depth = walk.stack@.len() as int;
        let ghost left_frame = HashFrame { node: parent, left_hash: Some(digest) };
        proof {
            assert(before.stack@[depth] == before.stack@.last());
            assert(before.spec_way(depth + 1) == before.spec_child(depth, nodes.len()));
            lemma_level_children(parent as nat);
            lemma_pow2_pos(spec_level(parent as nat));
            lemma_frames_left_push(walk.stack@, left_frame);
            lemma_frames_left_push(walk.stack@, before.stack@.last());
            assert(walk.stack@.push(before.stack@.last()) =~= before.stack@);
        }
        walk.stack.push(HashFrame { node: parent, left_hash: Some(digest) });
        let right = self.right_stand_in(parent);
        walk.current = right;
        proof {
            assert forall|i: int| 0 <= i < walk.stack@.len() implies {
                &&& (#[trigger] walk.stack@[i]).node < self@.len()
                &&& spec_level(walk.stack@[i].node as nat) > 0
                &&& walk.spec_way(i + 1) == walk.spec_child(i, self@.len())
            } by {
                if i < depth {
                    assert(walk.stack@[i] == before.stack@[i]);
                    assert(before.spec_way(i + 1) == before.spec_child(i, self@.len()));
                }
            }
            assert(before.spec_way(0) == before.top);
            assert(walk.wf(self@.len()));
            if spec_level(right as nat) + 1 < spec_level(parent as nat) {
                vstd::arithmetic::power2::lemma_pow2_strictly_increases(
                    spec_level(right as nat) + 1,
                    spec_level(parent as nat),
                );
            }
        }
        let ghost turned = *walk;
        let input = self.hash_descend(walk);
        proof {
            assert forall|h: spec_fn(Seq<u8>) -> Seq<u8>| #[trigger]
                before.spec_consistent(nodes, h) && digest@ == h(
                    before.pending@,
                ) implies walk.spec_consistent(nodes, h) by {
                assert(spec_tree_hash(nodes, h, before.current as nat) == digest@);
                assert forall|i: int| 0 <= i < walk.stack@.len() implies ((
                #[trigger] walk.stack@[i]).left_hash matches Some(lh) ==> spec_tree_hash(
                    nodes,
                    h,
                    spec_left(walk.stack@[i].node as nat),
                ) == lh@) by {
                    if i < depth {
                        assert(walk.stack@[i] == before.stack@[i]);
                    } else if i == depth {
                        assert(walk.stack@[i] == turned.stack@[i]);
                    }
                }
            }
        }
        input
    }

    /// The step of a walk whose top parent has got the hashes of both its
    /// subtrees: the parent itself is hashed next.
    fn hash_close_parent(
        &self,
        walk: &mut TreeHashWalk,
        parent: u32,
        left_hash: Vec<u8>,
        digest: Vec<u8>,
        Ghost(before): Ghost<TreeHashWalk>,
    ) -> (input: Vec<u8>)
        requires
            self.wf(),
            before.wf(self@.len()),
            before.stack@.len() > 0,
            before.stack@.last().node == parent,
            before.stack@.last().left_hash == Some(left_hash),
            old(walk).top == before.top,
            old(walk).stack@ == before.stack@.drop_last(),
        ensures
            final(walk).wf(self@.len()),
            final(walk).top == before.top,
            input@ == final(walk).pending@,
            final(walk).spec_digests_left() < before.spec_digests_left(),
            forall|h: spec_fn(Seq<u8>) -> Seq<u8>|
                #[trigger] before.spec_consistent(self@, h) && digest@ == h(before.pending@)
                    ==> final(walk).spec_consistent(self@, h),
    {
        let ghost nodes = self@;
        let ghost depth = walk.stack@.len() as int;
        let ghost lh = left_hash@;
        let ghost rh = digest@;
        proof {
            assert(before.stack@[depth] == before.stack@.last());
            assert(before.spec_way(depth + 1) == before.spec_child(depth, nodes.len()));
            lemma_level_children(parent as nat);
            lemma_frames_left_push(walk.stack@, before.stack@.last());
            assert(walk.stack@.push(before.stack@.last()) =~= before.stack@);
        }
        let input = match self.get_node(parent) {
            Ok(node) => self.parent_hash_input(node, left_hash, digest),
            Err(_) => Vec::new(),
        };
        walk.current = parent;
        walk.pending = Ghost(input@);
        proof {
            assert(self@[parent as int].wf_at(parent as int));
            assert forall|i: int| 0 <= i < walk.stack@.len() implies {
                &&& (#[trigger] walk.stack@[i]).node < self@.len()
                &&& spec_level(walk.stack@[i].node as nat) > 0
                &&& walk.spec_way(i + 1) == walk.spec_child(i, self@.len())
            } by {
                assert(walk.stack@[i] == before.stack@[i]);
                assert(before.spec_way(i + 1) == before.spec_child(i, self@.len()));
            }
            assert(before.spec_way(0) == before.top);
            assert(walk.wf(self@.len()));
            assert forall|h: spec_fn(Seq<u8>) -> Seq<u8>| #[trigger]
                before.spec_consistent(nodes, h) && digest@ == h(
                    before.pending@,
                ) implies walk.spec_consistent(nodes, h) by {
                assert(spec_tree_hash(nodes, h, before.current as nat) == rh);
                assert(spec_tree_hash(nodes, h, spec_left(parent as nat)) == lh);
                assert forall|i: int| 0 <= i < walk.stack@.len() implies ((
                #[trigger] walk.stack@[i]).left_hash matches Some(l) ==> spec_tree_hash(
                    nodes,
                    h,
                    spec_left(walk.stack@[i].node as nat),
                ) == l@) by {
                    assert(walk.stack@[i] == before.stack@[i]);
                }
            }
        }
        input
    }

    /// Takes the digest of the bytes that `walk` asked for last, and says what
    /// is next: more bytes to hash, or the tree hash.
    pub fn hash_next(&self, walk: &mut TreeHashWalk, digest: Vec<u8>) -> (step: HashStep)
        requires
            self.wf(),
            old(walk).wf(self@.len()),
        ensures
            final(walk).spec_top() == old(walk).spec_top(),
            step matches HashStep::Digest(input) ==> {
                &&& final(walk).wf(self@.len())
                &&& input@ == final(walk).spec_pending()
                &&& final(walk).spec_digests_left() < old(walk).spec_digests_left()
            },
            step matches HashStep::Done(d) ==> d@ == digest@,
            step is Done <==> old(walk).spec_depth() == 0,
            forall|h: spec_fn(Seq<u8>) -> Seq<u8>|
                #[trigger] old(walk).spec_consistent(self@, h) && digest@ == h(
                    old(walk).spec_pending(),
                ) ==> match step {
                    HashStep::Digest(_) => final(walk).spec_consistent(self@, h),
                    HashStep::Done(d) => spec_tree_hash(self@, h, old(walk).spec_top()) == d@,
                },
    {
        let ghost before = *walk;
        let frame = match walk.stack.pop() {
            Some(f) => f,
            None => {
                assert(before.spec_way(0) == before.current);
                return HashStep::Done(digest);
            },
        };
        assert(frame == before.stack@.last());
        let input = match frame.left_hash {
            None => self.hash_turn_right(walk, frame.node, digest, Ghost(before)),
            Some(left_hash) => self.hash_close_parent(
                walk,
                frame.node,
                left_hash,
                digest,
                Ghost(before),
            ),
        };
        HashStep::Digest(input)
    }
}

} // verus!
