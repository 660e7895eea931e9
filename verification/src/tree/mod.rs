//! The ratchet tree: a left-balanced binary tree in an array, with the members
//! of the group at its leaves.
use crate::ciphersuites::{spec_ciphersuite, Ciphersuite, Name};
use crate::key_package::KeyPackage;
use crate::util;
use crate::util::{
    lemma_level_ancestor, lemma_level_lt, lemma_log2_bounds, spec_ancestor, spec_direct_path,
    spec_is_ancestor_or_self, spec_left, spec_level, spec_log2, spec_num_nodes, spec_parent,
    spec_right, spec_sibling,
};
use vstd::arithmetic::power2::{lemma2_to64, lemma2_to64_rest, lemma_pow2_unfold, pow2};
use vstd::bits::{lemma_u32_pow2_no_overflow, lemma_u32_shl_is_mul};
use vstd::prelude::*;

pub mod node;
pub mod pretty_print;
pub mod tree_hash;

use node::{Node, NodeType, NodeView};

verus! {

/// Why a lookup in the tree has no result.
#[derive(Debug, Clone, Copy, PartialEq, Eq, Structural)]
pub enum Error {
    InvalidNodeId,
    NodeIdTooFarTooTheRight,
}

/// The largest number of slots of a tree: a full tree of `2^30` leaves. Below
/// it the parent and the sibling of every node fit 32 bits.
pub const MAX_NODES: u32 = 0x7fff_ffff;

/// The root of a tree of `n` slots: the node `2^k - 1` with the largest `k` for
/// which that index lies in the tree.
pub open spec fn spec_root(n: nat) -> nat {
    (pow2(spec_log2(n)) - 1) as nat
}

/// Whether the slots are those of a tree: their number is odd or zero, and each
/// holds a node that can stand there.
pub open spec fn spec_nodes_wf(nodes: Seq<NodeView>) -> bool {
    &&& nodes.len() <= MAX_NODES
    &&& nodes.len() == 0 || nodes.len() % 2 == 1
    &&& forall|i: int| 0 <= i < nodes.len() ==> (#[trigger] nodes[i]).wf_at(i)
}

/// A ratchet tree: the array of its nodes, the numbers of the next node and of
/// the next leaf, and the ciphersuite that it is bound to.
#[derive(Debug)]
pub struct Tree {
    nodes: Vec<Node>,
    id_ctr: u32,
    leaf_id_ctr: u32,
    ciphersuite: Ciphersuite,
}

impl View for Tree {
    type V = Seq<NodeView>;

    /// The slots of the tree, in the order of the array.
    closed spec fn view(&self) -> Seq<NodeView> {
        self.nodes@.map_values(|n: Node| n@)
    }
}

/// The root of a tree lies in the tree, at the level of the tree's height.
pub proof fn lemma_root(n: nat)
    requires
        n > 0,
    ensures
        spec_root(n) < n,
        spec_root(n) + 1 == pow2(spec_log2(n)),
        spec_level(spec_root(n)) == spec_log2(n),
{
    lemma_log2_bounds(n);
    vstd::arithmetic::power2::lemma_pow2_pos(spec_log2(n));
    lemma_level_lt(spec_root(n), spec_log2(n));
}

/// A node below the last level of a full tree has its parent in that tree.
pub proof fn lemma_parent_bound(x: nat, h: nat)
    requires
        x + 1 < pow2(h + 1),
        spec_level(x) < h,
    ensures
        spec_parent(x) + 1 < pow2(h + 1),
    decreases x,
{
    lemma2_to64();
    lemma_pow2_unfold(h + 1);
    lemma_pow2_unfold(h);
    if x % 2 == 0 {
        util::lemma_parent_of_leaf(x);
    } else {
        util::lemma_halve(x);
        lemma_parent_bound(x / 2, (h - 1) as nat);
    }
}

/// The only node of a full tree at the level of its height is the root.
pub proof fn lemma_top_is_root(x: nat, h: nat)
    requires
        x + 1 < pow2(h + 1),
        spec_level(x) >= h,
    ensures
        x + 1 == pow2(h),
    decreases h,
{
    lemma2_to64();
    lemma_pow2_unfold(h + 1);
    if h > 0 {
        lemma_pow2_unfold(h);
        lemma_top_is_root(x / 2, (h - 1) as nat);
    }
}

/// The nodes above a node of a full tree stay in that tree, up to its height.
pub proof fn lemma_ancestor_bound(x: nat, h: nat, j: nat)
    requires
        x + 1 < pow2(h + 1),
        spec_level(x) + j <= h,
    ensures
        spec_ancestor(x, j) + 1 < pow2(h + 1),
    decreases j,
{
    if j > 0 {
        lemma_ancestor_bound(x, h, (j - 1) as nat);
        lemma_level_ancestor(x, (j - 1) as nat);
        lemma_parent_bound(spec_ancestor(x, (j - 1) as nat), h);
    }
}

/// The root of a tree lies above every node of the tree.
pub proof fn lemma_root_is_ancestor(x: nat, n: nat)
    requires
        x < n,
    ensures
        spec_is_ancestor_or_self(spec_root(n), x),
{
    let h = spec_log2(n);
    lemma_root(n);
    lemma_log2_bounds(n);
    lemma_level_lt(x, h + 1);
    let j = (h - spec_level(x)) as nat;
    lemma_ancestor_bound(x, h, j);
    lemma_level_ancestor(x, j);
    lemma_top_is_root(spec_ancestor(x, j), h);
}

impl Tree {
    /// The ciphersuite that the tree is bound to.
    pub closed spec fn spec_ciphersuite(&self) -> Ciphersuite {
        self.ciphersuite
    }

    /// Whether the counters of the tree agree with its slots.
    pub closed spec fn spec_counters_wf(&self) -> bool {
        &&& self.id_ctr == self.nodes@.len()
        &&& self.leaf_id_ctr == (self.nodes@.len() + 1) / 2
    }

    /// Whether the tree is in order. Every tree that this module hands out is.
    pub open spec fn wf(&self) -> bool {
        &&& self.spec_counters_wf()
        &&& spec_nodes_wf(self@)
    }

    /// The number of leaves of the tree.
    pub open spec fn spec_num_leaves(&self) -> nat {
        ((self@.len() + 1) / 2) as nat
    }

    /// An empty tree for the ciphersuite `csuite`.
    pub fn new(csuite: Name) -> (tree: Self)
        ensures
            tree.wf(),
            tree@ == Seq::<NodeView>::empty(),
            tree.spec_ciphersuite() == spec_ciphersuite(csuite),
    {
        let tree = Self {
            nodes: Vec::new(),
            id_ctr: 0,
            leaf_id_ctr: 0,
            ciphersuite: Ciphersuite::new(csuite),
        };
        assert(tree@ =~= Seq::<NodeView>::empty());
        tree
    }

    /// The ciphersuite that the tree is bound to.
    pub fn get_ciphersuite(&self) -> (suite: &Ciphersuite)
        ensures
            *suite == self.spec_ciphersuite(),
    {
        &self.ciphersuite
    }

    /// The height of the tree: the level of its root.
    pub fn get_height(&self) -> (h: u32)
        requires
            self.wf(),
        ensures
            h == spec_log2(self@.len()),
    {
        util::log2(self.id_ctr)
    }

    /// The number of slots of the tree: one for every leaf and one between every
    /// two leaves.
    pub fn num_nodes(&self) -> (n: u32)
        requires
            self.wf(),
        ensures
            n == self@.len(),
            n == spec_num_nodes(self.spec_num_leaves()),
    {
        util::num_nodes(self.leaf_id_ctr)
    }

    /// The node at the index `id`; `InvalidNodeId` where the tree has none.
    pub fn get_node(&self, id: u32) -> (r: Result<&Node, Error>)
        requires
            self.wf(),
        ensures
            id < self@.len() ==> r.is_ok() && r.unwrap()@ == self@[id as int],
            id >= self@.len() ==> r == Err::<&Node, Error>(Error::InvalidNodeId),
    {
        if id > self.id_ctr {
            return Err(Error::InvalidNodeId);
        }
        if (id as usize) < self.nodes.len() {
            Ok(&self.nodes[id as usize])
        } else {
            Err(Error::InvalidNodeId)
        }
    }

    /// The leaf number `leaf_id`, which is the node `2 * leaf_id`.
    pub fn get_leaf_node(&self, leaf_id: u32) -> (r: Result<&Node, Error>)
        requires
            self.wf(),
        ensures
            2 * leaf_id < self@.len() ==> r.is_ok() && r.unwrap()@ == self@[2 * leaf_id],
            2 * leaf_id >= self@.len() ==> r == Err::<&Node, Error>(Error::InvalidNodeId),
    {
        if leaf_id > MAX_NODES / 2 {
            return Err(Error::InvalidNodeId);
        }
        self.get_node(2 * leaf_id)
    }

    /// The parent of the node `node_id`; `InvalidNodeId` where either lies outside
    /// the tree.
    pub fn get_parent(&self, node_id: u32) -> (r: Result<&Node, Error>)
        requires
            self.wf(),
        ensures
            self.spec_lookup(node_id as nat, spec_parent(node_id as nat), r),
    {
        let node = match self.get_node(node_id) {
            Ok(n) => n,
            Err(_) => return Err(Error::InvalidNodeId),
        };
        self.get_parent_from_node(node)
    }

    /// What a lookup of the node `target`, found from the node `from`, returns:
    /// the node, if both lie in the tree.
    pub open spec fn spec_lookup(&self, from: nat, target: nat, r: Result<&Node, Error>) -> bool {
        if from < self@.len() && target < self@.len() {
            r.is_ok() && r.unwrap()@ == self@[target as int]
        } else {
            r == Err::<&Node, Error>(Error::InvalidNodeId)
        }
    }

    /// The parent of `node`; `InvalidNodeId` where it lies outside the tree.
    pub fn get_parent_from_node(&self, node: &Node) -> (r: Result<&Node, Error>)
        requires
            self.wf(),
            node.id < u32::MAX,
        ensures
            self.spec_lookup(0, spec_parent(node.id as nat), r),
    {
        self.get_node(node.get_parent_id())
    }

    /// The sibling of the node `node_id`; `InvalidNodeId` where either lies
    /// outside the tree.
    pub fn get_sibling(&self, node_id: u32) -> (r: Result<&Node, Error>)
        requires
            self.wf(),
        ensures
            self.spec_lookup(node_id as nat, spec_sibling(node_id as nat), r),
    {
        let node = match self.get_node(node_id) {
            Ok(n) => n,
            Err(_) => return Err(Error::InvalidNodeId),
        };
        proof {
            lemma_index_bounds(node_id as nat);
        }
        self.get_sibling_from_node(node)
    }

    /// The sibling of `node`; `InvalidNodeId` where it lies outside the tree.
    pub fn get_sibling_from_node(&self, node: &Node) -> (r: Result<&Node, Error>)
        requires
            self.wf(),
            node.id < u32::MAX,
            spec_sibling(node.id as nat) <= u32::MAX,
        ensures
            self.spec_lookup(0, spec_sibling(node.id as nat), r),
    {
        self.get_node(node.get_sibling_id())
    }

    /// The left child of the parent node `node_id`; `InvalidNodeId` where either
    /// lies outside the tree. A leaf has no children and may not be asked for one.
    pub fn get_left_child(&self, node_id: u32) -> (r: Result<&Node, Error>)
        requires
            self.wf(),
            node_id < self@.len() ==> spec_level(node_id as nat) > 0,
        ensures
            self.spec_lookup(node_id as nat, spec_left(node_id as nat), r),
    {
        let node = match self.get_node(node_id) {
            Ok(n) => n,
            Err(_) => return Err(Error::InvalidNodeId),
        };
        self.get_left_child_from_node(node)
    }

    /// The left child of the parent node `node`.
    pub fn get_left_child_from_node(&self, node: &Node) -> (r: Result<&Node, Error>)
        requires
            self.wf(),
            spec_level(node.id as nat) > 0,
        ensures
            self.spec_lookup(0, spec_left(node.id as nat), r),
    {
        self.get_node(node.get_left_id())
    }

    /// The right child of the parent node `node_id`; `InvalidNodeId` where either
    /// lies outside the tree. A leaf has no children and may not be asked for one.
    pub fn get_right_child(&self, node_id: u32) -> (r: Result<&Node, Error>)
        requires
            self.wf(),
            node_id < self@.len() ==> spec_level(node_id as nat) > 0,
        ensures
            self.spec_lookup(node_id as nat, spec_right(node_id as nat), r),
    {
        let node = match self.get_node(node_id) {
            Ok(n) => n,
            Err(_) => return Err(Error::InvalidNodeId),
        };
        self.get_right_child_from_node(node)
    }

    /// The right child of the parent node `node`; `InvalidNodeId` where it lies
    /// outside the tree.
    pub fn get_right_child_from_node(&self, node: &Node) -> (r: Result<&Node, Error>)
        requires
            self.wf(),
            spec_level(node.id as nat) > 0,
            node.id < u32::MAX,
        ensures
            self.spec_lookup(0, spec_right(node.id as nat), r),
    {
        self.get_node(node.get_right_id())
    }

    /// The root of the tree. An empty tree has none.
    pub fn get_root(&self) -> (root: &Node)
        requires
            self.wf(),
            self@.len() > 0,
        ensures
            root@ == self@[spec_root(self@.len()) as int],
            root.id == spec_root(self@.len()),
    {
        let h = util::log2(self.num_nodes());
        proof {
            lemma_root(self@.len());
            lemma_u32_pow2_no_overflow(h as nat);
            lemma_u32_shl_is_mul(1u32, h);
        }
        let id: u32 = (1u32 << h) - 1;
        assert(self@[id as int].wf_at(id as int));
        &self.nodes[id as usize]
    }
}

/// The slots of a tree after one more leaf was added: behind a tree that is
/// not empty stands a blank parent first, then the blank leaf.
pub open spec fn spec_add_leaf(nodes: Seq<NodeView>) -> Seq<NodeView> {
    let n = nodes.len();
    if n % 2 == 1 {
        nodes.push(NodeView::spec_new(NodeType::Parent, n as u32, None)).push(
            NodeView::spec_new(NodeType::Leaf, (n + 1) as u32, Some(((n + 1) / 2) as u32)),
        )
    } else {
        nodes.push(NodeView::spec_new(NodeType::Leaf, n as u32, Some((n / 2) as u32)))
    }
}

/// The slots of the tree that `leaves` additions of a leaf build from nothing.
pub open spec fn spec_grown(leaves: nat) -> Seq<NodeView>
    decreases leaves,
{
    if leaves == 0 {
        Seq::empty()
    } else {
        spec_add_leaf(spec_grown((leaves - 1) as nat))
    }
}

/// A tree that was grown leaf by leaf has as many slots as `spec_num_nodes`
/// says: `2 * leaves - 1` for one leaf or more.
pub proof fn lemma_grown_len(leaves: nat)
    ensures
        spec_grown(leaves).len() == spec_num_nodes(leaves),
        leaves >= 1 ==> spec_grown(leaves).len() == 2 * leaves - 1,
    decreases leaves,
{
    if leaves > 0 {
        lemma_grown_len((leaves - 1) as nat);
    }
}

/// A tree that was grown leaf by leaf is in order, as long as it has room.
pub proof fn lemma_grown_wf(leaves: nat)
    requires
        spec_num_nodes(leaves) <= MAX_NODES,
    ensures
        spec_nodes_wf(spec_grown(leaves)),
    decreases leaves,
{
    if leaves > 0 {
        lemma_grown_len((leaves - 1) as nat);
        lemma_grown_wf((leaves - 1) as nat);
        lemma_add_leaf_wf(spec_grown((leaves - 1) as nat));
    }
}

/// Adding a leaf keeps a tree in order.
pub proof fn lemma_add_leaf_wf(nodes: Seq<NodeView>)
    requires
        spec_nodes_wf(nodes),
        nodes.len() + 2 <= MAX_NODES,
    ensures
        spec_nodes_wf(spec_add_leaf(nodes)),
        spec_add_leaf(nodes).len() == spec_num_nodes(((nodes.len() + 1) / 2 + 1) as nat),
        forall|i: int| 0 <= i < nodes.len() ==> spec_add_leaf(nodes)[i] == nodes[i],
{
    let after = spec_add_leaf(nodes);
    assert forall|i: int| 0 <= i < after.len() implies (#[trigger] after[i]).wf_at(i) by {
        if i < nodes.len() {
            assert(nodes[i].wf_at(i));
        }
    }
}

/// Whether a node lies at the level `level`.
pub open spec fn spec_at_level(level: nat) -> spec_fn(NodeView) -> bool {
    |n: NodeView| spec_level(n.id as nat) == level
}

/// The nodes of one level, from left to right.
pub open spec fn spec_nodes_at_level(nodes: Seq<NodeView>, level: nat) -> Seq<NodeView> {
    nodes.filter(spec_at_level(level))
}

/// Which nodes stand for the node `idx` where a message is encrypted to the
/// members below it: the node itself with its unmerged leaves, where it is not
/// blank; nothing, where it is a blank leaf; what stands for its left child and
/// then what stands for its right child, where it is a blank parent. Nothing
/// stands for a child that lies beyond the end of the tree. There is no answer
/// (`None`) where `idx` itself or an unmerged leaf lies outside the tree.
pub open spec fn spec_resolution(nodes: Seq<NodeView>, idx: nat) -> Option<Seq<nat>>
    decreases spec_level(idx),
{
    if idx >= nodes.len() {
        None
    } else if !nodes[idx as int].blank {
        if forall|j: int|
            0 <= j < nodes[idx as int].unmerged_leaves.len() ==> (
            #[trigger] nodes[idx as int].unmerged_leaves[j]) < nodes.len() {
            Some(
                seq![idx] + nodes[idx as int].unmerged_leaves.map_values(|v: u32| v as nat),
            )
        } else {
            None
        }
    } else if spec_level(idx) == 0 {
        Some(Seq::empty())
    } else {
        proof {
            util::lemma_level_children(idx);
        }
        let left = if spec_left(idx) >= nodes.len() {
            Some(Seq::empty())
        } else {
            spec_resolution(nodes, spec_left(idx))
        };
        let right = if spec_right(idx) >= nodes.len() {
            Some(Seq::empty())
        } else {
            spec_resolution(nodes, spec_right(idx))
        };
        match (left, right) {
            (Some(l), Some(r)) => Some(l + r),
            _ => None,
        }
    }
}

/// A node that is not blank and has no unmerged leaves stands for itself,
/// whatever lies below it.
pub proof fn lemma_resolution_of_merged_node(nodes: Seq<NodeView>, idx: nat)
    requires
        idx < nodes.len(),
        !nodes[idx as int].blank,
        nodes[idx as int].unmerged_leaves.len() == 0,
    ensures
        spec_resolution(nodes, idx) == Some(seq![idx]),
{
    assert(seq![idx] + nodes[idx as int].unmerged_leaves.map_values(|v: u32| v as nat) =~= seq![
        idx,
    ]);
}

/// In a tree of blank nodes, of whatever size, nothing stands for any node,
/// the root among them.
pub proof fn lemma_resolution_of_blank_tree(nodes: Seq<NodeView>, idx: nat)
    requires
        forall|i: int| 0 <= i < nodes.len() ==> (#[trigger] nodes[i]).blank,
        idx < nodes.len(),
    ensures
        spec_resolution(nodes, idx) == Some(Seq::<nat>::empty()),
        spec_resolution(nodes, spec_root(nodes.len())) == Some(Seq::<nat>::empty()),
{
    lemma_blank_subtree(nodes, idx);
    lemma_root(nodes.len());
    lemma_blank_subtree(nodes, spec_root(nodes.len()));
}

proof fn lemma_blank_subtree(nodes: Seq<NodeView>, idx: nat)
    requires
        forall|i: int| 0 <= i < nodes.len() ==> (#[trigger] nodes[i]).blank,
        idx < nodes.len(),
    ensures
        spec_resolution(nodes, idx) == Some(Seq::<nat>::empty()),
    decreases spec_level(idx),
{
    assert(nodes[idx as int].blank);
    if spec_level(idx) > 0 {
        util::lemma_level_children(idx);
        if spec_left(idx) < nodes.len() {
            lemma_blank_subtree(nodes, spec_left(idx));
        }
        if spec_right(idx) < nodes.len() {
            lemma_blank_subtree(nodes, spec_right(idx));
        }
        assert(Seq::<nat>::empty() + Seq::<nat>::empty() =~= Seq::<nat>::empty());
    }
}

impl Tree {
    /// Adds a leaf at the right end of the tree, behind a blank parent where the
    /// tree was not empty.
    pub fn add_leaf(&mut self)
        requires
            old(self).wf(),
            old(self)@.len() + 2 <= MAX_NODES,
        ensures
            final(self).wf(),
            final(self)@ == spec_add_leaf(old(self)@),
            final(self).spec_num_leaves() == old(self).spec_num_leaves() + 1,
            final(self)@.len() == spec_num_nodes(final(self).spec_num_leaves()),
            final(self).spec_ciphersuite() == old(self).spec_ciphersuite(),
    {
        proof {
            lemma_add_leaf_wf(self@);
        }
        if self.id_ctr % 2 != 0 {
            // We add an intermediate node before we add the leaf.
            self.nodes.push(Node::new(NodeType::Parent, self.id_ctr, None));
            self.id_ctr += 1;
        }
        // Now add the leaf.
        self.nodes.push(Node::new(NodeType::Leaf, self.id_ctr, Some(self.leaf_id_ctr)));
        self.leaf_id_ctr += 1;
        self.id_ctr += 1;
        assert(self@ =~= spec_add_leaf(old(self)@));
    }

    /// What `get_direct_path` returns: the nodes above `node_id` up to the root,
    /// if `node_id` and all of them lie in the tree.
    pub open spec fn spec_path_lookup(&self, node_id: nat, r: Result<Vec<&Node>, Error>) -> bool {
        let path = spec_direct_path(node_id, spec_root(self@.len()));
        if node_id < self@.len() && forall|i: int|
            0 <= i < path.len() ==> (#[trigger] path[i]) < self@.len() {
            &&& r.is_ok()
            &&& r.unwrap()@.len() == path.len()
            &&& forall|i: int|
                0 <= i < path.len() ==> (#[trigger] r.unwrap()@[i])@ == self@[path[i] as int]
        } else {
            r.is_err() && r.unwrap_err() == Error::InvalidNodeId
        }
    }

    /// The nodes above the node `node_id` up to the root, nearest first;
    /// `InvalidNodeId` where the node or one of them lies outside the tree.
    pub fn get_direct_path(&self, node_id: u32) -> (r: Result<Vec<&Node>, Error>)
        requires
            self.wf(),
        ensures
            self.spec_path_lookup(node_id as nat, r),
    {
        let node = match self.get_node(node_id) {
            Ok(n) => n,
            Err(_) => return Err(Error::InvalidNodeId),
        };
        assert(self@[node_id as int].wf_at(node_id as int));
        self.get_direct_path_from_node(node)
    }

    /// The nodes above `node`, a node of this tree, up to the root.
    pub fn get_direct_path_from_node(&self, node: &Node) -> (r: Result<Vec<&Node>, Error>)
        requires
            self.wf(),
            node.id < self@.len(),
        ensures
            self.spec_path_lookup(node.id as nat, r),
    {
        proof {
            lemma_root_is_ancestor(node.id as nat, self@.len());
        }
        let path_ids = node.get_direct_path_ids(self.get_root());
        let ghost path = spec_direct_path(node.id as nat, spec_root(self@.len()));
        assert(path_ids@.len() == path_ids@.map_values(|v: u32| v as nat).len());
        let mut nodes: Vec<&Node> = Vec::new();
        let mut i: usize = 0;
        while i < path_ids.len()
            invariant
                self.wf(),
                i <= path_ids@.len(),
                path_ids@.map_values(|v: u32| v as nat) == path,
                path == spec_direct_path(node.id as nat, spec_root(self@.len())),
                path_ids@.len() == path.len(),
                nodes@.len() == i,
                forall|j: int| 0 <= j < i ==> (#[trigger] path[j]) < self@.len(),
                forall|j: int| 0 <= j < i ==> (#[trigger] nodes@[j])@ == self@[path[j] as int],
            decreases path_ids@.len() - i,
        {
            let id = path_ids[i];
            assert(path[i as int] == id as nat);
            let node = match self.get_node(id) {
                Ok(n) => n,
                Err(_) => {
                    assert(!(path[i as int] < self@.len()));
                    return Err(Error::InvalidNodeId);
                },
            };
            nodes.push(node);
            i += 1;
        }
        Ok(nodes)
    }

    /// The nodes of one level, from left to right.
    pub fn get_level(&self, level: u32) -> (out: Vec<&Node>)
        requires
            self.wf(),
        ensures
            out@.map_values(|n: &Node| n@) == spec_nodes_at_level(self@, level as nat),
    {
        let mut out: Vec<&Node> = Vec::new();
        let ghost pred = spec_at_level(level as nat);
        let mut i: usize = 0;
        proof {
            reveal(Seq::filter);
            assert(self@.subrange(0, 0) =~= Seq::<NodeView>::empty());
            assert(out@.map_values(|n: &Node| n@) =~= self@.subrange(0, 0).filter(pred));
        }
        while i < self.nodes.len()
            invariant
                i <= self.nodes@.len(),
                self.nodes@.len() == self@.len(),
                pred == spec_at_level(level as nat),
                out@.map_values(|n: &Node| n@) == self@.subrange(0, i as int).filter(pred),
            decreases self.nodes@.len() - i,
        {
            let node = &self.nodes[i];
            let ghost before = out@.map_values(|n: &Node| n@);
            if node.get_level() == level {
                out.push(node);
            }
            i += 1;
            proof {
                reveal(Seq::filter);
                let s = self@.subrange(0, i as int);
                assert(s.drop_last() =~= self@.subrange(0, i - 1));
                assert(s.last() == node@);
                if pred(node@) {
                    assert(out@.map_values(|n: &Node| n@) =~= before.push(node@));
                }
            }
        }
        assert(self@.subrange(0, i as int) =~= self@);
        out
    }

    /// What `resolution` returns: the nodes that `spec_resolution` names, or
    /// `InvalidNodeId` where it names none.
    pub open spec fn spec_resolved(&self, node_id: nat, r: Result<Vec<&Node>, Error>) -> bool {
        match spec_resolution(self@, node_id) {
            Some(ids) => {
                &&& r.is_ok()
                &&& r.unwrap()@.len() == ids.len()
                &&& forall|i: int|
                    0 <= i < ids.len() ==> (#[trigger] r.unwrap()@[i])@ == self@[ids[i] as int]
            },
            None => r.is_err() && r.unwrap_err() == Error::InvalidNodeId,
        }
    }

    /// The resolution of a node is an ordered list of non-blank nodes that
    /// collectively cover all non-blank descendants of the node.
    pub fn resolution(&self, node_id: u32) -> (r: Result<Vec<&Node>, Error>)
        requires
            self.wf(),
        ensures
            self.spec_resolved(node_id as nat, r),
        decreases spec_level(node_id as nat),
    {
        let node = match self.get_node(node_id) {
            Ok(n) => n,
            Err(_) => return Err(Error::InvalidNodeId),
        };
        assert(self@[node_id as int].wf_at(node_id as int));
        if node.blank {
            if node.is_leaf() {
                // The resolution of a blank leaf node is the empty list
                return Ok(Vec::new());
            }
            proof {
                util::lemma_level_children(node_id as nat);
            }
            // The resolution of a blank intermediate node: what stands for its
            // children, where the tree has them
            let ghost l = spec_left(node_id as nat);
            let ghost r = spec_right(node_id as nat);
            let mut left = match self.get_left_child_from_node(node) {
                Ok(n) => {
                    assert(self@[l as int].wf_at(l as int));
                    match self.resolution(n.id) {
                        Ok(v) => v,
                        Err(_) => return Err(Error::InvalidNodeId),
                    }
                },
                Err(_) => Vec::new(),
            };
            let mut right = match self.get_right_child_from_node(node) {
                Ok(n) => {
                    assert(self@[r as int].wf_at(r as int));
                    match self.resolution(n.id) {
                        Ok(v) => v,
                        Err(_) => return Err(Error::InvalidNodeId),
                    }
                },
                Err(_) => Vec::new(),
            };
            left.append(&mut right);
            return Ok(left);
        }
        // The resolution of a non-blank node

        let mut resolution: Vec<&Node> = Vec::new();
        resolution.push(node);
        let ghost unmerged = self@[node_id as int].unmerged_leaves;
        // Add all unmerged leaves
        let mut i: usize = 0;
        while i < node.unmerged_leaves.len()
            invariant
                self.wf(),
                node_id < self@.len(),
                node@ == self@[node_id as int],
                unmerged == node.unmerged_leaves@,
                i <= unmerged.len(),
                resolution@.len() == i + 1,
                resolution@[0]@ == self@[node_id as int],
                forall|j: int| 0 <= j < i ==> (#[trigger] unmerged[j]) < self@.len(),
                forall|j: int|
                    0 <= j < i ==> (#[trigger] resolution@[j + 1])@ == self@[unmerged[j] as int],
            decreases unmerged.len() - i,
        {
            let id = node.unmerged_leaves[i];
            let n = match self.get_node(id) {
                Ok(n) => n,
                Err(_) => {
                    assert(!(unmerged[i as int] < self@.len()));
                    return Err(Error::InvalidNodeId);
                },
            };
            resolution.push(n);
            i += 1;
        }
        proof {
            let ids = seq![node_id as nat] + unmerged.map_values(|v: u32| v as nat);
            assert(spec_resolution(self@, node_id as nat) == Some(ids));
            assert forall|k: int| 0 <= k < ids.len() implies (#[trigger] resolution@[k])@
                == self@[ids[k] as int] by {
                if k > 0 {
                    assert(resolution@[(k - 1) + 1]@ == self@[unmerged[k - 1] as int]);
                }
            }
        }
        Ok(resolution)
    }
}

impl Tree {
    /// Puts `key_package` at the leaf `leaf_id`, which is blank no longer: its
    /// public key is the init key of the key package. `InvalidNodeId` where the
    /// tree has no such leaf; the tree is then unchanged.
    pub fn set_leaf_key_package(&mut self, leaf_id: u32, key_package: KeyPackage) -> (r: Result<
        (),
        Error,
    >)
        requires
            old(self).wf(),
        ensures
            final(self).wf(),
            final(self).spec_ciphersuite() == old(self).spec_ciphersuite(),
            2 * leaf_id >= old(self)@.len() ==> r == Err::<(), Error>(Error::InvalidNodeId)
                && final(self)@ == old(self)@,
            2 * leaf_id < old(self)@.len() ==> r.is_ok() && final(self)@ == old(self)@.update(
                2 * leaf_id,
                NodeView {
                    public_key: key_package@.public_hpke_init_key,
                    key_package: Some(key_package@),
                    blank: false,
                    ..NodeView::spec_new(NodeType::Leaf, (2 * leaf_id) as u32, Some(leaf_id))
                },
            ),
    {
        if leaf_id > MAX_NODES / 2 || 2 * leaf_id >= self.id_ctr {
            return Err(Error::InvalidNodeId);
        }
        let id = 2 * leaf_id;
        assert(self@[id as int].wf_at(id as int));
        let public_key = key_package.public_hpke_init_key.clone();
        assert(public_key@ =~= key_package@.public_hpke_init_key);
        let node = Node {
            id,
            leaf_id: Some(leaf_id),
            node_type: NodeType::Leaf,
            private_key: Vec::new(),
            public_key,
            key_package: Some(key_package),
            unmerged_leaves: Vec::new(),
            credential: None,
            parent_hash: Vec::new(),
            blank: false,
            subtree_hash: Vec::new(),
        };
        let ghost view = node@;
        self.nodes.set(id as usize, node);
        proof {
            assert(self@ =~= old(self)@.update(id as int, view));
            assert forall|i: int| 0 <= i < self@.len() implies (#[trigger] self@[i]).wf_at(i) by {
                if i != id {
                    assert(old(self)@[i].wf_at(i));
                }
            }
        }
        Ok(())
    }

    /// Puts a public key and a list of unmerged leaves at the parent node
    /// `node_id`, which is blank no longer. `InvalidNodeId` where the tree has no
    /// such parent node; the tree is then unchanged.
    pub fn set_parent_node(
        &mut self,
        node_id: u32,
        public_key: Vec<u8>,
        unmerged_leaves: Vec<u32>,
    ) -> (r: Result<(), Error>)
        requires
            old(self).wf(),
        ensures
            final(self).wf(),
            final(self).spec_ciphersuite() == old(self).spec_ciphersuite(),
            node_id >= old(self)@.len() || node_id % 2 == 0 ==> r == Err::<(), Error>(
                Error::InvalidNodeId,
            ) && final(self)@ == old(self)@,
            node_id < old(self)@.len() && node_id % 2 == 1 ==> r.is_ok() && final(self)@ == old(
                self,
            )@.update(
                node_id as int,
                NodeView {
                    public_key: public_key@,
                    unmerged_leaves: unmerged_leaves@,
                    blank: false,
                    ..NodeView::spec_new(NodeType::Parent, node_id, None)
                },
            ),
    {
        if node_id >= self.id_ctr || node_id % 2 == 0 {
            return Err(Error::InvalidNodeId);
        }
        assert(self@[node_id as int].wf_at(node_id as int));
        let node = Node {
            id: node_id,
            leaf_id: None,
            node_type: NodeType::Parent,
            private_key: Vec::new(),
            public_key,
            key_package: None,
            unmerged_leaves,
            credential: None,
            parent_hash: Vec::new(),
            blank: false,
            subtree_hash: Vec::new(),
        };
        let ghost view = node@;
        self.nodes.set(node_id as usize, node);
        proof {
            assert(self@ =~= old(self)@.update(node_id as int, view));
            assert forall|i: int| 0 <= i < self@.len() implies (#[trigger] self@[i]).wf_at(i) by {
                if i != node_id {
                    assert(old(self)@[i].wf_at(i));
                }
            }
        }
        Ok(())
    }
}

/// In a tree of at most `MAX_NODES` slots, the parent and the sibling of every
/// node fit 32 bits.
pub proof fn lemma_index_bounds(x: nat)
    requires
        x < MAX_NODES,
    ensures
        spec_parent(x) <= u32::MAX,
        spec_sibling(x) <= u32::MAX,
{
    lemma2_to64();
    lemma2_to64_rest();
    lemma_pow2_unfold(32);
    lemma_level_lt(x, 31);
    // the full tree of height 31 holds x below its top level
    lemma_parent_bound(x, 31);
    node::lemma_sibling_bound(x, 32);
}

} // verus!
