//! One slot of the tree array.
use crate::key_package::{KeyPackage, KeyPackageView};
use crate::util;
use crate::util::{
    lemma_level_ancestor, lemma_level_lt, lemma_level_parent, lemma_sibling, spec_ancestor,
    spec_co_path, spec_direct_path, spec_is_ancestor_or_self, spec_left, spec_level, spec_parent,
    spec_right, spec_sibling,
};
use vstd::arithmetic::power2::{lemma2_to64, lemma2_to64_rest, pow2};
use vstd::prelude::*;

verus! {

/// What kind of node a slot holds.
#[derive(Clone, Copy, Debug, PartialEq, Eq, Structural)]
pub enum NodeType {
    Parent,
    Leaf,
    Unspecified,
}

impl Default for NodeType {
    fn default() -> (t: Self)
        ensures
            t == NodeType::Unspecified,
    {
        NodeType::Unspecified
    }
}

/// A node of the tree. A blank node carries no key material.
#[derive(Debug)]
pub struct Node {
    pub id: u32,
    pub leaf_id: Option<u32>,  // Only used if node_type is Leaf
    pub node_type: NodeType,
    pub private_key: Vec<u8>,
    pub public_key: Vec<u8>,
    pub key_package: Option<KeyPackage>,
    pub unmerged_leaves: Vec<u32>,  // ordered
    pub credential: Option<Vec<u8>>,  // Leaf nodes only
    pub parent_hash: Vec<u8>,
    pub blank: bool,  // if true, nothing else is set
    pub subtree_hash: Vec<u8>,
}

/// What a node holds.
pub struct NodeView {
    pub id: u32,
    pub leaf_id: Option<u32>,
    pub node_type: NodeType,
    pub private_key: Seq<u8>,
    pub public_key: Seq<u8>,
    pub key_package: Option<KeyPackageView>,
    pub unmerged_leaves: Seq<u32>,
    pub credential: Option<Seq<u8>>,
    pub parent_hash: Seq<u8>,
    pub blank: bool,
    pub subtree_hash: Seq<u8>,
}

impl View for Node {
    type V = NodeView;

    open spec fn view(&self) -> NodeView {
        NodeView {
            id: self.id,
            leaf_id: self.leaf_id,
            node_type: self.node_type,
            private_key: self.private_key@,
            public_key: self.public_key@,
            key_package: match self.key_package {
                Some(kp) => Some(kp@),
                None => None,
            },
            unmerged_leaves: self.unmerged_leaves@,
            credential: match self.credential {
                Some(c) => Some(c@),
                None => None,
            },
            parent_hash: self.parent_hash@,
            blank: self.blank,
            subtree_hash: self.subtree_hash@,
        }
    }
}

impl NodeView {
    /// The blank node of the given kind at index `id`.
    pub open spec fn spec_new(node_type: NodeType, id: u32, leaf_id: Option<u32>) -> NodeView {
        NodeView {
            id,
            leaf_id,
            node_type,
            private_key: Seq::empty(),
            public_key: Seq::empty(),
            key_package: None,
            unmerged_leaves: Seq::empty(),
            credential: None,
            parent_hash: Seq::empty(),
            blank: true,
            subtree_hash: Seq::empty(),
        }
    }

    /// A blank node has no keys, no key package, no parent hash and no
    /// unmerged leaves.
    pub open spec fn wf(self) -> bool {
        self.blank ==> {
            &&& self.private_key.len() == 0
            &&& self.public_key.len() == 0
            &&& self.key_package is None
            &&& self.unmerged_leaves.len() == 0
            &&& self.parent_hash.len() == 0
        }
    }

    /// Whether the node can stand at index `i` of a tree: it knows its index,
    /// it is a leaf at an even index and a parent at an odd one, and a leaf knows
    /// its number among the leaves.
    pub open spec fn wf_at(self, i: int) -> bool {
        &&& self.wf()
        &&& self.id == i
        &&& i % 2 == 0 ==> self.node_type == NodeType::Leaf && self.leaf_id == Some((i / 2) as u32)
        &&& i % 2 == 1 ==> self.node_type == NodeType::Parent && self.leaf_id.is_none()
    }
}

impl Node {
    /// A blank node of the given kind for the index `id`.
    pub fn new(node_type: NodeType, id: u32, leaf_id: Option<u32>) -> (node: Self)
        ensures
            node@ == NodeView::spec_new(node_type, id, leaf_id),
    {
        Self {
            id,
            leaf_id,
            node_type,
            private_key: Vec::new(),
            public_key: Vec::new(),
            key_package: None,
            unmerged_leaves: Vec::new(),
            credential: None,
            parent_hash: Vec::new(),
            blank: true,
            subtree_hash: Vec::new(),
        }
    }

    /// Whether the node is a leaf.
    pub fn is_leaf(&self) -> (b: bool)
        ensures
            b == (self.node_type == NodeType::Leaf),
    {
        match self.node_type {
            NodeType::Leaf => true,
            _ => false,
        }
    }

    /// The level of the node: 0 for a leaf.
    pub fn get_level(&self) -> (k: u32)
        ensures
            k == spec_level(self.id as nat),
    {
        util::level(self.id)
    }

    /// The index of the left child. A leaf has none.
    pub fn get_left_id(&self) -> (l: u32)
        requires
            spec_level(self.id as nat) > 0,
        ensures
            l == spec_left(self.id as nat),
    {
        util::left(self.id)
    }

    /// The index of the right child. A leaf has none.
    pub fn get_right_id(&self) -> (r: u32)
        requires
            spec_level(self.id as nat) > 0,
            self.id < u32::MAX,
        ensures
            r == spec_right(self.id as nat),
    {
        util::right(self.id)
    }

    /// The index of the parent.
    pub fn get_parent_id(&self) -> (p: u32)
        requires
            self.id < u32::MAX,
        ensures
            p == spec_parent(self.id as nat),
    {
        util::parent(self.id)
    }

    /// The index of the sibling.
    pub fn get_sibling_id(&self) -> (s: u32)
        requires
            self.id < u32::MAX,
            spec_sibling(self.id as nat) <= u32::MAX,
        ensures
            s == spec_sibling(self.id as nat),
    {
        util::sibling(self.id)
    }

    /// The indices of the nodes above the node up to `root`, nearest first.
    pub fn get_direct_path_ids(&self, root: &Self) -> (d: Vec<u32>)
        requires
            spec_is_ancestor_or_self(root.id as nat, self.id as nat),
        ensures
            d@.map_values(|v: u32| v as nat) == spec_direct_path(self.id as nat, root.id as nat),
    {
        util::direct_path(self.id, root.id)
    }

    /// The siblings of the node and of the nodes above it, below `root`.
    pub fn get_co_path_ids(&self, root: &Self) -> (c: Vec<u32>)
        requires
            spec_is_ancestor_or_self(root.id as nat, self.id as nat),
            root.id < u32::MAX,
        ensures
            c@.map_values(|v: u32| v as nat) == spec_co_path(self.id as nat, root.id as nat),
    {
        let x = self.id;
        let r = root.id;
        let mut direct_path: Vec<u32> = Vec::new();
        direct_path.push(x);
        let mut above = self.get_direct_path_ids(root);
        let ghost steps = (spec_level(r as nat) - spec_level(x as nat)) as nat;
        proof {
            let a = above@.map_values(|v: u32| v as nat);
            assert(above@.len() == a.len());
            assert forall|i: int| 0 <= i < steps implies above@[i] == spec_ancestor(
                x as nat,
                (i + 1) as nat,
            ) by {
                assert(a[i] == above@[i] as nat);
            }
        }
        direct_path.append(&mut above);
        direct_path.pop();
        assert(direct_path@.len() == steps);
        assert forall|i: int| 0 <= i < steps implies direct_path@[i] == spec_ancestor(
            x as nat,
            i as nat,
        ) by {}
        let mut c: Vec<u32> = Vec::new();
        let mut i: usize = 0;
        while i < direct_path.len()
            invariant
                i <= direct_path@.len(),
                direct_path@.len() == steps,
                steps == spec_level(r as nat) - spec_level(x as nat),
                spec_ancestor(x as nat, steps) == r,
                r < u32::MAX,
                forall|j: int|
                    0 <= j < steps ==> direct_path@[j] == spec_ancestor(x as nat, j as nat),
                c@.len() == i,
                forall|j: int|
                    0 <= j < i ==> c@[j] == spec_sibling(spec_ancestor(x as nat, j as nat)),
            decreases direct_path@.len() - i,
        {
            let v = direct_path[i];
            proof {
                let p = spec_parent(v as nat);
                assert(p == spec_ancestor(x as nat, (i + 1) as nat));
                lemma_level_ancestor(x as nat, (i + 1) as nat);
                lemma_level_ancestor(x as nat, i as nat);
                lemma2_to64();
                lemma2_to64_rest();
                lemma_level_lt(r as nat, 32);
                lemma_level_lt(v as nat, 32);
                if i + 1 < steps {
                    assert(p == direct_path@[i + 1]);
                } else {
                    assert(p == r);
                }
                lemma_level_lt(p, 32);
                lemma_sibling_bound(v as nat, 32);
            }
            c.push(util::sibling(v));
            i += 1;
        }
        assert(c@.map_values(|v: u32| v as nat) =~= spec_co_path(x as nat, r as nat));
        c
    }
}

/// A node below level `n - 1` whose parent lies under `2^n - 1` has its sibling
/// there too.
pub proof fn lemma_sibling_bound(x: nat, n: nat)
    requires
        spec_parent(x) + 1 < pow2(n),
    ensures
        spec_sibling(x) + 1 < pow2(n),
{
    let p = spec_parent(x);
    lemma_level_parent(x);
    lemma_sibling(x);
    crate::util::lemma_level_children(p);
    crate::util::lemma_children_bound(p, n);
}

} // verus!
