use mls_protospec::prelude::{CiphersuiteName, Tree};
use mls_protospec::tree::node::{Node, NodeType};
use mls_protospec::tree::pretty_print::{build_indent, build_space, build_spacer};

#[test]
fn spaces_come_in_pairs() {
    assert_eq!(build_space(0), "");
    assert_eq!(build_space(1), "  ");
    assert_eq!(build_space(3), "      ");
    assert_eq!(build_indent(0, 9), "");
    assert_eq!(build_indent(1, 9), "  ");
    assert_eq!(build_indent(2, 0), "      ");
    assert_eq!(build_spacer(3, 0), " ".repeat(14));
    assert_eq!(build_spacer(5, 0).len(), 62);
}

#[test]
fn node_labels_are_four_wide() {
    let label = |id: u32| Node::new(NodeType::Leaf, id, None).to_string();
    assert_eq!(label(0), "0000");
    assert_eq!(label(7), "0007");
    assert_eq!(label(10), "0010");
    assert_eq!(label(99), "0099");
    assert_eq!(label(100), "0100");
    assert_eq!(label(999), "0999");
    assert_eq!(label(1000), "1000");
    assert_eq!(label(12345), "12345");
    assert_eq!(label(u32::MAX), "4294967295");
}

#[test]
fn a_tree_of_two_leaves_as_text() {
    let mut tree = Tree::new(CiphersuiteName::MLS10_128_DHKEMX25519_AES128GCM_SHA256_Ed25519);
    tree.add_leaf();
    assert_eq!(tree.to_string(), "Tree Height: 1\nRoot: 0000\n\n  0000  \n\n");
    tree.add_leaf();
    let expected = "Tree Height: 2\nRoot: 0001\n\n      0001      \n  0000    0002  \n\n";
    assert_eq!(tree.to_string(), expected);
}
