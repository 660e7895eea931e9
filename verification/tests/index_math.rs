use mls_protospec::tree::node::{Node, NodeType};
use mls_protospec::util::{direct_path, left, level, log2, num_nodes, parent, right, sibling};

#[test]
fn level_counts_the_low_one_bits() {
    assert_eq!(level(0), 0);
    assert_eq!(level(1), 1);
    assert_eq!(level(2), 0);
    assert_eq!(level(3), 2);
    assert_eq!(level(5), 1);
    assert_eq!(level(7), 3);
    assert_eq!(level(11), 2);
    assert_eq!(level(0x7fff_ffff), 31);
    assert_eq!(level(0xffff_fffe), 0);
    assert_eq!(level(u32::MAX), 32);
}

#[test]
fn log2_is_rounded_down() {
    assert_eq!(log2(0), 0);
    assert_eq!(log2(1), 0);
    assert_eq!(log2(2), 1);
    assert_eq!(log2(3), 1);
    assert_eq!(log2(4), 2);
    assert_eq!(log2(9), 3);
    assert_eq!(log2(27), 4);
    assert_eq!(log2(0x8000_0000), 31);
    assert_eq!(log2(u32::MAX), 31);
}

#[test]
fn num_nodes_of_leaf_counts() {
    assert_eq!(num_nodes(0), 0);
    assert_eq!(num_nodes(1), 1);
    assert_eq!(num_nodes(2), 3);
    assert_eq!(num_nodes(5), 9);
    assert_eq!(num_nodes(14), 27);
    assert_eq!(num_nodes(0x8000_0000), u32::MAX);
    for l in 1..1000u32 {
        assert_eq!(num_nodes(l), 2 * l - 1);
    }
}

#[test]
fn children_parent_and_sibling_of_some_nodes() {
    assert_eq!(left(1), 0);
    assert_eq!(right(1), 2);
    assert_eq!(left(3), 1);
    assert_eq!(right(3), 5);
    assert_eq!(left(7), 3);
    assert_eq!(right(7), 11);
    assert_eq!(left(13), 12);
    assert_eq!(right(13), 14);
    assert_eq!(left(u32::MAX), 0x7fff_ffff);
    assert_eq!(right(0x7fff_ffff), 0xbfff_ffff);

    assert_eq!(parent(0), 1);
    assert_eq!(parent(2), 1);
    assert_eq!(parent(4), 5);
    assert_eq!(parent(1), 3);
    assert_eq!(parent(5), 3);
    assert_eq!(parent(3), 7);
    assert_eq!(parent(11), 7);
    assert_eq!(parent(0x7fff_ffff), u32::MAX);
    assert_eq!(parent(0xffff_fffe), 0xffff_fffd);

    assert_eq!(sibling(0), 2);
    assert_eq!(sibling(2), 0);
    assert_eq!(sibling(1), 5);
    assert_eq!(sibling(5), 1);
    assert_eq!(sibling(3), 11);
    assert_eq!(sibling(11), 3);
    assert_eq!(sibling(8), 10);
}

#[test]
fn a_node_is_the_parent_of_its_children() {
    for x in 0..4096u32 {
        if level(x) > 0 {
            assert_eq!(parent(left(x)), x);
            assert_eq!(parent(right(x)), x);
            assert_eq!(level(left(x)), level(x) - 1);
            assert_eq!(level(right(x)), level(x) - 1);
            assert!(left(x) < x && x < right(x));
        }
        assert_eq!(level(parent(x)), level(x) + 1);
    }
}

#[test]
fn the_sibling_of_the_sibling_is_the_node() {
    for x in 0..4096u32 {
        assert_eq!(sibling(sibling(x)), x);
        assert_ne!(sibling(x), x);
        assert_eq!(parent(sibling(x)), parent(x));
    }
}

#[test]
fn direct_paths_end_at_the_root_and_leave_the_node_out() {
    assert_eq!(direct_path(0, 15), vec![1, 3, 7, 15]);
    assert_eq!(direct_path(8, 15), vec![9, 11, 7, 15]);
    assert_eq!(direct_path(26, 15), vec![25, 27, 23, 15]);
    assert_eq!(direct_path(15, 15), Vec::<u32>::new());
    assert_eq!(direct_path(3, 3), Vec::<u32>::new());
    assert_eq!(direct_path(6, 3), vec![5, 3]);
    for root_level in 0..6u32 {
        let root = (1u32 << root_level) - 1;
        for x in 0..(2 * root + 1) {
            let path = direct_path(x, root);
            assert!(!path.contains(&x));
            assert_eq!(path.len() as u32, root_level - level(x));
            if x == root {
                assert!(path.is_empty());
            } else {
                assert_eq!(*path.last().unwrap(), root);
                assert_eq!(path[0], parent(x));
            }
        }
    }
}

#[test]
fn paths_of_a_node() {
    let root = Node::new(NodeType::Parent, 7, None);
    let leaf = Node::new(NodeType::Leaf, 4, Some(2));
    assert!(leaf.is_leaf());
    assert!(!root.is_leaf());
    assert!(leaf.blank);
    assert_eq!(leaf.get_level(), 0);
    assert_eq!(root.get_level(), 3);
    assert_eq!(root.get_left_id(), 3);
    assert_eq!(root.get_right_id(), 11);
    assert_eq!(leaf.get_parent_id(), 5);
    assert_eq!(leaf.get_sibling_id(), 6);
    assert_eq!(leaf.get_direct_path_ids(&root), vec![5, 3, 7]);
    // the siblings of 4, of 5 and of 3
    assert_eq!(leaf.get_co_path_ids(&root), vec![6, 1, 11]);
    assert_eq!(root.get_co_path_ids(&root), Vec::<u32>::new());
}
