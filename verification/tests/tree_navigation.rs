use mls_protospec::prelude::{CiphersuiteName, Tree, TreeError};

const DEFAULT_CIPHERSUITE: CiphersuiteName =
    CiphersuiteName::MLS10_128_DHKEMX25519_AES128GCM_SHA256_Ed25519;

fn tree_of(leaves: u32) -> Tree {
    let mut tree = Tree::new(DEFAULT_CIPHERSUITE);
    for _ in 0..leaves {
        tree.add_leaf();
    }
    tree
}

fn ids(nodes: Result<Vec<&mls_protospec::tree::node::Node>, TreeError>) -> Result<Vec<u32>, TreeError> {
    nodes.map(|v| v.iter().map(|n| n.id).collect())
}

#[test]
fn test_get_node() {
    let mut tree = Tree::new(DEFAULT_CIPHERSUITE);
    for _ in 65..76 {
        tree.add_leaf();
    }
    for i in 0..21 {
        assert_eq!(i, tree.get_node(i).unwrap().id);
        assert_eq!(Ok(i), tree.get_node(i).map(|n| n.id));
    }
    assert_eq!(Err(TreeError::InvalidNodeId), tree.get_node(21).map(|n| n.id));
}

#[test]
fn test_left() {
    let mut tree = Tree::new(DEFAULT_CIPHERSUITE);
    for _ in 65..77 {
        tree.add_leaf();
    }
    assert_eq!(7, tree.get_root().get_left_id());
    assert_eq!(
        3,
        tree.get_node(tree.get_root().get_left_id())
            .unwrap()
            .get_left_id()
    );
    assert_eq!(1, tree.get_node(3).unwrap().get_left_id());
    assert_eq!(0, tree.get_node(1).unwrap().get_left_id());
    assert_eq!(16, tree.get_node(17).unwrap().get_left_id());
}

#[test]
fn test_right() {
    let mut tree = Tree::new(DEFAULT_CIPHERSUITE);
    for _ in 65..76 {
        tree.add_leaf();
    }
    // Note that this node doesn't exist!
    assert_eq!(23, tree.get_root().get_right_id());
    assert_eq!(11, tree.get_node(7).unwrap().get_right_id());
    assert_eq!(18, tree.get_node(17).unwrap().get_right_id());
    assert_eq!(14, tree.get_node(13).unwrap().get_right_id());
    assert_eq!(5, tree.get_node(3).unwrap().get_right_id());
}

#[test]
fn test_parent() {
    let mut tree = Tree::new(DEFAULT_CIPHERSUITE);
    for _ in 65..79 {
        tree.add_leaf();
    }
    // Note that this node doesn't exist!
    assert_eq!(31, tree.get_root().get_parent_id());
    assert_eq!(15, tree.get_node(7).unwrap().get_parent_id());
    assert_eq!(7, tree.get_node(3).unwrap().get_parent_id());
    assert_eq!(5, tree.get_node(4).unwrap().get_parent_id());
    assert_eq!(15, tree.get_node(23).unwrap().get_parent_id());
}

#[test]
fn test_direct_path() {
    let mut tree = Tree::new(DEFAULT_CIPHERSUITE);
    for _ in 65..79 {
        tree.add_leaf();
    }
    fn check(id: u32, expected: &Vec<u32>, tree: &Tree) {
        let path = tree.get_direct_path(id).unwrap();
        let path_ids: Vec<u32> = path.iter().map(|n| n.id).collect();
        assert_eq!(expected, &path_ids);
    }
    check(0, &vec![1, 3, 7, 15], &tree);
    check(2, &vec![1, 3, 7, 15], &tree);
    check(4, &vec![5, 3, 7, 15], &tree);
    check(6, &vec![5, 3, 7, 15], &tree);
    check(8, &vec![9, 11, 7, 15], &tree);

    // Querrying a path that doesn't exist throws an error.
    match tree.get_direct_path(26) {
        Ok(_) => panic!("There should be no valid path here!"),
        Err(e) => assert_eq!(e, TreeError::InvalidNodeId),
    }
}

#[test]
fn simple_tree() {
    let mut tree = Tree::new(DEFAULT_CIPHERSUITE);
    for _ in 65..79 {
        tree.add_leaf();
        println!("\npretty print tree:\n{}", tree.to_string());
    }
}

#[test]
fn five_leaves_make_nine_nodes_of_height_three() {
    let tree = tree_of(5);
    assert_eq!(tree.get_height(), 3);
    assert_eq!(tree.num_nodes(), 9);
    for i in 0..9 {
        let node = tree.get_node(i).unwrap();
        assert_eq!(node.id, i);
        assert!(node.blank);
        assert_eq!(node.is_leaf(), i % 2 == 0);
        assert_eq!(node.leaf_id, if i % 2 == 0 { Some(i / 2) } else { None });
    }
    assert!(tree.get_node(9).is_err());
}

#[test]
fn an_empty_tree_has_no_nodes() {
    let tree = tree_of(0);
    assert_eq!(tree.num_nodes(), 0);
    assert_eq!(tree.get_height(), 0);
    assert_eq!(tree.get_node(0).map(|n| n.id), Err(TreeError::InvalidNodeId));
    assert_eq!(tree.get_leaf_node(0).map(|n| n.id), Err(TreeError::InvalidNodeId));
    assert_eq!(ids(tree.get_direct_path(0)), Err(TreeError::InvalidNodeId));
    assert_eq!(ids(tree.resolution(0)), Err(TreeError::InvalidNodeId));
}

#[test]
fn every_leaf_count_gives_two_l_minus_one_nodes() {
    let mut tree = Tree::new(DEFAULT_CIPHERSUITE);
    for leaves in 1..=40u32 {
        tree.add_leaf();
        assert_eq!(tree.num_nodes(), 2 * leaves - 1);
        assert!(tree.get_node(2 * leaves - 2).is_ok());
        assert!(tree.get_node(2 * leaves - 1).is_err());
        assert_eq!(tree.get_leaf_node(leaves - 1).unwrap().leaf_id, Some(leaves - 1));
        assert!(tree.get_leaf_node(leaves).is_err());
    }
}

#[test]
fn direct_path_of_leaf_zero_in_a_tree_of_fourteen_leaves() {
    let tree = tree_of(14);
    assert_eq!(tree.num_nodes(), 27);
    assert_eq!(tree.get_root().id, 15);
    assert_eq!(ids(tree.get_direct_path(0)), Ok(vec![1, 3, 7, 15]));
    assert_eq!(ids(tree.get_direct_path(15)), Ok(vec![]));
    assert_eq!(ids(tree.get_direct_path(7)), Ok(vec![15]));
    // the parent of node 24 is node 25, and the parent of that is node 27
    assert_eq!(ids(tree.get_direct_path(24)), Err(TreeError::InvalidNodeId));
    assert_eq!(ids(tree.get_direct_path(27)), Err(TreeError::InvalidNodeId));
}

#[test]
fn lookups_of_neighbours() {
    let tree = tree_of(5);
    assert_eq!(tree.get_parent(0).unwrap().id, 1);
    assert_eq!(tree.get_parent(2).unwrap().id, 1);
    assert_eq!(tree.get_parent(1).unwrap().id, 3);
    assert_eq!(tree.get_parent(5).unwrap().id, 3);
    assert_eq!(tree.get_parent(3).unwrap().id, 7);
    // node 8 is the last one: its parent would be node 9
    assert_eq!(tree.get_parent(8).map(|n| n.id), Err(TreeError::InvalidNodeId));
    assert_eq!(tree.get_parent(9).map(|n| n.id), Err(TreeError::InvalidNodeId));

    assert_eq!(tree.get_sibling(0).unwrap().id, 2);
    assert_eq!(tree.get_sibling(2).unwrap().id, 0);
    assert_eq!(tree.get_sibling(1).unwrap().id, 5);
    assert_eq!(tree.get_sibling(5).unwrap().id, 1);
    assert_eq!(tree.get_sibling(6).unwrap().id, 4);
    assert_eq!(tree.get_sibling(3).map(|n| n.id), Err(TreeError::InvalidNodeId));
    assert_eq!(tree.get_sibling(12).map(|n| n.id), Err(TreeError::InvalidNodeId));

    assert_eq!(tree.get_left_child(7).unwrap().id, 3);
    assert_eq!(tree.get_left_child(3).unwrap().id, 1);
    assert_eq!(tree.get_left_child(5).unwrap().id, 4);
    assert_eq!(tree.get_right_child(3).unwrap().id, 5);
    assert_eq!(tree.get_right_child(5).unwrap().id, 6);
    assert_eq!(tree.get_right_child(7).map(|n| n.id), Err(TreeError::InvalidNodeId));
    assert_eq!(tree.get_left_child(11).map(|n| n.id), Err(TreeError::InvalidNodeId));

    let node = tree.get_node(3).unwrap();
    assert_eq!(tree.get_parent_from_node(node).unwrap().id, 7);
    assert_eq!(tree.get_left_child_from_node(node).unwrap().id, 1);
    assert_eq!(tree.get_right_child_from_node(node).unwrap().id, 5);
    let node = tree.get_node(4).unwrap();
    assert_eq!(tree.get_sibling_from_node(node).unwrap().id, 6);
    assert_eq!(ids(tree.get_direct_path_from_node(node)), Ok(vec![5, 3, 7]));
}

#[test]
fn nodes_of_a_level() {
    let tree = tree_of(5);
    let level = |l: u32| -> Vec<u32> { tree.get_level(l).iter().map(|n| n.id).collect() };
    assert_eq!(level(0), vec![0, 2, 4, 6, 8]);
    assert_eq!(level(1), vec![1, 5]);
    assert_eq!(level(2), vec![3]);
    assert_eq!(level(3), vec![7]);
    assert_eq!(level(4), Vec::<u32>::new());
}

#[test]
fn resolution_of_a_blank_full_tree_is_empty() {
    for height in 0..5u32 {
        let tree = tree_of(1 << height);
        let root = tree.get_root().id;
        assert_eq!(root, (1 << height) - 1);
        assert_eq!(ids(tree.resolution(root)), Ok(vec![]));
        for i in 0..tree.num_nodes() {
            assert_eq!(ids(tree.resolution(i)), Ok(vec![]));
        }
    }
}

#[test]
fn resolution_of_a_blank_root_without_a_right_child() {
    // three leaves: nodes 0..4, root 3, whose right child would be node 5
    let tree = tree_of(3);
    assert_eq!(tree.get_root().id, 3);
    assert_eq!(ids(tree.resolution(3)), Ok(vec![]));
    assert_eq!(ids(tree.resolution(1)), Ok(vec![]));
    // the node that is asked for has to be there
    assert_eq!(ids(tree.resolution(5)), Err(TreeError::InvalidNodeId));
}

#[test]
fn resolution_of_a_blank_tree_of_any_size_is_empty() {
    for leaves in 1..=40u32 {
        let tree = tree_of(leaves);
        let root = tree.get_root().id;
        assert_eq!(ids(tree.resolution(root)), Ok(vec![]));
        for i in 0..tree.num_nodes() {
            assert_eq!(ids(tree.resolution(i)), Ok(vec![]));
        }
    }
}

#[test]
fn nothing_stands_for_a_child_beyond_the_end() {
    // five leaves: nodes 0..8, root 7, whose right child would be node 11
    let mut tree = tree_of(5);
    tree.set_parent_node(1, vec![1], vec![]).unwrap();
    tree.set_parent_node(5, vec![5], vec![4]).unwrap();
    assert_eq!(ids(tree.resolution(7)), Ok(vec![1, 5, 4]));
    assert_eq!(ids(tree.resolution(3)), Ok(vec![1, 5, 4]));
    assert_eq!(ids(tree.resolution(11)), Err(TreeError::InvalidNodeId));
}

#[test]
fn resolution_of_a_node_that_is_not_blank_is_the_node() {
    let mut tree = tree_of(4);
    tree.set_parent_node(1, vec![1], vec![]).unwrap();
    tree.set_parent_node(3, vec![3], vec![]).unwrap();
    tree.set_parent_node(5, vec![5], vec![]).unwrap();
    assert_eq!(ids(tree.resolution(3)), Ok(vec![3]));
    assert_eq!(ids(tree.resolution(1)), Ok(vec![1]));
    assert_eq!(ids(tree.resolution(5)), Ok(vec![5]));
    assert_eq!(ids(tree.resolution(0)), Ok(vec![]));
}

#[test]
fn resolution_goes_left_before_right_and_self_before_unmerged() {
    // eight leaves: nodes 0..14, root 7
    let mut tree = tree_of(8);
    tree.set_parent_node(1, vec![1], vec![2, 0]).unwrap();
    tree.set_parent_node(11, vec![11], vec![12]).unwrap();
    tree.set_parent_node(5, vec![5], vec![]).unwrap();
    // 3 is blank: what stands for 1, then what stands for 5
    assert_eq!(ids(tree.resolution(3)), Ok(vec![1, 2, 0, 5]));
    // 7 is blank: left subtree first
    assert_eq!(ids(tree.resolution(7)), Ok(vec![1, 2, 0, 5, 11, 12]));
    assert_eq!(ids(tree.resolution(11)), Ok(vec![11, 12]));
    // 9 and 13 are blank parents of blank leaves
    assert_eq!(ids(tree.resolution(9)), Ok(vec![]));
}

#[test]
fn resolution_with_an_unmerged_leaf_outside_the_tree() {
    let mut tree = tree_of(2);
    tree.set_parent_node(1, vec![1], vec![0, 3]).unwrap();
    assert_eq!(ids(tree.resolution(1)), Err(TreeError::InvalidNodeId));
}

#[test]
fn setters_refuse_what_is_not_there() {
    let mut tree = tree_of(2);
    assert_eq!(tree.set_parent_node(0, vec![], vec![]), Err(TreeError::InvalidNodeId));
    assert_eq!(tree.set_parent_node(3, vec![], vec![]), Err(TreeError::InvalidNodeId));
    assert_eq!(tree.set_parent_node(1, vec![9], vec![]), Ok(()));
    let node = tree.get_node(1).unwrap();
    assert!(!node.blank);
    assert_eq!(node.public_key, vec![9]);
    assert_eq!(tree.num_nodes(), 3);
}
