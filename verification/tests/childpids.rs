//! Breadth-first descendant discovery on concrete listings and trees.

use active_volume::childpids::{descendants_of, flatten_tree_breadth_first, Node, ProcessEntry};

fn entry(pid: i32, parent: i32) -> ProcessEntry {
    ProcessEntry { pid, parent: Some(parent) }
}

#[test]
fn descendants_breadth_first_excluding_root() {
    // 1 -> {2, 3}, 2 -> {4}
    let listing = vec![entry(2, 1), entry(3, 1), entry(4, 2)];
    assert_eq!(descendants_of(1, &listing), vec![2, 3, 4]);
}

#[test]
fn descendants_level_order_two_levels() {
    // 1 -> {2, 3}, 2 -> {4, 5}, 3 -> {6}
    let listing = vec![entry(2, 1), entry(3, 1), entry(4, 2), entry(5, 2), entry(6, 3)];
    assert_eq!(descendants_of(1, &listing), vec![2, 3, 4, 5, 6]);
}

#[test]
fn descendants_keep_listing_order_of_siblings() {
    let listing = vec![entry(3, 1), entry(2, 1)];
    assert_eq!(descendants_of(1, &listing), vec![3, 2]);
}

#[test]
fn descendants_of_empty_listing() {
    let listing: Vec<ProcessEntry> = Vec::new();
    assert_eq!(descendants_of(1, &listing), Vec::<i32>::new());
}

#[test]
fn descendants_of_unrelated_root() {
    let listing = vec![entry(2, 1), entry(3, 2)];
    assert_eq!(descendants_of(42, &listing), Vec::<i32>::new());
}

#[test]
fn descendants_terminate_on_a_cyclic_listing() {
    // A malformed snapshot whose parent links form a cycle: the walk is
    // depth-bounded by the listing's length instead of spinning forever.
    let listing = vec![entry(2, 3), entry(3, 2)];
    assert_eq!(descendants_of(2, &listing), vec![3, 2]);
}

#[test]
fn flatten_excludes_root_and_walks_level_order() {
    let tree = Node {
        value: 1,
        children: vec![
            Node { value: 2, children: vec![Node { value: 4, children: vec![] }] },
            Node { value: 3, children: vec![] },
        ],
    };
    assert_eq!(flatten_tree_breadth_first(tree), vec![2, 3, 4]);
}

#[test]
fn flatten_of_a_leaf_is_empty() {
    let tree: Node<u8> = Node { value: 9, children: vec![] };
    assert_eq!(flatten_tree_breadth_first(tree), Vec::<u8>::new());
}

#[test]
fn flatten_works_on_any_value_type() {
    let tree = Node {
        value: "root",
        children: vec![
            Node { value: "left", children: vec![] },
            Node { value: "right", children: vec![Node { value: "deep", children: vec![] }] },
        ],
    };
    assert_eq!(flatten_tree_breadth_first(tree), vec!["left", "right", "deep"]);
}

#[test]
fn live_process_table_has_no_children_for_an_unused_pid() {
    // Reads the real process table through the sysinfo-backed entry point;
    // nothing can have this pid as its parent.
    let pids = active_volume::childpids::get_children_pids(i32::MAX - 1);
    assert_eq!(pids, Vec::<i32>::new());
}
