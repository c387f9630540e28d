use std::sync::Arc;
use treescape::tree::Node;

fn file(name: &str, size: u64) -> Arc<Node> {
    Arc::new(Node::new_file(name.to_string(), size))
}

#[test]
fn new_dir_sums_child_sizes() {
    let dir = Node::new_dir(
        "/d".to_string(),
        vec![file("a", 10), file("b", 20), file("c", 30)],
    );
    assert_eq!(dir.size, 60);
    assert!(dir.is_dir);
    assert!(!dir.is_link);
}

#[test]
fn new_dir_sorts_children_desc_by_size() {
    let dir = Node::new_dir(
        "/d".to_string(),
        vec![file("small", 1), file("big", 100), file("mid", 50)],
    );
    let names: Vec<&str> = dir.children.iter().map(|c| c.name.as_str()).collect();
    assert_eq!(names, vec!["big", "mid", "small"]);
}

#[test]
fn new_dir_breaks_size_ties_alphabetically() {
    let dir = Node::new_dir(
        "/d".to_string(),
        vec![file("zeta", 10), file("alpha", 10), file("mike", 10)],
    );
    let names: Vec<&str> = dir.children.iter().map(|c| c.name.as_str()).collect();
    assert_eq!(names, vec!["alpha", "mike", "zeta"]);
}

#[test]
fn new_link_is_leaf_marked_as_link() {
    let link = Node::new_link("/some/link".to_string(), 42);
    assert!(link.is_link);
    assert!(!link.is_dir);
    assert_eq!(link.size, 42);
    assert!(link.children.is_empty());
}

#[test]
fn total_count_includes_self_and_descendants() {
    let sub = Arc::new(Node::new_dir(
        "/r/sub".to_string(),
        vec![file("b", 1), file("c", 1)],
    ));
    let root = Node::new_dir("/r".to_string(), vec![file("a", 1), sub]);
    assert_eq!(root.total_count(), 5);
}

#[test]
fn total_count_iterative_handles_deep_tree() {
    let mut node: Arc<Node> = Arc::new(Node::new_file("/leaf".to_string(), 1));
    for i in 0..2000 {
        node = Arc::new(Node::new_dir(format!("/d{i}"), vec![node]));
    }
    assert_eq!(node.total_count(), 2001);
}
