use std::sync::Arc;
use treescape::scan::{EntryDelta, EntryKind, IncrementalTree};
use treescape::tree::Node;

fn delta(path: &str, size: u64, is_dir: bool) -> EntryDelta {
    EntryDelta {
        path: path.to_string(),
        size,
        kind: if is_dir {
            EntryKind::Dir
        } else {
            EntryKind::File
        },
    }
}

fn link_delta(path: &str, size: u64) -> EntryDelta {
    EntryDelta {
        path: path.to_string(),
        size,
        kind: EntryKind::Link,
    }
}

/// Helper: build a tree from a fixed delta sequence using IncrementalTree.
fn build(deltas: Vec<EntryDelta>, root: &str) -> Arc<Node> {
    let mut t = IncrementalTree::new(root.to_string());
    for d in deltas {
        t.apply(d);
    }
    t.publish()
}

#[test]
fn empty_scan_yields_empty_root() {
    let t = build(vec![delta("/r", 0, true)], "/r");
    assert!(t.is_dir);
    assert_eq!(t.children.len(), 0);
    assert_eq!(t.size, 0);
}

#[test]
fn single_file_under_root() {
    let t = build(
        vec![delta("/r", 0, true), delta("/r/a.txt", 100, false)],
        "/r",
    );
    assert_eq!(t.size, 100);
    assert_eq!(t.children.len(), 1);
    assert_eq!(t.children[0].name, "a.txt");
    assert_eq!(t.children[0].size, 100);
}

#[test]
fn nested_dirs_aggregate_sizes() {
    // /r
    //   /r/sub (dir)
    //     /r/sub/a (10)
    //     /r/sub/b (20)
    //   /r/c (30)
    let t = build(
        vec![
            delta("/r", 0, true),
            delta("/r/sub", 0, true),
            delta("/r/sub/a", 10, false),
            delta("/r/sub/b", 20, false),
            delta("/r/c", 30, false),
        ],
        "/r",
    );
    assert_eq!(t.size, 60);
    // Sorted desc by size: sub (30) then c (30) — same size, alpha tiebreak: c < sub
    let names: Vec<&str> = t.children.iter().map(|c| c.name.as_str()).collect();
    assert_eq!(names, vec!["c", "sub"]);
    let sub = t.children.iter().find(|c| c.name == "sub").unwrap();
    assert_eq!(sub.size, 30);
    assert_eq!(sub.children.len(), 2);
}

#[test]
fn deltas_in_arbitrary_order_produce_same_tree() {
    // jwalk gives parent-before-child, but the builder shouldn't care.
    let interleaved = build(
        vec![
            delta("/r", 0, true),
            delta("/r/sub/a", 10, false), // leaf before dir
            delta("/r/sub", 0, true),
            delta("/r/sub/b", 20, false),
        ],
        "/r",
    );
    assert_eq!(interleaved.size, 30);
    let sub = interleaved
        .children
        .iter()
        .find(|c| c.name == "sub")
        .unwrap();
    assert_eq!(sub.size, 30);
    assert_eq!(sub.children.len(), 2);
}

#[test]
fn second_publish_picks_up_new_deltas() {
    let mut t = IncrementalTree::new("/r".to_string());
    t.apply(delta("/r", 0, true));
    t.apply(delta("/r/a", 10, false));
    let first = t.publish();
    assert_eq!(first.size, 10);

    t.apply(delta("/r/b", 20, false));
    let second = t.publish();
    assert_eq!(second.size, 30);
    assert_eq!(second.children.len(), 2);

    // First publish's Arc should still see its original size — Arc-shared
    // immutability means past snapshots aren't mutated.
    assert_eq!(first.size, 10);
    assert_eq!(first.children.len(), 1);
}

#[test]
fn link_delta_becomes_leaf_node_with_is_link_set() {
    let mut t = IncrementalTree::new("/r".to_string());
    t.apply(delta("/r", 0, true));
    t.apply(link_delta("/r/symlink", 12));
    let tree = t.publish();
    let link = tree.children.iter().find(|c| c.name == "symlink").unwrap();
    assert!(link.is_link);
    assert!(!link.is_dir);
    assert_eq!(link.size, 12);
    assert!(link.children.is_empty());
}

#[test]
fn unchanged_subtree_is_shared_between_publishes() {
    // After tick 1, /r/sub has one file. Tick 2 adds an unrelated file
    // at /r/other. /r/sub's Arc<Node> should be reused (same pointer).
    let mut t = IncrementalTree::new("/r".to_string());
    t.apply(delta("/r", 0, true));
    t.apply(delta("/r/sub", 0, true));
    t.apply(delta("/r/sub/a", 10, false));
    let tick1 = t.publish();
    let sub1 = tick1
        .children
        .iter()
        .find(|c| c.name == "sub")
        .cloned()
        .unwrap();

    t.apply(delta("/r/other", 5, false));
    let tick2 = t.publish();
    let sub2 = tick2
        .children
        .iter()
        .find(|c| c.name == "sub")
        .cloned()
        .unwrap();

    assert!(
        Arc::ptr_eq(&sub1, &sub2),
        "untouched subtree should share Arc across publishes"
    );
}
