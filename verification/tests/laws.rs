use std::sync::Arc;
use treescape::scan::{
    builder_tick, describe_entry, publish_interval_ms, tally, EntryDelta, EntryKind, FileType,
    IncrementalTree, ScanCounters, ScanShared,
};
use treescape::app::App;
use treescape::tree::Node;
use treescape::treemap::squarify_with_labels;
use treescape::Rect;

fn entry(path: &str, size: u64, kind: EntryKind) -> EntryDelta {
    EntryDelta {
        path: path.to_string(),
        size,
        kind,
    }
}

fn names(n: &Node) -> Vec<String> {
    n.children.iter().map(|c| c.name.clone()).collect()
}

#[test]
fn arrival_order_does_not_change_sibling_order() {
    let a = Node::new_dir(
        "/d".to_string(),
        vec![
            Arc::new(Node::new_file("/d/x".to_string(), 5)),
            Arc::new(Node::new_file("/d/y".to_string(), 9)),
            Arc::new(Node::new_file("/d/w".to_string(), 5)),
        ],
    );
    let b = Node::new_dir(
        "/d".to_string(),
        vec![
            Arc::new(Node::new_file("/d/w".to_string(), 5)),
            Arc::new(Node::new_file("/d/x".to_string(), 5)),
            Arc::new(Node::new_file("/d/y".to_string(), 9)),
        ],
    );
    assert_eq!(names(&a), vec!["y", "w", "x"]);
    assert_eq!(names(&a), names(&b));
}

#[test]
fn publish_reflects_every_entry_in_any_order() {
    let entries = vec![
        entry("/r", 0, EntryKind::Dir),
        entry("/r/s", 0, EntryKind::Dir),
        entry("/r/s/t", 0, EntryKind::Dir),
        entry("/r/s/t/f", 4, EntryKind::File),
        entry("/r/s/g", 6, EntryKind::File),
        entry("/r/h", 1, EntryKind::Link),
    ];
    let mut forward = IncrementalTree::new("/r".to_string());
    for e in entries.iter() {
        forward.apply(e.clone());
    }
    let t1 = forward.publish();
    let mut backward = IncrementalTree::new("/r".to_string());
    for e in entries.iter().rev() {
        backward.apply(e.clone());
    }
    let t2 = backward.publish();
    assert_eq!(t1.size, 11);
    assert_eq!(t2.size, 11);
    assert_eq!(names(&t1), vec!["s", "h"]);
    assert_eq!(names(&t1), names(&t2));
    assert_eq!(t1.children[0].size, 10);
    assert_eq!(names(&t1.children[0]), vec!["g", "t"]);
    assert_eq!(names(&t2.children[0]), vec!["g", "t"]);
}

#[test]
fn publishing_twice_without_entries_changes_nothing() {
    let mut t = IncrementalTree::new("/r".to_string());
    t.apply(entry("/r", 0, EntryKind::Dir));
    t.apply(entry("/r/a", 3, EntryKind::File));
    let first = t.publish();
    let second = t.publish();
    assert!(Arc::ptr_eq(&first, &second));
}

#[test]
fn empty_directories_are_not_shown_until_something_lands_in_them() {
    let mut t = IncrementalTree::new("/r".to_string());
    t.apply(entry("/r", 0, EntryKind::Dir));
    t.apply(entry("/r/empty", 0, EntryKind::Dir));
    let tree = t.publish();
    assert_eq!(tree.children.len(), 0);
    t.apply(entry("/r/empty/f", 2, EntryKind::File));
    let tree = t.publish();
    assert_eq!(names(&tree), vec!["empty"]);
    assert_eq!(tree.size, 2);
}

#[test]
fn builder_tick_applies_then_publishes() {
    let mut t = IncrementalTree::new("/r".to_string());
    let tree = builder_tick(
        &mut t,
        vec![
            entry("/r", 0, EntryKind::Dir),
            entry("/r/a", 3, EntryKind::File),
            entry("/r/b", 4, EntryKind::File),
        ],
    );
    assert_eq!(tree.size, 7);
    assert_eq!(names(&tree), vec!["b", "a"]);
    let again = builder_tick(&mut t, Vec::new());
    assert!(Arc::ptr_eq(&tree, &again));
}

#[test]
fn walker_entry_descriptions() {
    assert_eq!(
        describe_entry(FileType::Dir, None, None),
        Some((0, EntryKind::Dir, false))
    );
    assert_eq!(
        describe_entry(FileType::File, Some(42), None),
        Some((42, EntryKind::File, false))
    );
    assert_eq!(
        describe_entry(FileType::File, None, None),
        Some((0, EntryKind::File, true))
    );
    assert_eq!(
        describe_entry(FileType::Symlink, None, Some(9)),
        Some((9, EntryKind::Link, false))
    );
    assert_eq!(
        describe_entry(FileType::Symlink, None, None),
        Some((0, EntryKind::Link, false))
    );
    assert_eq!(describe_entry(FileType::Other, Some(1), Some(1)), None);
}

#[test]
fn publish_interval_grows_with_the_scan() {
    assert_eq!(publish_interval_ms(0), 250);
    assert_eq!(publish_interval_ms(499_999), 250);
    assert_eq!(publish_interval_ms(500_000), 500);
}

#[test]
fn shared_state_counts_and_publishes() {
    let counters = Arc::new(ScanCounters::default());
    let mut shared = ScanShared::empty("/r".to_string(), counters.clone());
    assert!(shared.tree.is_dir);
    assert_eq!(shared.tree.name, "r");
    assert!(!shared.done);
    counters.record(EntryKind::File, 10, false);
    counters.record(EntryKind::Link, 2, false);
    counters.record(EntryKind::Dir, 0, false);
    counters.record(EntryKind::File, 0, true);
    counters.record_unreadable();
    assert_eq!(shared.files_scanned(), 3);
    assert_eq!(shared.bytes_scanned(), 12);
    assert_eq!(shared.unreadable(), 2);

    let tree = Arc::new(Node::new_file("/r/x".to_string(), 1));
    shared.record_publish(tree.clone(), Some("/r/x".to_string()), false);
    assert_eq!(shared.current_path.as_deref(), Some("/r/x"));
    assert!(!shared.done);
    assert!(shared.finished_at.is_none());
    let snap = App::snapshot(&shared);
    assert_eq!(snap.files_scanned, 3);
    assert!(Arc::ptr_eq(&snap.tree, &tree));
    shared.record_publish(tree, Some("/r/y".to_string()), true);
    assert_eq!(shared.current_path, None);
    assert!(shared.done);
    assert!(shared.finished_at.is_some());
}

#[test]
fn tiling_holds_with_labels_and_mismatched_labels() {
    let area = Rect::new(3, 4, 60, 20);
    let weights = [5u64, 1, 9, 3];
    let with = squarify_with_labels(&weights, &[10, 4, 30, 8], area);
    let total: u64 = with.iter().map(|r| r.width as u64 * r.height as u64).sum();
    assert_eq!(total, 60 * 20);
    // Label widths of another length are ignored.
    let a = squarify_with_labels(&weights, &[1], area);
    let b = squarify_with_labels(&weights, &[], area);
    assert_eq!(a, b);
}

#[test]
fn children_reported_before_their_directories_still_land_in_place() {
    let mut t = IncrementalTree::new("/r".to_string());
    t.apply(entry("/r", 0, EntryKind::Dir));
    t.apply(entry("/r/a/b/f", 3, EntryKind::File));
    let early = t.publish();
    // Nothing links `/r/a` under the root yet.
    assert_eq!(early.size, 0);
    t.apply(entry("/r/a", 0, EntryKind::Dir));
    t.apply(entry("/r/a/b", 0, EntryKind::Dir));
    let tree = t.publish();
    assert_eq!(tree.size, 3);
    assert_eq!(names(&tree), vec!["a"]);
    assert_eq!(names(&tree.children[0]), vec!["b"]);
    assert_eq!(names(&tree.children[0].children[0]), vec!["f"]);
}

#[test]
fn tally_counts_files_and_links_not_directories() {
    assert_eq!(tally(EntryKind::File, 10, false), (1, 10, 0));
    assert_eq!(tally(EntryKind::Link, 3, false), (1, 3, 0));
    assert_eq!(tally(EntryKind::Dir, 4096, false), (0, 0, 0));
    assert_eq!(tally(EntryKind::File, 0, true), (1, 0, 1));
    assert_eq!(tally(EntryKind::Dir, 0, true), (0, 0, 1));
}

#[test]
fn record_adds_its_tally_to_the_counters() {
    let counters = ScanCounters::default();
    assert_eq!(counters.record(EntryKind::File, 7, false), (1, 7, 0));
    assert_eq!(counters.record(EntryKind::Dir, 9, true), (0, 0, 1));
    let shared = ScanShared::empty("/r".to_string(), Arc::new(counters));
    assert_eq!(shared.files_scanned(), 1);
    assert_eq!(shared.bytes_scanned(), 7);
    assert_eq!(shared.unreadable(), 1);
}

#[test]
fn node_count_is_one_plus_the_childrens() {
    let shared = Arc::new(Node::new_file("/r/d/x".to_string(), 1));
    let d = Arc::new(Node::new_dir("/r/d".to_string(), vec![shared.clone(), Arc::new(Node::new_file("/r/d/y".to_string(), 2))]));
    let root = Node::new_dir("/r".to_string(), vec![d.clone(), shared.clone()]);
    assert_eq!(d.total_count(), 3);
    assert_eq!(shared.total_count(), 1);
    assert_eq!(root.total_count(), 1 + d.total_count() + shared.total_count());
}

#[test]
fn builder_rounds_show_last_path_until_done() {
    let counters = Arc::new(ScanCounters::default());
    let mut shared = ScanShared::empty("/r".to_string(), counters);
    let mut b = IncrementalTree::new("/r".to_string());
    let t1 = builder_tick(
        &mut b,
        vec![entry("/r", 0, EntryKind::Dir), entry("/r/a", 4, EntryKind::File)],
    );
    shared.record_publish(t1, Some("/r/a".to_string()), false);
    assert!(!shared.done);
    assert_eq!(shared.current_path.as_deref(), Some("/r/a"));
    assert_eq!(shared.tree.size, 4);
    let t2 = builder_tick(&mut b, vec![entry("/r/b", 6, EntryKind::File)]);
    shared.record_publish(t2, Some("/r/b".to_string()), true);
    assert!(shared.done);
    assert_eq!(shared.current_path, None);
    assert!(shared.finished_at.is_some());
    // The same entries in one round give the same tree.
    let mut once = IncrementalTree::new("/r".to_string());
    let all = builder_tick(
        &mut once,
        vec![
            entry("/r", 0, EntryKind::Dir),
            entry("/r/a", 4, EntryKind::File),
            entry("/r/b", 6, EntryKind::File),
        ],
    );
    assert_eq!(shared.tree.size, 10);
    assert_eq!(shared.tree.size, all.size);
    assert_eq!(names(&shared.tree), names(&all));
    assert_eq!(names(&all), vec!["b".to_string(), "a".to_string()]);
}
