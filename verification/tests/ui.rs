use std::sync::Arc;
use treescape::app::ViewMode;
use treescape::tree::Node;
use treescape::ui::color::{classify, extension, fnv_hash, icon_for, kind_of_extension, ExtKind};
use treescape::ui::fmt::{label_text, pad_right, to_cell_rect, truncate};
use treescape::ui::footer::{footer_height, item_count, key_chips, kind_word, spinner_frame, stats_line};
use treescape::app::Snapshot;
use std::time::Instant;
use treescape::ui::list::list_name_width;
use treescape::ui::size::{align_right, hidden_note, selection_detail, size_column, size_line};
use treescape::ui::tile::{cell_text, label_width, CellText};
use treescape::Rect;

#[test]
fn classify_ignores_case_of_extension() {
    assert_eq!(classify("main.RS"), ExtKind::Code);
    assert_eq!(classify("Photo.JPEG"), ExtKind::Image);
    assert_eq!(classify("backup.tar.GZ"), ExtKind::Archive);
}

#[test]
fn classify_covers_each_kind() {
    assert_eq!(classify("a.rs"), ExtKind::Code);
    assert_eq!(classify("a.scss"), ExtKind::Markup);
    assert_eq!(classify("a.asciidoc"), ExtKind::Text);
    assert_eq!(classify("a.webp"), ExtKind::Image);
    assert_eq!(classify("a.mkv"), ExtKind::Video);
    assert_eq!(classify("a.flac"), ExtKind::Audio);
    assert_eq!(classify("a.7z"), ExtKind::Archive);
    assert_eq!(classify("a.pdf"), ExtKind::Pdf);
    assert_eq!(classify("a.unknown"), ExtKind::Other);
}

#[test]
fn classify_without_extension_is_other() {
    assert_eq!(classify("Makefile"), ExtKind::Other);
    assert_eq!(classify(".bashrc"), ExtKind::Other);
    assert_eq!(classify("trailing."), ExtKind::Other);
    assert_eq!(classify(".."), ExtKind::Other);
}

#[test]
fn extension_is_text_after_last_dot() {
    assert_eq!(extension("a.b.c"), Some("c".to_string()));
    assert_eq!(extension("dir/file.txt"), Some("txt".to_string()));
    assert_eq!(extension(".hidden"), None);
    assert_eq!(extension("..x"), Some("x".to_string()));
    assert_eq!(extension("end."), Some(String::new()));
    assert_eq!(extension("plain"), None);
}

#[test]
fn kind_of_extension_needs_lowercase() {
    assert_eq!(kind_of_extension("pdf"), ExtKind::Pdf);
    assert_eq!(kind_of_extension("PDF"), ExtKind::Other);
    assert_eq!(kind_of_extension(""), ExtKind::Other);
}

#[test]
fn icons_by_kind() {
    let dir = Node::new_dir("/r/d".to_string(), Vec::new());
    let link = Node::new_link("/r/l.rs".to_string(), 3);
    let pdf = Node::new_file("/r/doc.pdf".to_string(), 3);
    let other = Node::new_file("/r/blob".to_string(), 3);
    assert_eq!(icon_for(&dir), "\u{f07b}");
    assert_eq!(icon_for(&link), "\u{f0c1}");
    assert_eq!(icon_for(&pdf), "\u{f1c1}");
    assert_eq!(icon_for(&other), "\u{f15b}");
}

#[test]
fn fnv_hash_known_values() {
    assert_eq!(fnv_hash(""), 2166136261);
    assert_eq!(fnv_hash("a"), 0xe40c292c);
    assert_eq!(fnv_hash("foobar"), 0xbf9cf968);
}

#[test]
fn truncate_edges() {
    assert_eq!(truncate("hello", 0), "");
    assert_eq!(truncate("hello", 1), "\u{2026}");
    assert_eq!(truncate("hello", 3), "he\u{2026}");
    assert_eq!(truncate("hello", 5), "hello");
    assert_eq!(truncate("hello", 10), "hello");
    assert_eq!(truncate("h\u{e9}llo", 4), "h\u{e9}l\u{2026}");
}

#[test]
fn pad_right_edges() {
    assert_eq!(pad_right("ab", 4), "ab  ");
    assert_eq!(pad_right("abcdef", 3), "abcdef");
    assert_eq!(pad_right("", 2), "  ");
    assert_eq!(pad_right("\u{e9}", 3), "\u{e9}  ");
}

#[test]
fn label_text_of_file_and_link() {
    let file = Node::new_file("/r/notes.md".to_string(), 1);
    let link = Node::new_link("/r/ln".to_string(), 1);
    assert_eq!(label_text(&file), "\u{f15c} notes.md");
    assert_eq!(label_text(&link), "\u{f0c1} \u{2192} ln");
}

#[test]
fn label_width_counts_prefix_and_padding() {
    let file = Node::new_file("/r/abc".to_string(), 1);
    let link = Node::new_link("/r/abc".to_string(), 1);
    assert_eq!(label_width(&file), 3 + 2 + 2);
    assert_eq!(label_width(&link), 3 + 4 + 2);
}

#[test]
fn cell_rect_is_held_to_terminal_range() {
    let r = to_cell_rect(&Rect::new(70_000, 5, 65_535, 65_536));
    assert_eq!(r, Rect::new(65_535, 5, 65_535, 65_535));
}

#[test]
fn list_name_width_keeps_at_least_eight() {
    assert_eq!(list_name_width(100), 55);
    assert_eq!(list_name_width(54), 9);
    assert_eq!(list_name_width(53), 8);
    assert_eq!(list_name_width(10), 8);
    assert_eq!(list_name_width(0), 8);
}

#[test]
fn cell_text_by_size() {
    assert_eq!(cell_text(2, 5), None);
    assert_eq!(cell_text(10, 0), None);
    assert_eq!(
        cell_text(4, 1),
        Some(CellText {
            pad_x: 0,
            usable_w: 4,
            show_size: false
        })
    );
    assert_eq!(
        cell_text(5, 2),
        Some(CellText {
            pad_x: 1,
            usable_w: 3,
            show_size: false
        })
    );
    assert_eq!(
        cell_text(10, 3),
        Some(CellText {
            pad_x: 1,
            usable_w: 8,
            show_size: true
        })
    );
}

#[test]
fn footer_pieces() {
    assert_eq!(footer_height(ViewMode::Tile), 4);
    assert_eq!(footer_height(ViewMode::List), 2);
    assert_eq!(spinner_frame(0), 0);
    assert_eq!(spinner_frame(80), 1);
    assert_eq!(spinner_frame(799), 9);
    assert_eq!(spinner_frame(800), 0);
    let dir = Node::new_dir(
        "/r".to_string(),
        vec![
            Arc::new(Node::new_file("/r/a".to_string(), 1)),
            Arc::new(Node::new_file("/r/b".to_string(), 1)),
        ],
    );
    assert_eq!(kind_word(&dir), "dir ");
    assert_eq!(kind_word(&Node::new_link("/x".to_string(), 0)), "link");
    assert_eq!(kind_word(&Node::new_file("/x".to_string(), 0)), "file");
    assert_eq!(item_count(&dir), 2);
}

#[test]
fn key_chips_by_view() {
    let tile = key_chips(ViewMode::Tile);
    assert_eq!(
        tile,
        vec![
            ("q", "exit"),
            ("Enter", "zoom"),
            ("Esc", "back"),
            ("v", "view"),
            ("s", "scale")
        ]
    );
    let list = key_chips(ViewMode::List);
    assert_eq!(
        list,
        vec![
            ("q", "exit"),
            ("Enter", "zoom"),
            ("Esc", "back"),
            ("v", "view")
        ]
    );
}

#[test]
fn size_texts_use_binary_units() {
    let small = Node::new_file("/r/s".to_string(), 100);
    let kib = Node::new_file("/r/k".to_string(), 1536);
    assert_eq!(size_column(&small), "      100 B");
    assert_eq!(size_line(&kib, 20), "1.50 KiB");
    assert_eq!(size_line(&kib, 4), "1.5\u{2026}");
    assert_eq!(hidden_note(0), None);
    assert_eq!(hidden_note(2048), Some("  \u{b7}  2 KiB hidden".to_string()));
    let dir = Node::new_dir(
        "/r/d".to_string(),
        vec![Arc::new(Node::new_file("/r/d/x".to_string(), 1536))],
    );
    assert_eq!(
        selection_detail(&dir, "1"),
        "  \u{b7}  1.50 KiB \u{b7} 1 items"
    );
    assert_eq!(selection_detail(&small, "ignored"), "  \u{b7}  100 B");
    assert_eq!(align_right("ab", 4), "  ab");
    assert_eq!(align_right("abcdef", 4), "abcdef");
}

fn snapshot(done: bool, unreadable: u64, path: Option<&str>) -> Snapshot {
    Snapshot {
        tree: Arc::new(Node::new_dir("/r".to_string(), vec![])),
        files_scanned: 12,
        bytes_scanned: 2048,
        unreadable,
        current_path: path.map(|p| p.to_string()),
        done,
        started_at: Instant::now(),
        finished_at: None,
    }
}

#[test]
fn stats_line_shows_unreadable_only_when_some() {
    let quiet = stats_line(&snapshot(false, 0, Some("/r/a")));
    assert!(!quiet.done);
    assert_eq!((quiet.files, quiet.bytes), (12, 2048));
    assert_eq!(quiet.unreadable, None);
    assert_eq!(quiet.path.as_deref(), Some("/r/a"));
    let noisy = stats_line(&snapshot(false, 3, None));
    assert_eq!(noisy.unreadable, Some(3));
    assert_eq!(noisy.path, None);
}

#[test]
fn stats_line_drops_the_path_once_done() {
    let done = stats_line(&snapshot(true, 1, Some("/r/a")));
    assert!(done.done);
    assert_eq!(done.unreadable, Some(1));
    assert_eq!(done.path, None);
}
