use std::sync::Arc;
use std::time::Instant;
use treescape::app::{arrow_dir, pick_neighbor, Action, App, Dir, Key, ScaleMode, Snapshot, ViewMode};
use treescape::tree::Node;
use treescape::treemap::squarify;
use treescape::ui::color::Theme;
use treescape::ui::list::{scroll_list, sync_list};
use treescape::ui::tile::sync_tiles;
use treescape::Rect;

fn file(path: &str, size: u64) -> Arc<Node> {
    Arc::new(Node::new_file(path.to_string(), size))
}

/// /r: b.rs (20), docs/ (a.md 5, .secret 7), .env (1)
fn sample() -> Snapshot {
    let docs = Arc::new(Node::new_dir(
        "/r/docs".to_string(),
        vec![file("/r/docs/a.md", 5), file("/r/docs/.secret", 7)],
    ));
    let root = Node::new_dir(
        "/r".to_string(),
        vec![docs, file("/r/b.rs", 20), file("/r/.env", 1)],
    );
    Snapshot {
        tree: Arc::new(root),
        files_scanned: 4,
        bytes_scanned: 33,
        unreadable: 0,
        current_path: None,
        done: true,
        started_at: Instant::now(),
        finished_at: None,
    }
}

fn selected(app: &App) -> Option<&str> {
    app.selected_name.as_deref()
}

#[test]
fn q_exits_and_changes_nothing() {
    let snap = sample();
    let mut app = App::new(Theme::Dark, false);
    assert_eq!(app.handle_key(Key::Char('q'), &snap), Action::Exit);
    assert_eq!(selected(&app), None);
    assert_eq!(app.handle_key(Key::Esc, &snap), Action::Continue);
}

#[test]
fn tab_cycles_through_visible_children_and_wraps() {
    let snap = sample();
    let mut app = App::new(Theme::Dark, false);
    app.handle_key(Key::Tab, &snap);
    assert_eq!(selected(&app), Some("docs"));
    app.handle_key(Key::Tab, &snap);
    assert_eq!(selected(&app), Some("b.rs"));
    app.handle_key(Key::BackTab, &snap);
    assert_eq!(selected(&app), Some("docs"));
}

#[test]
fn zoom_in_then_out_returns_to_the_directory() {
    let snap = sample();
    let mut app = App::new(Theme::Dark, false);
    app.selected_name = Some("docs".to_string());
    app.list_offset = 7;
    app.handle_key(Key::Enter, &snap);
    assert_eq!(app.path_names, vec!["docs".to_string()]);
    // The hidden `.secret` is bigger but not listed.
    assert_eq!(selected(&app), Some("a.md"));
    assert_eq!(app.list_offset, 0);
    assert_eq!(app.current_path(&snap), "/r/docs");
    app.handle_key(Key::Backspace, &snap);
    assert!(app.path_names.is_empty());
    assert_eq!(selected(&app), Some("docs"));
    // At the root, Esc does nothing.
    app.handle_key(Key::Esc, &snap);
    assert!(app.path_names.is_empty());
    assert_eq!(selected(&app), Some("docs"));
}

#[test]
fn zoom_in_on_a_file_does_nothing() {
    let snap = sample();
    let mut app = App::new(Theme::Dark, false);
    app.selected_name = Some("b.rs".to_string());
    app.handle_key(Key::Enter, &snap);
    assert!(app.path_names.is_empty());
    assert_eq!(selected(&app), Some("b.rs"));
}

#[test]
fn toggling_hidden_snaps_an_invisible_selection() {
    let snap = sample();
    let mut app = App::new(Theme::Dark, true);
    app.selected_name = Some(".env".to_string());
    app.list_offset = 3;
    app.handle_key(Key::Char('H'), &snap);
    assert!(!app.show_hidden);
    assert_eq!(selected(&app), Some("b.rs"));
    assert_eq!(app.list_offset, 0);
    app.handle_key(Key::Char('H'), &snap);
    assert!(app.show_hidden);
    assert_eq!(selected(&app), Some("b.rs"));
}

#[test]
fn view_and_scale_keys() {
    let snap = sample();
    let mut app = App::new(Theme::Light, false);
    assert_eq!(app.scale_mode, ScaleMode::Log);
    app.handle_key(Key::Char('s'), &snap);
    assert_eq!(app.scale_mode, ScaleMode::Sqrt);
    app.handle_key(Key::Char('s'), &snap);
    assert_eq!(app.scale_mode, ScaleMode::Linear);
    app.handle_key(Key::Char('s'), &snap);
    assert_eq!(app.scale_mode, ScaleMode::Log);
    assert_eq!(ScaleMode::Linear.label(), "linear");
    assert_eq!(ScaleMode::Log.next(), ScaleMode::Sqrt);
    app.handle_key(Key::Char('v'), &snap);
    assert_eq!(app.view, ViewMode::List);
    app.handle_key(Key::Char('v'), &snap);
    assert_eq!(app.view, ViewMode::Tile);
}

#[test]
fn list_view_arrows_step_rows() {
    let snap = sample();
    let mut app = App::new(Theme::Dark, false);
    app.view = ViewMode::List;
    app.selected_name = Some("b.rs".to_string());
    app.handle_key(Key::Down, &snap);
    assert_eq!(selected(&app), Some("docs"));
    app.handle_key(Key::Char('j'), &snap);
    assert_eq!(selected(&app), Some("b.rs"));
    app.handle_key(Key::Up, &snap);
    assert_eq!(selected(&app), Some("docs"));
    app.handle_key(Key::Left, &snap);
    assert_eq!(selected(&app), Some("docs"));
}

#[test]
fn tile_view_arrows_follow_the_layout() {
    let snap = sample();
    let mut app = App::new(Theme::Dark, false);
    let visible = app.visible_children(&snap.tree);
    let rects = squarify(&[20, 12], Rect::new(0, 0, 32, 10));
    let sel = sync_tiles(&mut app, &visible, &rects);
    assert_eq!(sel, Some(0));
    assert_eq!(selected(&app), Some("b.rs"));
    assert_eq!(app.last_order, vec!["b.rs".to_string(), "docs".to_string()]);
    app.handle_key(Key::Right, &snap);
    assert_eq!(selected(&app), Some("docs"));
    // Without a recorded selection index nothing moves.
    app.last_selected_idx = None;
    app.handle_key(Key::Char('h'), &snap);
    assert_eq!(selected(&app), Some("docs"));
}

#[test]
fn hidden_bytes_and_visible_children() {
    let snap = sample();
    let hiding = App::new(Theme::Dark, false);
    let showing = App::new(Theme::Dark, true);
    assert_eq!(hiding.hidden_bytes(&snap.tree), 1);
    assert_eq!(showing.hidden_bytes(&snap.tree), 0);
    // Listed sizes plus hidden bytes give the directory's total.
    let listed: u64 = hiding
        .visible_children(&snap.tree)
        .iter()
        .map(|c| c.size)
        .sum();
    assert_eq!(listed + hiding.hidden_bytes(&snap.tree), snap.tree.size);
    let names: Vec<String> = hiding
        .visible_children(&snap.tree)
        .iter()
        .map(|c| c.name.clone())
        .collect();
    assert_eq!(names, vec!["b.rs".to_string(), "docs".to_string()]);
    assert_eq!(showing.visible_children(&snap.tree).len(), 3);
}

#[test]
fn resolve_stops_at_the_last_name_found() {
    let snap = sample();
    let deep = snap.resolve(&["docs".to_string(), "missing".to_string()]);
    assert_eq!(deep.path, "/r/docs");
    let none = snap.resolve(&["nope".to_string()]);
    assert_eq!(none.path, "/r");
    let file = snap.resolve(&["b.rs".to_string(), "x".to_string()]);
    assert_eq!(file.path, "/r/b.rs");
}

#[test]
fn selected_index_only_when_listed() {
    let snap = sample();
    let mut app = App::new(Theme::Dark, false);
    let visible = app.visible_children(&snap.tree);
    assert_eq!(app.selected_index(&visible), None);
    app.selected_name = Some("docs".to_string());
    assert_eq!(app.selected_index(&visible), Some(1));
    app.selected_name = Some(".env".to_string());
    assert_eq!(app.selected_index(&visible), None);
}

#[test]
fn list_sync_and_scroll() {
    let snap = sample();
    let mut app = App::new(Theme::Dark, false);
    app.last_layout = vec![Rect::new(0, 0, 1, 1)];
    let visible = app.visible_children(&snap.tree);
    sync_list(&mut app, &visible);
    assert!(app.last_layout.is_empty());
    assert_eq!(selected(&app), Some("b.rs"));
    assert_eq!(app.last_order.len(), 2);

    app.list_offset = 0;
    scroll_list(&mut app, 12, 10, 20);
    assert_eq!(app.list_offset, 3);
    scroll_list(&mut app, 2, 10, 20);
    assert_eq!(app.list_offset, 2);
    app.list_offset = 15;
    scroll_list(&mut app, 15, 10, 20);
    assert_eq!(app.list_offset, 10);
    scroll_list(&mut app, 4, 10, 5);
    assert_eq!(app.list_offset, 0);
}

#[test]
fn spatial_nav_skips_empty_cells_and_breaks_ties_upward() {
    // A wide cell on the left, two stacked on the right, an empty one.
    let layout = vec![
        Rect::new(0, 0, 10, 10),
        Rect::new(10, 5, 10, 5),
        Rect::new(10, 0, 10, 5),
        Rect::new(20, 0, 0, 10),
    ];
    // Both right cells overlap and touch: the upper one wins.
    assert_eq!(pick_neighbor(&layout, 0, Dir::Right), Some(2));
    assert_eq!(pick_neighbor(&layout, 1, Dir::Left), Some(0));
    assert_eq!(pick_neighbor(&layout, 1, Dir::Up), Some(2));
    assert_eq!(pick_neighbor(&layout, 2, Dir::Right), None);
}

#[test]
fn arrow_keys_and_vim_keys_give_directions() {
    assert_eq!(arrow_dir(Key::Left), Some(Dir::Left));
    assert_eq!(arrow_dir(Key::Char('l')), Some(Dir::Right));
    assert_eq!(arrow_dir(Key::Char('k')), Some(Dir::Up));
    assert_eq!(arrow_dir(Key::Down), Some(Dir::Down));
    assert_eq!(arrow_dir(Key::Tab), None);
    assert_eq!(arrow_dir(Key::Char('q')), None);
}

#[test]
fn scrolling_without_rows() {
    let mut app = App::new(Theme::Dark, false);
    app.list_offset = 2;
    scroll_list(&mut app, 5, 0, 10);
    assert_eq!(app.list_offset, 6);
    scroll_list(&mut app, 1, 0, 0);
    assert_eq!(app.list_offset, 0);
}
