use gitui_view::files_tab::FilesTab;
use gitui_view::git::{FileDiff, StashInfo, StatusEntry, StatusType};
use gitui_view::log_nav::{
    commit_scroll_top, commit_window, needs_reload, LogCursor, LogDepth, SLICE_SIZE,
};
use gitui_view::nav::{
    end_scroll, page_down_scroll, page_up_scroll, scroll_down_by, scroll_up_by, visible_scroll,
    DiffViewMode, Tab,
};
use gitui_view::stashes_tab::{truncate_str, StashDepth, StashesTab};
use gitui_view::status_tab::{status_char, StatusTab};

fn stash(index: usize, message: &str) -> StashInfo {
    StashInfo { index, message: message.to_string(), commit_id: format!("c{index}"), time: 0 }
}

fn file_diff(path: &str) -> FileDiff {
    FileDiff {
        old_path: path.to_string(),
        new_path: path.to_string(),
        status: StatusType::Modified,
        hunks: Vec::new(),
        binary: false,
        old_size: 0,
        new_size: 0,
        size_delta: 0,
    }
}

fn entry(path: &str, status: StatusType, staged: bool) -> StatusEntry {
    StatusEntry { path: path.to_string(), status, staged }
}

#[test]
fn visible_scroll_follows_the_selection() {
    assert_eq!(visible_scroll(2, 5, 3), 2);
    assert_eq!(visible_scroll(9, 5, 3), 7);
    assert_eq!(visible_scroll(6, 5, 3), 5);
    assert_eq!(visible_scroll(9, 5, 0), 5);
}

#[test]
fn tabs_cycle() {
    assert_eq!(Tab::Status.next(), Tab::Log);
    assert_eq!(Tab::Stashes.next(), Tab::Status);
    assert_eq!(Tab::Status.prev(), Tab::Stashes);
    assert_eq!(Tab::Log.next().prev(), Tab::Log);
    assert_eq!(Tab::Stashes.index(), 2);
}

#[test]
fn diff_mode_toggles() {
    assert_eq!(DiffViewMode::Inline.toggled(), DiffViewMode::SideBySide);
    assert_eq!(DiffViewMode::SideBySide.toggled().toggled(), DiffViewMode::SideBySide);
    assert_eq!(DiffViewMode::Inline.label(), "inline");
    assert_eq!(DiffViewMode::SideBySide.label(), "side-by-side");
}

#[test]
fn diff_scrolling_stops_at_the_last_page() {
    assert_eq!(scroll_down_by(0, 1, 10, 25), 1);
    assert_eq!(scroll_down_by(14, 3, 10, 25), 15);
    assert_eq!(scroll_up_by(2, 5), 0);
    assert_eq!(page_down_scroll(0, 10, 25), 10);
    assert_eq!(page_down_scroll(10, 10, 25), 15);
    assert_eq!(page_up_scroll(15, 10), 5);
    assert_eq!(end_scroll(10, 25), 15);
    assert_eq!(end_scroll(10, 5), 0);
}

#[test]
fn commit_window_is_centred_on_the_selection() {
    assert_eq!(commit_window(0, 0), (0, 0));
    assert_eq!(commit_window(10, 50), (0, 50));
    assert_eq!(commit_window(5000, 10000), (5000 - SLICE_SIZE / 2, SLICE_SIZE));
    assert_eq!(commit_window(9999, 10000), (10000 - SLICE_SIZE, SLICE_SIZE));
}

#[test]
fn window_reloads_near_its_ends() {
    assert!(!needs_reload(0, 0, 0, 0));
    assert!(needs_reload(10, 0, 0, 0));
    assert!(needs_reload(5000, 1000, 1200, 1050));
    assert!(!needs_reload(5000, 1000, 1200, 1500));
    assert!(needs_reload(5000, 1000, 1200, 2150));
}

#[test]
fn commit_list_scrolls_to_the_selection() {
    assert_eq!(commit_scroll_top(0, 10, 3, 0, 0), 0);
    assert_eq!(commit_scroll_top(5, 100, 12, 0, 0), 8);
    assert_eq!(commit_scroll_top(5, 100, 3, 0, 8), 3);
    assert_eq!(commit_scroll_top(5, 7, 6, 0, 0), 2);
}

#[test]
fn log_cursor_moves_in_the_focused_list() {
    let mut c = LogCursor {
        commit_count: 3,
        selected: 0,
        file_count: 4,
        file_selected: 0,
        file_scroll: 0,
        depth: LogDepth::Commits,
        commit_list_height: 2,
        file_list_height: 2,
    };
    assert!(c.move_down());
    assert!(c.move_down());
    assert!(c.move_down());
    assert_eq!(c.selected, 2);
    assert!(c.move_up());
    assert_eq!(c.selected, 1);
    c.depth = LogDepth::FilesDiff;
    assert!(!c.go_end());
    assert_eq!((c.file_selected, c.file_scroll), (3, 2));
    assert!(!c.go_home());
    assert_eq!((c.file_selected, c.file_scroll), (0, 0));
    assert_eq!(c.page(), 2);
    c.depth = LogDepth::Diff;
    let before = c;
    assert!(!c.move_down());
    assert_eq!(c, before);
}

#[test]
fn log_depth_enter_and_back() {
    assert_eq!(LogDepth::Commits.enter(true, false), (true, LogDepth::Details));
    assert_eq!(LogDepth::Commits.enter(false, true), (false, LogDepth::Commits));
    assert_eq!(LogDepth::Details.enter(true, false), (false, LogDepth::Details));
    assert_eq!(LogDepth::FilesDiff.enter(true, true), (true, LogDepth::Diff));
    assert_eq!(LogDepth::Diff.back(), LogDepth::FilesDiff);
    assert_eq!(LogDepth::Commits.back(), LogDepth::Commits);
}

#[test]
fn stash_tab_navigation() {
    let mut tab = StashesTab::new();
    assert!(!tab.enter());
    tab.refresh(Some(vec![stash(0, "wip"), stash(1, "older"), stash(2, "oldest")]));
    tab.stash_list_height = 2;
    tab.move_down();
    tab.move_down();
    assert_eq!(tab.selected, 2);
    assert_eq!(tab.scroll, 1);
    tab.move_down();
    assert_eq!(tab.selected, 2);
    assert_eq!(tab.current_stash_index(), Some(2));
    tab.go_home();
    assert_eq!((tab.selected, tab.scroll), (0, 0));
    assert!(tab.enter());
    assert_eq!(tab.depth, StashDepth::Details);
    assert!(!tab.enter());
    tab.load_files(&vec![file_diff("a.rs"), file_diff("b.rs")]);
    assert!(tab.enter());
    assert_eq!(tab.depth, StashDepth::FilesDiff);
    tab.move_down();
    assert_eq!(tab.current_file_path(), Some("b.rs".to_string()));
    tab.back();
    tab.back();
    assert_eq!(tab.depth, StashDepth::List);
}

#[test]
fn stash_tab_paging() {
    let mut tab = StashesTab::new();
    tab.refresh(Some((0..10).map(|i| stash(i, "s")).collect()));
    tab.stash_list_height = 4;
    tab.page_down();
    assert_eq!((tab.selected, tab.scroll), (4, 1));
    tab.go_end();
    assert_eq!((tab.selected, tab.scroll), (9, 6));
    tab.page_up();
    assert_eq!((tab.selected, tab.scroll), (5, 5));
    tab.refresh(None);
    assert_eq!(tab.stashes.len(), 10);
    assert_eq!(tab.depth, StashDepth::List);
}

#[test]
fn truncate_str_marks_the_cut() {
    assert_eq!(truncate_str("hello", 10), "hello");
    assert_eq!(truncate_str("hello world", 5), "hello…");
    assert_eq!(truncate_str("héllo", 2), "hé…");
}

#[test]
fn status_tab_lists_staged_then_unstaged() {
    let mut tab = StatusTab::new();
    assert_eq!(tab.current_file(), None);
    tab.refresh(Some((
        vec![entry("a.rs", StatusType::Added, true)],
        vec![entry("b.rs", StatusType::Modified, false), entry("c.rs", StatusType::Untracked, false)],
    )));
    assert_eq!(tab.total_items(), 3);
    assert_eq!(tab.current_file(), Some("a.rs".to_string()));
    assert!(tab.current_staged());
    tab.move_down();
    assert_eq!(tab.current_file(), Some("b.rs".to_string()));
    assert!(!tab.current_staged());
    tab.move_down();
    tab.move_down();
    assert_eq!(tab.selected, 2);
    tab.move_up();
    assert_eq!(tab.selected, 1);
}

#[test]
fn status_chars() {
    assert_eq!(status_char(&StatusType::Added), "A");
    assert_eq!(status_char(&StatusType::Untracked), "?");
    assert_eq!(status_char(&StatusType::TypeChange), "T");
    assert_eq!(status_char(&StatusType::Renamed), "R");
}

#[test]
fn files_tab_selection() {
    let mut tab = FilesTab::new();
    tab.refresh(Some(vec!["x".to_string(), "y".to_string()]));
    tab.move_down();
    tab.move_down();
    assert_eq!(tab.current_file(), Some("y".to_string()));
    tab.move_up();
    assert_eq!(tab.current_file(), Some("x".to_string()));
    tab.refresh(None);
    assert_eq!(tab.current_file(), None);
}
