use gitui_view::diff_rows::push_hunk_panes;
use gitui_view::git::{StatusEntry, StatusType};
use gitui_view::status_tab::StatusTab;
use gitui_view::diff_rows::{hunk_rows, Row};
use gitui_view::git::{DiffLine, DiffLineType};
use gitui_view::log_nav::LogDepth;
use gitui_view::nav::{DiffViewMode, Tab};
use gitui_view::stashes_tab::StashDepth;
use gitui_view::ui::{
    diff_scrolls, handle_key, is_any_diff_active, is_scroll_key, reload_after_log_enter,
    reload_after_move, reload_after_stash_enter, same_scroll_direction, Action, Key, Reload,
    StatusFocus, UiState,
};

fn line(t: DiffLineType) -> DiffLine {
    DiffLine { content: String::new(), line_type: t, old_lineno: None, new_lineno: None }
}

#[test]
fn q_quits() {
    let ui = UiState::new();
    assert_eq!(handle_key(ui, Key::Char('q'), false), (ui, Action::Quit));
}

#[test]
fn h_toggles_help_and_esc_closes_it() {
    let ui = UiState::new();
    let (shown, a) = handle_key(ui, Key::Char('h'), false);
    assert!(shown.show_help);
    assert_eq!(a, Action::Nothing);
    let (hidden, _) = handle_key(shown, Key::Esc, false);
    assert_eq!(hidden, ui);
    let (hidden, _) = handle_key(shown, Key::Char('x'), false);
    assert_eq!(hidden, ui);
}

#[test]
fn number_keys_switch_tabs() {
    let mut ui = UiState::new();
    ui.show_diff = true;
    ui.diff_fullscreen = true;
    let (s, a) = handle_key(ui, Key::Char('2'), false);
    assert_eq!(s.current_tab, Tab::Log);
    assert!(!s.show_diff && !s.diff_fullscreen);
    assert_eq!(a, Action::RefreshTab);
    let (s, _) = handle_key(s, Key::Char('3'), false);
    assert_eq!(s.current_tab, Tab::Stashes);
}

#[test]
fn tab_keys_cycle() {
    let ui = UiState::new();
    let (s, a) = handle_key(ui, Key::Tab, false);
    assert_eq!((s.current_tab, a), (Tab::Log, Action::RefreshTab));
    let (s, _) = handle_key(s, Key::BackTab, false);
    assert_eq!(s.current_tab, Tab::Status);
    let (s, _) = handle_key(s, Key::BackTab, false);
    assert_eq!(s.current_tab, Tab::Stashes);
}

#[test]
fn enter_opens_the_status_diff_only_with_a_file() {
    let ui = UiState::new();
    let (s, _) = handle_key(ui, Key::Enter, false);
    assert_eq!(s, ui);
    let (s, _) = handle_key(ui, Key::Enter, true);
    assert_eq!(s.status_focus, StatusFocus::Diff);
    assert!(s.diff_fullscreen);
    assert!(diff_scrolls(&s));
    let (back, _) = handle_key(s, Key::Esc, true);
    assert_eq!(back.status_focus, StatusFocus::Unstaged);
    assert!(!back.diff_fullscreen);
}

#[test]
fn d_in_the_log_goes_in_and_out_of_the_diff() {
    let mut ui = UiState::new();
    ui.current_tab = Tab::Log;
    assert_eq!(handle_key(ui, Key::Char('d'), false).1, Action::LogEnter);
    ui.log_depth = LogDepth::FilesDiff;
    assert_eq!(handle_key(ui, Key::Char('d'), false).1, Action::LogBack);
    assert!(is_any_diff_active(&ui));
    assert!(!diff_scrolls(&ui));
    ui.log_depth = LogDepth::Diff;
    assert!(diff_scrolls(&ui));
}

#[test]
fn esc_steps_back() {
    let mut ui = UiState::new();
    ui.current_tab = Tab::Stashes;
    ui.stash_depth = StashDepth::Details;
    assert_eq!(handle_key(ui, Key::Esc, false).1, Action::StashBack);
    ui.show_diff = true;
    assert_eq!(handle_key(ui, Key::Esc, false).1, Action::ToggleDiff);
    ui.stash_depth = StashDepth::List;
    ui.show_diff = false;
    assert_eq!(handle_key(ui, Key::Esc, false), (ui, Action::Nothing));
}

#[test]
fn arrows_and_modes() {
    let ui = UiState::new();
    assert_eq!(handle_key(ui, Key::Char('j'), false).1, Action::MoveDown);
    assert_eq!(handle_key(ui, Key::Up, false).1, Action::MoveUp);
    assert_eq!(handle_key(ui, Key::End, false).1, Action::GoEnd);
    let (s, _) = handle_key(ui, Key::Char('m'), false);
    assert_eq!(s.diff_mode, DiffViewMode::Inline);
    let (s, _) = handle_key(ui, Key::Char('f'), false);
    assert!(s.diff_fullscreen);
    let (s, _) = handle_key(ui, Key::Left, false);
    assert_eq!(s.status_focus, StatusFocus::Staged);
    let (s, _) = handle_key(s, Key::Right, false);
    assert_eq!(s.status_focus, StatusFocus::Unstaged);
    let (s, _) = handle_key(s, Key::Right, false);
    assert_eq!(s.status_focus, StatusFocus::Diff);
    assert!(s.diff_fullscreen);
}

#[test]
fn reloads_after_moves() {
    let mut ui = UiState::new();
    assert_eq!(reload_after_move(&ui, false), Reload::StatusDiff);
    assert_eq!(reload_after_move(&ui, true), Reload::Nothing);
    ui.current_tab = Tab::Log;
    ui.log_depth = LogDepth::Details;
    assert_eq!(reload_after_move(&ui, true), Reload::Files);
    ui.current_tab = Tab::Stashes;
    ui.stash_depth = StashDepth::FilesDiff;
    assert_eq!(reload_after_move(&ui, false), Reload::FileDiff);
    assert_eq!(reload_after_log_enter(true, LogDepth::Commits, LogDepth::Details), Reload::Files);
    assert_eq!(reload_after_log_enter(true, LogDepth::Details, LogDepth::FilesDiff), Reload::FileDiff);
    assert_eq!(reload_after_log_enter(false, LogDepth::FilesDiff, LogDepth::FilesDiff), Reload::Nothing);
    assert_eq!(reload_after_stash_enter(true, StashDepth::FilesDiff, StashDepth::Diff), Reload::Nothing);
}

#[test]
fn scroll_keys_coalesce_in_one_direction() {
    assert!(is_scroll_key(Key::Char('k')));
    assert!(!is_scroll_key(Key::PageUp));
    assert!(same_scroll_direction(Key::Up, Key::Char('k')));
    assert!(same_scroll_direction(Key::Char('j'), Key::Down));
    assert!(!same_scroll_direction(Key::Up, Key::Down));
    assert!(!same_scroll_direction(Key::Up, Key::Enter));
}

#[test]
fn hunk_rows_pair_deletions_with_additions() {
    let lines = vec![
        line(DiffLineType::Context),
        line(DiffLineType::Delete),
        line(DiffLineType::Delete),
        line(DiffLineType::Add),
        line(DiffLineType::Context),
        line(DiffLineType::Add),
    ];
    assert_eq!(
        hunk_rows(&lines),
        vec![Row::Line(0), Row::Pair(1, 3), Row::Deleted(2), Row::Line(4), Row::Added(5)]
    );
}

#[test]
fn hunk_rows_interleaved_run() {
    let lines = vec![
        line(DiffLineType::Add),
        line(DiffLineType::Delete),
        line(DiffLineType::Add),
        line(DiffLineType::Header),
    ];
    assert_eq!(hunk_rows(&lines), vec![Row::Pair(1, 0), Row::Added(2), Row::Line(3)]);
    assert_eq!(hunk_rows(&Vec::new()), Vec::<Row>::new());
}

#[test]
fn vim_keys_and_arrows_agree() {
    let mut ui = UiState::new();
    ui.current_tab = Tab::Log;
    assert_eq!(handle_key(ui, Key::Char('j'), true), handle_key(ui, Key::Down, true));
    assert_eq!(handle_key(ui, Key::Char('k'), true), handle_key(ui, Key::Up, true));
    assert_eq!(handle_key(ui, Key::Right, true), handle_key(ui, Key::Enter, true));
    assert_eq!(handle_key(ui, Key::Char('3'), true).0.current_tab, Tab::Stashes);
}

#[test]
fn hunk_panes_grow_alike() {
    let mut left: Vec<Vec<(String, u8)>> = vec![vec![("x".to_string(), 0)]];
    let mut right: Vec<Vec<(String, u8)>> = vec![vec![("y".to_string(), 0)]];
    let hl = vec![vec![("a".to_string(), 1)], vec![("b".to_string(), 1)]];
    let hr = vec![vec![("c".to_string(), 2)]];
    push_hunk_panes(&mut left, &mut right, "  @@ -1 +1 @@ ", 3, hl, hr, 9, 7);
    assert_eq!(left.len(), 6);
    assert_eq!(right.len(), 6);
    assert_eq!(left[2], vec![("@@ -1 +1 @@".to_string(), 7)]);
    assert_eq!(left[3], vec![("───".to_string(), 7)]);
    assert_eq!(right[1], vec![(String::new(), 9)]);
    assert_eq!(right[4], vec![("c".to_string(), 2)]);
    assert_eq!(right[5], vec![(String::new(), 9)]);
}

#[test]
fn status_down_then_up_returns() {
    let e = |p: &str| StatusEntry { path: p.to_string(), status: StatusType::Modified, staged: false };
    let mut t = StatusTab { staged: vec![e("a")], unstaged: vec![e("b"), e("c")], selected: 1, scroll: 0, focus_staged: false };
    t.move_down();
    assert_eq!(t.selected, 2);
    t.move_up();
    assert_eq!(t.selected, 1);
}
