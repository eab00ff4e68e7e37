use gitui_view::git::{CommitInfo, StashInfo, StatusEntry, StatusType};
use gitui_view::log_nav::{commit_info_lines, commit_line, count_title, log_file_line, LogDepth};
use gitui_view::nav::{DiffViewMode, Tab};
use gitui_view::stashes_tab::{stash_file_line, stash_info_lines, stash_line, StashDepth};
use gitui_view::status_tab::{status_style, StatusTab};
use gitui_view::theme::{Color, Style, Theme};
use gitui_view::ui::{shorten_path, status_bar_text, tab_titles, StatusFocus, UiState};

fn fg(c: Color) -> Style {
    Style { fg: Some(c), bg: None, bold: false }
}

fn entry(path: &str, status: StatusType, staged: bool) -> StatusEntry {
    StatusEntry { path: path.to_string(), status, staged }
}

fn texts(row: &[(String, Style)]) -> Vec<&str> {
    row.iter().map(|(t, _)| t.as_str()).collect()
}

#[test]
fn status_lines_have_a_section_per_side() {
    let theme = Theme::dark();
    let tab = StatusTab {
        staged: vec![entry("a.rs", StatusType::Added, true)],
        unstaged: vec![entry("b.rs", StatusType::Modified, false)],
        selected: 1,
        scroll: 0,
        focus_staged: false,
    };
    let lines = tab.lines(8, &theme);
    assert_eq!(lines.len(), 4);
    assert_eq!(texts(&lines[0]), vec![" Staged:"]);
    assert_eq!(texts(&lines[1]), vec!["   A a.rs"]);
    assert_eq!(texts(&lines[2]), vec![" Unstaged:"]);
    assert_eq!(texts(&lines[3]), vec![" > M b.rs    "]);
    assert_eq!(lines[1][0].1, fg(theme.file_entry_staged));
    assert_eq!(
        lines[3][0].1,
        Style { fg: Some(theme.selection_fg), bg: Some(theme.selection_bg), bold: false }
    );
}

#[test]
fn a_clean_tree_has_one_line() {
    let theme = Theme::dark();
    let tab = StatusTab::new();
    let lines = tab.lines(20, &theme);
    assert_eq!(lines, vec![vec![(" (clean)".to_string(), fg(theme.dim_text))]]);
}

#[test]
fn status_colours_follow_the_change() {
    let theme = Theme::dark();
    assert_eq!(status_style(&entry("x", StatusType::Untracked, false), false, &theme), fg(theme.file_entry_untracked));
    assert_eq!(status_style(&entry("x", StatusType::Modified, false), false, &theme), fg(theme.file_entry_modified));
    assert_eq!(status_style(&entry("x", StatusType::Deleted, false), false, &theme), fg(theme.file_entry));
}

#[test]
fn commit_rows_show_tags_and_branches() {
    let theme = Theme::dark();
    let commit = CommitInfo {
        id: "abcdef0123".to_string(),
        short_id: "abcdef0".to_string(),
        author: "Ann".to_string(),
        time: 0,
        message: "Fix it\n\nbody".to_string(),
        summary: "Fix it".to_string(),
    };
    let tags = vec!["v1".to_string()];
    let branches = vec![("main".to_string(), true), ("origin/main".to_string(), false)];
    let row = commit_line(&commit, "2024-01-02", &tags, &branches, false, &theme);
    assert_eq!(
        texts(&row),
        vec![" abcdef0 ", " 2024-01-02 ", " Ann ", "<v1>", "{main}", "[origin/main]", "  Fix it"]
    );
    assert_eq!(row[3].1, Style { fg: Some(Color::LightMagenta), bg: None, bold: true });
    assert_eq!(row[4].1, fg(Color::LightYellow));
    let selected = commit_line(&commit, "2024-01-02", &tags, &branches, true, &theme);
    let look = Style { fg: Some(theme.selection_fg), bg: Some(theme.selection_bg), bold: false };
    assert!(selected.iter().all(|(_, s)| *s == look));
}

#[test]
fn commit_details_have_labels() {
    let theme = Theme::dark();
    let commit = CommitInfo {
        id: "abcdef0123".to_string(),
        short_id: "abcdef0".to_string(),
        author: "Ann".to_string(),
        time: 0,
        message: "Fix it".to_string(),
        summary: "Fix it".to_string(),
    };
    let lines = commit_info_lines(&commit, "2024-01-02 03:04:05", &theme);
    assert_eq!(texts(&lines[0]), vec!["Author: ", "Ann"]);
    assert_eq!(texts(&lines[1]), vec!["Date:   ", "2024-01-02 03:04:05"]);
    assert_eq!(texts(&lines[2]), vec!["Sha:    ", "abcdef0123"]);
    assert_eq!(texts(&lines[3]), vec![""]);
    assert_eq!(lines[4], vec![("Fix it".to_string(), fg(theme.commit_msg))]);
}

#[test]
fn list_titles_count_from_one() {
    assert_eq!(count_title("Files", 3, 12), " Files 3/12 ");
    assert_eq!(count_title("Log", 0, 0), " Log ");
}

#[test]
fn log_file_rows_use_the_log_letters() {
    let theme = Theme::dark();
    assert_eq!(
        log_file_line("src/a.rs", &StatusType::Added, false, &theme),
        vec![("   + src/a.rs".to_string(), fg(Color::LightGreen))]
    );
    assert_eq!(texts(&log_file_line("b", &StatusType::Deleted, true, &theme)), vec![" > - b"]);
}

#[test]
fn stash_rows_cut_long_messages() {
    let theme = Theme::dark();
    let stash = StashInfo {
        index: 12,
        message: "x".repeat(60),
        commit_id: "0123abcd".to_string(),
        time: 0,
    };
    let row = stash_line(&stash, "01-02 03:04", true, &theme);
    let expected_msg = format!("{}… ", "x".repeat(50));
    assert_eq!(texts(&row), vec!["> stash@{12} ", expected_msg.as_str(), "01-02 03:04"]);
    assert_eq!(row[2].1, fg(theme.dim_text));
    let info = stash_info_lines(&stash, "2024-01-02 03:04:05", &theme);
    assert_eq!(texts(&info[0]), vec!["Index:  ", "stash@{12}"]);
    assert_eq!(texts(&info[2]), vec!["Hash:   ", "0123abcd"]);
    assert_eq!(
        stash_file_line("a.txt", false, &theme),
        vec![(
            "   a.txt".to_string(),
            Style { fg: Some(theme.file_entry), bg: Some(theme.light_bg), bold: false }
        )]
    );
}

#[test]
fn the_status_line_names_the_keys() {
    let mut ui = UiState::new();
    assert_eq!(
        status_bar_text(&ui),
        " q:quit | h:help | \u{2191}\u{2193}:navigate | PgUp/PgDn:page | \u{2190}\u{2192}:switch panel | Enter:open diff | 1-3:goto tab "
    );
    ui.status_focus = StatusFocus::Diff;
    ui.diff_fullscreen = true;
    assert_eq!(
        status_bar_text(&ui),
        " [side-by-side] [F] | q:quit | h:help | f:fullscreen | m:toggle mode(side-by-side) | \u{2191}\u{2193}:scroll "
    );
    ui.current_tab = Tab::Log;
    ui.diff_fullscreen = false;
    ui.diff_mode = DiffViewMode::Inline;
    assert_eq!(
        status_bar_text(&ui),
        " q:quit | h:help | d:show diff | \u{2191}\u{2193}:navigate | PgUp/PgDn:page | Tab:next | 1-3:goto tab "
    );
    ui.log_depth = LogDepth::Diff;
    assert_eq!(
        status_bar_text(&ui),
        " [inline] | q:quit | h:help | d:toggle diff | f:fullscreen | m:toggle mode(inline) | \u{2191}\u{2193}:scroll "
    );
    ui.current_tab = Tab::Stashes;
    ui.stash_depth = StashDepth::List;
    assert!(status_bar_text(&ui).contains("d:show diff"));
}

#[test]
fn long_paths_keep_their_end() {
    assert_eq!(shorten_path("/home/me/projects/repo", 10), "...ts/repo");
    assert_eq!(shorten_path("/tmp/r", 10), "/tmp/r");
    assert_eq!(shorten_path("/tmp/rust", 4), "...t");
}

#[test]
fn the_current_tab_title_is_active() {
    let theme = Theme::dark();
    let titles = tab_titles(Tab::Log, &theme);
    assert_eq!(texts(&titles), vec![" Status [1] ", " Log [2] ", " Stashes [3] "]);
    assert_eq!(titles[1].1, Style { fg: Some(theme.tab_active), bg: None, bold: true });
    assert_eq!(titles[0].1, fg(theme.tab_inactive));
}

#[test]
fn the_help_window_lists_the_keys() {
    let theme = Theme::dark();
    let lines = gitui_view::ui::help_lines(&theme);
    assert_eq!(lines.len(), 12);
    assert_eq!(texts(&lines[2]), vec!["  q          ", "Quit"]);
    assert_eq!(lines[2][0].1, Style { fg: Some(theme.help_key), bg: None, bold: true });
    assert_eq!(texts(&lines[11]), vec![" Press any key to close "]);
    assert_eq!(gitui_view::ui::help_area(120, 40), (35, 10, 50, 19));
    assert_eq!(gitui_view::ui::help_area(30, 10), (0, 0, 30, 10));
}
