use gitui_view::git::{
    display_paths, find_diff, line_content, line_type_from_origin, split_status, staged_status,
    unstaged_status, DiffLineType, FileDiff, StatusType, INDEX_MODIFIED, INDEX_NEW, WT_DELETED,
    WT_MODIFIED, WT_NEW,
};

fn diff(old: &str, new: &str) -> FileDiff {
    FileDiff {
        old_path: old.to_string(),
        new_path: new.to_string(),
        status: StatusType::Modified,
        hunks: Vec::new(),
        binary: false,
        old_size: 0,
        new_size: 0,
        size_delta: 0,
    }
}

#[test]
fn status_bits_match_libgit2() {
    assert_eq!(INDEX_NEW, git2::Status::INDEX_NEW.bits());
    assert_eq!(INDEX_MODIFIED, git2::Status::INDEX_MODIFIED.bits());
    assert_eq!(WT_NEW, git2::Status::WT_NEW.bits());
    assert_eq!(WT_MODIFIED, git2::Status::WT_MODIFIED.bits());
    assert_eq!(WT_DELETED, git2::Status::WT_DELETED.bits());
}

#[test]
fn staged_status_prefers_new_files() {
    assert_eq!(staged_status(INDEX_NEW | INDEX_MODIFIED), Some(StatusType::Added));
    assert_eq!(staged_status(INDEX_MODIFIED), Some(StatusType::Modified));
    assert_eq!(staged_status(WT_MODIFIED), None);
}

#[test]
fn unstaged_status_reports_untracked_files() {
    assert_eq!(unstaged_status(WT_NEW), Some(StatusType::Untracked));
    assert_eq!(unstaged_status(WT_DELETED | WT_MODIFIED), Some(StatusType::Deleted));
    assert_eq!(unstaged_status(INDEX_NEW), None);
}

#[test]
fn split_status_puts_a_file_in_both_lists() {
    let files = vec![
        ("a.rs".to_string(), INDEX_MODIFIED | WT_MODIFIED),
        ("b.rs".to_string(), WT_NEW),
        ("c.rs".to_string(), INDEX_NEW),
        ("d.rs".to_string(), 0),
    ];
    let (staged, unstaged) = split_status(files);
    let s: Vec<(&str, StatusType, bool)> =
        staged.iter().map(|e| (e.path.as_str(), e.status, e.staged)).collect();
    let u: Vec<(&str, StatusType, bool)> =
        unstaged.iter().map(|e| (e.path.as_str(), e.status, e.staged)).collect();
    assert_eq!(
        s,
        vec![("a.rs", StatusType::Modified, true), ("c.rs", StatusType::Added, true)]
    );
    assert_eq!(
        u,
        vec![("a.rs", StatusType::Modified, false), ("b.rs", StatusType::Untracked, false)]
    );
}

#[test]
fn origins_give_line_types() {
    assert_eq!(line_type_from_origin('+'), DiffLineType::Add);
    assert_eq!(line_type_from_origin('-'), DiffLineType::Delete);
    assert_eq!(line_type_from_origin(' '), DiffLineType::Context);
    assert_eq!(line_type_from_origin('H'), DiffLineType::Header);
}

#[test]
fn line_content_drops_trailing_line_feeds() {
    assert_eq!(line_content("let x = 1;\n"), "let x = 1;");
    assert_eq!(line_content("a\n\n"), "a");
    assert_eq!(line_content("a\r\n"), "a\r");
    assert_eq!(line_content(""), "");
}

#[test]
fn display_path_falls_back_to_the_old_path() {
    let d = diff("gone.rs", "");
    assert_eq!(d.display_path(), "gone.rs");
    assert_eq!(diff("a", "b").display_path(), "b");
    assert_eq!(display_paths(&vec![diff("x", "y"), diff("z", "")]), vec!["y".to_string(), "z".to_string()]);
}

#[test]
fn find_diff_takes_the_first_match() {
    let diffs = vec![diff("a", "a"), diff("b", "b"), diff("old", "")];
    let found = find_diff(diffs, "old").unwrap();
    assert_eq!(found.old_path, "old");
    assert!(find_diff(vec![diff("a", "a")], "zzz").is_none());
}
