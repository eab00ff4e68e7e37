use gitui_view::diff_engine::{get_syntax_segments, segments_from_ranges};
use gitui_view::diff_engine::{emphasis, merge_syntax_into_diff, spans_of_sections, syntax_pieces, DiffEngine};
use gitui_view::edits::{EditOp, TokenRegex};
use gitui_view::git::DiffLineType;
use gitui_view::theme::{Color, Style, Theme};
use syntect::highlighting::ThemeSet;
use syntect::parsing::SyntaxSet;

fn look(fg: Option<Color>, bg: Option<Color>) -> Style {
    Style { fg, bg, bold: false }
}

fn segments(parts: &[(Option<Color>, &str)]) -> Vec<(Option<Color>, String)> {
    parts.iter().map(|(c, t)| (*c, t.to_string())).collect()
}

#[test]
fn merge_cuts_the_range_out_of_the_segments() {
    let segs = segments(&[(Some(Color::Red), "ab"), (Some(Color::Blue), "cde")]);
    let spans = merge_syntax_into_diff(&segs, 1, 4, look(None, Some(Color::Green)), None);
    assert_eq!(
        spans,
        vec![
            ("b".to_string(), look(Some(Color::Red), Some(Color::Green))),
            ("cd".to_string(), look(Some(Color::Blue), Some(Color::Green))),
        ]
    );
}

#[test]
fn merge_prefers_the_sections_foreground_and_the_context_background() {
    let segs = segments(&[(Some(Color::Red), "abc")]);
    let spans = merge_syntax_into_diff(&segs, 0, 3, look(Some(Color::Yellow), None), Some(Color::Black));
    assert_eq!(spans, vec![("abc".to_string(), look(Some(Color::Yellow), Some(Color::Black)))]);
    let spans = merge_syntax_into_diff(&segs, 0, 3, look(None, None), None);
    assert_eq!(spans, vec![("abc".to_string(), look(Some(Color::Red), Some(Color::Reset)))]);
}

#[test]
fn merge_of_an_empty_range_is_one_empty_piece() {
    let segs = segments(&[(Some(Color::Red), "ab")]);
    let spans = merge_syntax_into_diff(&segs, 1, 1, look(None, None), None);
    assert_eq!(spans, vec![(String::new(), look(Some(Color::Reset), Some(Color::Reset)))]);
}

#[test]
fn merge_counts_characters_not_bytes() {
    let segs = segments(&[(Some(Color::Red), "é"), (Some(Color::Blue), "ü!")]);
    let spans = merge_syntax_into_diff(&segs, 1, 2, look(None, None), None);
    assert_eq!(spans, vec![("ü".to_string(), look(Some(Color::Blue), Some(Color::Reset)))]);
}

#[test]
fn sections_take_their_own_looks() {
    let segs = segments(&[(None, "foo bar")]);
    let sections = vec![(EditOp::NoOp, "foo "), (EditOp::Deletion, "bar")];
    let base = look(Some(Color::Red), None);
    let spans = spans_of_sections(&sections, &segs, base, emphasis(base), Some(Color::Reset)).unwrap();
    assert_eq!(
        spans,
        vec![
            ("foo ".to_string(), look(Some(Color::Red), Some(Color::Reset))),
            ("bar".to_string(), look(Some(Color::Reset), Some(Color::Red))),
        ]
    );
}

#[test]
fn sections_beyond_the_segments_cannot_be_cut() {
    let segs = segments(&[(None, "ab")]);
    let sections = vec![(EditOp::NoOp, "ab"), (EditOp::Insertion, "cd")];
    let base = look(None, None);
    assert!(spans_of_sections(&sections, &segs, base, emphasis(base), None).is_none());
}

#[test]
fn plain_segments_keep_the_line_look() {
    let base = look(Some(Color::Green), None);
    let plain = segments(&[(None, "x = 1")]);
    assert_eq!(syntax_pieces(&plain, "x = 1", base), vec![("x = 1".to_string(), base)]);
    let colored = segments(&[(Some(Color::Rgb(1, 2, 3)), "x"), (Some(Color::Rgb(4, 5, 6)), " = 1")]);
    assert_eq!(
        syntax_pieces(&colored, "x = 1", base),
        vec![
            ("x".to_string(), look(Some(Color::Rgb(1, 2, 3)), Some(Color::Reset))),
            (" = 1".to_string(), look(Some(Color::Rgb(4, 5, 6)), Some(Color::Reset))),
        ]
    );
}

#[test]
fn a_line_without_extension_is_one_piece() {
    let syntaxes = SyntaxSet::load_defaults_newlines();
    let themes = ThemeSet::load_defaults();
    let theme = Theme::dark();
    let spans = DiffEngine::highlight_line(
        "let x = 1;",
        DiffLineType::Add,
        "",
        &theme,
        &syntaxes,
        &themes.themes["base16-ocean.dark"],
    );
    assert_eq!(spans, vec![("let x = 1;".to_string(), look(Some(theme.diff_add_fg), None))]);
}

#[test]
fn a_rust_line_is_coloured_piece_by_piece() {
    let syntaxes = SyntaxSet::load_defaults_newlines();
    let themes = ThemeSet::load_defaults();
    let theme = Theme::dark();
    let line = "let x = \"hi\";";
    let spans = DiffEngine::highlight_line(
        line,
        DiffLineType::Context,
        "rs",
        &theme,
        &syntaxes,
        &themes.themes["base16-ocean.dark"],
    );
    assert!(spans.len() > 1);
    let text: String = spans.iter().map(|(t, _)| t.as_str()).collect();
    assert_eq!(text, line);
    assert!(spans.iter().all(|(_, s)| matches!(s.fg, Some(Color::Rgb(_, _, _))) && s.bg == Some(theme.diff_context_bg)));
}

#[test]
fn a_changed_pair_emphasises_the_changed_word() {
    let syntaxes = SyntaxSet::load_defaults_newlines();
    let themes = ThemeSet::load_defaults();
    let theme = Theme::dark();
    let words = TokenRegex::new(r"\w+").unwrap();
    let (minus, plus) = DiffEngine::highlight_line_pair(
        "foo bar",
        "foo baz",
        "",
        &theme,
        &words,
        &syntaxes,
        &themes.themes["base16-ocean.dark"],
    )
    .unwrap();
    let bg = Some(theme.diff_context_bg);
    assert_eq!(
        minus,
        vec![
            ("foo ".to_string(), look(Some(theme.diff_delete_fg), bg)),
            ("bar".to_string(), look(Some(Color::Reset), Some(theme.diff_delete_fg))),
        ]
    );
    assert_eq!(
        plus,
        vec![
            ("foo ".to_string(), look(Some(theme.diff_add_fg), bg)),
            ("baz".to_string(), look(Some(Color::Reset), Some(theme.diff_add_fg))),
        ]
    );
}

#[test]
fn ranges_of_the_lines_read_become_segments_in_order() {
    let results = vec![
        Some(vec![((1, 2, 3), "ab".to_string()), ((4, 5, 6), "c\n".to_string())]),
        None,
        Some(vec![((7, 8, 9), "d".to_string())]),
    ];
    assert_eq!(
        segments_from_ranges(&results, "abc\nxx\nd"),
        vec![
            (Some(Color::Rgb(1, 2, 3)), "ab".to_string()),
            (Some(Color::Rgb(4, 5, 6)), "c\n".to_string()),
            (Some(Color::Rgb(7, 8, 9)), "d".to_string()),
        ]
    );
    assert_eq!(segments_from_ranges(&vec![None, None], "a\nb"), vec![(None, "a\nb".to_string())]);
    let syntaxes = SyntaxSet::load_defaults_newlines();
    let themes = ThemeSet::load_defaults();
    let text = "let a = 1;\nlet b = 2;";
    let segs = get_syntax_segments(text, "rs", &syntaxes, &themes.themes["base16-ocean.dark"]);
    let joined: String = segs.iter().map(|(_, t)| t.as_str()).collect();
    assert_eq!(joined, text);
    assert!(segs.iter().all(|(c, _)| matches!(c, Some(Color::Rgb(_, _, _)))));
}
