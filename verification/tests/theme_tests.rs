use gitui_view::theme::{
    apply_field, format_color, parse_color, parse_ron_color_value, split_ron_fields, Color, Style,
    Theme, ThemeError,
};

#[test]
fn named_colors_parse() {
    assert_eq!(parse_color("Red"), Some(Color::Red));
    assert_eq!(parse_color("  LightBlue \t"), Some(Color::LightBlue));
    assert_eq!(parse_color("Reset"), Some(Color::Reset));
    assert_eq!(parse_color("Purple"), None);
    assert_eq!(parse_color("red"), None);
    assert_eq!(parse_color("Gray"), None);
}

#[test]
fn hex_colors_parse() {
    assert_eq!(parse_color("#ff8000"), Some(Color::Rgb(255, 128, 0)));
    assert_eq!(parse_color("#FF8000"), Some(Color::Rgb(255, 128, 0)));
    assert_eq!(parse_color(" #0a0B0c "), Some(Color::Rgb(10, 11, 12)));
    assert_eq!(parse_color("#+f+f+f"), Some(Color::Rgb(15, 15, 15)));
    assert_eq!(parse_color("#ggg000"), None);
    assert_eq!(parse_color("#fff"), None);
    assert_eq!(parse_color("#ff80001"), None);
    assert_eq!(parse_color("#é1234"), None);
}

#[test]
fn colors_format() {
    assert_eq!(format_color(Color::DarkGray), "DarkGray");
    assert_eq!(format_color(Color::Rgb(255, 128, 0)), "#ff8000");
    assert_eq!(format_color(Color::Rgb(0, 1, 2)), "#000102");
    assert_eq!(format_color(Color::Gray), "Reset");
    assert_eq!(format_color(Color::Indexed(7)), "Reset");
}

#[test]
fn formatted_colors_read_back() {
    let colors = [
        Color::Reset,
        Color::Black,
        Color::Red,
        Color::Green,
        Color::Yellow,
        Color::Blue,
        Color::Magenta,
        Color::Cyan,
        Color::White,
        Color::DarkGray,
        Color::LightRed,
        Color::LightGreen,
        Color::LightYellow,
        Color::LightBlue,
        Color::LightMagenta,
        Color::LightCyan,
        Color::Rgb(1, 2, 3),
        Color::Rgb(255, 255, 255),
    ];
    for c in colors {
        assert_eq!(parse_color(&format_color(c)), Some(c));
    }
}

#[test]
fn ron_values_may_be_quoted() {
    assert_eq!(parse_ron_color_value("\"Red\""), Some(Color::Red));
    assert_eq!(parse_ron_color_value("Red"), Some(Color::Red));
    assert_eq!(parse_ron_color_value(" \" #00ff00 \" "), Some(Color::Rgb(0, 255, 0)));
    assert_eq!(parse_ron_color_value("\"\""), None);
    assert_eq!(parse_ron_color_value("'Red'"), None);
}

#[test]
fn fields_split_at_top_level_commas() {
    assert_eq!(
        split_ron_fields("a: \"Red\", b: (1, 2), c"),
        vec!["a: \"Red\"".to_string(), " b: (1, 2)".to_string(), "c".to_string()]
    );
    assert_eq!(
        split_ron_fields("a,,b, "),
        vec!["a".to_string(), "".to_string(), "b".to_string()]
    );
    assert_eq!(split_ron_fields(""), Vec::<String>::new());
    assert_eq!(split_ron_fields("x: [1, {2, 3}], y"), vec!["x: [1, {2, 3}]".to_string(), "y".to_string()]);
}

#[test]
fn apply_field_sets_the_named_field() {
    let mut t = Theme::dark();
    apply_field(&mut t, "border", Color::Red);
    assert_eq!(t.border, Color::Red);
    let before = t.clone();
    apply_field(&mut t, "no_such_field", Color::Blue);
    assert_eq!(t, before);
}

#[test]
fn from_ron_applies_fields_over_the_dark_theme() {
    let t = Theme::from_ron(
        "(tab_active: \"Red\", \"border\": Blue, unknown: \"Green\", bad, title_fg: \"Nope\",)",
    )
    .unwrap();
    let mut expected = Theme::dark();
    expected.tab_active = Color::Red;
    expected.border = Color::Blue;
    assert_eq!(t, expected);
}

#[test]
fn from_ron_needs_parentheses() {
    assert_eq!(Theme::from_ron("tab_active: Red"), Err(ThemeError::InvalidFormat));
    assert_eq!(Theme::from_ron("(tab_active: Red"), Err(ThemeError::InvalidFormat));
    assert_eq!(Theme::from_ron(""), Err(ThemeError::InvalidFormat));
    assert_eq!(Theme::from_ron("  ( )  "), Ok(Theme::dark()));
}

#[test]
fn later_fields_win() {
    let t = Theme::from_ron("(border: Red, border: \"#010203\")").unwrap();
    assert_eq!(t.border, Color::Rgb(1, 2, 3));
}

#[test]
fn to_ron_writes_every_field() {
    let text = Theme::dark().to_ron();
    assert!(text.starts_with("(\n    tab_active: \"White\",\n    tab_inactive: \"DarkGray\",\n"));
    assert!(text.ends_with("    status_modified: \"Yellow\"\n)"));
    assert_eq!(text.lines().count(), 34);
}

#[test]
fn theme_text_round_trips() {
    for t in [Theme::dark(), Theme::light()] {
        assert_eq!(Theme::from_ron(&t.to_ron()), Ok(t.clone()));
    }
    let mut custom = Theme::light();
    custom.selection_bg = Color::Rgb(12, 34, 56);
    custom.help_desc = Color::LightYellow;
    assert_eq!(Theme::from_ron(&custom.to_ron()), Ok(custom));
}

#[test]
fn light_and_dark_differ_where_the_background_matters() {
    assert_eq!(Theme::dark().tab_active, Color::White);
    assert_eq!(Theme::light().tab_active, Color::Black);
    assert_eq!(Theme::light().help_key, Color::Blue);
}

#[test]
fn styles_follow_the_theme() {
    let t = Theme::dark();
    assert_eq!(t.tab_active_style(), Style { fg: Some(Color::White), bg: None, bold: true });
    assert_eq!(t.diff_add(false), Style { fg: Some(Color::Green), bg: None, bold: false });
    assert_eq!(t.diff_add(true), t.selected());
    assert_eq!(t.selected(), Style { fg: Some(Color::White), bg: Some(Color::Blue), bold: false });
    assert_eq!(t.diff_context(false), Style { fg: None, bg: Some(Color::Reset), bold: false });
    assert_eq!(t.mode_indicator(), Style { fg: Some(Color::Green), bg: None, bold: true });
    let bold = Style { fg: Some(Color::Red), bg: None, bold: true };
    assert_eq!(t.selected_on(bold), Style { fg: Some(Color::White), bg: Some(Color::Blue), bold: true });
}

#[test]
fn file_entry_styles() {
    let t = Theme::dark();
    assert_eq!(t.file_entry(false, "?", false).fg, Some(Color::DarkGray));
    assert_eq!(t.file_entry(false, "M", false).fg, Some(Color::Yellow));
    assert_eq!(t.file_entry(false, "D", false).fg, Some(Color::White));
    assert_eq!(t.file_entry(true, "?", false).fg, Some(Color::LightGreen));
    assert_eq!(t.file_entry(true, "?", true), t.selected());
}

#[test]
fn status_char_styles() {
    let t = Theme::dark();
    assert_eq!(t.status_char("A"), Style { fg: Some(Color::LightGreen), bg: None, bold: true });
    assert_eq!(t.status_char("D"), Style { fg: Some(Color::LightRed), bg: None, bold: true });
    assert_eq!(t.status_char("R"), Style { fg: Some(Color::Yellow), bg: None, bold: true });
}

#[test]
fn unreadable_colour_values_are_detected() {
    assert!(Theme::from_ron_fails("(tab_active: \"#1é234\")"));
    assert!(Theme::from_ron_fails("(tab_active: \")"));
    assert!(!Theme::from_ron_fails("(tab_active: \"#é1234\")"));
    assert!(!Theme::from_ron_fails("(tab_active: \"#ff0000\", border: Red)"));
    assert!(!Theme::from_ron_fails("not a theme"));
}
