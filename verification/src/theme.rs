//! Colour themes and their text format: a parenthesised list of
//! `name: "Colour"` fields, where a colour is a name or `#rrggbb`.

use crate::git::string_views;
use crate::text::{str_equal, trim_str, trimmed};
use vstd::prelude::*;
use vstd::utf8::{encode_scalar, encode_utf8, is_ascii_chars, is_ascii_chars_encode_utf8, is_char_boundary};

verus! {

/// A terminal colour: one of the sixteen named colours, the terminal's own
/// colour (`Reset`), an entry of the 256-colour palette, or a true colour.
#[derive(Clone, Copy, Debug, PartialEq, Eq, Structural)]
pub enum Color {
    Reset,
    Black,
    Red,
    Green,
    Yellow,
    Blue,
    Magenta,
    Cyan,
    Gray,
    DarkGray,
    LightRed,
    LightGreen,
    LightYellow,
    LightBlue,
    LightMagenta,
    LightCyan,
    White,
    Rgb(u8, u8, u8),
    Indexed(u8),
}

/// The colours that the theme format can write down: all but `Gray` and the
/// palette entries, which it writes as `Reset`.
pub open spec fn is_nameable(c: Color) -> bool {
    !(c is Gray) && !(c is Indexed)
}

/// The lower-case hexadecimal digit for `n`.
pub open spec fn hex_digit(n: int) -> char {
    if n == 0 {
        '0'
    } else if n == 1 {
        '1'
    } else if n == 2 {
        '2'
    } else if n == 3 {
        '3'
    } else if n == 4 {
        '4'
    } else if n == 5 {
        '5'
    } else if n == 6 {
        '6'
    } else if n == 7 {
        '7'
    } else if n == 8 {
        '8'
    } else if n == 9 {
        '9'
    } else if n == 10 {
        'a'
    } else if n == 11 {
        'b'
    } else if n == 12 {
        'c'
    } else if n == 13 {
        'd'
    } else if n == 14 {
        'e'
    } else {
        'f'
    }
}

/// The value of a hexadecimal digit of either case.
pub open spec fn hex_value(c: char) -> Option<u8> {
    if '0' <= c <= '9' {
        Some((c as u32 - '0' as u32) as u8)
    } else if 'a' <= c <= 'f' {
        Some((c as u32 - 'a' as u32 + 10) as u8)
    } else if 'A' <= c <= 'F' {
        Some((c as u32 - 'A' as u32 + 10) as u8)
    } else {
        None
    }
}

/// A byte written as two hexadecimal digits, as `u8::from_str_radix` with
/// radix 16 reads them: two digits, or a plus sign and one digit.
pub open spec fn hex_pair(a: char, b: char) -> Option<u8> {
    if a == '+' {
        hex_value(b)
    } else {
        match (hex_value(a), hex_value(b)) {
            (Some(h), Some(l)) => Some((h * 16 + l) as u8),
            _ => None,
        }
    }
}

/// The two lower-case hexadecimal digits of a byte.
pub open spec fn hex_byte(b: u8) -> Seq<char> {
    seq![hex_digit(b as int / 16), hex_digit(b as int % 16)]
}

/// How the theme format writes a colour.
pub open spec fn color_name(c: Color) -> Seq<char> {
    match c {
        Color::Reset => "Reset"@,
        Color::Black => "Black"@,
        Color::Red => "Red"@,
        Color::Green => "Green"@,
        Color::Yellow => "Yellow"@,
        Color::Blue => "Blue"@,
        Color::Magenta => "Magenta"@,
        Color::Cyan => "Cyan"@,
        Color::White => "White"@,
        Color::DarkGray => "DarkGray"@,
        Color::LightRed => "LightRed"@,
        Color::LightGreen => "LightGreen"@,
        Color::LightYellow => "LightYellow"@,
        Color::LightBlue => "LightBlue"@,
        Color::LightMagenta => "LightMagenta"@,
        Color::LightCyan => "LightCyan"@,
        Color::Rgb(r, g, b) => seq!['#'] + hex_byte(r) + hex_byte(g) + hex_byte(b),
        _ => "Reset"@,
    }
}

/// The colour a trimmed text names: a colour name, or `#` and three pairs of
/// hexadecimal digits. A text of seven bytes after `#` that holds a non-ASCII
/// character names no colour.
pub open spec fn color_from_text(t: Seq<char>) -> Option<Color> {
    if t == "Reset"@ {
        Some(Color::Reset)
    } else if t == "Black"@ {
        Some(Color::Black)
    } else if t == "Red"@ {
        Some(Color::Red)
    } else if t == "Green"@ {
        Some(Color::Green)
    } else if t == "Yellow"@ {
        Some(Color::Yellow)
    } else if t == "Blue"@ {
        Some(Color::Blue)
    } else if t == "Magenta"@ {
        Some(Color::Magenta)
    } else if t == "Cyan"@ {
        Some(Color::Cyan)
    } else if t == "White"@ {
        Some(Color::White)
    } else if t == "DarkGray"@ {
        Some(Color::DarkGray)
    } else if t == "LightRed"@ {
        Some(Color::LightRed)
    } else if t == "LightGreen"@ {
        Some(Color::LightGreen)
    } else if t == "LightYellow"@ {
        Some(Color::LightYellow)
    } else if t == "LightBlue"@ {
        Some(Color::LightBlue)
    } else if t == "LightMagenta"@ {
        Some(Color::LightMagenta)
    } else if t == "LightCyan"@ {
        Some(Color::LightCyan)
    } else if t.len() > 0 && t[0] == '#' && encode_utf8(t).len() == 7 && is_ascii_chars(t) {
        match (hex_pair(t[1], t[2]), hex_pair(t[3], t[4]), hex_pair(t[5], t[6])) {
            (Some(r), Some(g), Some(b)) => Some(Color::Rgb(r, g, b)),
            _ => None,
        }
    } else {
        None
    }
}

/// Reading a colour slices the text after `#` into byte pairs; the slicing
/// fails where a pair boundary falls inside a character. The second boundary
/// is reached only when the first pair was read.
pub open spec fn hex_slicing_fails(t: Seq<char>) -> bool {
    let bytes = encode_utf8(t);
    &&& t.len() > 0
    &&& t[0] == '#'
    &&& bytes.len() == 7
    &&& (!is_char_boundary(bytes, 3) || (hex_pair(t[1], t[2]) is Some && !is_char_boundary(bytes, 5)))
}

/// A byte of the palette as `u8::from_str_radix` reads a hexadecimal digit.
fn hex_value_of(c: char) -> (r: Option<u8>)
    ensures
        r == hex_value(c),
{
    if '0' <= c && c <= '9' {
        Some((c as u32 - '0' as u32) as u8)
    } else if 'a' <= c && c <= 'f' {
        Some((c as u32 - 'a' as u32 + 10) as u8)
    } else if 'A' <= c && c <= 'F' {
        Some((c as u32 - 'A' as u32 + 10) as u8)
    } else {
        None
    }
}

fn hex_pair_of(a: char, b: char) -> (r: Option<u8>)
    ensures
        r == hex_pair(a, b),
{
    if a == '+' {
        hex_value_of(b)
    } else {
        match (hex_value_of(a), hex_value_of(b)) {
            (Some(h), Some(l)) => Some(h * 16 + l),
            _ => None,
        }
    }
}

/// Reads a colour: a colour name or `#rrggbb`, with surrounding whitespace.
pub fn parse_color(s: &str) -> (r: Option<Color>)
    requires
        !hex_slicing_fails(trimmed(s@)),
    ensures
        r == color_from_text(trimmed(s@)),
{
    let t = trim_str(s);
    if str_equal(t, "Reset") {
        return Some(Color::Reset);
    }
    if str_equal(t, "Black") {
        return Some(Color::Black);
    }
    if str_equal(t, "Red") {
        return Some(Color::Red);
    }
    if str_equal(t, "Green") {
        return Some(Color::Green);
    }
    if str_equal(t, "Yellow") {
        return Some(Color::Yellow);
    }
    if str_equal(t, "Blue") {
        return Some(Color::Blue);
    }
    if str_equal(t, "Magenta") {
        return Some(Color::Magenta);
    }
    if str_equal(t, "Cyan") {
        return Some(Color::Cyan);
    }
    if str_equal(t, "White") {
        return Some(Color::White);
    }
    if str_equal(t, "DarkGray") {
        return Some(Color::DarkGray);
    }
    if str_equal(t, "LightRed") {
        return Some(Color::LightRed);
    }
    if str_equal(t, "LightGreen") {
        return Some(Color::LightGreen);
    }
    if str_equal(t, "LightYellow") {
        return Some(Color::LightYellow);
    }
    if str_equal(t, "LightBlue") {
        return Some(Color::LightBlue);
    }
    if str_equal(t, "LightMagenta") {
        return Some(Color::LightMagenta);
    }
    if str_equal(t, "LightCyan") {
        return Some(Color::LightCyan);
    }
    if t.unicode_len() > 0 && t.get_char(0) == '#' && t.len() == 7 {
        if !t.is_ascii() {
            return None;
        }
        proof {
            is_ascii_chars_encode_utf8(t@);
        }
        let r = hex_pair_of(t.get_char(1), t.get_char(2));
        let g = hex_pair_of(t.get_char(3), t.get_char(4));
        let b = hex_pair_of(t.get_char(5), t.get_char(6));
        return match (r, g, b) {
            (Some(r), Some(g), Some(b)) => Some(Color::Rgb(r, g, b)),
            _ => None,
        };
    }
    None
}

/// The digit `n` as a one-character text.
pub(crate) fn hex_digit_text(n: u8) -> (r: &'static str)
    requires
        n < 16,
    ensures
        r@ == seq![hex_digit(n as int)],
{
    let r = if n == 0 {
        "0"
    } else if n == 1 {
        "1"
    } else if n == 2 {
        "2"
    } else if n == 3 {
        "3"
    } else if n == 4 {
        "4"
    } else if n == 5 {
        "5"
    } else if n == 6 {
        "6"
    } else if n == 7 {
        "7"
    } else if n == 8 {
        "8"
    } else if n == 9 {
        "9"
    } else if n == 10 {
        "a"
    } else if n == 11 {
        "b"
    } else if n == 12 {
        "c"
    } else if n == 13 {
        "d"
    } else if n == 14 {
        "e"
    } else {
        "f"
    };
    proof {
        reveal_strlit("0");
        reveal_strlit("1");
        reveal_strlit("2");
        reveal_strlit("3");
        reveal_strlit("4");
        reveal_strlit("5");
        reveal_strlit("6");
        reveal_strlit("7");
        reveal_strlit("8");
        reveal_strlit("9");
        reveal_strlit("a");
        reveal_strlit("b");
        reveal_strlit("c");
        reveal_strlit("d");
        reveal_strlit("e");
        reveal_strlit("f");
    }
    r
}

/// Appends the two hexadecimal digits of `b`.
fn push_hex_byte(s: &mut String, b: u8)
    ensures
        final(s)@ == old(s)@ + hex_byte(b),
{
    s.append(hex_digit_text(b / 16));
    s.append(hex_digit_text(b % 16));
}

/// Writes a colour as the theme format stores it.
pub fn format_color(c: Color) -> (s: String)
    ensures
        s@ == color_name(c),
{
    match c {
        Color::Reset => String::from_str("Reset"),
        Color::Black => String::from_str("Black"),
        Color::Red => String::from_str("Red"),
        Color::Green => String::from_str("Green"),
        Color::Yellow => String::from_str("Yellow"),
        Color::Blue => String::from_str("Blue"),
        Color::Magenta => String::from_str("Magenta"),
        Color::Cyan => String::from_str("Cyan"),
        Color::White => String::from_str("White"),
        Color::DarkGray => String::from_str("DarkGray"),
        Color::LightRed => String::from_str("LightRed"),
        Color::LightGreen => String::from_str("LightGreen"),
        Color::LightYellow => String::from_str("LightYellow"),
        Color::LightBlue => String::from_str("LightBlue"),
        Color::LightMagenta => String::from_str("LightMagenta"),
        Color::LightCyan => String::from_str("LightCyan"),
        Color::Rgb(r, g, b) => {
            let mut s = String::from_str("#");
            proof {
                reveal_strlit("#");
            }
            push_hex_byte(&mut s, r);
            push_hex_byte(&mut s, g);
            push_hex_byte(&mut s, b);
            s
        },
        _ => String::from_str("Reset"),
    }
}

/// A text that neither starts nor ends with whitespace is its own trim.
pub proof fn lemma_trimmed_unchanged(s: Seq<char>)
    requires
        s.len() > 0,
        !crate::text::is_white_space(s[0]),
        !crate::text::is_white_space(s.last()),
    ensures
        trimmed(s) == s,
{
}

proof fn lemma_hex_digit_value(n: int)
    requires
        0 <= n < 16,
    ensures
        hex_value(hex_digit(n)) == Some(n as u8),
        hex_digit(n) != '+',
        '0' <= hex_digit(n) <= 'f',
{
}

proof fn lemma_hex_byte_value(b: u8)
    ensures
        hex_pair(hex_byte(b)[0], hex_byte(b)[1]) == Some(b),
        is_ascii_chars(hex_byte(b)),
        hex_byte(b).len() == 2,
{
    lemma_hex_digit_value(b as int / 16);
    lemma_hex_digit_value(b as int % 16);
    assert(hex_value(hex_byte(b)[0]).unwrap() * 16 + hex_value(hex_byte(b)[1]).unwrap() == b);
}

/// Every colour that the theme format can write down reads back as itself,
/// and reading it cannot fail.
pub proof fn lemma_color_round_trip(c: Color)
    requires
        is_nameable(c),
    ensures
        !hex_slicing_fails(trimmed(color_name(c))),
        color_from_text(trimmed(color_name(c))) == Some(c),
{
    reveal_strlit("Reset");
    reveal_strlit("Black");
    reveal_strlit("Red");
    reveal_strlit("Green");
    reveal_strlit("Yellow");
    reveal_strlit("Blue");
    reveal_strlit("Magenta");
    reveal_strlit("Cyan");
    reveal_strlit("White");
    reveal_strlit("DarkGray");
    reveal_strlit("LightRed");
    reveal_strlit("LightGreen");
    reveal_strlit("LightYellow");
    reveal_strlit("LightBlue");
    reveal_strlit("LightMagenta");
    reveal_strlit("LightCyan");
    let name = color_name(c);
    match c {
        Color::Rgb(r, g, b) => {
            lemma_hex_byte_value(r);
            lemma_hex_byte_value(g);
            lemma_hex_byte_value(b);
            assert(name.len() == 7);
            assert(name[1] == hex_byte(r)[0] && name[2] == hex_byte(r)[1]);
            assert(name[3] == hex_byte(g)[0] && name[4] == hex_byte(g)[1]);
            assert(name[5] == hex_byte(b)[0] && name[6] == hex_byte(b)[1]);
            assert(is_ascii_chars(name));
            is_ascii_chars_encode_utf8(name);
            let bytes = encode_utf8(name);
            vstd::utf8::encode_utf8_valid_utf8(name);
            vstd::utf8::is_char_boundary_iff_not_is_continuation_byte(bytes, 3);
            vstd::utf8::is_char_boundary_iff_not_is_continuation_byte(bytes, 5);
            assert(bytes[3] == name[3] as u8 && bytes[5] == name[5] as u8);
            assert(bytes[3] < 0x80 && bytes[5] < 0x80);
            lemma_trimmed_unchanged(name);
        },
        _ => {
            lemma_trimmed_unchanged(name);
        },
    }
}

/// A colour theme: one colour for each element of the interface.
#[derive(Clone, Copy, Debug, PartialEq, Eq, Structural)]
pub struct Theme {
    pub tab_active: Color,
    pub tab_inactive: Color,
    pub tab_bar_bg: Color,
    pub diff_add_fg: Color,
    pub diff_add_bg: Color,
    pub diff_delete_fg: Color,
    pub diff_delete_bg: Color,
    pub diff_context_bg: Color,
    pub diff_header_fg: Color,
    pub selection_bg: Color,
    pub selection_fg: Color,
    pub border: Color,
    pub border_focused: Color,
    pub title_fg: Color,
    pub dim_text: Color,
    pub normal_bg: Color,
    pub light_bg: Color,
    pub file_entry: Color,
    pub file_entry_staged: Color,
    pub file_entry_modified: Color,
    pub file_entry_untracked: Color,
    pub commit_hash: Color,
    pub commit_msg: Color,
    pub commit_author: Color,
    pub commit_date: Color,
    pub stash_msg: Color,
    pub help_key: Color,
    pub help_desc: Color,
    pub mode_indicator_bg: Color,
    pub status_added: Color,
    pub status_deleted: Color,
    pub status_modified: Color,
}

/// The theme for terminals with a dark background.
pub open spec fn dark_theme() -> Theme {
    Theme {
        tab_active: Color::White,
        tab_inactive: Color::DarkGray,
        tab_bar_bg: Color::Reset,
        diff_add_fg: Color::Green,
        diff_add_bg: Color::Reset,
        diff_delete_fg: Color::Red,
        diff_delete_bg: Color::Reset,
        diff_context_bg: Color::Reset,
        diff_header_fg: Color::Blue,
        selection_bg: Color::Blue,
        selection_fg: Color::White,
        border: Color::DarkGray,
        border_focused: Color::Reset,
        title_fg: Color::White,
        dim_text: Color::DarkGray,
        normal_bg: Color::Reset,
        light_bg: Color::Reset,
        file_entry: Color::White,
        file_entry_staged: Color::LightGreen,
        file_entry_modified: Color::Yellow,
        file_entry_untracked: Color::DarkGray,
        commit_hash: Color::Magenta,
        commit_msg: Color::White,
        commit_author: Color::Green,
        commit_date: Color::LightCyan,
        stash_msg: Color::LightMagenta,
        help_key: Color::White,
        help_desc: Color::DarkGray,
        mode_indicator_bg: Color::Reset,
        status_added: Color::LightGreen,
        status_deleted: Color::LightRed,
        status_modified: Color::Yellow,
    }
}

/// The theme for terminals with a light background.
pub open spec fn light_theme() -> Theme {
    Theme {
        tab_active: Color::Black,
        tab_inactive: Color::DarkGray,
        tab_bar_bg: Color::Reset,
        diff_add_fg: Color::Green,
        diff_add_bg: Color::Reset,
        diff_delete_fg: Color::Red,
        diff_delete_bg: Color::Reset,
        diff_context_bg: Color::Reset,
        diff_header_fg: Color::Blue,
        selection_bg: Color::Blue,
        selection_fg: Color::White,
        border: Color::DarkGray,
        border_focused: Color::Reset,
        title_fg: Color::Black,
        dim_text: Color::DarkGray,
        normal_bg: Color::Reset,
        light_bg: Color::Reset,
        file_entry: Color::Black,
        file_entry_staged: Color::Green,
        file_entry_modified: Color::Yellow,
        file_entry_untracked: Color::DarkGray,
        commit_hash: Color::Magenta,
        commit_msg: Color::Black,
        commit_author: Color::Green,
        commit_date: Color::LightCyan,
        stash_msg: Color::LightMagenta,
        help_key: Color::Blue,
        help_desc: Color::DarkGray,
        mode_indicator_bg: Color::Reset,
        status_added: Color::Green,
        status_deleted: Color::Red,
        status_modified: Color::Yellow,
    }
}

/// The name under which the theme file stores the field at `i`.
pub open spec fn field_name(i: int) -> Seq<char> {
    if i == 0 {
        "tab_active"@
    } else if i == 1 {
        "tab_inactive"@
    } else if i == 2 {
        "tab_bar_bg"@
    } else if i == 3 {
        "diff_add_fg"@
    } else if i == 4 {
        "diff_add_bg"@
    } else if i == 5 {
        "diff_delete_fg"@
    } else if i == 6 {
        "diff_delete_bg"@
    } else if i == 7 {
        "diff_context_bg"@
    } else if i == 8 {
        "diff_header_fg"@
    } else if i == 9 {
        "selection_bg"@
    } else if i == 10 {
        "selection_fg"@
    } else if i == 11 {
        "border"@
    } else if i == 12 {
        "border_focused"@
    } else if i == 13 {
        "title_fg"@
    } else if i == 14 {
        "dim_text"@
    } else if i == 15 {
        "normal_bg"@
    } else if i == 16 {
        "light_bg"@
    } else if i == 17 {
        "file_entry"@
    } else if i == 18 {
        "file_entry_staged"@
    } else if i == 19 {
        "file_entry_modified"@
    } else if i == 20 {
        "file_entry_untracked"@
    } else if i == 21 {
        "commit_hash"@
    } else if i == 22 {
        "commit_msg"@
    } else if i == 23 {
        "commit_author"@
    } else if i == 24 {
        "commit_date"@
    } else if i == 25 {
        "stash_msg"@
    } else if i == 26 {
        "help_key"@
    } else if i == 27 {
        "help_desc"@
    } else if i == 28 {
        "mode_indicator_bg"@
    } else if i == 29 {
        "status_added"@
    } else if i == 30 {
        "status_deleted"@
    } else {
        "status_modified"@
    }
}

/// The colour of the field at `i`.
pub open spec fn color_at(t: Theme, i: int) -> Color {
    if i == 0 {
        t.tab_active
    } else if i == 1 {
        t.tab_inactive
    } else if i == 2 {
        t.tab_bar_bg
    } else if i == 3 {
        t.diff_add_fg
    } else if i == 4 {
        t.diff_add_bg
    } else if i == 5 {
        t.diff_delete_fg
    } else if i == 6 {
        t.diff_delete_bg
    } else if i == 7 {
        t.diff_context_bg
    } else if i == 8 {
        t.diff_header_fg
    } else if i == 9 {
        t.selection_bg
    } else if i == 10 {
        t.selection_fg
    } else if i == 11 {
        t.border
    } else if i == 12 {
        t.border_focused
    } else if i == 13 {
        t.title_fg
    } else if i == 14 {
        t.dim_text
    } else if i == 15 {
        t.normal_bg
    } else if i == 16 {
        t.light_bg
    } else if i == 17 {
        t.file_entry
    } else if i == 18 {
        t.file_entry_staged
    } else if i == 19 {
        t.file_entry_modified
    } else if i == 20 {
        t.file_entry_untracked
    } else if i == 21 {
        t.commit_hash
    } else if i == 22 {
        t.commit_msg
    } else if i == 23 {
        t.commit_author
    } else if i == 24 {
        t.commit_date
    } else if i == 25 {
        t.stash_msg
    } else if i == 26 {
        t.help_key
    } else if i == 27 {
        t.help_desc
    } else if i == 28 {
        t.mode_indicator_bg
    } else if i == 29 {
        t.status_added
    } else if i == 30 {
        t.status_deleted
    } else {
        t.status_modified
    }
}

/// `t` with the field at `i` set to `c`.
pub open spec fn with_color(t: Theme, i: int, c: Color) -> Theme {
    if i == 0 {
        Theme { tab_active: c, ..t }
    } else if i == 1 {
        Theme { tab_inactive: c, ..t }
    } else if i == 2 {
        Theme { tab_bar_bg: c, ..t }
    } else if i == 3 {
        Theme { diff_add_fg: c, ..t }
    } else if i == 4 {
        Theme { diff_add_bg: c, ..t }
    } else if i == 5 {
        Theme { diff_delete_fg: c, ..t }
    } else if i == 6 {
        Theme { diff_delete_bg: c, ..t }
    } else if i == 7 {
        Theme { diff_context_bg: c, ..t }
    } else if i == 8 {
        Theme { diff_header_fg: c, ..t }
    } else if i == 9 {
        Theme { selection_bg: c, ..t }
    } else if i == 10 {
        Theme { selection_fg: c, ..t }
    } else if i == 11 {
        Theme { border: c, ..t }
    } else if i == 12 {
        Theme { border_focused: c, ..t }
    } else if i == 13 {
        Theme { title_fg: c, ..t }
    } else if i == 14 {
        Theme { dim_text: c, ..t }
    } else if i == 15 {
        Theme { normal_bg: c, ..t }
    } else if i == 16 {
        Theme { light_bg: c, ..t }
    } else if i == 17 {
        Theme { file_entry: c, ..t }
    } else if i == 18 {
        Theme { file_entry_staged: c, ..t }
    } else if i == 19 {
        Theme { file_entry_modified: c, ..t }
    } else if i == 20 {
        Theme { file_entry_untracked: c, ..t }
    } else if i == 21 {
        Theme { commit_hash: c, ..t }
    } else if i == 22 {
        Theme { commit_msg: c, ..t }
    } else if i == 23 {
        Theme { commit_author: c, ..t }
    } else if i == 24 {
        Theme { commit_date: c, ..t }
    } else if i == 25 {
        Theme { stash_msg: c, ..t }
    } else if i == 26 {
        Theme { help_key: c, ..t }
    } else if i == 27 {
        Theme { help_desc: c, ..t }
    } else if i == 28 {
        Theme { mode_indicator_bg: c, ..t }
    } else if i == 29 {
        Theme { status_added: c, ..t }
    } else if i == 30 {
        Theme { status_deleted: c, ..t }
    } else {
        Theme { status_modified: c, ..t }
    }
}

/// The position of the field named `key`, if a field has that name.
pub open spec fn field_index(key: Seq<char>) -> Option<int> {
    if key == "tab_active"@ {
        Some(0)
    } else if key == "tab_inactive"@ {
        Some(1)
    } else if key == "tab_bar_bg"@ {
        Some(2)
    } else if key == "diff_add_fg"@ {
        Some(3)
    } else if key == "diff_add_bg"@ {
        Some(4)
    } else if key == "diff_delete_fg"@ {
        Some(5)
    } else if key == "diff_delete_bg"@ {
        Some(6)
    } else if key == "diff_context_bg"@ {
        Some(7)
    } else if key == "diff_header_fg"@ {
        Some(8)
    } else if key == "selection_bg"@ {
        Some(9)
    } else if key == "selection_fg"@ {
        Some(10)
    } else if key == "border"@ {
        Some(11)
    } else if key == "border_focused"@ {
        Some(12)
    } else if key == "title_fg"@ {
        Some(13)
    } else if key == "dim_text"@ {
        Some(14)
    } else if key == "normal_bg"@ {
        Some(15)
    } else if key == "light_bg"@ {
        Some(16)
    } else if key == "file_entry"@ {
        Some(17)
    } else if key == "file_entry_staged"@ {
        Some(18)
    } else if key == "file_entry_modified"@ {
        Some(19)
    } else if key == "file_entry_untracked"@ {
        Some(20)
    } else if key == "commit_hash"@ {
        Some(21)
    } else if key == "commit_msg"@ {
        Some(22)
    } else if key == "commit_author"@ {
        Some(23)
    } else if key == "commit_date"@ {
        Some(24)
    } else if key == "stash_msg"@ {
        Some(25)
    } else if key == "help_key"@ {
        Some(26)
    } else if key == "help_desc"@ {
        Some(27)
    } else if key == "mode_indicator_bg"@ {
        Some(28)
    } else if key == "status_added"@ {
        Some(29)
    } else if key == "status_deleted"@ {
        Some(30)
    } else if key == "status_modified"@ {
        Some(31)
    } else {
        None
    }
}

impl Theme {
    /// The theme for terminals with a dark background.
    pub fn dark() -> (t: Theme)
        ensures
            t == dark_theme(),
    {
        Theme {
            tab_active: Color::White,
            tab_inactive: Color::DarkGray,
            tab_bar_bg: Color::Reset,
            diff_add_fg: Color::Green,
            diff_add_bg: Color::Reset,
            diff_delete_fg: Color::Red,
            diff_delete_bg: Color::Reset,
            diff_context_bg: Color::Reset,
            diff_header_fg: Color::Blue,
            selection_bg: Color::Blue,
            selection_fg: Color::White,
            border: Color::DarkGray,
            border_focused: Color::Reset,
            title_fg: Color::White,
            dim_text: Color::DarkGray,
            normal_bg: Color::Reset,
            light_bg: Color::Reset,
            file_entry: Color::White,
            file_entry_staged: Color::LightGreen,
            file_entry_modified: Color::Yellow,
            file_entry_untracked: Color::DarkGray,
            commit_hash: Color::Magenta,
            commit_msg: Color::White,
            commit_author: Color::Green,
            commit_date: Color::LightCyan,
            stash_msg: Color::LightMagenta,
            help_key: Color::White,
            help_desc: Color::DarkGray,
            mode_indicator_bg: Color::Reset,
            status_added: Color::LightGreen,
            status_deleted: Color::LightRed,
            status_modified: Color::Yellow,
        }
    }

    /// The theme for terminals with a light background.
    pub fn light() -> (t: Theme)
        ensures
            t == light_theme(),
    {
        Theme {
            tab_active: Color::Black,
            tab_inactive: Color::DarkGray,
            tab_bar_bg: Color::Reset,
            diff_add_fg: Color::Green,
            diff_add_bg: Color::Reset,
            diff_delete_fg: Color::Red,
            diff_delete_bg: Color::Reset,
            diff_context_bg: Color::Reset,
            diff_header_fg: Color::Blue,
            selection_bg: Color::Blue,
            selection_fg: Color::White,
            border: Color::DarkGray,
            border_focused: Color::Reset,
            title_fg: Color::Black,
            dim_text: Color::DarkGray,
            normal_bg: Color::Reset,
            light_bg: Color::Reset,
            file_entry: Color::Black,
            file_entry_staged: Color::Green,
            file_entry_modified: Color::Yellow,
            file_entry_untracked: Color::DarkGray,
            commit_hash: Color::Magenta,
            commit_msg: Color::Black,
            commit_author: Color::Green,
            commit_date: Color::LightCyan,
            stash_msg: Color::LightMagenta,
            help_key: Color::Blue,
            help_desc: Color::DarkGray,
            mode_indicator_bg: Color::Reset,
            status_added: Color::Green,
            status_deleted: Color::Red,
            status_modified: Color::Yellow,
        }
    }
}

/// The theme with the field named `key` set to `color`; a key that names no
/// field leaves the theme as it was.
pub open spec fn spec_apply_field(t: Theme, key: Seq<char>, color: Color) -> Theme {
    match field_index(key) {
        Some(i) => with_color(t, i, color),
        None => t,
    }
}

/// Sets the field named `key` to `color`; other keys are ignored.
pub fn apply_field(theme: &mut Theme, key: &str, color: Color)
    ensures
        *final(theme) == spec_apply_field(*old(theme), key@, color),
{
    if str_equal(key, "tab_active") {
        theme.tab_active = color;
    } else if str_equal(key, "tab_inactive") {
        theme.tab_inactive = color;
    } else if str_equal(key, "tab_bar_bg") {
        theme.tab_bar_bg = color;
    } else if str_equal(key, "diff_add_fg") {
        theme.diff_add_fg = color;
    } else if str_equal(key, "diff_add_bg") {
        theme.diff_add_bg = color;
    } else if str_equal(key, "diff_delete_fg") {
        theme.diff_delete_fg = color;
    } else if str_equal(key, "diff_delete_bg") {
        theme.diff_delete_bg = color;
    } else if str_equal(key, "diff_context_bg") {
        theme.diff_context_bg = color;
    } else if str_equal(key, "diff_header_fg") {
        theme.diff_header_fg = color;
    } else if str_equal(key, "selection_bg") {
        theme.selection_bg = color;
    } else if str_equal(key, "selection_fg") {
        theme.selection_fg = color;
    } else if str_equal(key, "border") {
        theme.border = color;
    } else if str_equal(key, "border_focused") {
        theme.border_focused = color;
    } else if str_equal(key, "title_fg") {
        theme.title_fg = color;
    } else if str_equal(key, "dim_text") {
        theme.dim_text = color;
    } else if str_equal(key, "normal_bg") {
        theme.normal_bg = color;
    } else if str_equal(key, "light_bg") {
        theme.light_bg = color;
    } else if str_equal(key, "file_entry") {
        theme.file_entry = color;
    } else if str_equal(key, "file_entry_staged") {
        theme.file_entry_staged = color;
    } else if str_equal(key, "file_entry_modified") {
        theme.file_entry_modified = color;
    } else if str_equal(key, "file_entry_untracked") {
        theme.file_entry_untracked = color;
    } else if str_equal(key, "commit_hash") {
        theme.commit_hash = color;
    } else if str_equal(key, "commit_msg") {
        theme.commit_msg = color;
    } else if str_equal(key, "commit_author") {
        theme.commit_author = color;
    } else if str_equal(key, "commit_date") {
        theme.commit_date = color;
    } else if str_equal(key, "stash_msg") {
        theme.stash_msg = color;
    } else if str_equal(key, "help_key") {
        theme.help_key = color;
    } else if str_equal(key, "help_desc") {
        theme.help_desc = color;
    } else if str_equal(key, "mode_indicator_bg") {
        theme.mode_indicator_bg = color;
    } else if str_equal(key, "status_added") {
        theme.status_added = color;
    } else if str_equal(key, "status_deleted") {
        theme.status_deleted = color;
    } else if str_equal(key, "status_modified") {
        theme.status_modified = color;
    }}

/// The colour a field value names: the text inside double quotes, or the
/// bare text.
pub open spec fn ron_color_value(s: Seq<char>) -> Option<Color> {
    let t = trimmed(s);
    if t.len() > 0 && t[0] == '"' && t.last() == '"' {
        color_from_text(trimmed(t.subrange(1, t.len() - 1)))
    } else {
        color_from_text(trimmed(t))
    }
}

/// Reading a field value fails on a lone double quote, and where reading
/// the colour inside fails.
pub open spec fn ron_color_value_fails(s: Seq<char>) -> bool {
    let t = trimmed(s);
    if t.len() > 0 && t[0] == '"' && t.last() == '"' {
        t.len() == 1 || hex_slicing_fails(trimmed(t.subrange(1, t.len() - 1)))
    } else {
        hex_slicing_fails(trimmed(t))
    }
}

/// Reads the colour of a field value, quoted or not.
pub fn parse_ron_color_value(s: &str) -> (r: Option<Color>)
    requires
        !ron_color_value_fails(s@),
    ensures
        r == ron_color_value(s@),
{
    let t = trim_str(s);
    let n = t.unicode_len();
    if n > 0 && t.get_char(0) == '"' && t.get_char(n - 1) == '"' {
        return parse_color(t.substring_char(1, n - 1));
    }
    parse_color(t)
}

pub open spec fn opens_group(c: char) -> bool {
    c == '(' || c == '{' || c == '['
}

pub open spec fn closes_group(c: char) -> bool {
    c == ')' || c == '}' || c == ']'
}

/// Scanning `s` from the left: the fields cut so far, the bracket depth, and
/// where the current field starts. A comma outside all brackets ends a field.
pub open spec fn split_scan(s: Seq<char>) -> (Seq<Seq<char>>, int, int)
    decreases s.len(),
{
    if s.len() == 0 {
        (Seq::empty(), 0, 0)
    } else {
        let prev = split_scan(s.drop_last());
        let i = s.len() - 1;
        let c = s[i];
        if opens_group(c) {
            (prev.0, prev.1 + 1, prev.2)
        } else if closes_group(c) {
            (prev.0, prev.1 - 1, prev.2)
        } else if c == ',' && prev.1 == 0 {
            (prev.0.push(s.subrange(prev.2, i)), prev.1, i + 1)
        } else {
            prev
        }
    }
}

/// The fields of a parenthesised body: the texts between top-level commas,
/// the last one trimmed and dropped when it is empty.
pub open spec fn ron_fields(s: Seq<char>) -> Seq<Seq<char>> {
    let scan = split_scan(s);
    let rest = trimmed(s.subrange(scan.2, s.len() as int));
    if rest.len() > 0 {
        scan.0.push(rest)
    } else {
        scan.0
    }
}

pub proof fn lemma_split_scan_bounds(s: Seq<char>)
    ensures
        0 <= split_scan(s).2 <= s.len(),
        -s.len() <= split_scan(s).1 <= s.len(),
    decreases s.len(),
{
    if s.len() > 0 {
        lemma_split_scan_bounds(s.drop_last());
    }
}

/// Cuts the body of a theme file into its fields at the commas that stand
/// outside all brackets.
pub fn split_ron_fields(input: &str) -> (fields: Vec<String>)
    ensures
        string_views(fields@) == ron_fields(input@),
{
    let n = input.unicode_len();
    let mut fields: Vec<String> = Vec::new();
    let mut opened: usize = 0;
    let mut closed: usize = 0;
    let mut start: usize = 0;
    let mut i: usize = 0;
    for c in it: input.chars()
        invariant
            n == input@.len(),
            it.seq() == input@,
            i == it.index(),
            i <= n,
            opened + closed <= i,
            start <= i,
            string_views(fields@) == split_scan(input@.take(i as int)).0,
            opened - closed == split_scan(input@.take(i as int)).1,
            start == split_scan(input@.take(i as int)).2,
    {
        let ghost before = input@.take(i as int);
        assert(input@.take(i + 1).drop_last() == before);
        if c == '(' || c == '{' || c == '[' {
            opened = opened + 1;
        } else if c == ')' || c == '}' || c == ']' {
            closed = closed + 1;
        } else if c == ',' && opened == closed {
            let piece = String::from_str(input.substring_char(start, i));
            let ghost old_fields = fields@;
            fields.push(piece);
            proof {
                assert(string_views(fields@) == string_views(old_fields).push(piece@));
                assert(input@.subrange(start as int, i as int) == input@.take(i + 1).subrange(
                    start as int,
                    i as int,
                ));
            }
            start = i + 1;
        }
        i = i + 1;
    }
    assert(input@.take(n as int) == input@);
    let rest = trim_str(input.substring_char(start, n));
    if rest.unicode_len() > 0 {
        let ghost old_fields = fields@;
        fields.push(String::from_str(rest));
        proof {
            assert(string_views(fields@) == string_views(old_fields).push(rest@));
        }
    }
    fields
}

/// `p` is the position of the first occurrence of `c` in `s`.
pub open spec fn is_first_index(s: Seq<char>, c: char, p: int) -> bool {
    &&& 0 <= p < s.len()
    &&& s[p] == c
    &&& forall|q: int| 0 <= q < p ==> s[q] != c
}

/// The position of the first occurrence of `c` in `s`, if there is one.
pub open spec fn first_index_of(s: Seq<char>, c: char) -> Option<int> {
    if exists|p: int| is_first_index(s, c, p) {
        Some(choose|p: int| is_first_index(s, c, p))
    } else {
        None
    }
}

pub proof fn lemma_first_index_unique(s: Seq<char>, c: char, p: int)
    requires
        is_first_index(s, c, p),
    ensures
        first_index_of(s, c) == Some(p),
{
    let q = choose|q: int| is_first_index(s, c, q);
    assert(is_first_index(s, c, q));
    if q < p {
        assert(s[q] != c);
    } else if p < q {
        assert(s[p] != c);
    }
}

/// The position of the first `c` in `s`, counted in characters.
fn find_char(s: &str, c: char) -> (r: Option<usize>)
    ensures
        r is Some ==> first_index_of(s@, c) == Some(r.unwrap() as int),
        r is None ==> first_index_of(s@, c) is None,
{
    let n = s.unicode_len();
    let mut found: Option<usize> = None;
    let mut i: usize = 0;
    for d in it: s.chars()
        invariant
            n == s@.len(),
            it.seq() == s@,
            i == it.index(),
            i <= n,
            found is Some ==> is_first_index(s@, c, found.unwrap() as int),
            found is None ==> forall|q: int| 0 <= q < i ==> s@[q] != c,
    {
        if found.is_none() && d == c {
            found = Some(i);
        }
        i = i + 1;
    }
    match found {
        Some(p) => {
            proof {
                lemma_first_index_unique(s@, c, p as int);
            }
            Some(p)
        },
        None => {
            assert(!exists|p: int| is_first_index(s@, c, p));
            None
        },
    }
}

/// `s` without its leading double quotes.
pub open spec fn trim_quotes_start(s: Seq<char>) -> Seq<char>
    decreases s.len(),
{
    if s.len() > 0 && s[0] == '"' {
        trim_quotes_start(s.drop_first())
    } else {
        s
    }
}

/// `s` without its trailing double quotes.
pub open spec fn trim_quotes_end(s: Seq<char>) -> Seq<char>
    decreases s.len(),
{
    if s.len() > 0 && s.last() == '"' {
        trim_quotes_end(s.drop_last())
    } else {
        s
    }
}

/// `s` without leading and trailing double quotes, as `str::trim_matches`
/// with a double quote gives it.
pub open spec fn trim_quotes(s: Seq<char>) -> Seq<char> {
    trim_quotes_end(trim_quotes_start(s))
}

proof fn lemma_trim_quotes_start(s: Seq<char>, a: int)
    requires
        0 <= a <= s.len(),
        forall|q: int| 0 <= q < a ==> s[q] == '"',
        a == s.len() || s[a] != '"',
    ensures
        trim_quotes_start(s) == s.skip(a),
    decreases a,
{
    if a > 0 {
        lemma_trim_quotes_start(s.drop_first(), a - 1);
        assert(s.drop_first().skip(a - 1) == s.skip(a));
    } else {
        assert(s.skip(0) == s);
    }
}

proof fn lemma_trim_quotes_end(s: Seq<char>, b: int)
    requires
        0 <= b <= s.len(),
        forall|q: int| b <= q < s.len() ==> s[q] == '"',
        b == 0 || s[b - 1] != '"',
    ensures
        trim_quotes_end(s) == s.take(b),
    decreases s.len() - b,
{
    if b < s.len() {
        lemma_trim_quotes_end(s.drop_last(), b);
        assert(s.drop_last().take(b) == s.take(b));
    } else {
        assert(s.take(b) == s);
    }
}

/// `s` without leading and trailing double quotes.
fn trim_quote_marks(s: &str) -> (r: &str)
    ensures
        r@ == trim_quotes(s@),
{
    let n = s.unicode_len();
    let mut a: usize = 0;
    while a < n && s.get_char(a) == '"'
        invariant
            n == s@.len(),
            a <= n,
            forall|q: int| 0 <= q < a ==> s@[q] == '"',
        decreases n - a,
    {
        a = a + 1;
    }
    let mut b: usize = n;
    while b > a && s.get_char(b - 1) == '"'
        invariant
            n == s@.len(),
            a <= b <= n,
            forall|q: int| b <= q < n ==> s@[q] == '"',
        decreases b,
    {
        b = b - 1;
    }
    proof {
        lemma_trim_quotes_start(s@, a as int);
        let rest = s@.skip(a as int);
        lemma_trim_quotes_end(rest, (b - a) as int);
        assert(rest.take(b - a) == s@.subrange(a as int, b as int));
    }
    s.substring_char(a, b)
}

/// Why a theme text could not be read.
#[derive(Clone, Copy, Debug, PartialEq, Eq, Structural)]
pub enum ThemeError {
    /// The text, trimmed, is not enclosed in parentheses.
    InvalidFormat,
}

/// What one field does to a theme: a field `key: value` whose value names a
/// colour sets the field named by the key, stripped of whitespace and double
/// quotes; any other field changes nothing.
pub open spec fn field_effect(t: Theme, field: Seq<char>) -> Theme {
    let f = trimmed(field);
    match first_index_of(f, ':') {
        Some(p) => match ron_color_value(trimmed(f.skip(p + 1))) {
            Some(c) => spec_apply_field(t, trim_quotes(trimmed(f.take(p))), c),
            None => t,
        },
        None => t,
    }
}

/// Reading the value of a field fails.
pub open spec fn field_value_fails(field: Seq<char>) -> bool {
    let f = trimmed(field);
    match first_index_of(f, ':') {
        Some(p) => ron_color_value_fails(trimmed(f.skip(p + 1))),
        None => false,
    }
}

/// The fields applied in order.
pub open spec fn apply_fields(t: Theme, fields: Seq<Seq<char>>) -> Theme
    decreases fields.len(),
{
    if fields.len() == 0 {
        t
    } else {
        field_effect(apply_fields(t, fields.drop_last()), fields.last())
    }
}

/// The body of a theme text: what stands between the parentheses that
/// enclose the trimmed text, trimmed in turn.
pub open spec fn ron_body(input: Seq<char>) -> Option<Seq<char>> {
    let t = trimmed(input);
    if t.len() > 0 && t[0] == '(' && t.last() == ')' {
        Some(trimmed(t.subrange(1, t.len() - 1)))
    } else {
        None
    }
}

/// The theme a text describes: the dark theme with each field of the text
/// applied in order.
pub open spec fn spec_from_ron(input: Seq<char>) -> Result<Theme, ThemeError> {
    match ron_body(input) {
        Some(body) => Ok(apply_fields(dark_theme(), ron_fields(body))),
        None => Err(ThemeError::InvalidFormat),
    }
}

/// Reading the text fails on the value of one of its fields.
pub open spec fn ron_value_fails(input: Seq<char>) -> bool {
    match ron_body(input) {
        Some(body) => exists|k: int|
            0 <= k < ron_fields(body).len() && #[trigger] field_value_fails(ron_fields(body)[k]),
        None => false,
    }
}

/// Each character takes one to four bytes.
proof fn lemma_encode_len_bounds(s: Seq<char>)
    ensures
        s.len() <= encode_utf8(s).len() <= 4 * s.len(),
    decreases s.len(),
{
    if s.len() > 0 {
        lemma_encode_len_bounds(s.drop_first());
    }
}

/// Whether reading the colour `t` (already trimmed) would slice a
/// character apart.
fn hex_slicing_would_fail(t: &str) -> (r: bool)
    ensures
        r == hex_slicing_fails(t@),
{
    let n = t.unicode_len();
    if n == 0 || t.get_char(0) != '#' || n > 7 {
        proof {
            lemma_encode_len_bounds(t@);
        }
        return false;
    }
    proof {
        lemma_encode_len_bounds(t@);
    }
    if t.len() != 7 {
        return false;
    }
    if n < 3 {
        proof {
            lemma_encode_len_bounds(t@.drop_first());
            assert(encode_utf8(t@) == encode_scalar(t@[0] as u32) + encode_utf8(t@.drop_first()));
            assert(encode_scalar('#' as u32).len() == 1);
        }
        return false;
    }
    if !t.is_char_boundary(3) {
        return true;
    }
    match hex_pair_of(t.get_char(1), t.get_char(2)) {
        Some(_) => !t.is_char_boundary(5),
        None => false,
    }
}

/// Whether reading the field value `s` would fail: a lone double quote, or
/// a colour that slices a character apart.
fn ron_color_value_would_fail(s: &str) -> (r: bool)
    ensures
        r == ron_color_value_fails(s@),
{
    let t = trim_str(s);
    let n = t.unicode_len();
    if n > 0 && t.get_char(0) == '"' && t.get_char(n - 1) == '"' {
        if n == 1 {
            return true;
        }
        return hex_slicing_would_fail(trim_str(t.substring_char(1, n - 1)));
    }
    hex_slicing_would_fail(trim_str(t))
}

/// Whether reading the value of `field` would fail.
fn field_value_would_fail(field_text: &str) -> (r: bool)
    ensures
        r == field_value_fails(field_text@),
{
    let field = trim_str(field_text);
    let flen = field.unicode_len();
    match find_char(field, ':') {
        Some(p) => {
            proof {
                assert(field@.skip(p + 1) == field@.subrange(p + 1, field@.len() as int));
            }
            ron_color_value_would_fail(trim_str(field.substring_char(p + 1, flen)))
        },
        None => false,
    }
}

impl Theme {
    /// Whether `from_ron` cannot read `input`: one of its field values is a
    /// lone double quote, or a `#` colour whose byte pairs would cut a
    /// character apart. `from_ron` is defined exactly on the other texts.
    pub fn from_ron_fails(input: &str) -> (r: bool)
        ensures
            r == ron_value_fails(input@),
    {
        let t = trim_str(input);
        let n = t.unicode_len();
        if !(n > 0 && t.get_char(0) == '(' && t.get_char(n - 1) == ')') {
            return false;
        }
        let inner = trim_str(t.substring_char(1, n - 1));
        let fields = split_ron_fields(inner);
        let ghost all = ron_fields(inner@);
        let mut k: usize = 0;
        while k < fields.len()
            invariant
                k <= fields.len(),
                string_views(fields@) == all,
                all == ron_fields(inner@),
                Some(inner@) == ron_body(input@),
                forall|j: int| 0 <= j < k ==> !#[trigger] field_value_fails(all[j]),
            decreases fields.len() - k,
        {
            assert(fields@[k as int]@ == all[k as int]);
            if field_value_would_fail(fields[k].as_str()) {
                proof {
                    let body = ron_body(input@).unwrap();
                    assert(body == inner@);
                    assert(field_value_fails(ron_fields(body)[k as int]));
                }
                return true;
            }
            k = k + 1;
        }
        false
    }

    /// Reads a theme text. Fields that are not `key: value`, keys that name
    /// no field and values that name no colour are skipped; the fields not
    /// given keep the colours of the dark theme.
    pub fn from_ron(input: &str) -> (r: Result<Theme, ThemeError>)
        requires
            !ron_value_fails(input@),
        ensures
            r == spec_from_ron(input@),
    {
        let mut theme = Theme::dark();
        let t = trim_str(input);
        let n = t.unicode_len();
        if !(n > 0 && t.get_char(0) == '(' && t.get_char(n - 1) == ')') {
            return Err(ThemeError::InvalidFormat);
        }
        let inner = trim_str(t.substring_char(1, n - 1));
        let fields = split_ron_fields(inner);
        let ghost all = ron_fields(inner@);
        let mut k: usize = 0;
        while k < fields.len()
            invariant
                k <= fields.len(),
                string_views(fields@) == all,
                all == ron_fields(inner@),
                Some(inner@) == ron_body(input@),
                !ron_value_fails(input@),
                theme == apply_fields(dark_theme(), all.take(k as int)),
            decreases fields.len() - k,
        {
            let field_text = fields[k].as_str();
            assert(field_text@ == all[k as int]);
            assert(all.take(k + 1).drop_last() == all.take(k as int));
            let field = trim_str(field_text);
            let flen = field.unicode_len();
            match find_char(field, ':') {
                Some(p) => {
                    let key = trim_quote_marks(trim_str(field.substring_char(0, p)));
                    let value = trim_str(field.substring_char(p + 1, flen));
                    assert(field@.take(p as int) == field@.subrange(0, p as int));
                    assert(field@.skip(p + 1) == field@.subrange(p + 1, field@.len() as int));
                    assert(!field_value_fails(ron_fields(inner@)[k as int])) by {
                        if field_value_fails(ron_fields(inner@)[k as int]) {
                            let body = ron_body(input@).unwrap();
                            assert(body == inner@);
                            assert(0 <= k < ron_fields(body).len());
                            assert(field_value_fails(ron_fields(body)[k as int]));
                            assert(ron_value_fails(input@));
                        }
                    }
                    match parse_ron_color_value(value) {
                        Some(color) => {
                            apply_field(&mut theme, key, color);
                        },
                        None => {},
                    }
                },
                None => {},
            }
            k = k + 1;
        }
        assert(all.take(fields.len() as int) == all);
        Ok(theme)
    }
}

/// The line of the theme text that holds the field at `i`.
pub open spec fn field_line(t: Theme, i: int) -> Seq<char> {
    "    "@ + field_name(i) + ": \""@ + color_name(color_at(t, i)) + "\""@
}

/// The number of fields of a theme.
pub open spec fn field_count() -> int {
    32
}

/// The lines of the theme text, one for each field, in field order.
pub open spec fn theme_lines(t: Theme) -> Seq<Seq<char>> {
    Seq::new(field_count() as nat, |i: int| field_line(t, i))
}

/// The parts in order with `sep` between each two.
pub open spec fn join_with(parts: Seq<Seq<char>>, sep: Seq<char>) -> Seq<char>
    decreases parts.len(),
{
    if parts.len() == 0 {
        Seq::empty()
    } else if parts.len() == 1 {
        parts[0]
    } else {
        join_with(parts.drop_last(), sep) + sep + parts.last()
    }
}

/// The theme text of a theme: its lines between parentheses, separated by
/// commas.
pub open spec fn spec_to_ron(t: Theme) -> Seq<char> {
    "(\n"@ + join_with(theme_lines(t), ",\n"@) + "\n)"@
}

/// The line for a field called `name` holding `c`.
fn field_line_text(name: &str, c: Color) -> (r: String)
    ensures
        r@ == "    "@ + name@ + ": \""@ + color_name(c) + "\""@,
{
    let mut s = String::from_str("    ");
    s.append(name);
    s.append(": \"");
    let color = format_color(c);
    s.append(color.as_str());
    s.append("\"");
    s
}

/// The parts in order with `sep` between each two.
fn join_lines(parts: &Vec<String>, sep: &str) -> (r: String)
    ensures
        r@ == join_with(string_views(parts@), sep@),
{
    let mut out = String::new();
    let mut k: usize = 0;
    while k < parts.len()
        invariant
            k <= parts.len(),
            out@ == join_with(string_views(parts@).take(k as int), sep@),
        decreases parts.len() - k,
    {
        let ghost views = string_views(parts@);
        assert(views.take(k + 1).drop_last() == views.take(k as int));
        if k > 0 {
            out.append(sep);
        }
        out.append(parts[k].as_str());
        k = k + 1;
    }
    assert(string_views(parts@).take(parts.len() as int) == string_views(parts@));
    out
}

impl Theme {
    /// Writes the theme as a theme text that names every field.
    pub fn to_ron(&self) -> (r: String)
        ensures
            r@ == spec_to_ron(*self),
    {
        let mut lines: Vec<String> = Vec::new();
        lines.push(field_line_text("tab_active", self.tab_active));
        lines.push(field_line_text("tab_inactive", self.tab_inactive));
        lines.push(field_line_text("tab_bar_bg", self.tab_bar_bg));
        lines.push(field_line_text("diff_add_fg", self.diff_add_fg));
        lines.push(field_line_text("diff_add_bg", self.diff_add_bg));
        lines.push(field_line_text("diff_delete_fg", self.diff_delete_fg));
        lines.push(field_line_text("diff_delete_bg", self.diff_delete_bg));
        lines.push(field_line_text("diff_context_bg", self.diff_context_bg));
        lines.push(field_line_text("diff_header_fg", self.diff_header_fg));
        lines.push(field_line_text("selection_bg", self.selection_bg));
        lines.push(field_line_text("selection_fg", self.selection_fg));
        lines.push(field_line_text("border", self.border));
        lines.push(field_line_text("border_focused", self.border_focused));
        lines.push(field_line_text("title_fg", self.title_fg));
        lines.push(field_line_text("dim_text", self.dim_text));
        lines.push(field_line_text("normal_bg", self.normal_bg));
        lines.push(field_line_text("light_bg", self.light_bg));
        lines.push(field_line_text("file_entry", self.file_entry));
        lines.push(field_line_text("file_entry_staged", self.file_entry_staged));
        lines.push(field_line_text("file_entry_modified", self.file_entry_modified));
        lines.push(field_line_text("file_entry_untracked", self.file_entry_untracked));
        lines.push(field_line_text("commit_hash", self.commit_hash));
        lines.push(field_line_text("commit_msg", self.commit_msg));
        lines.push(field_line_text("commit_author", self.commit_author));
        lines.push(field_line_text("commit_date", self.commit_date));
        lines.push(field_line_text("stash_msg", self.stash_msg));
        lines.push(field_line_text("help_key", self.help_key));
        lines.push(field_line_text("help_desc", self.help_desc));
        lines.push(field_line_text("mode_indicator_bg", self.mode_indicator_bg));
        lines.push(field_line_text("status_added", self.status_added));
        lines.push(field_line_text("status_deleted", self.status_deleted));
        lines.push(field_line_text("status_modified", self.status_modified));
        assert(string_views(lines@) == theme_lines(*self));
        let body = join_lines(&lines, ",\n");
        let mut r = String::from_str("(\n");
        r.append(body.as_str());
        r.append("\n)");
        r
    }
}
/// The look of a piece of text: its foreground and background colours, left
/// to the surrounding text where they are `None`, and whether it is bold.
#[derive(Clone, Copy, Debug, PartialEq, Eq, Structural)]
pub struct Style {
    pub fg: Option<Color>,
    pub bg: Option<Color>,
    pub bold: bool,
}

/// Text in colour `c`.
pub open spec fn fg_style(c: Color) -> Style {
    Style { fg: Some(c), bg: None, bold: false }
}

/// Bold text in colour `c`.
pub open spec fn bold_fg_style(c: Color) -> Style {
    Style { fg: Some(c), bg: None, bold: true }
}

/// Text on a background of colour `c`.
pub open spec fn bg_style(c: Color) -> Style {
    Style { fg: None, bg: Some(c), bold: false }
}

/// The look of the selected row.
pub open spec fn selection_style(t: Theme) -> Style {
    Style { fg: Some(t.selection_fg), bg: Some(t.selection_bg), bold: false }
}

/// The look of a file entry: the selection look when selected, else the
/// staged colour for staged files, else by status: untracked (`?`),
/// modified (`M`), or the plain entry colour.
pub open spec fn spec_file_entry_style(t: Theme, is_staged: bool, status: Seq<char>, selected: bool) -> Style {
    if selected {
        selection_style(t)
    } else if is_staged {
        fg_style(t.file_entry_staged)
    } else if status == "?"@ {
        fg_style(t.file_entry_untracked)
    } else if status == "M"@ {
        fg_style(t.file_entry_modified)
    } else {
        fg_style(t.file_entry)
    }
}

/// The look of a status letter: bold, in the added colour for `A`, the
/// deleted colour for `D`, and the modified colour for any other.
pub open spec fn spec_status_char_style(t: Theme, status: Seq<char>) -> Style {
    if status == "A"@ {
        bold_fg_style(t.status_added)
    } else if status == "D"@ {
        bold_fg_style(t.status_deleted)
    } else {
        bold_fg_style(t.status_modified)
    }
}

impl Theme {
    pub fn tab_active_style(&self) -> (s: Style)
        ensures
            s == bold_fg_style(self.tab_active),
    {
        Style { fg: Some(self.tab_active), bg: None, bold: true }
    }

    pub fn tab_inactive_style(&self) -> (s: Style)
        ensures
            s == fg_style(self.tab_inactive),
    {
        Style { fg: Some(self.tab_inactive), bg: None, bold: false }
    }

    /// The tab bar keeps the terminal's own look.
    pub fn tab_bar_style(&self) -> (s: Style)
        ensures
            s == (Style { fg: None, bg: None, bold: false }),
    {
        Style { fg: None, bg: None, bold: false }
    }

    /// An added line: the added colour, or the selection look.
    pub fn diff_add(&self, selected: bool) -> (s: Style)
        ensures
            s == (if selected { selection_style(*self) } else { fg_style(self.diff_add_fg) }),
    {
        if selected {
            self.selected()
        } else {
            Style { fg: Some(self.diff_add_fg), bg: None, bold: false }
        }
    }

    /// A deleted line: the deleted colour, or the selection look.
    pub fn diff_delete(&self, selected: bool) -> (s: Style)
        ensures
            s == (if selected { selection_style(*self) } else { fg_style(self.diff_delete_fg) }),
    {
        if selected {
            self.selected()
        } else {
            Style { fg: Some(self.diff_delete_fg), bg: None, bold: false }
        }
    }

    /// A context line: the context background, or the selection look.
    pub fn diff_context(&self, selected: bool) -> (s: Style)
        ensures
            s == (if selected { selection_style(*self) } else { bg_style(self.diff_context_bg) }),
    {
        if selected {
            self.selected()
        } else {
            Style { fg: None, bg: Some(self.diff_context_bg), bold: false }
        }
    }

    pub fn diff_header(&self) -> (s: Style)
        ensures
            s == bold_fg_style(self.diff_header_fg),
    {
        Style { fg: Some(self.diff_header_fg), bg: None, bold: true }
    }

    pub fn selected(&self) -> (s: Style)
        ensures
            s == selection_style(*self),
    {
        Style { fg: Some(self.selection_fg), bg: Some(self.selection_bg), bold: false }
    }

    /// `style` with the selection colours in front of and behind it.
    pub fn selected_on(&self, style: Style) -> (s: Style)
        ensures
            s == (Style { fg: Some(self.selection_fg), bg: Some(self.selection_bg), ..style }),
    {
        Style { fg: Some(self.selection_fg), bg: Some(self.selection_bg), bold: style.bold }
    }

    pub fn border_style(&self) -> (s: Style)
        ensures
            s == fg_style(self.border),
    {
        Style { fg: Some(self.border), bg: None, bold: false }
    }

    pub fn border_focused_style(&self) -> (s: Style)
        ensures
            s == fg_style(self.border_focused),
    {
        Style { fg: Some(self.border_focused), bg: None, bold: false }
    }

    pub fn title(&self) -> (s: Style)
        ensures
            s == bold_fg_style(self.title_fg),
    {
        Style { fg: Some(self.title_fg), bg: None, bold: true }
    }

    pub fn dim_text(&self) -> (s: Style)
        ensures
            s == fg_style(self.dim_text),
    {
        Style { fg: Some(self.dim_text), bg: None, bold: false }
    }

    /// Plain text keeps the terminal's own look.
    pub fn normal(&self) -> (s: Style)
        ensures
            s == (Style { fg: None, bg: None, bold: false }),
    {
        Style { fg: None, bg: None, bold: false }
    }

    pub fn file_entry(&self, is_staged: bool, status: &str, selected: bool) -> (s: Style)
        ensures
            s == spec_file_entry_style(*self, is_staged, status@, selected),
    {
        if selected {
            return self.selected();
        }
        if is_staged {
            return Style { fg: Some(self.file_entry_staged), bg: None, bold: false };
        }
        let fg = if str_equal(status, "?") {
            self.file_entry_untracked
        } else if str_equal(status, "M") {
            self.file_entry_modified
        } else {
            self.file_entry
        };
        Style { fg: Some(fg), bg: None, bold: false }
    }

    pub fn commit_hash(&self, selected: bool) -> (s: Style)
        ensures
            s == (if selected { selection_style(*self) } else { fg_style(self.commit_hash) }),
    {
        if selected {
            self.selected()
        } else {
            Style { fg: Some(self.commit_hash), bg: None, bold: false }
        }
    }

    pub fn commit_msg(&self, selected: bool) -> (s: Style)
        ensures
            s == (if selected { selection_style(*self) } else { fg_style(self.commit_msg) }),
    {
        if selected {
            self.selected()
        } else {
            Style { fg: Some(self.commit_msg), bg: None, bold: false }
        }
    }

    pub fn commit_author(&self, selected: bool) -> (s: Style)
        ensures
            s == (if selected { selection_style(*self) } else { fg_style(self.commit_author) }),
    {
        if selected {
            self.selected()
        } else {
            Style { fg: Some(self.commit_author), bg: None, bold: false }
        }
    }

    pub fn commit_date(&self, selected: bool) -> (s: Style)
        ensures
            s == (if selected { selection_style(*self) } else { fg_style(self.commit_date) }),
    {
        if selected {
            self.selected()
        } else {
            Style { fg: Some(self.commit_date), bg: None, bold: false }
        }
    }

    pub fn stash_msg(&self, selected: bool) -> (s: Style)
        ensures
            s == (if selected { selection_style(*self) } else { fg_style(self.stash_msg) }),
    {
        if selected {
            self.selected()
        } else {
            Style { fg: Some(self.stash_msg), bg: None, bold: false }
        }
    }

    pub fn help_key(&self) -> (s: Style)
        ensures
            s == bold_fg_style(self.help_key),
    {
        Style { fg: Some(self.help_key), bg: None, bold: true }
    }

    pub fn help_desc(&self) -> (s: Style)
        ensures
            s == fg_style(self.help_desc),
    {
        Style { fg: Some(self.help_desc), bg: None, bold: false }
    }

    /// The mode indicator is drawn bold in the added-line colour.
    pub fn mode_indicator(&self) -> (s: Style)
        ensures
            s == bold_fg_style(self.diff_add_fg),
    {
        Style { fg: Some(self.diff_add_fg), bg: None, bold: true }
    }

    pub fn status_char(&self, status: &str) -> (s: Style)
        ensures
            s == spec_status_char_style(*self, status@),
    {
        if str_equal(status, "A") {
            Style { fg: Some(self.status_added), bg: None, bold: true }
        } else if str_equal(status, "D") {
            Style { fg: Some(self.status_deleted), bg: None, bold: true }
        } else {
            Style { fg: Some(self.status_modified), bg: None, bold: true }
        }
    }
}

} // verus!
