//! The theme text that a theme is written as reads back as that theme.

use crate::git::string_views;
use crate::text::{is_white_space, trim_end_chars, trim_start_chars, trimmed};
use crate::theme::{
    apply_fields, closes_group, color_at, color_name, dark_theme, field_count, field_effect,
    field_index, field_line, field_name, field_value_fails, is_nameable, join_with,
    lemma_color_round_trip, lemma_first_index_unique, lemma_split_scan_bounds,
    lemma_trimmed_unchanged, opens_group, ron_body, ron_fields, ron_value_fails, spec_from_ron,
    spec_to_ron, split_scan, theme_lines, trim_quotes_end, trim_quotes_start, with_color, Color,
    Theme, ThemeError,
};
use vstd::prelude::*;

verus! {

proof fn reveal_field_names() ensures
    "tab_active"@ == seq!['t', 'a', 'b', '_', 'a', 'c', 't', 'i', 'v', 'e'],
    "tab_inactive"@ == seq!['t', 'a', 'b', '_', 'i', 'n', 'a', 'c', 't', 'i', 'v', 'e'],
    "tab_bar_bg"@ == seq!['t', 'a', 'b', '_', 'b', 'a', 'r', '_', 'b', 'g'],
    "diff_add_fg"@ == seq!['d', 'i', 'f', 'f', '_', 'a', 'd', 'd', '_', 'f', 'g'],
    "diff_add_bg"@ == seq!['d', 'i', 'f', 'f', '_', 'a', 'd', 'd', '_', 'b', 'g'],
    "diff_delete_fg"@ == seq!['d', 'i', 'f', 'f', '_', 'd', 'e', 'l', 'e', 't', 'e', '_', 'f', 'g'],
    "diff_delete_bg"@ == seq!['d', 'i', 'f', 'f', '_', 'd', 'e', 'l', 'e', 't', 'e', '_', 'b', 'g'],
    "diff_context_bg"@ == seq!['d', 'i', 'f', 'f', '_', 'c', 'o', 'n', 't', 'e', 'x', 't', '_', 'b', 'g'],
    "diff_header_fg"@ == seq!['d', 'i', 'f', 'f', '_', 'h', 'e', 'a', 'd', 'e', 'r', '_', 'f', 'g'],
    "selection_bg"@ == seq!['s', 'e', 'l', 'e', 'c', 't', 'i', 'o', 'n', '_', 'b', 'g'],
    "selection_fg"@ == seq!['s', 'e', 'l', 'e', 'c', 't', 'i', 'o', 'n', '_', 'f', 'g'],
    "border"@ == seq!['b', 'o', 'r', 'd', 'e', 'r'],
    "border_focused"@ == seq!['b', 'o', 'r', 'd', 'e', 'r', '_', 'f', 'o', 'c', 'u', 's', 'e', 'd'],
    "title_fg"@ == seq!['t', 'i', 't', 'l', 'e', '_', 'f', 'g'],
    "dim_text"@ == seq!['d', 'i', 'm', '_', 't', 'e', 'x', 't'],
    "normal_bg"@ == seq!['n', 'o', 'r', 'm', 'a', 'l', '_', 'b', 'g'],
    "light_bg"@ == seq!['l', 'i', 'g', 'h', 't', '_', 'b', 'g'],
    "file_entry"@ == seq!['f', 'i', 'l', 'e', '_', 'e', 'n', 't', 'r', 'y'],
    "file_entry_staged"@ == seq!['f', 'i', 'l', 'e', '_', 'e', 'n', 't', 'r', 'y', '_', 's', 't', 'a', 'g', 'e', 'd'],
    "file_entry_modified"@ == seq!['f', 'i', 'l', 'e', '_', 'e', 'n', 't', 'r', 'y', '_', 'm', 'o', 'd', 'i', 'f', 'i', 'e', 'd'],
    "file_entry_untracked"@ == seq!['f', 'i', 'l', 'e', '_', 'e', 'n', 't', 'r', 'y', '_', 'u', 'n', 't', 'r', 'a', 'c', 'k', 'e', 'd'],
    "commit_hash"@ == seq!['c', 'o', 'm', 'm', 'i', 't', '_', 'h', 'a', 's', 'h'],
    "commit_msg"@ == seq!['c', 'o', 'm', 'm', 'i', 't', '_', 'm', 's', 'g'],
    "commit_author"@ == seq!['c', 'o', 'm', 'm', 'i', 't', '_', 'a', 'u', 't', 'h', 'o', 'r'],
    "commit_date"@ == seq!['c', 'o', 'm', 'm', 'i', 't', '_', 'd', 'a', 't', 'e'],
    "stash_msg"@ == seq!['s', 't', 'a', 's', 'h', '_', 'm', 's', 'g'],
    "help_key"@ == seq!['h', 'e', 'l', 'p', '_', 'k', 'e', 'y'],
    "help_desc"@ == seq!['h', 'e', 'l', 'p', '_', 'd', 'e', 's', 'c'],
    "mode_indicator_bg"@ == seq!['m', 'o', 'd', 'e', '_', 'i', 'n', 'd', 'i', 'c', 'a', 't', 'o', 'r', '_', 'b', 'g'],
    "status_added"@ == seq!['s', 't', 'a', 't', 'u', 's', '_', 'a', 'd', 'd', 'e', 'd'],
    "status_deleted"@ == seq!['s', 't', 'a', 't', 'u', 's', '_', 'd', 'e', 'l', 'e', 't', 'e', 'd'],
    "status_modified"@ == seq!['s', 't', 'a', 't', 'u', 's', '_', 'm', 'o', 'd', 'i', 'f', 'i', 'e', 'd'],
{
    reveal_strlit("tab_active");
    reveal_strlit("tab_inactive");
    reveal_strlit("tab_bar_bg");
    reveal_strlit("diff_add_fg");
    reveal_strlit("diff_add_bg");
    reveal_strlit("diff_delete_fg");
    reveal_strlit("diff_delete_bg");
    reveal_strlit("diff_context_bg");
    reveal_strlit("diff_header_fg");
    reveal_strlit("selection_bg");
    reveal_strlit("selection_fg");
    reveal_strlit("border");
    reveal_strlit("border_focused");
    reveal_strlit("title_fg");
    reveal_strlit("dim_text");
    reveal_strlit("normal_bg");
    reveal_strlit("light_bg");
    reveal_strlit("file_entry");
    reveal_strlit("file_entry_staged");
    reveal_strlit("file_entry_modified");
    reveal_strlit("file_entry_untracked");
    reveal_strlit("commit_hash");
    reveal_strlit("commit_msg");
    reveal_strlit("commit_author");
    reveal_strlit("commit_date");
    reveal_strlit("stash_msg");
    reveal_strlit("help_key");
    reveal_strlit("help_desc");
    reveal_strlit("mode_indicator_bg");
    reveal_strlit("status_added");
    reveal_strlit("status_deleted");
    reveal_strlit("status_modified");
}

/// A field name is made of lower-case letters and underscores.
pub open spec fn is_key_text(s: Seq<char>) -> bool {
    &&& s.len() > 0
    &&& forall|i: int| 0 <= i < s.len() ==> ('a' <= #[trigger] s[i] <= 'z' || s[i] == '_')
}

proof fn lemma_field_name_facts(k: int)
    requires
        0 <= k < field_count(),
    ensures
        is_key_text(field_name(k)),
        field_index(field_name(k)) == Some(k),
{
    reveal_field_names();
    if k == 0 {
    } else if k == 1 {
        assert(field_name(0).len() != field_name(1).len());
    } else if k == 2 {
        assert(field_name(0)[4] != field_name(2)[4]);
        assert(field_name(1).len() != field_name(2).len());
    } else if k == 3 {
        assert(field_name(0).len() != field_name(3).len());
        assert(field_name(1).len() != field_name(3).len());
        assert(field_name(2).len() != field_name(3).len());
    } else if k == 4 {
        assert(field_name(0).len() != field_name(4).len());
        assert(field_name(1).len() != field_name(4).len());
        assert(field_name(2).len() != field_name(4).len());
        assert(field_name(3)[9] != field_name(4)[9]);
    } else if k == 5 {
        assert(field_name(0).len() != field_name(5).len());
        assert(field_name(1).len() != field_name(5).len());
        assert(field_name(2).len() != field_name(5).len());
        assert(field_name(3).len() != field_name(5).len());
        assert(field_name(4).len() != field_name(5).len());
    } else if k == 6 {
        assert(field_name(0).len() != field_name(6).len());
        assert(field_name(1).len() != field_name(6).len());
        assert(field_name(2).len() != field_name(6).len());
        assert(field_name(3).len() != field_name(6).len());
        assert(field_name(4).len() != field_name(6).len());
        assert(field_name(5)[12] != field_name(6)[12]);
    } else if k == 7 {
        assert(field_name(0).len() != field_name(7).len());
        assert(field_name(1).len() != field_name(7).len());
        assert(field_name(2).len() != field_name(7).len());
        assert(field_name(3).len() != field_name(7).len());
        assert(field_name(4).len() != field_name(7).len());
        assert(field_name(5).len() != field_name(7).len());
        assert(field_name(6).len() != field_name(7).len());
    } else if k == 8 {
        assert(field_name(0).len() != field_name(8).len());
        assert(field_name(1).len() != field_name(8).len());
        assert(field_name(2).len() != field_name(8).len());
        assert(field_name(3).len() != field_name(8).len());
        assert(field_name(4).len() != field_name(8).len());
        assert(field_name(5)[5] != field_name(8)[5]);
        assert(field_name(6)[5] != field_name(8)[5]);
        assert(field_name(7).len() != field_name(8).len());
    } else if k == 9 {
        assert(field_name(0).len() != field_name(9).len());
        assert(field_name(1)[0] != field_name(9)[0]);
        assert(field_name(2).len() != field_name(9).len());
        assert(field_name(3).len() != field_name(9).len());
        assert(field_name(4).len() != field_name(9).len());
        assert(field_name(5).len() != field_name(9).len());
        assert(field_name(6).len() != field_name(9).len());
        assert(field_name(7).len() != field_name(9).len());
        assert(field_name(8).len() != field_name(9).len());
    } else if k == 10 {
        assert(field_name(0).len() != field_name(10).len());
        assert(field_name(1)[0] != field_name(10)[0]);
        assert(field_name(2).len() != field_name(10).len());
        assert(field_name(3).len() != field_name(10).len());
        assert(field_name(4).len() != field_name(10).len());
        assert(field_name(5).len() != field_name(10).len());
        assert(field_name(6).len() != field_name(10).len());
        assert(field_name(7).len() != field_name(10).len());
        assert(field_name(8).len() != field_name(10).len());
        assert(field_name(9)[10] != field_name(10)[10]);
    } else if k == 11 {
        assert(field_name(0).len() != field_name(11).len());
        assert(field_name(1).len() != field_name(11).len());
        assert(field_name(2).len() != field_name(11).len());
        assert(field_name(3).len() != field_name(11).len());
        assert(field_name(4).len() != field_name(11).len());
        assert(field_name(5).len() != field_name(11).len());
        assert(field_name(6).len() != field_name(11).len());
        assert(field_name(7).len() != field_name(11).len());
        assert(field_name(8).len() != field_name(11).len());
        assert(field_name(9).len() != field_name(11).len());
        assert(field_name(10).len() != field_name(11).len());
    } else if k == 12 {
        assert(field_name(0).len() != field_name(12).len());
        assert(field_name(1).len() != field_name(12).len());
        assert(field_name(2).len() != field_name(12).len());
        assert(field_name(3).len() != field_name(12).len());
        assert(field_name(4).len() != field_name(12).len());
        assert(field_name(5)[0] != field_name(12)[0]);
        assert(field_name(6)[0] != field_name(12)[0]);
        assert(field_name(7).len() != field_name(12).len());
        assert(field_name(8)[0] != field_name(12)[0]);
        assert(field_name(9).len() != field_name(12).len());
        assert(field_name(10).len() != field_name(12).len());
        assert(field_name(11).len() != field_name(12).len());
    } else if k == 13 {
        assert(field_name(0).len() != field_name(13).len());
        assert(field_name(1).len() != field_name(13).len());
        assert(field_name(2).len() != field_name(13).len());
        assert(field_name(3).len() != field_name(13).len());
        assert(field_name(4).len() != field_name(13).len());
        assert(field_name(5).len() != field_name(13).len());
        assert(field_name(6).len() != field_name(13).len());
        assert(field_name(7).len() != field_name(13).len());
        assert(field_name(8).len() != field_name(13).len());
        assert(field_name(9).len() != field_name(13).len());
        assert(field_name(10).len() != field_name(13).len());
        assert(field_name(11).len() != field_name(13).len());
        assert(field_name(12).len() != field_name(13).len());
    } else if k == 14 {
        assert(field_name(0).len() != field_name(14).len());
        assert(field_name(1).len() != field_name(14).len());
        assert(field_name(2).len() != field_name(14).len());
        assert(field_name(3).len() != field_name(14).len());
        assert(field_name(4).len() != field_name(14).len());
        assert(field_name(5).len() != field_name(14).len());
        assert(field_name(6).len() != field_name(14).len());
        assert(field_name(7).len() != field_name(14).len());
        assert(field_name(8).len() != field_name(14).len());
        assert(field_name(9).len() != field_name(14).len());
        assert(field_name(10).len() != field_name(14).len());
        assert(field_name(11).len() != field_name(14).len());
        assert(field_name(12).len() != field_name(14).len());
        assert(field_name(13)[0] != field_name(14)[0]);
    } else if k == 15 {
        assert(field_name(0).len() != field_name(15).len());
        assert(field_name(1).len() != field_name(15).len());
        assert(field_name(2).len() != field_name(15).len());
        assert(field_name(3).len() != field_name(15).len());
        assert(field_name(4).len() != field_name(15).len());
        assert(field_name(5).len() != field_name(15).len());
        assert(field_name(6).len() != field_name(15).len());
        assert(field_name(7).len() != field_name(15).len());
        assert(field_name(8).len() != field_name(15).len());
        assert(field_name(9).len() != field_name(15).len());
        assert(field_name(10).len() != field_name(15).len());
        assert(field_name(11).len() != field_name(15).len());
        assert(field_name(12).len() != field_name(15).len());
        assert(field_name(13).len() != field_name(15).len());
        assert(field_name(14).len() != field_name(15).len());
    } else if k == 16 {
        assert(field_name(0).len() != field_name(16).len());
        assert(field_name(1).len() != field_name(16).len());
        assert(field_name(2).len() != field_name(16).len());
        assert(field_name(3).len() != field_name(16).len());
        assert(field_name(4).len() != field_name(16).len());
        assert(field_name(5).len() != field_name(16).len());
        assert(field_name(6).len() != field_name(16).len());
        assert(field_name(7).len() != field_name(16).len());
        assert(field_name(8).len() != field_name(16).len());
        assert(field_name(9).len() != field_name(16).len());
        assert(field_name(10).len() != field_name(16).len());
        assert(field_name(11).len() != field_name(16).len());
        assert(field_name(12).len() != field_name(16).len());
        assert(field_name(13)[0] != field_name(16)[0]);
        assert(field_name(14)[0] != field_name(16)[0]);
        assert(field_name(15).len() != field_name(16).len());
    } else if k == 17 {
        assert(field_name(0)[0] != field_name(17)[0]);
        assert(field_name(1).len() != field_name(17).len());
        assert(field_name(2)[0] != field_name(17)[0]);
        assert(field_name(3).len() != field_name(17).len());
        assert(field_name(4).len() != field_name(17).len());
        assert(field_name(5).len() != field_name(17).len());
        assert(field_name(6).len() != field_name(17).len());
        assert(field_name(7).len() != field_name(17).len());
        assert(field_name(8).len() != field_name(17).len());
        assert(field_name(9).len() != field_name(17).len());
        assert(field_name(10).len() != field_name(17).len());
        assert(field_name(11).len() != field_name(17).len());
        assert(field_name(12).len() != field_name(17).len());
        assert(field_name(13).len() != field_name(17).len());
        assert(field_name(14).len() != field_name(17).len());
        assert(field_name(15).len() != field_name(17).len());
        assert(field_name(16).len() != field_name(17).len());
    } else if k == 18 {
        assert(field_name(0).len() != field_name(18).len());
        assert(field_name(1).len() != field_name(18).len());
        assert(field_name(2).len() != field_name(18).len());
        assert(field_name(3).len() != field_name(18).len());
        assert(field_name(4).len() != field_name(18).len());
        assert(field_name(5).len() != field_name(18).len());
        assert(field_name(6).len() != field_name(18).len());
        assert(field_name(7).len() != field_name(18).len());
        assert(field_name(8).len() != field_name(18).len());
        assert(field_name(9).len() != field_name(18).len());
        assert(field_name(10).len() != field_name(18).len());
        assert(field_name(11).len() != field_name(18).len());
        assert(field_name(12).len() != field_name(18).len());
        assert(field_name(13).len() != field_name(18).len());
        assert(field_name(14).len() != field_name(18).len());
        assert(field_name(15).len() != field_name(18).len());
        assert(field_name(16).len() != field_name(18).len());
        assert(field_name(17).len() != field_name(18).len());
    } else if k == 19 {
        assert(field_name(0).len() != field_name(19).len());
        assert(field_name(1).len() != field_name(19).len());
        assert(field_name(2).len() != field_name(19).len());
        assert(field_name(3).len() != field_name(19).len());
        assert(field_name(4).len() != field_name(19).len());
        assert(field_name(5).len() != field_name(19).len());
        assert(field_name(6).len() != field_name(19).len());
        assert(field_name(7).len() != field_name(19).len());
        assert(field_name(8).len() != field_name(19).len());
        assert(field_name(9).len() != field_name(19).len());
        assert(field_name(10).len() != field_name(19).len());
        assert(field_name(11).len() != field_name(19).len());
        assert(field_name(12).len() != field_name(19).len());
        assert(field_name(13).len() != field_name(19).len());
        assert(field_name(14).len() != field_name(19).len());
        assert(field_name(15).len() != field_name(19).len());
        assert(field_name(16).len() != field_name(19).len());
        assert(field_name(17).len() != field_name(19).len());
        assert(field_name(18).len() != field_name(19).len());
    } else if k == 20 {
        assert(field_name(0).len() != field_name(20).len());
        assert(field_name(1).len() != field_name(20).len());
        assert(field_name(2).len() != field_name(20).len());
        assert(field_name(3).len() != field_name(20).len());
        assert(field_name(4).len() != field_name(20).len());
        assert(field_name(5).len() != field_name(20).len());
        assert(field_name(6).len() != field_name(20).len());
        assert(field_name(7).len() != field_name(20).len());
        assert(field_name(8).len() != field_name(20).len());
        assert(field_name(9).len() != field_name(20).len());
        assert(field_name(10).len() != field_name(20).len());
        assert(field_name(11).len() != field_name(20).len());
        assert(field_name(12).len() != field_name(20).len());
        assert(field_name(13).len() != field_name(20).len());
        assert(field_name(14).len() != field_name(20).len());
        assert(field_name(15).len() != field_name(20).len());
        assert(field_name(16).len() != field_name(20).len());
        assert(field_name(17).len() != field_name(20).len());
        assert(field_name(18).len() != field_name(20).len());
        assert(field_name(19).len() != field_name(20).len());
    } else if k == 21 {
        assert(field_name(0).len() != field_name(21).len());
        assert(field_name(1).len() != field_name(21).len());
        assert(field_name(2).len() != field_name(21).len());
        assert(field_name(3)[0] != field_name(21)[0]);
        assert(field_name(4)[0] != field_name(21)[0]);
        assert(field_name(5).len() != field_name(21).len());
        assert(field_name(6).len() != field_name(21).len());
        assert(field_name(7).len() != field_name(21).len());
        assert(field_name(8).len() != field_name(21).len());
        assert(field_name(9).len() != field_name(21).len());
        assert(field_name(10).len() != field_name(21).len());
        assert(field_name(11).len() != field_name(21).len());
        assert(field_name(12).len() != field_name(21).len());
        assert(field_name(13).len() != field_name(21).len());
        assert(field_name(14).len() != field_name(21).len());
        assert(field_name(15).len() != field_name(21).len());
        assert(field_name(16).len() != field_name(21).len());
        assert(field_name(17).len() != field_name(21).len());
        assert(field_name(18).len() != field_name(21).len());
        assert(field_name(19).len() != field_name(21).len());
        assert(field_name(20).len() != field_name(21).len());
    } else if k == 22 {
        assert(field_name(0)[0] != field_name(22)[0]);
        assert(field_name(1).len() != field_name(22).len());
        assert(field_name(2)[0] != field_name(22)[0]);
        assert(field_name(3).len() != field_name(22).len());
        assert(field_name(4).len() != field_name(22).len());
        assert(field_name(5).len() != field_name(22).len());
        assert(field_name(6).len() != field_name(22).len());
        assert(field_name(7).len() != field_name(22).len());
        assert(field_name(8).len() != field_name(22).len());
        assert(field_name(9).len() != field_name(22).len());
        assert(field_name(10).len() != field_name(22).len());
        assert(field_name(11).len() != field_name(22).len());
        assert(field_name(12).len() != field_name(22).len());
        assert(field_name(13).len() != field_name(22).len());
        assert(field_name(14).len() != field_name(22).len());
        assert(field_name(15).len() != field_name(22).len());
        assert(field_name(16).len() != field_name(22).len());
        assert(field_name(17)[0] != field_name(22)[0]);
        assert(field_name(18).len() != field_name(22).len());
        assert(field_name(19).len() != field_name(22).len());
        assert(field_name(20).len() != field_name(22).len());
        assert(field_name(21).len() != field_name(22).len());
    } else if k == 23 {
        assert(field_name(0).len() != field_name(23).len());
        assert(field_name(1).len() != field_name(23).len());
        assert(field_name(2).len() != field_name(23).len());
        assert(field_name(3).len() != field_name(23).len());
        assert(field_name(4).len() != field_name(23).len());
        assert(field_name(5).len() != field_name(23).len());
        assert(field_name(6).len() != field_name(23).len());
        assert(field_name(7).len() != field_name(23).len());
        assert(field_name(8).len() != field_name(23).len());
        assert(field_name(9).len() != field_name(23).len());
        assert(field_name(10).len() != field_name(23).len());
        assert(field_name(11).len() != field_name(23).len());
        assert(field_name(12).len() != field_name(23).len());
        assert(field_name(13).len() != field_name(23).len());
        assert(field_name(14).len() != field_name(23).len());
        assert(field_name(15).len() != field_name(23).len());
        assert(field_name(16).len() != field_name(23).len());
        assert(field_name(17).len() != field_name(23).len());
        assert(field_name(18).len() != field_name(23).len());
        assert(field_name(19).len() != field_name(23).len());
        assert(field_name(20).len() != field_name(23).len());
        assert(field_name(21).len() != field_name(23).len());
        assert(field_name(22).len() != field_name(23).len());
    } else if k == 24 {
        assert(field_name(0).len() != field_name(24).len());
        assert(field_name(1).len() != field_name(24).len());
        assert(field_name(2).len() != field_name(24).len());
        assert(field_name(3)[0] != field_name(24)[0]);
        assert(field_name(4)[0] != field_name(24)[0]);
        assert(field_name(5).len() != field_name(24).len());
        assert(field_name(6).len() != field_name(24).len());
        assert(field_name(7).len() != field_name(24).len());
        assert(field_name(8).len() != field_name(24).len());
        assert(field_name(9).len() != field_name(24).len());
        assert(field_name(10).len() != field_name(24).len());
        assert(field_name(11).len() != field_name(24).len());
        assert(field_name(12).len() != field_name(24).len());
        assert(field_name(13).len() != field_name(24).len());
        assert(field_name(14).len() != field_name(24).len());
        assert(field_name(15).len() != field_name(24).len());
        assert(field_name(16).len() != field_name(24).len());
        assert(field_name(17).len() != field_name(24).len());
        assert(field_name(18).len() != field_name(24).len());
        assert(field_name(19).len() != field_name(24).len());
        assert(field_name(20).len() != field_name(24).len());
        assert(field_name(21)[7] != field_name(24)[7]);
        assert(field_name(22).len() != field_name(24).len());
        assert(field_name(23).len() != field_name(24).len());
    } else if k == 25 {
        assert(field_name(0).len() != field_name(25).len());
        assert(field_name(1).len() != field_name(25).len());
        assert(field_name(2).len() != field_name(25).len());
        assert(field_name(3).len() != field_name(25).len());
        assert(field_name(4).len() != field_name(25).len());
        assert(field_name(5).len() != field_name(25).len());
        assert(field_name(6).len() != field_name(25).len());
        assert(field_name(7).len() != field_name(25).len());
        assert(field_name(8).len() != field_name(25).len());
        assert(field_name(9).len() != field_name(25).len());
        assert(field_name(10).len() != field_name(25).len());
        assert(field_name(11).len() != field_name(25).len());
        assert(field_name(12).len() != field_name(25).len());
        assert(field_name(13).len() != field_name(25).len());
        assert(field_name(14).len() != field_name(25).len());
        assert(field_name(15)[0] != field_name(25)[0]);
        assert(field_name(16).len() != field_name(25).len());
        assert(field_name(17).len() != field_name(25).len());
        assert(field_name(18).len() != field_name(25).len());
        assert(field_name(19).len() != field_name(25).len());
        assert(field_name(20).len() != field_name(25).len());
        assert(field_name(21).len() != field_name(25).len());
        assert(field_name(22).len() != field_name(25).len());
        assert(field_name(23).len() != field_name(25).len());
        assert(field_name(24).len() != field_name(25).len());
    } else if k == 26 {
        assert(field_name(0).len() != field_name(26).len());
        assert(field_name(1).len() != field_name(26).len());
        assert(field_name(2).len() != field_name(26).len());
        assert(field_name(3).len() != field_name(26).len());
        assert(field_name(4).len() != field_name(26).len());
        assert(field_name(5).len() != field_name(26).len());
        assert(field_name(6).len() != field_name(26).len());
        assert(field_name(7).len() != field_name(26).len());
        assert(field_name(8).len() != field_name(26).len());
        assert(field_name(9).len() != field_name(26).len());
        assert(field_name(10).len() != field_name(26).len());
        assert(field_name(11).len() != field_name(26).len());
        assert(field_name(12).len() != field_name(26).len());
        assert(field_name(13)[0] != field_name(26)[0]);
        assert(field_name(14)[0] != field_name(26)[0]);
        assert(field_name(15).len() != field_name(26).len());
        assert(field_name(16)[0] != field_name(26)[0]);
        assert(field_name(17).len() != field_name(26).len());
        assert(field_name(18).len() != field_name(26).len());
        assert(field_name(19).len() != field_name(26).len());
        assert(field_name(20).len() != field_name(26).len());
        assert(field_name(21).len() != field_name(26).len());
        assert(field_name(22).len() != field_name(26).len());
        assert(field_name(23).len() != field_name(26).len());
        assert(field_name(24).len() != field_name(26).len());
        assert(field_name(25).len() != field_name(26).len());
    } else if k == 27 {
        assert(field_name(0).len() != field_name(27).len());
        assert(field_name(1).len() != field_name(27).len());
        assert(field_name(2).len() != field_name(27).len());
        assert(field_name(3).len() != field_name(27).len());
        assert(field_name(4).len() != field_name(27).len());
        assert(field_name(5).len() != field_name(27).len());
        assert(field_name(6).len() != field_name(27).len());
        assert(field_name(7).len() != field_name(27).len());
        assert(field_name(8).len() != field_name(27).len());
        assert(field_name(9).len() != field_name(27).len());
        assert(field_name(10).len() != field_name(27).len());
        assert(field_name(11).len() != field_name(27).len());
        assert(field_name(12).len() != field_name(27).len());
        assert(field_name(13).len() != field_name(27).len());
        assert(field_name(14).len() != field_name(27).len());
        assert(field_name(15)[0] != field_name(27)[0]);
        assert(field_name(16).len() != field_name(27).len());
        assert(field_name(17).len() != field_name(27).len());
        assert(field_name(18).len() != field_name(27).len());
        assert(field_name(19).len() != field_name(27).len());
        assert(field_name(20).len() != field_name(27).len());
        assert(field_name(21).len() != field_name(27).len());
        assert(field_name(22).len() != field_name(27).len());
        assert(field_name(23).len() != field_name(27).len());
        assert(field_name(24).len() != field_name(27).len());
        assert(field_name(25)[0] != field_name(27)[0]);
        assert(field_name(26).len() != field_name(27).len());
    } else if k == 28 {
        assert(field_name(0).len() != field_name(28).len());
        assert(field_name(1).len() != field_name(28).len());
        assert(field_name(2).len() != field_name(28).len());
        assert(field_name(3).len() != field_name(28).len());
        assert(field_name(4).len() != field_name(28).len());
        assert(field_name(5).len() != field_name(28).len());
        assert(field_name(6).len() != field_name(28).len());
        assert(field_name(7).len() != field_name(28).len());
        assert(field_name(8).len() != field_name(28).len());
        assert(field_name(9).len() != field_name(28).len());
        assert(field_name(10).len() != field_name(28).len());
        assert(field_name(11).len() != field_name(28).len());
        assert(field_name(12).len() != field_name(28).len());
        assert(field_name(13).len() != field_name(28).len());
        assert(field_name(14).len() != field_name(28).len());
        assert(field_name(15).len() != field_name(28).len());
        assert(field_name(16).len() != field_name(28).len());
        assert(field_name(17).len() != field_name(28).len());
        assert(field_name(18)[0] != field_name(28)[0]);
        assert(field_name(19).len() != field_name(28).len());
        assert(field_name(20).len() != field_name(28).len());
        assert(field_name(21).len() != field_name(28).len());
        assert(field_name(22).len() != field_name(28).len());
        assert(field_name(23).len() != field_name(28).len());
        assert(field_name(24).len() != field_name(28).len());
        assert(field_name(25).len() != field_name(28).len());
        assert(field_name(26).len() != field_name(28).len());
        assert(field_name(27).len() != field_name(28).len());
    } else if k == 29 {
        assert(field_name(0).len() != field_name(29).len());
        assert(field_name(1)[0] != field_name(29)[0]);
        assert(field_name(2).len() != field_name(29).len());
        assert(field_name(3).len() != field_name(29).len());
        assert(field_name(4).len() != field_name(29).len());
        assert(field_name(5).len() != field_name(29).len());
        assert(field_name(6).len() != field_name(29).len());
        assert(field_name(7).len() != field_name(29).len());
        assert(field_name(8).len() != field_name(29).len());
        assert(field_name(9)[1] != field_name(29)[1]);
        assert(field_name(10)[1] != field_name(29)[1]);
        assert(field_name(11).len() != field_name(29).len());
        assert(field_name(12).len() != field_name(29).len());
        assert(field_name(13).len() != field_name(29).len());
        assert(field_name(14).len() != field_name(29).len());
        assert(field_name(15).len() != field_name(29).len());
        assert(field_name(16).len() != field_name(29).len());
        assert(field_name(17).len() != field_name(29).len());
        assert(field_name(18).len() != field_name(29).len());
        assert(field_name(19).len() != field_name(29).len());
        assert(field_name(20).len() != field_name(29).len());
        assert(field_name(21).len() != field_name(29).len());
        assert(field_name(22).len() != field_name(29).len());
        assert(field_name(23).len() != field_name(29).len());
        assert(field_name(24).len() != field_name(29).len());
        assert(field_name(25).len() != field_name(29).len());
        assert(field_name(26).len() != field_name(29).len());
        assert(field_name(27).len() != field_name(29).len());
        assert(field_name(28).len() != field_name(29).len());
    } else if k == 30 {
        assert(field_name(0).len() != field_name(30).len());
        assert(field_name(1).len() != field_name(30).len());
        assert(field_name(2).len() != field_name(30).len());
        assert(field_name(3).len() != field_name(30).len());
        assert(field_name(4).len() != field_name(30).len());
        assert(field_name(5)[0] != field_name(30)[0]);
        assert(field_name(6)[0] != field_name(30)[0]);
        assert(field_name(7).len() != field_name(30).len());
        assert(field_name(8)[0] != field_name(30)[0]);
        assert(field_name(9).len() != field_name(30).len());
        assert(field_name(10).len() != field_name(30).len());
        assert(field_name(11).len() != field_name(30).len());
        assert(field_name(12)[0] != field_name(30)[0]);
        assert(field_name(13).len() != field_name(30).len());
        assert(field_name(14).len() != field_name(30).len());
        assert(field_name(15).len() != field_name(30).len());
        assert(field_name(16).len() != field_name(30).len());
        assert(field_name(17).len() != field_name(30).len());
        assert(field_name(18).len() != field_name(30).len());
        assert(field_name(19).len() != field_name(30).len());
        assert(field_name(20).len() != field_name(30).len());
        assert(field_name(21).len() != field_name(30).len());
        assert(field_name(22).len() != field_name(30).len());
        assert(field_name(23).len() != field_name(30).len());
        assert(field_name(24).len() != field_name(30).len());
        assert(field_name(25).len() != field_name(30).len());
        assert(field_name(26).len() != field_name(30).len());
        assert(field_name(27).len() != field_name(30).len());
        assert(field_name(28).len() != field_name(30).len());
        assert(field_name(29).len() != field_name(30).len());
    } else if k == 31 {
        assert(field_name(0).len() != field_name(31).len());
        assert(field_name(1).len() != field_name(31).len());
        assert(field_name(2).len() != field_name(31).len());
        assert(field_name(3).len() != field_name(31).len());
        assert(field_name(4).len() != field_name(31).len());
        assert(field_name(5).len() != field_name(31).len());
        assert(field_name(6).len() != field_name(31).len());
        assert(field_name(7)[0] != field_name(31)[0]);
        assert(field_name(8).len() != field_name(31).len());
        assert(field_name(9).len() != field_name(31).len());
        assert(field_name(10).len() != field_name(31).len());
        assert(field_name(11).len() != field_name(31).len());
        assert(field_name(12).len() != field_name(31).len());
        assert(field_name(13).len() != field_name(31).len());
        assert(field_name(14).len() != field_name(31).len());
        assert(field_name(15).len() != field_name(31).len());
        assert(field_name(16).len() != field_name(31).len());
        assert(field_name(17).len() != field_name(31).len());
        assert(field_name(18).len() != field_name(31).len());
        assert(field_name(19).len() != field_name(31).len());
        assert(field_name(20).len() != field_name(31).len());
        assert(field_name(21).len() != field_name(31).len());
        assert(field_name(22).len() != field_name(31).len());
        assert(field_name(23).len() != field_name(31).len());
        assert(field_name(24).len() != field_name(31).len());
        assert(field_name(25).len() != field_name(31).len());
        assert(field_name(26).len() != field_name(31).len());
        assert(field_name(27).len() != field_name(31).len());
        assert(field_name(28).len() != field_name(31).len());
        assert(field_name(29).len() != field_name(31).len());
        assert(field_name(30).len() != field_name(31).len());
    }
}


/// A character that neither opens nor closes a bracket nor separates fields.
pub open spec fn is_plain(c: char) -> bool {
    !opens_group(c) && !closes_group(c) && c != ','
}

pub open spec fn all_plain(s: Seq<char>) -> bool {
    forall|i: int| 0 <= i < s.len() ==> is_plain(#[trigger] s[i])
}

/// Plain characters leave the scan where it was.
proof fn lemma_scan_plain(s: Seq<char>, u: Seq<char>)
    requires
        all_plain(u),
    ensures
        split_scan(s + u) == split_scan(s),
    decreases u.len(),
{
    if u.len() == 0 {
        assert(s + u == s);
    } else {
        let v = u.drop_last();
        lemma_scan_plain(s, v);
        assert((s + u).drop_last() == s + v);
        assert((s + u)[(s + u).len() - 1] == u.last());
    }
}

/// A comma outside brackets ends the current field.
proof fn lemma_scan_comma(s: Seq<char>)
    requires
        split_scan(s).1 == 0,
    ensures
        split_scan(s.push(',')) == (
            split_scan(s).0.push(s.subrange(split_scan(s).2, s.len() as int)),
            0int,
            s.len() + 1int,
        ),
{
    assert(s.push(',').drop_last() == s);
    assert(s.push(',').subrange(split_scan(s).2, s.len() as int) == s.subrange(
        split_scan(s).2,
        s.len() as int,
    )) by {
        lemma_split_scan_bounds(s);
    }
}

proof fn lemma_trim_start_ws_prefix(w: Seq<char>, x: Seq<char>)
    requires
        forall|i: int| 0 <= i < w.len() ==> is_white_space(#[trigger] w[i]),
    ensures
        trim_start_chars(w + x) == trim_start_chars(x),
    decreases w.len(),
{
    if w.len() > 0 {
        assert((w + x)[0] == w[0]);
        assert((w + x).drop_first() == w.drop_first() + x);
        lemma_trim_start_ws_prefix(w.drop_first(), x);
    } else {
        assert(w + x == x);
    }
}

proof fn lemma_trim_end_ws_suffix(x: Seq<char>, w: Seq<char>)
    requires
        forall|i: int| 0 <= i < w.len() ==> is_white_space(#[trigger] w[i]),
    ensures
        trim_end_chars(x + w) == trim_end_chars(x),
    decreases w.len(),
{
    if w.len() > 0 {
        assert((x + w).last() == w.last());
        assert((x + w).drop_last() == x + w.drop_last());
        lemma_trim_end_ws_suffix(x, w.drop_last());
    } else {
        assert(x + w == x);
    }
}

/// Whitespace around a text that neither starts nor ends with whitespace is
/// what trimming removes.
proof fn lemma_trimmed_between(w1: Seq<char>, x: Seq<char>, w2: Seq<char>)
    requires
        forall|i: int| 0 <= i < w1.len() ==> is_white_space(#[trigger] w1[i]),
        forall|i: int| 0 <= i < w2.len() ==> is_white_space(#[trigger] w2[i]),
        x.len() > 0,
        !is_white_space(x[0]),
        !is_white_space(x.last()),
    ensures
        trimmed(w1 + x + w2) == x,
{
    assert(w1 + x + w2 == w1 + (x + w2));
    lemma_trim_start_ws_prefix(w1, x + w2);
    assert((x + w2)[0] == x[0]);
    assert(trim_start_chars(x + w2) == x + w2);
    lemma_trim_end_ws_suffix(x, w2);
    assert(trim_end_chars(x) == x);
}


/// The separator between two field lines as the body sees it once the
/// indentation of the lines is counted in.
pub open spec fn line_break() -> Seq<char> {
    seq!['\n', ' ', ' ', ' ', ' ']
}

/// The field at `k` of a body whose fields `cores` are joined by a comma and
/// a line break: the first as it stands, the others after the line break.
pub open spec fn piece_of(cores: Seq<Seq<char>>, k: int) -> Seq<char> {
    if k == 0 {
        cores[0]
    } else {
        line_break() + cores[k]
    }
}

/// Joining parts that share a prefix.
proof fn lemma_join_prefixed(parts: Seq<Seq<char>>, cores: Seq<Seq<char>>, pre: Seq<char>, sep: Seq<char>)
    requires
        parts.len() == cores.len(),
        parts.len() >= 1,
        forall|i: int| 0 <= i < parts.len() ==> #[trigger] parts[i] == pre + cores[i],
    ensures
        join_with(parts, sep) == pre + join_with(cores, sep + pre),
    decreases parts.len(),
{
    if parts.len() > 1 {
        lemma_join_prefixed(parts.drop_last(), cores.drop_last(), pre, sep);
        assert(parts.last() == pre + cores.last());
        assert(join_with(parts, sep) == join_with(parts.drop_last(), sep) + sep + parts.last());
        assert(join_with(cores, sep + pre) == join_with(cores.drop_last(), sep + pre) + (sep + pre)
            + cores.last());
        assert(pre + join_with(cores.drop_last(), sep + pre) + sep + (pre + cores.last()) == pre + (
        join_with(cores.drop_last(), sep + pre) + (sep + pre) + cores.last()));
    } else {
        assert(parts[0] == pre + cores[0]);
    }
}

/// The first and last characters of a join come from the first and last
/// parts.
proof fn lemma_join_ends(cores: Seq<Seq<char>>, sep: Seq<char>)
    requires
        cores.len() >= 1,
        forall|i: int| 0 <= i < cores.len() ==> (#[trigger] cores[i]).len() > 0,
    ensures
        join_with(cores, sep).len() > 0,
        join_with(cores, sep)[0] == cores[0][0],
        join_with(cores, sep).last() == cores.last().last(),
    decreases cores.len(),
{
    if cores.len() > 1 {
        lemma_join_ends(cores.drop_last(), sep);
        let j = join_with(cores.drop_last(), sep);
        assert(join_with(cores, sep) == j + sep + cores.last());
        assert((j + sep + cores.last())[0] == j[0]);
        assert(cores.drop_last()[0] == cores[0]);
    }
}

/// Scanning fields joined by a comma and a line break cuts them apart again.
proof fn lemma_scan_join(cores: Seq<Seq<char>>, m: int)
    requires
        1 <= m <= cores.len(),
        forall|i: int| 0 <= i < cores.len() ==> all_plain(#[trigger] cores[i]),
    ensures
        ({
            let s = join_with(cores.take(m), seq![','] + line_break());
            let scan = split_scan(s);
            &&& scan.1 == 0
            &&& 0 <= scan.2 <= s.len()
            &&& scan.0.len() == m - 1
            &&& forall|k: int| 0 <= k < m - 1 ==> #[trigger] scan.0[k] == piece_of(cores, k)
            &&& s.subrange(scan.2, s.len() as int) == piece_of(cores, m - 1)
        }),
    decreases m,
{
    let sep = seq![','] + line_break();
    let s = join_with(cores.take(m), sep);
    lemma_split_scan_bounds(s);
    if m == 1 {
        assert(cores.take(1)[0] == cores[0]);
        assert(s == cores[0]);
        lemma_scan_plain(Seq::empty(), cores[0]);
        assert(Seq::<char>::empty() + cores[0] == cores[0]);
        assert(s.subrange(0, s.len() as int) == s);
    } else {
        lemma_scan_join(cores, m - 1);
        let prev = join_with(cores.take(m - 1), sep);
        let pscan = split_scan(prev);
        assert(cores.take(m).drop_last() == cores.take(m - 1));
        assert(cores.take(m).last() == cores[m - 1]);
        assert(s == prev + sep + cores[m - 1]);
        let tail = line_break() + cores[m - 1];
        assert(s == prev.push(',') + tail);
        lemma_scan_comma(prev);
        assert(all_plain(tail)) by {
            assert forall|i: int| 0 <= i < tail.len() implies is_plain(#[trigger] tail[i]) by {
                if i >= 5 {
                    assert(tail[i] == cores[m - 1][i - 5]);
                }
            }
        }
        lemma_scan_plain(prev.push(','), tail);
        let scan = split_scan(s);
        assert(scan.0 == pscan.0.push(prev.subrange(pscan.2, prev.len() as int)));
        assert(scan.2 == prev.len() + 1);
        assert(s.subrange(scan.2, s.len() as int) == tail);
        assert forall|k: int| 0 <= k < m - 1 implies #[trigger] scan.0[k] == piece_of(cores, k) by {
            if k < m - 2 {
                assert(scan.0[k] == pscan.0[k]);
            }
        }
    }
}


/// The line of field `k` without its indentation.
pub open spec fn core_line(t: Theme, k: int) -> Seq<char> {
    field_name(k) + ": \""@ + color_name(color_at(t, k)) + "\""@
}

proof fn lemma_color_name_plain(c: Color)
    ensures
        all_plain(color_name(c)),
        color_name(c).len() > 0,
{
    reveal_strlit("Reset");
    reveal_strlit("Black");
    reveal_strlit("Red");
    reveal_strlit("Green");
    reveal_strlit("Yellow");
    reveal_strlit("Blue");
    reveal_strlit("Magenta");
    reveal_strlit("Cyan");
    reveal_strlit("White");
    reveal_strlit("DarkGray");
    reveal_strlit("LightRed");
    reveal_strlit("LightGreen");
    reveal_strlit("LightYellow");
    reveal_strlit("LightBlue");
    reveal_strlit("LightMagenta");
    reveal_strlit("LightCyan");
}

proof fn lemma_core_line_facts(t: Theme, k: int)
    requires
        0 <= k < field_count(),
    ensures
        core_line(t, k).len() > 0,
        all_plain(core_line(t, k)),
        !is_white_space(core_line(t, k)[0]),
        core_line(t, k).last() == '"',
{
    lemma_field_name_facts(k);
    lemma_color_name_plain(color_at(t, k));
    reveal_strlit(": \"");
    reveal_strlit("\"");
    let name = field_name(k);
    let cn = color_name(color_at(t, k));
    let f = core_line(t, k);
    let l = name.len() as int;
    assert forall|i: int| 0 <= i < f.len() implies is_plain(#[trigger] f[i]) by {
        if i < l {
            assert(f[i] == name[i]);
        } else if i < l + 3 {
        } else if i < l + 3 + cn.len() {
            assert(f[i] == cn[i - l - 3]);
        }
    }
    assert(f[0] == name[0]);
}

/// The field of the body that holds field `k` of the theme sets that field
/// to the theme's colour, and reading its value cannot fail.
proof fn lemma_field_effect(t: Theme, th: Theme, k: int, field: Seq<char>)
    requires
        0 <= k < field_count(),
        trimmed(field) == core_line(t, k),
        is_nameable(color_at(t, k)),
    ensures
        field_effect(th, field) == with_color(th, k, color_at(t, k)),
        !field_value_fails(field),
{
    lemma_field_name_facts(k);
    reveal_strlit(": \"");
    reveal_strlit("\"");
    let c = color_at(t, k);
    let name = field_name(k);
    let cn = color_name(c);
    let f = core_line(t, k);
    let l = name.len() as int;
    assert(f[l] == ':');
    assert forall|q: int| 0 <= q < l implies f[q] != ':' by {
        assert(f[q] == name[q]);
    }
    lemma_first_index_unique(f, ':', l);
    assert(f.take(l) == name);
    lemma_trimmed_unchanged(name);
    assert(trim_quotes_start(name) == name);
    assert(trim_quotes_end(name) == name);
    let x = seq!['"'] + cn + seq!['"'];
    assert(f.skip(l + 1) == seq![' '] + x + Seq::<char>::empty());
    lemma_color_name_plain(c);
    lemma_trimmed_between(seq![' '], x, Seq::<char>::empty());
    lemma_trimmed_unchanged(x);
    assert(x.subrange(1, x.len() - 1) == cn);
    lemma_color_round_trip(c);
}

proof fn lemma_with_color_at(th: Theme, k: int, c: Color, i: int)
    requires
        0 <= k < field_count(),
        0 <= i < field_count(),
    ensures
        color_at(with_color(th, k, c), i) == (if i == k { c } else { color_at(th, i) }),
{
}

/// Two themes with the same colour in every field are the same theme.
proof fn lemma_theme_ext(a: Theme, b: Theme)
    requires
        forall|i: int| 0 <= i < field_count() ==> color_at(a, i) == color_at(b, i),
    ensures
        a == b,
{
    assert(color_at(a, 0) == color_at(b, 0));
    assert(color_at(a, 1) == color_at(b, 1));
    assert(color_at(a, 2) == color_at(b, 2));
    assert(color_at(a, 3) == color_at(b, 3));
    assert(color_at(a, 4) == color_at(b, 4));
    assert(color_at(a, 5) == color_at(b, 5));
    assert(color_at(a, 6) == color_at(b, 6));
    assert(color_at(a, 7) == color_at(b, 7));
    assert(color_at(a, 8) == color_at(b, 8));
    assert(color_at(a, 9) == color_at(b, 9));
    assert(color_at(a, 10) == color_at(b, 10));
    assert(color_at(a, 11) == color_at(b, 11));
    assert(color_at(a, 12) == color_at(b, 12));
    assert(color_at(a, 13) == color_at(b, 13));
    assert(color_at(a, 14) == color_at(b, 14));
    assert(color_at(a, 15) == color_at(b, 15));
    assert(color_at(a, 16) == color_at(b, 16));
    assert(color_at(a, 17) == color_at(b, 17));
    assert(color_at(a, 18) == color_at(b, 18));
    assert(color_at(a, 19) == color_at(b, 19));
    assert(color_at(a, 20) == color_at(b, 20));
    assert(color_at(a, 21) == color_at(b, 21));
    assert(color_at(a, 22) == color_at(b, 22));
    assert(color_at(a, 23) == color_at(b, 23));
    assert(color_at(a, 24) == color_at(b, 24));
    assert(color_at(a, 25) == color_at(b, 25));
    assert(color_at(a, 26) == color_at(b, 26));
    assert(color_at(a, 27) == color_at(b, 27));
    assert(color_at(a, 28) == color_at(b, 28));
    assert(color_at(a, 29) == color_at(b, 29));
    assert(color_at(a, 30) == color_at(b, 30));
    assert(color_at(a, 31) == color_at(b, 31));
}

/// Applying the first `m` fields of the body gives the theme's colours to
/// the first `m` fields and leaves the others as the dark theme has them.
proof fn lemma_apply_prefix(t: Theme, fields: Seq<Seq<char>>, m: int)
    requires
        fields.len() == field_count(),
        0 <= m <= field_count(),
        forall|k: int| 0 <= k < field_count() ==> trimmed(#[trigger] fields[k]) == core_line(t, k),
        forall|i: int| 0 <= i < field_count() ==> is_nameable(#[trigger] color_at(t, i)),
    ensures
        forall|i: int|
            0 <= i < field_count() ==> #[trigger] color_at(apply_fields(dark_theme(), fields.take(m)), i)
                == if i < m {
                color_at(t, i)
            } else {
                color_at(dark_theme(), i)
            },
    decreases m,
{
    if m == 0 {
        assert(fields.take(0).len() == 0);
    } else {
        lemma_apply_prefix(t, fields, m - 1);
        let prev = apply_fields(dark_theme(), fields.take(m - 1));
        assert(fields.take(m).drop_last() == fields.take(m - 1));
        assert(fields.take(m).last() == fields[m - 1]);
        assert(trimmed(fields[m - 1]) == core_line(t, m - 1));
        assert(is_nameable(color_at(t, m - 1)));
        lemma_field_effect(t, prev, m - 1, fields[m - 1]);
        assert forall|i: int| 0 <= i < field_count() implies #[trigger] color_at(
            apply_fields(dark_theme(), fields.take(m)),
            i,
        ) == if i < m {
            color_at(t, i)
        } else {
            color_at(dark_theme(), i)
        } by {
            lemma_with_color_at(prev, m - 1, color_at(t, m - 1), i);
        }
    }
}


/// Writing a theme as a theme text and reading that text back gives the
/// same theme, and the reading cannot fail, whenever every colour of the
/// theme can be written down (the format has no name for `Gray` or for the
/// palette entries).
pub proof fn lemma_theme_text_round_trip(t: Theme)
    requires
        forall|i: int| 0 <= i < field_count() ==> is_nameable(#[trigger] color_at(t, i)),
    ensures
        !ron_value_fails(spec_to_ron(t)),
        spec_from_ron(spec_to_ron(t)) == Ok::<Theme, ThemeError>(t),
{
    reveal_strlit("    ");
    reveal_strlit(",\n");
    reveal_strlit("(\n");
    reveal_strlit("\n)");
    reveal_strlit(": \"");
    reveal_strlit("\"");
    let cores = Seq::new(field_count() as nat, |k: int| core_line(t, k));
    let lines = theme_lines(t);
    assert forall|i: int| 0 <= i < lines.len() implies #[trigger] lines[i] == "    "@ + cores[i] by {
        assert(lines[i] == field_line(t, i));
    }
    lemma_join_prefixed(lines, cores, "    "@, ",\n"@);
    let sep = seq![','] + line_break();
    assert(",\n"@ + "    "@ == sep);
    let body = join_with(cores, sep);
    assert forall|k: int| 0 <= k < cores.len() implies (#[trigger] cores[k]).len() > 0 && all_plain(
        cores[k],
    ) && !is_white_space(cores[k][0]) && cores[k].last() == '"' by {
        lemma_core_line_facts(t, k);
    }
    lemma_join_ends(cores, sep);
    let text = spec_to_ron(t);
    assert(text == "(\n"@ + ("    "@ + body) + "\n)"@);
    assert(text[0] == '(');
    assert(text.last() == ')');
    lemma_trimmed_unchanged(text);
    assert(text.subrange(1, text.len() - 1) == line_break() + body + seq!['\n']);
    lemma_trimmed_between(line_break(), body, seq!['\n']);
    assert(ron_body(text) == Some(body));
    lemma_scan_join(cores, field_count());
    assert(cores.take(field_count()) == cores);
    let scan = split_scan(body);
    let last = piece_of(cores, field_count() - 1);
    assert(last + Seq::<char>::empty() == last);
    lemma_trimmed_between(line_break(), cores[field_count() - 1], Seq::<char>::empty());
    assert(line_break() + cores[field_count() - 1] + Seq::<char>::empty() == last);
    let fields = ron_fields(body);
    assert(fields == scan.0.push(cores[field_count() - 1]));
    assert forall|k: int| 0 <= k < field_count() implies trimmed(#[trigger] fields[k]) == core_line(
        t,
        k,
    ) by {
        if k == field_count() - 1 {
            lemma_core_line_facts(t, k);
            lemma_trimmed_unchanged(cores[k]);
        } else if k == 0 {
            assert(fields[0] == scan.0[0]);
            lemma_core_line_facts(t, 0);
            lemma_trimmed_unchanged(cores[0]);
        } else {
            assert(fields[k] == scan.0[k]);
            assert(line_break() + cores[k] + Seq::<char>::empty() == line_break() + cores[k]);
            lemma_trimmed_between(line_break(), cores[k], Seq::<char>::empty());
        }
    }
    lemma_apply_prefix(t, fields, field_count());
    assert(fields.take(field_count()) == fields);
    lemma_theme_ext(apply_fields(dark_theme(), fields), t);
    assert forall|k: int| 0 <= k < fields.len() implies !(#[trigger] field_value_fails(fields[k])) by {
        lemma_field_effect(t, dark_theme(), k, fields[k]);
    }
}

} // verus!
