//! The status tab: the staged and the unstaged changes as one list with a
//! cursor, staged entries first.

use crate::git::{StatusEntry, StatusType};
use crate::nav::{last_index, min_nat, sat_sub};
use crate::theme::{bold_fg_style, fg_style, Style, Theme};
use crate::wrap::{piece_views, push_spaces, row_views, spaces};
use vstd::prelude::*;

verus! {

pub struct StatusTab {
    pub staged: Vec<StatusEntry>,
    pub unstaged: Vec<StatusEntry>,
    pub selected: usize,
    pub scroll: usize,
    pub focus_staged: bool,
}

impl StatusTab {
    /// The staged entries followed by the unstaged ones.
    pub open spec fn spec_all_items(&self) -> Seq<StatusEntry> {
        self.staged@ + self.unstaged@
    }

    /// An empty status list, focused on the staged side.
    pub fn new() -> (r: Self)
        ensures
            r.staged@.len() == 0,
            r.unstaged@.len() == 0,
            r.selected == 0,
            r.scroll == 0,
            r.focus_staged,
    {
        StatusTab { staged: Vec::new(), unstaged: Vec::new(), selected: 0, scroll: 0, focus_staged: true }
    }

    /// Replaces both lists with a freshly read status (where reading
    /// worked) and goes back to the top.
    pub fn refresh(&mut self, status: Option<(Vec<StatusEntry>, Vec<StatusEntry>)>)
        ensures
            *final(self) == match status {
                Some(s) => StatusTab { staged: s.0, unstaged: s.1, selected: 0, scroll: 0, ..*old(self) },
                None => *old(self),
            },
    {
        if let Some((staged, unstaged)) = status {
            self.staged = staged;
            self.unstaged = unstaged;
            self.selected = 0;
            self.scroll = 0;
        }
    }

    /// The number of entries in both lists.
    pub fn total_items(&self) -> (r: usize)
        requires
            self.staged@.len() + self.unstaged@.len() <= usize::MAX,
        ensures
            r == self.staged@.len() + self.unstaged@.len(),
    {
        self.staged.len() + self.unstaged.len()
    }

    /// The path of the selected entry.
    pub fn current_file(&self) -> (r: Option<String>)
        ensures
            r is Some <==> self.selected < self.spec_all_items().len(),
            r matches Some(p) ==> p@ == self.spec_all_items()[self.selected as int].path@,
    {
        let all = self.all_items();
        if self.selected < all.len() {
            Some(all[self.selected].path.clone())
        } else {
            None
        }
    }

    /// Whether the selected entry is a staged one.
    pub fn current_staged(&self) -> (r: bool)
        ensures
            r == (self.selected < self.staged@.len()),
    {
        if self.selected < self.staged.len() {
            true
        } else {
            false
        }
    }

    fn all_items(&self) -> (r: Vec<&StatusEntry>)
        ensures
            r@.len() == self.spec_all_items().len(),
            forall|i: int| 0 <= i < r@.len() ==> *#[trigger] r@[i] == self.spec_all_items()[i],
    {
        let mut items: Vec<&StatusEntry> = Vec::new();
        let mut k: usize = 0;
        while k < self.staged.len()
            invariant
                k <= self.staged@.len(),
                items@.len() == k,
                forall|i: int| 0 <= i < k ==> *#[trigger] items@[i] == self.staged@[i],
            decreases self.staged@.len() - k,
        {
            items.push(&self.staged[k]);
            k = k + 1;
        }
        let mut k: usize = 0;
        while k < self.unstaged.len()
            invariant
                k <= self.unstaged@.len(),
                items@.len() == self.staged@.len() + k,
                forall|i: int| 0 <= i < self.staged@.len() ==> *#[trigger] items@[i] == self.staged@[i],
                forall|i: int|
                    0 <= i < k ==> *#[trigger] items@[self.staged@.len() + i] == self.unstaged@[i],
            decreases self.unstaged@.len() - k,
        {
            items.push(&self.unstaged[k]);
            k = k + 1;
        }
        proof {
            assert forall|i: int| 0 <= i < items@.len() implies *#[trigger] items@[i]
                == self.spec_all_items()[i] by {
                if i >= self.staged@.len() {
                    let j = i - self.staged@.len();
                    assert(*items@[self.staged@.len() + j] == self.unstaged@[j]);
                }
            }
        }
        items
    }

    /// The tab after one entry down, stopping at the last one.
    pub open spec fn spec_move_down(self) -> StatusTab {
        StatusTab {
            selected: min_nat((self.selected + 1) as nat, last_index(self.spec_all_items().len())) as usize,
            ..self
        }
    }

    /// The tab after one entry up, stopping at the first one.
    pub open spec fn spec_move_up(self) -> StatusTab {
        StatusTab { selected: sat_sub(self.selected as nat, 1) as usize, ..self }
    }

    /// One entry down, stopping at the last one.
    pub fn move_down(&mut self)
        requires
            old(self).staged@.len() + old(self).unstaged@.len() <= usize::MAX,
            old(self).selected < usize::MAX,
        ensures
            *final(self) == old(self).spec_move_down(),
    {
        let max = self.total_items().saturating_sub(1);
        self.selected = if self.selected + 1 < max { self.selected + 1 } else { max };
    }

    /// One entry up, stopping at the first one.
    pub fn move_up(&mut self)
        ensures
            *final(self) == old(self).spec_move_up(),
    {
        self.selected = self.selected.saturating_sub(1);
    }
}

/// One entry down and one up again returns to the same entry, with the
/// lists and the scroll position untouched, unless the selection was on
/// the last entry.
pub proof fn lemma_status_down_then_up(t: StatusTab)
    requires
        t.staged@.len() + t.unstaged@.len() <= usize::MAX,
        t.selected + 1 < t.staged@.len() + t.unstaged@.len(),
    ensures
        t.spec_move_down().spec_move_up() == t,
{
}

/// The letter that marks a status in the list.
pub open spec fn spec_status_char(st: StatusType) -> Seq<char> {
    match st {
        StatusType::Added => "A"@,
        StatusType::Modified => "M"@,
        StatusType::Deleted => "D"@,
        StatusType::Renamed => "R"@,
        StatusType::Copied => "C"@,
        StatusType::Untracked => "?"@,
        StatusType::TypeChange => "T"@,
    }
}

pub fn status_char(st: &StatusType) -> (r: &'static str)
    ensures
        r@ == spec_status_char(*st),
{
    match st {
        StatusType::Added => "A",
        StatusType::Modified => "M",
        StatusType::Deleted => "D",
        StatusType::Renamed => "R",
        StatusType::Copied => "C",
        StatusType::Untracked => "?",
        StatusType::TypeChange => "T",
    }
}

/// The look of a status entry: the staged colour, or by its status the
/// untracked, modified or plain entry colour; on the selection colours
/// where it is selected.
pub open spec fn spec_status_style(entry: StatusEntry, selected: bool, theme: Theme) -> Style {
    let base = if entry.staged {
        fg_style(theme.file_entry_staged)
    } else {
        fg_style(
            match entry.status {
                StatusType::Untracked => theme.file_entry_untracked,
                StatusType::Modified => theme.file_entry_modified,
                _ => theme.file_entry,
            },
        )
    };
    if selected {
        Style { fg: Some(theme.selection_fg), bg: Some(theme.selection_bg), ..base }
    } else {
        base
    }
}

pub fn status_style(entry: &StatusEntry, selected: bool, theme: &Theme) -> (s: Style)
    ensures
        s == spec_status_style(*entry, selected, *theme),
{
    let base = if entry.staged {
        Style { fg: Some(theme.file_entry_staged), bg: None, bold: false }
    } else {
        let fg = match entry.status {
            StatusType::Untracked => theme.file_entry_untracked,
            StatusType::Modified => theme.file_entry_modified,
            _ => theme.file_entry,
        };
        Style { fg: Some(fg), bg: None, bold: false }
    };
    if selected {
        theme.selected_on(base)
    } else {
        base
    }
}

/// The mark in front of a list row: `>` on the selected one.
pub open spec fn row_marker(selected: bool) -> Seq<char> {
    if selected {
        ">"@
    } else {
        " "@
    }
}

/// `s` padded with spaces to `w` characters, as `{:w$}` writes it.
pub open spec fn pad_to(s: Seq<char>, w: nat) -> Seq<char> {
    if s.len() >= w {
        s
    } else {
        s + spaces((w - s.len()) as nat)
    }
}

/// The text of a status row: the mark, the status letter and the path,
/// the path padded to the panel's width on the selected row.
pub open spec fn status_row_text(entry: StatusEntry, selected: bool, width: nat) -> Seq<char> {
    " "@ + row_marker(selected) + " "@ + spec_status_char(entry.status) + " "@ + (if selected {
        pad_to(entry.path@, width)
    } else {
        entry.path@
    })
}

/// The rows of the entries, the first of them at list position `offset`.
pub open spec fn status_rows(
    entries: Seq<StatusEntry>,
    offset: int,
    selected: int,
    width: nat,
    theme: Theme,
) -> Seq<Seq<(Seq<char>, Style)>> {
    Seq::new(
        entries.len(),
        |i: int|
            seq![
                (
                    status_row_text(entries[i], offset + i == selected, width),
                    spec_status_style(entries[i], offset + i == selected, theme),
                ),
            ],
    )
}

/// A list section: its title row and its rows, or nothing for no entries.
pub open spec fn status_section(
    title: Seq<char>,
    entries: Seq<StatusEntry>,
    offset: int,
    selected: int,
    width: nat,
    theme: Theme,
) -> Seq<Seq<(Seq<char>, Style)>> {
    if entries.len() == 0 {
        Seq::empty()
    } else {
        seq![seq![(title, bold_fg_style(theme.title_fg))]] + status_rows(entries, offset, selected, width, theme)
    }
}

/// A status row as a text.
fn status_row(entry: &StatusEntry, selected: bool, width: usize) -> (r: String)
    ensures
        r@ == status_row_text(*entry, selected, width as nat),
{
    let mut text = String::from_str(" ");
    text.append(if selected {
        ">"
    } else {
        " "
    });
    text.append(" ");
    text.append(status_char(&entry.status));
    text.append(" ");
    text.append(entry.path.as_str());
    if selected {
        let len = entry.path.as_str().unicode_len();
        if len < width {
            push_spaces(&mut text, width - len);
        }
    }
    text
}

fn push_status_section(
    lines: &mut Vec<Vec<(String, Style)>>,
    title: &str,
    entries: &Vec<StatusEntry>,
    offset: usize,
    selected: usize,
    width: usize,
    theme: &Theme,
)
    requires
        offset + entries@.len() <= usize::MAX,
    ensures
        row_views(final(lines)@) == row_views(old(lines)@) + status_section(
            title@,
            entries@,
            offset as int,
            selected as int,
            width as nat,
            *theme,
        ),
{
    if entries.len() == 0 {
        proof {
            assert(row_views(lines@) + Seq::<Seq<(Seq<char>, Style)>>::empty() =~= row_views(lines@));
        }
        return;
    }
    let ghost start = row_views(lines@);
    let head = vec![(String::from_str(title), theme.title())];
    proof {
        assert(piece_views(head@) =~= seq![(title@, bold_fg_style(theme.title_fg))]);
        assert(row_views(lines@.push(head)) =~= row_views(lines@).push(piece_views(head@)));
    }
    lines.push(head);
    let mut i: usize = 0;
    while i < entries.len()
        invariant
            offset + entries@.len() <= usize::MAX,
            i <= entries@.len(),
            row_views(lines@) == start + seq![seq![(title@, bold_fg_style(theme.title_fg))]] + status_rows(
                entries@,
                offset as int,
                selected as int,
                width as nat,
                *theme,
            ).take(i as int),
        decreases entries@.len() - i,
    {
        let is_selected = offset + i == selected;
        let row = vec![(status_row(&entries[i], is_selected, width), status_style(&entries[i], is_selected, theme))];
        proof {
            let rows = status_rows(entries@, offset as int, selected as int, width as nat, *theme);
            assert(piece_views(row@) =~= rows[i as int]);
            assert(rows.take(i + 1) =~= rows.take(i as int).push(rows[i as int]));
            assert(row_views(lines@.push(row)) =~= row_views(lines@).push(piece_views(row@)));
        }
        lines.push(row);
        i = i + 1;
    }
    proof {
        let rows = status_rows(entries@, offset as int, selected as int, width as nat, *theme);
        assert(rows.take(entries@.len() as int) =~= rows);
    }
}

impl StatusTab {
    /// The rows of the status panel for a panel `width` characters wide:
    /// a titled section for the staged entries and one for the unstaged
    /// ones, each left out where it is empty, or a single row saying that
    /// the tree is clean.
    pub fn lines(&self, width: usize, theme: &Theme) -> (lines: Vec<Vec<(String, Style)>>)
        requires
            self.staged@.len() + self.unstaged@.len() <= usize::MAX,
        ensures
            row_views(lines@) == if self.staged@.len() + self.unstaged@.len() == 0 {
                seq![seq![(" (clean)"@, fg_style(theme.dim_text))]]
            } else {
                status_section(" Staged:"@, self.staged@, 0, self.selected as int, width as nat, *theme)
                    + status_section(
                    " Unstaged:"@,
                    self.unstaged@,
                    self.staged@.len() as int,
                    self.selected as int,
                    width as nat,
                    *theme,
                )
            },
    {
        let mut lines: Vec<Vec<(String, Style)>> = Vec::new();
        proof {
            assert(row_views(lines@) =~= Seq::<Seq<(Seq<char>, Style)>>::empty());
        }
        push_status_section(&mut lines, " Staged:", &self.staged, 0, self.selected, width, theme);
        push_status_section(&mut lines, " Unstaged:", &self.unstaged, self.staged.len(), self.selected, width, theme);
        if lines.len() == 0 {
            let row = vec![(String::from_str(" (clean)"), theme.dim_text())];
            proof {
                assert(piece_views(row@) =~= seq![(" (clean)"@, fg_style(theme.dim_text))]);
                assert(row_views(lines@.push(row)) =~= row_views(lines@).push(piece_views(row@)));
            }
            lines.push(row);
            proof {
                if self.staged@.len() + self.unstaged@.len() != 0 {
                    assert(false);
                }
            }
        } else {
            proof {
                assert(Seq::<Seq<(Seq<char>, Style)>>::empty() + status_section(" Staged:"@, self.staged@, 0, self.selected as int, width as nat, *theme)
                    =~= status_section(" Staged:"@, self.staged@, 0, self.selected as int, width as nat, *theme));
            }
        }
        lines
    }
}

} // verus!
