//! The decisions of the log tab: its levels of depth, the sliding window of
//! commits whose details are loaded, and the scroll position of the commit
//! list within that window.

use crate::nav::{
    last_index, min_nat, sat_sub, spec_visible_scroll, step_fits, visible_fits, visible_scroll,
};
use crate::git::{string_views, CommitInfo, StatusType};
use crate::status_tab::row_marker;
use crate::theme::{bold_fg_style, fg_style, selection_style, Color, Style, Theme};
use crate::wrap::{decimal, decimal_text, piece_views, row_views};
use vstd::prelude::*;

verus! {

/// How many commits the window of loaded details holds.
pub const SLICE_SIZE: usize = 1200;

/// How close the selection may come to an end of the window before it is
/// moved.
pub const SLICE_OFFSET_RELOAD_THRESHOLD: usize = 100;

#[derive(Clone, Copy, Debug, PartialEq, Eq, PartialOrd, Ord, Structural)]
pub enum LogDepth {
    Commits,
    Details,
    FilesDiff,
    Diff,
}

/// Entering the next level: from the commits when there are any, from the
/// details and the file list when there are files; never past the diff.
pub open spec fn spec_log_enter(depth: LogDepth, has_commits: bool, has_files: bool) -> (bool, LogDepth) {
    match depth {
        LogDepth::Commits => if has_commits {
            (true, LogDepth::Details)
        } else {
            (false, depth)
        },
        LogDepth::Details => if has_files {
            (true, LogDepth::FilesDiff)
        } else {
            (false, depth)
        },
        LogDepth::FilesDiff => if has_files {
            (true, LogDepth::Diff)
        } else {
            (false, depth)
        },
        LogDepth::Diff => (false, depth),
    }
}

/// Going back one level; the commit list stays the commit list.
pub open spec fn spec_log_back(depth: LogDepth) -> LogDepth {
    match depth {
        LogDepth::Commits => LogDepth::Commits,
        LogDepth::Details => LogDepth::Commits,
        LogDepth::FilesDiff => LogDepth::Details,
        LogDepth::Diff => LogDepth::FilesDiff,
    }
}

impl LogDepth {
    /// The level after entering, and whether it changed.
    pub fn enter(self, has_commits: bool, has_files: bool) -> (r: (bool, LogDepth))
        ensures
            r == spec_log_enter(self, has_commits, has_files),
    {
        match self {
            LogDepth::Commits => if has_commits {
                (true, LogDepth::Details)
            } else {
                (false, self)
            },
            LogDepth::Details => if has_files {
                (true, LogDepth::FilesDiff)
            } else {
                (false, self)
            },
            LogDepth::FilesDiff => if has_files {
                (true, LogDepth::Diff)
            } else {
                (false, self)
            },
            LogDepth::Diff => (false, self),
        }
    }

    /// The level after going back.
    pub fn back(self) -> (r: LogDepth)
        ensures
            r == spec_log_back(self),
    {
        match self {
            LogDepth::Commits => LogDepth::Commits,
            LogDepth::Details => LogDepth::Commits,
            LogDepth::FilesDiff => LogDepth::Details,
            LogDepth::Diff => LogDepth::FilesDiff,
        }
    }
}

/// Below the commit list, going back a level and entering again returns to
/// the same level when there are commits and files: every level can be
/// reached again from the one before it.
pub proof fn lemma_log_back_then_enter(depth: LogDepth)
    requires
        depth != LogDepth::Commits,
    ensures
        spec_log_enter(spec_log_back(depth), true, true) == (true, depth),
{
}

/// Going one level deeper and back again returns to the same level.
pub proof fn lemma_log_enter_then_back(depth: LogDepth, has_commits: bool, has_files: bool)
    ensures
        spec_log_enter(depth, has_commits, has_files).0 ==> spec_log_back(
            spec_log_enter(depth, has_commits, has_files).1,
        ) == depth,
        !spec_log_enter(depth, has_commits, has_files).0 ==> spec_log_enter(
            depth,
            has_commits,
            has_files,
        ).1 == depth,
{
}

/// The first commit of the window of `SLICE_SIZE` commits centred on the
/// selection, kept inside the list.
pub open spec fn spec_window_start(selected: nat, total: nat) -> nat {
    let half = (SLICE_SIZE / 2) as nat;
    let want_min = if selected > half {
        (selected - half) as nat
    } else {
        0
    };
    min_nat(want_min, sat_sub(total, SLICE_SIZE as nat))
}

/// The window of commits to load around the selection, as its first index
/// and its length. An empty list has an empty window.
pub fn commit_window(selected: usize, total: usize) -> (r: (usize, usize))
    ensures
        total == 0 ==> r == (0usize, 0usize),
        total > 0 ==> r.0 == spec_window_start(selected as nat, total as nat) && r.1 == min_nat(
            SLICE_SIZE as nat,
            (total - r.0) as nat,
        ),
        r.0 + r.1 <= total,
{
    if total == 0 {
        return (0, 0);
    }
    let half = SLICE_SIZE / 2;
    let want_min = if selected > half {
        selected - half
    } else {
        0
    };
    let limit = total.saturating_sub(SLICE_SIZE);
    let want_min = if want_min < limit { want_min } else { limit };
    let rest = total - want_min;
    let want_count = if SLICE_SIZE < rest { SLICE_SIZE } else { rest };
    (want_min, want_count)
}

/// The window around a selection inside the list contains the selection.
pub proof fn lemma_window_contains_selection(selected: nat, total: nat)
    requires
        selected < total,
    ensures
        ({
            let start = spec_window_start(selected, total);
            let count = min_nat(SLICE_SIZE as nat, (total - start) as nat);
            start <= selected < start + count
        }),
{
}

/// Whether the window of loaded commits must move: there are commits but
/// none loaded, or the selection is within the threshold of either end of
/// the window.
pub open spec fn spec_needs_reload(total: nat, display_offset: nat, display_len: nat, selected: nat) -> bool {
    if total == 0 {
        false
    } else if display_len == 0 {
        true
    } else {
        let end = display_offset + display_len;
        let thr = SLICE_OFFSET_RELOAD_THRESHOLD as nat;
        selected < display_offset + thr || selected >= sat_sub(end, thr)
    }
}

pub fn needs_reload(total: usize, display_offset: usize, display_len: usize, selected: usize) -> (r: bool)
    requires
        display_offset + display_len + SLICE_OFFSET_RELOAD_THRESHOLD <= usize::MAX,
    ensures
        r == spec_needs_reload(total as nat, display_offset as nat, display_len as nat, selected as nat),
{
    if total == 0 {
        return false;
    }
    if display_len == 0 {
        return true;
    }
    let end = display_offset + display_len;
    let thr = SLICE_OFFSET_RELOAD_THRESHOLD;
    selected < display_offset + thr || selected >= end.saturating_sub(thr)
}

/// The first visible row of the commit list: the selection's row within the
/// loaded window, scrolled into a view of `height` rows that started at
/// `current`, never past the last full page.
pub open spec fn spec_commit_scroll_top(
    height: nat,
    display_len: nat,
    selected: nat,
    display_offset: nat,
    current: nat,
) -> nat {
    if height == 0 || display_len == 0 {
        0
    } else {
        let max_scroll = sat_sub(display_len, height);
        let local_sel = min_nat(sat_sub(selected, display_offset), sat_sub(display_len, 1));
        let new_scroll = if local_sel < current {
            local_sel
        } else if local_sel >= current + height {
            sat_sub(local_sel, height) + 1
        } else {
            current
        };
        min_nat(new_scroll, max_scroll)
    }
}

pub fn commit_scroll_top(
    height: usize,
    display_len: usize,
    selected: usize,
    display_offset: usize,
    current: usize,
) -> (r: usize)
    requires
        current + height <= usize::MAX,
    ensures
        r == spec_commit_scroll_top(
            height as nat,
            display_len as nat,
            selected as nat,
            display_offset as nat,
            current as nat,
        ),
{
    if height == 0 || display_len == 0 {
        return 0;
    }
    let max_scroll = display_len.saturating_sub(height);
    let local_sel = selected.saturating_sub(display_offset);
    let last = display_len.saturating_sub(1);
    let local_sel = if local_sel < last { local_sel } else { last };
    let new_scroll = if local_sel < current {
        local_sel
    } else if local_sel >= current + height {
        local_sel.saturating_sub(height).saturating_add(1)
    } else {
        current
    };
    if new_scroll < max_scroll {
        new_scroll
    } else {
        max_scroll
    }
}

/// The commit list never scrolls past its last full page, and when the
/// window holds at least a page the selected row is on screen.
pub proof fn lemma_commit_scroll_shows_selection(
    height: nat,
    display_len: nat,
    selected: nat,
    display_offset: nat,
    current: nat,
)
    requires
        height > 0,
        display_len > 0,
    ensures
        ({
            let top = spec_commit_scroll_top(height, display_len, selected, display_offset, current);
            let local_sel = min_nat(sat_sub(selected, display_offset), sat_sub(display_len, 1));
            &&& top <= sat_sub(display_len, height)
            &&& top <= local_sel < top + height
        }),
{
}


/// Where the log tab's cursors stand: the selected commit among all
/// commits, the selected file of that commit and the file list's scroll
/// position, the level of depth, and the heights the renderer last gave the
/// commit list and the file list.
#[derive(Clone, Copy, Debug, PartialEq, Eq, Structural)]
pub struct LogCursor {
    pub commit_count: usize,
    pub selected: usize,
    pub file_count: usize,
    pub file_selected: usize,
    pub file_scroll: usize,
    pub depth: LogDepth,
    pub commit_list_height: usize,
    pub file_list_height: usize,
}

/// A page is the list's height, and at least one row.
pub open spec fn log_page(height: usize) -> nat {
    if height > 0 {
        height as nat
    } else {
        1
    }
}

impl LogCursor {
    /// The commit list, rather than the file list, takes the cursor.
    pub open spec fn on_commits(self) -> bool {
        self.depth == LogDepth::Commits || self.depth == LogDepth::Details
    }

    /// The cursor after putting the selection of the focused list on the
    /// target and, for the file list, scrolling to it; at the diff level
    /// nothing moves.
    pub open spec fn spec_select(self, commit: nat, file: nat) -> LogCursor {
        if self.on_commits() {
            LogCursor { selected: commit as usize, ..self }
        } else if self.depth == LogDepth::FilesDiff {
            LogCursor {
                file_selected: file as usize,
                file_scroll: spec_visible_scroll(file, self.file_scroll as nat, self.file_list_height as nat)
                    as usize,
                ..self
            }
        } else {
            self
        }
    }

    /// Moving `step` rows down stays within `usize`.
    pub open spec fn down_fits(self, step: nat) -> bool {
        if self.on_commits() {
            self.selected + step <= usize::MAX
        } else if self.depth == LogDepth::FilesDiff {
            step_fits(
                self.file_selected as nat,
                step,
                self.file_scroll as nat,
                self.file_list_height as nat,
                self.file_count as nat,
            )
        } else {
            true
        }
    }

    /// Moving `step` rows up stays within `usize`.
    pub open spec fn up_fits(self, step: nat) -> bool {
        self.depth == LogDepth::FilesDiff ==> visible_fits(
            sat_sub(self.file_selected as nat, step),
            self.file_scroll as nat,
            self.file_list_height as nat,
        )
    }

    /// Whether a move of the focused list moves the commit selection, after
    /// which the window of loaded commit details may need to follow.
    pub open spec fn moves_commits(self) -> bool {
        self.on_commits()
    }

    fn select_file(&mut self, target: usize)
        requires
            visible_fits(target as nat, old(self).file_scroll as nat, old(self).file_list_height as nat),
        ensures
            *final(self) == (LogCursor {
                file_selected: target,
                file_scroll: spec_visible_scroll(
                    target as nat,
                    old(self).file_scroll as nat,
                    old(self).file_list_height as nat,
                ) as usize,
                ..*old(self)
            }),
    {
        self.file_selected = target;
        self.file_scroll = visible_scroll(target, self.file_scroll, self.file_list_height);
    }

    /// Moves `step` rows down in the focused list, stopping at its last
    /// item; true when the commit selection is what moved.
    pub fn step_down(&mut self, step: usize) -> (moved_commits: bool)
        requires
            old(self).down_fits(step as nat),
        ensures
            moved_commits == old(self).moves_commits(),
            *final(self) == old(self).spec_select(
                min_nat((old(self).selected + step) as nat, last_index(old(self).commit_count as nat)),
                min_nat((old(self).file_selected + step) as nat, last_index(old(self).file_count as nat)),
            ),
    {
        match self.depth {
            LogDepth::Commits | LogDepth::Details => {
                let max = self.commit_count.saturating_sub(1);
                self.selected = if self.selected + step < max {
                    self.selected + step
                } else {
                    max
                };
                true
            },
            LogDepth::FilesDiff => {
                let max = self.file_count.saturating_sub(1);
                let target = if self.file_selected + step < max {
                    self.file_selected + step
                } else {
                    max
                };
                self.select_file(target);
                false
            },
            LogDepth::Diff => false,
        }
    }

    /// Moves `step` rows up in the focused list, stopping at its first
    /// item; true when the commit selection is what moved.
    pub fn step_up(&mut self, step: usize) -> (moved_commits: bool)
        requires
            old(self).up_fits(step as nat),
        ensures
            moved_commits == old(self).moves_commits(),
            *final(self) == old(self).spec_select(
                sat_sub(old(self).selected as nat, step as nat),
                sat_sub(old(self).file_selected as nat, step as nat),
            ),
    {
        match self.depth {
            LogDepth::Commits | LogDepth::Details => {
                self.selected = self.selected.saturating_sub(step);
                true
            },
            LogDepth::FilesDiff => {
                let target = self.file_selected.saturating_sub(step);
                self.select_file(target);
                false
            },
            LogDepth::Diff => false,
        }
    }

    /// One row down.
    pub fn move_down(&mut self) -> (moved_commits: bool)
        requires
            old(self).down_fits(1),
        ensures
            moved_commits == old(self).moves_commits(),
            *final(self) == old(self).spec_select(
                min_nat((old(self).selected + 1) as nat, last_index(old(self).commit_count as nat)),
                min_nat((old(self).file_selected + 1) as nat, last_index(old(self).file_count as nat)),
            ),
    {
        self.step_down(1)
    }

    /// One row up.
    pub fn move_up(&mut self) -> (moved_commits: bool)
        requires
            old(self).up_fits(1),
        ensures
            moved_commits == old(self).moves_commits(),
            *final(self) == old(self).spec_select(
                sat_sub(old(self).selected as nat, 1),
                sat_sub(old(self).file_selected as nat, 1),
            ),
    {
        self.step_up(1)
    }

    /// The height of the focused list as a page.
    pub fn page(&self) -> (r: usize)
        ensures
            r == (if self.on_commits() {
                log_page(self.commit_list_height)
            } else {
                log_page(self.file_list_height)
            }),
    {
        let h = match self.depth {
            LogDepth::Commits | LogDepth::Details => self.commit_list_height,
            _ => self.file_list_height,
        };
        if h > 0 {
            h
        } else {
            1
        }
    }

    /// To the first item of the focused list.
    pub fn go_home(&mut self) -> (moved_commits: bool)
        requires
            old(self).depth == LogDepth::FilesDiff ==> visible_fits(
                0,
                old(self).file_scroll as nat,
                old(self).file_list_height as nat,
            ),
        ensures
            moved_commits == old(self).moves_commits(),
            *final(self) == old(self).spec_select(0, 0),
    {
        match self.depth {
            LogDepth::Commits | LogDepth::Details => {
                self.selected = 0;
                true
            },
            LogDepth::FilesDiff => {
                self.select_file(0);
                false
            },
            LogDepth::Diff => false,
        }
    }

    /// To the last item of the focused list.
    pub fn go_end(&mut self) -> (moved_commits: bool)
        requires
            old(self).depth == LogDepth::FilesDiff ==> visible_fits(
                last_index(old(self).file_count as nat),
                old(self).file_scroll as nat,
                old(self).file_list_height as nat,
            ),
        ensures
            moved_commits == old(self).moves_commits(),
            *final(self) == old(self).spec_select(
                last_index(old(self).commit_count as nat),
                last_index(old(self).file_count as nat),
            ),
    {
        match self.depth {
            LogDepth::Commits | LogDepth::Details => {
                self.selected = self.commit_count.saturating_sub(1);
                true
            },
            LogDepth::FilesDiff => {
                let target = self.file_count.saturating_sub(1);
                self.select_file(target);
                false
            },
            LogDepth::Diff => false,
        }
    }
}

/// A page down and a page up in the commit list return to the same commit,
/// unless the page down stopped at the last commit.
pub proof fn lemma_log_page_down_then_up(c: LogCursor, step: nat)
    requires
        c.on_commits(),
        c.selected + step < last_index(c.commit_count as nat),
    ensures
        sat_sub(min_nat((c.selected + step) as nat, last_index(c.commit_count as nat)), step) == c.selected,
{
}


/// The letter the log tab's file list shows for a change.
pub open spec fn spec_log_status_char(st: StatusType) -> Seq<char> {
    match st {
        StatusType::Added => "+"@,
        StatusType::Modified => "M"@,
        StatusType::Deleted => "-"@,
        StatusType::Renamed => "R"@,
        StatusType::Copied => "C"@,
        StatusType::Untracked => "?"@,
        StatusType::TypeChange => "T"@,
    }
}

pub fn log_status_char(st: &StatusType) -> (r: &'static str)
    ensures
        r@ == spec_log_status_char(*st),
{
    match st {
        StatusType::Added => "+",
        StatusType::Modified => "M",
        StatusType::Deleted => "-",
        StatusType::Renamed => "R",
        StatusType::Copied => "C",
        StatusType::Untracked => "?",
        StatusType::TypeChange => "T",
    }
}

/// The colour of a file of the log tab's file list by its change.
pub open spec fn spec_log_file_color(st: StatusType) -> Color {
    match st {
        StatusType::Added => Color::LightGreen,
        StatusType::Modified => Color::Yellow,
        StatusType::Deleted => Color::LightRed,
        StatusType::Renamed => Color::LightMagenta,
        StatusType::Copied => Color::LightMagenta,
        StatusType::Untracked => Color::DarkGray,
        StatusType::TypeChange => Color::Yellow,
    }
}

/// The look of a file of the log tab's file list: the selection look when
/// selected, else its change's colour.
pub fn log_file_style(st: &StatusType, selected: bool, theme: &Theme) -> (r: Style)
    ensures
        r == if selected {
            selection_style(*theme)
        } else {
            fg_style(spec_log_file_color(*st))
        },
{
    if selected {
        return theme.selected();
    }
    let fg = match st {
        StatusType::Added => Color::LightGreen,
        StatusType::Modified => Color::Yellow,
        StatusType::Deleted => Color::LightRed,
        StatusType::Renamed => Color::LightMagenta,
        StatusType::Copied => Color::LightMagenta,
        StatusType::Untracked => Color::DarkGray,
        StatusType::TypeChange => Color::Yellow,
    };
    Style { fg: Some(fg), bg: None, bold: false }
}

/// A panel title with a position in a list: ` name position/total `, or
/// ` name ` for an empty list.
pub open spec fn spec_count_title(name: Seq<char>, position: nat, total: nat) -> Seq<char> {
    if total > 0 {
        " "@ + name + " "@ + decimal(position) + "/"@ + decimal(total) + " "@
    } else {
        " "@ + name + " "@
    }
}

pub fn count_title(name: &str, position: usize, total: usize) -> (r: String)
    ensures
        r@ == spec_count_title(name@, position as nat, total as nat),
{
    let mut r = String::from_str(" ");
    r.append(name);
    r.append(" ");
    if total > 0 {
        let p = decimal_text(position as u64);
        let t = decimal_text(total as u64);
        r.append(p.as_str());
        r.append("/");
        r.append(t.as_str());
        r.append(" ");
    }
    r
}

/// The selection look on a selected row, else `s`.
pub open spec fn pick_style(selected: bool, theme: Theme, s: Style) -> Style {
    if selected {
        selection_style(theme)
    } else {
        s
    }
}

/// A branch as the commit list shows it: `{name}` for a local branch,
/// `[name]` for a remote one.
pub open spec fn branch_label(name: Seq<char>, is_local: bool) -> Seq<char> {
    if is_local {
        "{"@ + name + "}"@
    } else {
        "["@ + name + "]"@
    }
}

/// A row of the commit list: the short id, the date, the author, each tag
/// in angle brackets, each branch, and the summary.
pub open spec fn spec_commit_line(
    short_id: Seq<char>,
    date: Seq<char>,
    author: Seq<char>,
    summary: Seq<char>,
    tags: Seq<Seq<char>>,
    branches: Seq<(Seq<char>, bool)>,
    selected: bool,
    theme: Theme,
) -> Seq<(Seq<char>, Style)> {
    seq![
        (" "@ + short_id + " "@, pick_style(selected, theme, fg_style(theme.commit_hash))),
        (" "@ + date + " "@, pick_style(selected, theme, fg_style(theme.commit_date))),
        (" "@ + author + " "@, pick_style(selected, theme, fg_style(theme.commit_author))),
    ] + tags.map_values(
        |t: Seq<char>| ("<"@ + t + ">"@, pick_style(selected, theme, bold_fg_style(Color::LightMagenta))),
    ) + branches.map_values(
        |b: (Seq<char>, bool)| (branch_label(b.0, b.1), pick_style(selected, theme, fg_style(Color::LightYellow))),
    ) + seq![("  "@ + summary, pick_style(selected, theme, fg_style(theme.commit_msg)))]
}

/// The branches as names and whether each is local.
pub open spec fn branch_views(v: Seq<(String, bool)>) -> Seq<(Seq<char>, bool)> {
    v.map_values(|b: (String, bool)| (b.0@, b.1))
}

fn enclosed(open: &str, text: &str, close: &str) -> (r: String)
    ensures
        r@ == open@ + text@ + close@,
{
    let mut r = String::from_str(open);
    r.append(text);
    r.append(close);
    r
}

/// The row of the commit list for `commit`, dated `date`, with its tags
/// and branches.
pub fn commit_line(
    commit: &CommitInfo,
    date: &str,
    tags: &Vec<String>,
    branches: &Vec<(String, bool)>,
    is_selected: bool,
    theme: &Theme,
) -> (spans: Vec<(String, Style)>)
    ensures
        piece_views(spans@) == spec_commit_line(
            commit.short_id@,
            date@,
            commit.author@,
            commit.summary@,
            string_views(tags@),
            branch_views(branches@),
            is_selected,
            *theme,
        ),
{
    let selected_look = theme.selected();
    let pick = |s: Style| -> (r: Style)
        ensures
            r == pick_style(is_selected, *theme, s),
        {
            if is_selected {
                selected_look
            } else {
                s
            }
        };
    let mut spans: Vec<(String, Style)> = Vec::new();
    spans.push((enclosed(" ", commit.short_id.as_str(), " "), theme.commit_hash(is_selected)));
    spans.push((enclosed(" ", date, " "), pick(Style { fg: Some(theme.commit_date), bg: None, bold: false })));
    spans.push((enclosed(" ", commit.author.as_str(), " "), pick(Style { fg: Some(theme.commit_author), bg: None, bold: false })));
    let ghost tv = string_views(tags@);
    let ghost bv = branch_views(branches@);
    let ghost head = seq![
        (" "@ + commit.short_id@ + " "@, pick_style(is_selected, *theme, fg_style(theme.commit_hash))),
        (" "@ + date@ + " "@, pick_style(is_selected, *theme, fg_style(theme.commit_date))),
        (" "@ + commit.author@ + " "@, pick_style(is_selected, *theme, fg_style(theme.commit_author))),
    ];
    let ghost tag_pieces = tv.map_values(
        |t: Seq<char>| ("<"@ + t + ">"@, pick_style(is_selected, *theme, bold_fg_style(Color::LightMagenta))),
    );
    let ghost branch_pieces = bv.map_values(
        |b: (Seq<char>, bool)| (branch_label(b.0, b.1), pick_style(is_selected, *theme, fg_style(Color::LightYellow))),
    );
    proof {
        assert(piece_views(spans@) =~= head);
        assert(tag_pieces.take(0) =~= Seq::<(Seq<char>, Style)>::empty());
    }
    let tag_look = pick(Style { fg: Some(Color::LightMagenta), bg: None, bold: true });
    let mut k: usize = 0;
    while k < tags.len()
        invariant
            tv == string_views(tags@),
            tag_pieces == tv.map_values(
                |t: Seq<char>| ("<"@ + t + ">"@, pick_style(is_selected, *theme, bold_fg_style(Color::LightMagenta))),
            ),
            tag_look == pick_style(is_selected, *theme, bold_fg_style(Color::LightMagenta)),
            k <= tags.len(),
            piece_views(spans@) == head + tag_pieces.take(k as int),
        decreases tags.len() - k,
    {
        let piece = (enclosed("<", tags[k].as_str(), ">"), tag_look);
        proof {
            assert(piece_views(spans@.push(piece)) =~= piece_views(spans@).push((piece.0@, piece.1)));
            assert(tag_pieces.take(k + 1) =~= tag_pieces.take(k as int).push(tag_pieces[k as int]));
        }
        spans.push(piece);
        k = k + 1;
    }
    proof {
        assert(tag_pieces.take(tags.len() as int) =~= tag_pieces);
        assert(branch_pieces.take(0) =~= Seq::<(Seq<char>, Style)>::empty());
    }
    let branch_look = pick(Style { fg: Some(Color::LightYellow), bg: None, bold: false });
    let mut k: usize = 0;
    while k < branches.len()
        invariant
            bv == branch_views(branches@),
            branch_pieces == bv.map_values(
                |b: (Seq<char>, bool)| (branch_label(b.0, b.1), pick_style(is_selected, *theme, fg_style(Color::LightYellow))),
            ),
            branch_look == pick_style(is_selected, *theme, fg_style(Color::LightYellow)),
            k <= branches.len(),
            piece_views(spans@) == head + tag_pieces + branch_pieces.take(k as int),
        decreases branches.len() - k,
    {
        let (name, is_local) = (&branches[k].0, branches[k].1);
        let text = if is_local {
            enclosed("{", name.as_str(), "}")
        } else {
            enclosed("[", name.as_str(), "]")
        };
        let piece = (text, branch_look);
        proof {
            assert(piece_views(spans@.push(piece)) =~= piece_views(spans@).push((piece.0@, piece.1)));
            assert(branch_pieces.take(k + 1) =~= branch_pieces.take(k as int).push(branch_pieces[k as int]));
        }
        spans.push(piece);
        k = k + 1;
    }
    let mut msg = String::from_str("  ");
    msg.append(commit.summary.as_str());
    let last = (msg, theme.commit_msg(is_selected));
    proof {
        assert(branch_pieces.take(branches.len() as int) =~= branch_pieces);
        assert(piece_views(spans@.push(last)) =~= piece_views(spans@).push((last.0@, last.1)));
    }
    spans.push(last);
    proof {
        assert(piece_views(spans@) =~= spec_commit_line(
            commit.short_id@,
            date@,
            commit.author@,
            commit.summary@,
            tv,
            bv,
            is_selected,
            *theme,
        ));
    }
    spans
}

/// The rows of the commit details: author, date (as given) and full id,
/// each after a label, then a blank row and the summary.
pub open spec fn spec_commit_info_lines(
    author: Seq<char>,
    when: Seq<char>,
    id: Seq<char>,
    summary: Seq<char>,
    theme: Theme,
) -> Seq<Seq<(Seq<char>, Style)>> {
    let label = fg_style(theme.dim_text);
    let value = Style { fg: None, bg: None, bold: false };
    seq![
        seq![("Author: "@, label), (author, value)],
        seq![("Date:   "@, label), (when, value)],
        seq![("Sha:    "@, label), (id, value)],
        seq![(Seq::<char>::empty(), value)],
        seq![(summary, fg_style(theme.commit_msg))],
    ]
}

pub fn commit_info_lines(commit: &CommitInfo, when: &str, theme: &Theme) -> (lines: Vec<Vec<(String, Style)>>)
    ensures
        row_views(lines@) == spec_commit_info_lines(
            commit.author@,
            when@,
            commit.id@,
            commit.summary@,
            *theme,
        ),
{
    let label = theme.dim_text();
    let value = theme.normal();
    let lines = vec![
        vec![(String::from_str("Author: "), label), (String::from_str(commit.author.as_str()), value)],
        vec![(String::from_str("Date:   "), label), (String::from_str(when), value)],
        vec![(String::from_str("Sha:    "), label), (String::from_str(commit.id.as_str()), value)],
        vec![(String::new(), value)],
        vec![(String::from_str(commit.summary.as_str()), Style { fg: Some(theme.commit_msg), bg: None, bold: false })],
    ];
    proof {
        let spec = spec_commit_info_lines(commit.author@, when@, commit.id@, commit.summary@, *theme);
        assert(piece_views(lines@[0]@) =~= spec[0]);
        assert(piece_views(lines@[1]@) =~= spec[1]);
        assert(piece_views(lines@[2]@) =~= spec[2]);
        assert(piece_views(lines@[3]@) =~= spec[3]);
        assert(piece_views(lines@[4]@) =~= spec[4]);
        assert(row_views(lines@) =~= spec_commit_info_lines(
            commit.author@,
            when@,
            commit.id@,
            commit.summary@,
            *theme,
        ));
    }
    lines
}

/// A row of the log tab's file list: the mark, the change's letter and the path.
pub open spec fn spec_log_file_line(path: Seq<char>, st: StatusType, selected: bool, theme: Theme) -> Seq<
    (Seq<char>, Style),
> {
    seq![
        (
            " "@ + row_marker(selected) + " "@ + spec_log_status_char(st) + " "@ + path,
            if selected {
                selection_style(theme)
            } else {
                fg_style(spec_log_file_color(st))
            },
        ),
    ]
}

pub fn log_file_line(path: &str, st: &StatusType, is_selected: bool, theme: &Theme) -> (line: Vec<(String, Style)>)
    ensures
        piece_views(line@) == spec_log_file_line(path@, *st, is_selected, *theme),
{
    let mut text = String::from_str(" ");
    text.append(if is_selected {
        ">"
    } else {
        " "
    });
    text.append(" ");
    text.append(log_status_char(st));
    text.append(" ");
    text.append(path);
    let line = vec![(text, log_file_style(st, is_selected, theme))];
    proof {
        assert(piece_views(line@) =~= spec_log_file_line(path@, *st, is_selected, *theme));
    }
    line
}

} // verus!
