//! The stash tab: a list of stashes, the files of the selected stash, and
//! four levels of depth from the bare list to the full-screen diff.

use crate::git::{display_paths, spec_display_paths, string_views, FileDiff, StashInfo};
use crate::nav::{
    last_index, min_nat, sat_sub, spec_visible_scroll, step_fits, visible_fits, visible_scroll,
};
use crate::status_tab::row_marker;
use crate::theme::{fg_style, selection_style, Style, Theme};
use crate::wrap::{decimal, decimal_text, piece_views, row_views};
use vstd::prelude::*;

verus! {

#[derive(Clone, Copy, Debug, PartialEq, Eq, PartialOrd, Ord, Structural)]
pub enum StashDepth {
    List,
    Details,
    FilesDiff,
    Diff,
}

/// Entering the next level: from the list when there are stashes, from the
/// details and the file list when there are files; never past the diff.
pub open spec fn spec_stash_enter(depth: StashDepth, has_stashes: bool, has_files: bool) -> (bool, StashDepth) {
    match depth {
        StashDepth::List => if has_stashes {
            (true, StashDepth::Details)
        } else {
            (false, depth)
        },
        StashDepth::Details => if has_files {
            (true, StashDepth::FilesDiff)
        } else {
            (false, depth)
        },
        StashDepth::FilesDiff => if has_files {
            (true, StashDepth::Diff)
        } else {
            (false, depth)
        },
        StashDepth::Diff => (false, depth),
    }
}

/// Going back one level; the list stays the list.
pub open spec fn spec_stash_back(depth: StashDepth) -> StashDepth {
    match depth {
        StashDepth::List => StashDepth::List,
        StashDepth::Details => StashDepth::List,
        StashDepth::FilesDiff => StashDepth::Details,
        StashDepth::Diff => StashDepth::FilesDiff,
    }
}

/// The state of the stash tab. The list heights are the numbers of rows the
/// renderer last gave the stash list and the file list.
pub struct StashesTab {
    pub stashes: Vec<StashInfo>,
    pub selected: usize,
    pub scroll: usize,
    pub files: Vec<String>,
    pub file_selected: usize,
    pub file_scroll: usize,
    pub depth: StashDepth,
    pub stash_list_height: usize,
    pub file_list_height: usize,
}

impl StashesTab {
    /// Whether the stash list (rather than the file list) takes the cursor.
    pub open spec fn on_stash_list(&self) -> bool {
        self.depth == StashDepth::List || self.depth == StashDepth::Details
    }

    /// The arithmetic of moving `step` rows down stays within `usize`.
    pub open spec fn down_fits(&self, step: nat) -> bool {
        if self.on_stash_list() {
            step_fits(
                self.selected as nat,
                step,
                self.scroll as nat,
                self.stash_list_height as nat,
                self.stashes.len() as nat,
            )
        } else if self.depth == StashDepth::FilesDiff {
            step_fits(
                self.file_selected as nat,
                step,
                self.file_scroll as nat,
                self.file_list_height as nat,
                self.files.len() as nat,
            )
        } else {
            true
        }
    }

    /// The arithmetic of moving `step` rows up stays within `usize`.
    pub open spec fn up_fits(&self, step: nat) -> bool {
        if self.on_stash_list() {
            visible_fits(
                sat_sub(self.selected as nat, step),
                self.scroll as nat,
                self.stash_list_height as nat,
            )
        } else if self.depth == StashDepth::FilesDiff {
            visible_fits(
                sat_sub(self.file_selected as nat, step),
                self.file_scroll as nat,
                self.file_list_height as nat,
            )
        } else {
            true
        }
    }

    /// The state after putting the cursor of the focused list on `target`
    /// and scrolling to it; at the diff level nothing moves.
    pub open spec fn spec_select(self, target_stash: nat, target_file: nat) -> StashesTab {
        if self.on_stash_list() {
            StashesTab {
                selected: target_stash as usize,
                scroll: spec_visible_scroll(
                    target_stash,
                    self.scroll as nat,
                    self.stash_list_height as nat,
                ) as usize,
                ..self
            }
        } else if self.depth == StashDepth::FilesDiff {
            StashesTab {
                file_selected: target_file as usize,
                file_scroll: spec_visible_scroll(
                    target_file,
                    self.file_scroll as nat,
                    self.file_list_height as nat,
                ) as usize,
                ..self
            }
        } else {
            self
        }
    }

    /// An empty tab at the stash list.
    pub fn new() -> (r: Self)
        ensures
            r.stashes@.len() == 0,
            r.files@.len() == 0,
            r.selected == 0,
            r.scroll == 0,
            r.file_selected == 0,
            r.file_scroll == 0,
            r.depth == StashDepth::List,
            r.stash_list_height == 0,
            r.file_list_height == 0,
    {
        StashesTab {
            stashes: Vec::new(),
            selected: 0,
            scroll: 0,
            files: Vec::new(),
            file_selected: 0,
            file_scroll: 0,
            depth: StashDepth::List,
            stash_list_height: 0,
            file_list_height: 0,
        }
    }

    /// Replaces the stashes with a freshly read list (where reading worked)
    /// and goes back to the top of the stash list.
    pub fn refresh(&mut self, stashes: Option<Vec<StashInfo>>)
        ensures
            final(self).stashes == match stashes {
                Some(s) => s,
                None => old(self).stashes,
            },
            final(self).selected == if stashes is Some { 0 } else { old(self).selected },
            final(self).scroll == if stashes is Some { 0 } else { old(self).scroll },
            final(self).files@.len() == 0,
            final(self).file_selected == 0,
            final(self).file_scroll == 0,
            final(self).depth == StashDepth::List,
            final(self).stash_list_height == old(self).stash_list_height,
            final(self).file_list_height == old(self).file_list_height,
    {
        if let Some(stashes) = stashes {
            self.stashes = stashes;
            self.selected = 0;
            self.scroll = 0;
        }
        self.files.clear();
        self.file_selected = 0;
        self.file_scroll = 0;
        self.depth = StashDepth::List;
    }

    /// Lists the files of the selected stash from its diff, at the top of
    /// the file list.
    pub fn load_files(&mut self, diffs: &Vec<FileDiff>)
        ensures
            string_views(final(self).files@) == spec_display_paths(diffs@),
            final(self).file_selected == 0,
            final(self).file_scroll == 0,
            final(self).stashes == old(self).stashes,
            final(self).selected == old(self).selected,
            final(self).scroll == old(self).scroll,
            final(self).depth == old(self).depth,
            final(self).stash_list_height == old(self).stash_list_height,
            final(self).file_list_height == old(self).file_list_height,
    {
        self.files = display_paths(diffs);
        self.file_selected = 0;
        self.file_scroll = 0;
    }

    /// Goes one level deeper where there is something to show there;
    /// reports whether it did.
    pub fn enter(&mut self) -> (r: bool)
        ensures
            (r, final(self).depth) == spec_stash_enter(
                old(self).depth,
                old(self).stashes@.len() > 0,
                old(self).files@.len() > 0,
            ),
            *final(self) == (StashesTab { depth: final(self).depth, ..*old(self) }),
    {
        match self.depth {
            StashDepth::List => {
                if !self.stashes.is_empty() {
                    self.depth = StashDepth::Details;
                    true
                } else {
                    false
                }
            },
            StashDepth::Details => {
                if !self.files.is_empty() {
                    self.depth = StashDepth::FilesDiff;
                    true
                } else {
                    false
                }
            },
            StashDepth::FilesDiff => {
                if !self.files.is_empty() {
                    self.depth = StashDepth::Diff;
                    true
                } else {
                    false
                }
            },
            StashDepth::Diff => false,
        }
    }

    /// Goes one level back.
    pub fn back(&mut self)
        ensures
            *final(self) == (StashesTab { depth: spec_stash_back(old(self).depth), ..*old(self) }),
    {
        self.depth = match self.depth {
            StashDepth::List => StashDepth::List,
            StashDepth::Details => StashDepth::List,
            StashDepth::FilesDiff => StashDepth::Details,
            StashDepth::Diff => StashDepth::FilesDiff,
        };
    }

    /// One row down in the focused list, stopping at its last item.
    pub fn move_down(&mut self)
        requires
            old(self).down_fits(1),
        ensures
            *final(self) == old(self).spec_select(
                min_nat((old(self).selected + 1) as nat, last_index(old(self).stashes@.len())),
                min_nat((old(self).file_selected + 1) as nat, last_index(old(self).files@.len())),
            ),
    {
        match self.depth {
            StashDepth::List | StashDepth::Details => {
                let max = self.stashes.len().saturating_sub(1);
                self.selected = if self.selected + 1 < max { self.selected + 1 } else { max };
                self.ensure_stash_visible();
            },
            StashDepth::FilesDiff => {
                let max = self.files.len().saturating_sub(1);
                self.file_selected = if self.file_selected + 1 < max {
                    self.file_selected + 1
                } else {
                    max
                };
                self.ensure_file_visible();
            },
            StashDepth::Diff => {},
        }
    }

    /// One row up in the focused list, stopping at its first item.
    pub fn move_up(&mut self)
        requires
            old(self).up_fits(1),
        ensures
            *final(self) == old(self).spec_select(
                sat_sub(old(self).selected as nat, 1),
                sat_sub(old(self).file_selected as nat, 1),
            ),
    {
        match self.depth {
            StashDepth::List | StashDepth::Details => {
                self.selected = self.selected.saturating_sub(1);
                self.ensure_stash_visible();
            },
            StashDepth::FilesDiff => {
                self.file_selected = self.file_selected.saturating_sub(1);
                self.ensure_file_visible();
            },
            StashDepth::Diff => {},
        }
    }

    fn ensure_stash_visible(&mut self)
        requires
            visible_fits(old(self).selected as nat, old(self).scroll as nat, old(self).stash_list_height as nat),
        ensures
            *final(self) == (StashesTab {
                scroll: spec_visible_scroll(
                    old(self).selected as nat,
                    old(self).scroll as nat,
                    old(self).stash_list_height as nat,
                ) as usize,
                ..*old(self)
            }),
    {
        self.scroll = visible_scroll(self.selected, self.scroll, self.stash_list_height);
    }

    fn ensure_file_visible(&mut self)
        requires
            visible_fits(
                old(self).file_selected as nat,
                old(self).file_scroll as nat,
                old(self).file_list_height as nat,
            ),
        ensures
            *final(self) == (StashesTab {
                file_scroll: spec_visible_scroll(
                    old(self).file_selected as nat,
                    old(self).file_scroll as nat,
                    old(self).file_list_height as nat,
                ) as usize,
                ..*old(self)
            }),
    {
        self.file_scroll = visible_scroll(self.file_selected, self.file_scroll, self.file_list_height);
    }

    /// One window height down in the focused list (at least one row),
    /// stopping at its last item.
    pub fn page_down(&mut self)
        requires
            old(self).down_fits(
                if old(self).on_stash_list() {
                    if old(self).stash_list_height > 0 { old(self).stash_list_height as nat } else { 1 }
                } else {
                    if old(self).file_list_height > 0 { old(self).file_list_height as nat } else { 1 }
                },
            ),
        ensures
            *final(self) == old(self).spec_select(
                min_nat(
                    (old(self).selected + if old(self).stash_list_height > 0 {
                        old(self).stash_list_height as nat
                    } else {
                        1
                    }) as nat,
                    last_index(old(self).stashes@.len()),
                ),
                min_nat(
                    (old(self).file_selected + if old(self).file_list_height > 0 {
                        old(self).file_list_height as nat
                    } else {
                        1
                    }) as nat,
                    last_index(old(self).files@.len()),
                ),
            ),
    {
        match self.depth {
            StashDepth::List | StashDepth::Details => {
                let page = if self.stash_list_height > 1 { self.stash_list_height } else { 1 };
                let max = self.stashes.len().saturating_sub(1);
                self.selected = if self.selected + page < max { self.selected + page } else { max };
                self.ensure_stash_visible();
            },
            StashDepth::FilesDiff => {
                let page = if self.file_list_height > 1 { self.file_list_height } else { 1 };
                let max = self.files.len().saturating_sub(1);
                self.file_selected = if self.file_selected + page < max {
                    self.file_selected + page
                } else {
                    max
                };
                self.ensure_file_visible();
            },
            StashDepth::Diff => {},
        }
    }

    /// One window height up in the focused list (at least one row),
    /// stopping at its first item.
    pub fn page_up(&mut self)
        requires
            old(self).up_fits(
                if old(self).on_stash_list() {
                    if old(self).stash_list_height > 0 { old(self).stash_list_height as nat } else { 1 }
                } else {
                    if old(self).file_list_height > 0 { old(self).file_list_height as nat } else { 1 }
                },
            ),
        ensures
            *final(self) == old(self).spec_select(
                sat_sub(
                    old(self).selected as nat,
                    if old(self).stash_list_height > 0 {
                        old(self).stash_list_height as nat
                    } else {
                        1
                    },
                ),
                sat_sub(
                    old(self).file_selected as nat,
                    if old(self).file_list_height > 0 {
                        old(self).file_list_height as nat
                    } else {
                        1
                    },
                ),
            ),
    {
        match self.depth {
            StashDepth::List | StashDepth::Details => {
                let page = if self.stash_list_height > 1 { self.stash_list_height } else { 1 };
                self.selected = self.selected.saturating_sub(page);
                self.ensure_stash_visible();
            },
            StashDepth::FilesDiff => {
                let page = if self.file_list_height > 1 { self.file_list_height } else { 1 };
                self.file_selected = self.file_selected.saturating_sub(page);
                self.ensure_file_visible();
            },
            StashDepth::Diff => {},
        }
    }

    /// The first item of the focused list.
    pub fn go_home(&mut self)
        ensures
            *final(self) == old(self).spec_select(0, 0),
    {
        match self.depth {
            StashDepth::List | StashDepth::Details => {
                self.selected = 0;
                self.ensure_stash_visible();
            },
            StashDepth::FilesDiff => {
                self.file_selected = 0;
                self.ensure_file_visible();
            },
            StashDepth::Diff => {},
        }
    }

    /// The last item of the focused list.
    pub fn go_end(&mut self)
        requires
            old(self).on_stash_list() ==> visible_fits(
                last_index(old(self).stashes@.len()),
                old(self).scroll as nat,
                old(self).stash_list_height as nat,
            ),
            old(self).depth == StashDepth::FilesDiff ==> visible_fits(
                last_index(old(self).files@.len()),
                old(self).file_scroll as nat,
                old(self).file_list_height as nat,
            ),
        ensures
            *final(self) == old(self).spec_select(
                last_index(old(self).stashes@.len()),
                last_index(old(self).files@.len()),
            ),
    {
        match self.depth {
            StashDepth::List | StashDepth::Details => {
                self.selected = self.stashes.len().saturating_sub(1);
                self.ensure_stash_visible();
            },
            StashDepth::FilesDiff => {
                self.file_selected = self.files.len().saturating_sub(1);
                self.ensure_file_visible();
            },
            StashDepth::Diff => {},
        }
    }

    /// The stash number of the selected stash.
    pub fn current_stash_index(&self) -> (r: Option<usize>)
        ensures
            r == if self.selected < self.stashes@.len() {
                Some(self.stashes@[self.selected as int].index)
            } else {
                None::<usize>
            },
    {
        if self.selected < self.stashes.len() {
            Some(self.stashes[self.selected].index)
        } else {
            None
        }
    }

    /// The path of the selected file.
    pub fn current_file_path(&self) -> (r: Option<String>)
        ensures
            r is Some <==> self.file_selected < self.files@.len(),
            r matches Some(p) ==> p@ == self.files@[self.file_selected as int]@,
    {
        if self.file_selected < self.files.len() {
            Some(self.files[self.file_selected].clone())
        } else {
            None
        }
    }
}

/// Going one level deeper and back again returns to the same level.
pub proof fn lemma_stash_enter_then_back(depth: StashDepth, has_stashes: bool, has_files: bool)
    ensures
        spec_stash_enter(depth, has_stashes, has_files).0 ==> spec_stash_back(
            spec_stash_enter(depth, has_stashes, has_files).1,
        ) == depth,
        !spec_stash_enter(depth, has_stashes, has_files).0 ==> spec_stash_enter(
            depth,
            has_stashes,
            has_files,
        ).1 == depth,
{
}

/// Below the list, going back and entering again returns to the same level
/// when the lists are not empty.
pub proof fn lemma_stash_back_then_enter(depth: StashDepth)
    requires
        depth != StashDepth::List,
    ensures
        spec_stash_enter(spec_stash_back(depth), true, true) == (true, depth),
{
}

/// The position of a level, from the list (0) to the diff (3).
pub open spec fn stash_level(d: StashDepth) -> nat {
    match d {
        StashDepth::List => 0,
        StashDepth::Details => 1,
        StashDepth::FilesDiff => 2,
        StashDepth::Diff => 3,
    }
}

/// The levels only ever go one step at a time, in order.
pub proof fn lemma_stash_enter_is_monotone(depth: StashDepth, has_stashes: bool, has_files: bool)
    ensures
        stash_level(spec_stash_enter(depth, has_stashes, has_files).1) <= stash_level(depth) + 1,
        stash_level(spec_stash_enter(depth, has_stashes, has_files).1) >= stash_level(depth),
        stash_level(spec_stash_back(depth)) + 1 >= stash_level(depth),
        stash_level(spec_stash_back(depth)) <= stash_level(depth),
{
}

/// `s` cut to its first `max` characters, with an ellipsis where it was longer.
pub open spec fn spec_truncate(s: Seq<char>, max: nat) -> Seq<char> {
    if s.len() <= max {
        s
    } else {
        s.take(max as int).push('…')
    }
}

/// Cuts `s` to its first `max` characters, marking the cut with an ellipsis.
pub fn truncate_str(s: &str, max: usize) -> (r: String)
    ensures
        r@ == spec_truncate(s@, max as nat),
{
    let n = s.unicode_len();
    if n <= max {
        String::from_str(s)
    } else {
        let head = String::from_str(s.substring_char(0, max));
        proof {
            reveal_strlit("…");
        }
        let r = head.concat("…");
        proof {
            assert(r@ =~= s@.take(max as int).push('…'));
        }
        r
    }
}

/// How many characters of a stash's message its row shows.
pub const STASH_MESSAGE_WIDTH: usize = 50;

/// `stash@{index}`.
pub open spec fn stash_ref(index: nat) -> Seq<char> {
    "stash@{"@ + decimal(index) + "}"@
}

fn stash_ref_text(index: usize) -> (r: String)
    ensures
        r@ == stash_ref(index as nat),
{
    let mut r = String::from_str("stash@{");
    let d = decimal_text(index as u64);
    r.append(d.as_str());
    r.append("}");
    r
}

/// A row of the stash list: the mark and the stash's reference, its
/// message cut to fifty characters, and its time (as given).
pub open spec fn spec_stash_line(index: nat, message: Seq<char>, when: Seq<char>, selected: bool, theme: Theme) -> Seq<
    (Seq<char>, Style),
> {
    let msg = if selected {
        selection_style(theme)
    } else {
        fg_style(theme.stash_msg)
    };
    seq![
        (row_marker(selected) + " "@ + stash_ref(index) + " "@, msg),
        (spec_truncate(message, STASH_MESSAGE_WIDTH as nat) + " "@, msg),
        (when, fg_style(theme.dim_text)),
    ]
}

pub fn stash_line(stash: &StashInfo, when: &str, is_selected: bool, theme: &Theme) -> (line: Vec<(String, Style)>)
    ensures
        piece_views(line@) == spec_stash_line(stash.index as nat, stash.message@, when@, is_selected, *theme),
{
    let msg = theme.stash_msg(is_selected);
    let mut head = String::from_str(if is_selected {
        ">"
    } else {
        " "
    });
    head.append(" ");
    let r = stash_ref_text(stash.index);
    head.append(r.as_str());
    head.append(" ");
    let mut text = truncate_str(stash.message.as_str(), STASH_MESSAGE_WIDTH);
    text.append(" ");
    let line = vec![(head, msg), (text, msg), (String::from_str(when), theme.dim_text())];
    proof {
        assert(piece_views(line@) =~= spec_stash_line(stash.index as nat, stash.message@, when@, is_selected, *theme));
    }
    line
}

/// The rows of the stash details: its reference, its time (as given) and
/// its commit, each after a label, then a blank row and the message.
pub open spec fn spec_stash_info_lines(index: nat, when: Seq<char>, commit_id: Seq<char>, message: Seq<char>, theme: Theme) -> Seq<
    Seq<(Seq<char>, Style)>,
> {
    let label = fg_style(theme.dim_text);
    let value = fg_style(theme.commit_hash);
    seq![
        seq![("Index:  "@, label), (stash_ref(index), value)],
        seq![("Date:   "@, label), (when, value)],
        seq![("Hash:   "@, label), (commit_id, value)],
        seq![(Seq::<char>::empty(), Style { fg: None, bg: None, bold: false })],
        seq![(message, fg_style(theme.commit_msg))],
    ]
}

pub fn stash_info_lines(stash: &StashInfo, when: &str, theme: &Theme) -> (lines: Vec<Vec<(String, Style)>>)
    ensures
        row_views(lines@) == spec_stash_info_lines(stash.index as nat, when@, stash.commit_id@, stash.message@, *theme),
{
    let label = theme.dim_text();
    let value = Style { fg: Some(theme.commit_hash), bg: None, bold: false };
    let lines = vec![
        vec![(String::from_str("Index:  "), label), (stash_ref_text(stash.index), value)],
        vec![(String::from_str("Date:   "), label), (String::from_str(when), value)],
        vec![(String::from_str("Hash:   "), label), (String::from_str(stash.commit_id.as_str()), value)],
        vec![(String::new(), theme.normal())],
        vec![(String::from_str(stash.message.as_str()), Style { fg: Some(theme.commit_msg), bg: None, bold: false })],
    ];
    proof {
        let spec = spec_stash_info_lines(stash.index as nat, when@, stash.commit_id@, stash.message@, *theme);
        assert(piece_views(lines@[0]@) =~= spec[0]);
        assert(piece_views(lines@[1]@) =~= spec[1]);
        assert(piece_views(lines@[2]@) =~= spec[2]);
        assert(piece_views(lines@[3]@) =~= spec[3]);
        assert(piece_views(lines@[4]@) =~= spec[4]);
        assert(row_views(lines@) =~= spec);
    }
    lines
}

/// A row of the stash's file list: the mark and the path, in the selection
/// look or the plain entry colour on the light background.
pub open spec fn spec_stash_file_line(path: Seq<char>, selected: bool, theme: Theme) -> Seq<(Seq<char>, Style)> {
    seq![
        (
            " "@ + row_marker(selected) + " "@ + path,
            if selected {
                selection_style(theme)
            } else {
                Style { fg: Some(theme.file_entry), bg: Some(theme.light_bg), bold: false }
            },
        ),
    ]
}

pub fn stash_file_line(path: &str, is_selected: bool, theme: &Theme) -> (line: Vec<(String, Style)>)
    ensures
        piece_views(line@) == spec_stash_file_line(path@, is_selected, *theme),
{
    let mut text = String::from_str(" ");
    text.append(if is_selected {
        ">"
    } else {
        " "
    });
    text.append(" ");
    text.append(path);
    let look = if is_selected {
        theme.selected()
    } else {
        Style { fg: Some(theme.file_entry), bg: Some(theme.light_bg), bold: false }
    };
    let line = vec![(text, look)];
    proof {
        assert(piece_views(line@) =~= spec_stash_file_line(path@, is_selected, *theme));
    }
    line
}

} // verus!
