//! The repository data the browser shows (status entries, commits, stashes,
//! file diffs) and the rules that turn libgit2's raw status bits and diff
//! line origins into them.

use crate::text::str_equal;
use vstd::prelude::*;

verus! {

/// libgit2's status bits (`git_status_t`), as `git2::Status::bits` reports them.
pub const INDEX_NEW: u32 = 1;

pub const INDEX_MODIFIED: u32 = 2;

pub const INDEX_DELETED: u32 = 4;

pub const INDEX_RENAMED: u32 = 8;

pub const INDEX_TYPECHANGE: u32 = 16;

pub const WT_NEW: u32 = 128;

pub const WT_MODIFIED: u32 = 256;

pub const WT_DELETED: u32 = 512;

pub const WT_TYPECHANGE: u32 = 1024;

pub const WT_RENAMED: u32 = 2048;

/// A changed file of the working tree or the index.
#[derive(Clone, Debug)]
pub struct StatusEntry {
    pub path: String,
    pub status: StatusType,
    pub staged: bool,
}

#[derive(Clone, Copy, Debug, PartialEq, Eq, Structural)]
pub enum StatusType {
    Added,
    Modified,
    Deleted,
    Renamed,
    Copied,
    Untracked,
    TypeChange,
}

#[derive(Clone, Debug)]
pub struct CommitInfo {
    pub id: String,
    pub short_id: String,
    pub author: String,
    pub time: i64,
    pub message: String,
    pub summary: String,
}

#[derive(Clone, Debug)]
pub struct StashInfo {
    pub index: usize,
    pub message: String,
    pub commit_id: String,
    pub time: i64,
}

#[derive(Clone, Debug)]
pub struct DiffLine {
    pub content: String,
    pub line_type: DiffLineType,
    pub old_lineno: Option<u32>,
    pub new_lineno: Option<u32>,
}

#[derive(Clone, Copy, Debug, PartialEq, Eq, Structural)]
pub enum DiffLineType {
    Context,
    Add,
    Delete,
    Header,
}

#[derive(Clone, Debug)]
pub struct Hunk {
    pub header: String,
    pub lines: Vec<DiffLine>,
}

#[derive(Clone, Debug)]
pub struct FileDiff {
    pub old_path: String,
    pub new_path: String,
    pub status: StatusType,
    pub hunks: Vec<Hunk>,
    pub binary: bool,
    /// The size in bytes of the old file.
    pub old_size: u64,
    /// The size in bytes of the new file.
    pub new_size: u64,
    /// How many bytes the file grew (negative where it shrank).
    pub size_delta: i64,
}

/// The status of the staged change that the bits report, if any: a new file
/// first, then a deletion, a rename, a type change, and otherwise a modification.
pub open spec fn spec_staged_status(flags: u32) -> Option<StatusType> {
    if flags & (INDEX_NEW | INDEX_MODIFIED | INDEX_DELETED | INDEX_RENAMED | INDEX_TYPECHANGE) == 0 {
        None
    } else if flags & INDEX_NEW != 0 {
        Some(StatusType::Added)
    } else if flags & INDEX_DELETED != 0 {
        Some(StatusType::Deleted)
    } else if flags & INDEX_RENAMED != 0 {
        Some(StatusType::Renamed)
    } else if flags & INDEX_TYPECHANGE != 0 {
        Some(StatusType::TypeChange)
    } else {
        Some(StatusType::Modified)
    }
}

/// The status of the unstaged change that the bits report, if any: an
/// untracked file first, then a deletion, a rename, a type change, and
/// otherwise a modification.
pub open spec fn spec_unstaged_status(flags: u32) -> Option<StatusType> {
    if flags & (WT_NEW | WT_MODIFIED | WT_DELETED | WT_RENAMED | WT_TYPECHANGE) == 0 {
        None
    } else if flags & WT_NEW != 0 {
        Some(StatusType::Untracked)
    } else if flags & WT_DELETED != 0 {
        Some(StatusType::Deleted)
    } else if flags & WT_RENAMED != 0 {
        Some(StatusType::Renamed)
    } else if flags & WT_TYPECHANGE != 0 {
        Some(StatusType::TypeChange)
    } else {
        Some(StatusType::Modified)
    }
}

pub fn staged_status(flags: u32) -> (r: Option<StatusType>)
    ensures
        r == spec_staged_status(flags),
{
    if flags & (INDEX_NEW | INDEX_MODIFIED | INDEX_DELETED | INDEX_RENAMED | INDEX_TYPECHANGE) == 0 {
        None
    } else if flags & INDEX_NEW != 0 {
        Some(StatusType::Added)
    } else if flags & INDEX_DELETED != 0 {
        Some(StatusType::Deleted)
    } else if flags & INDEX_RENAMED != 0 {
        Some(StatusType::Renamed)
    } else if flags & INDEX_TYPECHANGE != 0 {
        Some(StatusType::TypeChange)
    } else {
        Some(StatusType::Modified)
    }
}

pub fn unstaged_status(flags: u32) -> (r: Option<StatusType>)
    ensures
        r == spec_unstaged_status(flags),
{
    if flags & (WT_NEW | WT_MODIFIED | WT_DELETED | WT_RENAMED | WT_TYPECHANGE) == 0 {
        None
    } else if flags & WT_NEW != 0 {
        Some(StatusType::Untracked)
    } else if flags & WT_DELETED != 0 {
        Some(StatusType::Deleted)
    } else if flags & WT_RENAMED != 0 {
        Some(StatusType::Renamed)
    } else if flags & WT_TYPECHANGE != 0 {
        Some(StatusType::TypeChange)
    } else {
        Some(StatusType::Modified)
    }
}

/// The entries of the staged list that the files report, in order.
pub open spec fn spec_staged_entries(files: Seq<(Seq<char>, u32)>) -> Seq<(Seq<char>, StatusType)>
    decreases files.len(),
{
    if files.len() == 0 {
        Seq::empty()
    } else {
        let rest = spec_staged_entries(files.drop_last());
        match spec_staged_status(files.last().1) {
            Some(st) => rest.push((files.last().0, st)),
            None => rest,
        }
    }
}

/// The entries of the unstaged list that the files report, in order.
pub open spec fn spec_unstaged_entries(files: Seq<(Seq<char>, u32)>) -> Seq<(Seq<char>, StatusType)>
    decreases files.len(),
{
    if files.len() == 0 {
        Seq::empty()
    } else {
        let rest = spec_unstaged_entries(files.drop_last());
        match spec_unstaged_status(files.last().1) {
            Some(st) => rest.push((files.last().0, st)),
            None => rest,
        }
    }
}

/// Each kind of staged change is read from its own bit: a new file wins
/// over everything, then a deletion, a rename and a type change; a file
/// with only the modified bit of the index is modified, and one with no bit
/// of the index has no staged change.
pub proof fn lemma_staged_status_by_bits(flags: u32)
    ensures
        flags & INDEX_NEW != 0 ==> spec_staged_status(flags) == Some(StatusType::Added),
        flags & INDEX_NEW == 0 && flags & INDEX_DELETED != 0 ==> spec_staged_status(flags) == Some(
            StatusType::Deleted,
        ),
        flags & INDEX_NEW == 0 && flags & INDEX_DELETED == 0 && flags & INDEX_RENAMED != 0
            ==> spec_staged_status(flags) == Some(StatusType::Renamed),
        flags & INDEX_NEW == 0 && flags & INDEX_DELETED == 0 && flags & INDEX_RENAMED == 0 && flags
            & INDEX_TYPECHANGE != 0 ==> spec_staged_status(flags) == Some(StatusType::TypeChange),
        flags & INDEX_NEW == 0 && flags & INDEX_DELETED == 0 && flags & INDEX_RENAMED == 0 && flags
            & INDEX_TYPECHANGE == 0 && flags & INDEX_MODIFIED != 0 ==> spec_staged_status(flags) == Some(
            StatusType::Modified,
        ),
        flags & INDEX_NEW == 0 && flags & INDEX_DELETED == 0 && flags & INDEX_RENAMED == 0 && flags
            & INDEX_TYPECHANGE == 0 && flags & INDEX_MODIFIED == 0 ==> spec_staged_status(flags) is None,
        spec_staged_status(INDEX_NEW) == Some(StatusType::Added),
        spec_staged_status(INDEX_MODIFIED) == Some(StatusType::Modified),
        spec_staged_status(INDEX_DELETED) == Some(StatusType::Deleted),
        spec_staged_status(INDEX_RENAMED) == Some(StatusType::Renamed),
        spec_staged_status(INDEX_TYPECHANGE) == Some(StatusType::TypeChange),
{
    assert(flags & 1u32 != 0 ==> flags & 31u32 != 0) by (bit_vector);
    assert(flags & 4u32 != 0 ==> flags & 31u32 != 0) by (bit_vector);
    assert(flags & 8u32 != 0 ==> flags & 31u32 != 0) by (bit_vector);
    assert(flags & 16u32 != 0 ==> flags & 31u32 != 0) by (bit_vector);
    assert(flags & 2u32 != 0 ==> flags & 31u32 != 0) by (bit_vector);
    assert(flags & 1u32 == 0 && flags & 2u32 == 0 && flags & 4u32 == 0 && flags & 8u32 == 0 && flags
        & 16u32 == 0 ==> flags & 31u32 == 0) by (bit_vector);
    assert((1u32 | 2u32 | 4u32 | 8u32 | 16u32) == 31u32) by (bit_vector);
    assert(1u32 & 31u32 != 0 && 1u32 & 1u32 != 0) by (bit_vector);
    assert(2u32 & 31u32 != 0 && 2u32 & 1u32 == 0 && 2u32 & 4u32 == 0 && 2u32 & 8u32 == 0 && 2u32 & 16u32
        == 0) by (bit_vector);
    assert(4u32 & 31u32 != 0 && 4u32 & 1u32 == 0 && 4u32 & 4u32 != 0) by (bit_vector);
    assert(8u32 & 31u32 != 0 && 8u32 & 1u32 == 0 && 8u32 & 4u32 == 0 && 8u32 & 8u32 != 0) by (bit_vector);
    assert(16u32 & 31u32 != 0 && 16u32 & 1u32 == 0 && 16u32 & 4u32 == 0 && 16u32 & 8u32 == 0 && 16u32
        & 16u32 != 0) by (bit_vector);
}

/// Each kind of unstaged change is read from its own bit: an untracked
/// file wins over everything, then a deletion, a rename and a type change;
/// a file with only the modified bit of the work tree is modified, and one
/// with no bit of the work tree has no unstaged change.
pub proof fn lemma_unstaged_status_by_bits(flags: u32)
    ensures
        flags & WT_NEW != 0 ==> spec_unstaged_status(flags) == Some(StatusType::Untracked),
        flags & WT_NEW == 0 && flags & WT_DELETED != 0 ==> spec_unstaged_status(flags) == Some(
            StatusType::Deleted,
        ),
        flags & WT_NEW == 0 && flags & WT_DELETED == 0 && flags & WT_RENAMED != 0
            ==> spec_unstaged_status(flags) == Some(StatusType::Renamed),
        flags & WT_NEW == 0 && flags & WT_DELETED == 0 && flags & WT_RENAMED == 0 && flags
            & WT_TYPECHANGE != 0 ==> spec_unstaged_status(flags) == Some(StatusType::TypeChange),
        flags & WT_NEW == 0 && flags & WT_DELETED == 0 && flags & WT_RENAMED == 0 && flags
            & WT_TYPECHANGE == 0 && flags & WT_MODIFIED != 0 ==> spec_unstaged_status(flags) == Some(
            StatusType::Modified,
        ),
        flags & WT_NEW == 0 && flags & WT_DELETED == 0 && flags & WT_RENAMED == 0 && flags
            & WT_TYPECHANGE == 0 && flags & WT_MODIFIED == 0 ==> spec_unstaged_status(flags) is None,
{
    assert(flags & 128u32 != 0 ==> flags & 3968u32 != 0) by (bit_vector);
    assert(flags & 256u32 != 0 ==> flags & 3968u32 != 0) by (bit_vector);
    assert(flags & 512u32 != 0 ==> flags & 3968u32 != 0) by (bit_vector);
    assert(flags & 1024u32 != 0 ==> flags & 3968u32 != 0) by (bit_vector);
    assert(flags & 2048u32 != 0 ==> flags & 3968u32 != 0) by (bit_vector);
    assert(flags & 128u32 == 0 && flags & 256u32 == 0 && flags & 512u32 == 0 && flags & 1024u32 == 0
        && flags & 2048u32 == 0 ==> flags & 3968u32 == 0) by (bit_vector);
    assert((128u32 | 256u32 | 512u32 | 2048u32 | 1024u32) == 3968u32) by (bit_vector);
}

/// Paths and statuses of status entries.
pub open spec fn entry_views(v: Seq<StatusEntry>) -> Seq<(Seq<char>, StatusType)> {
    v.map_values(|e: StatusEntry| (e.path@, e.status))
}

/// Paths and status bits of files.
pub open spec fn file_views(v: Seq<(String, u32)>) -> Seq<(Seq<char>, u32)> {
    v.map_values(|f: (String, u32)| (f.0@, f.1))
}

/// Sorts the files of a status listing, each with its libgit2 status bits,
/// into the staged and the unstaged list. A file with changes of both kinds
/// appears in both.
pub fn split_status(files: Vec<(String, u32)>) -> (r: (Vec<StatusEntry>, Vec<StatusEntry>))
    ensures
        entry_views(r.0@) == spec_staged_entries(file_views(files@)),
        entry_views(r.1@) == spec_unstaged_entries(file_views(files@)),
        forall|i: int| 0 <= i < r.0@.len() ==> #[trigger] r.0@[i].staged,
        forall|i: int| 0 <= i < r.1@.len() ==> !#[trigger] r.1@[i].staged,
{
    let mut staged: Vec<StatusEntry> = Vec::new();
    let mut unstaged: Vec<StatusEntry> = Vec::new();
    let ghost fv = file_views(files@);
    let mut k: usize = 0;
    while k < files.len()
        invariant
            k <= files.len(),
            fv == file_views(files@),
            entry_views(staged@) == spec_staged_entries(fv.take(k as int)),
            entry_views(unstaged@) == spec_unstaged_entries(fv.take(k as int)),
            forall|i: int| 0 <= i < staged@.len() ==> #[trigger] staged@[i].staged,
            forall|i: int| 0 <= i < unstaged@.len() ==> !#[trigger] unstaged@[i].staged,
        decreases files.len() - k,
    {
        proof {
            assert(fv.take(k + 1).drop_last() =~= fv.take(k as int));
        }
        let path = &files[k].0;
        let flags = files[k].1;
        match staged_status(flags) {
            Some(st) => {
                let e = StatusEntry { path: path.clone(), status: st, staged: true };
                let ghost before = staged@;
                staged.push(e);
                proof {
                    assert(entry_views(staged@) =~= entry_views(before).push((path@, st)));
                }
            },
            None => {},
        }
        match unstaged_status(flags) {
            Some(st) => {
                let e = StatusEntry { path: path.clone(), status: st, staged: false };
                let ghost before = unstaged@;
                unstaged.push(e);
                proof {
                    assert(entry_views(unstaged@) =~= entry_views(before).push((path@, st)));
                }
            },
            None => {},
        }
        k = k + 1;
    }
    proof {
        assert(fv.take(files.len() as int) =~= fv);
    }
    (staged, unstaged)
}

/// The kind of a diff line by its origin character: `+` added, `-` deleted,
/// a space for context, anything else a header.
pub fn line_type_from_origin(origin: char) -> (r: DiffLineType)
    ensures
        r == if origin == '+' {
            DiffLineType::Add
        } else if origin == '-' {
            DiffLineType::Delete
        } else if origin == ' ' {
            DiffLineType::Context
        } else {
            DiffLineType::Header
        },
{
    match origin {
        '+' => DiffLineType::Add,
        '-' => DiffLineType::Delete,
        ' ' => DiffLineType::Context,
        _ => DiffLineType::Header,
    }
}

/// `s` without its trailing line feeds.
pub open spec fn without_trailing_newlines(s: Seq<char>) -> Seq<char>
    decreases s.len(),
{
    if s.len() > 0 && s.last() == '\n' {
        without_trailing_newlines(s.drop_last())
    } else {
        s
    }
}

/// The content of a diff line as shown: its text without trailing line feeds.
pub fn line_content(raw: &str) -> (r: String)
    ensures
        r@ == without_trailing_newlines(raw@),
{
    let mut end = raw.unicode_len();
    proof {
        assert(raw@.take(end as int) =~= raw@);
    }
    while end > 0 && raw.get_char(end - 1) == '\n'
        invariant
            end <= raw@.len(),
            without_trailing_newlines(raw@) == without_trailing_newlines(raw@.take(end as int)),
        decreases end,
    {
        proof {
            assert(raw@.take(end as int).drop_last() =~= raw@.take(end - 1));
        }
        end = end - 1;
    }
    proof {
        assert(raw@.take(end as int) =~= raw@.subrange(0, end as int));
    }
    raw.substring_char(0, end).to_string()
}

impl FileDiff {
    /// The path the diff is listed under: the new path, or the old one where
    /// the new one is empty.
    pub fn display_path(&self) -> (r: &str)
        ensures
            r@ == if self.new_path@.len() > 0 {
                self.new_path@
            } else {
                self.old_path@
            },
    {
        if !self.new_path.as_str().is_empty() {
            self.new_path.as_str()
        } else {
            self.old_path.as_str()
        }
    }
}

/// The display paths of the diffs, in order.
pub open spec fn spec_display_paths(diffs: Seq<FileDiff>) -> Seq<Seq<char>> {
    diffs.map_values(
        |d: FileDiff|
            if d.new_path@.len() > 0 {
                d.new_path@
            } else {
                d.old_path@
            },
    )
}

/// The position of the first diff listed under `path`.
pub open spec fn spec_find_diff(diffs: Seq<FileDiff>, path: Seq<char>) -> Option<int> {
    if exists|i: int| 0 <= i < diffs.len() && spec_display_paths(diffs)[i] == path {
        Some(
            choose|i: int|
                0 <= i < diffs.len() && spec_display_paths(diffs)[i] == path && forall|j: int|
                    0 <= j < i ==> spec_display_paths(diffs)[j] != path,
        )
    } else {
        None
    }
}

/// The texts of strings.
pub open spec fn string_views(v: Seq<String>) -> Seq<Seq<char>> {
    v.map_values(|s: String| s@)
}

/// The display paths of the diffs, as the file lists of the log and stash
/// tabs show them.
pub fn display_paths(diffs: &Vec<FileDiff>) -> (r: Vec<String>)
    ensures
        string_views(r@) == spec_display_paths(diffs@),
{
    let mut paths: Vec<String> = Vec::new();
    let mut k: usize = 0;
    while k < diffs.len()
        invariant
            k <= diffs.len(),
            string_views(paths@) == spec_display_paths(diffs@).take(k as int),
        decreases diffs.len() - k,
    {
        let p = String::from_str(diffs[k].display_path());
        let ghost before = paths@;
        paths.push(p);
        proof {
            assert(string_views(paths@) =~= string_views(before).push(p@));
            assert(spec_display_paths(diffs@).take(k + 1) =~= spec_display_paths(diffs@).take(
                k as int,
            ).push(spec_display_paths(diffs@)[k as int]));
        }
        k = k + 1;
    }
    proof {
        assert(spec_display_paths(diffs@).take(diffs.len() as int) =~= spec_display_paths(diffs@));
    }
    paths
}

/// The first diff listed under `path`, if any.
pub fn find_diff(diffs: Vec<FileDiff>, path: &str) -> (r: Option<FileDiff>)
    ensures
        r is Some <==> spec_find_diff(diffs@, path@) is Some,
        r matches Some(d) ==> d == diffs@[spec_find_diff(diffs@, path@)->0],
{
    let mut remaining = diffs;
    let mut k: usize = 0;
    while k < remaining.len()
        invariant
            remaining@ == diffs@,
            k <= remaining.len(),
            forall|j: int| 0 <= j < k ==> spec_display_paths(diffs@)[j] != path@,
        decreases remaining.len() - k,
    {
        if str_equal(remaining[k].display_path(), path) {
            proof {
                let i = k as int;
                let ps = spec_display_paths(diffs@);
                assert(0 <= i < diffs@.len() && ps[i] == path@ && forall|j: int|
                    0 <= j < i ==> ps[j] != path@);
                let c = spec_find_diff(diffs@, path@)->0;
                if c < i {
                    assert(ps[c] == path@);
                } else if c > i {
                    assert(ps[i] != path@);
                }
            }
            return Some(remaining.remove(k));
        }
        k = k + 1;
    }
    None
}

} // verus!
