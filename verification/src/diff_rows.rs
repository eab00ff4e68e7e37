//! How the lines of a hunk are laid out in rows: context lines alone, and
//! each run of deleted and added lines as pairs, the i-th deleted line
//! beside the i-th added line, the lines of the longer side alone after.

use crate::git::{DiffLine, DiffLineType};
use crate::text::{trim_str, trimmed};
use crate::wrap::{piece_views, row_views};
use vstd::prelude::*;

verus! {

/// A row of the diff view, by the positions of its lines in the hunk.
#[derive(Clone, Copy, Debug, PartialEq, Eq, Structural)]
pub enum Row {
    /// A context or header line.
    Line(usize),
    /// A deleted line shown against the added line that replaced it.
    Pair(usize, usize),
    /// A deleted line with no added line to pair.
    Deleted(usize),
    /// An added line with no deleted line to pair.
    Added(usize),
}

pub open spec fn line_types(lines: Seq<DiffLine>) -> Seq<DiffLineType> {
    lines.map_values(|l: DiffLine| l.line_type)
}

/// The row at `i` of a flushed run.
pub open spec fn run_row(dels: Seq<usize>, adds: Seq<usize>, i: int) -> Row {
    if i < dels.len() && i < adds.len() {
        Row::Pair(dels[i], adds[i])
    } else if i < dels.len() {
        Row::Deleted(dels[i])
    } else {
        Row::Added(adds[i])
    }
}

/// The rows of a run of deleted lines `dels` and added lines `adds`.
pub open spec fn run_rows(dels: Seq<usize>, adds: Seq<usize>) -> Seq<Row> {
    let n = if dels.len() >= adds.len() {
        dels.len()
    } else {
        adds.len()
    };
    Seq::new(n, |i: int| run_row(dels, adds, i))
}

/// Scanning the line types: the rows so far, and the deleted and added
/// lines of the run not yet laid out.
pub open spec fn row_scan(types: Seq<DiffLineType>) -> (Seq<Row>, Seq<usize>, Seq<usize>)
    decreases types.len(),
{
    if types.len() == 0 {
        (Seq::empty(), Seq::empty(), Seq::empty())
    } else {
        let prev = row_scan(types.drop_last());
        let k = (types.len() - 1) as usize;
        match types.last() {
            DiffLineType::Delete => (prev.0, prev.1.push(k), prev.2),
            DiffLineType::Add => (prev.0, prev.1, prev.2.push(k)),
            _ => (prev.0 + run_rows(prev.1, prev.2).push(Row::Line(k)), Seq::empty(), Seq::empty()),
        }
    }
}

/// The rows of a hunk with lines of the given types.
pub open spec fn spec_hunk_rows(types: Seq<DiffLineType>) -> Seq<Row> {
    let scan = row_scan(types);
    scan.0 + run_rows(scan.1, scan.2)
}

/// Appends the rows of a run.
fn push_run(rows: &mut Vec<Row>, dels: &Vec<usize>, adds: &Vec<usize>)
    ensures
        final(rows)@ == old(rows)@ + run_rows(dels@, adds@),
{
    let n = if dels.len() >= adds.len() {
        dels.len()
    } else {
        adds.len()
    };
    let ghost start = rows@;
    let mut i: usize = 0;
    while i < n
        invariant
            n == (if dels.len() >= adds.len() {
                dels.len()
            } else {
                adds.len()
            }),
            i <= n,
            rows@ == start + run_rows(dels@, adds@).take(i as int),
        decreases n - i,
    {
        let row = if i < dels.len() && i < adds.len() {
            Row::Pair(dels[i], adds[i])
        } else if i < dels.len() {
            Row::Deleted(dels[i])
        } else {
            Row::Added(adds[i])
        };
        rows.push(row);
        assert(run_rows(dels@, adds@).take(i + 1) == run_rows(dels@, adds@).take(i as int).push(row));
        i = i + 1;
    }
    assert(run_rows(dels@, adds@).take(n as int) == run_rows(dels@, adds@));
}

/// Lays out the lines of a hunk in rows.
pub fn hunk_rows(lines: &Vec<DiffLine>) -> (rows: Vec<Row>)
    ensures
        rows@ == spec_hunk_rows(line_types(lines@)),
{
    let mut rows: Vec<Row> = Vec::new();
    let mut dels: Vec<usize> = Vec::new();
    let mut adds: Vec<usize> = Vec::new();
    let mut k: usize = 0;
    while k < lines.len()
        invariant
            k <= lines.len(),
            (rows@, dels@, adds@) == row_scan(line_types(lines@).take(k as int)),
        decreases lines.len() - k,
    {
        let ghost types = line_types(lines@);
        assert(types.take(k + 1).drop_last() == types.take(k as int));
        assert(types.take(k + 1).last() == lines@[k as int].line_type);
        match lines[k].line_type {
            DiffLineType::Delete => {
                dels.push(k);
            },
            DiffLineType::Add => {
                adds.push(k);
            },
            _ => {
                push_run(&mut rows, &dels, &adds);
                rows.push(Row::Line(k));
                dels = Vec::new();
                adds = Vec::new();
            },
        }
        k = k + 1;
    }
    assert(line_types(lines@).take(lines.len() as int) == line_types(lines@));
    push_run(&mut rows, &dels, &adds);
    rows
}


/// The row holds line `k`.
pub open spec fn row_mentions(r: Row, k: int) -> bool {
    match r {
        Row::Line(x) => x == k,
        Row::Pair(d, a) => d == k || a == k,
        Row::Deleted(d) => d == k,
        Row::Added(a) => a == k,
    }
}

/// Some row of `rows` holds line `k`.
pub open spec fn rows_show(rows: Seq<Row>, k: int) -> bool {
    exists|i: int| 0 <= i < rows.len() && row_mentions(#[trigger] rows[i], k)
}

pub open spec fn holds_index(s: Seq<usize>, k: int) -> bool {
    exists|j: int| 0 <= j < s.len() && #[trigger] s[j] == k
}

pub open spec fn is_context_type(t: DiffLineType) -> bool {
    t == DiffLineType::Context || t == DiffLineType::Header
}

/// The row refers to lines of the hunk of the kinds it shows.
pub open spec fn row_fits(r: Row, types: Seq<DiffLineType>) -> bool {
    match r {
        Row::Line(x) => x < types.len() && is_context_type(types[x as int]),
        Row::Pair(d, a) => d < types.len() && a < types.len() && types[d as int] == DiffLineType::Delete
            && types[a as int] == DiffLineType::Add,
        Row::Deleted(d) => d < types.len() && types[d as int] == DiffLineType::Delete,
        Row::Added(a) => a < types.len() && types[a as int] == DiffLineType::Add,
    }
}

proof fn lemma_run_rows_fit(dels: Seq<usize>, adds: Seq<usize>, types: Seq<DiffLineType>)
    requires
        forall|j: int| 0 <= j < dels.len() ==> #[trigger] dels[j] < types.len() && types[dels[j] as int] == DiffLineType::Delete,
        forall|j: int| 0 <= j < adds.len() ==> #[trigger] adds[j] < types.len() && types[adds[j] as int] == DiffLineType::Add,
    ensures
        forall|i: int| 0 <= i < run_rows(dels, adds).len() ==> row_fits(#[trigger] run_rows(dels, adds)[i], types),
        forall|j: int| 0 <= j < dels.len() ==> row_mentions(#[trigger] run_rows(dels, adds)[j], dels[j] as int),
        forall|j: int| 0 <= j < adds.len() ==> row_mentions(#[trigger] run_rows(dels, adds)[j], adds[j] as int),
{
}

/// Every row of a hunk refers to lines of the hunk of the kinds it shows,
/// and every line of the hunk is shown in some row.
pub proof fn lemma_hunk_rows_cover(types: Seq<DiffLineType>)
    requires
        types.len() <= usize::MAX,
    ensures
        forall|i: int| 0 <= i < spec_hunk_rows(types).len() ==> row_fits(#[trigger] spec_hunk_rows(types)[i], types),
        forall|k: int| 0 <= k < types.len() ==> #[trigger] rows_show(spec_hunk_rows(types), k),
{
    lemma_row_scan_cover(types);
    let scan = row_scan(types);
    lemma_run_rows_fit(scan.1, scan.2, types);
    let rows = spec_hunk_rows(types);
    let tail = run_rows(scan.1, scan.2);
    assert forall|i: int| 0 <= i < rows.len() implies row_fits(#[trigger] rows[i], types) by {
        if i < scan.0.len() {
            assert(rows[i] == scan.0[i]);
        } else {
            assert(rows[i] == tail[i - scan.0.len()]);
        }
    }
    assert forall|k: int| 0 <= k < types.len() implies #[trigger] rows_show(rows, k) by {
        assert(scan_shows(row_scan(types), k));
        if rows_show(scan.0, k) {
            let i = choose|i: int| 0 <= i < scan.0.len() && row_mentions(#[trigger] scan.0[i], k);
            assert(rows[i] == scan.0[i]);
        } else if holds_index(scan.1, k) {
            let j = choose|j: int| 0 <= j < scan.1.len() && #[trigger] scan.1[j] == k;
            assert(rows[scan.0.len() + j] == tail[j]);
        } else {
            let j = choose|j: int| 0 <= j < scan.2.len() && #[trigger] scan.2[j] == k;
            assert(rows[scan.0.len() + j] == tail[j]);
        }
    }
}

pub open spec fn scan_shows(scan: (Seq<Row>, Seq<usize>, Seq<usize>), k: int) -> bool {
    rows_show(scan.0, k) || holds_index(scan.1, k) || holds_index(scan.2, k)
}

proof fn lemma_row_scan_cover(types: Seq<DiffLineType>)
    requires
        types.len() <= usize::MAX,
    ensures
        ({
            let scan = row_scan(types);
            &&& forall|i: int| 0 <= i < scan.0.len() ==> row_fits(#[trigger] scan.0[i], types)
            &&& forall|j: int| 0 <= j < scan.1.len() ==> #[trigger] scan.1[j] < types.len() && types[scan.1[j] as int] == DiffLineType::Delete
            &&& forall|j: int| 0 <= j < scan.2.len() ==> #[trigger] scan.2[j] < types.len() && types[scan.2[j] as int] == DiffLineType::Add
            &&& forall|k: int| 0 <= k < types.len() ==> #[trigger] scan_shows(scan, k)
        }),
    decreases types.len(),
{
    if types.len() > 0 {
        let before = types.drop_last();
        lemma_row_scan_cover(before);
        let prev = row_scan(before);
        let scan = row_scan(types);
        let n = types.len() - 1;
        assert forall|x: int| 0 <= x < n implies before[x] == types[x] by {}
        assert forall|i: int| 0 <= i < prev.0.len() implies row_fits(#[trigger] prev.0[i], types) by {
            assert(row_fits(prev.0[i], before));
        }
        let k0 = n as usize;
        match types.last() {
            DiffLineType::Delete => {
                assert(scan == (prev.0, prev.1.push(k0), prev.2));
                assert forall|k: int| 0 <= k < types.len() implies #[trigger] scan_shows(scan, k) by {
                    if k == n {
                        assert(scan.1[prev.1.len() as int] == k);
                    } else {
                        assert(scan_shows(prev, k));
                        if rows_show(prev.0, k) {
                            let i = choose|i: int| 0 <= i < prev.0.len() && row_mentions(#[trigger] prev.0[i], k);
                            assert(scan.0[i] == prev.0[i]);
                        } else if holds_index(prev.1, k) {
                            let j = choose|j: int| 0 <= j < prev.1.len() && #[trigger] prev.1[j] == k;
                            assert(scan.1[j] == k);
                        } else {
                            let j = choose|j: int| 0 <= j < prev.2.len() && #[trigger] prev.2[j] == k;
                            assert(scan.2[j] == k);
                        }
                    }
                }
            },
            DiffLineType::Add => {
                assert(scan == (prev.0, prev.1, prev.2.push(k0)));
                assert forall|k: int| 0 <= k < types.len() implies #[trigger] scan_shows(scan, k) by {
                    if k == n {
                        assert(scan.2[prev.2.len() as int] == k);
                    } else {
                        assert(scan_shows(prev, k));
                        if rows_show(prev.0, k) {
                            let i = choose|i: int| 0 <= i < prev.0.len() && row_mentions(#[trigger] prev.0[i], k);
                            assert(scan.0[i] == prev.0[i]);
                        } else if holds_index(prev.1, k) {
                            let j = choose|j: int| 0 <= j < prev.1.len() && #[trigger] prev.1[j] == k;
                            assert(scan.1[j] == k);
                        } else {
                            let j = choose|j: int| 0 <= j < prev.2.len() && #[trigger] prev.2[j] == k;
                            assert(scan.2[j] == k);
                        }
                    }
                }
            },
            _ => {
                lemma_run_rows_fit(prev.1, prev.2, types);
                let tail = run_rows(prev.1, prev.2);
                assert(scan == (prev.0 + tail.push(Row::Line(k0)), Seq::<usize>::empty(), Seq::<usize>::empty()));
                let rows = scan.0;
                assert forall|i: int| 0 <= i < rows.len() implies row_fits(#[trigger] rows[i], types) by {
                    if i < prev.0.len() {
                        assert(rows[i] == prev.0[i]);
                    } else if i < prev.0.len() + tail.len() {
                        assert(rows[i] == tail[i - prev.0.len()]);
                    } else {
                        assert(rows[i] == Row::Line(k0));
                    }
                }
                assert forall|k: int| 0 <= k < types.len() implies #[trigger] scan_shows(scan, k) by {
                    if k == n {
                        assert(row_mentions(rows[rows.len() - 1], k));
                    } else {
                    assert(scan_shows(prev, k));
                    if rows_show(prev.0, k) {
                        let i = choose|i: int| 0 <= i < prev.0.len() && row_mentions(#[trigger] prev.0[i], k);
                        assert(rows[i] == prev.0[i]);
                    } else if holds_index(prev.1, k) {
                        let j = choose|j: int| 0 <= j < prev.1.len() && #[trigger] prev.1[j] == k;
                        assert(rows[prev.0.len() + j] == tail[j]);
                        assert(row_mentions(rows[prev.0.len() + j], k));
                    } else {
                        let j = choose|j: int| 0 <= j < prev.2.len() && #[trigger] prev.2[j] == k;
                        assert(rows[prev.0.len() + j] == tail[j]);
                        assert(row_mentions(rows[prev.0.len() + j], k));
                    }
                    }
                }
            },
        }
    }
}

/// The rule under a hunk header: `width` box-drawing dashes.
pub open spec fn rule_text(width: nat) -> Seq<char> {
    Seq::new(width, |i: int| '─')
}

/// A row that shows nothing.
pub open spec fn blank_row<S>(look: S) -> Seq<(Seq<char>, S)> {
    seq![(Seq::<char>::empty(), look)]
}

/// `rows` followed by blank rows up to `n` rows.
pub open spec fn padded_rows<S>(rows: Seq<Seq<(Seq<char>, S)>>, n: nat, look: S) -> Seq<Seq<(Seq<char>, S)>> {
    rows + Seq::new((n - rows.len()) as nat, |i: int| blank_row(look))
}

/// The larger of two numbers.
pub open spec fn max_nat(a: nat, b: nat) -> nat {
    if a >= b {
        a
    } else {
        b
    }
}

/// The rows a hunk adds to the left and the right pane of the side-by-side
/// view: on the left a blank row, the trimmed header and a rule, on the
/// right three blank rows; then the hunk's rows of each side, the shorter
/// side padded with blank rows to the length of the longer.
pub open spec fn spec_hunk_panes<S>(
    header: Seq<char>,
    rule_width: nat,
    left_rows: Seq<Seq<(Seq<char>, S)>>,
    right_rows: Seq<Seq<(Seq<char>, S)>>,
    blank: S,
    header_look: S,
) -> (Seq<Seq<(Seq<char>, S)>>, Seq<Seq<(Seq<char>, S)>>) {
    let n = max_nat(left_rows.len(), right_rows.len());
    (
        seq![blank_row(blank), seq![(trimmed(header), header_look)], seq![(rule_text(rule_width), header_look)]]
            + padded_rows(left_rows, n, blank),
        seq![blank_row(blank), blank_row(blank), blank_row(blank)] + padded_rows(right_rows, n, blank),
    )
}

fn blank_row_of<S: Copy>(look: S) -> (r: Vec<(String, S)>)
    ensures
        piece_views(r@) == blank_row(look),
{
    let r = vec![(String::new(), look)];
    proof {
        assert(piece_views(r@) =~= blank_row(look));
    }
    r
}

fn rule_of(width: usize) -> (r: String)
    ensures
        r@ == rule_text(width as nat),
{
    let mut r = String::new();
    let mut k: usize = 0;
    proof {
        reveal_strlit("─");
        assert(r@ =~= rule_text(0));
    }
    while k < width
        invariant
            k <= width,
            r@ == rule_text(k as nat),
            "─"@ == seq!['─'],
        decreases width - k,
    {
        r.append("─");
        proof {
            assert(r@ =~= rule_text((k + 1) as nat));
        }
        k = k + 1;
    }
    r
}

/// Pads `rows` with blank rows to `n` rows, after appending them to `pane`.
fn push_padded<S: Copy>(pane: &mut Vec<Vec<(String, S)>>, rows: &mut Vec<Vec<(String, S)>>, n: usize, blank: S)
    requires
        old(rows)@.len() <= n,
    ensures
        row_views(final(pane)@) == row_views(old(pane)@) + padded_rows(row_views(old(rows)@), n as nat, blank),
{
    let ghost start = row_views(pane@);
    let ghost added = row_views(rows@);
    let len = rows.len();
    proof {
        assert(row_views(pane@ + rows@) =~= row_views(pane@) + row_views(rows@));
    }
    pane.append(rows);
    let mut k: usize = len;
    proof {
        assert(padded_rows(added, n as nat, blank) =~= added + Seq::new((n - added.len()) as nat, |i: int| blank_row(blank)));
        assert(row_views(pane@) =~= start + added + Seq::new((k - len) as nat, |i: int| blank_row(blank)));
    }
    while k < n
        invariant
            len <= k <= n,
            added.len() == len,
            row_views(pane@) == start + added + Seq::new((k - len) as nat, |i: int| blank_row(blank)),
        decreases n - k,
    {
        let row = blank_row_of(blank);
        proof {
            assert(row_views(pane@.push(row)) =~= row_views(pane@).push(piece_views(row@)));
            assert(Seq::new((k + 1 - len) as nat, |i: int| blank_row(blank)) =~= Seq::new(
                (k - len) as nat,
                |i: int| blank_row(blank),
            ).push(blank_row(blank)));
        }
        pane.push(row);
        k = k + 1;
    }
    proof {
        assert(start + added + Seq::new((n - len) as nat, |i: int| blank_row(blank)) =~= start + padded_rows(
            added,
            n as nat,
            blank,
        ));
    }
}

/// Adds a hunk to the panes of the side-by-side view: its header rows and
/// its rows of each side, padded so that both panes grow by the same
/// number of rows, three more than the longer side has.
pub fn push_hunk_panes<S: Copy>(
    left: &mut Vec<Vec<(String, S)>>,
    right: &mut Vec<Vec<(String, S)>>,
    header: &str,
    rule_width: usize,
    left_rows: Vec<Vec<(String, S)>>,
    right_rows: Vec<Vec<(String, S)>>,
    blank: S,
    header_look: S,
)
    ensures
        ({
            let added = spec_hunk_panes(
                header@,
                rule_width as nat,
                row_views(left_rows@),
                row_views(right_rows@),
                blank,
                header_look,
            );
            &&& row_views(final(left)@) == row_views(old(left)@) + added.0
            &&& row_views(final(right)@) == row_views(old(right)@) + added.1
        }),
        final(left)@.len() == old(left)@.len() + 3 + max_nat(left_rows@.len(), right_rows@.len()),
        final(right)@.len() == old(right)@.len() + 3 + max_nat(left_rows@.len(), right_rows@.len()),
{
    let ghost lv = row_views(left_rows@);
    let ghost rv = row_views(right_rows@);
    let ghost l0 = row_views(left@);
    let ghost r0 = row_views(right@);
    let h1 = blank_row_of(blank);
    let h2 = vec![(String::from_str(trim_str(header)), header_look)];
    let h3 = vec![(rule_of(rule_width), header_look)];
    proof {
        assert(piece_views(h2@) =~= seq![(trimmed(header@), header_look)]);
        assert(piece_views(h3@) =~= seq![(rule_text(rule_width as nat), header_look)]);
        assert(row_views(left@.push(h1).push(h2).push(h3)) =~= l0 + seq![
            blank_row(blank),
            seq![(trimmed(header@), header_look)],
            seq![(rule_text(rule_width as nat), header_look)],
        ]);
    }
    left.push(h1);
    left.push(h2);
    left.push(h3);
    let b1 = blank_row_of(blank);
    let b2 = blank_row_of(blank);
    let b3 = blank_row_of(blank);
    proof {
        assert(row_views(right@.push(b1).push(b2).push(b3)) =~= r0 + seq![
            blank_row(blank),
            blank_row(blank),
            blank_row(blank),
        ]);
    }
    right.push(b1);
    right.push(b2);
    right.push(b3);
    let n = if left_rows.len() >= right_rows.len() {
        left_rows.len()
    } else {
        right_rows.len()
    };
    let mut lr = left_rows;
    let mut rr = right_rows;
    push_padded(left, &mut lr, n, blank);
    push_padded(right, &mut rr, n, blank);
    proof {
        let added = spec_hunk_panes(header@, rule_width as nat, lv, rv, blank, header_look);
        assert(row_views(left@) =~= l0 + added.0);
        assert(row_views(right@) =~= r0 + added.1);
        assert(row_views(left@).len() == left@.len());
        assert(row_views(right@).len() == right@.len());
    }
}

} // verus!
