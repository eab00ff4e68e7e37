//! Word-level pairing and annotation of deleted and added lines: each line
//! is split into tokens (regex matches and the grapheme clusters between
//! them), the tokens of two lines are aligned, and the aligned sections are
//! labelled as kept, deleted or inserted.

use vstd::seq_lib::lemma_flatten_concat;
use crate::align::{
    alignment_operations, is_run_length_encoding, lemma_alignment_consumes_all,
    lemma_consumed_concat, lemma_decode_take, lemma_run_length_encoding_exists,
    lemma_run_length_encoding_unique, lemma_trace_consumption, run_length_decode,
    run_length_encoding, table_fits, token_views, x_consumed, y_consumed, Alignment, Operation,
};
use crate::text::{lemma_trimmed_len, trim_str, trimmed};
use unicode_segmentation::UnicodeSegmentation;
use unicode_width::UnicodeWidthStr;
use vstd::prelude::*;

verus! {

/// What happened to a section of a line.
#[derive(Clone, Copy, Debug, PartialEq, Eq, Structural)]
pub enum EditOp {
    NoOp,
    Deletion,
    Insertion,
}

#[verifier::external_type_specification]
#[verifier::external_body]
pub struct ExRegex(regex::Regex);

/// Whether `pattern` is a regular expression that the `regex` crate accepts.
pub uninterp spec fn regex_compiles(pattern: Seq<char>) -> bool;

/// The texts of the successive non-overlapping matches of `pattern` in `haystack`.
pub uninterp spec fn regex_match_texts(pattern: Seq<char>, haystack: Seq<char>) -> Seq<Seq<char>>;

/// The texts between the successive matches of `pattern` in `haystack`.
pub uninterp spec fn regex_split_texts(pattern: Seq<char>, haystack: Seq<char>) -> Seq<Seq<char>>;

/// The extended grapheme clusters of `s`.
pub uninterp spec fn grapheme_clusters(s: Seq<char>) -> Seq<Seq<char>>;

/// The displayed width of `s` in terminal columns.
pub uninterp spec fn display_width(s: Seq<char>) -> usize;

/// `gaps[0] + matches[0] + gaps[1] + ... + matches[k - 1] + gaps[k]`.
pub open spec fn interleave(gaps: Seq<Seq<char>>, matches: Seq<Seq<char>>) -> Seq<char>
    decreases matches.len(),
{
    if matches.len() == 0 || gaps.len() == 0 {
        if gaps.len() == 0 {
            Seq::empty()
        } else {
            gaps[0]
        }
    } else {
        interleave(gaps.drop_last(), matches.drop_last()) + matches.last() + gaps.last()
    }
}

/// A compiled regular expression that splits lines into word tokens,
/// together with its pattern.
pub struct TokenRegex {
    regex: regex::Regex,
    pattern: String,
}

impl View for TokenRegex {
    type V = Seq<char>;

    closed spec fn view(&self) -> Seq<char> {
        self.pattern@
    }
}

/// `regex::Regex::new`: the compiled pattern, or `None` where the `regex`
/// crate refuses it (a syntax error, or a pattern that compiles too large).
#[verifier::external_body]
fn compile_regex(pattern: &str) -> (r: Option<regex::Regex>)
    ensures
        r is Some <==> regex_compiles(pattern@),
{
    regex::Regex::new(pattern).ok()
}

impl TokenRegex {
    /// Compiles `pattern`; `None` where the pattern does not compile. The
    /// result remembers the pattern it was built from.
    pub fn new(pattern: &str) -> (r: Option<TokenRegex>)
        ensures
            r is Some <==> regex_compiles(pattern@),
            r matches Some(t) ==> t@ == pattern@,
    {
        match compile_regex(pattern) {
            Some(regex) => Some(TokenRegex { regex, pattern: String::from_str(pattern) }),
            None => None,
        }
    }
}

/// `regex::Regex::find_iter`: the texts of the successive non-overlapping
/// matches of the regex in `line`, in order.
#[verifier::external_body]
fn find_match_texts<'a>(regex: &TokenRegex, line: &'a str) -> (r: Vec<&'a str>)
    ensures
        token_views(r@) == regex_match_texts(regex@, line@),
{
    regex.regex.find_iter(line).map(|m| m.as_str()).collect()
}

/// `regex::Regex::split`: the texts between the successive matches that
/// `find_iter` reports, including the text before the first match and after
/// the last one; so there is one more of them than there are matches, and
/// taken alternately with the matches they make up `line`.
#[verifier::external_body]
fn split_texts<'a>(regex: &TokenRegex, line: &'a str) -> (r: Vec<&'a str>)
    ensures
        token_views(r@) == regex_split_texts(regex@, line@),
        r@.len() == regex_match_texts(regex@, line@).len() + 1,
        interleave(token_views(r@), regex_match_texts(regex@, line@)) == line@,
{
    regex.regex.split(line).collect()
}

/// `UnicodeSegmentation::graphemes(s, true)`: the extended grapheme clusters
/// of `s`, in order. They are non-empty and make up `s`.
#[verifier::external_body]
fn graphemes_of<'a>(s: &'a str) -> (r: Vec<&'a str>)
    ensures
        token_views(r@) == grapheme_clusters(s@),
        token_views(r@).flatten() == s@,
        forall|k: int| 0 <= k < r@.len() ==> #[trigger] r@[k]@.len() > 0,
{
    s.graphemes(true).collect()
}

/// `UnicodeWidthStr::width`: the displayed width of `s`. Every rule of the
/// `unicode-width` documentation gives a character at most three columns, and
/// a special sequence of several characters at most two.
#[verifier::external_body]
pub(crate) fn text_width(s: &str) -> (r: usize)
    ensures
        r == display_width(s@),
        r <= 3 * s@.len(),
{
    UnicodeWidthStr::width(s)
}

/// `gaps[0] + matches[0] + ... + gaps[k - 1] + matches[k - 1]`.
pub open spec fn prefix_text(gaps: Seq<Seq<char>>, matches: Seq<Seq<char>>, k: nat) -> Seq<char>
    decreases k,
{
    if k == 0 {
        Seq::empty()
    } else {
        let p = (k - 1) as nat;
        prefix_text(gaps, matches, p) + gaps[p as int] + matches[p as int]
    }
}

proof fn lemma_prefix_text_prefix(g1: Seq<Seq<char>>, m1: Seq<Seq<char>>, g2: Seq<Seq<char>>, m2: Seq<Seq<char>>, k: nat)
    requires
        k <= g1.len(),
        k <= g2.len(),
        k <= m1.len(),
        k <= m2.len(),
        g1.subrange(0, k as int) == g2.subrange(0, k as int),
        m1.subrange(0, k as int) == m2.subrange(0, k as int),
    ensures
        prefix_text(g1, m1, k) == prefix_text(g2, m2, k),
    decreases k,
{
    if k > 0 {
        let p = (k - 1) as nat;
        assert(g1.subrange(0, p as int) == g1.subrange(0, k as int).subrange(0, p as int));
        assert(g2.subrange(0, p as int) == g2.subrange(0, k as int).subrange(0, p as int));
        assert(m1.subrange(0, p as int) == m1.subrange(0, k as int).subrange(0, p as int));
        assert(m2.subrange(0, p as int) == m2.subrange(0, k as int).subrange(0, p as int));
        lemma_prefix_text_prefix(g1, m1, g2, m2, p);
        assert(g1[p as int] == g1.subrange(0, k as int)[p as int]);
        assert(g2[p as int] == g2.subrange(0, k as int)[p as int]);
        assert(m1[p as int] == m1.subrange(0, k as int)[p as int]);
        assert(m2[p as int] == m2.subrange(0, k as int)[p as int]);
    }
}

proof fn lemma_interleave_prefix(gaps: Seq<Seq<char>>, matches: Seq<Seq<char>>)
    requires
        gaps.len() == matches.len() + 1,
    ensures
        interleave(gaps, matches) == prefix_text(gaps, matches, matches.len()) + gaps[matches.len() as int],
    decreases matches.len(),
{
    if matches.len() == 0 {
        assert(prefix_text(gaps, matches, 0) + gaps[0] =~= gaps[0]);
    } else {
        let k = matches.len();
        let g = gaps.drop_last();
        let m = matches.drop_last();
        lemma_interleave_prefix(g, m);
        assert(g.subrange(0, k - 1) =~= gaps.subrange(0, k - 1));
        assert(m.subrange(0, k - 1) =~= matches.subrange(0, k - 1));
        lemma_prefix_text_prefix(g, m, gaps, matches, (k - 1) as nat);
        assert(g[k - 1] == gaps[k - 1]);
        assert(interleave(gaps, matches) =~= prefix_text(gaps, matches, k) + gaps[k as int]);
    }
}

proof fn lemma_token_views_push<'a>(v: Seq<&'a str>, t: &'a str)
    ensures
        token_views(v.push(t)) == token_views(v).push(t@),
{
    assert(token_views(v.push(t)) =~= token_views(v).push(t@));
}

/// The tokens produced from the first `k` matches.
pub open spec fn tokens_through(gaps: Seq<Seq<char>>, matches: Seq<Seq<char>>, k: nat) -> Seq<Seq<char>>
    decreases k,
{
    if k == 0 {
        seq![Seq::<char>::empty()]
    } else {
        let p = (k - 1) as nat;
        let marker = if at_line_start(gaps, matches, p) && gaps[p as int].len() > 0 {
            seq![Seq::<char>::empty()]
        } else {
            Seq::empty()
        };
        tokens_through(gaps, matches, p) + marker + grapheme_clusters(gaps[p as int]) + seq![
            matches[p as int],
        ]
    }
}

/// Nothing of the line precedes the `k`-th gap.
pub open spec fn at_line_start(gaps: Seq<Seq<char>>, matches: Seq<Seq<char>>, k: nat) -> bool
    decreases k,
{
    if k == 0 {
        true
    } else {
        let p = (k - 1) as nat;
        at_line_start(gaps, matches, p) && gaps[p as int].len() == 0 && matches[p as int].len() == 0
    }
}

/// The tokens of `line`: an empty token, then for each match the grapheme
/// clusters before it and the match itself, then the clusters after the last
/// match. A further empty token marks the first non-empty text that precedes
/// a match or ends the line when it starts the line.
pub open spec fn tokenize_spec(pattern: Seq<char>, line: Seq<char>) -> Seq<Seq<char>> {
    let gaps = regex_split_texts(pattern, line);
    let matches = regex_match_texts(pattern, line);
    let k = matches.len();
    let last = gaps[k as int];
    if last.len() > 0 {
        let marker = if at_line_start(gaps, matches, k) {
            seq![Seq::<char>::empty()]
        } else {
            Seq::empty()
        };
        tokens_through(gaps, matches, k) + marker + grapheme_clusters(last)
    } else {
        tokens_through(gaps, matches, k)
    }
}

/// Splits `line` into tokens: regex matches, and grapheme clusters between them.
pub fn tokenize<'a>(line: &'a str, regex: &TokenRegex) -> (tokens: Vec<&'a str>)
    ensures
        token_views(tokens@) == tokenize_spec(regex@, line@),
        token_views(tokens@).flatten() == line@,
{
    let matches = find_match_texts(regex, line);
    let gaps = split_texts(regex, line);
    let ghost gv = token_views(gaps@);
    let ghost mv = token_views(matches@);
    proof {
        reveal_strlit("");
    }
    let mut tokens: Vec<&'a str> = Vec::new();
    tokens.push("");
    proof {
        assert(""@ =~= Seq::<char>::empty());
        assert(token_views(tokens@) =~= tokens_through(gv, mv, 0));
        token_views(tokens@).lemma_flatten_one_element();
    }
    let mut at_start = true;
    let mut k: usize = 0;
    while k < matches.len()
        invariant
            gaps.len() == matches.len() + 1,
            gv == token_views(gaps@),
            mv == token_views(matches@),
            gv == regex_split_texts(regex@, line@),
            mv == regex_match_texts(regex@, line@),
            k <= matches.len(),
            token_views(tokens@) == tokens_through(gv, mv, k as nat),
            token_views(tokens@).flatten() == prefix_text(gv, mv, k as nat),
            at_start == at_line_start(gv, mv, k as nat),
        decreases matches.len() - k,
    {
        let ghost before = token_views(tokens@);
        let gap = gaps[k];
        if at_start && !gap.is_empty() {
            proof {
                lemma_token_views_push(tokens@, "");
                reveal_strlit("");
                assert(""@ =~= Seq::<char>::empty());
            }
            tokens.push("");
        }
        let ghost with_marker = token_views(tokens@);
        let clusters = graphemes_of(gap);
        let mut c: usize = 0;
        while c < clusters.len()
            invariant
                c <= clusters.len(),
                token_views(tokens@) == with_marker + token_views(clusters@).subrange(0, c as int),
                token_views(tokens@).flatten() == with_marker.flatten() + token_views(clusters@).subrange(
                    0,
                    c as int,
                ).flatten(),
            decreases clusters.len() - c,
        {
            proof {
                lemma_token_views_push(tokens@, clusters@[c as int]);
            }
            tokens.push(clusters[c]);
            proof {
                assert(token_views(clusters@).subrange(0, c + 1) =~= token_views(clusters@).subrange(
                    0,
                    c as int,
                ).push(clusters@[c as int]@));
                assert(token_views(tokens@) =~= with_marker + token_views(clusters@).subrange(
                    0,
                    c + 1,
                ));
                broadcast use Seq::lemma_flatten_push;
                lemma_flatten_concat(with_marker, token_views(clusters@).subrange(0, c + 1));
                lemma_flatten_concat(with_marker, token_views(clusters@).subrange(0, c as int));
            }
            c = c + 1;
        }
        proof {
            lemma_token_views_push(tokens@, matches@[k as int]);
        }
        tokens.push(matches[k]);
        proof {
            assert(gap@ == gv[k as int]);
            assert(token_views(clusters@).subrange(0, clusters.len() as int) =~= token_views(
                clusters@,
            ));
            assert(token_views(tokens@) =~= tokens_through(gv, mv, (k + 1) as nat));
            broadcast use Seq::lemma_flatten_push;
            assert(with_marker.flatten() == prefix_text(gv, mv, k as nat)) by {
                reveal_strlit("");
            }
            lemma_flatten_concat(with_marker, token_views(clusters@).subrange(0, clusters.len() as int));
            assert(token_views(tokens@).flatten() =~= prefix_text(gv, mv, (k + 1) as nat));
        }
        at_start = at_start && gap.is_empty() && matches[k].is_empty();
        k = k + 1;
    }
    let last = gaps[k];
    if !last.is_empty() {
        if at_start {
            proof {
                lemma_token_views_push(tokens@, "");
                reveal_strlit("");
                assert(""@ =~= Seq::<char>::empty());
            }
            tokens.push("");
        }
        let ghost with_marker = token_views(tokens@);
        let clusters = graphemes_of(last);
        let mut c: usize = 0;
        while c < clusters.len()
            invariant
                c <= clusters.len(),
                token_views(tokens@) == with_marker + token_views(clusters@).subrange(0, c as int),
                token_views(tokens@).flatten() == with_marker.flatten() + token_views(clusters@).subrange(
                    0,
                    c as int,
                ).flatten(),
            decreases clusters.len() - c,
        {
            proof {
                lemma_token_views_push(tokens@, clusters@[c as int]);
            }
            tokens.push(clusters[c]);
            proof {
                assert(token_views(clusters@).subrange(0, c + 1) =~= token_views(clusters@).subrange(
                    0,
                    c as int,
                ).push(clusters@[c as int]@));
                assert(token_views(tokens@) =~= with_marker + token_views(clusters@).subrange(
                    0,
                    c + 1,
                ));
                broadcast use Seq::lemma_flatten_push;
                lemma_flatten_concat(with_marker, token_views(clusters@).subrange(0, c + 1));
                lemma_flatten_concat(with_marker, token_views(clusters@).subrange(0, c as int));
            }
            c = c + 1;
        }
        proof {
            assert(token_views(clusters@).subrange(0, clusters.len() as int) =~= token_views(
                clusters@,
            ));
            assert(last@ == gv[k as int]);
            assert(token_views(tokens@) =~= tokenize_spec(regex@, line@));
            assert(with_marker.flatten() == prefix_text(gv, mv, k as nat)) by {
                reveal_strlit("");
                broadcast use Seq::lemma_flatten_push;
            }
            lemma_flatten_concat(with_marker, token_views(clusters@).subrange(0, clusters.len() as int));
            lemma_interleave_prefix(gv, mv);
        }
    } else {
        proof {
            assert(last@ == gv[k as int]);
            lemma_interleave_prefix(gv, mv);
            assert(prefix_text(gv, mv, k as nat) + gv[k as int] =~= prefix_text(gv, mv, k as nat));
        }
    }
    tokens
}


/// The ratio `numer / denom` (zero when `denom` is zero) by which two lines
/// differ: the share of their visible width that is not kept.
#[derive(Clone, Copy, Debug, PartialEq, Eq, Structural)]
pub struct LineDistance {
    pub numer: usize,
    pub denom: usize,
}

/// The ratio `numer / denom` (`denom` positive) up to which two lines count as
/// a changed version of each other.
#[derive(Clone, Copy, Debug, PartialEq, Eq, Structural)]
pub struct DistanceBound {
    pub numer: u64,
    pub denom: u64,
}

/// `d <= b` as rational numbers, a distance with a zero denominator being zero.
pub open spec fn distance_within(d: LineDistance, b: DistanceBound) -> bool {
    d.denom == 0 || d.numer * b.denom <= b.numer * d.denom
}

impl LineDistance {
    /// Whether this distance is at most `bound`.
    pub fn is_within(&self, bound: &DistanceBound) -> (r: bool)
        requires
            bound.denom > 0,
        ensures
            r == distance_within(*self, *bound),
    {
        if self.denom == 0 {
            true
        } else {
            proof {
                assert(self.numer * bound.denom <= u64::MAX * usize::MAX) by (nonlinear_arith)
                    requires
                        self.numer <= usize::MAX,
                        bound.denom <= u64::MAX,
                ;
                assert(bound.numer * self.denom <= u64::MAX * usize::MAX) by (nonlinear_arith)
                    requires
                        self.denom <= usize::MAX,
                        bound.numer <= u64::MAX,
                ;
                assert(u64::MAX * usize::MAX <= u128::MAX) by (nonlinear_arith)
                    requires usize::MAX <= u64::MAX;
            }
            (self.numer as u128) * (bound.denom as u128) <= (bound.numer as u128) * (self.denom as u128)
        }
    }
}

/// The text of the `n` tokens from token `off` on.
pub open spec fn section(ts: Seq<Seq<char>>, off: nat, n: nat) -> Seq<char> {
    ts.subrange(off as int, (off + n) as int).flatten()
}

/// How much a section weighs in the distance: the width of its visible part.
pub open spec fn contribution(sec: Seq<char>) -> int {
    display_width(trimmed(sec)) as int
}

/// The state of the annotation of two aligned lines after some runs of operations.
pub struct AnnotationState {
    pub x_off: nat,
    pub y_off: nat,
    pub minus_prev: EditOp,
    pub plus_prev: EditOp,
    pub numer: int,
    pub denom: int,
    pub minus: Seq<(EditOp, Seq<char>)>,
    pub plus: Seq<(EditOp, Seq<char>)>,
}

pub open spec fn initial_annotation() -> AnnotationState {
    AnnotationState {
        x_off: 0,
        y_off: 0,
        minus_prev: EditOp::NoOp,
        plus_prev: EditOp::NoOp,
        numer: 0,
        denom: 0,
        minus: Seq::empty(),
        plus: Seq::empty(),
    }
}

/// One run of `n` operations `op`. A deleted section counts once in both the
/// numerator and the denominator, an inserted one likewise, a kept one twice in
/// the denominator. A kept section that is only whitespace takes the labels of
/// the sections before it when those were a deletion and an insertion (and the
/// line goes on) or were kept.
pub open spec fn annotate_step(
    st: AnnotationState,
    xs: Seq<Seq<char>>,
    ys: Seq<Seq<char>>,
    op: Operation,
    n: nat,
) -> AnnotationState {
    match op {
        Operation::Deletion => {
            let sec = section(xs, st.x_off, n);
            let d = contribution(sec);
            AnnotationState {
                x_off: st.x_off + n,
                y_off: st.y_off,
                minus_prev: EditOp::Deletion,
                plus_prev: st.plus_prev,
                numer: st.numer + d,
                denom: st.denom + d,
                minus: st.minus.push((EditOp::Deletion, sec)),
                plus: st.plus,
            }
        },
        Operation::NoOp => {
            let msec = section(xs, st.x_off, n);
            let new_x = st.x_off + n;
            let d = contribution(msec);
            let is_space = trimmed(msec).len() == 0;
            let coalesce = is_space && ((st.minus_prev == EditOp::Deletion && st.plus_prev
                == EditOp::Insertion && (new_x < xs.len() - 1 || st.y_off < ys.len() - 1)) || (
            st.minus_prev == EditOp::NoOp && st.plus_prev == EditOp::NoOp));
            let psec = section(ys, st.y_off, n);
            AnnotationState {
                x_off: new_x,
                y_off: st.y_off + n,
                minus_prev: EditOp::NoOp,
                plus_prev: EditOp::NoOp,
                numer: st.numer,
                denom: st.denom + 2 * d,
                minus: st.minus.push(
                    (
                        if coalesce {
                            st.minus_prev
                        } else {
                            EditOp::NoOp
                        },
                        msec,
                    ),
                ),
                plus: st.plus.push(
                    (
                        if coalesce {
                            st.plus_prev
                        } else {
                            EditOp::NoOp
                        },
                        psec,
                    ),
                ),
            }
        },
        Operation::Insertion => {
            let sec = section(ys, st.y_off, n);
            let d = contribution(sec);
            AnnotationState {
                x_off: st.x_off,
                y_off: st.y_off + n,
                minus_prev: st.minus_prev,
                plus_prev: EditOp::Insertion,
                numer: st.numer + d,
                denom: st.denom + d,
                minus: st.minus,
                plus: st.plus.push((EditOp::Insertion, sec)),
            }
        },
    }
}

/// The annotation after the first `k` runs.
pub open spec fn annotate_fold(
    runs: Seq<(Operation, usize)>,
    xs: Seq<Seq<char>>,
    ys: Seq<Seq<char>>,
    k: nat,
) -> AnnotationState
    decreases k,
{
    if k == 0 {
        initial_annotation()
    } else {
        let p = (k - 1) as nat;
        annotate_step(annotate_fold(runs, xs, ys, p), xs, ys, runs[p as int].0, runs[p as int].1 as nat)
    }
}

/// The annotation of the tokens `xs` of a deleted line against the tokens
/// `ys` of an added line, along the runs of their alignment.
pub open spec fn annotation(xs: Seq<Seq<char>>, ys: Seq<Seq<char>>) -> AnnotationState {
    let runs = run_length_encoding(alignment_operations(xs, ys));
    annotate_fold(runs, xs, ys, runs.len())
}

/// The texts of annotated sections.
pub open spec fn section_views(v: Seq<(EditOp, &str)>) -> Seq<(EditOp, Seq<char>)> {
    v.map_values(|e: (EditOp, &str)| (e.0, e.1@))
}

proof fn lemma_flatten_split(ts: Seq<Seq<char>>, off: nat, n: nat)
    requires
        off + n <= ts.len(),
    ensures
        ts.take((off + n) as int).flatten() == ts.take(off as int).flatten() + section(ts, off, n),
        ts.flatten() == ts.take((off + n) as int).flatten() + ts.skip((off + n) as int).flatten(),
{
    lemma_flatten_concat(ts.take(off as int), ts.subrange(off as int, (off + n) as int));
    assert(ts.take(off as int) + ts.subrange(off as int, (off + n) as int) =~= ts.take(
        (off + n) as int,
    ));
    lemma_flatten_concat(ts.take((off + n) as int), ts.skip((off + n) as int));
    assert(ts.take((off + n) as int) + ts.skip((off + n) as int) =~= ts);
}

/// The `n` tokens from `*token_offset` on, as a slice of `line`; both offsets
/// move past them.
fn get_section<'a>(
    tokens: &Vec<&'a str>,
    line: &'a str,
    line_offset: &mut usize,
    token_offset: &mut usize,
    n: usize,
) -> (sec: &'a str)
    requires
        *old(token_offset) + n <= tokens@.len(),
        token_views(tokens@).flatten() == line@,
        *old(line_offset) == token_views(tokens@).take(*old(token_offset) as int).flatten().len(),
        line@.len() <= usize::MAX,
    ensures
        sec@ == section(token_views(tokens@), *old(token_offset) as nat, n as nat),
        *final(token_offset) == *old(token_offset) + n,
        *final(line_offset) == token_views(tokens@).take(*final(token_offset) as int).flatten().len(),
{
    let ghost ts = token_views(tokens@);
    let ghost off = *token_offset as nat;
    proof {
        lemma_flatten_split(ts, off, n as nat);
    }
    let mut len: usize = 0;
    let mut t: usize = *token_offset;
    let count = tokens.len();
    assert(*token_offset + n <= count);
    let end = *token_offset + n;
    while t < end
        invariant
            end == off + n,
            *token_offset == off,
            off <= t <= off + n,
            off + n <= ts.len(),
            ts == token_views(tokens@),
            len == section(ts, off, (t - off) as nat).len(),
            section(ts, off, n as nat).len() <= line@.len() <= usize::MAX,
        decreases off + n - t,
    {
        proof {
            lemma_flatten_split(ts, off, (t + 1 - off) as nat);
            lemma_flatten_split(ts, off, (t - off) as nat);
            lemma_flatten_split(ts, t as nat, 1);
            lemma_flatten_split(ts, off, n as nat);
            lemma_flatten_split(ts, (t + 1) as nat, (off + n - t - 1) as nat);
            ts.subrange(t as int, t + 1).lemma_flatten_one_element();
            assert(ts.subrange(t as int, t + 1)[0] == ts[t as int]);
        }
        len = len + tokens[t].unicode_len();
        t = t + 1;
    }
    let start = *line_offset;
    let sec = line.substring_char(start, start + len);
    *line_offset = start + len;
    *token_offset = *token_offset + n;
    proof {
        assert(sec@ =~= section(ts, off, n as nat));
    }
    sec
}


proof fn lemma_consumed_run(op: Operation, n: nat)
    ensures
        x_consumed(Seq::new(n, |t: int| op)) == if op != Operation::Insertion {
            n
        } else {
            0
        },
        y_consumed(Seq::new(n, |t: int| op)) == if op != Operation::Deletion {
            n
        } else {
            0
        },
    decreases n,
{
    if n > 0 {
        lemma_consumed_run(op, (n - 1) as nat);
        assert(Seq::new(n, |t: int| op).drop_last() =~= Seq::new((n - 1) as nat, |t: int| op));
    }
}

proof fn lemma_consumed_prefix(runs: Seq<(Operation, usize)>, k: int)
    requires
        0 <= k <= runs.len(),
    ensures
        x_consumed(run_length_decode(runs.take(k))) <= x_consumed(run_length_decode(runs)),
        y_consumed(run_length_decode(runs.take(k))) <= y_consumed(run_length_decode(runs)),
    decreases runs.len() - k,
{
    if k == runs.len() {
        assert(runs.take(k) =~= runs);
    } else {
        lemma_consumed_prefix(runs, k + 1);
        lemma_decode_take(runs, k);
        lemma_consumed_concat(
            run_length_decode(runs.take(k)),
            Seq::new(runs[k].1 as nat, |t: int| runs[k].0),
        );
    }
}

proof fn lemma_section_views_push<'a>(v: Seq<(EditOp, &'a str)>, e: (EditOp, &'a str))
    ensures
        section_views(v.push(e)) == section_views(v).push((e.0, e.1@)),
{
    assert(section_views(v.push(e)) =~= section_views(v).push((e.0, e.1@)));
}

/// The visible width of the tokens that run `k` covers: of the deleted
/// line for a deletion or a kept run, of the added line for an insertion,
/// the tokens starting where the runs before it left off.
pub open spec fn run_width(
    runs: Seq<(Operation, usize)>,
    xs: Seq<Seq<char>>,
    ys: Seq<Seq<char>>,
    k: int,
) -> int {
    let before = run_length_decode(runs.take(k));
    let n = runs[k].1 as nat;
    match runs[k].0 {
        Operation::Insertion => contribution(section(ys, y_consumed(before), n)),
        _ => contribution(section(xs, x_consumed(before), n)),
    }
}

/// The visible width of what the first `k` runs delete or insert.
pub open spec fn changed_width(runs: Seq<(Operation, usize)>, xs: Seq<Seq<char>>, ys: Seq<Seq<char>>, k: nat) -> int
    decreases k,
{
    if k == 0 {
        0
    } else {
        let p = (k - 1) as nat;
        changed_width(runs, xs, ys, p) + if runs[p as int].0 != Operation::NoOp {
            run_width(runs, xs, ys, p as int)
        } else {
            0
        }
    }
}

/// The visible width of what the first `k` runs keep.
pub open spec fn kept_width(runs: Seq<(Operation, usize)>, xs: Seq<Seq<char>>, ys: Seq<Seq<char>>, k: nat) -> int
    decreases k,
{
    if k == 0 {
        0
    } else {
        let p = (k - 1) as nat;
        kept_width(runs, xs, ys, p) + if runs[p as int].0 == Operation::NoOp {
            run_width(runs, xs, ys, p as int)
        } else {
            0
        }
    }
}

proof fn lemma_fold_distance(runs: Seq<(Operation, usize)>, xs: Seq<Seq<char>>, ys: Seq<Seq<char>>, k: nat)
    requires
        k <= runs.len(),
    ensures
        annotate_fold(runs, xs, ys, k).x_off == x_consumed(run_length_decode(runs.take(k as int))),
        annotate_fold(runs, xs, ys, k).y_off == y_consumed(run_length_decode(runs.take(k as int))),
        annotate_fold(runs, xs, ys, k).numer == changed_width(runs, xs, ys, k),
        annotate_fold(runs, xs, ys, k).denom == changed_width(runs, xs, ys, k) + 2 * kept_width(
            runs,
            xs,
            ys,
            k,
        ),
    decreases k,
{
    if k == 0 {
        assert(runs.take(0) =~= Seq::<(Operation, usize)>::empty());
        assert(run_length_decode(runs.take(0)) =~= Seq::<Operation>::empty());
    } else {
        let p = (k - 1) as nat;
        lemma_fold_distance(runs, xs, ys, p);
        let op = runs[p as int].0;
        let n = runs[p as int].1 as nat;
        lemma_decode_take(runs, p as int);
        lemma_consumed_concat(run_length_decode(runs.take(p as int)), Seq::new(n, |t: int| op));
        lemma_consumed_run(op, n);
    }
}

/// The distance between the two lines counts what changed against what
/// stays: its numerator is the visible width of the deleted tokens of the
/// deleted line and the inserted tokens of the added line, and its
/// denominator that plus twice the visible width of the tokens both lines
/// keep. So inserting or deleting visible text raises the numerator, and
/// lines that keep everything are at distance zero.
pub proof fn lemma_distance_counts_widths(xs: Seq<Seq<char>>, ys: Seq<Seq<char>>)
    ensures
        ({
            let runs = run_length_encoding(alignment_operations(xs, ys));
            &&& annotation(xs, ys).numer == changed_width(runs, xs, ys, runs.len())
            &&& annotation(xs, ys).denom == changed_width(runs, xs, ys, runs.len()) + 2 * kept_width(
                runs,
                xs,
                ys,
                runs.len(),
            )
        }),
{
    let runs = run_length_encoding(alignment_operations(xs, ys));
    lemma_fold_distance(runs, xs, ys, runs.len());
}

/// The texts of a line's annotated sections, without their labels.
pub open spec fn section_texts(v: Seq<(EditOp, Seq<char>)>) -> Seq<Seq<char>> {
    v.map_values(|e: (EditOp, Seq<char>)| e.1)
}

proof fn lemma_section_texts_push(v: Seq<(EditOp, Seq<char>)>, e: (EditOp, Seq<char>))
    ensures
        section_texts(v.push(e)).flatten() == section_texts(v).flatten() + e.1,
{
    assert(section_texts(v.push(e)) =~= section_texts(v) + seq![e.1]);
    lemma_flatten_concat(section_texts(v), seq![e.1]);
    seq![e.1].lemma_flatten_one_element();
}

/// After the first `k` runs the offsets are the tokens that those runs step
/// over, and the sections written so far spell out the tokens before them.
proof fn lemma_fold_sections(
    runs: Seq<(Operation, usize)>,
    xs: Seq<Seq<char>>,
    ys: Seq<Seq<char>>,
    k: nat,
)
    requires
        k <= runs.len(),
        x_consumed(run_length_decode(runs)) <= xs.len(),
        y_consumed(run_length_decode(runs)) <= ys.len(),
    ensures
        ({
            let st = annotate_fold(runs, xs, ys, k);
            &&& st.x_off == x_consumed(run_length_decode(runs.take(k as int)))
            &&& st.y_off == y_consumed(run_length_decode(runs.take(k as int)))
            &&& section_texts(st.minus).flatten() == xs.take(st.x_off as int).flatten()
            &&& section_texts(st.plus).flatten() == ys.take(st.y_off as int).flatten()
        }),
    decreases k,
{
    if k == 0 {
        assert(runs.take(0) =~= Seq::<(Operation, usize)>::empty());
        assert(run_length_decode(runs.take(0)) =~= Seq::<Operation>::empty());
        assert(xs.take(0) =~= Seq::<Seq<char>>::empty());
        assert(ys.take(0) =~= Seq::<Seq<char>>::empty());
        assert(section_texts(Seq::empty()) =~= Seq::<Seq<char>>::empty());
    } else {
        let p = (k - 1) as nat;
        lemma_fold_sections(runs, xs, ys, p);
        let st = annotate_fold(runs, xs, ys, p);
        let op = runs[p as int].0;
        let n = runs[p as int].1 as nat;
        lemma_decode_take(runs, p as int);
        lemma_consumed_concat(run_length_decode(runs.take(p as int)), Seq::new(n, |t: int| op));
        lemma_consumed_run(op, n);
        lemma_consumed_prefix(runs, k as int);
        match op {
            Operation::Deletion => {
                lemma_flatten_split(xs, st.x_off, n);
                lemma_section_texts_push(st.minus, (EditOp::Deletion, section(xs, st.x_off, n)));
            },
            Operation::Insertion => {
                lemma_flatten_split(ys, st.y_off, n);
                lemma_section_texts_push(st.plus, (EditOp::Insertion, section(ys, st.y_off, n)));
            },
            Operation::NoOp => {
                let nx = annotate_fold(runs, xs, ys, k);
                lemma_flatten_split(xs, st.x_off, n);
                lemma_flatten_split(ys, st.y_off, n);
                lemma_section_texts_push(st.minus, nx.minus.last());
                lemma_section_texts_push(st.plus, nx.plus.last());
                assert(nx.minus == st.minus.push(nx.minus.last()));
                assert(nx.plus == st.plus.push(nx.plus.last()));
            },
        }
    }
}

proof fn lemma_ops_len(ops: Seq<Operation>)
    ensures
        ops.len() <= x_consumed(ops) + y_consumed(ops),
    decreases ops.len(),
{
    if ops.len() > 0 {
        lemma_ops_len(ops.drop_last());
    }
}

/// Annotating loses and adds nothing: the sections of the deleted line,
/// read in order, spell out that line's tokens, and those of the added line
/// spell out its tokens (both lines start with the same token, as every
/// tokenized line starts with an empty one).
pub proof fn lemma_annotation_reassembles_lines(xs: Seq<Seq<char>>, ys: Seq<Seq<char>>)
    requires
        xs.len() >= 1,
        ys.len() >= 1,
        xs[0] == ys[0],
        table_fits(xs.len(), ys.len()),
    ensures
        section_texts(annotation(xs, ys).minus).flatten() == xs.flatten(),
        section_texts(annotation(xs, ys).plus).flatten() == ys.flatten(),
{
    let ops = alignment_operations(xs, ys);
    lemma_alignment_consumes_all(xs, ys);
    lemma_ops_len(ops);
    assert(xs.len() + ys.len() + 1 <= (xs.len() + 1) * (ys.len() + 1)) by (nonlinear_arith);
    lemma_run_length_encoding_exists(ops);
    let runs = run_length_encoding(ops);
    lemma_fold_sections(runs, xs, ys, runs.len());
    assert(runs.take(runs.len() as int) =~= runs);
    assert(xs.take(xs.len() as int) =~= xs);
    assert(ys.take(ys.len() as int) =~= ys);
}

/// Labels the sections of `minus_line` and `plus_line` along the alignment of
/// their tokens, and measures how different the lines are.
pub fn annotate<'a>(alignment: Alignment<'a>, minus_line: &'a str, plus_line: &'a str) -> (r: (
    Vec<(EditOp, &'a str)>,
    Vec<(EditOp, &'a str)>,
    LineDistance,
))
    requires
        alignment.filled(),
        token_views(alignment.x_tokens()).flatten() == minus_line@,
        token_views(alignment.y_tokens()).flatten() == plus_line@,
        alignment.x_tokens().len() + alignment.y_tokens().len() > 0,
        (minus_line@.len() + plus_line@.len()) * 6 <= usize::MAX,
    ensures
        ({
            let st = annotation(token_views(alignment.x_tokens()), token_views(alignment.y_tokens()));
            &&& section_views(r.0@) == st.minus
            &&& section_views(r.1@) == st.plus
            &&& r.2.numer == st.numer
            &&& r.2.denom == st.denom
        }),
        r.2.numer <= r.2.denom,
{
    let ghost xs = token_views(alignment.x_tokens());
    let ghost ys = token_views(alignment.y_tokens());
    let runs = alignment.coalesced_operations();
    let ghost ops = alignment_operations(xs, ys);
    proof {
        lemma_run_length_encoding_unique(runs@, run_length_encoding(ops), ops);
        lemma_trace_consumption(xs, ys, xs.len(), ys.len());
    }
    let x = alignment.x();
    let y = alignment.y();
    let mut annotated_minus_line: Vec<(EditOp, &'a str)> = Vec::new();
    let mut annotated_plus_line: Vec<(EditOp, &'a str)> = Vec::new();
    let mut x_offset: usize = 0;
    let mut y_offset: usize = 0;
    let mut minus_line_offset: usize = 0;
    let mut plus_line_offset: usize = 0;
    let mut d_numer: usize = 0;
    let mut d_denom: usize = 0;
    let mut minus_op_prev = EditOp::NoOp;
    let mut plus_op_prev = EditOp::NoOp;
    proof {
        assert(runs@.take(0) =~= Seq::<(Operation, usize)>::empty());
        assert(xs.take(0) =~= Seq::<Seq<char>>::empty());
        assert(ys.take(0) =~= Seq::<Seq<char>>::empty());
        assert(section_views(annotated_minus_line@) =~= Seq::<(EditOp, Seq<char>)>::empty());
        assert(section_views(annotated_plus_line@) =~= Seq::<(EditOp, Seq<char>)>::empty());
    }
    let mut k: usize = 0;
    while k < runs.len()
        invariant
            xs == token_views(x@),
            ys == token_views(y@),
            xs.flatten() == minus_line@,
            ys.flatten() == plus_line@,
            (minus_line@.len() + plus_line@.len()) * 6 <= usize::MAX,
            is_run_length_encoding(runs@, ops),
            ops == alignment_operations(xs, ys),
            x_consumed(ops) <= xs.len(),
            y_consumed(ops) <= ys.len(),
            k <= runs.len(),
            ({
                let st = annotate_fold(runs@, xs, ys, k as nat);
                &&& x_offset == st.x_off
                &&& y_offset == st.y_off
                &&& minus_op_prev == st.minus_prev
                &&& plus_op_prev == st.plus_prev
                &&& d_numer == st.numer
                &&& d_denom == st.denom
                &&& section_views(annotated_minus_line@) == st.minus
                &&& section_views(annotated_plus_line@) == st.plus
            }),
            x_offset == x_consumed(run_length_decode(runs@.take(k as int))),
            y_offset == y_consumed(run_length_decode(runs@.take(k as int))),
            minus_line_offset == xs.take(x_offset as int).flatten().len(),
            plus_line_offset == ys.take(y_offset as int).flatten().len(),
            minus_line_offset <= minus_line@.len(),
            plus_line_offset <= plus_line@.len(),
            d_numer <= d_denom,
            d_denom <= 6 * (minus_line_offset + plus_line_offset),
        decreases runs.len() - k,
    {
        let (op, n) = runs[k];
        proof {
            lemma_consumed_prefix(runs@, k + 1);
            lemma_decode_take(runs@, k as int);
            lemma_consumed_concat(
                run_length_decode(runs@.take(k as int)),
                Seq::new(n as nat, |t: int| op),
            );
            lemma_consumed_run(op, n as nat);
            assert(runs@[k as int] == (op, n));
        }
        let ghost mline_before = minus_line_offset;
        let ghost pline_before = plus_line_offset;
        match op {
            Operation::Deletion => {
                proof {
                    lemma_flatten_split(xs, x_offset as nat, n as nat);
                }
                let minus_section = get_section(x, minus_line, &mut minus_line_offset, &mut x_offset, n);
                let trimmed_section = trim_str(minus_section);
                let n_d = text_width(trimmed_section);
                proof {
                    lemma_trimmed_len(minus_section@);
                    lemma_flatten_split(xs, (x_offset - n) as nat, n as nat);
                    assert(minus_section@.len() == minus_line_offset - mline_before);
                    assert(minus_line_offset <= minus_line@.len());
                    assert(n_d <= 3 * (minus_line_offset - mline_before));
                }
                d_denom = d_denom + n_d;
                d_numer = d_numer + n_d;
                proof {
                    lemma_section_views_push(annotated_minus_line@, (EditOp::Deletion, minus_section));
                }
                annotated_minus_line.push((EditOp::Deletion, minus_section));
                minus_op_prev = EditOp::Deletion;
            },
            Operation::NoOp => {
                proof {
                    lemma_flatten_split(xs, x_offset as nat, n as nat);
                    lemma_flatten_split(ys, y_offset as nat, n as nat);
                }
                let minus_section = get_section(x, minus_line, &mut minus_line_offset, &mut x_offset, n);
                let trimmed_section = trim_str(minus_section);
                let n_d = text_width(trimmed_section);
                proof {
                    lemma_trimmed_len(minus_section@);
                    lemma_flatten_split(xs, (x_offset - n) as nat, n as nat);
                }
                d_denom = d_denom + 2 * n_d;
                let is_space = trimmed_section.is_empty();
                let coalesce_space_with_previous = is_space && ((minus_op_prev == EditOp::Deletion
                    && plus_op_prev == EditOp::Insertion && (x_offset < x.len() - 1 || y_offset
                    < y.len() - 1)) || (minus_op_prev == EditOp::NoOp && plus_op_prev
                    == EditOp::NoOp));
                let minus_op = if coalesce_space_with_previous {
                    minus_op_prev
                } else {
                    EditOp::NoOp
                };
                proof {
                    lemma_section_views_push(annotated_minus_line@, (minus_op, minus_section));
                }
                annotated_minus_line.push((minus_op, minus_section));
                let plus_op = if coalesce_space_with_previous {
                    plus_op_prev
                } else {
                    EditOp::NoOp
                };
                let plus_section = get_section(y, plus_line, &mut plus_line_offset, &mut y_offset, n);
                proof {
                    lemma_flatten_split(ys, (y_offset - n) as nat, n as nat);
                    lemma_section_views_push(annotated_plus_line@, (plus_op, plus_section));
                }
                annotated_plus_line.push((plus_op, plus_section));
                minus_op_prev = EditOp::NoOp;
                plus_op_prev = EditOp::NoOp;
            },
            Operation::Insertion => {
                proof {
                    lemma_flatten_split(ys, y_offset as nat, n as nat);
                }
                let plus_section = get_section(y, plus_line, &mut plus_line_offset, &mut y_offset, n);
                let trimmed_section = trim_str(plus_section);
                let n_d = text_width(trimmed_section);
                proof {
                    lemma_trimmed_len(plus_section@);
                    lemma_flatten_split(ys, (y_offset - n) as nat, n as nat);
                    assert(plus_section@.len() == plus_line_offset - pline_before);
                    assert(plus_line_offset <= plus_line@.len());
                    assert(n_d <= 3 * (plus_line_offset - pline_before));
                }
                d_denom = d_denom + n_d;
                d_numer = d_numer + n_d;
                proof {
                    lemma_section_views_push(annotated_plus_line@, (EditOp::Insertion, plus_section));
                }
                annotated_plus_line.push((EditOp::Insertion, plus_section));
                plus_op_prev = EditOp::Insertion;
            },
        }
        k = k + 1;
    }
    proof {
        assert(runs@.take(runs.len() as int) =~= runs@);
    }
    (annotated_minus_line, annotated_plus_line, LineDistance { numer: d_numer, denom: d_denom })
}


/// `d / denom <= b` as rational numbers, a zero denominator meaning distance zero.
pub open spec fn ratio_within(numer: int, denom: int, b: DistanceBound) -> bool {
    denom == 0 || numer * b.denom <= b.numer * denom
}

/// The annotation of the line `m` against the line `p`.
pub open spec fn pair_annotation(pattern: Seq<char>, m: Seq<char>, p: Seq<char>) -> AnnotationState {
    annotation(tokenize_spec(pattern, m), tokenize_spec(pattern, p))
}

/// The alignment table of the tokens of `m` and `p` can be allocated.
pub open spec fn tokens_fit(pattern: Seq<char>, m: Seq<char>, p: Seq<char>) -> bool {
    table_fits(tokenize_spec(pattern, m).len() as nat, tokenize_spec(pattern, p).len() as nat)
}

/// Whether the deleted line `m` and the added line `p` are paired: their
/// distance is within `max`, or within `naive` when there are as many
/// deleted as added lines.
pub open spec fn lines_paired(
    pattern: Seq<char>,
    m: Seq<char>,
    p: Seq<char>,
    same_count: bool,
    max: DistanceBound,
    naive: DistanceBound,
) -> bool {
    &&& tokens_fit(pattern, m, p)
    &&& {
        let st = pair_annotation(pattern, m, p);
        (same_count && ratio_within(st.numer, st.denom, naive)) || ratio_within(
            st.numer,
            st.denom,
            max,
        )
    }
}

/// The first added line from `from` on that `m` is paired with.
pub open spec fn first_partner(
    pattern: Seq<char>,
    m: Seq<char>,
    plus: Seq<Seq<char>>,
    from: nat,
    same_count: bool,
    max: DistanceBound,
    naive: DistanceBound,
) -> Option<nat>
    decreases plus.len() - from,
{
    if from >= plus.len() {
        None
    } else if lines_paired(pattern, m, plus[from as int], same_count, max, naive) {
        Some(from)
    } else {
        first_partner(pattern, m, plus, from + 1, same_count, max, naive)
    }
}

/// The added lines `a..b`, each as one kept section.
pub open spec fn unpaired_lines(lines: Seq<Seq<char>>, a: nat, b: nat) -> Seq<Seq<(EditOp, Seq<char>)>> {
    Seq::new((b - a) as nat, |q: int| seq![(EditOp::NoOp, lines[a + q])])
}

/// The line pairs of the added lines `a..b`, which have no partner.
pub open spec fn unpaired_alignment(a: nat, b: nat) -> Seq<(Option<usize>, Option<usize>)> {
    Seq::new((b - a) as nat, |q: int| (None::<usize>, Some((a + q) as usize)))
}

/// The state of the pairing after some deleted lines.
pub struct PairingState {
    pub plus_index: nat,
    pub minus: Seq<Seq<(EditOp, Seq<char>)>>,
    pub plus: Seq<Seq<(EditOp, Seq<char>)>>,
    pub alignment: Seq<(Option<usize>, Option<usize>)>,
}

/// Pairs the deleted line `i` with the first added line from
/// `st.plus_index` on that is close enough; the added lines passed over stay
/// unpaired.
pub open spec fn pairing_step(
    st: PairingState,
    pattern: Seq<char>,
    minus: Seq<Seq<char>>,
    plus: Seq<Seq<char>>,
    i: nat,
    max: DistanceBound,
    naive: DistanceBound,
) -> PairingState {
    let m = minus[i as int];
    match first_partner(pattern, m, plus, st.plus_index, minus.len() == plus.len(), max, naive) {
        Some(p) => {
            let ann = pair_annotation(pattern, m, plus[p as int]);
            PairingState {
                plus_index: p + 1,
                minus: st.minus.push(ann.minus),
                plus: st.plus + unpaired_lines(plus, st.plus_index, p) + seq![ann.plus],
                alignment: st.alignment + unpaired_alignment(st.plus_index, p) + seq![
                    (Some(i as usize), Some(p as usize)),
                ],
            }
        },
        None => PairingState {
            plus_index: st.plus_index,
            minus: st.minus.push(seq![(EditOp::NoOp, m)]),
            plus: st.plus,
            alignment: st.alignment.push((Some(i as usize), None)),
        },
    }
}

/// The pairing after the first `k` deleted lines.
pub open spec fn pairing_fold(
    pattern: Seq<char>,
    minus: Seq<Seq<char>>,
    plus: Seq<Seq<char>>,
    k: nat,
    max: DistanceBound,
    naive: DistanceBound,
) -> PairingState
    decreases k,
{
    if k == 0 {
        PairingState { plus_index: 0, minus: Seq::empty(), plus: Seq::empty(), alignment: Seq::empty() }
    } else {
        let p = (k - 1) as nat;
        pairing_step(pairing_fold(pattern, minus, plus, p, max, naive), pattern, minus, plus, p, max, naive)
    }
}

/// The pairing of all deleted lines, then the added lines left over.
pub open spec fn pairing(
    pattern: Seq<char>,
    minus: Seq<Seq<char>>,
    plus: Seq<Seq<char>>,
    max: DistanceBound,
    naive: DistanceBound,
) -> PairingState {
    let st = pairing_fold(pattern, minus, plus, minus.len(), max, naive);
    PairingState {
        plus_index: plus.len(),
        minus: st.minus,
        plus: st.plus + unpaired_lines(plus, st.plus_index, plus.len()),
        alignment: st.alignment + unpaired_alignment(st.plus_index, plus.len()),
    }
}

/// The texts of annotated lines.
pub open spec fn annotated_views(v: Seq<Vec<(EditOp, &str)>>) -> Seq<Seq<(EditOp, Seq<char>)>> {
    v.map_values(|l: Vec<(EditOp, &str)>| section_views(l@))
}

proof fn lemma_tokenize_nonempty(pattern: Seq<char>, line: Seq<char>)
    ensures
        tokenize_spec(pattern, line).len() >= 1,
{
    let gaps = regex_split_texts(pattern, line);
    let matches = regex_match_texts(pattern, line);
    lemma_tokens_through_len(gaps, matches, matches.len());
}

proof fn lemma_tokens_through_len(gaps: Seq<Seq<char>>, matches: Seq<Seq<char>>, k: nat)
    ensures
        tokens_through(gaps, matches, k).len() >= 1,
    decreases k,
{
    if k > 0 {
        lemma_tokens_through_len(gaps, matches, (k - 1) as nat);
    }
}

proof fn lemma_first_partner_found(
    pattern: Seq<char>,
    m: Seq<char>,
    plus: Seq<Seq<char>>,
    from: nat,
    p: nat,
    same_count: bool,
    max: DistanceBound,
    naive: DistanceBound,
)
    requires
        from <= p,
        forall|q: nat|
            from <= q < p ==> !#[trigger] lines_paired(pattern, m, plus[q as int], same_count, max, naive),
        p < plus.len() ==> lines_paired(pattern, m, plus[p as int], same_count, max, naive),
        p <= plus.len(),
    ensures
        first_partner(pattern, m, plus, from, same_count, max, naive) == if p < plus.len() {
            Some(p)
        } else {
            None::<nat>
        },
    decreases p - from,
{
    if from < p {
        assert(!lines_paired(pattern, m, plus[from as int], same_count, max, naive));
        lemma_first_partner_found(pattern, m, plus, from + 1, p, same_count, max, naive);
    }
}

/// Annotates the line `minus_line` against `plus_line` when their tokens fit
/// in an alignment table; `None` otherwise.
fn try_annotate<'a>(minus_line: &'a str, plus_line: &'a str, regex: &TokenRegex) -> (r: Option<(
    Vec<(EditOp, &'a str)>,
    Vec<(EditOp, &'a str)>,
    LineDistance,
)>)
    requires
        minus_line@.len() <= usize::MAX / 12,
        plus_line@.len() <= usize::MAX / 12,
    ensures
        r is Some <==> tokens_fit(regex@, minus_line@, plus_line@),
        r matches Some(t) ==> ({
            let st = pair_annotation(regex@, minus_line@, plus_line@);
            &&& section_views(t.0@) == st.minus
            &&& section_views(t.1@) == st.plus
            &&& t.2.numer == st.numer
            &&& t.2.denom == st.denom
        }),
{
    let x = tokenize(minus_line, regex);
    let y = tokenize(plus_line, regex);
    proof {
        lemma_tokenize_nonempty(regex@, minus_line@);
    }
    let rows = x.len() as u128 + 1;
    let columns = y.len() as u128 + 1;
    let cells = rows.checked_mul(columns);
    match cells {
        None => {
            return None;
        },
        Some(c) => {
            if c > (isize::MAX / 24) as u128 {
                return None;
            }
        },
    }
    let alignment = Alignment::new(x, y);
    Some(annotate(alignment, minus_line, plus_line))
}


proof fn lemma_annotated_views_push<'a>(v: Seq<Vec<(EditOp, &'a str)>>, e: Vec<(EditOp, &'a str)>)
    ensures
        annotated_views(v.push(e)) == annotated_views(v).push(section_views(e@)),
{
    assert(annotated_views(v.push(e)) =~= annotated_views(v).push(section_views(e@)));
}

/// Pairs each deleted line with the first added line after the last pair
/// that is close enough to be a changed version of it, and annotates the
/// paired lines section by section. Unpaired lines come back as one kept
/// section. The third result lists the line pairs in order: a paired line,
/// or a line of one side with `None` for the other.
pub fn infer_edits<'a>(
    minus_lines: Vec<&'a str>,
    plus_lines: Vec<&'a str>,
    tokenization_regex: &TokenRegex,
    max_line_distance: DistanceBound,
    max_line_distance_for_naively_paired_lines: DistanceBound,
) -> (r: (
    Vec<Vec<(EditOp, &'a str)>>,
    Vec<Vec<(EditOp, &'a str)>>,
    Vec<(Option<usize>, Option<usize>)>,
))
    requires
        max_line_distance.denom > 0,
        max_line_distance_for_naively_paired_lines.denom > 0,
        forall|i: int| 0 <= i < minus_lines@.len() ==> #[trigger] minus_lines@[i]@.len() <= usize::MAX / 12,
        forall|i: int| 0 <= i < plus_lines@.len() ==> #[trigger] plus_lines@[i]@.len() <= usize::MAX / 12,
    ensures
        ({
            let st = pairing(
                tokenization_regex@,
                token_views(minus_lines@),
                token_views(plus_lines@),
                max_line_distance,
                max_line_distance_for_naively_paired_lines,
            );
            &&& annotated_views(r.0@) == st.minus
            &&& annotated_views(r.1@) == st.plus
            &&& r.2@ == st.alignment
        }),
{
    let ghost pattern = tokenization_regex@;
    let ghost minus = token_views(minus_lines@);
    let ghost plus = token_views(plus_lines@);
    let ghost max = max_line_distance;
    let ghost naive = max_line_distance_for_naively_paired_lines;
    let same_count = minus_lines.len() == plus_lines.len();
    let mut annotated_minus_lines: Vec<Vec<(EditOp, &'a str)>> = Vec::new();
    let mut annotated_plus_lines: Vec<Vec<(EditOp, &'a str)>> = Vec::new();
    let mut line_alignment: Vec<(Option<usize>, Option<usize>)> = Vec::new();
    let mut plus_index: usize = 0;
    proof {
        assert(annotated_views(annotated_minus_lines@) =~= Seq::<Seq<(EditOp, Seq<char>)>>::empty());
        assert(annotated_views(annotated_plus_lines@) =~= Seq::<Seq<(EditOp, Seq<char>)>>::empty());
    }
    let mut minus_index: usize = 0;
    while minus_index < minus_lines.len()
        invariant
            pattern == tokenization_regex@,
            minus == token_views(minus_lines@),
            plus == token_views(plus_lines@),
            max == max_line_distance,
            naive == max_line_distance_for_naively_paired_lines,
            max.denom > 0,
            naive.denom > 0,
            same_count == (minus.len() == plus.len()),
            forall|i: int| 0 <= i < minus_lines@.len() ==> #[trigger] minus_lines@[i]@.len() <= usize::MAX / 12,
            forall|i: int| 0 <= i < plus_lines@.len() ==> #[trigger] plus_lines@[i]@.len() <= usize::MAX / 12,
            minus_index <= minus_lines.len(),
            ({
                let st = pairing_fold(pattern, minus, plus, minus_index as nat, max, naive);
                &&& plus_index == st.plus_index
                &&& annotated_views(annotated_minus_lines@) == st.minus
                &&& annotated_views(annotated_plus_lines@) == st.plus
                &&& line_alignment@ == st.alignment
            }),
            plus_index <= plus_lines.len(),
        decreases minus_lines.len() - minus_index,
    {
        let minus_line = minus_lines[minus_index];
        let ghost st0 = pairing_fold(pattern, minus, plus, minus_index as nat, max, naive);
        let mut candidate = plus_index;
        let mut found: Option<(Vec<(EditOp, &'a str)>, Vec<(EditOp, &'a str)>)> = None;
        while candidate < plus_lines.len()
            invariant_except_break
                found is None,
            invariant
                pattern == tokenization_regex@,
                minus == token_views(minus_lines@),
                plus == token_views(plus_lines@),
                max == max_line_distance,
                naive == max_line_distance_for_naively_paired_lines,
                max.denom > 0,
                naive.denom > 0,
                same_count == (minus.len() == plus.len()),
                forall|i: int| 0 <= i < plus_lines@.len() ==> #[trigger] plus_lines@[i]@.len() <= usize::MAX / 12,
                minus_line@.len() <= usize::MAX / 12,
                minus_line@ == minus[minus_index as int],
                plus_index <= candidate <= plus_lines.len(),
                forall|q: nat|
                    plus_index <= q < candidate ==> !#[trigger] lines_paired(
                        pattern,
                        minus[minus_index as int],
                        plus[q as int],
                        same_count,
                        max,
                        naive,
                    ),
            ensures
                found is Some ==> candidate < plus_lines.len() && lines_paired(
                    pattern,
                    minus[minus_index as int],
                    plus[candidate as int],
                    same_count,
                    max,
                    naive,
                ),
                found matches Some(t) ==> ({
                    let ann = pair_annotation(pattern, minus[minus_index as int], plus[candidate as int]);
                    &&& section_views(t.0@) == ann.minus
                    &&& section_views(t.1@) == ann.plus
                }),
                found is None ==> candidate == plus_lines.len(),
                plus_index <= candidate <= plus_lines.len(),
                forall|q: nat|
                    plus_index <= q < candidate ==> !#[trigger] lines_paired(
                        pattern,
                        minus[minus_index as int],
                        plus[q as int],
                        same_count,
                        max,
                        naive,
                    ),
            decreases plus_lines.len() - candidate,
        {
            let plus_line = plus_lines[candidate];
            match try_annotate(minus_line, plus_line, tokenization_regex) {
                Some((annotated_minus_line, annotated_plus_line, distance)) => {
                    if same_count && distance.is_within(&max_line_distance_for_naively_paired_lines)
                        || distance.is_within(&max_line_distance) {
                        found = Some((annotated_minus_line, annotated_plus_line));
                        break;
                    }
                },
                None => {},
            }
            candidate = candidate + 1;
        }
        proof {
            lemma_first_partner_found(
                pattern,
                minus[minus_index as int],
                plus,
                plus_index as nat,
                candidate as nat,
                same_count,
                max,
                naive,
            );
        }
        match found {
            Some((annotated_minus_line, annotated_plus_line)) => {
                let ghost plus_before = annotated_views(annotated_plus_lines@);
                let ghost align_before = line_alignment@;
                let ghost start = plus_index;
                while plus_index < candidate
                    invariant
                        plus == token_views(plus_lines@),
                        start <= plus_index <= candidate,
                        candidate < plus_lines.len(),
                        annotated_views(annotated_plus_lines@) == plus_before + unpaired_lines(
                            plus,
                            start as nat,
                            plus_index as nat,
                        ),
                        line_alignment@ == align_before + unpaired_alignment(start as nat, plus_index as nat),
                    decreases candidate - plus_index,
                {
                    let unpaired = vec![(EditOp::NoOp, plus_lines[plus_index])];
                    proof {
                        lemma_annotated_views_push(annotated_plus_lines@, unpaired);
                        assert(section_views(unpaired@) =~= seq![(EditOp::NoOp, plus[plus_index as int])]);
                        assert(unpaired_lines(plus, start as nat, (plus_index + 1) as nat) =~= unpaired_lines(
                            plus,
                            start as nat,
                            plus_index as nat,
                        ).push(seq![(EditOp::NoOp, plus[plus_index as int])]));
                        assert(unpaired_alignment(start as nat, (plus_index + 1) as nat) =~= unpaired_alignment(
                            start as nat,
                            plus_index as nat,
                        ).push((None, Some(plus_index))));
                    }
                    annotated_plus_lines.push(unpaired);
                    line_alignment.push((None, Some(plus_index)));
                    plus_index = plus_index + 1;
                }
                proof {
                    lemma_annotated_views_push(annotated_minus_lines@, annotated_minus_line);
                    lemma_annotated_views_push(annotated_plus_lines@, annotated_plus_line);
                }
                annotated_minus_lines.push(annotated_minus_line);
                annotated_plus_lines.push(annotated_plus_line);
                line_alignment.push((Some(minus_index), Some(plus_index)));
                plus_index = plus_index + 1;
                proof {
                    let st1 = pairing_fold(pattern, minus, plus, (minus_index + 1) as nat, max, naive);
                    assert(annotated_views(annotated_plus_lines@) =~= st1.plus);
                    assert(line_alignment@ =~= st1.alignment);
                }
            },
            None => {
                let unannotated = vec![(EditOp::NoOp, minus_line)];
                proof {
                    lemma_annotated_views_push(annotated_minus_lines@, unannotated);
                    assert(section_views(unannotated@) =~= seq![(EditOp::NoOp, minus[minus_index as int])]);
                }
                annotated_minus_lines.push(unannotated);
                line_alignment.push((Some(minus_index), None));
            },
        }
        minus_index = minus_index + 1;
    }
    let ghost plus_before = annotated_views(annotated_plus_lines@);
    let ghost align_before = line_alignment@;
    let ghost start = plus_index;
    while plus_index < plus_lines.len()
        invariant
            plus == token_views(plus_lines@),
            start <= plus_index <= plus_lines.len(),
            annotated_views(annotated_plus_lines@) == plus_before + unpaired_lines(
                plus,
                start as nat,
                plus_index as nat,
            ),
            line_alignment@ == align_before + unpaired_alignment(start as nat, plus_index as nat),
        decreases plus_lines.len() - plus_index,
    {
        let unpaired = vec![(EditOp::NoOp, plus_lines[plus_index])];
        proof {
            lemma_annotated_views_push(annotated_plus_lines@, unpaired);
            assert(section_views(unpaired@) =~= seq![(EditOp::NoOp, plus[plus_index as int])]);
            assert(unpaired_lines(plus, start as nat, (plus_index + 1) as nat) =~= unpaired_lines(
                plus,
                start as nat,
                plus_index as nat,
            ).push(seq![(EditOp::NoOp, plus[plus_index as int])]));
            assert(unpaired_alignment(start as nat, (plus_index + 1) as nat) =~= unpaired_alignment(
                start as nat,
                plus_index as nat,
            ).push((None, Some(plus_index))));
        }
        annotated_plus_lines.push(unpaired);
        line_alignment.push((None, Some(plus_index)));
        plus_index = plus_index + 1;
    }
    (annotated_minus_lines, annotated_plus_lines, line_alignment)
}


/// The deleted-line numbers of line pairs, in order.
pub open spec fn left_indices(al: Seq<(Option<usize>, Option<usize>)>) -> Seq<usize>
    decreases al.len(),
{
    if al.len() == 0 {
        Seq::empty()
    } else {
        let rest = left_indices(al.drop_last());
        match al.last().0 {
            Some(i) => rest.push(i),
            None => rest,
        }
    }
}

/// The added-line numbers of line pairs, in order.
pub open spec fn right_indices(al: Seq<(Option<usize>, Option<usize>)>) -> Seq<usize>
    decreases al.len(),
{
    if al.len() == 0 {
        Seq::empty()
    } else {
        let rest = right_indices(al.drop_last());
        match al.last().1 {
            Some(j) => rest.push(j),
            None => rest,
        }
    }
}

/// The numbers `a..b`.
pub open spec fn index_range(a: nat, b: nat) -> Seq<usize> {
    Seq::new((b - a) as nat, |q: int| (a + q) as usize)
}

proof fn lemma_indices_concat(a: Seq<(Option<usize>, Option<usize>)>, b: Seq<(Option<usize>, Option<usize>)>)
    ensures
        left_indices(a + b) == left_indices(a) + left_indices(b),
        right_indices(a + b) == right_indices(a) + right_indices(b),
    decreases b.len(),
{
    if b.len() == 0 {
        assert(a + b == a);
        assert(left_indices(a) + left_indices(b) == left_indices(a));
        assert(right_indices(a) + right_indices(b) == right_indices(a));
    } else {
        lemma_indices_concat(a, b.drop_last());
        assert((a + b).drop_last() == a + b.drop_last());
        assert((a + b).last() == b.last());
        match b.last().0 {
            Some(i) => {
                assert(left_indices(a) + left_indices(b.drop_last()).push(i) == (left_indices(a)
                    + left_indices(b.drop_last())).push(i));
            },
            None => {},
        }
        match b.last().1 {
            Some(j) => {
                assert(right_indices(a) + right_indices(b.drop_last()).push(j) == (right_indices(a)
                    + right_indices(b.drop_last())).push(j));
            },
            None => {},
        }
    }
}

proof fn lemma_unpaired_indices(a: nat, b: nat)
    requires
        a <= b,
    ensures
        left_indices(unpaired_alignment(a, b)) == Seq::<usize>::empty(),
        right_indices(unpaired_alignment(a, b)) == index_range(a, b),
    decreases b - a,
{
    if a < b {
        lemma_unpaired_indices(a, (b - 1) as nat);
        assert(unpaired_alignment(a, b).drop_last() == unpaired_alignment(a, (b - 1) as nat));
        assert(unpaired_alignment(a, b).last() == (None::<usize>, Some((b - 1) as usize)));
        assert(index_range(a, b) == index_range(a, (b - 1) as nat).push((b - 1) as usize));
    } else {
        assert(unpaired_alignment(a, b).len() == 0);
        assert(index_range(a, b).len() == 0);
    }
}

proof fn lemma_first_partner_bounds(
    pattern: Seq<char>,
    m: Seq<char>,
    plus: Seq<Seq<char>>,
    from: nat,
    same_count: bool,
    max: DistanceBound,
    naive: DistanceBound,
)
    ensures
        first_partner(pattern, m, plus, from, same_count, max, naive) matches Some(p) ==> from <= p < plus.len(),
    decreases plus.len() - from,
{
    if from < plus.len() && !lines_paired(pattern, m, plus[from as int], same_count, max, naive) {
        lemma_first_partner_bounds(pattern, m, plus, from + 1, same_count, max, naive);
    }
}

proof fn lemma_pairing_fold_indices(
    pattern: Seq<char>,
    minus: Seq<Seq<char>>,
    plus: Seq<Seq<char>>,
    k: nat,
    max: DistanceBound,
    naive: DistanceBound,
)
    requires
        k <= minus.len(),
        minus.len() <= usize::MAX,
        plus.len() <= usize::MAX,
    ensures
        ({
            let st = pairing_fold(pattern, minus, plus, k, max, naive);
            &&& st.plus_index <= plus.len()
            &&& st.minus.len() == k
            &&& st.plus.len() == st.plus_index
            &&& left_indices(st.alignment) == index_range(0, k)
            &&& right_indices(st.alignment) == index_range(0, st.plus_index)
        }),
    decreases k,
{
    if k > 0 {
        let i = (k - 1) as nat;
        lemma_pairing_fold_indices(pattern, minus, plus, i, max, naive);
        let st = pairing_fold(pattern, minus, plus, i, max, naive);
        let m = minus[i as int];
        lemma_first_partner_bounds(pattern, m, plus, st.plus_index, minus.len() == plus.len(), max, naive);
        match first_partner(pattern, m, plus, st.plus_index, minus.len() == plus.len(), max, naive) {
            Some(p) => {
                let gap = unpaired_alignment(st.plus_index, p);
                let pair = seq![(Some(i as usize), Some(p as usize))];
                lemma_unpaired_indices(st.plus_index, p);
                lemma_indices_concat(st.alignment, gap);
                lemma_indices_concat(st.alignment + gap, pair);
                assert(left_indices(pair) == seq![i as usize]) by {
                    assert(pair.drop_last().len() == 0);
                    assert(left_indices(pair.drop_last()) == Seq::<usize>::empty());
                    assert(pair.last() == (Some(i as usize), Some(p as usize)));
                    assert(Seq::<usize>::empty().push(i as usize) == seq![i as usize]);
                }
                assert(right_indices(pair) == seq![p as usize]) by {
                    assert(pair.drop_last().len() == 0);
                    assert(right_indices(pair.drop_last()) == Seq::<usize>::empty());
                    assert(pair.last() == (Some(i as usize), Some(p as usize)));
                    assert(Seq::<usize>::empty().push(p as usize) == seq![p as usize]);
                }
                assert(index_range(0, k) == index_range(0, i) + seq![i as usize]);
                assert(index_range(0, p + 1) == index_range(0, st.plus_index) + index_range(st.plus_index, p)
                    + seq![p as usize]);
                assert(left_indices(gap) == Seq::<usize>::empty());
                assert(index_range(0, i) + Seq::<usize>::empty() == index_range(0, i));
            },
            None => {
                assert(st.alignment.push((Some(i as usize), None)).drop_last() == st.alignment);
                assert(index_range(0, k) == index_range(0, i).push(i as usize));
            },
        }
    } else {
        assert(index_range(0, 0).len() == 0);
    }
}

/// Pairing lists every deleted line and every added line exactly once, each
/// side in its order: the deleted-line numbers of the line pairs are
/// `0..minus.len()` and the added-line numbers are `0..plus.len()`, and
/// there is one annotated line for each line of each side.
pub proof fn lemma_pairing_lists_every_line(
    pattern: Seq<char>,
    minus: Seq<Seq<char>>,
    plus: Seq<Seq<char>>,
    max: DistanceBound,
    naive: DistanceBound,
)
    requires
        minus.len() <= usize::MAX,
        plus.len() <= usize::MAX,
    ensures
        ({
            let r = pairing(pattern, minus, plus, max, naive);
            &&& r.minus.len() == minus.len()
            &&& r.plus.len() == plus.len()
            &&& left_indices(r.alignment) == index_range(0, minus.len())
            &&& right_indices(r.alignment) == index_range(0, plus.len())
        }),
{
    lemma_pairing_fold_indices(pattern, minus, plus, minus.len(), max, naive);
    let st = pairing_fold(pattern, minus, plus, minus.len(), max, naive);
    let tail = unpaired_alignment(st.plus_index, plus.len());
    lemma_unpaired_indices(st.plus_index, plus.len());
    lemma_indices_concat(st.alignment, tail);
    assert(index_range(0, plus.len()) == index_range(0, st.plus_index) + index_range(st.plus_index, plus.len()));
    assert(index_range(0, minus.len()) + Seq::<usize>::empty() == index_range(0, minus.len()));
}

} // verus!
