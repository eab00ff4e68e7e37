//! Diff lines as coloured pieces: the syntax colours of the highlighter,
//! merged with the look of each kept, deleted or inserted section.

use crate::edits::{
    infer_edits, lemma_pairing_lists_every_line, pairing, section_texts, section_views,
    DistanceBound, EditOp, TokenRegex,
};
use crate::git::DiffLineType;
use crate::align::token_views;
use crate::theme::{Color, Style, Theme};
use crate::wrap::piece_views;
use syntect::easy::HighlightLines;
use syntect::highlighting::Theme as SyntaxTheme;
use syntect::parsing::{SyntaxReference, SyntaxSet};
use syntect::util::LinesWithEndings;
use vstd::prelude::*;
use vstd::seq_lib::lemma_flatten_concat;

verus! {

/// The entry point for highlighting the lines of a diff.
pub struct DiffEngine;

/// Highlighted stretches of a line as colours and texts.
pub open spec fn segment_views(v: Seq<(Option<Color>, String)>) -> Seq<(Option<Color>, Seq<char>)> {
    v.map_values(|e: (Option<Color>, String)| (e.0, e.1@))
}

/// The text that the segments spell out.
pub open spec fn segments_text(segs: Seq<(Option<Color>, Seq<char>)>) -> Seq<char> {
    segs.map_values(|e: (Option<Color>, Seq<char>)| e.1).flatten()
}

/// Where segment `k` starts in the text of the segments, in characters.
pub open spec fn segment_start(segs: Seq<(Option<Color>, Seq<char>)>, k: int) -> int {
    segments_text(segs.take(k)).len() as int
}

/// Whether a segment of `len` characters that starts at `at` has a
/// non-empty part in the range `rs..re`.
pub open spec fn cuts_segment(len: int, at: int, rs: int, re: int) -> bool {
    &&& !(at + len <= rs || at >= re)
    &&& cut_start(at, rs) < cut_end(len, at, re)
}

/// Where the part in `rs..` of a segment that starts at `at` begins, within the segment.
pub open spec fn cut_start(at: int, rs: int) -> int {
    if at < rs {
        rs - at
    } else {
        0
    }
}

/// Where the part in `..re` of a segment of `len` characters that starts
/// at `at` ends, within the segment.
pub open spec fn cut_end(len: int, at: int, re: int) -> int {
    if at + len > re {
        len - (at + len - re)
    } else {
        len
    }
}

/// The look of a piece: the section's colours where it has them, else the
/// syntax colour and the background of kept lines, else the terminal's.
pub open spec fn merged_style(syntax_fg: Option<Color>, diff_style: Style, context_bg: Option<Color>) -> Style {
    Style {
        fg: Some(
            match diff_style.fg {
                Some(c) => c,
                None => match syntax_fg {
                    Some(c) => c,
                    None => Color::Reset,
                },
            },
        ),
        bg: Some(
            match diff_style.bg {
                Some(c) => c,
                None => match context_bg {
                    Some(c) => c,
                    None => Color::Reset,
                },
            },
        ),
        bold: false,
    }
}

/// The parts in `rs..re` of the first `k` segments, each in its merged look.
pub open spec fn merge_parts(
    segs: Seq<(Option<Color>, Seq<char>)>,
    k: nat,
    rs: int,
    re: int,
    diff_style: Style,
    context_bg: Option<Color>,
) -> Seq<(Seq<char>, Style)>
    decreases k,
{
    if k == 0 {
        Seq::empty()
    } else {
        let p = (k - 1) as nat;
        let prev = merge_parts(segs, p, rs, re, diff_style, context_bg);
        let at = segment_start(segs, p as int);
        let text = segs[p as int].1;
        if cuts_segment(text.len() as int, at, rs, re) {
            prev.push(
                (
                    text.subrange(cut_start(at, rs), cut_end(text.len() as int, at, re)),
                    merged_style(segs[p as int].0, diff_style, context_bg),
                ),
            )
        } else {
            prev
        }
    }
}

/// How many of the first `k` segments have a part in `rs..re`.
pub open spec fn cut_count(segs: Seq<(Option<Color>, Seq<char>)>, k: nat, rs: int, re: int) -> nat
    decreases k,
{
    if k == 0 {
        0
    } else {
        let p = (k - 1) as nat;
        cut_count(segs, p, rs, re) + if cuts_segment(
            segs[p as int].1.len() as int,
            segment_start(segs, p as int),
            rs,
            re,
        ) {
            1nat
        } else {
            0nat
        }
    }
}

/// The range `rs..re` of the line in pieces: the parts of the segments that
/// lie in it, or, where none does, the range itself in the section's look.
pub open spec fn spec_merge(
    segs: Seq<(Option<Color>, Seq<char>)>,
    rs: int,
    re: int,
    diff_style: Style,
    context_bg: Option<Color>,
) -> Seq<(Seq<char>, Style)> {
    let parts = merge_parts(segs, segs.len(), rs, re, diff_style, context_bg);
    if parts.len() > 0 {
        parts
    } else {
        seq![(segments_text(segs).subrange(rs, re), merged_style(None, diff_style, context_bg))]
    }
}

/// The range can be cut out: some segment has a part in it, or it lies
/// within the text of the segments.
pub open spec fn merge_defined(segs: Seq<(Option<Color>, Seq<char>)>, rs: int, re: int) -> bool {
    cut_count(segs, segs.len(), rs, re) > 0 || 0 <= rs <= re <= segments_text(segs).len()
}

proof fn lemma_parts_count(
    segs: Seq<(Option<Color>, Seq<char>)>,
    k: nat,
    rs: int,
    re: int,
    diff_style: Style,
    context_bg: Option<Color>,
)
    ensures
        merge_parts(segs, k, rs, re, diff_style, context_bg).len() == cut_count(segs, k, rs, re),
    decreases k,
{
    if k > 0 {
        lemma_parts_count(segs, (k - 1) as nat, rs, re, diff_style, context_bg);
    }
}

/// The next segment starts where this one ends.
proof fn lemma_segment_start_step(segs: Seq<(Option<Color>, Seq<char>)>, k: int)
    requires
        0 <= k < segs.len(),
    ensures
        segment_start(segs, k + 1) == segment_start(segs, k) + segs[k].1.len(),
        segment_start(segs, k + 1) <= segments_text(segs).len(),
        segments_text(segs.take(k + 1)) == segments_text(segs.take(k)) + segs[k].1,
{
    let texts = segs.map_values(|e: (Option<Color>, Seq<char>)| e.1);
    assert(segs.take(k + 1).map_values(|e: (Option<Color>, Seq<char>)| e.1) =~= texts.take(k) + seq![
        segs[k].1,
    ]);
    assert(segs.take(k).map_values(|e: (Option<Color>, Seq<char>)| e.1) =~= texts.take(k));
    lemma_flatten_concat(texts.take(k), seq![segs[k].1]);
    seq![segs[k].1].lemma_flatten_one_element();
    assert(segs.map_values(|e: (Option<Color>, Seq<char>)| e.1) =~= texts.take(k + 1) + texts.skip(k + 1));
    assert(segs.take(k + 1).map_values(|e: (Option<Color>, Seq<char>)| e.1) =~= texts.take(k + 1));
    lemma_flatten_concat(texts.take(k + 1), texts.skip(k + 1));
}

/// The text the segments spell out, built one segment at a time.
fn full_display_text(segs: &Vec<(Option<Color>, String)>) -> (text: String)
    ensures
        text@ == segments_text(segment_views(segs@)),
{
    let ghost sv = segment_views(segs@);
    let mut text = String::new();
    let mut k: usize = 0;
    proof {
        assert(sv.take(0).map_values(|e: (Option<Color>, Seq<char>)| e.1) =~= Seq::<Seq<char>>::empty());
        assert(Seq::<Seq<char>>::empty().flatten() =~= Seq::<char>::empty());
    }
    while k < segs.len()
        invariant
            sv == segment_views(segs@),
            k <= segs.len(),
            text@ == segments_text(sv.take(k as int)),
        decreases segs.len() - k,
    {
        proof {
            lemma_segment_start_step(sv, k as int);
        }
        text.append(segs[k].1.as_str());
        k = k + 1;
    }
    proof {
        assert(sv.take(segs.len() as int) =~= sv);
    }
    text
}

/// The range `range_start..range_end` (in characters) of the line that the
/// syntax segments spell out, cut into pieces along the segments: each part
/// takes the section's colours where `diff_style` has them and the syntax
/// colour and `context_bg` otherwise. Where no segment has a part in the
/// range, the range comes back as one piece.
pub fn merge_syntax_into_diff(
    syntax_segments: &Vec<(Option<Color>, String)>,
    range_start: usize,
    range_end: usize,
    diff_style: Style,
    context_bg: Option<Color>,
) -> (spans: Vec<(String, Style)>)
    requires
        segments_text(segment_views(syntax_segments@)).len() <= usize::MAX,
        merge_defined(segment_views(syntax_segments@), range_start as int, range_end as int),
    ensures
        piece_views(spans@) == spec_merge(
            segment_views(syntax_segments@),
            range_start as int,
            range_end as int,
            diff_style,
            context_bg,
        ),
{
    let ghost sv = segment_views(syntax_segments@);
    let ghost rs = range_start as int;
    let ghost re = range_end as int;
    let mut spans: Vec<(String, Style)> = Vec::new();
    let mut char_pos: usize = 0;
    let mut k: usize = 0;
    proof {
        assert(sv.take(0).map_values(|e: (Option<Color>, Seq<char>)| e.1) =~= Seq::<Seq<char>>::empty());
        assert(piece_views(spans@) =~= Seq::<(Seq<char>, Style)>::empty());
    }
    while k < syntax_segments.len()
        invariant
            sv == segment_views(syntax_segments@),
            rs == range_start,
            re == range_end,
            k <= syntax_segments.len(),
            char_pos == segment_start(sv, k as int),
            segments_text(sv).len() <= usize::MAX,
            piece_views(spans@) == merge_parts(sv, k as nat, rs, re, diff_style, context_bg),
        decreases syntax_segments.len() - k,
    {
        proof {
            lemma_segment_start_step(sv, k as int);
        }
        let text = syntax_segments[k].1.as_str();
        let seg_len = text.unicode_len();
        let seg_start = char_pos;
        let seg_end = char_pos + seg_len;
        char_pos = seg_end;
        if !(seg_end <= range_start || seg_start >= range_end) {
            let start = if seg_start < range_start {
                range_start - seg_start
            } else {
                0
            };
            let end = if seg_end > range_end {
                seg_len - (seg_end - range_end)
            } else {
                seg_len
            };
            if start < end {
                let part = text.substring_char(start, end);
                let fg = match diff_style.fg {
                    Some(c) => c,
                    None => match syntax_segments[k].0 {
                        Some(c) => c,
                        None => Color::Reset,
                    },
                };
                let bg = match diff_style.bg {
                    Some(c) => c,
                    None => match context_bg {
                        Some(c) => c,
                        None => Color::Reset,
                    },
                };
                let piece = (String::from_str(part), Style { fg: Some(fg), bg: Some(bg), bold: false });
                proof {
                    assert(piece_views(spans@.push(piece)) =~= piece_views(spans@).push((piece.0@, piece.1)));
                }
                spans.push(piece);
            }
        }
        k = k + 1;
    }
    proof {
        assert(sv.take(syntax_segments.len() as int) =~= sv);
        lemma_parts_count(sv, sv.len(), rs, re, diff_style, context_bg);
    }
    if spans.len() == 0 {
        let full = full_display_text(syntax_segments);
        let text = full.as_str().substring_char(range_start, range_end);
        let fg = match diff_style.fg {
            Some(c) => c,
            None => Color::Reset,
        };
        let bg = match diff_style.bg {
            Some(c) => c,
            None => match context_bg {
                Some(c) => c,
                None => Color::Reset,
            },
        };
        spans.push((String::from_str(text), Style { fg: Some(fg), bg: Some(bg), bold: false }));
        proof {
            assert(piece_views(spans@) =~= seq![(text@, Style { fg: Some(fg), bg: Some(bg), bold: false })]);
        }
    }
    spans
}

/// Where section `k` of a line starts, in characters.
pub open spec fn section_offset(secs: Seq<(EditOp, Seq<char>)>, k: int) -> int {
    section_texts(secs.take(k)).flatten().len() as int
}

/// The look of a section: emphasised where it was deleted or inserted.
pub open spec fn section_style(op: EditOp, base_style: Style, emph_style: Style) -> Style {
    match op {
        EditOp::NoOp => base_style,
        _ => emph_style,
    }
}

/// The pieces of the first `k` sections, each cut along the syntax segments.
pub open spec fn sections_pieces(
    secs: Seq<(EditOp, Seq<char>)>,
    segs: Seq<(Option<Color>, Seq<char>)>,
    k: nat,
    base_style: Style,
    emph_style: Style,
    context_bg: Option<Color>,
) -> Seq<(Seq<char>, Style)>
    decreases k,
{
    if k == 0 {
        Seq::empty()
    } else {
        let p = (k - 1) as nat;
        let at = section_offset(secs, p as int);
        sections_pieces(secs, segs, p, base_style, emph_style, context_bg) + spec_merge(
            segs,
            at,
            at + secs[p as int].1.len(),
            section_style(secs[p as int].0, base_style, emph_style),
            context_bg,
        )
    }
}

/// Every section can be cut out of the syntax segments.
pub open spec fn sections_defined(
    secs: Seq<(EditOp, Seq<char>)>,
    segs: Seq<(Option<Color>, Seq<char>)>,
) -> bool {
    forall|k: int|
        0 <= k < secs.len() ==> #[trigger] merge_defined(
            segs,
            section_offset(secs, k),
            section_offset(secs, k) + secs[k].1.len(),
        )
}

proof fn lemma_section_offset_step(secs: Seq<(EditOp, Seq<char>)>, k: int)
    requires
        0 <= k < secs.len(),
    ensures
        section_offset(secs, k + 1) == section_offset(secs, k) + secs[k].1.len(),
        section_offset(secs, k + 1) <= section_texts(secs).flatten().len(),
        section_texts(secs.take(k + 1)).flatten() == section_texts(secs.take(k)).flatten() + secs[k].1,
{
    let texts = section_texts(secs);
    assert(section_texts(secs.take(k + 1)) =~= texts.take(k) + seq![secs[k].1]);
    assert(section_texts(secs.take(k)) =~= texts.take(k));
    lemma_flatten_concat(texts.take(k), seq![secs[k].1]);
    seq![secs[k].1].lemma_flatten_one_element();
    assert(texts =~= texts.take(k + 1) + texts.skip(k + 1));
    assert(section_texts(secs.take(k + 1)) =~= texts.take(k + 1));
    lemma_flatten_concat(texts.take(k + 1), texts.skip(k + 1));
}

/// Whether the range `range_start..range_end` can be cut out of the segments.
fn merge_is_defined(syntax_segments: &Vec<(Option<Color>, String)>, range_start: usize, range_end: usize) -> (r: bool)
    requires
        segments_text(segment_views(syntax_segments@)).len() <= usize::MAX,
    ensures
        r == merge_defined(segment_views(syntax_segments@), range_start as int, range_end as int),
{
    let ghost sv = segment_views(syntax_segments@);
    let ghost rs = range_start as int;
    let ghost re = range_end as int;
    let mut char_pos: usize = 0;
    let mut found = false;
    let mut k: usize = 0;
    proof {
        assert(sv.take(0).map_values(|e: (Option<Color>, Seq<char>)| e.1) =~= Seq::<Seq<char>>::empty());
    }
    while k < syntax_segments.len()
        invariant
            sv == segment_views(syntax_segments@),
            rs == range_start,
            re == range_end,
            k <= syntax_segments.len(),
            char_pos == segment_start(sv, k as int),
            segments_text(sv).len() <= usize::MAX,
            found == (cut_count(sv, k as nat, rs, re) > 0),
        decreases syntax_segments.len() - k,
    {
        proof {
            lemma_segment_start_step(sv, k as int);
        }
        let seg_len = syntax_segments[k].1.as_str().unicode_len();
        let seg_start = char_pos;
        let seg_end = char_pos + seg_len;
        char_pos = seg_end;
        if !(seg_end <= range_start || seg_start >= range_end) {
            let start = if seg_start < range_start {
                range_start - seg_start
            } else {
                0
            };
            let end = if seg_end > range_end {
                seg_len - (seg_end - range_end)
            } else {
                seg_len
            };
            if start < end {
                found = true;
            }
        }
        k = k + 1;
    }
    proof {
        assert(sv.take(syntax_segments.len() as int) =~= sv);
    }
    found || range_start <= range_end && range_end <= char_pos
}

/// The sections of an annotated line as pieces: each section is cut along
/// the syntax segments of the line and takes `emph_style` where it was
/// deleted or inserted and `base_style` where it was kept. `None` where a
/// section can be cut neither from the segments nor from their text.
pub fn spans_of_sections(
    sections: &Vec<(EditOp, &str)>,
    syntax_segments: &Vec<(Option<Color>, String)>,
    base_style: Style,
    emph_style: Style,
    context_bg: Option<Color>,
) -> (r: Option<Vec<(String, Style)>>)
    requires
        segments_text(segment_views(syntax_segments@)).len() <= usize::MAX,
        section_texts(section_views(sections@)).flatten().len() <= usize::MAX,
    ensures
        r is Some <==> sections_defined(section_views(sections@), segment_views(syntax_segments@)),
        r is Some ==> piece_views(r->0@) == sections_pieces(
            section_views(sections@),
            segment_views(syntax_segments@),
            sections@.len(),
            base_style,
            emph_style,
            context_bg,
        ),
{
    let ghost secs = section_views(sections@);
    let ghost sv = segment_views(syntax_segments@);
    let mut spans: Vec<(String, Style)> = Vec::new();
    let mut pos: usize = 0;
    let mut k: usize = 0;
    proof {
        assert(section_texts(secs.take(0)) =~= Seq::<Seq<char>>::empty());
        assert(piece_views(spans@) =~= Seq::<(Seq<char>, Style)>::empty());
    }
    while k < sections.len()
        invariant
            secs == section_views(sections@),
            sv == segment_views(syntax_segments@),
            segments_text(sv).len() <= usize::MAX,
            section_texts(secs).flatten().len() <= usize::MAX,
            k <= sections.len(),
            pos == section_offset(secs, k as int),
            forall|j: int|
                0 <= j < k ==> #[trigger] merge_defined(
                    sv,
                    section_offset(secs, j),
                    section_offset(secs, j) + secs[j].1.len(),
                ),
            piece_views(spans@) == sections_pieces(secs, sv, k as nat, base_style, emph_style, context_bg),
        decreases sections.len() - k,
    {
        proof {
            lemma_section_offset_step(secs, k as int);
        }
        let (op, section) = sections[k];
        let seg_start = pos;
        let seg_end = pos + section.unicode_len();
        pos = seg_end;
        let diff_style = match op {
            EditOp::Deletion | EditOp::Insertion => emph_style,
            EditOp::NoOp => base_style,
        };
        if !merge_is_defined(syntax_segments, seg_start, seg_end) {
            return None;
        }
        let mut part = merge_syntax_into_diff(syntax_segments, seg_start, seg_end, diff_style, context_bg);
        proof {
            assert(piece_views(spans@ + part@) =~= piece_views(spans@) + piece_views(part@));
        }
        spans.append(&mut part);
        k = k + 1;
    }
    Some(spans)
}

#[verifier::external_type_specification]
#[verifier::external_body]
pub struct ExSyntaxSet(SyntaxSet);

#[verifier::external_type_specification]
#[verifier::external_body]
pub struct ExSyntaxReference(SyntaxReference);

#[verifier::external_type_specification]
#[verifier::external_body]
pub struct ExSyntaxTheme(SyntaxTheme);

#[verifier::external_type_specification]
#[verifier::external_body]
pub struct ExHighlightLines<'a>(HighlightLines<'a>);

#[verifier::external_type_specification]
#[verifier::external_body]
pub struct ExSyntectError(syntect::Error);

/// A syntax found in a set of syntaxes, kept with that set: the highlighter
/// built from it must be run against the same set.
pub struct FoundSyntax<'s> {
    syntax: &'s SyntaxReference,
    syntaxes: &'s SyntaxSet,
}

/// A highlighter at some line of a text, kept with the set of syntaxes it
/// was built from, which every line it reads is parsed against.
pub struct LineHighlighter<'s> {
    highlighter: HighlightLines<'s>,
    syntaxes: &'s SyntaxSet,
}

/// `SyntaxSet::find_syntax_by_extension`: a syntax of the set that lists
/// `extension` among its file extensions (ignoring ASCII case), or `None`,
/// kept with the set. Which syntaxes the set holds is not visible here, so
/// nothing is stated of the result.
#[verifier::external_body]
fn find_syntax<'s>(syntaxes: &'s SyntaxSet, extension: &str) -> (r: Option<FoundSyntax<'s>>) {
    match syntaxes.find_syntax_by_extension(extension) {
        Some(syntax) => Some(FoundSyntax { syntax, syntaxes }),
        None => None,
    }
}

/// `HighlightLines::new`: a highlighter for the found syntax in the colours
/// of `colors`, at the start of a text, kept with the set the syntax came
/// from.
#[verifier::external_body]
fn start_highlighter<'s>(found: &FoundSyntax<'s>, colors: &'s SyntaxTheme) -> (h: LineHighlighter<'s>) {
    LineHighlighter { highlighter: HighlightLines::new(found.syntax, colors), syntaxes: found.syntaxes }
}

/// `lines` are the lines of `text` as `LinesWithEndings` cuts them: none is
/// empty, each but the last ends with a line feed, no other line feed
/// stands in one, and together they spell out `text`.
pub open spec fn is_line_split(lines: Seq<Seq<char>>, text: Seq<char>) -> bool {
    &&& lines.flatten() == text
    &&& forall|i: int| 0 <= i < lines.len() ==> #[trigger] lines[i].len() > 0
    &&& forall|i: int, j: int|
        0 <= i < lines.len() && 0 <= j < lines[i].len() - 1 ==> #[trigger] lines[i][j] != '\n'
    &&& forall|i: int| 0 <= i < lines.len() - 1 ==> #[trigger] lines[i].last() == '\n'
}

/// `LinesWithEndings::from`, collected: the lines of `text`, each with its
/// line ending. The iterator cuts after each line feed and at the end of
/// the text, and yields nothing for an empty rest.
#[verifier::external_body]
fn lines_with_endings(text: &str) -> (lines: Vec<&str>)
    ensures
        is_line_split(lines@.map_values(|l: &str| l@), text@),
{
    LinesWithEndings::from(text).collect()
}

/// `HighlightLines::highlight_line` against the highlighter's own set of
/// syntaxes, with each range's foreground colour as its red, green and blue
/// parts. On success the texts of the ranges spell out `line`, as the crate
/// documents for its highlight iterator; the colours depend on the
/// highlighter's state after the lines before, and are not stated.
#[verifier::external_body]
fn highlight_part<'b>(highlighter: &mut LineHighlighter, line: &'b str) -> (r: Result<
    Vec<((u8, u8, u8), &'b str)>,
    syntect::Error,
>)
    ensures
        match r {
            Ok(ranges) => ranges@.map_values(|p: ((u8, u8, u8), &'b str)| p.1@).flatten() == line@,
            Err(_) => true,
        },
{
    highlighter.highlighter.highlight_line(line, highlighter.syntaxes).map(
        |ranges| ranges.into_iter().map(|(s, t)| ((s.foreground.r, s.foreground.g, s.foreground.b), t)).collect(),
    )
}

/// The whole line as one segment without a syntax colour.
pub open spec fn plain_segments(line: Seq<char>) -> Seq<(Option<Color>, Seq<char>)> {
    seq![(None, line)]
}

/// Every segment has a syntax colour.
pub open spec fn all_colored(segs: Seq<(Option<Color>, Seq<char>)>) -> bool {
    forall|k: int| 0 <= k < segs.len() ==> (#[trigger] segs[k]).0 is Some
}

proof fn lemma_flatten_take_step(texts: Seq<Seq<char>>, k: int)
    requires
        0 <= k < texts.len(),
    ensures
        texts.take(k + 1).flatten() == texts.take(k).flatten() + texts[k],
        texts.take(k + 1).flatten().len() <= texts.flatten().len(),
{
    assert(texts.take(k + 1) =~= texts.take(k) + seq![texts[k]]);
    lemma_flatten_concat(texts.take(k), seq![texts[k]]);
    seq![texts[k]].lemma_flatten_one_element();
    assert(texts =~= texts.take(k + 1) + texts.skip(k + 1));
    lemma_flatten_concat(texts.take(k + 1), texts.skip(k + 1));
}

/// The highlighter's ranges of one line as colours and texts.
pub open spec fn range_views(v: Seq<((u8, u8, u8), String)>) -> Seq<((u8, u8, u8), Seq<char>)> {
    v.map_values(|p: ((u8, u8, u8), String)| (p.0, p.1@))
}

/// The highlighter's result for each line: its ranges, or `None` where it
/// failed on the line.
pub open spec fn result_views(v: Seq<Option<Vec<((u8, u8, u8), String)>>>) -> Seq<
    Option<Seq<((u8, u8, u8), Seq<char>)>>,
> {
    v.map_values(
        |o: Option<Vec<((u8, u8, u8), String)>>|
            match o {
                Some(w) => Some(range_views(w@)),
                None => None,
            },
    )
}

/// The texts of ranges.
pub open spec fn range_texts(v: Seq<((u8, u8, u8), Seq<char>)>) -> Seq<Seq<char>> {
    v.map_values(|p: ((u8, u8, u8), Seq<char>)| p.1)
}

/// The ranges of one line as segments, each in its colour.
pub open spec fn colored_ranges(v: Seq<((u8, u8, u8), Seq<char>)>) -> Seq<(Option<Color>, Seq<char>)> {
    v.map_values(|p: ((u8, u8, u8), Seq<char>)| (Some(Color::Rgb(p.0.0, p.0.1, p.0.2)), p.1))
}

/// The ranges of every line the highlighter read, in order, each in its
/// colour; lines it failed on give nothing.
pub open spec fn ranges_segments(results: Seq<Option<Seq<((u8, u8, u8), Seq<char>)>>>) -> Seq<
    (Option<Color>, Seq<char>),
>
    decreases results.len(),
{
    if results.len() == 0 {
        Seq::empty()
    } else {
        ranges_segments(results.drop_last()) + match results.last() {
            Some(v) => colored_ranges(v),
            None => Seq::empty(),
        }
    }
}

/// The segments of `line` from the highlighter's results for its lines:
/// the coloured ranges in order, or the plain line where there are none.
pub open spec fn spec_segments_from_ranges(
    results: Seq<Option<Seq<((u8, u8, u8), Seq<char>)>>>,
    line: Seq<char>,
) -> Seq<(Option<Color>, Seq<char>)> {
    let segs = ranges_segments(results);
    if segs.len() == 0 {
        plain_segments(line)
    } else {
        segs
    }
}

/// `results` can come from highlighting `line` line by line: one result
/// for each line as `LinesWithEndings` cuts it, each successful one
/// spelling out its line.
pub open spec fn highlight_outcome(results: Seq<Option<Seq<((u8, u8, u8), Seq<char>)>>>, line: Seq<char>) -> bool {
    exists|lines: Seq<Seq<char>>|
        #[trigger] is_line_split(lines, line) && lines.len() == results.len() && forall|i: int|
            0 <= i < results.len() ==> (#[trigger] results[i] matches Some(v) ==> range_texts(v).flatten()
                == lines[i])
}

/// What highlighting `line` can give: the segments from some results that
/// highlighting it line by line can give.
pub open spec fn highlighter_result(segs: Seq<(Option<Color>, Seq<char>)>, line: Seq<char>) -> bool {
    exists|results: Seq<Option<Seq<((u8, u8, u8), Seq<char>)>>>|
        #[trigger] highlight_outcome(results, line) && segs == spec_segments_from_ranges(results, line)
}

proof fn lemma_segments_text_concat(a: Seq<(Option<Color>, Seq<char>)>, b: Seq<(Option<Color>, Seq<char>)>)
    ensures
        segments_text(a + b) == segments_text(a) + segments_text(b),
{
    assert((a + b).map_values(|e: (Option<Color>, Seq<char>)| e.1) =~= a.map_values(
        |e: (Option<Color>, Seq<char>)| e.1,
    ) + b.map_values(|e: (Option<Color>, Seq<char>)| e.1));
    lemma_flatten_concat(
        a.map_values(|e: (Option<Color>, Seq<char>)| e.1),
        b.map_values(|e: (Option<Color>, Seq<char>)| e.1),
    );
}

/// The coloured ranges of the lines the highlighter read spell out those
/// lines, so no more than the whole text; and every one has a colour.
proof fn lemma_ranges_segments_bound(
    results: Seq<Option<Seq<((u8, u8, u8), Seq<char>)>>>,
    lines: Seq<Seq<char>>,
)
    requires
        lines.len() == results.len(),
        forall|i: int|
            0 <= i < results.len() ==> (#[trigger] results[i] matches Some(v) ==> range_texts(v).flatten()
                == lines[i]),
    ensures
        segments_text(ranges_segments(results)).len() <= lines.flatten().len(),
        all_colored(ranges_segments(results)),
    decreases results.len(),
{
    if results.len() > 0 {
        let p = results.drop_last();
        let q = lines.drop_last();
        assert forall|i: int| 0 <= i < p.len() implies (#[trigger] p[i] matches Some(v)
            ==> range_texts(v).flatten() == q[i]) by {
            assert(p[i] == results[i]);
        }
        lemma_ranges_segments_bound(p, q);
        let tail = match results.last() {
            Some(v) => colored_ranges(v),
            None => Seq::<(Option<Color>, Seq<char>)>::empty(),
        };
        lemma_segments_text_concat(ranges_segments(p), tail);
        assert(lines =~= q + seq![lines.last()]);
        lemma_flatten_concat(q, seq![lines.last()]);
        seq![lines.last()].lemma_flatten_one_element();
        match results.last() {
            Some(v) => {
                assert(results[results.len() - 1] == results.last());
                assert(tail.map_values(|e: (Option<Color>, Seq<char>)| e.1) =~= range_texts(v));
            },
            None => {
                assert(tail.map_values(|e: (Option<Color>, Seq<char>)| e.1) =~= Seq::<Seq<char>>::empty());
            },
        }
        let all = ranges_segments(p) + tail;
        assert forall|k: int| 0 <= k < all.len() implies (#[trigger] all[k]).0 is Some by {
            if k >= ranges_segments(p).len() {
                assert(all[k] == tail[k - ranges_segments(p).len()]);
            }
        }
    }
}

/// Lines that the highlighter failed on give no segments.
proof fn lemma_failed_lines_give_nothing(results: Seq<Option<Seq<((u8, u8, u8), Seq<char>)>>>)
    requires
        forall|i: int| 0 <= i < results.len() ==> #[trigger] results[i] is None,
    ensures
        ranges_segments(results) == Seq::<(Option<Color>, Seq<char>)>::empty(),
    decreases results.len(),
{
    if results.len() > 0 {
        let p = results.drop_last();
        assert forall|i: int| 0 <= i < p.len() implies #[trigger] p[i] is None by {
            assert(p[i] == results[i]);
        }
        lemma_failed_lines_give_nothing(p);
        assert(results[results.len() - 1] is None);
    }
}

/// What highlighting gives, bounded: the plain line or coloured segments,
/// spelling out at most the line.
proof fn lemma_highlighter_result_bounds(segs: Seq<(Option<Color>, Seq<char>)>, line: Seq<char>)
    requires
        highlighter_result(segs, line),
    ensures
        segs == plain_segments(line) || (segs.len() > 0 && all_colored(segs)),
        segments_text(segs).len() <= line.len(),
{
    let results = choose|results: Seq<Option<Seq<((u8, u8, u8), Seq<char>)>>>|
        #[trigger] highlight_outcome(results, line) && segs == spec_segments_from_ranges(results, line);
    let lines = choose|lines: Seq<Seq<char>>|
        #[trigger] is_line_split(lines, line) && lines.len() == results.len() && forall|i: int|
            0 <= i < results.len() ==> (#[trigger] results[i] matches Some(v) ==> range_texts(v).flatten()
                == lines[i]);
    lemma_ranges_segments_bound(results, lines);
    assert(plain_segments(line).map_values(|e: (Option<Color>, Seq<char>)| e.1) =~= seq![line]);
    seq![line].lemma_flatten_one_element();
}

/// The segments of `full_line` from the highlighter's result for each of
/// its lines: every range of every line it read, in order, in the range's
/// colour; the whole line without a colour where there is no range.
pub fn segments_from_ranges(
    results: &Vec<Option<Vec<((u8, u8, u8), String)>>>,
    full_line: &str,
) -> (segs: Vec<(Option<Color>, String)>)
    ensures
        segment_views(segs@) == spec_segments_from_ranges(result_views(results@), full_line@),
{
    let ghost rv = result_views(results@);
    let mut segments: Vec<(Option<Color>, String)> = Vec::new();
    let mut i: usize = 0;
    proof {
        assert(rv.take(0) =~= Seq::<Option<Seq<((u8, u8, u8), Seq<char>)>>>::empty());
        assert(segment_views(segments@) =~= ranges_segments(rv.take(0)));
    }
    while i < results.len()
        invariant
            rv == result_views(results@),
            i <= results.len(),
            segment_views(segments@) == ranges_segments(rv.take(i as int)),
        decreases results.len() - i,
    {
        let ghost before = segment_views(segments@);
        proof {
            assert(rv.take(i + 1).drop_last() =~= rv.take(i as int));
            assert(rv.take(i + 1).last() == rv[i as int]);
        }
        match &results[i] {
            Some(ranges) => {
                let ghost cr = colored_ranges(range_views(ranges@));
                let mut j: usize = 0;
                proof {
                    assert(before + cr.take(0) =~= before);
                }
                while j < ranges.len()
                    invariant
                        cr == colored_ranges(range_views(ranges@)),
                        j <= ranges.len(),
                        segment_views(segments@) == before + cr.take(j as int),
                    decreases ranges.len() - j,
                {
                    let (r, g, b) = ranges[j].0;
                    let seg = (Some(Color::Rgb(r, g, b)), String::from_str(ranges[j].1.as_str()));
                    proof {
                        assert(segment_views(segments@.push(seg)) =~= segment_views(segments@).push(
                            (seg.0, seg.1@),
                        ));
                        assert(cr[j as int] == (seg.0, seg.1@));
                        assert(cr.take(j + 1) =~= cr.take(j as int).push(cr[j as int]));
                    }
                    segments.push(seg);
                    j = j + 1;
                }
                proof {
                    assert(cr.take(ranges.len() as int) =~= cr);
                    assert(rv[i as int] == Some(range_views(ranges@)));
                }
            },
            None => {
                proof {
                    assert(before + Seq::<(Option<Color>, Seq<char>)>::empty() =~= before);
                }
            },
        }
        i = i + 1;
    }
    proof {
        assert(rv.take(results.len() as int) =~= rv);
    }
    if segments.len() == 0 {
        segments.push((None, String::from_str(full_line)));
        proof {
            assert(segment_views(segments@) =~= plain_segments(full_line@));
        }
    }
    segments
}

/// The syntax colours of `full_line` for a file with `extension`: the line
/// is cut into its lines, a highlighter for the syntax of the extension
/// reads them in order, and the segments are built from its result for
/// each line (`segments_from_ranges`). Where the extension is empty or no
/// syntax has it, every line counts as failed, which gives the plain line.
pub fn get_syntax_segments(
    full_line: &str,
    extension: &str,
    syntaxes: &SyntaxSet,
    colors: &SyntaxTheme,
) -> (segs: Vec<(Option<Color>, String)>)
    ensures
        extension@.len() == 0 ==> segment_views(segs@) == plain_segments(full_line@),
        highlighter_result(segment_views(segs@), full_line@),
        segment_views(segs@) == plain_segments(full_line@) || (segs@.len() > 0 && all_colored(
            segment_views(segs@),
        )),
        segments_text(segment_views(segs@)).len() <= full_line@.len(),
{
    let lines = lines_with_endings(full_line);
    let ghost line_texts = lines@.map_values(|l: &str| l@);
    let ghost none_results = Seq::new(
        line_texts.len(),
        |i: int| None::<Seq<((u8, u8, u8), Seq<char>)>>,
    );
    proof {
        lemma_failed_lines_give_nothing(none_results);
        assert(highlight_outcome(none_results, full_line@));
    }
    let found = if extension.unicode_len() == 0 {
        None
    } else {
        find_syntax(syntaxes, extension)
    };
    let found = match found {
        Some(f) => f,
        None => {
            let segs = vec![(None, String::from_str(full_line))];
            proof {
                assert(segment_views(segs@) =~= plain_segments(full_line@));
                assert(highlighter_result(segment_views(segs@), full_line@));
                lemma_highlighter_result_bounds(segment_views(segs@), full_line@);
            }
            return segs;
        },
    };
    let mut highlighter = start_highlighter(&found, colors);
    let mut results: Vec<Option<Vec<((u8, u8, u8), String)>>> = Vec::new();
    let mut i: usize = 0;
    while i < lines.len()
        invariant
            line_texts == lines@.map_values(|l: &str| l@),
            i <= lines.len(),
            results@.len() == i,
            forall|k: int|
                0 <= k < i ==> (#[trigger] result_views(results@)[k] matches Some(v) ==> range_texts(
                    v,
                ).flatten() == line_texts[k]),
        decreases lines.len() - i,
    {
        let ghost before = results@;
        match highlight_part(&mut highlighter, lines[i]) {
            Ok(ranges) => {
                let mut owned: Vec<((u8, u8, u8), String)> = Vec::new();
                let mut j: usize = 0;
                while j < ranges.len()
                    invariant
                        j <= ranges.len(),
                        range_views(owned@) == ranges@.map_values(
                            |p: ((u8, u8, u8), &str)| (p.0, p.1@),
                        ).take(j as int),
                    decreases ranges.len() - j,
                {
                    let item = (ranges[j].0, String::from_str(ranges[j].1));
                    proof {
                        let all = ranges@.map_values(|p: ((u8, u8, u8), &str)| (p.0, p.1@));
                        assert(range_views(owned@.push(item)) =~= range_views(owned@).push((item.0, item.1@)));
                        assert(all.take(j + 1) =~= all.take(j as int).push(all[j as int]));
                    }
                    owned.push(item);
                    j = j + 1;
                }
                proof {
                    let all = ranges@.map_values(|p: ((u8, u8, u8), &str)| (p.0, p.1@));
                    assert(all.take(ranges.len() as int) =~= all);
                    assert(range_texts(range_views(owned@)) =~= ranges@.map_values(
                        |p: ((u8, u8, u8), &str)| p.1@,
                    ));
                    assert(range_texts(range_views(owned@)).flatten() == line_texts[i as int]);
                }
                let ghost owned_view = range_views(owned@);
                results.push(Some(owned));
                proof {
                    assert(result_views(results@)[i as int] == Some(owned_view));
                    assert forall|k: int| 0 <= k < i + 1 implies (#[trigger] result_views(results@)[k] matches Some(
                        v,
                    ) ==> range_texts(v).flatten() == line_texts[k]) by {
                        if k < i {
                            assert(results@[k] == before[k]);
                            assert(result_views(results@)[k] == result_views(before)[k]);
                        }
                    }
                }
            },
            Err(_) => {
                results.push(None);
                proof {
                    assert forall|k: int| 0 <= k < i + 1 implies (#[trigger] result_views(results@)[k] matches Some(
                        v,
                    ) ==> range_texts(v).flatten() == line_texts[k]) by {
                        if k < i {
                            assert(results@[k] == before[k]);
                            assert(result_views(results@)[k] == result_views(before)[k]);
                        }
                    }
                }
            },
        }
        i = i + 1;
    }
    let segs = segments_from_ranges(&results, full_line);
    proof {
        let rv = result_views(results@);
        assert(highlight_outcome(rv, full_line@));
        assert(highlighter_result(segment_views(segs@), full_line@));
        lemma_highlighter_result_bounds(segment_views(segs@), full_line@);
    }
    segs
}

/// The pieces of a line highlighted on its own: the whole line in
/// `base_style` where the segments are one uncoloured segment, else each
/// segment in its colour on the line's background.
pub open spec fn spec_syntax_pieces(
    segs: Seq<(Option<Color>, Seq<char>)>,
    line: Seq<char>,
    base_style: Style,
) -> Seq<(Seq<char>, Style)> {
    if segs.len() == 1 && segs[0].0 is None {
        seq![(line, base_style)]
    } else {
        segs.map_values(
            |e: (Option<Color>, Seq<char>)|
                (
                    e.1,
                    Style {
                        fg: e.0,
                        bg: Some(
                            match base_style.bg {
                                Some(c) => c,
                                None => Color::Reset,
                            },
                        ),
                        bold: false,
                    },
                ),
        )
    }
}


/// The pieces of a line highlighted on its own from its syntax segments.
pub fn syntax_pieces(
    syntax_segments: &Vec<(Option<Color>, String)>,
    line: &str,
    base_style: Style,
) -> (pieces: Vec<(String, Style)>)
    ensures
        piece_views(pieces@) == spec_syntax_pieces(segment_views(syntax_segments@), line@, base_style),
{
    let ghost sv = segment_views(syntax_segments@);
    if syntax_segments.len() == 1 && syntax_segments[0].0.is_none() {
        let pieces = vec![(String::from_str(line), base_style)];
        proof {
            assert(piece_views(pieces@) =~= seq![(line@, base_style)]);
        }
        return pieces;
    }
    let bg = match base_style.bg {
        Some(c) => c,
        None => Color::Reset,
    };
    let mut pieces: Vec<(String, Style)> = Vec::new();
    let mut k: usize = 0;
    while k < syntax_segments.len()
        invariant
            sv == segment_views(syntax_segments@),
            !(sv.len() == 1 && sv[0].0 is None),
            bg == (match base_style.bg {
                Some(c) => c,
                None => Color::Reset,
            }),
            k <= syntax_segments.len(),
            piece_views(pieces@) == spec_syntax_pieces(sv, line@, base_style).take(k as int),
        decreases syntax_segments.len() - k,
    {
        let piece = (
            String::from_str(syntax_segments[k].1.as_str()),
            Style { fg: syntax_segments[k].0, bg: Some(bg), bold: false },
        );
        proof {
            let sp = spec_syntax_pieces(sv, line@, base_style);
            assert(sv[k as int] == (syntax_segments@[k as int].0, syntax_segments@[k as int].1@));
            assert(sp[k as int] == (piece.0@, piece.1));
            assert(piece_views(pieces@.push(piece)) =~= piece_views(pieces@).push((piece.0@, piece.1)));
            assert(sp.take(k + 1) =~= sp.take(k as int).push(sp[k as int]));
        }
        pieces.push(piece);
        k = k + 1;
    }
    proof {
        assert(spec_syntax_pieces(sv, line@, base_style).take(k as int) =~= spec_syntax_pieces(
            sv,
            line@,
            base_style,
        ));
    }
    pieces
}

/// The look of a diff line of each kind.
pub open spec fn line_style(theme: Theme, line_type: DiffLineType) -> Style {
    match line_type {
        DiffLineType::Add => Style { fg: Some(theme.diff_add_fg), bg: None, bold: false },
        DiffLineType::Delete => Style { fg: Some(theme.diff_delete_fg), bg: None, bold: false },
        DiffLineType::Context => Style { fg: None, bg: Some(theme.diff_context_bg), bold: false },
        DiffLineType::Header => Style { fg: Some(theme.diff_header_fg), bg: None, bold: true },
    }
}

/// The look of the changed words of a line in `s`: its colours swapped.
pub open spec fn spec_emphasis(s: Style) -> Style {
    Style { fg: s.bg, bg: s.fg, bold: true }
}

/// The look of the changed words of a line in `s`.
pub fn emphasis(s: Style) -> (e: Style)
    ensures
        e == spec_emphasis(s),
{
    Style { fg: s.bg, bg: s.fg, bold: true }
}

/// The section pieces as values, where there are any.
pub open spec fn opt_pieces(r: Option<Vec<(String, Style)>>) -> Option<Seq<(Seq<char>, Style)>> {
    match r {
        Some(v) => Some(piece_views(v@)),
        None => None,
    }
}

/// The outcome of cutting the sections `secs` along the segments `segs`.
pub open spec fn sections_outcome(
    r: Option<Seq<(Seq<char>, Style)>>,
    secs: Seq<(EditOp, Seq<char>)>,
    segs: Seq<(Option<Color>, Seq<char>)>,
    base_style: Style,
    emph_style: Style,
    context_bg: Option<Color>,
) -> bool {
    &&& r is Some <==> sections_defined(secs, segs)
    &&& r is Some ==> r->0 == sections_pieces(secs, segs, secs.len(), base_style, emph_style, context_bg)
}

impl DiffEngine {
    /// A line highlighted on its own in `base_style`: the syntax colours of
    /// its segments on the line's background, or the whole line in
    /// `base_style` where there are none.
    pub fn syntax_highlight(
        line: &str,
        extension: &str,
        base_style: Style,
        syntaxes: &SyntaxSet,
        colors: &SyntaxTheme,
    ) -> (spans: Vec<(String, Style)>)
        ensures
            extension@.len() == 0 ==> piece_views(spans@) == seq![(line@, base_style)],
            exists|segs: Seq<(Option<Color>, Seq<char>)>|
                #[trigger] highlighter_result(segs, line@) && piece_views(spans@)
                    == spec_syntax_pieces(segs, line@, base_style),
    {
        let segs = get_syntax_segments(line, extension, syntaxes, colors);
        let spans = syntax_pieces(&segs, line, base_style);
        proof {
            assert(highlighter_result(segment_views(segs@), line@));
            if extension@.len() == 0 {
                assert(segment_views(segs@)[0].0 is None);
            }
        }
        spans
    }

    /// A diff line of kind `line_type`, highlighted in the theme's look for
    /// that kind.
    pub fn highlight_line(
        line: &str,
        line_type: DiffLineType,
        extension: &str,
        theme: &Theme,
        syntaxes: &SyntaxSet,
        colors: &SyntaxTheme,
    ) -> (spans: Vec<(String, Style)>)
        ensures
            extension@.len() == 0 ==> piece_views(spans@) == seq![(line@, line_style(*theme, line_type))],
            exists|segs: Seq<(Option<Color>, Seq<char>)>|
                #[trigger] highlighter_result(segs, line@) && piece_views(spans@)
                    == spec_syntax_pieces(segs, line@, line_style(*theme, line_type)),
    {
        let base_style = match line_type {
            DiffLineType::Add => theme.diff_add(false),
            DiffLineType::Delete => theme.diff_delete(false),
            DiffLineType::Context => theme.diff_context(false),
            DiffLineType::Header => theme.diff_header(),
        };
        Self::syntax_highlight(line, extension, base_style, syntaxes, colors)
    }
}

/// The line that the sections of an annotated line spell out.
pub open spec fn sections_line(secs: Seq<(EditOp, Seq<char>)>) -> Seq<char> {
    section_texts(secs).flatten()
}

/// The pieces of both lines of a pair, where there are any.
pub open spec fn opt_pair_pieces(r: Option<(Vec<(String, Style)>, Vec<(String, Style)>)>) -> Option<
    (Seq<(Seq<char>, Style)>, Seq<(Seq<char>, Style)>),
> {
    match r {
        Some(p) => Some((piece_views(p.0@), piece_views(p.1@))),
        None => None,
    }
}


/// The outcome of highlighting a line pair: pieces for both lines exactly
/// where every section of both can be cut, each line in the theme's look
/// for its side with its changed words emphasised.
pub open spec fn pair_outcome(
    r: Option<(Seq<(Seq<char>, Style)>, Seq<(Seq<char>, Style)>)>,
    minus_secs: Seq<(EditOp, Seq<char>)>,
    minus_segs: Seq<(Option<Color>, Seq<char>)>,
    plus_secs: Seq<(EditOp, Seq<char>)>,
    plus_segs: Seq<(Option<Color>, Seq<char>)>,
    theme: Theme,
) -> bool {
    let minus_base = line_style(theme, DiffLineType::Delete);
    let plus_base = line_style(theme, DiffLineType::Add);
    let cbg = Some(theme.diff_context_bg);
    &&& r is Some <==> sections_defined(minus_secs, minus_segs) && sections_defined(plus_secs, plus_segs)
    &&& match r {
        Some((m, p)) => {
            &&& m == sections_pieces(
                minus_secs,
                minus_segs,
                minus_secs.len(),
                minus_base,
                spec_emphasis(minus_base),
                cbg,
            )
            &&& p == sections_pieces(
                plus_secs,
                plus_segs,
                plus_secs.len(),
                plus_base,
                spec_emphasis(plus_base),
                cbg,
            )
        },
        None => true,
    }
}

/// Segments that spell out the whole line cut every section of it.
proof fn lemma_covering_segments_cut_all(
    secs: Seq<(EditOp, Seq<char>)>,
    segs: Seq<(Option<Color>, Seq<char>)>,
)
    requires
        segments_text(segs) == sections_line(secs),
    ensures
        sections_defined(secs, segs),
{
    assert forall|k: int| 0 <= k < secs.len() implies #[trigger] merge_defined(
        segs,
        section_offset(secs, k),
        section_offset(secs, k) + secs[k].1.len(),
    ) by {
        lemma_section_offset_step(secs, k);
    }
}

impl DiffEngine {
    /// The sections of an annotated line as pieces: the line they spell out
    /// is highlighted for `extension`, and each section is cut along the
    /// highlighted segments in `emph_style` where it was deleted or inserted
    /// and in `base_style` where it was kept. `None` where the highlighter
    /// left out a part of the line that a section needs; never where the
    /// extension is empty.
    pub fn annotated_line_to_spans(
        sections: &Vec<(EditOp, &str)>,
        extension: &str,
        base_style: Style,
        emph_style: Style,
        context_bg: Option<Color>,
        syntaxes: &SyntaxSet,
        colors: &SyntaxTheme,
    ) -> (r: Option<Vec<(String, Style)>>)
        ensures
            extension@.len() == 0 ==> r is Some,
            exists|segs: Seq<(Option<Color>, Seq<char>)>|
                #[trigger] highlighter_result(segs, sections_line(section_views(sections@)))
                    && sections_outcome(
                    opt_pieces(r),
                    section_views(sections@),
                    segs,
                    base_style,
                    emph_style,
                    context_bg,
                ),
    {
        let ghost secs = section_views(sections@);
        let mut full_line = String::new();
        let mut k: usize = 0;
        proof {
            assert(section_texts(secs.take(0)) =~= Seq::<Seq<char>>::empty());
            assert(Seq::<Seq<char>>::empty().flatten() =~= Seq::<char>::empty());
        }
        while k < sections.len()
            invariant
                secs == section_views(sections@),
                k <= sections.len(),
                full_line@ == section_texts(secs.take(k as int)).flatten(),
            decreases sections.len() - k,
        {
            proof {
                lemma_section_offset_step(secs, k as int);
            }
            full_line.append(sections[k].1);
            k = k + 1;
        }
        proof {
            assert(secs.take(sections.len() as int) =~= secs);
        }
        let line_len = full_line.as_str().unicode_len();
        let segs = get_syntax_segments(full_line.as_str(), extension, syntaxes, colors);
        let r = spans_of_sections(sections, &segs, base_style, emph_style, context_bg);
        proof {
            let sv = segment_views(segs@);
            assert(highlighter_result(sv, sections_line(secs)));
            assert(sections_outcome(opt_pieces(r), secs, sv, base_style, emph_style, context_bg));
            if extension@.len() == 0 {
                assert(sv.map_values(|e: (Option<Color>, Seq<char>)| e.1) =~= seq![full_line@]);
                seq![full_line@].lemma_flatten_one_element();
                lemma_covering_segments_cut_all(secs, sv);
            }
        }
        r
    }

    /// A deleted line and the added line that replaced it as pieces, with
    /// the changed words emphasised: the lines are paired and annotated as
    /// `infer_edits` does with the word pattern of `regex`, each kept section
    /// in the theme's look for its side and each changed one in its
    /// emphasis. `None` where the highlighter left out a part of a line that
    /// a section needs; never where the extension is empty.
    pub fn highlight_line_pair(
        minus_line: &str,
        plus_line: &str,
        extension: &str,
        theme: &Theme,
        regex: &TokenRegex,
        syntaxes: &SyntaxSet,
        colors: &SyntaxTheme,
    ) -> (r: Option<(Vec<(String, Style)>, Vec<(String, Style)>)>)
        requires
            minus_line@.len() <= usize::MAX / 12,
            plus_line@.len() <= usize::MAX / 12,
        ensures
            extension@.len() == 0 ==> r is Some,
            ({
                let st = pairing(
                    regex@,
                    seq![minus_line@],
                    seq![plus_line@],
                    DistanceBound { numer: 1, denom: 1 },
                    DistanceBound { numer: 0, denom: 1 },
                );
                exists|sm: Seq<(Option<Color>, Seq<char>)>, sp: Seq<(Option<Color>, Seq<char>)>|
                    #![trigger highlighter_result(sm, sections_line(st.minus[0])), highlighter_result(sp, sections_line(st.plus[0]))]
                    highlighter_result(sm, sections_line(st.minus[0])) && highlighter_result(
                        sp,
                        sections_line(st.plus[0]),
                    ) && pair_outcome(opt_pair_pieces(r), st.minus[0], sm, st.plus[0], sp, *theme)
            }),
    {
        let minus_lines = vec![minus_line];
        let plus_lines = vec![plus_line];
        let ghost max = DistanceBound { numer: 1, denom: 1 };
        let ghost naive = DistanceBound { numer: 0, denom: 1 };
        proof {
            assert(token_views(minus_lines@) =~= seq![minus_line@]);
            assert(token_views(plus_lines@) =~= seq![plus_line@]);
            lemma_pairing_lists_every_line(regex@, seq![minus_line@], seq![plus_line@], max, naive);
        }
        let (annotated_minus, annotated_plus, _) = infer_edits(
            minus_lines,
            plus_lines,
            regex,
            DistanceBound { numer: 1, denom: 1 },
            DistanceBound { numer: 0, denom: 1 },
        );
        let ghost st = pairing(regex@, seq![minus_line@], seq![plus_line@], max, naive);
        proof {
            assert(section_views(annotated_minus@[0]@) == st.minus[0]);
            assert(section_views(annotated_plus@[0]@) == st.plus[0]);
        }
        let minus_base = theme.diff_delete(false);
        let plus_base = theme.diff_add(false);
        let context_bg = Some(theme.diff_context_bg);
        let minus_spans = Self::annotated_line_to_spans(
            &annotated_minus[0],
            extension,
            minus_base,
            emphasis(minus_base),
            context_bg,
            syntaxes,
            colors,
        );
        let plus_spans = Self::annotated_line_to_spans(
            &annotated_plus[0],
            extension,
            plus_base,
            emphasis(plus_base),
            context_bg,
            syntaxes,
            colors,
        );
        let ghost sm = choose|segs: Seq<(Option<Color>, Seq<char>)>|
            #[trigger] highlighter_result(segs, sections_line(st.minus[0])) && sections_outcome(
                opt_pieces(minus_spans),
                st.minus[0],
                segs,
                minus_base,
                spec_emphasis(minus_base),
                context_bg,
            );
        let ghost sp = choose|segs: Seq<(Option<Color>, Seq<char>)>|
            #[trigger] highlighter_result(segs, sections_line(st.plus[0])) && sections_outcome(
                opt_pieces(plus_spans),
                st.plus[0],
                segs,
                plus_base,
                spec_emphasis(plus_base),
                context_bg,
            );
        let r = match (minus_spans, plus_spans) {
            (Some(m), Some(p)) => Some((m, p)),
            _ => None,
        };
        proof {
            assert(highlighter_result(sm, sections_line(st.minus[0])));
            assert(highlighter_result(sp, sections_line(st.plus[0])));
            assert(pair_outcome(opt_pair_pieces(r), st.minus[0], sm, st.plus[0], sp, *theme));
        }
        r
    }
}

} // verus!
