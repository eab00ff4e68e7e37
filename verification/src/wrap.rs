//! Laying out styled text in terminal columns: cutting a line of styled
//! pieces into rows of a given width, marking each cut with `↴`.

use crate::edits::{display_width, text_width};
use crate::theme::{hex_digit, hex_digit_text};
use vstd::prelude::*;

verus! {

/// The columns a single character takes, as the width of the one-character
/// text.
pub open spec fn char_width(c: char) -> nat {
    display_width(seq![c]) as nat
}

/// How many leading characters of `s` fit in `avail` columns, counting
/// each character by its own width.
pub open spec fn fit_count(s: Seq<char>, avail: int) -> nat
    decreases s.len(),
{
    if s.len() == 0 {
        0
    } else if char_width(s[0]) > avail {
        0
    } else {
        1 + fit_count(s.drop_first(), avail - char_width(s[0]))
    }
}

/// The first `n` characters of `s`, with the cut mark when characters were
/// left out.
pub open spec fn cut_text(s: Seq<char>, n: nat) -> Seq<char> {
    if n < s.len() {
        s.take(n as int).push('↴')
    } else {
        s
    }
}

pub proof fn lemma_fit_count_len(s: Seq<char>, avail: int)
    ensures
        fit_count(s, avail) <= s.len(),
    decreases s.len(),
{
    if s.len() > 0 {
        lemma_fit_count_len(s.drop_first(), avail - char_width(s[0]));
    }
}

proof fn lemma_fit_count_step(s: Seq<char>, avail: int, i: int, used: int)
    requires
        0 <= i < s.len(),
        fit_count(s, avail) == i + fit_count(s.skip(i), avail - used),
    ensures
        char_width(s[i]) <= avail - used ==> fit_count(s, avail) == (i + 1) + fit_count(
            s.skip(i + 1),
            avail - used - char_width(s[i]),
        ),
        char_width(s[i]) > avail - used ==> fit_count(s, avail) == i,
{
    assert(s.skip(i)[0] == s[i]);
    assert(s.skip(i).drop_first() == s.skip(i + 1));
}

/// The number of leading characters of `s` that fit in `avail` columns.
pub fn fit_prefix(s: &str, avail: usize) -> (n: usize)
    ensures
        n == fit_count(s@, avail as int),
{
    let len = s.unicode_len();
    let mut i: usize = 0;
    let mut used: usize = 0;
    proof {
        assert(s@.skip(0) == s@);
    }
    while i < len
        invariant
            len == s@.len(),
            i <= len,
            used <= avail,
            fit_count(s@, avail as int) == i + fit_count(s@.skip(i as int), avail - used),
        decreases len - i,
    {
        let cw = text_width(s.substring_char(i, i + 1));
        proof {
            assert(s@.subrange(i as int, i + 1) == seq![s@[i as int]]);
            lemma_fit_count_step(s@, avail as int, i as int, used as int);
        }
        if cw > avail - used {
            return i;
        }
        used = used + cw;
        i = i + 1;
    }
    proof {
        assert(s@.skip(len as int).len() == 0);
    }
    i
}

/// The text of `s` cut after `n` characters, with the cut mark when
/// characters were left out.
pub fn cut_prefix(s: &str, n: usize) -> (r: String)
    requires
        n <= s@.len(),
    ensures
        r@ == cut_text(s@, n as nat),
{
    let len = s.unicode_len();
    if n < len {
        let head = String::from_str(s.substring_char(0, n));
        proof {
            reveal_strlit("↴");
        }
        let r = head.concat("↴");
        proof {
            assert(s@.subrange(0, n as int) == s@.take(n as int));
        }
        r
    } else {
        proof {
            assert(n == s@.len());
        }
        String::from_str(s)
    }
}


/// The pieces of a line as texts with their styles.
pub open spec fn piece_views<S>(v: Seq<(String, S)>) -> Seq<(Seq<char>, S)> {
    v.map_values(|p: (String, S)| (p.0@, p.1))
}

/// Rows of pieces as texts with their styles.
pub open spec fn row_views<S>(v: Seq<Vec<(String, S)>>) -> Seq<Seq<(Seq<char>, S)>> {
    v.map_values(|r: Vec<(String, S)>| piece_views(r@))
}

/// The rows finished so far, the pieces of the row being filled, and the
/// columns that row already takes.
pub type ChunkState<S> = (Seq<Seq<(Seq<char>, S)>>, Seq<(Seq<char>, S)>, int);

/// The row being filled is finished and a new one begins.
pub open spec fn next_row<S>(st: ChunkState<S>) -> ChunkState<S> {
    (st.0.push(st.1), Seq::empty(), 0)
}

/// Placing the text `rem` of a piece in rows of `width` columns: whole when
/// it fits in what is left of the row; else as many characters as fit, with
/// the cut mark, ending the row, and the text from the last character that
/// fitted on in the next row. `None` when the placing never ends: a new row
/// that takes at most one character of the text, which then starts over.
pub open spec fn place_text<S>(rem: Seq<char>, style: S, st: ChunkState<S>, width: int) -> Option<ChunkState<S>>
    decreases rem.len(), (if st.2 > 0 { 1int } else { 0int }),
{
    let rem_w = display_width(rem) as int;
    if rem_w == 0 {
        Some(st)
    } else {
        let avail = if width > st.2 { width - st.2 } else { 0 };
        if avail == 0 {
            if st.2 > 0 {
                place_text(rem, style, next_row(st), width)
            } else {
                None
            }
        } else if rem_w <= avail {
            Some((st.0, st.1.push((rem, style)), st.2 + rem_w))
        } else {
            let n = fit_count(rem, avail);
            let cut: ChunkState<S> = (st.0.push(st.1.push((cut_text(rem, n), style))), Seq::empty(), 0);
            if n >= 2 {
                proof {
                    lemma_fit_count_len(rem, avail);
                }
                place_text(rem.skip(n - 1), style, cut, width)
            } else if st.2 > 0 {
                place_text(rem, style, cut, width)
            } else {
                None
            }
        }
    }
}

/// Laying out the pieces in order; a piece of no width joins the row being
/// filled.
pub open spec fn chunk_scan<S>(spans: Seq<(Seq<char>, S)>, width: int) -> Option<ChunkState<S>>
    decreases spans.len(),
{
    if spans.len() == 0 {
        Some((Seq::empty(), Seq::empty(), 0))
    } else {
        match chunk_scan(spans.drop_last(), width) {
            None => None,
            Some(st) => {
                let piece = spans.last();
                if display_width(piece.0) == 0 {
                    Some((st.0, st.1.push(piece), st.2))
                } else {
                    place_text(piece.0, piece.1, st, width)
                }
            },
        }
    }
}

/// The rows of a line of pieces in `width` columns; a single empty row for
/// no width or no pieces. `None` when the layout never ends.
pub open spec fn spec_chunk_spans<S>(spans: Seq<(Seq<char>, S)>, width: int) -> Option<Seq<Seq<(Seq<char>, S)>>> {
    if width == 0 || spans.len() == 0 {
        Some(seq![Seq::empty()])
    } else {
        match chunk_scan(spans, width) {
            None => None,
            Some(st) => {
                let rows = if st.1.len() > 0 {
                    st.0.push(st.1)
                } else {
                    st.0
                };
                Some(
                    if rows.len() == 0 {
                        seq![Seq::empty()]
                    } else {
                        rows
                    },
                )
            },
        }
    }
}

/// Places the text of one piece, finishing rows as it goes; false, with
/// the rows left in some state, where the placing would never end.
fn place_piece<S: Copy>(
    chunks: &mut Vec<Vec<(String, S)>>,
    cur: &mut Vec<(String, S)>,
    cur_w: &mut usize,
    text: &str,
    style: S,
    width: usize,
) -> (ok: bool)
    requires
        width > 0,
        *old(cur_w) <= width,
    ensures
        *final(cur_w) <= width,
        ok == place_text(text@, style, (row_views(old(chunks)@), piece_views(old(cur)@), *old(cur_w) as int), width as int) is Some,
        ok ==> place_text(text@, style, (row_views(old(chunks)@), piece_views(old(cur)@), *old(cur_w) as int), width as int)
            == Some((row_views(final(chunks)@), piece_views(final(cur)@), *final(cur_w) as int)),
{
    let ghost target = place_text(text@, style, (row_views(chunks@), piece_views(cur@), *cur_w as int), width as int);
    let mut rem: &str = text;
    let mut rem_w = text_width(rem);
    let mut done = false;
    while !done
        invariant
            width > 0,
            *cur_w <= width,
            !done ==> rem_w == display_width(rem@),
            !done ==> place_text(rem@, style, (row_views(chunks@), piece_views(cur@), *cur_w as int), width as int) == target,
            done ==> target == Some((row_views(chunks@), piece_views(cur@), *cur_w as int)),
            target == place_text(text@, style, (row_views(old(chunks)@), piece_views(old(cur)@), *old(cur_w) as int), width as int),
        decreases (if done { 0int } else { 2 * rem@.len() + (if *cur_w > 0 { 1int } else { 0int }) + 1 }),
    {
        let ghost st = (row_views(chunks@), piece_views(cur@), *cur_w as int);
        if rem_w == 0 {
            done = true;
        } else {
            let avail = width - *cur_w;
            if avail == 0 {
                let mut row: Vec<(String, S)> = Vec::new();
                std::mem::swap(cur, &mut row);
                let ghost old_chunks = chunks@;
                chunks.push(row);
                proof {
                    assert(row_views(chunks@) == row_views(old_chunks).push(piece_views(row@)));
                    assert(piece_views(cur@) == Seq::<(Seq<char>, S)>::empty());
                    assert(next_row(st) == (row_views(chunks@), piece_views(cur@), 0int));
                }
                *cur_w = 0;
            } else if rem_w <= avail {
                let piece = String::from_str(rem);
                let ghost old_cur = cur@;
                cur.push((piece, style));
                proof {
                    assert(piece_views(cur@) == piece_views(old_cur).push((rem@, style)));
                }
                *cur_w = *cur_w + rem_w;
                done = true;
            } else {
                let n = fit_prefix(rem, avail);
                if n <= 1 && *cur_w == 0 {
                    return false;
                }
                proof {
                    lemma_fit_count_len(rem@, avail as int);
                }
                let piece = cut_prefix(rem, n);
                let ghost old_cur = cur@;
                cur.push((piece, style));
                proof {
                    assert(piece_views(cur@) == piece_views(old_cur).push((cut_text(rem@, n as nat), style)));
                }
                let mut row: Vec<(String, S)> = Vec::new();
                std::mem::swap(cur, &mut row);
                let ghost old_chunks = chunks@;
                chunks.push(row);
                proof {
                    assert(row_views(chunks@) == row_views(old_chunks).push(piece_views(row@)));
                    assert(piece_views(cur@) == Seq::<(Seq<char>, S)>::empty());
                }
                *cur_w = 0;
                if n >= 2 {
                    let len = rem.unicode_len();
                    rem = rem.substring_char(n - 1, len);
                }
                rem_w = text_width(rem);
            }
        }
    }
    true
}

/// Cuts a line of styled pieces into rows of `width` columns, or `None`
/// where that would never end (see `place_text`).
pub fn try_chunk_spans<S: Copy>(spans: &Vec<(String, S)>, width: usize) -> (r: Option<Vec<Vec<(String, S)>>>)
    ensures
        r is Some == spec_chunk_spans(piece_views(spans@), width as int) is Some,
        r is Some ==> row_views(r.unwrap()@) == spec_chunk_spans(piece_views(spans@), width as int).unwrap(),
{
    if width == 0 || spans.len() == 0 {
        let mut r: Vec<Vec<(String, S)>> = Vec::new();
        let empty: Vec<(String, S)> = Vec::new();
        r.push(empty);
        proof {
            assert(piece_views(r@[0]@) =~= Seq::<(Seq<char>, S)>::empty());
            assert(row_views(r@) =~= seq![Seq::<(Seq<char>, S)>::empty()]);
        }
        return Some(r);
    }
    let ghost views = piece_views(spans@);
    let mut chunks: Vec<Vec<(String, S)>> = Vec::new();
    let mut cur: Vec<(String, S)> = Vec::new();
    let mut cur_w: usize = 0;
    let mut k: usize = 0;
    proof {
        assert(views.take(0) == Seq::<(Seq<char>, S)>::empty());
        assert(row_views(chunks@) == Seq::<Seq<(Seq<char>, S)>>::empty());
        assert(piece_views(cur@) == Seq::<(Seq<char>, S)>::empty());
    }
    while k < spans.len()
        invariant
            width > 0,
            views == piece_views(spans@),
            k <= spans.len(),
            cur_w <= width,
            chunk_scan(views.take(k as int), width as int) == Some(
                (row_views(chunks@), piece_views(cur@), cur_w as int),
            ),
        decreases spans.len() - k,
    {
        proof {
            assert(views.take(k + 1).drop_last() == views.take(k as int));
            assert(views.take(k + 1).last() == views[k as int]);
        }
        let text = spans[k].0.as_str();
        let style = spans[k].1;
        let w = text_width(text);
        if w == 0 {
            let piece = String::from_str(text);
            let ghost old_cur = cur@;
            cur.push((piece, style));
            proof {
                assert(piece_views(cur@) == piece_views(old_cur).push(views[k as int]));
            }
        } else {
            if !place_piece(&mut chunks, &mut cur, &mut cur_w, text, style, width) {
                proof {
                    lemma_chunk_scan_none_extends(views, width as int, k + 1);
                }
                return None;
            }
        }
        k = k + 1;
    }
    proof {
        assert(views.take(spans.len() as int) == views);
    }
    if cur.len() > 0 {
        let ghost old_chunks = chunks@;
        chunks.push(cur);
        proof {
            assert(row_views(chunks@) == row_views(old_chunks).push(piece_views(cur@)));
        }
    }
    if chunks.len() == 0 {
        chunks.push(Vec::new());
        proof {
            assert(row_views(chunks@) == seq![Seq::<(Seq<char>, S)>::empty()]);
        }
    }
    Some(chunks)
}

proof fn lemma_chunk_scan_none_extends<S>(spans: Seq<(Seq<char>, S)>, width: int, k: int)
    requires
        0 <= k <= spans.len(),
        chunk_scan(spans.take(k), width) is None,
    ensures
        chunk_scan(spans, width) is None,
    decreases spans.len() - k,
{
    if k < spans.len() {
        assert(spans.take(k + 1).drop_last() == spans.take(k));
        lemma_chunk_scan_none_extends(spans, width, k + 1);
    } else {
        assert(spans.take(k) == spans);
    }
}

/// Cuts a line of styled pieces into rows of `width` columns. A piece that
/// does not fit in what is left of a row is cut after the characters that
/// fit, marked with `↴`, and goes on in the next row from its last
/// character that fitted.
pub fn chunk_spans<S: Copy>(spans: &Vec<(String, S)>, width: usize) -> (r: Vec<Vec<(String, S)>>)
    requires
        spec_chunk_spans(piece_views(spans@), width as int) is Some,
    ensures
        row_views(r@) == spec_chunk_spans(piece_views(spans@), width as int).unwrap(),
{
    match try_chunk_spans(spans, width) {
        Some(rows) => rows,
        None => Vec::new(),
    }
}


/// The columns of the pieces together, each by its own width.
pub open spec fn pieces_width<S>(v: Seq<(Seq<char>, S)>) -> int
    decreases v.len(),
{
    if v.len() == 0 {
        0
    } else {
        pieces_width(v.drop_last()) + display_width(v.last().0) as int
    }
}

/// The characters of the pieces together.
pub open spec fn total_chars<S>(v: Seq<(Seq<char>, S)>) -> int
    decreases v.len(),
{
    if v.len() == 0 {
        0
    } else {
        total_chars(v.drop_last()) + v.last().0.len()
    }
}

proof fn lemma_total_chars_elem<S>(v: Seq<(Seq<char>, S)>, k: int)
    requires
        0 <= k < v.len(),
    ensures
        v[k].0.len() <= total_chars(v),
        total_chars(v.take(k)) + v[k].0.len() <= total_chars(v),
    decreases v.len(),
{
    lemma_total_chars_prefix(v, k + 1);
    lemma_total_chars_nonneg(v.take(k));
    assert(v.take(k + 1).drop_last() == v.take(k));
    assert(v.take(k + 1).last() == v[k]);
}

proof fn lemma_total_chars_prefix<S>(v: Seq<(Seq<char>, S)>, k: int)
    requires
        0 <= k <= v.len(),
    ensures
        0 <= total_chars(v.take(k)) <= total_chars(v),
    decreases v.len() - k,
{
    if k < v.len() {
        lemma_total_chars_prefix(v, k + 1);
        assert(v.take(k + 1).drop_last() == v.take(k));
    } else {
        assert(v.take(k) == v);
    }
    lemma_total_chars_nonneg(v.take(k));
}

proof fn lemma_total_chars_nonneg<S>(v: Seq<(Seq<char>, S)>)
    ensures
        total_chars(v) >= 0,
    decreases v.len(),
{
    if v.len() > 0 {
        lemma_total_chars_nonneg(v.drop_last());
    }
}

/// What starts a continued row of the inline view: empty line-number
/// columns.
pub open spec fn continuation_mark() -> Seq<char> {
    "    │    │ "@
}

/// One piece placed in the row being filled: whole when it fits in the
/// columns left; else cut after the characters that fit in what is left,
/// the row finished, and a continued row begun with the characters of the
/// piece after the first `left` ones, where `left` counts the columns that
/// were left.
pub open spec fn wrap_step<S>(
    st: (Seq<Seq<(Seq<char>, S)>>, Seq<(Seq<char>, S)>, int),
    piece: (Seq<char>, S),
    max: int,
    cont_style: S,
) -> (Seq<Seq<(Seq<char>, S)>>, Seq<(Seq<char>, S)>, int) {
    let s = piece.0;
    let w = display_width(s) as int;
    if st.2 + w <= max {
        (st.0, st.1.push(piece), st.2 + w)
    } else {
        let left = if max > st.2 {
            max - st.2
        } else {
            0
        };
        let row = if left > 0 {
            st.1.push((cut_text(s, fit_count(s, left)), piece.1))
        } else {
            st.1
        };
        let start = seq![(continuation_mark(), cont_style)];
        let mark_w = display_width(continuation_mark()) as int;
        if left < w {
            let rest = if left < s.len() {
                s.skip(left)
            } else {
                Seq::empty()
            };
            (st.0.push(row), start.push((rest, piece.1)), mark_w + display_width(rest))
        } else {
            (st.0.push(row), start, mark_w)
        }
    }
}

pub open spec fn wrap_fold<S>(
    content: Seq<(Seq<char>, S)>,
    max: int,
    cont_style: S,
    first: Seq<(Seq<char>, S)>,
    first_w: int,
) -> (Seq<Seq<(Seq<char>, S)>>, Seq<(Seq<char>, S)>, int)
    decreases content.len(),
{
    if content.len() == 0 {
        (Seq::empty(), first, first_w)
    } else {
        wrap_step(wrap_fold(content.drop_last(), max, cont_style, first, first_w), content.last(), max, cont_style)
    }
}

proof fn lemma_pieces_width_push<S>(v: Seq<(Seq<char>, S)>, p: (Seq<char>, S))
    ensures
        pieces_width(v.push(p)) == pieces_width(v) + display_width(p.0) as int,
{
    assert(v.push(p).drop_last() =~= v);
}

/// The width that wrapping keeps for the row being filled is the width of
/// that row's pieces, whatever the content: so a piece is put on the row
/// whole exactly when the row then takes at most `max` columns, and a cut
/// row goes on with the continuation mark and the rest of the cut piece.
pub proof fn lemma_wrap_tracks_row_width<S>(
    content: Seq<(Seq<char>, S)>,
    max: int,
    cont_style: S,
    first: Seq<(Seq<char>, S)>,
)
    ensures
        wrap_fold(content, max, cont_style, first, pieces_width(first)).2 == pieces_width(
            wrap_fold(content, max, cont_style, first, pieces_width(first)).1,
        ),
        content.len() > 0 && wrap_fold(content, max, cont_style, first, pieces_width(first)).0.len()
            == wrap_fold(content.drop_last(), max, cont_style, first, pieces_width(first)).0.len()
            ==> pieces_width(wrap_fold(content, max, cont_style, first, pieces_width(first)).1) <= max,
    decreases content.len(),
{
    if content.len() > 0 {
        let prev = wrap_fold(content.drop_last(), max, cont_style, first, pieces_width(first));
        lemma_wrap_tracks_row_width(content.drop_last(), max, cont_style, first);
        let piece = content.last();
        lemma_pieces_width_push(prev.1, piece);
        let start = seq![(continuation_mark(), cont_style)];
        lemma_pieces_width_push(Seq::<(Seq<char>, S)>::empty(), (continuation_mark(), cont_style));
        assert(Seq::<(Seq<char>, S)>::empty().push((continuation_mark(), cont_style)) =~= start);
        let s = piece.0;
        let left = if max > prev.2 {
            max - prev.2
        } else {
            0
        };
        let rest = if left < s.len() {
            s.skip(left)
        } else {
            Seq::empty()
        };
        lemma_pieces_width_push(start, (rest, piece.1));
    }
}

/// The rows of a diff line in the inline view: the line-number prefix, then
/// the content pieces, continued on further rows when they pass `max`
/// columns; only the prefix when it leaves no room.
pub open spec fn spec_wrap<S>(
    prefix: Seq<(Seq<char>, S)>,
    content: Seq<(Seq<char>, S)>,
    max: int,
    cont_style: S,
) -> Seq<Seq<(Seq<char>, S)>> {
    let pw = pieces_width(prefix);
    if max <= pw {
        seq![prefix]
    } else {
        let st = wrap_fold(content, max, cont_style, prefix, pw);
        if st.1.len() > 0 {
            st.0.push(st.1)
        } else {
            st.0
        }
    }
}

/// A copy of the pieces.
fn copy_pieces<S: Copy>(v: &Vec<(String, S)>) -> (r: Vec<(String, S)>)
    ensures
        piece_views(r@) == piece_views(v@),
{
    let mut r: Vec<(String, S)> = Vec::new();
    let mut k: usize = 0;
    while k < v.len()
        invariant
            k <= v.len(),
            piece_views(r@) == piece_views(v@).take(k as int),
        decreases v.len() - k,
    {
        let ghost before = r@;
        r.push((String::from_str(v[k].0.as_str()), v[k].1));
        proof {
            assert(piece_views(r@) == piece_views(before).push(piece_views(v@)[k as int]));
            assert(piece_views(v@).take(k + 1) == piece_views(v@).take(k as int).push(piece_views(v@)[k as int]));
        }
        k = k + 1;
    }
    proof {
        assert(piece_views(v@).take(v.len() as int) == piece_views(v@));
    }
    r
}

/// The columns of the pieces together.
fn width_of_pieces<S: Copy>(v: &Vec<(String, S)>) -> (w: usize)
    requires
        3 * total_chars(piece_views(v@)) <= usize::MAX,
    ensures
        w == pieces_width(piece_views(v@)),
        w <= 3 * total_chars(piece_views(v@)),
{
    let ghost views = piece_views(v@);
    let mut w: usize = 0;
    let mut k: usize = 0;
    while k < v.len()
        invariant
            k <= v.len(),
            views == piece_views(v@),
            3 * total_chars(views) <= usize::MAX,
            w == pieces_width(views.take(k as int)),
            w <= 3 * total_chars(views.take(k as int)),
        decreases v.len() - k,
    {
        proof {
            lemma_total_chars_elem(views, k as int);
            assert(views.take(k + 1).drop_last() == views.take(k as int));
            assert(views.take(k + 1).last() == views[k as int]);
            lemma_total_chars_prefix(views, k + 1);
        }
        let pw = text_width(v[k].0.as_str());
        w = w + pw;
        k = k + 1;
    }
    proof {
        assert(views.take(v.len() as int) == views);
    }
    w
}


/// Appends the rows of a diff line in the inline view: the line-number
/// prefix and the content pieces, cut and continued where they pass
/// `max_width` columns.
pub fn wrap_and_push<S: Copy>(
    lines: &mut Vec<Vec<(String, S)>>,
    prefix: &Vec<(String, S)>,
    content: &Vec<(String, S)>,
    max_width: usize,
    cont_style: S,
)
    requires
        max_width + 6 * (total_chars(piece_views(prefix@)) + total_chars(piece_views(content@))) + 64
            <= usize::MAX,
    ensures
        row_views(final(lines)@) == row_views(old(lines)@) + spec_wrap(
            piece_views(prefix@),
            piece_views(content@),
            max_width as int,
            cont_style,
        ),
{
    proof {
        lemma_total_chars_nonneg(piece_views(prefix@));
        lemma_total_chars_nonneg(piece_views(content@));
    }
    let pw = width_of_pieces(prefix);
    if max_width <= pw {
        let only = copy_pieces(prefix);
        let ghost before = lines@;
        lines.push(only);
        proof {
            assert(row_views(lines@) == row_views(before).push(piece_views(only@)));
            assert(seq![piece_views(prefix@)] == Seq::<Seq<(Seq<char>, S)>>::empty().push(piece_views(prefix@)));
        }
        return;
    }
    let ghost pre = piece_views(prefix@);
    let ghost views = piece_views(content@);
    let ghost start_rows = row_views(lines@);
    let mark = "    │    │ ";
    proof {
        reveal_strlit("    │    │ ");
    }
    let mark_w = text_width(mark);
    let mut line = copy_pieces(prefix);
    let mut cur: usize = pw;
    let mut k: usize = 0;
    proof {
        assert(views.take(0).len() == 0);
        assert(row_views(lines@) == start_rows + Seq::<Seq<(Seq<char>, S)>>::empty());
    }
    while k < content.len()
        invariant
            k <= content.len(),
            views == piece_views(content@),
            pre == piece_views(prefix@),
            pw == pieces_width(pre),
            max_width > pw,
            mark@ == continuation_mark(),
            mark_w == display_width(mark@),
            mark_w <= 33,
            max_width + 6 * (total_chars(pre) + total_chars(views)) + 64 <= usize::MAX,
            total_chars(pre) >= 0,
            total_chars(views) >= 0,
            cur <= max_width + 33 + 3 * total_chars(views),
            row_views(lines@) == start_rows + wrap_fold(views.take(k as int), max_width as int, cont_style, pre, pw as int).0,
            piece_views(line@) == wrap_fold(views.take(k as int), max_width as int, cont_style, pre, pw as int).1,
            cur == wrap_fold(views.take(k as int), max_width as int, cont_style, pre, pw as int).2,
        decreases content.len() - k,
    {
        proof {
            lemma_total_chars_elem(views, k as int);
            assert(views.take(k + 1).drop_last() == views.take(k as int));
            assert(views.take(k + 1).last() == views[k as int]);
        }
        let ghost st = wrap_fold(views.take(k as int), max_width as int, cont_style, pre, pw as int);
        let s = content[k].0.as_str();
        let style = content[k].1;
        let w = text_width(s);
        if cur + w <= max_width {
            let ghost before = line@;
            line.push((String::from_str(s), style));
            proof {
                assert(piece_views(line@) == piece_views(before).push(views[k as int]));
            }
            cur = cur + w;
        } else {
            let left: usize = if max_width > cur {
                max_width - cur
            } else {
                0
            };
            if left > 0 {
                let n = fit_prefix(s, left);
                proof {
                    lemma_fit_count_len(s@, left as int);
                }
                let piece = cut_prefix(s, n);
                let ghost before = line@;
                line.push((piece, style));
                proof {
                    assert(piece_views(line@) == piece_views(before).push((cut_text(s@, n as nat), style)));
                }
            }
            let mut row: Vec<(String, S)> = Vec::new();
            std::mem::swap(&mut line, &mut row);
            let ghost before_rows = lines@;
            lines.push(row);
            proof {
                assert(row_views(lines@) == row_views(before_rows).push(piece_views(row@)));
                assert(start_rows + st.0.push(piece_views(row@)) == (start_rows + st.0).push(piece_views(row@)));
            }
            line.push((String::from_str(mark), cont_style));
            proof {
                assert(piece_views(line@) == seq![(continuation_mark(), cont_style)]);
            }
            let mut cont_w = mark_w;
            if left < w {
                let len = s.unicode_len();
                let rest: &str = if left < len {
                    s.substring_char(left, len)
                } else {
                    ""
                };
                proof {
                    reveal_strlit("");
                    if left < len {
                        assert(rest@ == s@.skip(left as int));
                    }
                }
                let rw = text_width(rest);
                let ghost before = line@;
                line.push((String::from_str(rest), style));
                proof {
                    assert(piece_views(line@) == piece_views(before).push((rest@, style)));
                    assert(piece_views(line@) == seq![(continuation_mark(), cont_style)].push((rest@, style)));
                    assert(rest@ == (if (left as int) < s@.len() { s@.skip(left as int) } else { Seq::<char>::empty() }));
                }
                cont_w = cont_w + rw;
            }
            cur = cont_w;
            proof {
                let piece = views[k as int];
                assert(piece.0 == s@);
                assert(piece.1 == style);
                assert(!(st.2 + display_width(piece.0) as int <= max_width as int));
                assert(piece_views(line@) == wrap_step(st, piece, max_width as int, cont_style).1);
                assert(cur == wrap_step(st, piece, max_width as int, cont_style).2);
            }
        }
        proof {
            assert(wrap_fold(views.take(k + 1), max_width as int, cont_style, pre, pw as int) == wrap_step(
                st,
                views[k as int],
                max_width as int,
                cont_style,
            ));
        }
        k = k + 1;
    }
    proof {
        assert(views.take(content.len() as int) == views);
    }
    if line.len() > 0 {
        let ghost before_rows = lines@;
        lines.push(line);
        proof {
            assert(row_views(lines@) == row_views(before_rows).push(piece_views(line@)));
        }
    }
}


/// What starts a continued row of either side of the side-by-side view.
pub open spec fn side_mark() -> Seq<char> {
    "│    │ "@
}

/// Row `i` of one side: the prefix on the first row and the continuation
/// mark on the others, followed by the `i`-th row of the content if there
/// is one.
pub open spec fn side_row<S>(
    prefix: Seq<(Seq<char>, S)>,
    cont_style: S,
    chunks: Seq<Seq<(Seq<char>, S)>>,
    i: int,
) -> Seq<(Seq<char>, S)> {
    let head = if i == 0 {
        prefix
    } else {
        seq![(side_mark(), cont_style)]
    };
    if i < chunks.len() {
        head + chunks[i]
    } else {
        head
    }
}

pub open spec fn side_rows<S>(
    prefix: Seq<(Seq<char>, S)>,
    cont_style: S,
    chunks: Seq<Seq<(Seq<char>, S)>>,
    n: nat,
) -> Seq<Seq<(Seq<char>, S)>> {
    Seq::new(n, |i: int| side_row(prefix, cont_style, chunks, i))
}

/// The rows of both sides of a row pair of the side-by-side view: each
/// side's content cut into rows of the columns its prefix leaves, both
/// sides given as many rows as the longer. Only the prefixes when neither
/// side has room; `None` when cutting a side would never end.
pub open spec fn spec_pair_rows<S>(
    left_prefix: Seq<(Seq<char>, S)>,
    right_prefix: Seq<(Seq<char>, S)>,
    left: Seq<(Seq<char>, S)>,
    right: Seq<(Seq<char>, S)>,
    left_max: int,
    right_max: int,
    cont_style: S,
) -> Option<(Seq<Seq<(Seq<char>, S)>>, Seq<Seq<(Seq<char>, S)>>)> {
    let lw = if left_max > pieces_width(left_prefix) {
        left_max - pieces_width(left_prefix)
    } else {
        0
    };
    let rw = if right_max > pieces_width(right_prefix) {
        right_max - pieces_width(right_prefix)
    } else {
        0
    };
    if lw == 0 && rw == 0 {
        Some((seq![left_prefix], seq![right_prefix]))
    } else {
        match (spec_chunk_spans(left, lw), spec_chunk_spans(right, rw)) {
            (Some(lc), Some(rc)) => {
                let n = if lc.len() >= rc.len() {
                    lc.len()
                } else {
                    rc.len()
                };
                Some((side_rows(left_prefix, cont_style, lc, n), side_rows(right_prefix, cont_style, rc, n)))
            },
            _ => None,
        }
    }
}

/// The prefix, or the continuation mark, followed by a row of content.
fn side_row_of<S: Copy>(
    prefix: &Vec<(String, S)>,
    cont_style: S,
    chunks: &Vec<Vec<(String, S)>>,
    i: usize,
) -> (r: Vec<(String, S)>)
    ensures
        piece_views(r@) == side_row(piece_views(prefix@), cont_style, row_views(chunks@), i as int),
{
    let mut r = if i == 0 {
        copy_pieces(prefix)
    } else {
        let mut head: Vec<(String, S)> = Vec::new();
        head.push((String::from_str("│    │ "), cont_style));
        proof {
            assert(piece_views(head@) == seq![(side_mark(), cont_style)]);
        }
        head
    };
    if i < chunks.len() {
        let body = copy_pieces(&chunks[i]);
        let ghost head = r@;
        let mut k: usize = 0;
        while k < body.len()
            invariant
                k <= body.len(),
                piece_views(r@) == piece_views(head) + piece_views(body@).take(k as int),
            decreases body.len() - k,
        {
            let ghost before = r@;
            r.push((String::from_str(body[k].0.as_str()), body[k].1));
            proof {
                assert(piece_views(r@) == piece_views(before).push(piece_views(body@)[k as int]));
                assert(piece_views(body@).take(k + 1) == piece_views(body@).take(k as int).push(
                    piece_views(body@)[k as int],
                ));
            }
            k = k + 1;
        }
        proof {
            assert(piece_views(body@).take(body.len() as int) == piece_views(body@));
        }
    }
    r
}

/// Appends the rows of a row pair of the side-by-side view to both sides,
/// or returns false, appending nothing, where cutting a side would never
/// end.
pub fn try_wrap_and_push_pair<S: Copy>(
    left_lines: &mut Vec<Vec<(String, S)>>,
    right_lines: &mut Vec<Vec<(String, S)>>,
    left_prefix: &Vec<(String, S)>,
    right_prefix: &Vec<(String, S)>,
    left: &Vec<(String, S)>,
    right: &Vec<(String, S)>,
    left_max: usize,
    right_max: usize,
    cont_style: S,
) -> (ok: bool)
    requires
        3 * total_chars(piece_views(left_prefix@)) <= usize::MAX,
        3 * total_chars(piece_views(right_prefix@)) <= usize::MAX,
    ensures
        ({
            let spec = spec_pair_rows(
                piece_views(left_prefix@),
                piece_views(right_prefix@),
                piece_views(left@),
                piece_views(right@),
                left_max as int,
                right_max as int,
                cont_style,
            );
            &&& ok == spec is Some
            &&& ok ==> row_views(final(left_lines)@) == row_views(old(left_lines)@) + spec.unwrap().0
            &&& ok ==> row_views(final(right_lines)@) == row_views(old(right_lines)@) + spec.unwrap().1
            &&& !ok ==> final(left_lines)@ == old(left_lines)@ && final(right_lines)@ == old(right_lines)@
        }),
{
    let lpw = width_of_pieces(left_prefix);
    let rpw = width_of_pieces(right_prefix);
    let lw = if left_max > lpw {
        left_max - lpw
    } else {
        0
    };
    let rw = if right_max > rpw {
        right_max - rpw
    } else {
        0
    };
    let ghost lp = piece_views(left_prefix@);
    let ghost rp = piece_views(right_prefix@);
    if lw == 0 && rw == 0 {
        let ghost lb = left_lines@;
        let ghost rb = right_lines@;
        left_lines.push(copy_pieces(left_prefix));
        right_lines.push(copy_pieces(right_prefix));
        proof {
            assert(row_views(left_lines@) == row_views(lb).push(lp));
            assert(row_views(right_lines@) == row_views(rb).push(rp));
            assert(seq![lp] == Seq::<Seq<(Seq<char>, S)>>::empty().push(lp));
            assert(seq![rp] == Seq::<Seq<(Seq<char>, S)>>::empty().push(rp));
        }
        return true;
    }
    let lc = match try_chunk_spans(left, lw) {
        Some(c) => c,
        None => {
            return false;
        },
    };
    let rc = match try_chunk_spans(right, rw) {
        Some(c) => c,
        None => {
            return false;
        },
    };
    let n = if lc.len() >= rc.len() {
        lc.len()
    } else {
        rc.len()
    };
    let ghost lrows = side_rows(lp, cont_style, row_views(lc@), n as nat);
    let ghost rrows = side_rows(rp, cont_style, row_views(rc@), n as nat);
    let ghost lstart = row_views(left_lines@);
    let ghost rstart = row_views(right_lines@);
    let mut i: usize = 0;
    while i < n
        invariant
            i <= n,
            lp == piece_views(left_prefix@),
            rp == piece_views(right_prefix@),
            lrows == side_rows(lp, cont_style, row_views(lc@), n as nat),
            rrows == side_rows(rp, cont_style, row_views(rc@), n as nat),
            row_views(left_lines@) == lstart + lrows.take(i as int),
            row_views(right_lines@) == rstart + rrows.take(i as int),
        decreases n - i,
    {
        let lrow = side_row_of(left_prefix, cont_style, &lc, i);
        let rrow = side_row_of(right_prefix, cont_style, &rc, i);
        let ghost lb = left_lines@;
        let ghost rb = right_lines@;
        left_lines.push(lrow);
        right_lines.push(rrow);
        proof {
            assert(row_views(left_lines@) == row_views(lb).push(piece_views(lrow@)));
            assert(row_views(right_lines@) == row_views(rb).push(piece_views(rrow@)));
            assert(lrows.take(i + 1) == lrows.take(i as int).push(lrows[i as int]));
            assert(rrows.take(i + 1) == rrows.take(i as int).push(rrows[i as int]));
        }
        i = i + 1;
    }
    proof {
        assert(lrows.take(n as int) == lrows);
        assert(rrows.take(n as int) == rrows);
    }
    true
}

/// Appends the rows of a row pair of the side-by-side view to both sides.
pub fn wrap_and_push_pair<S: Copy>(
    left_lines: &mut Vec<Vec<(String, S)>>,
    right_lines: &mut Vec<Vec<(String, S)>>,
    left_prefix: &Vec<(String, S)>,
    right_prefix: &Vec<(String, S)>,
    left: &Vec<(String, S)>,
    right: &Vec<(String, S)>,
    left_max: usize,
    right_max: usize,
    cont_style: S,
)
    requires
        3 * total_chars(piece_views(left_prefix@)) <= usize::MAX,
        3 * total_chars(piece_views(right_prefix@)) <= usize::MAX,
        spec_pair_rows(
            piece_views(left_prefix@),
            piece_views(right_prefix@),
            piece_views(left@),
            piece_views(right@),
            left_max as int,
            right_max as int,
            cont_style,
        ) is Some,
    ensures
        ({
            let spec = spec_pair_rows(
                piece_views(left_prefix@),
                piece_views(right_prefix@),
                piece_views(left@),
                piece_views(right@),
                left_max as int,
                right_max as int,
                cont_style,
            ).unwrap();
            &&& row_views(final(left_lines)@) == row_views(old(left_lines)@) + spec.0
            &&& row_views(final(right_lines)@) == row_views(old(right_lines)@) + spec.1
        }),
{
    try_wrap_and_push_pair(
        left_lines,
        right_lines,
        left_prefix,
        right_prefix,
        left,
        right,
        left_max,
        right_max,
        cont_style,
    );
}


/// The decimal digits of `n`.
pub open spec fn decimal(n: nat) -> Seq<char>
    decreases n,
{
    if n < 10 {
        seq![hex_digit(n as int)]
    } else {
        decimal(n / 10).push(hex_digit((n % 10) as int))
    }
}

/// `n` spaces.
pub open spec fn spaces(n: nat) -> Seq<char> {
    Seq::new(n, |i: int| ' ')
}

/// `s` centred in four columns, the odd space going to the right, as the
/// `{:^4}` format writes it; longer texts stand as they are.
pub open spec fn centered4(s: Seq<char>) -> Seq<char> {
    if s.len() >= 4 {
        s
    } else {
        let pad = (4 - s.len()) as nat;
        let left = pad / 2;
        spaces(left) + s + spaces((pad - left) as nat)
    }
}

/// The decimal digits of `n`.
pub fn decimal_text(n: u64) -> (r: String)
    ensures
        r@ == decimal(n as nat),
    decreases n,
{
    if n < 10 {
        String::from_str(hex_digit_text(n as u8))
    } else {
        let mut r = decimal_text(n / 10);
        r.append(hex_digit_text((n % 10) as u8));
        r
    }
}

pub fn push_spaces(s: &mut String, n: usize)
    ensures
        final(s)@ == old(s)@ + spaces(n as nat),
{
    let ghost start = s@;
    let mut k: usize = 0;
    proof {
        reveal_strlit(" ");
        assert(start + spaces(0) == start);
    }
    while k < n
        invariant
            k <= n,
            s@ == start + spaces(k as nat),
            " "@ == seq![' '],
        decreases n - k,
    {
        s.append(" ");
        proof {
            assert(start + spaces((k + 1) as nat) == start + spaces(k as nat) + seq![' ']);
        }
        k = k + 1;
    }
}

/// A line number centred in four columns.
pub fn centered_number(n: u32) -> (r: String)
    ensures
        r@ == centered4(decimal(n as nat)),
{
    let digits = decimal_text(n as u64);
    let len = digits.as_str().unicode_len();
    if len >= 4 {
        return digits;
    }
    let pad = 4 - len;
    let left = pad / 2;
    let mut r = String::new();
    push_spaces(&mut r, left);
    r.append(digits.as_str());
    push_spaces(&mut r, pad - left);
    proof {
        assert(Seq::<char>::empty() + spaces(left as nat) == spaces(left as nat));
    }
    r
}

/// The characters of `c` as a text, as `char::to_string` gives them.
#[verifier::external_body]
fn char_text(c: char) -> (r: String)
    ensures
        r@ == seq![c],
{
    c.to_string()
}

/// The line-number prefix of one side of the side-by-side view: the sign
/// column (a bare rule when the sign is the rule itself), the centred
/// number, and a rule.
pub fn build_prefix_spans<S: Copy>(sign: char, lineno: u32, number_style: S, column_style: S) -> (r: Vec<(String, S)>)
    ensures
        piece_views(r@) == seq![
            (if sign == '│' { seq!['│'] } else { seq![sign, '│'] }, column_style),
            (centered4(decimal(lineno as nat)), number_style),
            ("│ "@, column_style),
        ],
{
    let mut r: Vec<(String, S)> = Vec::new();
    if sign == '│' {
        proof {
            reveal_strlit("│");
        }
        let head = String::from_str("│");
        proof {
            assert(head@ =~= seq!['│']);
        }
        r.push((head, column_style));
    } else {
        let mut head = char_text(sign);
        proof {
            reveal_strlit("│");
        }
        head.append("│");
        proof {
            assert(head@ =~= seq![sign, '│']);
        }
        r.push((head, column_style));
    }
    r.push((centered_number(lineno), number_style));
    r.push((String::from_str("│ "), column_style));
    proof {
        assert(piece_views(r@) =~= seq![
            (if sign == '│' { seq!['│'] } else { seq![sign, '│'] }, column_style),
            (centered4(decimal(lineno as nat)), number_style),
            ("│ "@, column_style),
        ]);
    }
    r
}

/// A line number centred in four columns, or four spaces for none.
pub open spec fn number_cell(n: Option<u32>) -> Seq<char> {
    match n {
        Some(v) => centered4(decimal(v as nat)),
        None => spaces(4),
    }
}

fn number_cell_text(n: Option<u32>) -> (r: String)
    ensures
        r@ == number_cell(n),
{
    match n {
        Some(v) => centered_number(v),
        None => {
            let mut r = String::new();
            push_spaces(&mut r, 4);
            proof {
                assert(Seq::<char>::empty() + spaces(4) == spaces(4));
            }
            r
        },
    }
}

/// The line-number prefix of the inline view: the old and the new line
/// number, each centred in four columns, between rules.
pub fn build_dual_prefix_spans<S: Copy>(
    old_lineno: Option<u32>,
    new_lineno: Option<u32>,
    left_style: S,
    right_style: S,
    column_style: S,
) -> (r: Vec<(String, S)>)
    ensures
        piece_views(r@) == seq![
            (number_cell(old_lineno), left_style),
            ("│"@, column_style),
            (number_cell(new_lineno), right_style),
            ("│ "@, column_style),
        ],
{
    let mut r: Vec<(String, S)> = Vec::new();
    r.push((number_cell_text(old_lineno), left_style));
    r.push((String::from_str("│"), column_style));
    r.push((number_cell_text(new_lineno), right_style));
    r.push((String::from_str("│ "), column_style));
    proof {
        assert(piece_views(r@) =~= seq![
            (number_cell(old_lineno), left_style),
            ("│"@, column_style),
            (number_cell(new_lineno), right_style),
            ("│ "@, column_style),
        ]);
    }
    r
}

} // verus!
