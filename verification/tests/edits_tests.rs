use gitui_view::align::Alignment;
use gitui_view::edits::{annotate, infer_edits, tokenize, DistanceBound, EditOp, TokenRegex};

fn words() -> TokenRegex {
    TokenRegex::new(r"\w+").unwrap()
}

#[test]
fn an_invalid_pattern_does_not_compile() {
    assert!(TokenRegex::new("(").is_none());
}

#[test]
fn tokenize_splits_words_and_gaps() {
    let re = words();
    assert_eq!(tokenize("foo bar", &re), vec!["", "foo", " ", "bar"]);
}

#[test]
fn tokenize_leading_gap_gets_an_empty_marker() {
    let re = words();
    assert_eq!(tokenize("  x", &re), vec!["", "", " ", " ", "x"]);
}

#[test]
fn tokenize_line_without_words() {
    let re = words();
    assert_eq!(tokenize("+-", &re), vec!["", "", "+", "-"]);
    assert_eq!(tokenize("", &re), vec![""]);
}

#[test]
fn tokens_rebuild_the_line() {
    let re = words();
    let line = "let x = y.unwrap();  // ok";
    assert_eq!(tokenize(line, &re).concat(), line);
}

#[test]
fn annotate_marks_the_changed_word() {
    let re = words();
    let minus = "foo bar";
    let plus = "foo baz";
    let alignment = Alignment::new(tokenize(minus, &re), tokenize(plus, &re));
    let (m, p, d) = annotate(alignment, minus, plus);
    assert_eq!(m, vec![(EditOp::NoOp, "foo "), (EditOp::Deletion, "bar")]);
    assert_eq!(p, vec![(EditOp::NoOp, "foo "), (EditOp::Insertion, "baz")]);
    assert_eq!((d.numer, d.denom), (6, 12));
}

#[test]
fn annotate_identical_lines_has_no_distance() {
    let re = words();
    let line = "same words";
    let alignment = Alignment::new(tokenize(line, &re), tokenize(line, &re));
    let (m, p, d) = annotate(alignment, line, line);
    assert_eq!(m, vec![(EditOp::NoOp, "same words")]);
    assert_eq!(p, vec![(EditOp::NoOp, "same words")]);
    assert_eq!(d.numer, 0);
}

#[test]
fn infer_edits_pairs_close_lines() {
    let re = words();
    let (m, p, a) = infer_edits(
        vec!["foo bar"],
        vec!["foo baz"],
        &re,
        DistanceBound { numer: 1, denom: 1 },
        DistanceBound { numer: 0, denom: 1 },
    );
    assert_eq!(m, vec![vec![(EditOp::NoOp, "foo "), (EditOp::Deletion, "bar")]]);
    assert_eq!(p, vec![vec![(EditOp::NoOp, "foo "), (EditOp::Insertion, "baz")]]);
    assert_eq!(a, vec![(Some(0), Some(0))]);
}

#[test]
fn infer_edits_leaves_distant_lines_unpaired() {
    let re = words();
    let (m, p, a) = infer_edits(
        vec!["foo bar"],
        vec!["foo baz"],
        &re,
        DistanceBound { numer: 2, denom: 5 },
        DistanceBound { numer: 0, denom: 1 },
    );
    assert_eq!(m, vec![vec![(EditOp::NoOp, "foo bar")]]);
    assert_eq!(p, vec![vec![(EditOp::NoOp, "foo baz")]]);
    assert_eq!(a, vec![(Some(0), None), (None, Some(0))]);
}

#[test]
fn infer_edits_skips_added_lines_before_a_match() {
    let re = words();
    let (m, p, a) = infer_edits(
        vec!["alpha beta"],
        vec!["zzz", "alpha beta"],
        &re,
        DistanceBound { numer: 3, denom: 5 },
        DistanceBound { numer: 0, denom: 1 },
    );
    assert_eq!(m, vec![vec![(EditOp::NoOp, "alpha beta")]]);
    assert_eq!(
        p,
        vec![vec![(EditOp::NoOp, "zzz")], vec![(EditOp::NoOp, "alpha beta")]]
    );
    assert_eq!(a, vec![(None, Some(0)), (Some(0), Some(1))]);
}

#[test]
fn annotated_sections_spell_out_both_lines() {
    let re = words();
    let minus = "    let total = a + b; // sum";
    let plus = "  let sum_total = a * b + c;";
    let alignment = Alignment::new(tokenize(minus, &re), tokenize(plus, &re));
    let (m, p, _) = annotate(alignment, minus, plus);
    let m_text: String = m.iter().map(|(_, s)| *s).collect();
    let p_text: String = p.iter().map(|(_, s)| *s).collect();
    assert_eq!(m_text, minus);
    assert_eq!(p_text, plus);
}
