use gitui_view::wrap::{
    build_dual_prefix_spans, build_prefix_spans, centered_number, chunk_spans, cut_prefix, fit_prefix,
    try_chunk_spans, try_wrap_and_push_pair, wrap_and_push, wrap_and_push_pair,
};

fn pieces(v: &[(&str, u8)]) -> Vec<(String, u8)> {
    v.iter().map(|(s, k)| (s.to_string(), *k)).collect()
}

#[test]
fn fit_prefix_counts_columns() {
    assert_eq!(fit_prefix("hello", 3), 3);
    assert_eq!(fit_prefix("hi", 5), 2);
    assert_eq!(fit_prefix("漢字", 3), 1);
    assert_eq!(fit_prefix("漢字", 1), 0);
    assert_eq!(cut_prefix("hello", 3), "hel↴");
    assert_eq!(cut_prefix("hi", 2), "hi");
}

#[test]
fn chunk_spans_cuts_long_pieces() {
    let rows = chunk_spans(&pieces(&[("hello world", 0)]), 5);
    assert_eq!(
        rows,
        vec![
            pieces(&[("hello↴", 0)]),
            pieces(&[("o wor↴", 0)]),
            pieces(&[("rld", 0)]),
        ]
    );
}

#[test]
fn chunk_spans_keeps_short_pieces_together() {
    let rows = chunk_spans(&pieces(&[("ab", 1), ("cd", 2), ("", 3), ("e", 4)]), 5);
    assert_eq!(rows, vec![pieces(&[("ab", 1), ("cd", 2), ("", 3), ("e", 4)])]);
    let rows = chunk_spans(&pieces(&[("abc", 1), ("de", 2)]), 4);
    assert_eq!(rows, vec![pieces(&[("abc", 1), ("d↴", 2)]), pieces(&[("de", 2)])]);
}

#[test]
fn chunk_spans_edge_cases() {
    assert_eq!(chunk_spans::<u8>(&Vec::new(), 10), vec![Vec::new()]);
    assert_eq!(chunk_spans(&pieces(&[("abc", 1)]), 0), vec![Vec::new()]);
    assert_eq!(chunk_spans(&pieces(&[("", 1)]), 3), vec![pieces(&[("", 1)])]);
}

#[test]
fn layouts_that_never_end_are_refused() {
    assert_eq!(try_chunk_spans(&pieces(&[("ab", 0)]), 1), None);
    assert_eq!(try_chunk_spans(&pieces(&[("漢字字", 0)]), 3), None);
    assert!(try_chunk_spans(&pieces(&[("abc", 0)]), 2).is_some());
}

#[test]
fn wrap_and_push_continues_long_lines() {
    let mut lines: Vec<Vec<(String, u8)>> = Vec::new();
    wrap_and_push(&mut lines, &pieces(&[("12│", 0)]), &pieces(&[("hello world", 1)]), 8, 9);
    assert_eq!(
        lines,
        vec![
            pieces(&[("12│", 0), ("hello↴", 1)]),
            pieces(&[("    │    │ ", 9), (" world", 1)]),
        ]
    );
}

#[test]
fn wrap_and_push_short_and_crowded_lines() {
    let mut lines: Vec<Vec<(String, u8)>> = Vec::new();
    wrap_and_push(&mut lines, &pieces(&[("1│", 0)]), &pieces(&[("ab", 1), ("c", 2)]), 10, 9);
    assert_eq!(lines, vec![pieces(&[("1│", 0), ("ab", 1), ("c", 2)])]);
    let mut lines: Vec<Vec<(String, u8)>> = Vec::new();
    wrap_and_push(&mut lines, &pieces(&[("12345", 0)]), &pieces(&[("ab", 1)]), 4, 9);
    assert_eq!(lines, vec![pieces(&[("12345", 0)])]);
}

#[test]
fn side_by_side_rows_line_up() {
    let mut left: Vec<Vec<(String, u8)>> = Vec::new();
    let mut right: Vec<Vec<(String, u8)>> = Vec::new();
    wrap_and_push_pair(
        &mut left,
        &mut right,
        &pieces(&[("L│", 0)]),
        &pieces(&[("R│", 0)]),
        &pieces(&[("abcdef", 1)]),
        &pieces(&[("xy", 2)]),
        6,
        6,
        7,
    );
    assert_eq!(
        left,
        vec![pieces(&[("L│", 0), ("abcd↴", 1)]), pieces(&[("│    │ ", 7), ("def", 1)])]
    );
    assert_eq!(right, vec![pieces(&[("R│", 0), ("xy", 2)]), pieces(&[("│    │ ", 7)])]);
}

#[test]
fn side_by_side_refuses_endless_layouts() {
    let mut left: Vec<Vec<(String, u8)>> = Vec::new();
    let mut right: Vec<Vec<(String, u8)>> = Vec::new();
    let ok = try_wrap_and_push_pair(
        &mut left,
        &mut right,
        &pieces(&[("L│", 0)]),
        &pieces(&[("R│", 0)]),
        &pieces(&[("abc", 1)]),
        &pieces(&[("xy", 2)]),
        3,
        6,
        7,
    );
    assert!(!ok);
    assert!(left.is_empty() && right.is_empty());
}

#[test]
fn numbers_are_centred_in_four_columns() {
    assert_eq!(centered_number(7), format!("{:^4}", 7));
    assert_eq!(centered_number(42), format!("{:^4}", 42));
    assert_eq!(centered_number(123), format!("{:^4}", 123));
    assert_eq!(centered_number(12345), "12345");
    assert_eq!(centered_number(0), " 0  ");
}

#[test]
fn prefixes() {
    assert_eq!(
        build_prefix_spans('│', 12, 1u8, 2u8),
        pieces(&[("│", 2), (" 12 ", 1), ("│ ", 2)])
    );
    assert_eq!(
        build_prefix_spans('+', 3, 1u8, 2u8),
        pieces(&[("+│", 2), (" 3  ", 1), ("│ ", 2)])
    );
    assert_eq!(
        build_dual_prefix_spans(Some(3), None, 1u8, 2u8, 3u8),
        pieces(&[(" 3  ", 1), ("│", 3), ("    ", 2), ("│ ", 3)])
    );
}
