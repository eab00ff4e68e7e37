use gitui_view::align::{run_length_encode, Alignment, Operation};

#[test]
fn run_length_encode_groups_runs() {
    let ops = vec![
        Operation::NoOp,
        Operation::NoOp,
        Operation::Deletion,
        Operation::Insertion,
        Operation::Insertion,
    ];
    assert_eq!(
        run_length_encode(ops),
        vec![(Operation::NoOp, 2), (Operation::Deletion, 1), (Operation::Insertion, 2)]
    );
}

#[test]
fn run_length_encode_empty() {
    assert_eq!(run_length_encode(Vec::<Operation>::new()), Vec::new());
}

#[test]
fn identical_tokens_align_as_matches() {
    let a = Alignment::new(vec!["a", "b"], vec!["a", "b"]);
    assert_eq!(a.operations(), vec![Operation::NoOp, Operation::NoOp]);
    assert_eq!(a.coalesced_operations(), vec![(Operation::NoOp, 2)]);
}

#[test]
fn a_changed_token_is_a_deletion_then_an_insertion() {
    let a = Alignment::new(vec!["a"], vec!["b"]);
    assert_eq!(a.operations(), vec![Operation::Deletion, Operation::Insertion]);
}

#[test]
fn a_changed_last_token() {
    let a = Alignment::new(vec!["", "foo", " ", "bar"], vec!["", "foo", " ", "baz"]);
    assert_eq!(
        a.coalesced_operations(),
        vec![(Operation::NoOp, 3), (Operation::Deletion, 1), (Operation::Insertion, 1)]
    );
}

#[test]
fn an_added_token_is_an_insertion() {
    let a = Alignment::new(vec!["a"], vec!["a", "b"]);
    assert_eq!(a.operations(), vec![Operation::NoOp, Operation::Insertion]);
}

#[test]
fn empty_sequences_align_to_the_corner() {
    let a = Alignment::new(Vec::new(), Vec::new());
    assert_eq!(a.operations(), vec![Operation::NoOp]);
    assert_eq!(a.x().len(), 0);
    assert_eq!(a.y().len(), 0);
}

#[test]
fn alignment_with_a_shared_first_token_steps_over_every_token() {
    let x = vec!["", "a", " ", "b", "c"];
    let y = vec!["", "x", "b", " ", "d", "e", "f"];
    let a = Alignment::new(x.clone(), y.clone());
    let ops = a.operations();
    let from_x = ops.iter().filter(|op| **op != Operation::Insertion).count();
    let from_y = ops.iter().filter(|op| **op != Operation::Deletion).count();
    assert_eq!(from_x, x.len());
    assert_eq!(from_y, y.len());
}

#[test]
fn run_length_encode_groups_integers() {
    let sequence = vec![0, 0, 1, 2, 2, 2, 3, 4, 4, 4];
    assert_eq!(run_length_encode(sequence), vec![(0, 2), (1, 1), (2, 3), (3, 1), (4, 3)]);
}

#[test]
fn refilling_a_table_changes_nothing() {
    let x = vec!["", "foo", " ", "bar"];
    let y = vec!["", "foo", " ", "baz"];
    let mut a = Alignment::new(x.clone(), y.clone());
    let ops = a.operations();
    let runs = a.coalesced_operations();
    a.fill();
    assert_eq!(a.operations(), ops);
    assert_eq!(a.coalesced_operations(), runs);
    assert_eq!(a.x, x);
    assert_eq!(a.y, y);
}
