use stringdiff::Diff;
use stringdiff::StringDiffOp;
use stringdiff::StringDiffOpKind;
use stringdiff::hamming;
use stringdiff::levenshtein;

#[test]
fn test_op_tally_hamming() {
    let d = hamming("karolin", "kathrin").unwrap();
    let tally = d.op_tally();
    assert_eq!(0, tally.indels);
    assert_eq!(0, tally.case_subs);
    assert_eq!(3, tally.other_subs);
    assert_eq!(0, tally.transposes);
}

#[test]
fn test_op_tally_levenshtein() {
    let d = levenshtein("kitten", "sitting");
    let tally = d.op_tally();
    assert_eq!(1, tally.indels);
    assert_eq!(0, tally.case_subs);
    assert_eq!(2, tally.other_subs);
    assert_eq!(0, tally.transposes);
}

#[test]
fn test_op_tally_case_insensitive_substitution() {
    let d = Diff::new(
        vec![
            StringDiffOp::new_substitute('a', 'A', 0),
            StringDiffOp::new_substitute('B', 'b', 1),
            StringDiffOp::new_substitute('a', 'b', 2),
            StringDiffOp::new_delete(3),
            StringDiffOp::new_insert('x', 3),
            StringDiffOp::new(StringDiffOpKind::Transpose, 0),
        ],
        6,
    );
    let tally = d.op_tally();
    assert_eq!(2, tally.indels);
    assert_eq!(2, tally.case_subs);
    assert_eq!(1, tally.other_subs);
    assert_eq!(1, tally.transposes);
}

#[test]
fn test_distance_is_operation_count() {
    let d = Diff::new(
        vec![StringDiffOp::new_delete(0), StringDiffOp::new_delete(1)],
        4,
    );
    assert_eq!(2, d.distance());
}
