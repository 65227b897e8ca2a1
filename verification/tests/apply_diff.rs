use stringdiff::DiffError;
use stringdiff::StringDiffOp;
use stringdiff::StringDiffOpKind;
use stringdiff::apply_diff;

#[test]
fn test_apply_diffs() {
    let test_vec: Vec<StringDiffOp> = vec![
        StringDiffOp::new_insert('g', 6),
        StringDiffOp::new_substitute('e', 'i', 4),
        StringDiffOp::new_substitute('k', 's', 0),
    ];

    let test_vec_2: Vec<StringDiffOp> = vec![
        StringDiffOp::new_substitute('r', 'n', 4),
        StringDiffOp::new_delete(2),
        StringDiffOp::new_delete(1),
    ];

    let test_vec_3: Vec<StringDiffOp> = vec![
        StringDiffOp::new_insert('S', 5),
        StringDiffOp::new_delete(1),
        StringDiffOp::new_delete(0),
    ];

    let test_vec_4 = vec![
        StringDiffOp::new_insert('e', 1),
        StringDiffOp::new_insert('o', 3),
    ];

    let test_vec_5 = vec![
        StringDiffOp::new_insert('r', 4),
        StringDiffOp::new_insert('s', 0),
    ];

    assert_eq!(
        String::from("sitting"),
        apply_diff("kitten", test_vec).unwrap()
    );
    assert_eq!(
        String::from("Sunday"),
        apply_diff("Saturday", test_vec_2).unwrap()
    );
    assert_eq!(String::from("SETS"), apply_diff("RESET", test_vec_3).unwrap());
    assert_eq!(String::from("heeoy"), apply_diff("hey", test_vec_4).unwrap());
    assert_eq!(
        String::from("skater"),
        apply_diff("kate", test_vec_5).unwrap()
    );
}

#[test]
fn test_apply_empty_script() {
    assert_eq!(String::from("RESET"), apply_diff("RESET", Vec::new()).unwrap());
    assert_eq!(String::from(""), apply_diff("", Vec::new()).unwrap());
}

#[test]
fn test_apply_transpose_unsupported() {
    let script = vec![StringDiffOp::new(StringDiffOpKind::Transpose, 0)];
    assert_eq!(
        Err(DiffError::UnsupportedOperation),
        apply_diff("abcd", script)
    );

    let script_2 = vec![
        StringDiffOp::new_delete(0),
        StringDiffOp::new(StringDiffOpKind::Transpose, 1),
    ];
    assert_eq!(
        Err(DiffError::UnsupportedOperation),
        apply_diff("abcd", script_2)
    );
}
