use stringdiff::Diff;
use stringdiff::LevenshteinDistance;
use stringdiff::StringDiffAlgorithm;
use stringdiff::StringDiffOp;
use stringdiff::apply_diff;
use stringdiff::levenshtein;

fn vec_compare(va: &Vec<StringDiffOp>, vb: &Vec<StringDiffOp>) -> bool {
    (va.len() == vb.len()) && va.iter().zip(vb).all(|(a, b)| a == b)
}

#[test]
fn test_levenshtein_distance_edit_distance() {
    let test_struct = LevenshteinDistance {};

    assert_eq!(3, test_struct.distance("reset", "sets"));
    assert_eq!(3, test_struct.distance("kitten", "sitting"));
    assert_eq!(3, test_struct.distance("Saturday", "Sunday"));
}

#[test]
fn test_levenshtein_distance_op_distance() {
    let test_struct = LevenshteinDistance {};

    let mut test_vec: Vec<StringDiffOp> = Vec::new();
    test_vec.push(StringDiffOp::new_insert('g', 6));
    test_vec.push(StringDiffOp::new_substitute('e', 'i', 4));
    test_vec.push(StringDiffOp::new_substitute('k', 's', 0));

    let mut test_vec_2: Vec<StringDiffOp> = Vec::new();
    test_vec_2.push(StringDiffOp::new_substitute('r', 'n', 4));
    test_vec_2.push(StringDiffOp::new_delete(2));
    test_vec_2.push(StringDiffOp::new_delete(1));

    let mut test_vec_3: Vec<StringDiffOp> = Vec::new();
    test_vec_3.push(StringDiffOp::new_insert('S', 5));
    test_vec_3.push(StringDiffOp::new_delete(1));
    test_vec_3.push(StringDiffOp::new_delete(0));

    let mut test_vec_4: Vec<StringDiffOp> = Vec::new();
    test_vec_4.push(StringDiffOp::new_insert('E', 5));
    test_vec_4.push(StringDiffOp::new_insert('R', 6));

    assert_eq!(
        vec_compare(&test_vec, &test_struct.diff("kitten", "sitting")),
        true
    );
    assert_eq!(
        vec_compare(&test_vec_2, &test_struct.diff("Saturday", "Sunday")),
        true
    );
    assert_eq!(
        vec_compare(&test_vec_3, &test_struct.diff("RESET", "SETS")),
        true
    );
    assert_eq!(
        vec_compare(&test_vec_4, &test_struct.diff("RESET", "RESETER")),
        true
    );
}

#[test]
fn levenshtein_test_levenshtein_distance_op_distance() {
    let test_diff = Diff::new(
        vec![
            StringDiffOp::new_insert('g', 6),
            StringDiffOp::new_substitute('e', 'i', 4),
            StringDiffOp::new_substitute('k', 's', 0),
        ],
        7,
    );

    let test_diff_2 = Diff::new(
        vec![
            StringDiffOp::new_substitute('r', 'n', 4),
            StringDiffOp::new_delete(2),
            StringDiffOp::new_delete(1),
        ],
        8,
    );

    let test_diff_3 = Diff::new(
        vec![
            StringDiffOp::new_insert('S', 5),
            StringDiffOp::new_delete(1),
            StringDiffOp::new_delete(0),
        ],
        5,
    );

    let test_diff_4 = Diff::new(
        vec![
            StringDiffOp::new_insert('E', 5),
            StringDiffOp::new_insert('R', 6),
        ],
        7,
    );

    assert_eq!(test_diff, levenshtein("kitten", "sitting"));
    assert_eq!(test_diff_2, levenshtein("Saturday", "Sunday"));
    assert_eq!(test_diff_3, levenshtein("RESET", "SETS"));
    assert_eq!(test_diff_4, levenshtein("RESET", "RESETER"));
}

#[test]
fn test_levenshtein_round_trip() {
    let pairs = [
        ("kitten", "sitting"),
        ("Saturday", "Sunday"),
        ("RESET", "SETS"),
        ("RESET", "RESETER"),
        ("", "abc"),
        ("abc", ""),
        ("", ""),
        ("hey", "heeoy"),
        ("kate", "skater"),
        ("xzw", "xazv"),
        ("aaaa", "aaaa"),
        ("abab", "baba"),
    ];
    for (a, b) in pairs {
        let d = levenshtein(a, b);
        assert_eq!(
            b.to_string(),
            apply_diff(a, d.ops).unwrap(),
            "round trip failed for {:?} -> {:?}",
            a,
            b
        );
    }
}

#[test]
fn test_levenshtein_empty_inputs() {
    let d = levenshtein("", "abc");
    assert_eq!(3, d.distance());
    assert_eq!(3, d.total_len);

    let e = levenshtein("abc", "");
    assert_eq!(3, e.distance());
    assert_eq!(3, e.total_len);

    let f = levenshtein("", "");
    assert_eq!(0, f.distance());
    assert_eq!(0, f.total_len);
}
