use stringdiff::Diff;
use stringdiff::DiffError;
use stringdiff::HammingDistance;
use stringdiff::StringDiffAlgorithm;
use stringdiff::StringDiffOp;
use stringdiff::hamming;

fn vec_compare(va: &Vec<StringDiffOp>, vb: &Vec<StringDiffOp>) -> bool {
    (va.len() == vb.len()) && va.iter().zip(vb).all(|(a, b)| a == b)
}

#[test]
fn test_hamming_distance_edit_distance() {
    let test_struct = HammingDistance {};

    assert_eq!(3, test_struct.distance("karolin", "kathrin"));
    assert_eq!(3, test_struct.distance("karolin", "kerstin"));
    assert_eq!(4, test_struct.distance("kathrin", "kerstin"));
    assert_eq!(4, test_struct.distance("0000", "1111"));
    assert_eq!(3, test_struct.distance("2173896", "2233796"));
}

#[test]
fn test_hamming_distance_op_distance() {
    let test_struct = HammingDistance {};

    let mut test_vec: Vec<StringDiffOp> = Vec::new();
    test_vec.push(StringDiffOp::new_substitute('r', 't', 2));
    test_vec.push(StringDiffOp::new_substitute('o', 'h', 3));
    test_vec.push(StringDiffOp::new_substitute('l', 'r', 4));

    let mut test_vec_2: Vec<StringDiffOp> = Vec::new();
    test_vec_2.push(StringDiffOp::new_substitute('a', 'e', 1));
    test_vec_2.push(StringDiffOp::new_substitute('o', 's', 3));
    test_vec_2.push(StringDiffOp::new_substitute('l', 't', 4));

    let mut test_vec_3: Vec<StringDiffOp> = Vec::new();
    test_vec_3.push(StringDiffOp::new_substitute('a', 'e', 1));
    test_vec_3.push(StringDiffOp::new_substitute('t', 'r', 2));
    test_vec_3.push(StringDiffOp::new_substitute('h', 's', 3));
    test_vec_3.push(StringDiffOp::new_substitute('r', 't', 4));

    let mut test_vec_4: Vec<StringDiffOp> = Vec::new();
    test_vec_4.push(StringDiffOp::new_substitute('0', '1', 0));
    test_vec_4.push(StringDiffOp::new_substitute('0', '1', 1));
    test_vec_4.push(StringDiffOp::new_substitute('0', '1', 2));
    test_vec_4.push(StringDiffOp::new_substitute('0', '1', 3));

    let mut test_vec_5: Vec<StringDiffOp> = Vec::new();
    test_vec_5.push(StringDiffOp::new_substitute('1', '2', 1));
    test_vec_5.push(StringDiffOp::new_substitute('7', '3', 2));
    test_vec_5.push(StringDiffOp::new_substitute('8', '7', 4));

    assert_eq!(
        vec_compare(&test_vec, &test_struct.diff("karolin", "kathrin")),
        true
    );
    assert_eq!(
        vec_compare(&test_vec_2, &test_struct.diff("karolin", "kerstin")),
        true
    );
    assert_eq!(
        vec_compare(&test_vec_3, &test_struct.diff("kathrin", "kerstin")),
        true
    );
    assert_eq!(
        vec_compare(&test_vec_4, &test_struct.diff("0000", "1111")),
        true
    );
    assert_eq!(
        vec_compare(&test_vec_5, &test_struct.diff("2173896", "2233796")),
        true
    );
}

#[test]
fn hamming_test_hamming_distance_op_distance() {
    let test_diff = Diff::new(
        vec![
            StringDiffOp::new_substitute('r', 't', 2),
            StringDiffOp::new_substitute('o', 'h', 3),
            StringDiffOp::new_substitute('l', 'r', 4),
        ],
        7,
    );

    let test_diff_2 = Diff::new(
        vec![
            StringDiffOp::new_substitute('a', 'e', 1),
            StringDiffOp::new_substitute('o', 's', 3),
            StringDiffOp::new_substitute('l', 't', 4),
        ],
        7,
    );

    let test_diff_3 = Diff::new(
        vec![
            StringDiffOp::new_substitute('a', 'e', 1),
            StringDiffOp::new_substitute('t', 'r', 2),
            StringDiffOp::new_substitute('h', 's', 3),
            StringDiffOp::new_substitute('r', 't', 4),
        ],
        7,
    );

    let test_diff_4 = Diff::new(
        vec![
            StringDiffOp::new_substitute('0', '1', 0),
            StringDiffOp::new_substitute('0', '1', 1),
            StringDiffOp::new_substitute('0', '1', 2),
            StringDiffOp::new_substitute('0', '1', 3),
        ],
        4,
    );

    let test_diff_5 = Diff::new(
        vec![
            StringDiffOp::new_substitute('1', '2', 1),
            StringDiffOp::new_substitute('7', '3', 2),
            StringDiffOp::new_substitute('8', '7', 4),
        ],
        7,
    );

    assert_eq!(test_diff, hamming("karolin", "kathrin").unwrap());
    assert_eq!(test_diff_2, hamming("karolin", "kerstin").unwrap());
    assert_eq!(test_diff_3, hamming("kathrin", "kerstin").unwrap());
    assert_eq!(test_diff_4, hamming("0000", "1111").unwrap());
    assert_eq!(test_diff_5, hamming("2173896", "2233796").unwrap());
}

#[test]
fn test_hamming_length_mismatch() {
    assert_eq!(Err(DiffError::LengthMismatch), hamming("abc", "ab"));
    assert_eq!(Err(DiffError::LengthMismatch), hamming("", "a"));
}

#[test]
fn test_hamming_equal_strings() {
    let d = hamming("same", "same").unwrap();
    assert_eq!(0, d.distance());
    assert_eq!(4, d.total_len);

    let e = hamming("", "").unwrap();
    assert_eq!(0, e.distance());
    assert_eq!(0, e.total_len);
}
