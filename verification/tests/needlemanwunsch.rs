use stringdiff::NeedlemanWunsch;
use stringdiff::StringAlignAlgorithm;

#[test]
fn test_needlemanwunsch_align() {
    let test_struct = NeedlemanWunsch {};

    assert_eq!(
        test_struct.align("GCATGCG", "GATTACA"),
        (String::from("GCATG-CG"), String::from("G-ATTACA"))
    );

    assert_eq!(
        test_struct.align("CAGTG", "ATCTC"),
        (String::from("CAG-TG"), String::from("-ATCTC"))
    );
}

#[test]
fn test_needlemanwunsch_align_recovers_inputs() {
    let test_struct = NeedlemanWunsch {};
    let pairs = [
        ("GCATGCG", "GATTACA"),
        ("CAGTG", "ATCTC"),
        ("AB", "B"),
        ("", "XYZ"),
        ("XYZ", ""),
        ("", ""),
        ("same", "same"),
    ];
    for (a, b) in pairs {
        let (t, l) = test_struct.align(a, b);
        assert_eq!(t.chars().count(), l.chars().count());
        let t_stripped: String = t.chars().filter(|c| *c != '-').collect();
        let l_stripped: String = l.chars().filter(|c| *c != '-').collect();
        assert_eq!(a.to_string(), t_stripped);
        assert_eq!(b.to_string(), l_stripped);
    }
}

#[test]
fn test_needlemanwunsch_align_empty() {
    let test_struct = NeedlemanWunsch {};
    assert_eq!(
        test_struct.align("AB", ""),
        (String::from("AB"), String::from("--"))
    );
    assert_eq!(
        test_struct.align("", "AB"),
        (String::from("--"), String::from("AB"))
    );
}
