use rustyproject::text::{
    decimal_string, eq_ignore_ascii_case, is_blank, join, parse_usize, trim_string, ParseUsizeError,
};

#[test]
fn usize_parsing_matches_std() {
    let cases = [
        "0", "42", "+7", "", "+", "-", "-3", " 5", "5 ", "12a", "٣", "18446744073709551615",
        "18446744073709551616", "99999999999999999999x", "00012",
    ];
    for case in cases {
        let ours = parse_usize(case);
        let std_result = case.parse::<usize>();
        match (ours, std_result) {
            (Ok(a), Ok(b)) => assert_eq!(a, b, "{case}"),
            (Err(e), Err(err)) => assert_eq!(e.message(), err.to_string(), "{case}"),
            (a, b) => panic!("{case}: {a:?} vs {b:?}"),
        }
    }
    assert_eq!(parse_usize(""), Err(ParseUsizeError::Empty));
    assert_eq!(parse_usize("+"), Err(ParseUsizeError::InvalidDigit));
    assert_eq!(parse_usize("99999999999999999999999"), Err(ParseUsizeError::PosOverflow));
}

#[test]
fn trimming_and_comparing() {
    assert_eq!(trim_string("\u{3000} a b \n"), "a b");
    assert!(is_blank(" \t\n"));
    assert!(!is_blank(" x "));
    assert!(eq_ignore_ascii_case("MpP", "mPp"));
    assert!(!eq_ignore_ascii_case("mpp", "mpq"));
    assert_eq!(decimal_string(0), "0");
    assert_eq!(decimal_string(1234567), "1234567");
    assert_eq!(join(&vec!["a".to_string(), "b".to_string()], ", "), "a, b");
    assert_eq!(join(&Vec::new(), ", "), "");
}
