use url_shortener::text::{chars_of, decimal, parse_u8, spells};

#[test]
fn decimal_matches_to_string() {
    for n in [0u64, 1, 9, 10, 11, 99, 100, 255, 65535, 1234567890, u64::MAX] {
        assert_eq!(decimal(n), n.to_string());
    }
}

#[test]
fn parse_u8_accepts_numbers() {
    let p = |s: &str| parse_u8(&s.chars().collect());
    assert_eq!(p("0"), Some(0));
    assert_eq!(p("255"), Some(255));
    assert_eq!(p("+7"), Some(7));
    assert_eq!(p("007"), Some(7));
}

#[test]
fn parse_u8_refuses_other_text() {
    let p = |s: &str| parse_u8(&s.chars().collect());
    assert_eq!(p(""), None);
    assert_eq!(p("+"), None);
    assert_eq!(p("-1"), None);
    assert_eq!(p("-0"), None);
    assert_eq!(p("256"), None);
    assert_eq!(p("1000"), None);
    assert_eq!(p("12a"), None);
    assert_eq!(p(" 1"), None);
    assert_eq!(p("++1"), None);
}

#[test]
fn parse_u8_agrees_with_std() {
    let mut cases: Vec<String> = (0..1100).map(|n| n.to_string()).collect();
    for s in ["+0", "+255", "+256", "0000255", "x", "", "-", "+", "1-", "99999999999999999999"] {
        cases.push(s.to_string());
    }
    for s in cases {
        assert_eq!(parse_u8(&s.chars().collect()), s.parse::<u8>().ok(), "case {:?}", s);
    }
}

#[test]
fn chars_and_spelling() {
    assert_eq!(chars_of("aé€"), vec!['a', 'é', '€']);
    assert!(spells(&vec!['c', 'o', 'u', 'n', 't'], "count"));
    assert!(!spells(&vec!['c', 'o', 'u', 'n'], "count"));
    assert!(!spells(&vec!['C', 'o', 'u', 'n', 't'], "count"));
}
