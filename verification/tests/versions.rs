use sukusho::update_checker::{is_newer_version, parse_number, parse_version, split_on, update_available};

fn chars(text: &str) -> Vec<char> {
    text.chars().collect()
}

#[test]
fn test_version_comparison() {
    assert!(is_newer_version("0.1.0", "0.2.0"));
    assert!(is_newer_version("0.1.0", "0.1.1"));
    assert!(is_newer_version("0.1.0", "1.0.0"));
    assert!(!is_newer_version("0.2.0", "0.1.0"));
    assert!(!is_newer_version("0.1.1", "0.1.0"));
    assert!(!is_newer_version("1.0.0", "0.9.9"));
    assert!(!is_newer_version("0.1.0", "0.1.0"));
}

#[test]
fn missing_parts_count_as_zero() {
    assert!(!is_newer_version("1.0.0", "1"));
    assert!(!is_newer_version("1", "1.0.0"));
    assert!(is_newer_version("1", "1.0.1"));
    assert!(is_newer_version("", "0.0.1"));
    assert!(!is_newer_version("", ""));
}

#[test]
fn parts_after_the_third_play_no_part() {
    assert!(!is_newer_version("1.2.3.4", "1.2.3.5"));
    assert!(!is_newer_version("1.2.3", "1.2.3.1"));
}

#[test]
fn pieces_that_are_no_number_are_passed_over() {
    assert_eq!(parse_version("1.x.3"), vec![1, 3]);
    assert_eq!(parse_version("1.2-beta.3"), vec![1, 3]);
    assert_eq!(parse_version("1..2"), vec![1, 2]);
    assert_eq!(parse_version("v1.2.3"), vec![2, 3]);
    assert!(is_newer_version("1.0.3", "1.x.4"));
    assert!(!is_newer_version("1.5.0", "1.x.4"));
}

#[test]
fn numbers_are_read_as_the_standard_library_reads_them() {
    for text in ["0", "7", "007", "+5", "4294967295", "4294967296", "99999999999", "", "+", "-1", "1 ", " 1", "1a", "٣", "+-1", "++1"] {
        assert_eq!(parse_number(&chars(text)), text.parse::<u32>().ok(), "{:?}", text);
    }
    assert_eq!(parse_number(&chars("4294967295")), Some(u32::MAX));
    assert_eq!(parse_number(&chars("4294967296")), None);
    assert_eq!(parse_number(&chars("+5")), Some(5));
}

#[test]
fn versions_split_as_the_standard_library_splits_them() {
    for text in ["", ".", "1.2.3", "1..2", ".1", "1.", "a.b", "..."] {
        let expected: Vec<Vec<char>> = text.split('.').map(chars).collect();
        assert_eq!(split_on(&chars(text), '.'), expected, "{:?}", text);
    }
}

#[test]
fn versions_parse_as_split_and_filter_do() {
    for text in ["0.1.0", "1.2.3", "10.20.30", "1.2", "1", "", "1.x.3", "+1.2", "1.2.3.4", "4294967296.1"] {
        let expected: Vec<u32> = text.split('.').filter_map(|piece| piece.parse().ok()).collect();
        assert_eq!(parse_version(text), expected, "{:?}", text);
    }
}

#[test]
fn a_tag_is_read_without_its_prefix() {
    assert!(update_available("0.1.0", "v0.2.0"));
    assert!(update_available("0.1.0", "0.2.0"));
    assert!(update_available("0.1.0", "vv0.2.0"));
    assert!(!update_available("0.2.0", "v0.2.0"));
    assert!(!update_available("0.2.0", "v0.1.9"));
    assert!(!update_available("0.2.0", "v"));
    assert!(!update_available("0.2.0", ""));
    assert!(update_available("0.2.0", "v1.v2"));
}
