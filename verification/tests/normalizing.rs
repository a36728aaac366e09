use sukusho::paths::{normalize, starts_with_marker, transfer_form, PathProbe};

fn wide(text: &str) -> Vec<u16> {
    text.encode_utf16().collect()
}

fn absolute(path: &str, exists: bool) -> PathProbe {
    PathProbe { path: wide(path), absolute: true, canonical: None, exists }
}

fn relative(path: &str, canonical: Option<&str>, exists: bool) -> PathProbe {
    PathProbe { path: wide(path), absolute: false, canonical: canonical.map(wide), exists }
}

#[test]
fn an_absolute_path_that_exists_is_kept_as_it_is() {
    assert_eq!(normalize(&vec![absolute("C:\\shots\\a.png", true)]), vec![wide("C:\\shots\\a.png")]);
}

#[test]
fn a_relative_path_is_taken_as_resolved() {
    let probes = vec![relative("a.png", Some("C:\\shots\\a.png"), true)];
    assert_eq!(normalize(&probes), vec![wide("C:\\shots\\a.png")]);
}

#[test]
fn a_path_that_cannot_be_resolved_is_dropped() {
    let probes = vec![relative("gone.png", None, true), absolute("C:\\b.png", true)];
    assert_eq!(normalize(&probes), vec![wide("C:\\b.png")]);
}

#[test]
fn a_path_that_does_not_exist_is_dropped() {
    let probes = vec![absolute("C:\\gone.png", false), relative("x", Some("C:\\x"), false)];
    assert_eq!(normalize(&probes), Vec::<Vec<u16>>::new());
}

#[test]
fn the_marker_is_stripped() {
    let probes = vec![
        absolute("\\\\?\\C:\\shots\\a.png", true),
        relative("b.png", Some("\\\\?\\C:\\shots\\b.png"), true),
    ];
    assert_eq!(normalize(&probes), vec![wide("C:\\shots\\a.png"), wide("C:\\shots\\b.png")]);
}

#[test]
fn only_a_leading_marker_is_stripped() {
    let probes = vec![absolute("C:\\\\?\\a", true), absolute("\\\\?", true), absolute("\\\\.\\C:", true)];
    assert_eq!(normalize(&probes), vec![wide("C:\\\\?\\a"), wide("\\\\?"), wide("\\\\.\\C:")]);
    assert!(starts_with_marker(&wide("\\\\?\\")));
    assert!(starts_with_marker(&wide("\\\\?\\C:")));
    assert!(!starts_with_marker(&wide("\\\\?")));
    assert!(!starts_with_marker(&wide("a\\\\?\\")));
    assert!(!starts_with_marker(&vec![]));
}

#[test]
fn the_canonical_form_of_an_absolute_path_is_not_used() {
    let probe = PathProbe {
        path: wide("C:\\link.png"),
        absolute: true,
        canonical: Some(wide("\\\\?\\D:\\target.png")),
        exists: true,
    };
    assert_eq!(transfer_form(&probe), Some(wide("C:\\link.png")));
}

#[test]
fn transfer_form_of_each_kind_of_probe() {
    assert_eq!(transfer_form(&absolute("\\\\?\\C:\\a", false)), Some(wide("C:\\a")));
    assert_eq!(transfer_form(&relative("a", Some("C:\\a"), false)), Some(wide("C:\\a")));
    assert_eq!(transfer_form(&relative("a", None, true)), None);
}

#[test]
fn order_of_the_request_is_kept() {
    let probes = vec![
        absolute("C:\\3.png", true),
        absolute("C:\\gone.png", false),
        relative("1.png", Some("\\\\?\\C:\\1.png"), true),
        relative("lost.png", None, false),
        absolute("C:\\2.png", true),
        absolute("C:\\3.png", true),
    ];
    assert_eq!(
        normalize(&probes),
        vec![wide("C:\\3.png"), wide("C:\\1.png"), wide("C:\\2.png"), wide("C:\\3.png")]
    );
}

#[test]
fn an_empty_request_has_an_empty_list() {
    assert_eq!(normalize(&vec![]), Vec::<Vec<u16>>::new());
}

#[test]
fn payload_of_a_normalized_request_follows_the_formula() {
    let probes = vec![
        absolute("\\\\?\\C:\\shots\\one.png", true),
        absolute("C:\\gone.png", false),
        relative("two.png", Some("D:\\shots\\two.png"), true),
    ];
    let paths = normalize(&probes);
    assert_eq!(paths, vec![wide("C:\\shots\\one.png"), wide("D:\\shots\\two.png")]);
    let payload = sukusho::file_list::encode(&paths).unwrap();
    assert_eq!(payload.len(), 20 + (16 + 1) * 2 + (16 + 1) * 2 + 2);
    assert_eq!(sukusho::file_list::decode(&payload), Ok(paths));
}

#[test]
fn an_empty_transfer_form_is_dropped() {
    let probes = vec![
        absolute("", true),
        absolute("\\\\?\\", true),
        relative("x", Some(""), true),
        relative("y", Some("\\\\?\\"), true),
        absolute("C:\\a.png", true),
    ];
    assert_eq!(normalize(&probes), vec![wide("C:\\a.png")]);
    assert_eq!(transfer_form(&absolute("\\\\?\\", true)), Some(vec![]));
}
