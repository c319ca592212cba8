use rshunterbtt::ble::{contains_text, scan_already_in_progress};

#[test]
fn scan_in_progress_messages_are_benign() {
    assert!(scan_already_in_progress("Other(AlreadyInProgress)"));
    assert!(scan_already_in_progress(
        "DbusError(\"Operation already in progress\")"
    ));
    assert!(scan_already_in_progress("scan already in progress"));
    assert!(!scan_already_in_progress("PermissionDenied"));
    assert!(!scan_already_in_progress("Already In Progress"));
    assert!(!scan_already_in_progress(""));
}

#[test]
fn contains_text_matches_str_contains() {
    let cases = [
        ("abc", "abc"),
        ("abc", ""),
        ("", ""),
        ("", "a"),
        ("xxabxab", "abx"),
        ("aab", "ab"),
        ("ab", "abc"),
        ("grünes Gras", "ün"),
        ("grünes Gras", "Gras "),
    ];
    for (h, n) in cases {
        assert_eq!(contains_text(h, n), h.contains(n), "{:?} in {:?}", n, h);
    }
}
