use comments::routes::parse_comment_path;

#[test]
fn a_slash_and_digits_parse_to_the_id() {
    assert_eq!(parse_comment_path(b"/123"), Some(123));
    assert_eq!(parse_comment_path(b"/1"), Some(1));
    assert_eq!(parse_comment_path(b"/0"), Some(0));
    assert_eq!(parse_comment_path(b"/007"), Some(7));
}

#[test]
fn other_paths_do_not_route_to_a_comment() {
    assert_eq!(parse_comment_path(b"/"), None);
    assert_eq!(parse_comment_path(b""), None);
    assert_eq!(parse_comment_path(b"/12a"), None);
    assert_eq!(parse_comment_path(b"/a12"), None);
    assert_eq!(parse_comment_path(b"12"), None);
    assert_eq!(parse_comment_path(b"//1"), None);
    assert_eq!(parse_comment_path(b"/1/2"), None);
    assert_eq!(parse_comment_path(b"/-1"), None);
}

#[test]
fn oversized_digit_runs_are_refused() {
    assert_eq!(parse_comment_path(b"/999999999999999999"), Some(999999999999999999));
    assert_eq!(parse_comment_path(b"/9999999999999999999"), None);
}
