use gwt::paths::{below_at, components, file_name, join_paths, normalize, same_path, starts_with};
use gwt::text::{
    contains_str, decimal_string, join_with, lines_of, non_empty_lines, parse_usize_str,
    split_on, strip_prefix_str, trim_str,
};

#[test]
fn lines_follow_str_lines() {
    assert_eq!(lines_of("a\nb\r\n\nc\r"), ["a", "b", "", "c\r"]);
    assert_eq!(lines_of("a\n"), ["a"]);
    assert!(lines_of("").is_empty());
    assert_eq!(non_empty_lines(" a \n\n\t\n b"), ["a", "b"]);
}

#[test]
fn splitting_and_joining_round_trip() {
    assert_eq!(split_on("a,b,,c", ','), ["a", "b", "", "c"]);
    assert_eq!(split_on("", ','), [""]);
    let parts = split_on("x/y/z", '/');
    assert_eq!(join_with(&parts, "/"), "x/y/z");
}

#[test]
fn trimming_and_prefixes() {
    assert_eq!(trim_str("\u{3000} x y \n"), "x y");
    assert_eq!(strip_prefix_str("refs/heads/main", "refs/heads/").as_deref(), Some("main"));
    assert_eq!(strip_prefix_str("main", "refs/heads/"), None);
    assert!(contains_str("[gone]", "gone"));
    assert!(!contains_str("go", "gone"));
}

#[test]
fn numbers_are_read_and_written_in_decimal() {
    assert_eq!(parse_usize_str("42"), Some(42));
    assert_eq!(parse_usize_str("+7"), Some(7));
    assert_eq!(parse_usize_str("+"), None);
    assert_eq!(parse_usize_str(""), None);
    assert_eq!(parse_usize_str("4x"), None);
    assert_eq!(parse_usize_str("-1"), None);
    assert_eq!(parse_usize_str("18446744073709551616"), None);
    assert_eq!(decimal_string(0), "0");
    assert_eq!(decimal_string(1230), "1230");
}

#[test]
fn paths_compare_by_component() {
    assert_eq!(join_paths("/a", "b"), "/a/b");
    assert_eq!(join_paths("/a/", "b"), "/a/b");
    assert_eq!(join_paths("", "b"), "b");
    assert_eq!(join_paths("/a", "/b"), "/b");
    assert!(starts_with("/a/b/c", "/a/b"));
    assert!(starts_with("/a/b/", "/a//b"));
    assert!(!starts_with("/a/bc", "/a/b"));
    assert!(!starts_with("a/b", "/a"));
    assert!(same_path("/a/./b/", "/a/b"));
    assert!(!same_path("/a/../b", "/b"));
    assert!(below_at("/w/feature/auth", "/w", "feature/auth"));
    assert!(!below_at("/w/feature/auth", "/w", "auth"));
    assert_eq!(file_name("/w/x/").as_deref(), Some("x"));
    assert_eq!(file_name("/w/.."), None);
    assert_eq!(file_name("/"), None);
    assert_eq!(components("./a//b/."), [".", "a", "b"]);
}

#[test]
fn normalizing_twice_changes_nothing() {
    for p in ["/a/b/../c/./d", "../../a", "a/../..", "/..", "./x/../../y", ""] {
        let once = normalize(p);
        assert_eq!(normalize(&once), once, "{p}");
    }
    assert_eq!(normalize("/.."), "/..");
    assert_eq!(normalize("../.."), "../..");
    assert_eq!(normalize("../../a"), "../../a");
    assert_eq!(normalize("a/../../b"), "../b");
}
