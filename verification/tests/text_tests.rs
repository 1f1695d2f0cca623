use syncthing_cli::text::{
    decimal_string, eq_ignore_ascii_case, join, pad_right, rsplit_once, split_once, starts_with,
    str_eq, strip_prefix, trim_end_matches,
};

#[test]
fn splitting() {
    assert_eq!(split_once("a:b:c", ':'), Some(("a", "b:c")));
    assert_eq!(rsplit_once("a@b@c", '@'), Some(("a@b", "c")));
    assert_eq!(split_once("abc", ':'), None);
    assert_eq!(rsplit_once("", '@'), None);
    assert_eq!(split_once("é:ü", ':'), Some(("é", "ü")));
}

#[test]
fn prefixes() {
    assert!(starts_with("http://x", "http://"));
    assert!(!starts_with("http", "http://"));
    assert_eq!(strip_prefix("https://x", "https://"), Some("x"));
    assert_eq!(strip_prefix("x", "https://"), None);
    assert_eq!(trim_end_matches("a//", '/'), "a");
    assert_eq!(trim_end_matches("///", '/'), "");
}

#[test]
fn comparisons() {
    assert!(eq_ignore_ascii_case("NaS", "nas"));
    assert!(!eq_ignore_ascii_case("nas", "nass"));
    assert!(!eq_ignore_ascii_case("É", "é"));
    assert!(str_eq("x", "x"));
    assert!(!str_eq("x", "y"));
}

#[test]
fn rendering() {
    assert_eq!(decimal_string(0), "0");
    assert_eq!(decimal_string(1234567890), "1234567890");
    assert_eq!(decimal_string(u64::MAX), u64::MAX.to_string());
    assert_eq!(pad_right("ab", 4), "ab  ");
    assert_eq!(pad_right("abcdef", 4), "abcdef");
    assert_eq!(pad_right("é", 3), format!("{:<3}", "é"));
    assert_eq!(join(&vec!["a".to_string(), "b".to_string()], ", "), "a, b");
    assert_eq!(join(&vec![], ", "), "");
}
