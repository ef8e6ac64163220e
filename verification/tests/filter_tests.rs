use scim::filter::{parse_scim_filter, trim_quote_chars, Filter};
use scim::text::{str_contains, str_eq_ignore_ascii_case, str_lt, to_lowercase};

#[test]
fn parses_eq_and_co_filters() {
    match parse_scim_filter("userName eq \"bjensen\"") {
        Some(Filter::Eq(a, v)) => {
            assert_eq!(a, "userName");
            assert_eq!(v, "bjensen");
        }
        other => panic!("unexpected {:?}", other),
    }
    match parse_scim_filter("displayName CO 'Admin'") {
        Some(Filter::Co(a, v)) => {
            assert_eq!(a, "displayName");
            assert_eq!(v, "Admin");
        }
        other => panic!("unexpected {:?}", other),
    }
}

#[test]
fn quoted_value_keeps_its_spacing() {
    match parse_scim_filter("  displayName   eq   \"Big   Team\"  ") {
        Some(Filter::Eq(a, v)) => {
            assert_eq!(a, "displayName");
            assert_eq!(v, "Big   Team");
        }
        other => panic!("unexpected {:?}", other),
    }
    match parse_scim_filter("displayName eq \"Domain  Admins\"") {
        Some(Filter::Eq(a, v)) => {
            assert_eq!(a, "displayName");
            assert_eq!(v, "Domain  Admins");
        }
        other => panic!("unexpected {:?}", other),
    }
    match parse_scim_filter("userName\tco\tBig Team\n") {
        Some(Filter::Co(a, v)) => {
            assert_eq!(a, "userName");
            assert_eq!(v, "Big Team");
        }
        other => panic!("unexpected {:?}", other),
    }
}

#[test]
fn unsupported_or_short_filters_do_not_parse() {
    assert!(parse_scim_filter("userName eq").is_none());
    assert!(parse_scim_filter("userName eq \t ").is_none());
    assert!(parse_scim_filter("").is_none());
    assert!(parse_scim_filter("userName sw \"b\"").is_none());
}

#[test]
fn white_space_and_quotes() {
    assert!(parse_scim_filter("a\u{3000}eq\u{3000}b").is_some());
    assert!(parse_scim_filter("   ").is_none());
    assert_eq!(trim_quote_chars("\"'abc'\""), "abc");
    assert_eq!(trim_quote_chars("\"\"\""), "");
    assert_eq!(trim_quote_chars("a\"b"), "a\"b");
}

#[test]
fn string_helpers() {
    assert!(str_eq_ignore_ascii_case("UserName", "username"));
    assert!(!str_eq_ignore_ascii_case("user", "users"));
    assert!(!str_eq_ignore_ascii_case("Ä", "ä"));
    assert!(str_lt("Bob", "alice"));
    assert!(str_lt("ab", "abc"));
    assert!(!str_lt("abc", "abc"));
    assert!(str_contains("hello", "ell"));
    assert!(str_contains("hello", ""));
    assert!(!str_contains("he", "hello"));
    assert_eq!(to_lowercase("ÄBC"), "äbc");
    assert_eq!(to_lowercase("UserName EQ"), "username eq");
    assert!(matches!(parse_scim_filter("userName EQ bob"), Some(Filter::Eq(_, _))));
}
