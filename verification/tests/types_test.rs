use infolang::request::workspace_prefix;
use infolang::text::{decimal_string, join_strings, parse_i64_str, split_str, strip_trailing_str, trim_str};
use infolang::{normalize_tags, InvestigateOptions};

#[test]
fn normalize_tags_splits_and_trims() {
    let tags = vec!["a, b".to_string(), "c".to_string(), " ".to_string()];
    assert_eq!(normalize_tags(&tags), vec!["a", "b", "c"]);
}

#[test]
fn normalize_tags_is_idempotent_on_example() {
    let tags = vec![" x ,y,, ".to_string(), "\tz\u{3000}".to_string(), ",".to_string()];
    let once = normalize_tags(&tags);
    assert_eq!(once, vec!["x", "y", "z"]);
    assert_eq!(normalize_tags(&once), once);
}

#[test]
fn normalize_tags_keeps_inner_spaces_and_order() {
    let tags = vec!["two words, b".to_string(), "a".to_string()];
    assert_eq!(normalize_tags(&tags), vec!["two words", "b", "a"]);
    assert!(normalize_tags(&[]).is_empty());
}

#[test]
fn investigate_default_top_k() {
    let opts = InvestigateOptions::default();
    assert_eq!(opts.top_k, None);
}

#[test]
fn trim_matches_std_trim() {
    for s in ["", "  ", " a ", "\u{85}b\u{a0}", "\u{2028}c d\u{205f}", "x", "\u{200b}y"] {
        assert_eq!(trim_str(s), s.trim());
    }
}

#[test]
fn split_matches_std_split() {
    for s in ["", ",", "a,b", ",a,,b,", "abc"] {
        let expected: Vec<String> = s.split(',').map(str::to_string).collect();
        assert_eq!(split_str(s, ','), expected);
    }
}

#[test]
fn decimal_rendering() {
    assert_eq!(decimal_string(0), "0");
    assert_eq!(decimal_string(7), "7");
    assert_eq!(decimal_string(404), "404");
    assert_eq!(decimal_string(u64::MAX), u64::MAX.to_string());
}

#[test]
fn parse_i64_matches_std() {
    for s in [
        "12",
        "+3",
        "-7",
        "0",
        "",
        "+",
        "-",
        "1a",
        " 1",
        "9223372036854775807",
        "9223372036854775808",
        "-9223372036854775808",
        "-9223372036854775809",
        "99999999999999999999999",
    ] {
        assert_eq!(parse_i64_str(s), s.parse::<i64>().ok(), "{s}");
    }
}

#[test]
fn percent_encoding_examples() {
    assert_eq!(workspace_prefix("ws-123"), "/v2/workspaces/ws-123");
    assert_eq!(workspace_prefix("ws/1"), "/v2/workspaces/ws%2F1");
    assert_eq!(workspace_prefix("a b&c=d?"), "/v2/workspaces/a%20b%26c%3Dd%3F");
    assert_eq!(workspace_prefix("é"), "/v2/workspaces/%C3%A9");
    assert_eq!(workspace_prefix("Az09-._~"), "/v2/workspaces/Az09-._~");
}

#[test]
fn strip_trailing_and_join() {
    assert_eq!(strip_trailing_str("https://x.test///", '/'), "https://x.test");
    assert_eq!(strip_trailing_str("https://x.test", '/'), "https://x.test");
    assert_eq!(strip_trailing_str("///", '/'), "");
    let parts = vec!["a=1".to_string(), "b=2".to_string()];
    assert_eq!(join_strings(&parts, "&"), "a=1&b=2");
    assert_eq!(join_strings(&vec![], ", "), "");
    assert_eq!(join_strings(&vec!["only".to_string()], ", "), "only");
}
