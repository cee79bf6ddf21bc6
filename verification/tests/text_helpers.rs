use inferenco_mcp::text::{collapse_whitespace, reverse_chars, u64_to_string};

#[test]
fn decimal_rendering_matches_std_formatting() {
    assert_eq!(u64_to_string(0), "0");
    assert_eq!(u64_to_string(7), "7");
    assert_eq!(u64_to_string(12345), "12345");
    assert_eq!(u64_to_string(u64::MAX), u64::MAX.to_string());
}

#[test]
fn whitespace_runs_collapse_to_single_spaces() {
    assert_eq!(collapse_whitespace("  hello \t world \n"), "hello world");
    assert_eq!(collapse_whitespace(""), "");
    assert_eq!(collapse_whitespace(" \t\n "), "");
    assert_eq!(collapse_whitespace("one"), "one");
}

#[test]
fn character_reversal_is_an_involution() {
    assert_eq!(reverse_chars("abc"), "cba");
    assert_eq!(reverse_chars(&reverse_chars("caf\u{e9} crème")), "caf\u{e9} crème");
    assert_eq!(reverse_chars(""), "");
}
