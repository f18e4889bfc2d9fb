use edulinker_core::etag::generate_etag;
use edulinker_core::numstr::{parse_port, parse_u64, u64_to_dec};
use edulinker_core::text::{find_char, split_str, str_eq, str_lex_lt, trim_spaces};

#[test]
fn decimal_rendering_round_trips() {
    assert_eq!(u64_to_dec(0).as_str(), "0");
    assert_eq!(u64_to_dec(7).as_str(), "7");
    assert_eq!(u64_to_dec(1048576).as_str(), "1048576");
    assert_eq!(u64_to_dec(u64::MAX).as_str(), "18446744073709551615");
    assert_eq!(parse_u64("1048576"), Some(1048576));
    assert_eq!(parse_u64("18446744073709551615"), Some(u64::MAX));
}

#[test]
fn parsing_rejects_garbage_and_overflow() {
    assert_eq!(parse_u64(""), None);
    assert_eq!(parse_u64("12a"), None);
    assert_eq!(parse_u64("-4"), None);
    assert_eq!(parse_u64("18446744073709551616"), None);
    assert_eq!(parse_u64("007"), Some(7));
}

#[test]
fn port_parsing_falls_back() {
    assert_eq!(parse_port(Some(String::from("41236")), 41235), 41236);
    assert_eq!(parse_port(Some(String::from("not-a-port")), 41235), 41235);
    assert_eq!(parse_port(Some(String::from("70000")), 41235), 41235);
    assert_eq!(parse_port(None, 41235), 41235);
}

#[test]
fn etag_renders_both_counters() {
    assert_eq!(generate_etag(0, 0).as_str(), "\"0:0\"");
    assert_eq!(generate_etag(17, 4096).as_str(), "\"17:4096\"");
    assert_ne!(generate_etag(17, 4096).as_str(), generate_etag(18, 4096).as_str());
    assert_ne!(generate_etag(17, 4096).as_str(), generate_etag(17, 4097).as_str());
}

#[test]
fn string_utilities_behave() {
    assert!(str_eq("abc", "abc"));
    assert!(!str_eq("abc", "abd"));
    assert!(str_lex_lt("2026-01-01", "2026-01-02"));
    assert!(!str_lex_lt("2026-01-02", "2026-01-02"));
    assert_eq!(trim_spaces("  hello \t\n").as_str(), "hello");
    assert_eq!(trim_spaces("   ").as_str(), "");
    assert_eq!(find_char("a=b", '='), Some(1));
    assert_eq!(find_char("abc", '='), None);
    let parts = split_str("a,b,,c", ',');
    let texts: Vec<&str> = parts.iter().map(|p| p.as_str()).collect();
    assert_eq!(texts, vec!["a", "b", "", "c"]);
    let one = split_str("", ',');
    assert_eq!(one.len(), 1);
    assert_eq!(one[0].as_str(), "");
}
