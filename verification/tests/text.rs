use consulrs::text::chars_of;
use consulrs::text::eq_ignore_case;
use consulrs::text::parse_u64;
use consulrs::text::push_decimal;
use consulrs::text::render_u64;

#[test]
fn render_u64_writes_decimal() {
    assert_eq!(render_u64(0), "0");
    assert_eq!(render_u64(7), "7");
    assert_eq!(render_u64(10), "10");
    assert_eq!(render_u64(1234567890), "1234567890");
    assert_eq!(render_u64(u64::MAX), "18446744073709551615");
}

#[test]
fn push_decimal_appends_to_what_is_there() {
    let mut out = "index=".to_string();
    push_decimal(&mut out, 42);
    assert_eq!(out, "index=42");
    push_decimal(&mut out, 0);
    assert_eq!(out, "index=420");
}

#[test]
fn parse_u64_reads_decimal() {
    assert_eq!(parse_u64("0"), Some(0));
    assert_eq!(parse_u64("42"), Some(42));
    assert_eq!(parse_u64("007"), Some(7));
    assert_eq!(parse_u64("18446744073709551615"), Some(u64::MAX));
    assert_eq!(parse_u64("00018446744073709551615"), Some(u64::MAX));
}

#[test]
fn parse_u64_rejects_what_is_no_numeral() {
    assert_eq!(parse_u64(""), None);
    assert_eq!(parse_u64("12a"), None);
    assert_eq!(parse_u64("a12"), None);
    assert_eq!(parse_u64("-1"), None);
    assert_eq!(parse_u64("+1"), None);
    assert_eq!(parse_u64(" 1"), None);
    assert_eq!(parse_u64("1 "), None);
    assert_eq!(parse_u64("1.0"), None);
    assert_eq!(parse_u64("\u{0661}"), None);
}

#[test]
fn parse_u64_rejects_what_does_not_fit() {
    assert_eq!(parse_u64("18446744073709551616"), None);
    assert_eq!(parse_u64("18446744073709551620"), None);
    assert_eq!(parse_u64("99999999999999999999999999"), None);
    assert_eq!(parse_u64("184467440737095516150"), None);
}

#[test]
fn parse_u64_reads_back_what_render_u64_wrote() {
    for n in [0u64, 1, 9, 10, 99, 100, 255, 65535, 4294967296, u64::MAX - 1, u64::MAX] {
        assert_eq!(parse_u64(&render_u64(n)), Some(n));
    }
}

#[test]
fn eq_ignore_case_folds_ascii_letters_only() {
    assert!(eq_ignore_case("X-Consul-Index", "x-consul-index"));
    assert!(eq_ignore_case("X-CONSUL-INDEX", "x-Consul-indeX"));
    assert!(eq_ignore_case("", ""));
    assert!(!eq_ignore_case("X-Consul-Index", "X-Consul-Inde"));
    assert!(!eq_ignore_case("X-Consul-Index", "X_Consul_Index"));
    assert!(!eq_ignore_case("[", "{"));
    assert!(!eq_ignore_case("@", "`"));
    assert!(!eq_ignore_case("\u{c9}", "\u{e9}"));
    assert!(eq_ignore_case("\u{e9}A", "\u{e9}a"));
}

#[test]
fn chars_of_lists_the_characters() {
    assert_eq!(chars_of(""), Vec::<char>::new());
    assert_eq!(chars_of("kv/{key}"), vec!['k', 'v', '/', '{', 'k', 'e', 'y', '}']);
    assert_eq!(chars_of("a\u{e9}\u{1f600}"), vec!['a', '\u{e9}', '\u{1f600}']);
}
