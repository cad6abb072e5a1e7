use consulrs::escape::encode_component;
use consulrs::escape::push_component;

#[test]
fn encode_component_keeps_unreserved_characters() {
    assert_eq!(encode_component(""), "");
    assert_eq!(encode_component("agent"), "agent");
    assert_eq!(
        encode_component("ABCXYZabcxyz0189-._~"),
        "ABCXYZabcxyz0189-._~"
    );
}

#[test]
fn encode_component_escapes_the_rest() {
    assert_eq!(encode_component("a b"), "a%20b");
    assert_eq!(encode_component("a/b"), "a%2Fb");
    assert_eq!(encode_component("k=v&x"), "k%3Dv%26x");
    assert_eq!(encode_component("{key}"), "%7Bkey%7D");
    assert_eq!(encode_component("100%"), "100%25");
    assert_eq!(encode_component("?#"), "%3F%23");
    assert_eq!(encode_component("@[`"), "%40%5B%60");
    assert_eq!(encode_component("\0\n\u{7f}"), "%00%0A%7F");
}

#[test]
fn encode_component_escapes_each_byte_of_utf8() {
    assert_eq!(encode_component("\u{e9}"), "%C3%A9");
    assert_eq!(encode_component("\u{20ac}"), "%E2%82%AC");
    assert_eq!(encode_component("\u{1f600}"), "%F0%9F%98%80");
    assert_eq!(encode_component("caf\u{e9}s"), "caf%C3%A9s");
}

#[test]
fn push_component_appends_to_what_is_there() {
    let mut out = "kv/".to_string();
    push_component(&mut out, "my key");
    assert_eq!(out, "kv/my%20key");
    push_component(&mut out, "");
    assert_eq!(out, "kv/my%20key");
}

#[test]
fn encode_component_of_two_parts_is_the_parts_encoded() {
    let a = "na\u{ef}ve ";
    let b = "caf\u{e9}/x";
    let whole = format!("{}{}", a, b);
    assert_eq!(
        encode_component(&whole),
        format!("{}{}", encode_component(a), encode_component(b))
    );
}
