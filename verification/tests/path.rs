use consulrs::api::endpoint::Method;
use consulrs::api::endpoint::Param;
use consulrs::api::endpoint::RequestBuilder;
use consulrs::api::path::find_field;
use consulrs::api::path::resolve;
use consulrs::error::ClientError;

fn field(name: &str, value: Option<&str>) -> Param {
    Param { name: name.to_string(), value: value.map(|v| v.to_string()) }
}

fn validation(message: &str) -> ClientError {
    ClientError::ValidationError { message: message.to_string() }
}

#[test]
fn resolve_leaves_a_plain_path_as_it_is() {
    assert_eq!(resolve("agent/self", &vec![]), Ok("agent/self".to_string()));
    assert_eq!(resolve("", &vec![]), Ok("".to_string()));
    assert_eq!(resolve("a//b/", &vec![]), Ok("a//b/".to_string()));
}

#[test]
fn resolve_fills_a_placeholder() {
    let fields = vec![field("key", Some("config"))];
    assert_eq!(resolve("kv/{key}", &fields), Ok("kv/config".to_string()));
    assert_eq!(resolve("{key}", &fields), Ok("config".to_string()));
    assert_eq!(resolve("kv/{key}/{key}", &fields), Ok("kv/config/config".to_string()));
}

#[test]
fn resolve_percent_encodes_the_value() {
    let fields = vec![field("key", Some("my key/a?b"))];
    assert_eq!(resolve("kv/{key}", &fields), Ok("kv/my%20key%2Fa%3Fb".to_string()));
    let braces = vec![field("key", Some("{x}"))];
    assert_eq!(resolve("kv/{key}", &braces), Ok("kv/%7Bx%7D".to_string()));
}

#[test]
fn resolve_percent_encodes_the_text_of_the_template() {
    assert_eq!(resolve("my path/caf\u{e9}", &vec![]), Ok("my%20path/caf%C3%A9".to_string()));
}

#[test]
fn resolve_fills_several_placeholders() {
    let fields = vec![field("dc", Some("dc1")), field("id", Some("a b"))];
    assert_eq!(
        resolve("session/{dc}/info/{id}", &fields),
        Ok("session/dc1/info/a%20b".to_string())
    );
}

#[test]
fn resolve_names_the_missing_field() {
    assert_eq!(resolve("kv/{key}", &vec![]), Err(validation("missing required field: key")));
    let other = vec![field("name", Some("x"))];
    assert_eq!(resolve("kv/{key}", &other), Err(validation("missing required field: key")));
    assert_eq!(resolve("kv/{}", &other), Err(validation("missing required field: ")));
}

#[test]
fn resolve_takes_a_field_without_a_value_as_missing() {
    let fields = vec![field("key", None)];
    assert_eq!(resolve("kv/{key}", &fields), Err(validation("missing required field: key")));
}

#[test]
fn resolve_reports_the_first_fault_from_the_left() {
    let fields = vec![field("b", Some("x"))];
    assert_eq!(resolve("{a}/{b}/{c}", &fields), Err(validation("missing required field: a")));
    assert_eq!(resolve("{b}/{c}/}", &fields), Err(validation("missing required field: c")));
    assert_eq!(resolve("{b}/}/{c}", &fields), Err(validation("malformed path template")));
}

#[test]
fn resolve_rejects_braces_that_do_not_pair_up() {
    let fields = vec![field("key", Some("x"))];
    assert_eq!(resolve("kv/{key", &fields), Err(validation("malformed path template")));
    assert_eq!(resolve("kv/key}", &fields), Err(validation("malformed path template")));
    assert_eq!(resolve("kv/{", &fields), Err(validation("malformed path template")));
    assert_eq!(resolve("}", &fields), Err(validation("malformed path template")));
}

#[test]
fn resolve_reads_a_name_up_to_the_first_closing_brace() {
    let fields = vec![field("a{b", Some("x")), field("a/b", Some("y"))];
    assert_eq!(resolve("{a{b}", &fields), Ok("x".to_string()));
    assert_eq!(resolve("{a/b}", &fields), Ok("y".to_string()));
}

#[test]
fn find_field_takes_the_last_of_a_name() {
    let fields = vec![field("key", Some("old")), field("other", Some("o")), field("key", Some("new"))];
    assert_eq!(find_field(&fields, &"key".to_string()), Some(&"new".to_string()));
    assert_eq!(find_field(&fields, &"other".to_string()), Some(&"o".to_string()));
    assert_eq!(find_field(&fields, &"none".to_string()), None);
    assert_eq!(find_field(&fields, &"Key".to_string()), None);
    let cleared = vec![field("key", Some("old")), field("key", None)];
    assert_eq!(find_field(&cleared, &"key".to_string()), None);
}

#[test]
fn builder_builds_a_complete_descriptor() {
    let mut builder = RequestBuilder::new(Method::PUT, "kv/{key}");
    builder.field("key", "config").param("cas", "3").body(vec![1, 2, 3]);
    let descriptor = builder.build().unwrap();
    assert_eq!(descriptor.method, Method::PUT);
    assert_eq!(descriptor.path, "kv/{key}");
    assert_eq!(descriptor.fields, vec![field("key", Some("config"))]);
    assert_eq!(descriptor.query, vec![field("cas", Some("3"))]);
    assert_eq!(descriptor.body, Some(vec![1, 2, 3]));
}

#[test]
fn builder_fails_on_a_missing_required_field() {
    let builder = RequestBuilder::new(Method::PUT, "kv/{key}");
    assert_eq!(builder.build(), Err(validation("missing required field: key")));
    let mut other = RequestBuilder::new(Method::PUT, "kv/{key}");
    other.field("name", "x");
    assert_eq!(other.build(), Err(validation("missing required field: key")));
}

#[test]
fn builder_fails_on_a_malformed_template() {
    let mut builder = RequestBuilder::new(Method::GET, "kv/{key");
    builder.field("key", "x");
    assert_eq!(builder.build(), Err(validation("malformed path template")));
}

#[test]
fn builder_can_be_changed_and_built_from_again() {
    let mut builder = RequestBuilder::new(Method::GET, "kv/{key}");
    assert!(builder.build().is_err());
    builder.field("key", "first");
    let first = builder.build().unwrap();
    builder.field("key", "second").param("raw", "true");
    let second = builder.build().unwrap();
    assert_eq!(resolve(&first.path, &first.fields), Ok("kv/first".to_string()));
    assert_eq!(resolve(&second.path, &second.fields), Ok("kv/second".to_string()));
    assert_eq!(first.query, vec![]);
    assert_eq!(second.query, vec![field("raw", Some("true"))]);
    builder.clear_field("key");
    assert_eq!(builder.build(), Err(validation("missing required field: key")));
    assert_eq!(resolve(&first.path, &first.fields), Ok("kv/first".to_string()));
}

#[test]
fn builder_starts_with_nothing_set() {
    let descriptor = RequestBuilder::new(Method::DELETE, "agent/self").build().unwrap();
    assert_eq!(descriptor.method, Method::DELETE);
    assert_eq!(descriptor.fields, vec![]);
    assert_eq!(descriptor.query, vec![]);
    assert_eq!(descriptor.body, None);
    assert_eq!(descriptor.options.datacenter, None);
    assert_eq!(descriptor.options.namespace, None);
    assert_eq!(descriptor.options.index, None);
    assert_eq!(descriptor.options.wait, None);
    assert_eq!(descriptor.options.token, None);
}
