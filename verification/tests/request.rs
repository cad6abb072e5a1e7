use consulrs::api::endpoint::EndpointDescriptor;
use consulrs::api::endpoint::Method;
use consulrs::api::endpoint::Param;
use consulrs::api::endpoint::RequestBuilder;
use consulrs::api::query::push_explicit_items;
use consulrs::api::query::push_option_items;
use consulrs::api::query::render_query;
use consulrs::api::query::ConsistencyMode;
use consulrs::api::query::Duration;
use consulrs::api::query::QueryItem;
use consulrs::api::query::QueryOptions;
use consulrs::api::request::collect_query_items;
use consulrs::api::request::prepare;
use consulrs::api::request::Header;
use consulrs::client::ClientConfiguration;
use consulrs::error::ClientError;

fn config() -> ClientConfiguration {
    ClientConfiguration::new("http://127.0.0.1:8500").unwrap()
}

fn get(path: &str) -> EndpointDescriptor {
    RequestBuilder::new(Method::GET, path).build().unwrap()
}

fn item(key: &str, value: Option<&str>) -> QueryItem {
    QueryItem { key: key.to_string(), value: value.map(|v| v.to_string()) }
}

fn header(name: &str, value: &str) -> Header {
    Header { name: name.to_string(), value: value.to_string() }
}

#[test]
fn prepare_without_query_options_gives_no_query() {
    let request = prepare(&config(), get("agent/self")).unwrap();
    assert_eq!(request.method, Method::GET);
    assert_eq!(request.url, "http://127.0.0.1:8500/agent/self");
    assert!(!request.url.contains('?'));
    assert_eq!(request.headers, vec![]);
    assert_eq!(request.body, None);
}

#[test]
fn prepare_leaves_out_parameters_without_a_value() {
    let mut descriptor = get("catalog/nodes");
    descriptor.query = vec![
        Param { name: "near".to_string(), value: None },
        Param { name: "filter".to_string(), value: None },
    ];
    let request = prepare(&config(), descriptor).unwrap();
    assert_eq!(request.url, "http://127.0.0.1:8500/catalog/nodes");
}

#[test]
fn prepare_puts_one_slash_between_address_and_path() {
    let slash = ClientConfiguration::new("http://consul/").unwrap();
    assert_eq!(prepare(&slash, get("agent/self")).unwrap().url, "http://consul/agent/self");
    let base = ClientConfiguration::new("http://consul/v1").unwrap();
    assert_eq!(prepare(&base, get("agent/self")).unwrap().url, "http://consul/v1/agent/self");
    assert_eq!(prepare(&base, get("")).unwrap().url, "http://consul/v1/");
}

#[test]
fn prepare_writes_parameters_in_their_order() {
    let mut builder = RequestBuilder::new(Method::GET, "catalog/nodes");
    builder.param("node-meta", "rack:1").param("near", "_agent").param("node-meta", "zone:a b");
    let request = prepare(&config(), builder.build().unwrap()).unwrap();
    assert_eq!(
        request.url,
        "http://127.0.0.1:8500/catalog/nodes?node-meta=rack%3A1&near=_agent&node-meta=zone%3Aa%20b"
    );
}

#[test]
fn prepare_writes_an_empty_value_that_was_set() {
    let mut builder = RequestBuilder::new(Method::GET, "kv/x");
    builder.param("keys", "");
    let request = prepare(&config(), builder.build().unwrap()).unwrap();
    assert_eq!(request.url, "http://127.0.0.1:8500/kv/x?keys=");
}

#[test]
fn prepare_writes_every_option() {
    let mut builder = RequestBuilder::new(Method::GET, "kv/{key}");
    builder.field("key", "app/config").param("recurse", "true").options(QueryOptions {
        datacenter: Some("dc 1".to_string()),
        namespace: Some("team".to_string()),
        consistency: ConsistencyMode::Stale,
        wait: Some(Duration { millis: 5000 }),
        index: Some(42),
        token: None,
    });
    let request = prepare(&config(), builder.build().unwrap()).unwrap();
    assert_eq!(
        request.url,
        "http://127.0.0.1:8500/kv/app%2Fconfig?recurse=true&dc=dc%201&ns=team&stale&index=42&wait=5000ms"
    );
}

#[test]
fn prepare_writes_the_consistency_mode_as_a_bare_key() {
    let mut options = QueryOptions::default();
    options.consistency = ConsistencyMode::Leader;
    let mut builder = RequestBuilder::new(Method::GET, "x");
    builder.options(options);
    assert_eq!(prepare(&config(), builder.build().unwrap()).unwrap().url, "http://127.0.0.1:8500/x?leader");
    let mut stale = QueryOptions::default();
    stale.consistency = ConsistencyMode::Stale;
    builder.options(stale);
    assert_eq!(prepare(&config(), builder.build().unwrap()).unwrap().url, "http://127.0.0.1:8500/x?stale");
    builder.options(QueryOptions::default());
    assert_eq!(prepare(&config(), builder.build().unwrap()).unwrap().url, "http://127.0.0.1:8500/x");
}

#[test]
fn prepare_never_writes_a_wait_without_an_index() {
    let mut options = QueryOptions::default();
    options.wait = Some(Duration { millis: 30000 });
    let mut builder = RequestBuilder::new(Method::GET, "kv/x");
    builder.options(options);
    let with_wait = prepare(&config(), builder.build().unwrap()).unwrap();
    assert_eq!(with_wait.url, "http://127.0.0.1:8500/kv/x");
    builder.options(QueryOptions::default());
    let without = prepare(&config(), builder.build().unwrap()).unwrap();
    assert_eq!(with_wait, without);
}

#[test]
fn prepare_writes_an_index_without_a_wait() {
    let mut options = QueryOptions::default();
    options.index = Some(0);
    let mut builder = RequestBuilder::new(Method::GET, "kv/x");
    builder.options(options);
    assert_eq!(
        prepare(&config(), builder.build().unwrap()).unwrap().url,
        "http://127.0.0.1:8500/kv/x?index=0"
    );
    let mut big = QueryOptions::default();
    big.index = Some(u64::MAX);
    big.wait = Some(Duration { millis: 0 });
    builder.options(big);
    assert_eq!(
        prepare(&config(), builder.build().unwrap()).unwrap().url,
        "http://127.0.0.1:8500/kv/x?index=18446744073709551615&wait=0ms"
    );
}

#[test]
fn prepare_takes_defaults_from_the_client() {
    let client = config().with_namespace("default-ns").with_datacenter("dc1");
    assert_eq!(
        prepare(&client, get("agent/self")).unwrap().url,
        "http://127.0.0.1:8500/agent/self?dc=dc1&ns=default-ns"
    );
}

#[test]
fn prepare_lets_the_request_override_the_client() {
    let client = config().with_namespace("default-ns").with_datacenter("dc1");
    let mut options = QueryOptions::default();
    options.namespace = Some("mine".to_string());
    let mut builder = RequestBuilder::new(Method::GET, "agent/self");
    builder.options(options);
    assert_eq!(
        prepare(&client, builder.build().unwrap()).unwrap().url,
        "http://127.0.0.1:8500/agent/self?dc=dc1&ns=mine"
    );
    let mut both = QueryOptions::default();
    both.namespace = Some("mine".to_string());
    both.datacenter = Some("dc2".to_string());
    builder.options(both);
    assert_eq!(
        prepare(&client, builder.build().unwrap()).unwrap().url,
        "http://127.0.0.1:8500/agent/self?dc=dc2&ns=mine"
    );
}

#[test]
fn prepare_sends_the_token_as_a_header() {
    let client = config().with_token("client-token");
    let request = prepare(&client, get("agent/self")).unwrap();
    assert_eq!(request.headers, vec![header("X-Consul-Token", "client-token")]);
    assert_eq!(request.url, "http://127.0.0.1:8500/agent/self");
    let mut options = QueryOptions::default();
    options.token = Some("request-token".to_string());
    let mut builder = RequestBuilder::new(Method::GET, "agent/self");
    builder.options(options);
    let overridden = prepare(&client, builder.build().unwrap()).unwrap();
    assert_eq!(overridden.headers, vec![header("X-Consul-Token", "request-token")]);
    let mut alone = RequestBuilder::new(Method::GET, "agent/self");
    let mut only = QueryOptions::default();
    only.token = Some("t".to_string());
    alone.options(only);
    assert_eq!(
        prepare(&config(), alone.build().unwrap()).unwrap().headers,
        vec![header("X-Consul-Token", "t")]
    );
}

#[test]
fn prepare_hands_the_body_on_and_names_its_type() {
    let mut builder = RequestBuilder::new(Method::PUT, "kv/{key}");
    builder.field("key", "x").body(b"{\"a\":1}".to_vec());
    let request = prepare(&config().with_token("t"), builder.build().unwrap()).unwrap();
    assert_eq!(request.method, Method::PUT);
    assert_eq!(request.body, Some(b"{\"a\":1}".to_vec()));
    assert_eq!(
        request.headers,
        vec![header("X-Consul-Token", "t"), header("Content-Type", "application/json")]
    );
    let mut empty = RequestBuilder::new(Method::POST, "x");
    empty.body(vec![]);
    let request = prepare(&config(), empty.build().unwrap()).unwrap();
    assert_eq!(request.body, Some(vec![]));
    assert_eq!(request.headers, vec![header("Content-Type", "application/json")]);
}

#[test]
fn prepare_refuses_a_descriptor_that_is_not_complete() {
    let descriptor = EndpointDescriptor {
        method: Method::PUT,
        path: "kv/{key}".to_string(),
        fields: vec![],
        query: vec![],
        options: QueryOptions::default(),
        body: None,
    };
    assert_eq!(
        prepare(&config(), descriptor),
        Err(ClientError::ValidationError { message: "missing required field: key".to_string() })
    );
}

#[test]
fn collect_query_items_lists_keys_and_values_as_they_are() {
    let mut builder = RequestBuilder::new(Method::GET, "x");
    let mut options = QueryOptions::default();
    options.index = Some(7);
    options.wait = Some(Duration { millis: 1500 });
    options.consistency = ConsistencyMode::Leader;
    builder.param("a b", "c&d").options(options);
    let items = collect_query_items(&config().with_datacenter("dc1"), &builder.build().unwrap());
    assert_eq!(
        items,
        vec![
            item("a b", Some("c&d")),
            item("dc", Some("dc1")),
            item("leader", None),
            item("index", Some("7")),
            item("wait", Some("1500ms")),
        ]
    );
    assert_eq!(render_query(&items), "a%20b=c%26d&dc=dc1&leader&index=7&wait=1500ms");
}

#[test]
fn render_query_joins_items_with_ampersands() {
    assert_eq!(render_query(&vec![]), "");
    assert_eq!(render_query(&vec![item("stale", None)]), "stale");
    assert_eq!(render_query(&vec![item("a", Some("1"))]), "a=1");
    assert_eq!(render_query(&vec![item("a", Some("1")), item("b", Some(""))]), "a=1&b=");
    assert_eq!(
        render_query(&vec![item("a", Some("=")), item("stale", None), item("c", Some("\u{e9}"))]),
        "a=%3D&stale&c=%C3%A9"
    );
}

#[test]
fn push_items_append_to_what_is_there() {
    let mut items = vec![item("first", Some("1"))];
    let query = vec![
        Param { name: "a".to_string(), value: Some("x".to_string()) },
        Param { name: "b".to_string(), value: None },
        Param { name: "c".to_string(), value: Some("".to_string()) },
    ];
    push_explicit_items(&mut items, &query);
    assert_eq!(items, vec![item("first", Some("1")), item("a", Some("x")), item("c", Some(""))]);
    let mut options = QueryOptions::default();
    options.wait = Some(Duration { millis: 10 });
    push_option_items(&mut items, &options, &None, &Some("ns1".to_string()));
    assert_eq!(
        items,
        vec![
            item("first", Some("1")),
            item("a", Some("x")),
            item("c", Some("")),
            item("ns", Some("ns1")),
        ]
    );
}
