use consulrs::client::check_address;
use consulrs::client::ClientConfiguration;
use consulrs::client::TlsMaterial;
use consulrs::error::ClientError;

#[test]
fn check_address_accepts_absolute_uris() {
    assert!(check_address("http://127.0.0.1:8500"));
    assert!(check_address("https://consul.example.com"));
    assert!(check_address("https://consul.example.com/"));
    assert!(check_address("http://user@[::1]:8500/base/v1"));
    assert!(check_address("a+b-c.d://x"));
    assert!(check_address("h://x"));
    assert!(check_address("http:///"));
}

#[test]
fn check_address_rejects_what_is_no_absolute_uri() {
    assert!(!check_address(""));
    assert!(!check_address("127.0.0.1:8500"));
    assert!(!check_address("consul.example.com"));
    assert!(!check_address("http:"));
    assert!(!check_address("http://"));
    assert!(!check_address("http:/x"));
    assert!(!check_address("http//x"));
    assert!(!check_address("://x"));
    assert!(!check_address("1http://x"));
    assert!(!check_address("+http://x"));
    assert!(!check_address("ht tp://x"));
    assert!(!check_address("http://a b"));
    assert!(!check_address("http://a?x=1"));
    assert!(!check_address("http://a#top"));
    assert!(!check_address("http://a/{key}"));
    assert!(!check_address("http://caf\u{e9}"));
    assert!(!check_address("/v1/agent"));
}

#[test]
fn new_keeps_the_address_and_sets_nothing_else() {
    let config = ClientConfiguration::new("https://127.0.0.1:8200").unwrap();
    assert_eq!(config.address(), "https://127.0.0.1:8200");
    assert_eq!(config.tls(), &None);
    assert_eq!(config.token(), &None);
    assert_eq!(config.namespace(), &None);
    assert_eq!(config.datacenter(), &None);
}

#[test]
fn new_rejects_an_address_that_is_no_absolute_uri() {
    assert_eq!(
        ClientConfiguration::new("127.0.0.1:8200"),
        Err(ClientError::ValidationError { message: "address is not an absolute URI".to_string() })
    );
    assert!(ClientConfiguration::new("").is_err());
}

#[test]
fn with_methods_set_one_thing_each() {
    let tls = TlsMaterial {
        ca_certs: vec!["ca.pem".to_string()],
        client_cert: Some("cert.pem".to_string()),
        client_key: None,
    };
    let config = ClientConfiguration::new("http://consul:8500")
        .unwrap()
        .with_token("secret")
        .with_namespace("team")
        .with_datacenter("dc1")
        .with_tls(TlsMaterial {
            ca_certs: vec!["ca.pem".to_string()],
            client_cert: Some("cert.pem".to_string()),
            client_key: None,
        });
    assert_eq!(config.address(), "http://consul:8500");
    assert_eq!(config.token(), &Some("secret".to_string()));
    assert_eq!(config.namespace(), &Some("team".to_string()));
    assert_eq!(config.datacenter(), &Some("dc1".to_string()));
    assert_eq!(config.tls(), &Some(tls));
    let again = config.with_token("other");
    assert_eq!(again.token(), &Some("other".to_string()));
    assert_eq!(again.namespace(), &Some("team".to_string()));
}
