use consulrs::api::query::Duration;
use consulrs::api::request::Header;
use consulrs::api::response::classify;
use consulrs::api::response::find_header;
use consulrs::api::response::read_error_text;
use consulrs::api::response::read_metadata;
use consulrs::api::response::HttpResponse;
use consulrs::api::response::Metadata;
use consulrs::error::ClientError;

fn header(name: &str, value: &str) -> Header {
    Header { name: name.to_string(), value: value.to_string() }
}

fn response(status: u16, headers: Vec<Header>, body: &[u8]) -> HttpResponse {
    HttpResponse { status, headers, body: body.to_vec() }
}

fn malformed(name: &str) -> ClientError {
    ClientError::ResponseError { message: format!("malformed header: {}", name) }
}

#[test]
fn classify_reads_the_metadata_of_a_success() {
    let r = response(
        200,
        vec![
            header("Content-Type", "application/json"),
            header("X-Consul-Index", "1350"),
            header("X-Consul-LastContact", "12"),
            header("X-Consul-KnownLeader", "true"),
        ],
        b"{}",
    );
    assert_eq!(
        classify(&r),
        Ok(Metadata {
            index: Some(1350),
            last_contact: Some(Duration { millis: 12 }),
            known_leader: Some(true),
            status: 200,
        })
    );
}

#[test]
fn classify_finds_headers_whatever_their_case() {
    let r = response(
        200,
        vec![
            header("x-consul-index", "7"),
            header("X-CONSUL-LASTCONTACT", "0"),
            header("x-Consul-knownleader", "false"),
        ],
        b"",
    );
    assert_eq!(
        classify(&r),
        Ok(Metadata {
            index: Some(7),
            last_contact: Some(Duration { millis: 0 }),
            known_leader: Some(false),
            status: 200,
        })
    );
}

#[test]
fn classify_tolerates_absent_headers() {
    let none = response(204, vec![], b"");
    assert_eq!(
        classify(&none),
        Ok(Metadata { index: None, last_contact: None, known_leader: None, status: 204 })
    );
    let one = response(200, vec![header("X-Consul-Index", "18446744073709551615")], b"[]");
    assert_eq!(
        classify(&one),
        Ok(Metadata { index: Some(u64::MAX), last_contact: None, known_leader: None, status: 200 })
    );
}

#[test]
fn classify_takes_the_whole_success_range() {
    for status in [200u16, 201, 204, 250, 299] {
        assert!(classify(&response(status, vec![], b"")).is_ok());
    }
    for status in [0u16, 100, 199, 300, 301, 400, 404, 500, 503, 65535] {
        assert_eq!(
            classify(&response(status, vec![], b"")),
            Err(ClientError::APIError { status, message: "".to_string(), body: vec![] })
        );
    }
}

#[test]
fn classify_reports_a_header_that_cannot_be_read() {
    let index = response(200, vec![header("X-Consul-Index", "abc")], b"{}");
    assert_eq!(classify(&index), Err(malformed("X-Consul-Index")));
    let empty = response(200, vec![header("X-Consul-Index", "")], b"{}");
    assert_eq!(classify(&empty), Err(malformed("X-Consul-Index")));
    let large = response(200, vec![header("X-Consul-Index", "18446744073709551616")], b"{}");
    assert_eq!(classify(&large), Err(malformed("X-Consul-Index")));
    let contact = response(
        200,
        vec![header("X-Consul-Index", "1"), header("X-Consul-LastContact", "-3")],
        b"{}",
    );
    assert_eq!(classify(&contact), Err(malformed("X-Consul-LastContact")));
    let leader = response(200, vec![header("X-Consul-KnownLeader", "yes")], b"{}");
    assert_eq!(classify(&leader), Err(malformed("X-Consul-KnownLeader")));
    let upper = response(200, vec![header("X-Consul-KnownLeader", "True")], b"{}");
    assert_eq!(classify(&upper), Err(malformed("X-Consul-KnownLeader")));
}

#[test]
fn classify_reports_the_first_header_that_cannot_be_read() {
    let r = response(
        200,
        vec![
            header("X-Consul-KnownLeader", "?"),
            header("X-Consul-LastContact", "?"),
            header("X-Consul-Index", "?"),
        ],
        b"{}",
    );
    assert_eq!(classify(&r), Err(malformed("X-Consul-Index")));
}

#[test]
fn classify_makes_an_api_error_of_a_404() {
    let r = response(404, vec![header("X-Consul-Index", "5")], b"not found");
    assert_eq!(
        classify(&r),
        Err(ClientError::APIError {
            status: 404,
            message: "not found".to_string(),
            body: b"not found".to_vec(),
        })
    );
}

#[test]
fn classify_ignores_the_headers_of_a_failure() {
    let r = response(500, vec![header("X-Consul-Index", "abc")], b"rpc error");
    assert_eq!(
        classify(&r),
        Err(ClientError::APIError {
            status: 500,
            message: "rpc error".to_string(),
            body: b"rpc error".to_vec(),
        })
    );
}

#[test]
fn classify_keeps_a_body_that_is_no_text() {
    let r = response(502, vec![], &[0xff, 0xfe, 0x00]);
    assert_eq!(
        classify(&r),
        Err(ClientError::APIError {
            status: 502,
            message: "".to_string(),
            body: vec![0xff, 0xfe, 0x00],
        })
    );
}

#[test]
fn read_error_text_reads_utf8_and_nothing_else() {
    assert_eq!(read_error_text(&b"Permission denied".to_vec()), "Permission denied");
    assert_eq!(read_error_text(&"caf\u{e9} \u{1f600}".as_bytes().to_vec()), "caf\u{e9} \u{1f600}");
    assert_eq!(read_error_text(&vec![]), "");
    assert_eq!(read_error_text(&vec![0x80]), "");
    assert_eq!(read_error_text(&vec![b'a', 0xc3]), "");
    assert_eq!(read_error_text(&vec![0xed, 0xa0, 0x80]), "");
    assert_eq!(read_error_text(&vec![0xc0, 0xaf]), "");
}

#[test]
fn find_header_takes_the_first_of_a_name() {
    let headers = vec![
        header("Vary", "Accept-Encoding"),
        header("X-Consul-Index", "1"),
        header("x-consul-index", "2"),
    ];
    assert_eq!(find_header(&headers, "X-Consul-Index"), Some(&"1".to_string()));
    assert_eq!(find_header(&headers, "X-CONSUL-INDEX"), Some(&"1".to_string()));
    assert_eq!(find_header(&headers, "vary"), Some(&"Accept-Encoding".to_string()));
    assert_eq!(find_header(&headers, "X-Consul"), None);
    assert_eq!(find_header(&vec![], "Vary"), None);
}

#[test]
fn read_metadata_keeps_the_status() {
    let r = response(404, vec![header("X-Consul-Index", "9")], b"");
    assert_eq!(
        read_metadata(&r),
        Ok(Metadata { index: Some(9), last_contact: None, known_leader: None, status: 404 })
    );
}

#[test]
fn describe_writes_one_line_for_each_kind_of_error() {
    assert_eq!(
        ClientError::ValidationError { message: "missing required field: key".to_string() }.describe(),
        "invalid request: missing required field: key"
    );
    assert_eq!(
        ClientError::ConnectionError { message: "connection refused".to_string() }.describe(),
        "connection failed: connection refused"
    );
    assert_eq!(
        ClientError::APIError { status: 404, message: "not found".to_string(), body: vec![1] }.describe(),
        "the server returned status 404: not found"
    );
    assert_eq!(
        ClientError::APIError { status: 65535, message: "".to_string(), body: vec![] }.describe(),
        "the server returned status 65535: "
    );
    assert_eq!(
        ClientError::ResponseError { message: "malformed header: X-Consul-Index".to_string() }.describe(),
        "unreadable response: malformed header: X-Consul-Index"
    );
}

#[test]
fn status_is_that_of_an_api_error() {
    assert_eq!(
        ClientError::APIError { status: 404, message: "".to_string(), body: vec![] }.status(),
        Some(404)
    );
    assert_eq!(ClientError::ValidationError { message: "".to_string() }.status(), None);
    assert_eq!(ClientError::ConnectionError { message: "404".to_string() }.status(), None);
    assert_eq!(ClientError::ResponseError { message: "".to_string() }.status(), None);
}
