//! What comes back from the server, and what a caller gets of it.

use vstd::prelude::*;
use vstd::utf8::decode_utf8;
use vstd::utf8::encode_utf8;
use vstd::utf8::valid_utf8;
use crate::api::query::Duration;
use crate::api::request::Header;
use crate::api::request::HeaderView;
use crate::error::ClientError;
use crate::error::ClientErrorView;
use crate::text::eq_ignore_case;
use crate::text::parse_decimal;
use crate::text::parse_u64;
use crate::text::same_ignoring_case;

verus! {

/// The error of `core::str::from_utf8`. Nothing is read from it.
#[verifier::external_type_specification]
#[verifier::external_body]
pub struct ExUtf8Error(core::str::Utf8Error);

/// `core::str::from_utf8` reads bytes as text. It succeeds on valid UTF-8 and on nothing
/// else, and the text it gives is made of the very bytes it was given.
pub assume_specification[ core::str::from_utf8 ](v: &[u8]) -> (r: Result<
    &str,
    core::str::Utf8Error,
>)
    ensures
        r is Ok <==> valid_utf8(v@),
        r is Ok ==> encode_utf8(r->Ok_0@) == v@,
;

/// What the transport hands back when the exchange took place.
#[derive(Debug, PartialEq, Eq)]
pub struct HttpResponse {
    pub status: u16,
    pub headers: Vec<Header>,
    pub body: Vec<u8>,
}

/// An `HttpResponse` with its texts and lists as sequences.
pub struct HttpResponseView {
    pub status: u16,
    pub headers: Seq<HeaderView>,
    pub body: Seq<u8>,
}

impl View for HttpResponse {
    type V = HttpResponseView;

    open spec fn view(&self) -> HttpResponseView {
        HttpResponseView { status: self.status, headers: self.headers.deep_view(), body: self.body@ }
    }
}

/// What the headers of a response say of the state of the server, with the status.
#[derive(Clone, Copy, Debug, PartialEq, Eq, Structural)]
pub struct Metadata {
    /// The index to hand in with the next blocking query.
    pub index: Option<u64>,
    /// How long ago the answering server last heard from the leader.
    pub last_contact: Option<Duration>,
    /// Whether the answering server knows of a leader.
    pub known_leader: Option<bool>,
    /// The status of the response.
    pub status: u16,
}

/// The payload of a response with its metadata. One is made for each call that
/// succeeds; nothing of it is kept for the next call.
#[derive(Debug, PartialEq, Eq)]
pub struct ResponseEnvelope<T> {
    pub payload: T,
    pub index: Option<u64>,
    pub last_contact: Option<Duration>,
    pub known_leader: Option<bool>,
    pub status: u16,
}

/// The envelope that holds `payload` and the metadata.
pub open spec fn envelope<T>(payload: T, metadata: Metadata) -> ResponseEnvelope<T> {
    ResponseEnvelope {
        payload,
        index: metadata.index,
        last_contact: metadata.last_contact,
        known_leader: metadata.known_leader,
        status: metadata.status,
    }
}

/// The header of the index.
pub open spec fn index_header() -> Seq<char> {
    "X-Consul-Index"@
}

/// The header of the time since the last contact with the leader, in milliseconds.
pub open spec fn last_contact_header() -> Seq<char> {
    "X-Consul-LastContact"@
}

/// The header that tells whether a leader is known.
pub open spec fn known_leader_header() -> Seq<char> {
    "X-Consul-KnownLeader"@
}

/// Whether the status reports success.
pub open spec fn is_success(status: u16) -> bool {
    200 <= status <= 299
}

/// The value of the first header whose name is `name`, whatever the case of its
/// letters.
pub open spec fn header_value(headers: Seq<HeaderView>, name: Seq<char>) -> Option<Seq<char>>
    decreases headers.len(),
{
    if headers.len() == 0 {
        None
    } else if same_ignoring_case(headers[0].name, name) {
        Some(headers[0].value)
    } else {
        header_value(headers.drop_first(), name)
    }
}

/// What a header that holds a number says: `Ok(None)` where the header is absent,
/// `Err` with a message where its value is no decimal numeral of a `u64`.
pub open spec fn number_of(headers: Seq<HeaderView>, name: Seq<char>) -> Result<
    Option<u64>,
    Seq<char>,
> {
    match header_value(headers, name) {
        None => Ok(None),
        Some(text) => match parse_decimal(text) {
            Some(n) => Ok(Some(n)),
            None => Err(malformed_header(name)),
        },
    }
}

/// What a header that holds `true` or `false` says: `Ok(None)` where the header is
/// absent, `Err` with a message where its value is neither.
pub open spec fn flag_of(headers: Seq<HeaderView>, name: Seq<char>) -> Result<
    Option<bool>,
    Seq<char>,
> {
    match header_value(headers, name) {
        None => Ok(None),
        Some(text) => if text == "true"@ {
            Ok(Some(true))
        } else if text == "false"@ {
            Ok(Some(false))
        } else {
            Err(malformed_header(name))
        },
    }
}

/// What is said of a header whose value cannot be read.
pub open spec fn malformed_header(name: Seq<char>) -> Seq<char> {
    "malformed header: "@ + name
}

/// The metadata of a response, or the message for the first of its three headers that
/// cannot be read. A header that is absent is no fault.
pub open spec fn metadata_of(response: HttpResponseView) -> Result<Metadata, Seq<char>> {
    match number_of(response.headers, index_header()) {
        Err(message) => Err(message),
        Ok(index) => match number_of(response.headers, last_contact_header()) {
            Err(message) => Err(message),
            Ok(millis) => match flag_of(response.headers, known_leader_header()) {
                Err(message) => Err(message),
                Ok(known_leader) => Ok(
                    Metadata {
                        index,
                        last_contact: match millis {
                            Some(n) => Some(Duration { millis: n }),
                            None => None,
                        },
                        known_leader,
                        status: response.status,
                    },
                ),
            },
        },
    }
}

/// The body of a failure as text: what it says where it is valid UTF-8, nothing where
/// it is not.
pub open spec fn error_text(body: Seq<u8>) -> Seq<char> {
    if valid_utf8(body) {
        decode_utf8(body)
    } else {
        Seq::empty()
    }
}

/// What a response amounts to before its body is decoded: the metadata where the
/// status reports success and the headers can be read, a `ResponseError` where they
/// cannot, and an `APIError` with the status for every other status.
pub open spec fn verdict_of(response: HttpResponseView) -> Result<Metadata, ClientErrorView> {
    if is_success(response.status) {
        match metadata_of(response) {
            Ok(metadata) => Ok(metadata),
            Err(message) => Err(ClientErrorView::ResponseError { message }),
        }
    } else {
        Err(
            ClientErrorView::APIError {
                status: response.status,
                message: error_text(response.body),
                body: response.body,
            },
        )
    }
}

/// Finds a header by its name, whatever the case of its letters.
pub fn find_header<'a>(headers: &'a Vec<Header>, name: &str) -> (r: Option<&'a String>)
    ensures
        r.deep_view() == header_value(headers.deep_view(), name@),
{
    let mut i: usize = 0;
    assert(headers.deep_view().subrange(0, headers.len() as int) =~= headers.deep_view());
    while i < headers.len()
        invariant
            0 <= i <= headers.len(),
            headers.deep_view().len() == headers.len(),
            header_value(headers.deep_view(), name@) == header_value(
                headers.deep_view().subrange(i as int, headers.len() as int),
                name@,
            ),
        decreases headers.len() - i,
    {
        let ghost rest = headers.deep_view().subrange(i as int, headers.len() as int);
        proof {
            assert(rest[0] == headers[i as int].deep_view());
            assert(rest.drop_first() =~= headers.deep_view().subrange(
                i + 1,
                headers.len() as int,
            ));
        }
        if eq_ignore_case(headers[i].name.as_str(), name) {
            return Some(&headers[i].value);
        }
        i = i + 1;
    }
    None
}

fn malformed(name: &str) -> (e: ClientError)
    ensures
        e@ == (ClientErrorView::ResponseError { message: malformed_header(name@) }),
{
    let mut message = String::from_str("malformed header: ");
    message.append(name);
    ClientError::ResponseError { message }
}

fn read_number(headers: &Vec<Header>, name: &str) -> (r: Result<Option<u64>, ClientError>)
    ensures
        match number_of(headers.deep_view(), name@) {
            Ok(n) => r == Ok::<Option<u64>, ClientError>(n),
            Err(message) => r is Err && r->Err_0@ == (ClientErrorView::ResponseError { message }),
        },
{
    match find_header(headers, name) {
        None => Ok(None),
        Some(text) => match parse_u64(text.as_str()) {
            Some(n) => Ok(Some(n)),
            None => Err(malformed(name)),
        },
    }
}

fn read_flag(headers: &Vec<Header>, name: &str) -> (r: Result<Option<bool>, ClientError>)
    ensures
        match flag_of(headers.deep_view(), name@) {
            Ok(b) => r == Ok::<Option<bool>, ClientError>(b),
            Err(message) => r is Err && r->Err_0@ == (ClientErrorView::ResponseError { message }),
        },
{
    match find_header(headers, name) {
        None => Ok(None),
        Some(text) => {
            let yes = String::from_str("true");
            let no = String::from_str("false");
            if *text == yes {
                Ok(Some(true))
            } else if *text == no {
                Ok(Some(false))
            } else {
                Err(malformed(name))
            }
        },
    }
}

/// Reads the metadata from the headers of a response.
pub fn read_metadata(response: &HttpResponse) -> (r: Result<Metadata, ClientError>)
    ensures
        match metadata_of(response@) {
            Ok(metadata) => r == Ok::<Metadata, ClientError>(metadata),
            Err(message) => r is Err && r->Err_0@ == (ClientErrorView::ResponseError { message }),
        },
{
    let index = match read_number(&response.headers, "X-Consul-Index") {
        Ok(n) => n,
        Err(e) => {
            return Err(e);
        },
    };
    let millis = match read_number(&response.headers, "X-Consul-LastContact") {
        Ok(n) => n,
        Err(e) => {
            return Err(e);
        },
    };
    let known_leader = match read_flag(&response.headers, "X-Consul-KnownLeader") {
        Ok(b) => b,
        Err(e) => {
            return Err(e);
        },
    };
    let last_contact = match millis {
        Some(n) => Some(Duration { millis: n }),
        None => None,
    };
    Ok(Metadata { index, last_contact, known_leader, status: response.status })
}

/// Reads the body of a failure as text.
pub fn read_error_text(body: &Vec<u8>) -> (r: String)
    ensures
        r@ == error_text(body@),
{
    match core::str::from_utf8(body.as_slice()) {
        Ok(text) => {
            proof {
                vstd::utf8::encode_utf8_decode_utf8(text@);
            }
            String::from_str(text)
        },
        Err(_) => String::new(),
    }
}

/// Sorts a response into success and failure by its status, and reads the metadata
/// of a success.
pub fn classify(response: &HttpResponse) -> (r: Result<Metadata, ClientError>)
    ensures
        match verdict_of(response@) {
            Ok(metadata) => r == Ok::<Metadata, ClientError>(metadata),
            Err(error) => r is Err && r->Err_0@ == error,
        },
{
    if 200 <= response.status && response.status <= 299 {
        read_metadata(response)
    } else {
        let message = read_error_text(&response.body);
        Err(ClientError::APIError { status: response.status, message, body: response.body.clone() })
    }
}

} // verus!
