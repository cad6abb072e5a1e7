//! The request that a call puts on the wire.

use vstd::prelude::*;
use crate::api::endpoint::body_view;
use crate::api::endpoint::EndpointDescriptor;
use crate::api::endpoint::EndpointDescriptorView;
use crate::api::endpoint::Method;
use crate::api::endpoint::ParamView;
use crate::api::path::lemma_resolved_chars;
use crate::api::path::resolve;
use crate::api::path::resolved;
use crate::api::query::blocking_items;
use crate::api::query::consistency_item;
use crate::api::query::explicit_items;
use crate::api::query::index_key;
use crate::api::query::lemma_query_text_chars;
use crate::api::query::option_items;
use crate::api::query::or_else;
use crate::api::query::push_explicit_items;
use crate::api::query::push_option_items;
use crate::api::query::query_text;
use crate::api::query::render_query;
use crate::api::query::text_item;
use crate::api::query::wait_key;
use crate::api::query::QueryItem;
use crate::api::query::QueryItemView;
use crate::api::query::QueryOptionsView;
use crate::client::is_absolute_uri;
use crate::client::is_address_char;
use crate::client::is_scheme_char;
use crate::client::is_uri_with_scheme;
use crate::client::ClientConfiguration;
use crate::client::ClientConfigurationView;
use crate::error::ClientError;
use crate::error::ClientErrorView;
use crate::text::decimal;
use crate::text::lemma_parse_decimal_of_decimal;
use crate::text::parse_decimal;

verus! {

/// One header of a request or a response.
#[derive(Debug, PartialEq, Eq)]
pub struct Header {
    pub name: String,
    pub value: String,
}

/// A `Header` with its texts as sequences.
pub struct HeaderView {
    pub name: Seq<char>,
    pub value: Seq<char>,
}

impl DeepView for Header {
    type V = HeaderView;

    open spec fn deep_view(&self) -> HeaderView {
        HeaderView { name: self.name@, value: self.value@ }
    }
}

impl View for Header {
    type V = HeaderView;

    open spec fn view(&self) -> HeaderView {
        self.deep_view()
    }
}

/// What the transport is asked to send.
#[derive(Debug, PartialEq, Eq)]
pub struct HttpRequest {
    pub method: Method,
    pub url: String,
    pub headers: Vec<Header>,
    pub body: Option<Vec<u8>>,
}

/// An `HttpRequest` with its texts and lists as sequences.
pub struct HttpRequestView {
    pub method: Method,
    pub url: Seq<char>,
    pub headers: Seq<HeaderView>,
    pub body: Option<Seq<u8>>,
}

impl View for HttpRequest {
    type V = HttpRequestView;

    open spec fn view(&self) -> HttpRequestView {
        HttpRequestView {
            method: self.method,
            url: self.url@,
            headers: self.headers.deep_view(),
            body: body_view(self.body),
        }
    }
}

/// The header that carries the ACL token.
pub open spec fn token_header() -> Seq<char> {
    "X-Consul-Token"@
}

/// The header that says what the body is.
pub open spec fn content_type_header() -> Seq<char> {
    "Content-Type"@
}

/// What the body is said to be.
pub open spec fn json_content() -> Seq<char> {
    "application/json"@
}

/// The items of the query of a call: the parameters of the request that have a value,
/// then what its options give. Where the request names no datacenter or namespace, the
/// client's default stands in.
pub open spec fn query_items(
    config: ClientConfigurationView,
    descriptor: EndpointDescriptorView,
) -> Seq<QueryItemView> {
    explicit_items(descriptor.query) + option_items(
        descriptor.options,
        config.datacenter,
        config.namespace,
    )
}

/// The address with the path behind it, and one `/` between them.
pub open spec fn location(address: Seq<char>, path: Seq<char>) -> Seq<char> {
    if address.len() > 0 && address.last() == '/' {
        address + path
    } else {
        address + seq!['/'] + path
    }
}

/// The URL of a call: the location, and behind it `?` and the query string where the
/// query has an item.
pub open spec fn url_text(address: Seq<char>, path: Seq<char>, items: Seq<QueryItemView>) -> Seq<
    char,
> {
    if items.len() == 0 {
        location(address, path)
    } else {
        location(address, path) + seq!['?'] + query_text(items)
    }
}

/// The headers of a call: the ACL token where the request or else the client has one,
/// and the content type where there is a body.
pub open spec fn request_headers(token: Option<Seq<char>>, with_body: bool) -> Seq<HeaderView> {
    let first = match token {
        Some(text) => seq![HeaderView { name: token_header(), value: text }],
        None => Seq::empty(),
    };
    if with_body {
        first.push(HeaderView { name: content_type_header(), value: json_content() })
    } else {
        first
    }
}

/// The request that a call puts on the wire, or the message of the `ValidationError`
/// that keeps it from being sent.
pub open spec fn request_of(
    config: ClientConfigurationView,
    descriptor: EndpointDescriptorView,
) -> Result<HttpRequestView, Seq<char>> {
    match resolved(descriptor.path, descriptor.fields) {
        Err(message) => Err(message),
        Ok(path) => Ok(
            HttpRequestView {
                method: descriptor.method,
                url: url_text(config.address, path, query_items(config, descriptor)),
                headers: request_headers(
                    or_else(descriptor.options.token, config.token),
                    descriptor.body is Some,
                ),
                body: descriptor.body,
            },
        ),
    }
}

/// The items of the query of a call.
pub fn collect_query_items(config: &ClientConfiguration, descriptor: &EndpointDescriptor) -> (r:
    Vec<QueryItem>)
    ensures
        r.deep_view() == query_items(config@, descriptor@),
{
    let mut items: Vec<QueryItem> = Vec::new();
    assert(items.deep_view() =~= Seq::<QueryItemView>::empty());
    push_explicit_items(&mut items, &descriptor.query);
    push_option_items(&mut items, &descriptor.options, config.datacenter(), config.namespace());
    assert(items.deep_view() =~= query_items(config@, descriptor@));
    items
}

fn write_url(address: &String, path: &String, items: &Vec<QueryItem>) -> (r: String)
    ensures
        r@ == url_text(address@, path@, items.deep_view()),
{
    let mut url = address.clone();
    let n = address.as_str().unicode_len();
    if !(n > 0 && address.as_str().get_char(n - 1) == '/') {
        url.push('/');
    }
    url.append(path.as_str());
    assert(url@ =~= location(address@, path@));
    if items.len() > 0 {
        url.push('?');
        let query = render_query(items);
        url.append(query.as_str());
        assert(url@ =~= location(address@, path@) + seq!['?'] + query_text(items.deep_view()));
    }
    url
}

fn write_headers(first: &Option<String>, second: &Option<String>, with_body: bool) -> (r: Vec<
    Header,
>)
    ensures
        r.deep_view() == request_headers(or_else(first.deep_view(), second.deep_view()), with_body),
{
    let mut headers: Vec<Header> = Vec::new();
    let chosen = if first.is_some() {
        first
    } else {
        second
    };
    if let Some(token) = chosen {
        headers.push(Header { name: String::from_str("X-Consul-Token"), value: token.clone() });
    }
    if with_body {
        headers.push(
            Header {
                name: String::from_str("Content-Type"),
                value: String::from_str("application/json"),
            },
        );
    }
    assert(headers.deep_view() =~= request_headers(
        or_else(first.deep_view(), second.deep_view()),
        with_body,
    ));
    headers
}

/// Makes the request of a call. A descriptor that is not complete gives a
/// `ValidationError` instead, with the reason.
pub fn prepare(config: &ClientConfiguration, descriptor: EndpointDescriptor) -> (r: Result<
    HttpRequest,
    ClientError,
>)
    ensures
        match request_of(config@, descriptor@) {
            Ok(request) => r is Ok && r->Ok_0@ == request,
            Err(message) => r is Err && r->Err_0@ == (ClientErrorView::ValidationError { message }),
        },
{
    let path = match resolve(descriptor.path.as_str(), &descriptor.fields) {
        Ok(path) => path,
        Err(e) => {
            return Err(e);
        },
    };
    let items = collect_query_items(config, &descriptor);
    let url = write_url(config.address(), &path, &items);
    let headers = write_headers(&descriptor.options.token, config.token(), descriptor.body.is_some());
    Ok(HttpRequest { method: descriptor.method, url, headers, body: descriptor.body })
}

/// Parameters without a value give no item.
pub proof fn lemma_explicit_items_absent(query: Seq<ParamView>)
    requires
        forall|i: int| 0 <= i < query.len() ==> (#[trigger] query[i]).value is None,
    ensures
        explicit_items(query) == Seq::<QueryItemView>::empty(),
    decreases query.len(),
{
    if query.len() > 0 {
        lemma_explicit_items_absent(query.drop_last());
        assert(query.last() == query[query.len() - 1]);
    }
}

/// Each item that the parameters give is one of them, with its name and its value.
pub proof fn lemma_explicit_items_source(query: Seq<ParamView>, i: int)
    requires
        0 <= i < explicit_items(query).len(),
    ensures
        exists|j: int|
            0 <= j < query.len() && (#[trigger] query[j]).name == explicit_items(query)[i].key
                && query[j].value == explicit_items(query)[i].value && query[j].value is Some,
    decreases query.len(),
{
    if query.len() > 0 {
        let head = explicit_items(query.drop_last());
        if i < head.len() {
            lemma_explicit_items_source(query.drop_last(), i);
            let j = choose|j: int|
                0 <= j < query.drop_last().len() && (#[trigger] query.drop_last()[j]).name
                    == head[i].key && query.drop_last()[j].value == head[i].value
                    && query.drop_last()[j].value is Some;
            assert(query[j] == query.drop_last()[j]);
        } else {
            assert(query[query.len() - 1] == query.last());
        }
    }
}

/// The descriptor with the wait taken out of its options.
pub open spec fn without_wait(descriptor: EndpointDescriptorView) -> EndpointDescriptorView {
    EndpointDescriptorView {
        options: QueryOptionsView { wait: None, ..descriptor.options },
        ..descriptor
    }
}

/// Without an index no wait is sent. A request that sets a wait and no index is sent
/// as if the wait were not set, and an item called `wait` in its query can only be a
/// parameter of that name that the request itself brings.
pub proof fn lemma_wait_needs_index(config: ClientConfigurationView, descriptor: EndpointDescriptorView)
    requires
        descriptor.options.index is None,
    ensures
        request_of(config, descriptor) == request_of(config, without_wait(descriptor)),
        forall|i: int|
            0 <= i < query_items(config, descriptor).len() && (#[trigger] query_items(
                config,
                descriptor,
            )[i]).key == wait_key() ==> exists|j: int|
                0 <= j < descriptor.query.len() && (#[trigger] descriptor.query[j]).name
                    == wait_key() && descriptor.query[j].value is Some,
{
    reveal_strlit("wait");
    reveal_strlit("dc");
    reveal_strlit("ns");
    reveal_strlit("stale");
    reveal_strlit("leader");
    let explicit = explicit_items(descriptor.query);
    let given = option_items(descriptor.options, config.datacenter, config.namespace);
    assert forall|i: int|
        0 <= i < query_items(config, descriptor).len() && (#[trigger] query_items(
            config,
            descriptor,
        )[i]).key == wait_key() implies exists|j: int|
        0 <= j < descriptor.query.len() && (#[trigger] descriptor.query[j]).name == wait_key()
            && descriptor.query[j].value is Some by {
        if i < explicit.len() {
            lemma_explicit_items_source(descriptor.query, i);
        } else {
            let item = given[i - explicit.len()];
            assert(item.key.len() != 4);
        }
    }
}

/// No `?` stands in an absolute URI.
pub proof fn lemma_address_has_no_query(address: Seq<char>)
    requires
        is_absolute_uri(address),
    ensures
        forall|i: int| 0 <= i < address.len() ==> #[trigger] address[i] != '?',
{
    let k = choose|k: int| is_uri_with_scheme(address, k);
    assert forall|i: int| 0 <= i < address.len() implies #[trigger] address[i] != '?' by {
        if i < k {
            assert(is_scheme_char(address[i]));
        } else if i >= k + 3 {
            assert(is_address_char(address[i]));
        }
    }
}

/// In the URL of a call a `?` stands in one place only, between the location and the
/// query, and only where the query has an item.
pub proof fn lemma_url_question_mark(
    config: ClientConfigurationView,
    descriptor: EndpointDescriptorView,
)
    requires
        is_absolute_uri(config.address),
        request_of(config, descriptor) is Ok,
    ensures
        ({
            let url = request_of(config, descriptor)->Ok_0.url;
            let place = location(
                config.address,
                resolved(descriptor.path, descriptor.fields)->Ok_0,
            ).len();
            forall|i: int|
                0 <= i < url.len() ==> (#[trigger] url[i] == '?' <==> query_items(
                    config,
                    descriptor,
                ).len() > 0 && i == place)
        }),
{
    let address = config.address;
    let path = resolved(descriptor.path, descriptor.fields)->Ok_0;
    let items = query_items(config, descriptor);
    let url = request_of(config, descriptor)->Ok_0.url;
    let place = location(address, path);
    lemma_resolved_chars(descriptor.path, descriptor.fields);
    lemma_address_has_no_query(address);
    lemma_query_text_chars(items);
    assert forall|i: int| 0 <= i < place.len() implies #[trigger] place[i] != '?' by {
        if i < address.len() {
            assert(place[i] == address[i]);
        } else if address.last() == '/' {
            assert(place[i] == path[i - address.len()]);
        } else if i > address.len() {
            assert(place[i] == path[i - address.len() - 1]);
        }
    }
    assert forall|i: int| 0 <= i < url.len() implies (#[trigger] url[i] == '?' <==> items.len()
        > 0 && i == place.len()) by {
        if i < place.len() {
            assert(url[i] == place[i]);
        } else if i > place.len() {
            assert(url[i] == query_text(items)[i - place.len() - 1]);
        }
    }
}

/// A request that sets nothing of its query, sent by a client without a default
/// datacenter or namespace, has no query: it has no item, its URL is the address with
/// the path behind it, and no `?` stands in that URL.
pub proof fn lemma_unset_query_is_empty(
    config: ClientConfigurationView,
    descriptor: EndpointDescriptorView,
)
    requires
        is_absolute_uri(config.address),
        config.datacenter is None,
        config.namespace is None,
        forall|i: int| 0 <= i < descriptor.query.len() ==> (#[trigger] descriptor.query[i]).value is None,
        descriptor.options.datacenter is None,
        descriptor.options.namespace is None,
        descriptor.options.consistency is Default,
        descriptor.options.index is None,
    ensures
        query_items(config, descriptor) == Seq::<QueryItemView>::empty(),
        query_text(query_items(config, descriptor)) == Seq::<char>::empty(),
        request_of(config, descriptor) is Ok ==> {
            let url = request_of(config, descriptor)->Ok_0.url;
            &&& url == location(
                config.address,
                resolved(descriptor.path, descriptor.fields)->Ok_0,
            )
            &&& !url.contains('?')
        },
{
    lemma_explicit_items_absent(descriptor.query);
    assert(query_items(config, descriptor) =~= Seq::<QueryItemView>::empty());
    if request_of(config, descriptor) is Ok {
        lemma_url_question_mark(config, descriptor);
    }
}

/// An index that the request names is sent as its decimal numeral, under the key
/// `index`, and the numeral reads back as that index.
pub proof fn lemma_index_sent(
    config: ClientConfigurationView,
    descriptor: EndpointDescriptorView,
    n: u64,
)
    requires
        descriptor.options.index == Some(n),
    ensures
        query_items(config, descriptor).contains(
            QueryItemView { key: index_key(), value: Some(decimal(n as nat)) },
        ),
        parse_decimal(decimal(n as nat)) == Some(n),
{
    lemma_parse_decimal_of_decimal(n);
    let options = descriptor.options;
    let before = explicit_items(descriptor.query) + text_item(
        "dc"@,
        or_else(options.datacenter, config.datacenter),
    ) + text_item("ns"@, or_else(options.namespace, config.namespace))
        + consistency_item(options.consistency);
    let blocking = blocking_items(options.index, options.wait);
    let items = query_items(config, descriptor);
    assert(items =~= before + blocking);
    assert(items[before.len() as int] == blocking[0]);
}

} // verus!
