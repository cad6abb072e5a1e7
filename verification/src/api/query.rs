//! The options that many requests share, and the query string that they and the
//! parameters of a request are written as.

use vstd::prelude::*;
use crate::api::endpoint::Param;
use crate::api::endpoint::ParamView;
use crate::escape::component;
use crate::escape::is_component_char;
use crate::escape::is_unreserved_char;
use crate::escape::lemma_component_of_unreserved;
use crate::escape::lemma_percent_encode_chars;
use crate::escape::push_component;
use crate::text::decimal;
use crate::text::is_digit;
use crate::text::lemma_decimal_value;
use crate::text::push_decimal;

verus! {

/// How fresh a read has to be.
#[derive(Clone, Copy, Debug, PartialEq, Eq, Structural)]
pub enum ConsistencyMode {
    /// The server's own choice. Nothing is sent.
    Default,
    /// Any server may answer, however far behind it is.
    Stale,
    /// The leader answers, after it has made sure that it still leads.
    Leader,
}

/// A span of time, in milliseconds.
#[derive(Clone, Copy, Debug, PartialEq, Eq, Structural)]
pub struct Duration {
    pub millis: u64,
}

/// Options that a request may carry whatever its endpoint. `wait` means something only
/// beside `index`: without an index the read is answered at once.
#[derive(Debug, PartialEq, Eq)]
pub struct QueryOptions {
    pub datacenter: Option<String>,
    pub namespace: Option<String>,
    pub consistency: ConsistencyMode,
    pub wait: Option<Duration>,
    pub index: Option<u64>,
    pub token: Option<String>,
}

/// `QueryOptions` with its texts as sequences.
pub struct QueryOptionsView {
    pub datacenter: Option<Seq<char>>,
    pub namespace: Option<Seq<char>>,
    pub consistency: ConsistencyMode,
    pub wait: Option<Duration>,
    pub index: Option<u64>,
    pub token: Option<Seq<char>>,
}

impl View for QueryOptions {
    type V = QueryOptionsView;

    open spec fn view(&self) -> QueryOptionsView {
        QueryOptionsView {
            datacenter: self.datacenter.deep_view(),
            namespace: self.namespace.deep_view(),
            consistency: self.consistency,
            wait: self.wait,
            index: self.index,
            token: self.token.deep_view(),
        }
    }
}

impl QueryOptionsView {
    /// The options with nothing set.
    pub open spec fn unset() -> QueryOptionsView {
        QueryOptionsView {
            datacenter: None,
            namespace: None,
            consistency: ConsistencyMode::Default,
            wait: None,
            index: None,
            token: None,
        }
    }
}

impl Default for QueryOptions {
    fn default() -> (r: Self)
        ensures
            r@ == QueryOptionsView::unset(),
    {
        QueryOptions {
            datacenter: None,
            namespace: None,
            consistency: ConsistencyMode::Default,
            wait: None,
            index: None,
            token: None,
        }
    }
}

impl Clone for QueryOptions {
    fn clone(&self) -> (r: Self)
        ensures
            r == *self,
    {
        QueryOptions {
            datacenter: self.datacenter.clone(),
            namespace: self.namespace.clone(),
            consistency: self.consistency,
            wait: self.wait,
            index: self.index,
            token: self.token.clone(),
        }
    }
}

/// One item of a query string: a key with its value, or a key that stands alone.
#[derive(Debug, PartialEq, Eq)]
pub struct QueryItem {
    pub key: String,
    pub value: Option<String>,
}

/// A `QueryItem` with its texts as sequences.
pub struct QueryItemView {
    pub key: Seq<char>,
    pub value: Option<Seq<char>>,
}

impl DeepView for QueryItem {
    type V = QueryItemView;

    open spec fn deep_view(&self) -> QueryItemView {
        QueryItemView { key: self.key@, value: self.value.deep_view() }
    }
}

impl View for QueryItem {
    type V = QueryItemView;

    open spec fn view(&self) -> QueryItemView {
        self.deep_view()
    }
}

/// The parameters that have a value, in their order. One without a value leaves no
/// trace.
pub open spec fn explicit_items(query: Seq<ParamView>) -> Seq<QueryItemView>
    decreases query.len(),
{
    if query.len() == 0 {
        Seq::empty()
    } else {
        let head = explicit_items(query.drop_last());
        match query.last().value {
            Some(value) => head.push(QueryItemView { key: query.last().name, value: Some(value) }),
            None => head,
        }
    }
}

/// The item for a text that may be absent.
pub open spec fn text_item(key: Seq<char>, value: Option<Seq<char>>) -> Seq<QueryItemView> {
    match value {
        Some(text) => seq![QueryItemView { key, value: Some(text) }],
        None => Seq::empty(),
    }
}

/// The item for the consistency mode: a key that stands alone, or nothing.
pub open spec fn consistency_item(mode: ConsistencyMode) -> Seq<QueryItemView> {
    match mode {
        ConsistencyMode::Default => Seq::empty(),
        ConsistencyMode::Stale => seq![QueryItemView { key: "stale"@, value: None }],
        ConsistencyMode::Leader => seq![QueryItemView { key: "leader"@, value: None }],
    }
}

/// The key of the index of a blocking query.
pub open spec fn index_key() -> Seq<char> {
    "index"@
}

/// The key of the wait of a blocking query.
pub open spec fn wait_key() -> Seq<char> {
    "wait"@
}

/// How long to wait, as the server reads it: the milliseconds and `ms`.
pub open spec fn wait_text(wait: Duration) -> Seq<char> {
    decimal(wait.millis as nat) + "ms"@
}

/// The items of a blocking query: the index, and the wait beside it. Without an index
/// there is neither.
pub open spec fn blocking_items(index: Option<u64>, wait: Option<Duration>) -> Seq<QueryItemView> {
    match index {
        None => Seq::empty(),
        Some(n) => {
            let first = QueryItemView { key: index_key(), value: Some(decimal(n as nat)) };
            match wait {
                None => seq![first],
                Some(d) => seq![first, QueryItemView { key: wait_key(), value: Some(wait_text(d)) }],
            }
        },
    }
}

/// `first` where it is set, else `second`.
pub open spec fn or_else(first: Option<Seq<char>>, second: Option<Seq<char>>) -> Option<Seq<char>> {
    if first is Some {
        first
    } else {
        second
    }
}

/// The items that the options of a request give: datacenter and namespace, each from
/// the request or else from the client's defaults, then the consistency mode, then the
/// index with its wait.
pub open spec fn option_items(
    options: QueryOptionsView,
    datacenter: Option<Seq<char>>,
    namespace: Option<Seq<char>>,
) -> Seq<QueryItemView> {
    text_item("dc"@, or_else(options.datacenter, datacenter)) + text_item(
        "ns"@,
        or_else(options.namespace, namespace),
    ) + consistency_item(options.consistency) + blocking_items(options.index, options.wait)
}

/// One item as it is written: the key, then `=` and the value where it has one, both
/// percent-encoded.
pub open spec fn item_text(item: QueryItemView) -> Seq<char> {
    match item.value {
        Some(value) => component(item.key) + seq!['='] + component(value),
        None => component(item.key),
    }
}

/// The query string: the items as they are written, with `&` between them.
pub open spec fn query_text(items: Seq<QueryItemView>) -> Seq<char>
    decreases items.len(),
{
    if items.len() == 0 {
        Seq::empty()
    } else if items.len() == 1 {
        item_text(items[0])
    } else {
        query_text(items.drop_last()) + seq!['&'] + item_text(items.last())
    }
}

/// A query string is made of `%`, unreserved characters, `=` and `&`: no value can
/// bring in a `?` or a `#`, and none can pass for a further item.
pub proof fn lemma_query_text_chars(items: Seq<QueryItemView>)
    ensures
        forall|i: int|
            0 <= i < query_text(items).len() ==> {
                let c = #[trigger] query_text(items)[i];
                is_component_char(c) || c == '=' || c == '&'
            },
    decreases items.len(),
{
    if items.len() > 0 {
        let last = items.last();
        let text = item_text(last);
        lemma_percent_encode_chars(vstd::utf8::encode_utf8(last.key));
        if last.value is Some {
            lemma_percent_encode_chars(vstd::utf8::encode_utf8(last.value->Some_0));
        }
        assert forall|i: int| 0 <= i < text.len() implies {
            let c = #[trigger] text[i];
            is_component_char(c) || c == '='
        } by {
            let key = component(last.key);
            if i < key.len() {
                assert(text[i] == key[i]);
            } else if last.value is Some {
                let value = component(last.value->Some_0);
                if i > key.len() {
                    assert(text[i] == value[i - key.len() - 1]);
                }
            }
        }
        if items.len() == 1 {
            assert(items[0] == last);
        } else {
            let head = query_text(items.drop_last());
            lemma_query_text_chars(items.drop_last());
            assert forall|i: int| 0 <= i < query_text(items).len() implies {
                let c = #[trigger] query_text(items)[i];
                is_component_char(c) || c == '=' || c == '&'
            } by {
                if i < head.len() {
                    assert(query_text(items)[i] == head[i]);
                } else if i > head.len() {
                    assert(query_text(items)[i] == text[i - head.len() - 1]);
                }
            }
        }
    }
}

/// The keys of the options are written as they are, and so are the numerals: the
/// index goes out as `index=` and its digits, the wait as `wait=`, its digits and
/// `ms`, the consistency mode as `stale` or `leader`, and datacenter and namespace as
/// `dc=` and `ns=` with the percent-encoded name behind.
pub proof fn lemma_option_item_texts(index: u64, wait: Duration, name: Seq<char>)
    ensures
        item_text(QueryItemView { key: index_key(), value: Some(decimal(index as nat)) }) == "index="@
            + decimal(index as nat),
        item_text(QueryItemView { key: wait_key(), value: Some(wait_text(wait)) }) == "wait="@
            + decimal(wait.millis as nat) + "ms"@,
        item_text(QueryItemView { key: "stale"@, value: None }) == "stale"@,
        item_text(QueryItemView { key: "leader"@, value: None }) == "leader"@,
        item_text(QueryItemView { key: "dc"@, value: Some(name) }) == "dc="@ + component(name),
        item_text(QueryItemView { key: "ns"@, value: Some(name) }) == "ns="@ + component(name),
{
    reveal_strlit("index");
    reveal_strlit("index=");
    reveal_strlit("wait");
    reveal_strlit("wait=");
    reveal_strlit("ms");
    reveal_strlit("stale");
    reveal_strlit("leader");
    reveal_strlit("dc");
    reveal_strlit("dc=");
    reveal_strlit("ns");
    reveal_strlit("ns=");
    lemma_component_of_unreserved("index"@);
    lemma_component_of_unreserved("wait"@);
    lemma_component_of_unreserved("stale"@);
    lemma_component_of_unreserved("leader"@);
    lemma_component_of_unreserved("dc"@);
    lemma_component_of_unreserved("ns"@);
    lemma_decimal_value(index as nat);
    lemma_decimal_value(wait.millis as nat);
    lemma_component_of_unreserved(decimal(index as nat));
    let span = wait_text(wait);
    assert forall|i: int| 0 <= i < span.len() implies is_unreserved_char(
        #[trigger] span[i],
    ) by {
        let digits = decimal(wait.millis as nat);
        if i < digits.len() {
            assert(span[i] == digits[i]);
            assert(is_digit(digits[i]));
        } else {
            assert(span[i] == "ms"@[i - digits.len()]);
        }
    }
    lemma_component_of_unreserved(span);
    assert("index"@ + seq!['='] =~= "index="@);
    assert("wait"@ + seq!['='] =~= "wait="@);
    assert("dc"@ + seq!['='] =~= "dc="@);
    assert("ns"@ + seq!['='] =~= "ns="@);
    assert("wait="@ + span =~= "wait="@ + decimal(wait.millis as nat) + "ms"@);
}

/// Pushing an item onto a list pushes its view onto the list's view.
proof fn lemma_push_item(items: Seq<QueryItem>, item: QueryItem)
    ensures
        Seq::new(items.push(item).len(), |i: int| items.push(item)[i].deep_view()) == Seq::new(
            items.len(),
            |i: int| items[i].deep_view(),
        ).push(item.deep_view()),
{
    assert(Seq::new(items.push(item).len(), |i: int| items.push(item)[i].deep_view()) =~= Seq::new(
        items.len(),
        |i: int| items[i].deep_view(),
    ).push(item.deep_view()));
}

/// Appends the parameters that have a value.
pub fn push_explicit_items(out: &mut Vec<QueryItem>, query: &Vec<Param>)
    ensures
        final(out).deep_view() == old(out).deep_view() + explicit_items(query.deep_view()),
{
    let mut i: usize = 0;
    assert(query.deep_view().subrange(0, 0) =~= Seq::<ParamView>::empty());
    assert(out.deep_view() =~= old(out).deep_view() + Seq::<QueryItemView>::empty());
    while i < query.len()
        invariant
            0 <= i <= query.len(),
            query.deep_view().len() == query.len(),
            out.deep_view() == old(out).deep_view() + explicit_items(
                query.deep_view().subrange(0, i as int),
            ),
        decreases query.len() - i,
    {
        let ghost before = out.deep_view();
        let ghost head = query.deep_view().subrange(0, i as int);
        let ghost next = query.deep_view().subrange(0, i + 1);
        proof {
            assert(next.drop_last() =~= head);
            assert(next.last() == query[i as int].deep_view());
        }
        match &query[i].value {
            Some(value) => {
                let item = QueryItem { key: query[i].name.clone(), value: Some(value.clone()) };
                proof {
                    lemma_push_item(out@, item);
                }
                out.push(item);
                proof {
                    assert(out.deep_view() =~= old(out).deep_view() + explicit_items(next));
                }
            },
            None => {},
        }
        i = i + 1;
    }
    assert(query.deep_view().subrange(0, query.len() as int) =~= query.deep_view());
}

fn push_item(out: &mut Vec<QueryItem>, key: &str, value: Option<String>)
    ensures
        final(out).deep_view() == old(out).deep_view().push(
            QueryItemView { key: key@, value: value.deep_view() },
        ),
{
    let item = QueryItem { key: String::from_str(key), value };
    proof {
        lemma_push_item(out@, item);
    }
    out.push(item);
}

fn push_text_item(
    out: &mut Vec<QueryItem>,
    key: &str,
    first: &Option<String>,
    second: &Option<String>,
)
    ensures
        final(out).deep_view() == old(out).deep_view() + text_item(
            key@,
            or_else(first.deep_view(), second.deep_view()),
        ),
{
    let chosen = if first.is_some() {
        first
    } else {
        second
    };
    match chosen {
        Some(text) => {
            push_item(out, key, Some(text.clone()));
            assert(out.deep_view() =~= old(out).deep_view() + text_item(
                key@,
                or_else(first.deep_view(), second.deep_view()),
            ));
        },
        None => {
            assert(out.deep_view() =~= old(out).deep_view() + text_item(
                key@,
                or_else(first.deep_view(), second.deep_view()),
            ));
        },
    }
}

fn push_consistency_item(out: &mut Vec<QueryItem>, mode: ConsistencyMode)
    ensures
        final(out).deep_view() == old(out).deep_view() + consistency_item(mode),
{
    match mode {
        ConsistencyMode::Default => {},
        ConsistencyMode::Stale => {
            push_item(out, "stale", None);
        },
        ConsistencyMode::Leader => {
            push_item(out, "leader", None);
        },
    }
    assert(out.deep_view() =~= old(out).deep_view() + consistency_item(mode));
}

fn push_blocking_items(out: &mut Vec<QueryItem>, index: Option<u64>, wait: Option<Duration>)
    ensures
        final(out).deep_view() == old(out).deep_view() + blocking_items(index, wait),
{
    if let Some(n) = index {
        let mut numeral = String::new();
        push_decimal(&mut numeral, n);
        assert(numeral@ =~= decimal(n as nat));
        push_item(out, "index", Some(numeral));
        if let Some(d) = wait {
            let mut span = String::new();
            push_decimal(&mut span, d.millis);
            span.append("ms");
            assert(span@ =~= wait_text(d));
            push_item(out, "wait", Some(span));
        }
    }
    assert(out.deep_view() =~= old(out).deep_view() + blocking_items(index, wait));
}

/// Appends the items that the options of a request give, with the client's defaults
/// for the datacenter and the namespace.
pub fn push_option_items(
    out: &mut Vec<QueryItem>,
    options: &QueryOptions,
    datacenter: &Option<String>,
    namespace: &Option<String>,
)
    ensures
        final(out).deep_view() == old(out).deep_view() + option_items(
            options@,
            datacenter.deep_view(),
            namespace.deep_view(),
        ),
{
    push_text_item(out, "dc", &options.datacenter, datacenter);
    push_text_item(out, "ns", &options.namespace, namespace);
    push_consistency_item(out, options.consistency);
    push_blocking_items(out, options.index, options.wait);
    assert(out.deep_view() =~= old(out).deep_view() + option_items(
        options@,
        datacenter.deep_view(),
        namespace.deep_view(),
    ));
}

fn push_item_text(out: &mut String, item: &QueryItem)
    ensures
        final(out)@ == old(out)@ + item_text(item.deep_view()),
{
    push_component(out, item.key.as_str());
    match &item.value {
        Some(value) => {
            out.push('=');
            push_component(out, value.as_str());
            assert(out@ =~= old(out)@ + item_text(item.deep_view()));
        },
        None => {},
    }
}

/// Writes the items as a query string.
pub fn render_query(items: &Vec<QueryItem>) -> (r: String)
    ensures
        r@ == query_text(items.deep_view()),
{
    let mut out = String::new();
    let mut i: usize = 0;
    assert(items.deep_view().subrange(0, 0) =~= Seq::<QueryItemView>::empty());
    while i < items.len()
        invariant
            0 <= i <= items.len(),
            items.deep_view().len() == items.len(),
            out@ == query_text(items.deep_view().subrange(0, i as int)),
        decreases items.len() - i,
    {
        let ghost head = items.deep_view().subrange(0, i as int);
        let ghost next = items.deep_view().subrange(0, i + 1);
        proof {
            assert(next.drop_last() =~= head);
            assert(next.last() == items[i as int].deep_view());
        }
        if i > 0 {
            out.push('&');
        }
        push_item_text(&mut out, &items[i]);
        proof {
            assert(out@ =~= query_text(next));
        }
        i = i + 1;
    }
    assert(items.deep_view().subrange(0, items.len() as int) =~= items.deep_view());
    out
}

} // verus!
