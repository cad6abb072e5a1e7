//! How a call is carried out.
//!
//! The library neither sends nor decodes. It decides: `begin` says what to send, and
//! `step` says, for each thing that then happens, what to do next. Whoever drives a
//! call performs the action and reports what came of it, until the action is `Return`.

use vstd::prelude::*;
use crate::api::endpoint::Endpoint;
use crate::api::endpoint::EndpointDescriptor;
use crate::api::endpoint::EndpointDescriptorView;
use crate::api::path::resolved;
use crate::api::query::index_key;
use crate::api::query::QueryItemView;
use crate::api::request::lemma_index_sent;
use crate::api::request::prepare;
use crate::api::request::query_items;
use crate::api::request::request_of;
use crate::api::request::HttpRequest;
use crate::api::request::HttpRequestView;
use crate::api::response::classify;
use crate::api::response::envelope;
use crate::api::response::error_text;
use crate::api::response::header_value;
use crate::api::response::index_header;
use crate::api::response::is_success;
use crate::api::response::number_of;
use crate::api::response::verdict_of;
use crate::api::response::HttpResponse;
use crate::api::response::HttpResponseView;
use crate::api::response::Metadata;
use crate::api::response::ResponseEnvelope;
use crate::client::ClientConfiguration;
use crate::client::ClientConfigurationView;
use crate::error::ClientError;
use crate::error::ClientErrorView;
use crate::text::decimal;
use crate::text::lemma_parse_decimal_of_decimal;

verus! {

/// Where a call stands.
#[derive(Clone, Copy, Debug, PartialEq, Eq, Structural)]
pub enum Call {
    /// The request is with the transport.
    Awaiting,
    /// The response was a success, and its body is being decoded.
    Decoding(Metadata),
    /// The call has ended.
    Done,
}

/// What can happen to a call that is under way.
#[derive(Debug, PartialEq, Eq)]
pub enum Event<T> {
    /// The transport brought a response.
    Response(HttpResponse),
    /// The transport could not complete the exchange.
    TransportFailure(String),
    /// The body was decoded.
    Decoded(T),
    /// The body could not be decoded.
    DecodeFailure(String),
}

/// An `Event` with its texts and lists as sequences.
pub enum EventView<T> {
    Response(HttpResponseView),
    TransportFailure(Seq<char>),
    Decoded(T),
    DecodeFailure(Seq<char>),
}

impl<T> View for Event<T> {
    type V = EventView<T>;

    open spec fn view(&self) -> EventView<T> {
        match self {
            Event::Response(response) => EventView::Response(response@),
            Event::TransportFailure(message) => EventView::TransportFailure(message@),
            Event::Decoded(payload) => EventView::Decoded(*payload),
            Event::DecodeFailure(message) => EventView::DecodeFailure(message@),
        }
    }
}

/// What the driver of a call is to do.
#[derive(Debug, PartialEq, Eq)]
pub enum Action<T> {
    /// Hand the request to the transport, and report the response or the failure.
    Send(HttpRequest),
    /// Decode the body, and report the payload or the failure.
    Decode(Vec<u8>),
    /// Give this to the caller. The call has ended.
    Return(Result<ResponseEnvelope<T>, ClientError>),
    /// Nothing: the event was none that the call waited for.
    Nothing,
}

/// An `Action` with its texts and lists as sequences.
pub enum ActionView<T> {
    Send(HttpRequestView),
    Decode(Seq<u8>),
    Return(Result<ResponseEnvelope<T>, ClientErrorView>),
    Nothing,
}

/// The result of a call with the texts of its error as sequences.
pub open spec fn result_view<T>(result: Result<ResponseEnvelope<T>, ClientError>) -> Result<
    ResponseEnvelope<T>,
    ClientErrorView,
> {
    match result {
        Ok(envelope) => Ok(envelope),
        Err(error) => Err(error@),
    }
}

impl<T> View for Action<T> {
    type V = ActionView<T>;

    open spec fn view(&self) -> ActionView<T> {
        match self {
            Action::Send(request) => ActionView::Send(request@),
            Action::Decode(body) => ActionView::Decode(body@),
            Action::Return(result) => ActionView::Return(result_view(*result)),
            Action::Nothing => ActionView::Nothing,
        }
    }
}

/// How a call begins: with its request where the descriptor is complete, and else
/// with a `ValidationError` and nothing sent.
pub open spec fn first<T>(
    config: ClientConfigurationView,
    descriptor: EndpointDescriptorView,
) -> (Call, ActionView<T>) {
    match request_of(config, descriptor) {
        Ok(request) => (Call::Awaiting, ActionView::Send(request)),
        Err(message) => (
            Call::Done,
            ActionView::Return(Err(ClientErrorView::ValidationError { message })),
        ),
    }
}

/// How a call goes on.
///
/// While the request is with the transport: a failure of the transport ends the call
/// with a `ConnectionError`; a response ends it with what `verdict_of` makes of it,
/// unless that is a success, whose body is then to be decoded. While the body is being
/// decoded: the payload ends the call with the envelope, a failure with a
/// `ResponseError`. Any other event changes nothing.
pub open spec fn next<T>(call: Call, event: EventView<T>) -> (Call, ActionView<T>) {
    match (call, event) {
        (Call::Awaiting, EventView::Response(response)) => match verdict_of(response) {
            Ok(metadata) => (Call::Decoding(metadata), ActionView::Decode(response.body)),
            Err(error) => (Call::Done, ActionView::Return(Err(error))),
        },
        (Call::Awaiting, EventView::TransportFailure(message)) => (
            Call::Done,
            ActionView::Return(Err(ClientErrorView::ConnectionError { message })),
        ),
        (Call::Decoding(metadata), EventView::Decoded(payload)) => (
            Call::Done,
            ActionView::Return(Ok(envelope(payload, metadata))),
        ),
        (Call::Decoding(_), EventView::DecodeFailure(message)) => (
            Call::Done,
            ActionView::Return(Err(ClientErrorView::ResponseError { message })),
        ),
        _ => (call, ActionView::Nothing),
    }
}

/// Begins a call.
pub fn begin<T>(config: &ClientConfiguration, descriptor: EndpointDescriptor) -> (r: (
    Call,
    Action<T>,
))
    ensures
        (r.0, r.1@) == first::<T>(config@, descriptor@),
{
    match prepare(config, descriptor) {
        Ok(request) => (Call::Awaiting, Action::Send(request)),
        Err(error) => (Call::Done, Action::Return(Err(error))),
    }
}

/// Begins the call that a request stands for.
pub fn begin_endpoint<E: Endpoint>(config: &ClientConfiguration, endpoint: &E) -> (r: (
    Call,
    Action<E::Response>,
))
    ensures
        (r.0, r.1@) == first::<E::Response>(config@, endpoint.described()),
{
    begin(config, endpoint.descriptor())
}

/// Takes a call one step further.
pub fn step<T>(call: Call, event: Event<T>) -> (r: (Call, Action<T>))
    ensures
        (r.0, r.1@) == next(call, event@),
{
    match call {
        Call::Awaiting => match event {
            Event::Response(response) => match classify(&response) {
                Ok(metadata) => (Call::Decoding(metadata), Action::Decode(response.body)),
                Err(error) => (Call::Done, Action::Return(Err(error))),
            },
            Event::TransportFailure(message) => (
                Call::Done,
                Action::Return(Err(ClientError::ConnectionError { message })),
            ),
            _ => (call, Action::Nothing),
        },
        Call::Decoding(metadata) => match event {
            Event::Decoded(payload) => (
                Call::Done,
                Action::Return(
                    Ok(
                        ResponseEnvelope {
                            payload,
                            index: metadata.index,
                            last_contact: metadata.last_contact,
                            known_leader: metadata.known_leader,
                            status: metadata.status,
                        },
                    ),
                ),
            ),
            Event::DecodeFailure(message) => (
                Call::Done,
                Action::Return(Err(ClientError::ResponseError { message })),
            ),
            _ => (call, Action::Nothing),
        },
        Call::Done => (call, Action::Nothing),
    }
}

/// The actions that a call in state `call` answers `events` with, one for each.
pub open spec fn run<T>(call: Call, events: Seq<EventView<T>>) -> Seq<ActionView<T>>
    decreases events.len(),
{
    if events.len() == 0 {
        Seq::empty()
    } else {
        let (then, action) = next(call, events[0]);
        seq![action] + run(then, events.drop_first())
    }
}

/// All the actions of a call: the one it begins with, and those that answer `events`.
pub open spec fn actions_of<T>(
    config: ClientConfigurationView,
    descriptor: EndpointDescriptorView,
    events: Seq<EventView<T>>,
) -> Seq<ActionView<T>> {
    let (then, action) = first::<T>(config, descriptor);
    seq![action] + run(then, events)
}

/// How many of the actions hand a request to the transport.
pub open spec fn sends<T>(actions: Seq<ActionView<T>>) -> nat
    decreases actions.len(),
{
    if actions.len() == 0 {
        0
    } else if actions.last() is Send {
        sends(actions.drop_last()) + 1
    } else {
        sends(actions.drop_last())
    }
}

/// How many of the actions give the caller a result.
pub open spec fn results<T>(actions: Seq<ActionView<T>>) -> nat
    decreases actions.len(),
{
    if actions.len() == 0 {
        0
    } else if actions.last() is Return {
        results(actions.drop_last()) + 1
    } else {
        results(actions.drop_last())
    }
}

/// The count of requests in actions put one after the other is the sum of the counts.
pub proof fn lemma_sends_concat<T>(a: Seq<ActionView<T>>, b: Seq<ActionView<T>>)
    ensures
        sends(a + b) == sends(a) + sends(b),
    decreases b.len(),
{
    if b.len() == 0 {
        assert(a + b =~= a);
    } else {
        lemma_sends_concat(a, b.drop_last());
        assert((a + b).drop_last() =~= a + b.drop_last());
        assert((a + b).last() == b.last());
    }
}

/// The count of results in actions put one after the other is the sum of the counts.
pub proof fn lemma_results_concat<T>(a: Seq<ActionView<T>>, b: Seq<ActionView<T>>)
    ensures
        results(a + b) == results(a) + results(b),
    decreases b.len(),
{
    if b.len() == 0 {
        assert(a + b =~= a);
    } else {
        lemma_results_concat(a, b.drop_last());
        assert((a + b).drop_last() =~= a + b.drop_last());
        assert((a + b).last() == b.last());
    }
}

/// What one action counts for.
pub proof fn lemma_count_single<T>(action: ActionView<T>)
    ensures
        sends(seq![action]) == if action is Send {
            1nat
        } else {
            0nat
        },
        results(seq![action]) == if action is Return {
            1nat
        } else {
            0nat
        },
{
    let one = seq![action];
    assert(one.drop_last() =~= Seq::<ActionView<T>>::empty());
    assert(sends(Seq::<ActionView<T>>::empty()) == 0);
    assert(results(Seq::<ActionView<T>>::empty()) == 0);
    assert(one.last() == action);
}

/// Once a call is under way it sends nothing more, whatever happens to it, and it
/// gives a result once at most, and none once it has ended.
pub proof fn lemma_run_sends_nothing<T>(call: Call, events: Seq<EventView<T>>)
    ensures
        sends(run(call, events)) == 0,
        results(run(call, events)) <= 1,
        call is Done ==> results(run(call, events)) == 0,
    decreases events.len(),
{
    if events.len() > 0 {
        let (then, action) = next(call, events[0]);
        lemma_run_sends_nothing(then, events.drop_first());
        lemma_sends_concat(seq![action], run(then, events.drop_first()));
        lemma_results_concat(seq![action], run(then, events.drop_first()));
        lemma_count_single(action);
        assert(action is Return ==> then is Done);
    }
}

/// A call is one round trip. Whatever it meets, a call whose descriptor is complete
/// hands the transport one request, the one it begins with; no response or failure
/// makes it send again. A call whose descriptor is not complete begins with a
/// `ValidationError` and hands the transport nothing. Neither gives the caller more
/// than one result.
pub proof fn lemma_one_request<T>(
    config: ClientConfigurationView,
    descriptor: EndpointDescriptorView,
    events: Seq<EventView<T>>,
)
    ensures
        descriptor.is_complete() ==> sends(actions_of(config, descriptor, events)) == 1,
        descriptor.is_complete() ==> actions_of(config, descriptor, events)[0]
            == ActionView::<T>::Send(request_of(config, descriptor)->Ok_0),
        !descriptor.is_complete() ==> sends(actions_of(config, descriptor, events)) == 0,
        !descriptor.is_complete() ==> actions_of(config, descriptor, events)[0]
            == ActionView::<T>::Return(
            Err(
                ClientErrorView::ValidationError {
                    message: resolved(descriptor.path, descriptor.fields)->Err_0,
                },
            ),
        ),
        results(actions_of(config, descriptor, events)) <= 1,
{
    let (then, action) = first::<T>(config, descriptor);
    lemma_run_sends_nothing(then, events);
    lemma_sends_concat(seq![action], run(then, events));
    lemma_results_concat(seq![action], run(then, events));
    lemma_count_single(action);
}

/// A response whose status is outside the success range ends the call with an
/// `APIError` that holds that status and the body, whatever the status is: none is
/// turned into an absent result.
pub proof fn lemma_failure_status_is_api_error<T>(response: HttpResponseView)
    requires
        !is_success(response.status),
    ensures
        next::<T>(Call::Awaiting, EventView::Response(response)) == (
            Call::Done,
            ActionView::<T>::Return(
                Err(
                    ClientErrorView::APIError {
                        status: response.status,
                        message: error_text(response.body),
                        body: response.body,
                    },
                ),
            ),
        ),
{
}

/// A failure of the transport ends the call with a `ConnectionError` that holds its
/// message.
pub proof fn lemma_transport_failure_is_connection_error<T>(message: Seq<char>)
    ensures
        next::<T>(Call::Awaiting, EventView::TransportFailure(message)) == (
            Call::Done,
            ActionView::<T>::Return(Err(ClientErrorView::ConnectionError { message })),
        ),
{
}

/// The envelope of a call that succeeds holds the index that the server sent, as the
/// server sent it, and the payload as it was decoded.
pub proof fn lemma_index_handed_back<T>(response: HttpResponseView, payload: T)
    requires
        verdict_of(response) is Ok,
    ensures
        ({
            let (decoding, decode) = next::<T>(Call::Awaiting, EventView::Response(response));
            let (done, give) = next::<T>(decoding, EventView::Decoded(payload));
            &&& decode == ActionView::<T>::Decode(response.body)
            &&& done == Call::Done
            &&& give is Return
            &&& give->Return_0 is Ok
            &&& give->Return_0->Ok_0.payload == payload
            &&& give->Return_0->Ok_0.status == response.status
            &&& Ok::<Option<u64>, Seq<char>>(give->Return_0->Ok_0.index)
                == number_of(response.headers, index_header())
        }),
{
}

/// Two blocking calls in a row. Where the server answers the first with the index `n`,
/// the caller finds `n` in the envelope; and where the second call names the index of
/// that envelope, the one request that it sends asks for `index` with the numeral of
/// `n`.
pub proof fn lemma_blocking_calls_chain<T>(
    config: ClientConfigurationView,
    response: HttpResponseView,
    payload: T,
    then: EndpointDescriptorView,
    n: u64,
)
    requires
        verdict_of(response) is Ok,
        header_value(response.headers, index_header()) == Some(decimal(n as nat)),
        then.options.index == next::<T>(
            next::<T>(Call::Awaiting, EventView::Response(response)).0,
            EventView::Decoded(payload),
        ).1->Return_0->Ok_0.index,
    ensures
        next::<T>(
            next::<T>(Call::Awaiting, EventView::Response(response)).0,
            EventView::Decoded(payload),
        ).1->Return_0->Ok_0.index == Some(n),
        query_items(config, then).contains(
            QueryItemView { key: index_key(), value: Some(decimal(n as nat)) },
        ),
{
    lemma_parse_decimal_of_decimal(n);
    lemma_index_handed_back(response, payload);
    lemma_index_sent(config, then, n);
}

} // verus!
