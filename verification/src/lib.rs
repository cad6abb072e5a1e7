//! # consulrs
//!
//! The core of a typed client for the [Hashicorp Consul][1] HTTP API: what a call
//! puts on the wire, and what it makes of the answer.
//!
//! The library does no I/O. It decides, and leaves sending and decoding to whoever
//! drives a call:
//!
//! * a request, or a [`RequestBuilder`](api::endpoint::RequestBuilder), describes a
//!   call as an [`EndpointDescriptor`](api::endpoint::EndpointDescriptor);
//! * [`begin`](api::engine::begin) turns the descriptor and the
//!   [`ClientConfiguration`](client::ClientConfiguration) into the one request of the
//!   call, or refuses it with a `ValidationError`;
//! * [`step`](api::engine::step) takes what the transport and the decoder report and
//!   ends the call with a [`ResponseEnvelope`](api::response::ResponseEnvelope) or a
//!   [`ClientError`](error::ClientError).
//!
//! A call is one round trip. A blocking query hands the caller the index that the
//! server sent, and the caller decides whether to ask again.
//!
//! ## Usage
//!
//! ```ignore
//! use consulrs::api::engine::{step, Action, Event};
//! use consulrs::client::ClientConfiguration;
//! use consulrs::configuration;
//!
//! let client = ClientConfiguration::new("https://127.0.0.1:8200").unwrap();
//! let (mut call, mut action) = configuration::read(&client, None);
//! let result = loop {
//!     let event = match action {
//!         Action::Send(request) => match transport.send(request) {
//!             Ok(response) => Event::Response(response),
//!             Err(reason) => Event::TransportFailure(reason),
//!         },
//!         Action::Decode(body) => match decode(&body) {
//!             Ok(payload) => Event::Decoded(payload),
//!             Err(reason) => Event::DecodeFailure(reason),
//!         },
//!         Action::Return(result) => break result,
//!         Action::Nothing => unreachable!(),
//!     };
//!     (call, action) = step(call, event);
//! };
//! ```
//!
//! ## What is proved
//!
//! Every function states what it returns, and Verus proves that it does. Among the
//! theorems that the library states of itself:
//!
//! * a call sends one request, or none where its descriptor is not complete
//!   ([`lemma_one_request`](api::engine::lemma_one_request));
//! * a request that sets nothing of its query has no query
//!   ([`lemma_unset_query_is_empty`](api::request::lemma_unset_query_is_empty));
//! * without an index no wait is sent
//!   ([`lemma_wait_needs_index`](api::request::lemma_wait_needs_index));
//! * the index that the server sent is the index that the next blocking query asks
//!   with ([`lemma_blocking_calls_chain`](api::engine::lemma_blocking_calls_chain)).
//!
//! [1]: https://www.consul.io/

pub mod api;
pub mod client;
pub mod configuration;
pub mod error;
pub mod escape;
pub mod text;
