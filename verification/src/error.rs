//! The errors that a call can end in.

use vstd::prelude::*;
use crate::text::decimal;
use crate::text::push_decimal;

verus! {

/// Why a call did not give a response.
#[derive(Debug, PartialEq, Eq)]
pub enum ClientError {
    /// The request was malformed or incomplete. It was never sent.
    ValidationError { message: String },
    /// The transport could not complete the exchange.
    ConnectionError { message: String },
    /// The server answered with a status outside the success range. `message` is the
    /// body read as text, empty where it is no text; `body` is the body as it came.
    APIError { status: u16, message: String, body: Vec<u8> },
    /// The server reported success, but what it sent could not be read.
    ResponseError { message: String },
}

/// A `ClientError` with its texts as sequences.
pub enum ClientErrorView {
    ValidationError { message: Seq<char> },
    ConnectionError { message: Seq<char> },
    APIError { status: u16, message: Seq<char>, body: Seq<u8> },
    ResponseError { message: Seq<char> },
}

impl View for ClientError {
    type V = ClientErrorView;

    open spec fn view(&self) -> ClientErrorView {
        match self {
            ClientError::ValidationError { message } => ClientErrorView::ValidationError {
                message: message@,
            },
            ClientError::ConnectionError { message } => ClientErrorView::ConnectionError {
                message: message@,
            },
            ClientError::APIError { status, message, body } => ClientErrorView::APIError {
                status: *status,
                message: message@,
                body: body@,
            },
            ClientError::ResponseError { message } => ClientErrorView::ResponseError {
                message: message@,
            },
        }
    }
}

impl ClientErrorView {
    /// The status that the server answered with, where the error is an `APIError`.
    pub open spec fn status(self) -> Option<u16> {
        match self {
            ClientErrorView::APIError { status, .. } => Some(status),
            _ => None,
        }
    }

    /// The error in a line of text: what kind it is, the status where it has one in
    /// decimal, and its message.
    pub open spec fn description(self) -> Seq<char> {
        match self {
            ClientErrorView::ValidationError { message } => "invalid request: "@ + message,
            ClientErrorView::ConnectionError { message } => "connection failed: "@ + message,
            ClientErrorView::APIError { status, message, .. } => "the server returned status "@
                + decimal(status as nat) + ": "@ + message,
            ClientErrorView::ResponseError { message } => "unreadable response: "@ + message,
        }
    }
}

impl ClientError {
    /// The status that the server answered with, where the error is an `APIError`. A
    /// caller that takes a 404 for an absent value asks here.
    pub fn status(&self) -> (r: Option<u16>)
        ensures
            r == self@.status(),
    {
        match self {
            ClientError::APIError { status, .. } => Some(*status),
            _ => None,
        }
    }

    /// Describes the error in a line of text.
    pub fn describe(&self) -> (r: String)
        ensures
            r@ == self@.description(),
    {
        match self {
            ClientError::ValidationError { message } => {
                let mut out = String::from_str("invalid request: ");
                out.append(message.as_str());
                out
            },
            ClientError::ConnectionError { message } => {
                let mut out = String::from_str("connection failed: ");
                out.append(message.as_str());
                out
            },
            ClientError::APIError { status, message, .. } => {
                let mut out = String::from_str("the server returned status ");
                push_decimal(&mut out, *status as u64);
                out.append(": ");
                out.append(message.as_str());
                out
            },
            ClientError::ResponseError { message } => {
                let mut out = String::from_str("unreadable response: ");
                out.append(message.as_str());
                out
            },
        }
    }
}

} // verus!
