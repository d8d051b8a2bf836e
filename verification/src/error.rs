//! The errors of the runtime.

use crate::v2::error::{ErrorResponseView, JsonRpcErrorAlloc};
use vstd::prelude::*;
use vstd::std_specs::convert::FromSpecImpl;
use vstd::string::*;

verus! {

#[verifier::external_type_specification]
#[verifier::external_body]
pub struct ExSendError(futures_channel::mpsc::SendError);

/// An expected value beside the value that came.
#[derive(Clone, Debug, PartialEq)]
pub struct Mismatch<T> {
    /// Expected value.
    pub expected: T,
    /// Actual value.
    pub got: T,
}

impl Mismatch<String> {
    /// The text that shows the mismatch to a reader.
    pub open spec fn message_text(self) -> Seq<char> {
        "Expected: "@ + self.expected@ + ", Got: "@ + self.got@
    }

    /// The text that shows the mismatch to a reader.
    pub fn message(&self) -> (r: String)
        ensures
            r@ == self.message_text(),
    {
        let mut r = String::from_str("Expected: ");
        r.append(self.expected.as_str());
        r.append(", Got: ");
        r.append(self.got.as_str());
        r
    }
}

/// Invalid params.
#[derive(Debug)]
pub struct InvalidParams;

/// What a call error says.
pub ghost enum CallErrorView {
    InvalidParams,
    Failed(Seq<char>),
}

/// Error that occurs when a call failed.
#[derive(Debug)]
pub enum CallError {
    /// Invalid params in the call.
    InvalidParams,
    /// The call failed, with the cause in words.
    Failed(String),
}

impl View for CallError {
    type V = CallErrorView;

    open spec fn view(&self) -> CallErrorView {
        match self {
            CallError::InvalidParams => CallErrorView::InvalidParams,
            CallError::Failed(cause) => CallErrorView::Failed(cause@),
        }
    }
}

impl From<InvalidParams> for CallError {
    fn from(_params: InvalidParams) -> (r: CallError) {
        CallError::InvalidParams
    }
}

impl FromSpecImpl<InvalidParams> for CallError {
    open spec fn obeys_from_spec() -> bool {
        true
    }

    open spec fn from_spec(_params: InvalidParams) -> CallError {
        CallError::InvalidParams
    }
}

/// What an error says. Texts stand for strings; the error of the command
/// channel stands for itself.
pub ghost enum ErrorView {
    Call(CallErrorView),
    Transport(Seq<char>),
    Request(ErrorResponseView),
    Internal(futures_channel::mpsc::SendError),
    InvalidResponse(Seq<char>, Seq<char>),
    RestartNeeded(Seq<char>),
    ParseError(Seq<char>),
    InvalidSubscriptionId,
    InvalidRequestId,
    DuplicateRequestId,
    MethodAlreadyRegistered(Seq<char>),
    SubscriptionNameConflict(Seq<char>),
    RequestTimeout,
    MaxSlotsExceeded,
    Custom(Seq<char>),
}

/// Error type.
#[derive(Debug)]
pub enum Error {
    /// Error that occurs when a call failed.
    Call(CallError),
    /// Networking error or error on the low-level protocol layer, in words.
    Transport(String),
    /// JSON-RPC request error.
    Request(JsonRpcErrorAlloc),
    /// Frontend/backend channel error.
    Internal(futures_channel::mpsc::SendError),
    /// Invalid response.
    InvalidResponse(Mismatch<String>),
    /// The background task has been terminated.
    RestartNeeded(String),
    /// Failed to parse or to write the data, in the codec's words.
    ParseError(String),
    /// Invalid subscription ID.
    InvalidSubscriptionId,
    /// Invalid request ID.
    InvalidRequestId,
    /// A request with the same request ID has already been registered.
    DuplicateRequestId,
    /// Method was already registered.
    MethodAlreadyRegistered(String),
    /// Subscribe and unsubscribe method names are the same.
    SubscriptionNameConflict(String),
    /// Request timeout.
    RequestTimeout,
    /// Configured max number of request slots exceeded.
    MaxSlotsExceeded,
    /// Custom error.
    Custom(String),
}

impl View for Error {
    type V = ErrorView;

    open spec fn view(&self) -> ErrorView {
        match self {
            Error::Call(e) => ErrorView::Call(e@),
            Error::Transport(cause) => ErrorView::Transport(cause@),
            Error::Request(e) => ErrorView::Request(e@),
            Error::Internal(e) => ErrorView::Internal(*e),
            Error::InvalidResponse(m) => ErrorView::InvalidResponse(m.expected@, m.got@),
            Error::RestartNeeded(reason) => ErrorView::RestartNeeded(reason@),
            Error::ParseError(cause) => ErrorView::ParseError(cause@),
            Error::InvalidSubscriptionId => ErrorView::InvalidSubscriptionId,
            Error::InvalidRequestId => ErrorView::InvalidRequestId,
            Error::DuplicateRequestId => ErrorView::DuplicateRequestId,
            Error::MethodAlreadyRegistered(name) => ErrorView::MethodAlreadyRegistered(name@),
            Error::SubscriptionNameConflict(name) => ErrorView::SubscriptionNameConflict(name@),
            Error::RequestTimeout => ErrorView::RequestTimeout,
            Error::MaxSlotsExceeded => ErrorView::MaxSlotsExceeded,
            Error::Custom(text) => ErrorView::Custom(text@),
        }
    }
}

/// Generic transport error.
#[derive(Debug)]
pub enum GenericTransportError<T> {
    /// Request was too large.
    TooLarge,
    /// Concrete transport error.
    Inner(T),
}

} // verus!
