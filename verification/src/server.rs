//! What a server decides: which handler a request goes to, and the frames
//! that answer it.

pub mod dispatch;
pub mod methods;

use crate::error::{CallError, CallErrorView};
use crate::text::{join, joined, texts};
use crate::v2::error::{
    ErrorObjectView, JsonRpcErrorCode, JsonRpcErrorObject, CALL_EXECUTION_FAILED_CODE,
};
use crate::v2::response::{
    error_frame, error_text, error_writable, id_view, response_frame, response_text, RpcId,
};
use vstd::prelude::*;
use vstd::string::*;

verus! {

/// Connection ID.
pub type ConnectionId = usize;

/// The frames that wait to be written to a connection, oldest first.
pub type RpcSender = Vec<String>;

/// The frame that answers a request with an error, or `None` where the
/// error object cannot be written and nothing is sent. `send_error` states
/// that there is one.
pub open spec fn error_sent(id: Option<Seq<char>>, error: ErrorObjectView) -> Option<Seq<char>> {
    if error_writable(error) {
        Some(error_text(error, id))
    } else {
        None
    }
}

/// The frame that answers a request whose result was written as JSON text,
/// or could not be: then the answer is an internal error under the same id.
pub open spec fn response_sent(id: Option<Seq<char>>, result: Result<Seq<char>, Seq<char>>) -> Option<
    Seq<char>,
> {
    match result {
        Ok(json) => Some(response_text(json, id)),
        Err(_) => error_sent(id, JsonRpcErrorObject::spec_from_code(JsonRpcErrorCode::InternalError)),
    }
}

/// A queue after one more frame, where there is one.
pub open spec fn enqueued(queue: Seq<Seq<char>>, frame: Option<Seq<char>>) -> Seq<Seq<char>> {
    match frame {
        Some(f) => queue.push(f),
        None => queue,
    }
}

/// The view of the outcome of writing a result as JSON text.
pub open spec fn written_view(result: Result<String, String>) -> Result<Seq<char>, Seq<char>> {
    match result {
        Ok(json) => Ok(json@),
        Err(cause) => Err(cause@),
    }
}

/// Helper for sending JSON-RPC responses to the client. `result` is the
/// outcome of writing the method's result as JSON text. Where that failed,
/// an internal error is sent under the same id in its place. Either way one
/// frame is sent.
pub fn send_response(id: RpcId, tx: &mut RpcSender, result: Result<String, String>)
    ensures
        response_sent(id_view(id), written_view(result)) is Some,
        texts(final(tx)@) == enqueued(
            texts(old(tx)@),
            response_sent(id_view(id), written_view(result)),
        ),
{
    match result {
        Ok(json) => {
            let frame = response_frame(id, json.as_str());
            tx.push(frame);
            assert(texts(tx@) =~= texts(old(tx)@).push(frame@));
        },
        Err(_) => {
            send_error(id, tx, JsonRpcErrorObject::from(JsonRpcErrorCode::InternalError));
        },
    }
}

/// Helper for sending JSON-RPC errors to the client. Were the error object
/// not written, nothing would be sent; it is always written, so one frame is
/// sent.
pub fn send_error(id: RpcId, tx: &mut RpcSender, error: JsonRpcErrorObject)
    ensures
        error_sent(id_view(id), error@) is Some,
        texts(final(tx)@) == enqueued(texts(old(tx)@), error_sent(id_view(id), error@)),
{
    match error_frame(id, &error) {
        Ok(frame) => {
            tx.push(frame);
            assert(texts(tx@) =~= texts(old(tx)@).push(frame@));
        },
        Err(_) => {
            assert(texts(tx@) =~= texts(old(tx)@));
        },
    }
}

/// The error object that answers a call whose handler failed: invalid
/// params as the protocol names them; any other failure under the code for
/// failed calls, with the cause as its message.
pub open spec fn call_error_object(error: CallErrorView) -> ErrorObjectView {
    match error {
        CallErrorView::InvalidParams => JsonRpcErrorObject::spec_from_code(
            JsonRpcErrorCode::InvalidParams,
        ),
        CallErrorView::Failed(cause) => ErrorObjectView {
            code: JsonRpcErrorCode::ServerError(CALL_EXECUTION_FAILED_CODE),
            message: cause,
            data: None,
        },
    }
}

/// The view of what a handler returned: its result as JSON text, the
/// failure to write the result, or the failure of the call.
pub open spec fn outcome_view(outcome: Result<Result<String, String>, CallError>) -> Result<
    Result<Seq<char>, Seq<char>>,
    CallErrorView,
> {
    match outcome {
        Ok(result) => Ok(written_view(result)),
        Err(error) => Err(error@),
    }
}

/// The frame that answers a call after its handler returned.
pub open spec fn outcome_sent(
    id: Option<Seq<char>>,
    outcome: Result<Result<Seq<char>, Seq<char>>, CallErrorView>,
) -> Option<Seq<char>> {
    match outcome {
        Ok(result) => response_sent(id, result),
        Err(error) => error_sent(id, call_error_object(error)),
    }
}

/// Answers a call after its handler returned: with the result, or with the
/// error object that stands for the failure of the call. Either way one
/// frame is sent.
pub fn send_outcome(id: RpcId, tx: &mut RpcSender, outcome: Result<Result<String, String>, CallError>)
    ensures
        outcome_sent(id_view(id), outcome_view(outcome)) is Some,
        texts(final(tx)@) == enqueued(
            texts(old(tx)@),
            outcome_sent(id_view(id), outcome_view(outcome)),
        ),
{
    match outcome {
        Ok(result) => send_response(id, tx, result),
        Err(CallError::InvalidParams) => send_error(
            id,
            tx,
            JsonRpcErrorObject::from(JsonRpcErrorCode::InvalidParams),
        ),
        Err(CallError::Failed(cause)) => send_error(
            id,
            tx,
            JsonRpcErrorObject {
                code: JsonRpcErrorCode::ServerError(CALL_EXECUTION_FAILED_CODE),
                message: cause,
                data: None,
            },
        ),
    }
}

/// The one frame that answers a batch: a JSON array of the given responses
/// in their order, and `[]` where there is none.
pub open spec fn batch_response_text(responses: Seq<Seq<char>>) -> Seq<char> {
    "["@ + joined(responses, ","@) + "]"@
}

/// Formats the results of all method calls of a batch request into a
/// single `String`, wrapped in `[` and `]`.
pub fn collect_batch_response(responses: &Vec<String>) -> (r: String)
    ensures
        r@ == batch_response_text(texts(responses@)),
{
    let mut buf = String::from_str("[");
    let body = join(responses, ",");
    buf.append(body.as_str());
    buf.append("]");
    buf
}

} // verus!
