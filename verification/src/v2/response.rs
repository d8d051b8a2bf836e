//! The frames that a server sends: responses and error responses.

use crate::json::{json_quoted, quote};
use crate::text::{signed_decimal, signed_decimal_text};
use crate::v2::error::{ErrorObjectView, JsonRpcErrorObject};
use vstd::prelude::*;
use vstd::string::*;

verus! {

/// The id of a request as the peer wrote it, or `None` where it gave none.
pub type RpcId<'a> = Option<&'a str>;

/// The text of the `id` field of an answer: the request's own id as it came,
/// or `null` where there was none.
pub open spec fn id_text(id: Option<Seq<char>>) -> Seq<char> {
    match id {
        Some(t) => t,
        None => "null"@,
    }
}

/// The response frame for a result, given as JSON text, and an id.
pub open spec fn response_text(result: Seq<char>, id: Option<Seq<char>>) -> Seq<char> {
    "{\"jsonrpc\":\"2.0\",\"result\":"@ + result + ",\"id\":"@ + id_text(id) + "}"@
}

/// Whether an error object can be written: the codec has a literal for its
/// message. Every function that writes an error object states that it can.
pub open spec fn error_writable(error: ErrorObjectView) -> bool {
    json_quoted(error.message) is Some
}

/// An error object as it stands on the wire. The `data` field is left out
/// where the object has none.
pub open spec fn error_object_text(error: ErrorObjectView) -> Seq<char> {
    "{\"code\":"@ + signed_decimal_text(error.code.spec_code()) + ",\"message\":"@ + json_quoted(
        error.message,
    ).unwrap() + match error.data {
        Some(d) => ",\"data\":"@ + d,
        None => Seq::empty(),
    } + "}"@
}

/// The error frame for an error object and an id.
pub open spec fn error_text(error: ErrorObjectView, id: Option<Seq<char>>) -> Seq<char> {
    "{\"jsonrpc\":\"2.0\",\"error\":"@ + error_object_text(error) + ",\"id\":"@ + id_text(id)
        + "}"@
}

/// The view of an id that may be absent.
pub open spec fn id_view(id: RpcId) -> Option<Seq<char>> {
    match id {
        Some(t) => Some(t@),
        None => None,
    }
}

fn write_id(id: RpcId) -> (r: String)
    ensures
        r@ == id_text(id_view(id)),
{
    match id {
        Some(t) => String::from_str(t),
        None => String::from_str("null"),
    }
}

/// Writes the response frame for a result, given as JSON text, and an id.
pub fn response_frame(id: RpcId, result: &str) -> (r: String)
    ensures
        r@ == response_text(result@, id_view(id)),
{
    let mut t = String::from_str("{\"jsonrpc\":\"2.0\",\"result\":");
    t.append(result);
    t.append(",\"id\":");
    let echo = write_id(id);
    t.append(echo.as_str());
    t.append("}");
    t
}

/// Writes the error frame for an error object and an id. The codec has a
/// literal for every message, so the frame is always written; the `Result`
/// is the codec's.
pub fn error_frame(id: RpcId, error: &JsonRpcErrorObject) -> (r: Result<String, String>)
    ensures
        r is Ok,
        match r {
            Ok(t) => error_writable(error@) && t@ == error_text(error@, id_view(id)),
            Err(_) => !error_writable(error@),
        },
{
    let message = match quote(error.message.as_str()) {
        Ok(message) => message,
        Err(e) => {
            return Err(e);
        },
    };
    let mut object = String::from_str("{\"code\":");
    let numeral = signed_decimal(error.code.code());
    object.append(numeral.as_str());
    object.append(",\"message\":");
    object.append(message.as_str());
    match &error.data {
        Some(d) => {
            let mut field = String::from_str(",\"data\":");
            field.append(d.as_str());
            object.append(field.as_str());
        },
        None => {
            assert(object@ + Seq::<char>::empty() == object@);
        },
    }
    object.append("}");
    let mut t = String::from_str("{\"jsonrpc\":\"2.0\",\"error\":");
    t.append(object.as_str());
    t.append(",\"id\":");
    let echo = write_id(id);
    t.append(echo.as_str());
    t.append("}");
    Ok(t)
}

} // verus!
