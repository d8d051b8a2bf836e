//! Error codes and error objects as they travel on the wire.

use vstd::prelude::*;
use vstd::std_specs::convert::FromSpecImpl;
use vstd::string::*;

verus! {

/// Parse error code.
pub const PARSE_ERROR_CODE: i32 = -32700;

/// Invalid request code.
pub const INVALID_REQUEST_CODE: i32 = -32600;

/// Method not found code.
pub const METHOD_NOT_FOUND_CODE: i32 = -32601;

/// Invalid params code.
pub const INVALID_PARAMS_CODE: i32 = -32602;

/// Internal error code.
pub const INTERNAL_ERROR_CODE: i32 = -32603;

/// The code of the error that answers a call whose handler failed.
pub const CALL_EXECUTION_FAILED_CODE: i32 = -32000;

/// A JSON-RPC error code: one of the five that the protocol defines, or any
/// other number, which passes through as it came.
#[derive(Clone, Copy, Debug, PartialEq, Eq, Structural)]
pub enum JsonRpcErrorCode {
    /// Invalid JSON was received by the server.
    ParseError,
    /// The JSON sent is not a valid request object.
    InvalidRequest,
    /// The method does not exist or is not available.
    MethodNotFound,
    /// Invalid method parameters.
    InvalidParams,
    /// Internal JSON-RPC error.
    InternalError,
    /// A code outside the five above.
    ServerError(i32),
}

impl JsonRpcErrorCode {
    /// The number that stands for the code on the wire.
    pub open spec fn spec_code(self) -> int {
        match self {
            JsonRpcErrorCode::ParseError => PARSE_ERROR_CODE as int,
            JsonRpcErrorCode::InvalidRequest => INVALID_REQUEST_CODE as int,
            JsonRpcErrorCode::MethodNotFound => METHOD_NOT_FOUND_CODE as int,
            JsonRpcErrorCode::InvalidParams => INVALID_PARAMS_CODE as int,
            JsonRpcErrorCode::InternalError => INTERNAL_ERROR_CODE as int,
            JsonRpcErrorCode::ServerError(code) => code as int,
        }
    }

    /// The code that a number on the wire stands for.
    pub open spec fn spec_from_code(code: int) -> JsonRpcErrorCode {
        if code == PARSE_ERROR_CODE {
            JsonRpcErrorCode::ParseError
        } else if code == INVALID_REQUEST_CODE {
            JsonRpcErrorCode::InvalidRequest
        } else if code == METHOD_NOT_FOUND_CODE {
            JsonRpcErrorCode::MethodNotFound
        } else if code == INVALID_PARAMS_CODE {
            JsonRpcErrorCode::InvalidParams
        } else if code == INTERNAL_ERROR_CODE {
            JsonRpcErrorCode::InternalError
        } else {
            JsonRpcErrorCode::ServerError(code as i32)
        }
    }

    /// The message that goes with the code by default.
    pub open spec fn spec_message(self) -> Seq<char> {
        match self {
            JsonRpcErrorCode::ParseError => "Parse error"@,
            JsonRpcErrorCode::InvalidRequest => "Invalid request"@,
            JsonRpcErrorCode::MethodNotFound => "Method not found"@,
            JsonRpcErrorCode::InvalidParams => "Invalid params"@,
            JsonRpcErrorCode::InternalError => "Internal error"@,
            JsonRpcErrorCode::ServerError(_) => "Server error"@,
        }
    }

    /// The number that stands for the code on the wire.
    pub fn code(&self) -> (c: i32)
        ensures
            c == self.spec_code(),
    {
        match self {
            JsonRpcErrorCode::ParseError => PARSE_ERROR_CODE,
            JsonRpcErrorCode::InvalidRequest => INVALID_REQUEST_CODE,
            JsonRpcErrorCode::MethodNotFound => METHOD_NOT_FOUND_CODE,
            JsonRpcErrorCode::InvalidParams => INVALID_PARAMS_CODE,
            JsonRpcErrorCode::InternalError => INTERNAL_ERROR_CODE,
            JsonRpcErrorCode::ServerError(code) => *code,
        }
    }

    /// The message that goes with the code by default.
    pub fn message(&self) -> (m: &'static str)
        ensures
            m@ == self.spec_message(),
    {
        match self {
            JsonRpcErrorCode::ParseError => "Parse error",
            JsonRpcErrorCode::InvalidRequest => "Invalid request",
            JsonRpcErrorCode::MethodNotFound => "Method not found",
            JsonRpcErrorCode::InvalidParams => "Invalid params",
            JsonRpcErrorCode::InternalError => "Internal error",
            JsonRpcErrorCode::ServerError(_) => "Server error",
        }
    }
}

impl From<i32> for JsonRpcErrorCode {
    fn from(code: i32) -> (r: JsonRpcErrorCode) {
        if code == PARSE_ERROR_CODE {
            JsonRpcErrorCode::ParseError
        } else if code == INVALID_REQUEST_CODE {
            JsonRpcErrorCode::InvalidRequest
        } else if code == METHOD_NOT_FOUND_CODE {
            JsonRpcErrorCode::MethodNotFound
        } else if code == INVALID_PARAMS_CODE {
            JsonRpcErrorCode::InvalidParams
        } else if code == INTERNAL_ERROR_CODE {
            JsonRpcErrorCode::InternalError
        } else {
            JsonRpcErrorCode::ServerError(code)
        }
    }
}

impl FromSpecImpl<i32> for JsonRpcErrorCode {
    open spec fn obeys_from_spec() -> bool {
        true
    }

    open spec fn from_spec(code: i32) -> JsonRpcErrorCode {
        JsonRpcErrorCode::spec_from_code(code as int)
    }
}

/// A code read from the wire stands for the number that was read, and a
/// code that came from a number is the one that number gives again.
pub proof fn lemma_code_round_trip(code: i32)
    ensures
        JsonRpcErrorCode::spec_from_code(code as int).spec_code() == code,
        JsonRpcErrorCode::spec_from_code(
            JsonRpcErrorCode::spec_from_code(code as int).spec_code(),
        ) == JsonRpcErrorCode::spec_from_code(code as int),
{
}

/// What an error object says: its code, its message, and the text of its
/// data where it has any.
pub ghost struct ErrorObjectView {
    pub code: JsonRpcErrorCode,
    pub message: Seq<char>,
    pub data: Option<Seq<char>>,
}

/// A JSON-RPC error object.
#[derive(Clone, Debug, PartialEq)]
pub struct JsonRpcErrorObject {
    /// Code.
    pub code: JsonRpcErrorCode,
    /// Message.
    pub message: String,
    /// Optional data, as JSON text.
    pub data: Option<String>,
}

/// An error object that owns its message and data.
pub type JsonRpcErrorObjectAlloc = JsonRpcErrorObject;

impl View for JsonRpcErrorObject {
    type V = ErrorObjectView;

    open spec fn view(&self) -> ErrorObjectView {
        ErrorObjectView {
            code: self.code,
            message: self.message@,
            data: match self.data {
                Some(d) => Some(d@),
                None => None,
            },
        }
    }
}

impl JsonRpcErrorObject {
    /// A copy with the same code, message and data.
    pub fn duplicate(&self) -> (r: JsonRpcErrorObject)
        ensures
            r@ == self@,
            r.code == self.code,
    {
        let data = match &self.data {
            Some(d) => Some(d.clone()),
            None => None,
        };
        JsonRpcErrorObject { code: self.code, message: self.message.clone(), data }
    }
}

impl JsonRpcErrorObject {
    /// What the error object of a bare code says: the code with its default
    /// message and no data.
    pub open spec fn spec_from_code(code: JsonRpcErrorCode) -> ErrorObjectView {
        ErrorObjectView { code, message: code.spec_message(), data: None }
    }
}

impl From<JsonRpcErrorCode> for JsonRpcErrorObject {
    fn from(code: JsonRpcErrorCode) -> (r: JsonRpcErrorObject)
        ensures
            r@ == JsonRpcErrorObject::spec_from_code(code),
            r.code == code,
    {
        JsonRpcErrorObject { code, message: String::from_str(code.message()), data: None }
    }
}

impl FromSpecImpl<JsonRpcErrorCode> for JsonRpcErrorObject {
    open spec fn obeys_from_spec() -> bool {
        false
    }

    open spec fn from_spec(code: JsonRpcErrorCode) -> JsonRpcErrorObject {
        arbitrary()
    }
}

/// What an error response says: its error object and the id it answers.
pub ghost struct ErrorResponseView {
    pub error: ErrorObjectView,
    pub id: u64,
}

/// An error response of a server: the error object and the id of the request
/// that it answers.
#[derive(Clone, Debug, PartialEq)]
pub struct JsonRpcErrorAlloc {
    /// Error object.
    pub error: JsonRpcErrorObject,
    /// Request id.
    pub id: u64,
}

impl View for JsonRpcErrorAlloc {
    type V = ErrorResponseView;

    open spec fn view(&self) -> ErrorResponseView {
        ErrorResponseView { error: self.error@, id: self.id }
    }
}

} // verus!
