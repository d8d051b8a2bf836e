use jsonrpc_runtime::server::{collect_batch_response, send_error, send_response};
use jsonrpc_runtime::v2::error::{JsonRpcErrorCode, JsonRpcErrorObject};

#[test]
fn batch_response_wraps_in_brackets() {
    let responses = vec!["1".to_string(), "2".to_string()];
    assert_eq!(collect_batch_response(&responses), "[1,2]");
}

#[test]
fn empty_batch_response_is_empty_array() {
    let responses: Vec<String> = Vec::new();
    assert_eq!(collect_batch_response(&responses), "[]");
}

#[test]
fn response_is_framed() {
    let mut tx: Vec<String> = Vec::new();
    send_response(Some("7"), &mut tx, Ok("\"hello\"".to_string()));
    assert_eq!(tx, vec![r#"{"jsonrpc":"2.0","result":"hello","id":7}"#.to_string()]);
}

#[test]
fn error_is_framed() {
    let mut tx: Vec<String> = Vec::new();
    send_error(None, &mut tx, JsonRpcErrorObject::from(JsonRpcErrorCode::MethodNotFound));
    assert_eq!(
        tx,
        vec![r#"{"jsonrpc":"2.0","error":{"code":-32601,"message":"Method not found"},"id":null}"#
            .to_string()]
    );
}
