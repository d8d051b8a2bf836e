use jsonrpc_runtime::client::background::Background;
use jsonrpc_runtime::client::effects::{Action, Answer};
use jsonrpc_runtime::error::Error;
use jsonrpc_runtime::v2::error::{JsonRpcErrorCode, JsonRpcErrorObjectAlloc};
use jsonrpc_runtime::v2::params::{JsonRpcParams, SubscriptionId};
use serde_json::Value as JsonValue;

const SUBSCRIPTION: &str = "D3wwzU6vvoUUYehv4qoFzq42DZnLoAETeFzeyk8swH4o";

fn ok_response(result: JsonValue, id: u64) -> String {
    format!(r#"{{"jsonrpc":"2.0","result":{},"id":{}}}"#, result, id)
}

fn error_response(code: i32, message: &str, id: u64) -> String {
    format!(
        r#"{{"jsonrpc":"2.0","error":{{"code":{},"message":"{}"}},"id":{}}}"#,
        code, message, id
    )
}

fn method_not_found(id: u64) -> String {
    error_response(-32601, "Method not found", id)
}

fn parse_error(id: u64) -> String {
    error_response(-32700, "Parse error", id)
}

fn invalid_request(id: u64) -> String {
    error_response(-32600, "Invalid request", id)
}

fn invalid_params(id: u64) -> String {
    error_response(-32602, "Invalid params", id)
}

fn internal_error(id: u64) -> String {
    error_response(-32603, "Internal error", id)
}

fn server_subscription_id_response(id: u64) -> String {
    format!(r#"{{"jsonrpc":"2.0","result":"{}","id":{}}}"#, SUBSCRIPTION, id)
}

fn server_subscription_response(result: JsonValue) -> String {
    format!(
        r#"{{"jsonrpc":"2.0","method":"bar","params":{{"subscription":"{}","result":{}}}}}"#,
        SUBSCRIPTION, result
    )
}

/// The one reply among the actions, which must be for the given id.
fn reply_for(actions: Vec<Action>, id: u64) -> Result<Answer, Error> {
    let mut found = None;
    for action in actions {
        match action {
            Action::Reply { id: to, result } if to == id => {
                assert!(found.is_none());
                found = Some(result);
            }
            _ => {}
        }
    }
    found.unwrap()
}

fn run_request_with_response(response: String) -> Result<JsonValue, Error> {
    let mut client = Background::new(256);
    let ticket = client.request("say_hello", &JsonRpcParams::NoParams).unwrap();
    assert_eq!(ticket.frame, r#"{"jsonrpc":"2.0","method":"say_hello","id":0}"#);
    let actions = client.handle_frame(&response);
    match reply_for(actions, ticket.id)? {
        Answer::Value(text) => Ok(serde_json::from_str(&text).unwrap()),
        other => panic!("expected a value, got: {:?}", other),
    }
}

fn run_batch_request_with_response(
    batch: Vec<(&str, JsonRpcParams)>,
    response: String,
) -> Result<Vec<String>, Error> {
    let mut client = Background::new(256);
    let calls: Vec<(String, JsonRpcParams)> =
        batch.into_iter().map(|(method, params)| (method.to_string(), params)).collect();
    let ticket = client.batch_request(&calls).unwrap();
    assert_eq!(ticket.ids, vec![0, 1, 2]);
    let actions = client.handle_frame(&response);
    match reply_for(actions, ticket.ids[0])? {
        Answer::Values(texts) => {
            Ok(texts.iter().map(|text| serde_json::from_str::<String>(text).unwrap()).collect())
        }
        other => panic!("expected values, got: {:?}", other),
    }
}

fn assert_error_response(error: Error, code: JsonRpcErrorObjectAlloc) {
    match &error {
        Error::Request(e) => assert_eq!(e.error, code),
        e => panic!("Expected error: \"{:?}\", got: {:?}", error, e),
    };
}

#[test]
fn method_call_works() {
    let result = run_request_with_response(ok_response("hello".into(), 0)).unwrap();
    assert_eq!(JsonValue::String("hello".into()), result);
}

#[test]
fn notif_works() {
    // no frame of the server is read: the server does not respond to notifications.
    let client = Background::new(256);
    let frame = client.notification("notif", &JsonRpcParams::NoParams);
    assert!(frame.is_ok());
    assert_eq!(frame.unwrap(), r#"{"jsonrpc":"2.0","method":"notif"}"#);
    assert_eq!(client.pending_len(), 0);
}

#[test]
fn response_with_wrong_id() {
    let err = run_request_with_response(ok_response("hello".into(), 99)).unwrap_err();
    assert!(matches!(err, Error::RestartNeeded(_)));
}

#[test]
fn response_method_not_found() {
    let err = run_request_with_response(method_not_found(0)).unwrap_err();
    assert_error_response(err, JsonRpcErrorCode::MethodNotFound.into());
}

#[test]
fn parse_error_works() {
    let err = run_request_with_response(parse_error(0)).unwrap_err();
    assert_error_response(err, JsonRpcErrorCode::ParseError.into());
}

#[test]
fn invalid_request_works() {
    let err = run_request_with_response(invalid_request(0_u64)).unwrap_err();
    assert_error_response(err, JsonRpcErrorCode::InvalidRequest.into());
}

#[test]
fn invalid_params_works() {
    let err = run_request_with_response(invalid_params(0_u64)).unwrap_err();
    assert_error_response(err, JsonRpcErrorCode::InvalidParams.into());
}

#[test]
fn internal_error_works() {
    let err = run_request_with_response(internal_error(0_u64)).unwrap_err();
    assert_error_response(err, JsonRpcErrorCode::InternalError.into());
}

#[test]
fn subscription_works() {
    let mut client = Background::new(256);
    let ticket =
        client.subscribe("subscribe_hello", &JsonRpcParams::NoParams, "unsubscribe_hello").unwrap();
    assert_eq!(ticket.frame, r#"{"jsonrpc":"2.0","method":"subscribe_hello","id":0}"#);
    let actions = client.handle_frame(&server_subscription_id_response(0));
    let subscription = match reply_for(actions, ticket.id).unwrap() {
        Answer::Subscription(id) => id,
        other => panic!("expected a subscription, got: {:?}", other),
    };
    assert_eq!(subscription, SubscriptionId::Str(SUBSCRIPTION.to_string()));
    let actions = client
        .handle_frame(&server_subscription_response(JsonValue::String("hello my friend".to_owned())));
    assert_eq!(actions.len(), 1);
    match &actions[0] {
        Action::Notify { id, payload } => {
            assert_eq!(*id, ticket.id);
            let response: String = serde_json::from_str(payload).unwrap();
            assert_eq!("hello my friend".to_owned(), response);
        }
        other => panic!("expected an item, got: {:?}", other),
    }
    // the holder drops the subscription
    let frame = client.unsubscribe(&subscription).unwrap();
    assert_eq!(
        frame,
        format!(r#"{{"jsonrpc":"2.0","method":"unsubscribe_hello","params":["{}"],"id":0}}"#, SUBSCRIPTION)
    );
    assert!(client.handle_frame(&ok_response(JsonValue::Bool(true), 0)).is_empty());
    assert_eq!(client.pending_len(), 0);
    assert!(client.is_connected());
}

#[test]
fn batch_request_works() {
    let batch_request = vec![
        ("say_hello", JsonRpcParams::NoParams),
        ("say_goodbye", JsonRpcParams::Array(vec!["0".to_string(), "1".to_string(), "2".to_string()])),
        ("get_swag", JsonRpcParams::NoParams),
    ];
    let server_response = r#"[{"jsonrpc":"2.0","result":"hello","id":0}, {"jsonrpc":"2.0","result":"goodbye","id":1}, {"jsonrpc":"2.0","result":"here's your swag","id":2}]"#.to_string();
    let response = run_batch_request_with_response(batch_request, server_response).unwrap();
    assert_eq!(response, vec!["hello".to_string(), "goodbye".to_string(), "here's your swag".to_string()]);
}

#[test]
fn batch_request_out_of_order_response() {
    let batch_request = vec![
        ("say_hello", JsonRpcParams::NoParams),
        ("say_goodbye", JsonRpcParams::Array(vec!["0".to_string(), "1".to_string(), "2".to_string()])),
        ("get_swag", JsonRpcParams::NoParams),
    ];
    let server_response = r#"[{"jsonrpc":"2.0","result":"here's your swag","id":2}, {"jsonrpc":"2.0","result":"hello","id":0}, {"jsonrpc":"2.0","result":"goodbye","id":1}]"#.to_string();
    let response = run_batch_request_with_response(batch_request, server_response).unwrap();
    assert_eq!(response, vec!["hello".to_string(), "goodbye".to_string(), "here's your swag".to_string()]);
}

#[test]
fn is_connected_works() {
    let mut client = Background::new(256);
    assert!(client.is_connected());
    let ticket = client.request("say_hello", &JsonRpcParams::NoParams).unwrap();
    let actions = client.handle_frame(&ok_response(JsonValue::String("foo".into()), 99_u64));
    reply_for(actions, ticket.id).unwrap_err();
    assert!(!client.is_connected())
}
