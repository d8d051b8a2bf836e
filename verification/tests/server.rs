use jsonrpc_runtime::error::{CallError, Error};
use jsonrpc_runtime::server::dispatch::{finish_batch, Dispatch};
use jsonrpc_runtime::server::methods::{same_text, Methods};
use jsonrpc_runtime::server::{send_error, send_outcome, send_response};
use jsonrpc_runtime::v2::envelope::read_frame;
use jsonrpc_runtime::v2::envelope::RawFrame;
use jsonrpc_runtime::v2::error::{JsonRpcErrorCode, JsonRpcErrorObject};

fn methods() -> Methods<&'static str> {
    let mut methods = Methods::new();
    methods.register_method("say_hello", "hello").unwrap();
    methods.register_subscription("subscribe_hello", "unsubscribe_hello", "sub", "unsub").unwrap();
    methods
}

#[test]
fn same_method_name_twice_is_refused() {
    let mut methods: Methods<u8> = Methods::new();
    assert!(methods.register_method("a", 1).is_ok());
    assert!(matches!(
        methods.register_method("a", 2),
        Err(Error::MethodAlreadyRegistered(name)) if name == "a"
    ));
    assert_eq!(methods.len(), 1);
    assert_eq!(methods.method("a"), Some(&1));
    assert_eq!(methods.method("b"), None);
    assert!(methods.register_method("b", 3).is_ok());
    assert_eq!(methods.place("b"), Some(1));
    assert_eq!(methods.handler(1), &3);
}

#[test]
fn subscription_names_must_differ_and_be_free() {
    let mut methods: Methods<u8> = Methods::new();
    assert!(matches!(
        methods.register_subscription("s", "s", 1, 2),
        Err(Error::SubscriptionNameConflict(name)) if name == "s"
    ));
    assert_eq!(methods.len(), 0);
    methods.register_method("taken", 0).unwrap();
    assert!(matches!(
        methods.register_subscription("taken", "u", 1, 2),
        Err(Error::MethodAlreadyRegistered(name)) if name == "taken"
    ));
    assert!(matches!(
        methods.register_subscription("s", "taken", 1, 2),
        Err(Error::MethodAlreadyRegistered(name)) if name == "taken"
    ));
    assert_eq!(methods.len(), 1);
    assert!(methods.register_subscription("s", "u", 1, 2).is_ok());
    assert_eq!(methods.len(), 3);
    assert_eq!(methods.method("s"), Some(&1));
    assert_eq!(methods.method("u"), Some(&2));
    assert!(matches!(
        methods.register_method("u", 9),
        Err(Error::MethodAlreadyRegistered(name)) if name == "u"
    ));
    assert!(matches!(
        methods.register_subscription("s", "v", 1, 2),
        Err(Error::MethodAlreadyRegistered(name)) if name == "s"
    ));
    assert!(same_text("a", "a"));
    assert!(!same_text("a", "b"));
}

#[test]
fn request_is_routed_to_its_handler() {
    let methods = methods();
    let mut tx: Vec<String> = Vec::new();
    let frame = r#"{"jsonrpc":"2.0","method":"unsubscribe_hello","params":[7],"id":"abc"}"#;
    match methods.dispatch(frame, &mut tx) {
        Dispatch::Single(invocation) => {
            assert_eq!(invocation.handler, 2);
            assert_eq!(methods.handler(invocation.handler), &"unsub");
            assert_eq!(invocation.id, Some("\"abc\"".to_string()));
            assert_eq!(invocation.params, Some("[7]".to_string()));
        }
        other => panic!("expected one invocation, got: {:?}", other),
    }
    assert!(tx.is_empty());
    // a notification is served too, and gets no id
    match methods.dispatch(r#"{"jsonrpc":"2.0","method":"say_hello"}"#, &mut tx) {
        Dispatch::Single(invocation) => {
            assert_eq!(invocation.handler, 0);
            assert_eq!(invocation.id, None);
            assert_eq!(invocation.params, None);
        }
        other => panic!("expected one invocation, got: {:?}", other),
    }
    assert!(tx.is_empty());
}

#[test]
fn unknown_method_is_answered_by_method_not_found() {
    let methods = methods();
    let mut tx: Vec<String> = Vec::new();
    let dispatch = methods.dispatch(r#"{"jsonrpc":"2.0","method":"nope","id":3}"#, &mut tx);
    assert!(matches!(dispatch, Dispatch::Nothing));
    assert_eq!(
        tx,
        vec![r#"{"jsonrpc":"2.0","error":{"code":-32601,"message":"Method not found"},"id":3}"#
            .to_string()]
    );
    // a notification gets no answer
    let dispatch = methods.dispatch(r#"{"jsonrpc":"2.0","method":"nope"}"#, &mut tx);
    assert!(matches!(dispatch, Dispatch::Nothing));
    assert_eq!(tx.len(), 1);
}

#[test]
fn what_is_no_request_is_answered_by_invalid_request() {
    let methods = methods();
    let invalid = |id: &str| {
        format!(r#"{{"jsonrpc":"2.0","error":{{"code":-32600,"message":"Invalid request"}},"id":{}}}"#, id)
    };
    for (frame, id) in [
        (r#"{"jsonrpc":"1.0","method":"say_hello","id":1}"#, "1"),
        (r#"{"method":"say_hello","id":1}"#, "1"),
        (r#"{"jsonrpc":"2.0","id":2}"#, "2"),
        (r#"{"jsonrpc":"2.0","method":7,"id":2}"#, "2"),
        (r#"{"jsonrpc":"2.0","method":"say_hello","id":null}"#, "null"),
        (r#"{"jsonrpc":"2.0","method":"say_hello","id":[1]}"#, "null"),
        (r#"{"jsonrpc":"2.0","method":"say_hello","result":1,"id":-5}"#, "-5"),
        (r#"{"jsonrpc":"2.0","method":"say_hello","error":{},"id":"x"}"#, "\"x\""),
        (r#"{"jsonrpc":"2.0"}"#, "null"),
        ("[]", "null"),
    ] {
        let mut tx: Vec<String> = Vec::new();
        assert!(matches!(methods.dispatch(frame, &mut tx), Dispatch::Nothing), "{}", frame);
        assert_eq!(tx, vec![invalid(id)], "{}", frame);
    }
}

#[test]
fn what_cannot_be_read_is_answered_by_parse_error() {
    let methods = methods();
    for frame in ["", "{", "17", "[1,2]", "\"say_hello\""] {
        let mut tx: Vec<String> = Vec::new();
        assert!(matches!(methods.dispatch(frame, &mut tx), Dispatch::Nothing));
        assert_eq!(
            tx,
            vec![r#"{"jsonrpc":"2.0","error":{"code":-32700,"message":"Parse error"},"id":null}"#
                .to_string()]
        );
    }
}

#[test]
fn batch_is_routed_call_by_call() {
    let methods = methods();
    let mut tx: Vec<String> = vec!["earlier".to_string()];
    let frame = r#"[{"jsonrpc":"2.0","method":"say_hello","id":1},{"jsonrpc":"2.0","method":"nope","id":2},{"jsonrpc":"2.0","method":"nope"},{"jsonrpc":"2.0","method":"say_hello","params":{"a":1}},{"id":5}]"#;
    match methods.dispatch(frame, &mut tx) {
        Dispatch::Batch { invocations, mut responses } => {
            assert_eq!(invocations.len(), 2);
            assert_eq!(invocations[0].handler, 0);
            assert_eq!(invocations[0].id, Some("1".to_string()));
            assert_eq!(invocations[1].id, None);
            assert_eq!(invocations[1].params, Some("{\"a\":1}".to_string()));
            assert_eq!(
                responses,
                vec![
                    r#"{"jsonrpc":"2.0","error":{"code":-32601,"message":"Method not found"},"id":2}"#
                        .to_string(),
                    r#"{"jsonrpc":"2.0","error":{"code":-32600,"message":"Invalid request"},"id":5}"#
                        .to_string(),
                ]
            );
            assert_eq!(tx, vec!["earlier".to_string()]);
            // the handler of the first call answers
            send_response(invocations[0].id.as_deref(), &mut responses, Ok("\"hello\"".to_string()));
            finish_batch(&responses, &mut tx);
            assert_eq!(tx.len(), 2);
            assert_eq!(
                tx[1],
                r#"[{"jsonrpc":"2.0","error":{"code":-32601,"message":"Method not found"},"id":2},{"jsonrpc":"2.0","error":{"code":-32600,"message":"Invalid request"},"id":5},{"jsonrpc":"2.0","result":"hello","id":1}]"#
            );
        }
        other => panic!("expected a batch, got: {:?}", other),
    }
}

#[test]
fn batch_of_notifications_is_answered_by_an_empty_array() {
    let methods = methods();
    let mut tx: Vec<String> = Vec::new();
    let frame = r#"[{"jsonrpc":"2.0","method":"say_hello"},{"jsonrpc":"2.0","method":"nope"}]"#;
    match methods.dispatch(frame, &mut tx) {
        Dispatch::Batch { invocations, responses } => {
            assert_eq!(invocations.len(), 1);
            assert!(responses.is_empty());
            finish_batch(&responses, &mut tx);
            assert_eq!(tx, vec!["[]".to_string()]);
        }
        other => panic!("expected a batch, got: {:?}", other),
    }
}

#[test]
fn single_envelope_is_routed() {
    let methods = methods();
    let mut tx: Vec<String> = Vec::new();
    let envelope = match read_frame(r#"{"jsonrpc":"2.0","method":"subscribe_hello","id":0}"#) {
        RawFrame::Single(e) => e,
        other => panic!("expected one object, got: {:?}", other),
    };
    let invocation = methods.route(&envelope, &mut tx).unwrap();
    assert_eq!(invocation.handler, 1);
    assert_eq!(invocation.id, Some("0".to_string()));
    assert!(tx.is_empty());
}

#[test]
fn result_that_cannot_be_written_is_answered_by_internal_error() {
    let mut tx: Vec<String> = Vec::new();
    send_response(Some("4"), &mut tx, Err("key must be a string".to_string()));
    assert_eq!(
        tx,
        vec![r#"{"jsonrpc":"2.0","error":{"code":-32603,"message":"Internal error"},"id":4}"#
            .to_string()]
    );
}

#[test]
fn errors_are_sent_in_order() {
    let mut tx: Vec<String> = Vec::new();
    send_error(Some("1"), &mut tx, JsonRpcErrorObject::from(JsonRpcErrorCode::InvalidParams));
    send_error(
        Some("\"two\""),
        &mut tx,
        JsonRpcErrorObject {
            code: JsonRpcErrorCode::ServerError(2),
            message: "second".to_string(),
            data: Some("[2]".to_string()),
        },
    );
    assert_eq!(
        tx,
        vec![
            r#"{"jsonrpc":"2.0","error":{"code":-32602,"message":"Invalid params"},"id":1}"#.to_string(),
            r#"{"jsonrpc":"2.0","error":{"code":2,"message":"second","data":[2]},"id":"two"}"#
                .to_string(),
        ]
    );
}

#[test]
fn outcome_of_a_handler_is_answered() {
    let mut tx: Vec<String> = Vec::new();
    send_outcome(Some("1"), &mut tx, Ok(Ok("17".to_string())));
    send_outcome(Some("2"), &mut tx, Err(CallError::InvalidParams));
    send_outcome(Some("3"), &mut tx, Err(CallError::Failed("out of swag".to_string())));
    send_outcome(None, &mut tx, Ok(Err("unwritable".to_string())));
    assert_eq!(
        tx,
        vec![
            r#"{"jsonrpc":"2.0","result":17,"id":1}"#.to_string(),
            r#"{"jsonrpc":"2.0","error":{"code":-32602,"message":"Invalid params"},"id":2}"#.to_string(),
            r#"{"jsonrpc":"2.0","error":{"code":-32000,"message":"out of swag"},"id":3}"#.to_string(),
            r#"{"jsonrpc":"2.0","error":{"code":-32603,"message":"Internal error"},"id":null}"#
                .to_string(),
        ]
    );
}
