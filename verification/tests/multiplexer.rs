use jsonrpc_runtime::client::background::{Background, Status};
use jsonrpc_runtime::client::effects::{Action, Answer};
use jsonrpc_runtime::client::inbound::{Inbound, Message};
use jsonrpc_runtime::client::pending::RequestStatus;
use jsonrpc_runtime::error::Error;
use jsonrpc_runtime::v2::error::{JsonRpcErrorCode, JsonRpcErrorObject};
use jsonrpc_runtime::v2::params::{JsonRpcParams, SubscriptionId};

fn response(id: u64, result: &str) -> String {
    format!(r#"{{"jsonrpc":"2.0","result":{},"id":{}}}"#, result, id)
}

fn call(client: &mut Background) -> u64 {
    client.request("m", &JsonRpcParams::NoParams).unwrap().id
}

fn value_of(action: &Action) -> (u64, String) {
    match action {
        Action::Reply { id, result: Ok(Answer::Value(text)) } => (*id, text.clone()),
        other => panic!("expected a value, got: {:?}", other),
    }
}

fn restart_of(action: &Action) -> (u64, String) {
    match action {
        Action::Reply { id, result: Err(Error::RestartNeeded(reason)) } => (*id, reason.clone()),
        other => panic!("expected a demand to restart, got: {:?}", other),
    }
}

#[test]
fn no_two_requests_in_flight_share_an_id() {
    let mut client = Background::new(16);
    let a = call(&mut client);
    let b = client.subscribe("s", &JsonRpcParams::NoParams, "u").unwrap().id;
    let batch = client
        .batch_request(&vec![
            ("x".to_string(), JsonRpcParams::NoParams),
            ("y".to_string(), JsonRpcParams::NoParams),
        ])
        .unwrap();
    let c = call(&mut client);
    let mut all = vec![a, b, c];
    all.extend(batch.ids.iter().copied());
    assert_eq!(all, vec![0, 1, 4, 2, 3]);
    // an id that was freed is not given to the next request while others wait
    assert_eq!(client.handle_frame(&response(a, "1")).len(), 1);
    let d = call(&mut client);
    assert_eq!(d, 5);
    assert_eq!(client.pending_len(), 4);
}

#[test]
fn each_caller_gets_the_result_with_its_id() {
    for order in [[0, 1, 2], [0, 2, 1], [1, 0, 2], [1, 2, 0], [2, 0, 1], [2, 1, 0]] {
        let mut client = Background::new(16);
        let ids = [call(&mut client), call(&mut client), call(&mut client)];
        for k in order {
            let actions = client.handle_frame(&response(ids[k], &format!("\"result {}\"", k)));
            assert_eq!(actions.len(), 1);
            assert_eq!(value_of(&actions[0]), (ids[k], format!("\"result {}\"", k)));
        }
        assert_eq!(client.pending_len(), 0);
        assert!(client.is_connected());
    }
}

#[test]
fn batch_resolves_in_input_order() {
    let results = ["\"hello\"", "\"goodbye\"", "\"here's your swag\""];
    for order in [[0, 1, 2], [0, 2, 1], [1, 0, 2], [1, 2, 0], [2, 0, 1], [2, 1, 0]] {
        let mut client = Background::new(16);
        call(&mut client);
        let ticket = client
            .batch_request(&vec![
                ("say_hello".to_string(), JsonRpcParams::NoParams),
                ("say_goodbye".to_string(), JsonRpcParams::NoParams),
                ("get_swag".to_string(), JsonRpcParams::NoParams),
            ])
            .unwrap();
        assert_eq!(ticket.ids, vec![1, 2, 3]);
        let items: Vec<String> =
            order.iter().map(|k| response(ticket.ids[*k], results[*k])).collect();
        let actions = client.handle_frame(&format!("[{}]", items.join(",")));
        assert_eq!(actions.len(), 1);
        match &actions[0] {
            Action::Reply { id, result: Ok(Answer::Values(values)) } => {
                assert_eq!(*id, 1);
                assert_eq!(values, &results.iter().map(|r| r.to_string()).collect::<Vec<_>>());
            }
            other => panic!("expected values, got: {:?}", other),
        }
        assert_eq!(client.pending_len(), 1);
        assert_eq!(client.request_status(2), RequestStatus::Invalid);
    }
}

#[test]
fn batch_with_a_failed_call_resolves_to_the_first_failure() {
    let mut client = Background::new(16);
    let ticket = client
        .batch_request(&vec![
            ("a".to_string(), JsonRpcParams::NoParams),
            ("b".to_string(), JsonRpcParams::NoParams),
            ("c".to_string(), JsonRpcParams::NoParams),
        ])
        .unwrap();
    let frame = r#"[{"jsonrpc":"2.0","error":{"code":-32602,"message":"Invalid params"},"id":2},{"jsonrpc":"2.0","result":1,"id":0},{"jsonrpc":"2.0","error":{"code":-32603,"message":"Internal error"},"id":1}]"#;
    let actions = client.handle_frame(frame);
    assert_eq!(actions.len(), 1);
    match &actions[0] {
        Action::Reply { id, result: Err(Error::Request(e)) } => {
            assert_eq!(*id, ticket.ids[0]);
            assert_eq!(e.id, 1);
            assert_eq!(e.error, JsonRpcErrorObject::from(JsonRpcErrorCode::InternalError));
        }
        other => panic!("expected the error of the server, got: {:?}", other),
    }
    assert!(client.is_connected());
    assert_eq!(client.pending_len(), 0);
}

#[test]
fn batch_that_answers_nothing_is_fatal() {
    for frame in [
        "[]",
        r#"[{"jsonrpc":"2.0","result":1,"id":0}]"#,
        r#"[{"jsonrpc":"2.0","result":1,"id":0},{"jsonrpc":"2.0","result":1,"id":0}]"#,
        r#"[{"jsonrpc":"2.0","result":1,"id":0},{"jsonrpc":"2.0","result":1,"id":7}]"#,
        r#"[{"jsonrpc":"2.0","result":1,"id":0},{"jsonrpc":"2.0","method":"m"}]"#,
        r#"[{"jsonrpc":"2.0","result":1,"id":1},{"jsonrpc":"2.0","result":1,"id":2}]"#,
    ] {
        let mut client = Background::new(16);
        let ticket = client
            .batch_request(&vec![
                ("a".to_string(), JsonRpcParams::NoParams),
                ("b".to_string(), JsonRpcParams::NoParams),
            ])
            .unwrap();
        let single = call(&mut client);
        let actions = client.handle_frame(frame);
        assert_eq!(actions.len(), 2, "{}", frame);
        assert_eq!(restart_of(&actions[0]).0, ticket.ids[0]);
        assert_eq!(restart_of(&actions[1]).0, single);
        assert!(!client.is_connected());
    }
}

#[test]
fn lost_connection_ends_every_wait() {
    let mut client = Background::new(16);
    let a = call(&mut client);
    let sub = client.subscribe("s", &JsonRpcParams::NoParams, "u").unwrap().id;
    client.handle_frame(&response(sub, "\"the subscription\""));
    let pending_sub = client.subscribe("s", &JsonRpcParams::NoParams, "u").unwrap().id;
    let batch = client.batch_request(&vec![("x".to_string(), JsonRpcParams::NoParams)]).unwrap();
    let actions = client.transport_closed("connection reset".to_string());
    assert_eq!(actions.len(), 4);
    assert_eq!(restart_of(&actions[0]), (a, "connection reset".to_string()));
    assert!(matches!(actions[1], Action::Close { id } if id == sub));
    assert_eq!(restart_of(&actions[2]), (pending_sub, "connection reset".to_string()));
    assert_eq!(restart_of(&actions[3]), (batch.ids[0], "connection reset".to_string()));
    assert!(!client.is_connected());
    assert!(matches!(client.status(), Status::Terminated));
    assert_eq!(client.pending_len(), 0);
    // every request that follows is turned down with the same reason
    assert!(matches!(
        client.request("m", &JsonRpcParams::NoParams),
        Err(Error::RestartNeeded(reason)) if reason == "connection reset"
    ));
    assert!(matches!(
        client.notification("m", &JsonRpcParams::NoParams),
        Err(Error::RestartNeeded(reason)) if reason == "connection reset"
    ));
    assert!(matches!(
        client.subscribe("s", &JsonRpcParams::NoParams, "u"),
        Err(Error::RestartNeeded(reason)) if reason == "connection reset"
    ));
    assert!(matches!(
        client.batch_request(&vec![("x".to_string(), JsonRpcParams::NoParams)]),
        Err(Error::RestartNeeded(reason)) if reason == "connection reset"
    ));
    assert!(matches!(client.batch_request(&vec![]), Err(Error::RestartNeeded(_))));
    // what comes later changes nothing
    assert!(client.handle_frame(&response(a, "1")).is_empty());
    assert!(client.transport_closed("again".to_string()).is_empty());
    assert!(client.frontend_closed().is_empty());
    assert!(client.drain().is_empty());
    assert_eq!(client.unsubscribe(&SubscriptionId::Str("the subscription".to_string())), None);
    assert!(matches!(
        client.request("m", &JsonRpcParams::NoParams),
        Err(Error::RestartNeeded(reason)) if reason == "connection reset"
    ));
}

#[test]
fn terminating_comes_before_terminated() {
    let mut client = Background::new(16);
    let a = call(&mut client);
    client.terminate("gone".to_string());
    assert!(matches!(client.status(), Status::Terminating(reason) if reason == "gone"));
    assert!(!client.is_connected());
    assert_eq!(client.pending_len(), 1);
    assert!(matches!(
        client.request("m", &JsonRpcParams::NoParams),
        Err(Error::RestartNeeded(reason)) if reason == "gone"
    ));
    client.terminate("gone again".to_string());
    let actions = client.drain();
    assert_eq!(actions.len(), 1);
    assert_eq!(restart_of(&actions[0]), (a, "gone".to_string()));
    assert!(matches!(client.status(), Status::Terminated));
}

#[test]
fn dropped_frontend_ends_the_connection() {
    let mut client = Background::new(16);
    let a = call(&mut client);
    let actions = client.frontend_closed();
    assert_eq!(actions.len(), 1);
    assert_eq!(restart_of(&actions[0]), (a, "every handle of the client was dropped".to_string()));
    assert!(!client.is_connected());
}

#[test]
fn malformed_frame_is_fatal() {
    for frame in ["", "nonsense", "17", r#"{"jsonrpc":"1.0","result":1,"id":0}"#, r#"{"result":1,"id":0}"#] {
        let mut client = Background::new(16);
        let a = call(&mut client);
        let actions = client.handle_frame(frame);
        assert_eq!(actions.len(), 1);
        assert_eq!(
            restart_of(&actions[0]),
            (a, "the server sent a frame that is not a JSON-RPC message".to_string())
        );
        assert!(!client.is_connected());
    }
}

#[test]
fn answer_to_what_is_not_pending_is_fatal() {
    let mut client = Background::new(16);
    let a = call(&mut client);
    let sub = client.subscribe("s", &JsonRpcParams::NoParams, "u").unwrap().id;
    client.handle_frame(&response(sub, "5"));
    // a second response under the id of a subscription answers nothing
    let actions = client.handle_frame(&response(sub, "6"));
    assert_eq!(actions.len(), 2);
    assert_eq!(
        restart_of(&actions[0]),
        (a, "the server answered a request that is not pending".to_string())
    );
    assert!(matches!(actions[1], Action::Close { id } if id == sub));
    let mut client = Background::new(16);
    call(&mut client);
    let frame = r#"{"jsonrpc":"2.0","error":{"code":1,"message":"m"},"id":9}"#;
    assert_eq!(client.handle_frame(frame).len(), 1);
    assert!(!client.is_connected());
}

#[test]
fn error_response_passes_through_and_the_client_stays() {
    let mut client = Background::new(16);
    let a = call(&mut client);
    let frame = r#"{"jsonrpc":"2.0","error":{"code":-32601,"message":"Method not found"},"id":0}"#;
    let actions = client.handle_frame(frame);
    assert_eq!(actions.len(), 1);
    match &actions[0] {
        Action::Reply { id, result: Err(Error::Request(e)) } => {
            assert_eq!(*id, a);
            assert_eq!(e.id, a);
            assert_eq!(e.error.code.code(), -32601);
            assert_eq!(e.error.message, "Method not found");
        }
        other => panic!("expected the error of the server, got: {:?}", other),
    }
    assert!(client.is_connected());
    assert_eq!(client.pending_len(), 0);
}

#[test]
fn subscribe_call_needs_a_fresh_subscription_id() {
    let mut client = Background::new(16);
    let first = client.subscribe("s", &JsonRpcParams::NoParams, "u").unwrap().id;
    let second = client.subscribe("s", &JsonRpcParams::NoParams, "u").unwrap().id;
    let third = client.subscribe("s", &JsonRpcParams::NoParams, "u").unwrap().id;
    let fourth = client.subscribe("s", &JsonRpcParams::NoParams, "u").unwrap().id;
    let actions = client.handle_frame(&response(first, "5"));
    assert!(matches!(
        &actions[0],
        Action::Reply { id, result: Ok(Answer::Subscription(SubscriptionId::Num(5))) } if *id == first
    ));
    // the same subscription id again
    let actions = client.handle_frame(&response(second, "5"));
    assert!(matches!(
        &actions[0],
        Action::Reply { id, result: Err(Error::InvalidSubscriptionId) } if *id == second
    ));
    // a result that is no subscription id
    let actions = client.handle_frame(&response(third, "{\"no\":1}"));
    assert!(matches!(
        &actions[0],
        Action::Reply { id, result: Err(Error::InvalidSubscriptionId) } if *id == third
    ));
    // an error of the server
    let frame = format!(r#"{{"jsonrpc":"2.0","error":{{"code":1,"message":"m"}},"id":{}}}"#, fourth);
    let actions = client.handle_frame(&frame);
    assert!(matches!(
        &actions[0],
        Action::Reply { id, result: Err(Error::Request(_)) } if *id == fourth
    ));
    assert!(client.is_connected());
    assert_eq!(client.pending_len(), 1);
    assert_eq!(client.request_status(first), RequestStatus::Subscription);
}

#[test]
fn items_go_to_their_subscription_and_others_are_dropped() {
    let mut client = Background::new(16);
    let first = client.subscribe("s", &JsonRpcParams::NoParams, "u").unwrap().id;
    let second = client.subscribe("s", &JsonRpcParams::NoParams, "u").unwrap().id;
    client.handle_frame(&response(first, "\"a\""));
    client.handle_frame(&response(second, "\"b\""));
    let item = |sub: &str, payload: &str| {
        format!(
            r#"{{"jsonrpc":"2.0","method":"s","params":{{"subscription":{},"result":{}}}}}"#,
            sub, payload
        )
    };
    let actions = client.handle_frame(&item("\"b\"", "1"));
    assert!(matches!(&actions[..], [Action::Notify { id, payload }] if *id == second && payload == "1"));
    let actions = client.handle_frame(&item("\"a\"", "[2]"));
    assert!(matches!(&actions[..], [Action::Notify { id, payload }] if *id == first && payload == "[2]"));
    assert!(client.handle_frame(&item("\"c\"", "3")).is_empty());
    assert!(client.handle_frame(r#"{"jsonrpc":"2.0","method":"other","params":[1]}"#).is_empty());
    assert!(client.handle_frame(r#"{"jsonrpc":"2.0","method":"other"}"#).is_empty());
    assert!(client.is_connected());
    assert_eq!(client.pending_len(), 2);
}

#[test]
fn unsubscribe_is_an_ordinary_call_nobody_waits_for() {
    let mut client = Background::new(2);
    let sub = client.subscribe("s", &JsonRpcParams::NoParams, "stop").unwrap().id;
    client.handle_frame(&response(sub, "12"));
    assert_eq!(client.unsubscribe(&SubscriptionId::Num(13)), None);
    assert_eq!(
        client.unsubscribe(&SubscriptionId::Num(12)),
        Some(r#"{"jsonrpc":"2.0","method":"stop","params":[12],"id":0}"#.to_string())
    );
    assert_eq!(client.request_status(sub), RequestStatus::PendingUnsubscribe);
    assert_eq!(client.unsubscribe(&SubscriptionId::Num(12)), None);
    // items that still come are dropped
    let item = r#"{"jsonrpc":"2.0","method":"s","params":{"subscription":12,"result":1}}"#;
    assert!(client.handle_frame(item).is_empty());
    // the id is in use until the answer comes, whatever it is
    call(&mut client);
    assert!(matches!(client.request("m", &JsonRpcParams::NoParams), Err(Error::MaxSlotsExceeded)));
    let frame = r#"{"jsonrpc":"2.0","error":{"code":1,"message":"m"},"id":0}"#;
    assert!(client.handle_frame(frame).is_empty());
    assert_eq!(client.request_status(sub), RequestStatus::Invalid);
    assert!(client.request("m", &JsonRpcParams::NoParams).is_ok());
    assert!(client.is_connected());
}

#[test]
fn slots_bound_the_requests_in_flight() {
    let mut client = Background::new(3);
    let a = call(&mut client);
    call(&mut client);
    assert!(matches!(
        client.batch_request(&vec![
            ("x".to_string(), JsonRpcParams::NoParams),
            ("y".to_string(), JsonRpcParams::NoParams),
        ]),
        Err(Error::MaxSlotsExceeded)
    ));
    assert_eq!(client.pending_len(), 2);
    call(&mut client);
    assert!(matches!(client.request("m", &JsonRpcParams::NoParams), Err(Error::MaxSlotsExceeded)));
    assert!(matches!(
        client.subscribe("s", &JsonRpcParams::NoParams, "u"),
        Err(Error::MaxSlotsExceeded)
    ));
    // a notification takes no slot
    assert!(client.notification("n", &JsonRpcParams::NoParams).is_ok());
    client.handle_frame(&response(a, "1"));
    assert_eq!(call(&mut client), 3);
}

#[test]
fn empty_batch_is_refused() {
    let mut client = Background::new(3);
    assert!(matches!(
        client.batch_request(&vec![]),
        Err(Error::Custom(text)) if text == "a batch holds at least one call"
    ));
    assert_eq!(client.pending_len(), 0);
}

#[test]
fn cancelled_wait_frees_its_id() {
    let mut client = Background::new(2);
    let a = call(&mut client);
    let batch = client.batch_request(&vec![("x".to_string(), JsonRpcParams::NoParams)]).unwrap();
    assert!(client.cancel(a));
    assert!(!client.cancel(a));
    assert!(!client.cancel(9));
    assert_eq!(client.request_status(a), RequestStatus::Invalid);
    assert!(client.cancel(batch.ids[0]));
    assert_eq!(client.pending_len(), 0);
    let sub = client.subscribe("s", &JsonRpcParams::NoParams, "u").unwrap().id;
    client.handle_frame(&response(sub, "1"));
    // a subscription is not a wait for an answer: it ends by unsubscribe
    assert!(!client.cancel(sub));
    assert_eq!(client.pending_len(), 1);
    // the answer to a wait that was given up answers nothing
    let b = call(&mut client);
    assert!(client.cancel(b));
    client.handle_frame(&response(b, "1"));
    assert!(!client.is_connected());
}

#[test]
fn timed_out_wait_gets_a_timeout() {
    let mut client = Background::new(4);
    let a = call(&mut client);
    let batch = client
        .batch_request(&vec![
            ("x".to_string(), JsonRpcParams::NoParams),
            ("y".to_string(), JsonRpcParams::NoParams),
        ])
        .unwrap();
    let actions = client.time_out(a);
    assert!(matches!(&actions[..], [Action::Reply { id, result: Err(Error::RequestTimeout) }] if *id == a));
    assert!(client.time_out(a).is_empty());
    // the timeout of a batch comes under its first id, whichever of its ids is named
    let actions = client.time_out(batch.ids[1]);
    assert!(matches!(
        &actions[..],
        [Action::Reply { id, result: Err(Error::RequestTimeout) }] if *id == batch.ids[0]
    ));
    assert_eq!(client.pending_len(), 0);
    assert_eq!(call(&mut client), 3);
}

#[test]
fn frame_that_was_read_is_handled_as_its_text() {
    let mut client = Background::new(4);
    let a = call(&mut client);
    let actions = client.handle_inbound(Inbound::Single(Message::Response {
        id: a,
        result: "[1]".to_string(),
        granted: None,
    }));
    assert_eq!(actions.len(), 1);
    assert_eq!(value_of(&actions[0]), (a, "[1]".to_string()));
    let b = call(&mut client);
    let actions = client.handle_inbound(Inbound::Single(Message::Malformed));
    assert_eq!(restart_of(&actions[0]).0, b);
    assert!(client.handle_inbound(Inbound::Malformed).is_empty());
}

#[test]
fn standard_codes_are_recognized_and_others_pass_through() {
    for (number, code) in [
        (-32700, JsonRpcErrorCode::ParseError),
        (-32600, JsonRpcErrorCode::InvalidRequest),
        (-32601, JsonRpcErrorCode::MethodNotFound),
        (-32602, JsonRpcErrorCode::InvalidParams),
        (-32603, JsonRpcErrorCode::InternalError),
        (-32000, JsonRpcErrorCode::ServerError(-32000)),
        (7, JsonRpcErrorCode::ServerError(7)),
    ] {
        let mut client = Background::new(4);
        let a = call(&mut client);
        let frame =
            format!(r#"{{"jsonrpc":"2.0","error":{{"code":{},"message":"m"}},"id":{}}}"#, number, a);
        let actions = client.handle_frame(&frame);
        match &actions[..] {
            [Action::Reply { id, result: Err(Error::Request(e)) }] => {
                assert_eq!(*id, a);
                assert_eq!(e.error.code, code);
                assert_eq!(e.error.code.code(), number);
                assert_eq!(e.error.duplicate().code, code);
            }
            other => panic!("expected the error of the server, got: {:?}", other),
        }
        assert!(client.is_connected());
    }
}
