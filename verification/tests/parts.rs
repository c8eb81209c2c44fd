use jsonrpc_server::{
    BatchEnvelope, Call, Completion, Id, NextRequest, Output, Params, PendingKey,
    PendingRequestStore, Request, Response, RpcError, Server, ServerError, ServerRq,
    SubscriptionManager, Value,
};

fn method_call(id: u64, method: &str) -> Call {
    Call::MethodCall { id: Id::Num(id), method: method.to_string(), params: Params::Absent }
}

fn notification(method: &str) -> Call {
    Call::Notification { method: method.to_string(), params: Params::Absent }
}

fn handles(connection: u64, calls: Vec<Call>) -> Vec<ServerRq> {
    let mut server = Server::new();
    let count = calls.len();
    server.accept(connection, Request::Batch(calls)).unwrap();
    let mut out = Vec::new();
    for _ in 0..count {
        match server.next_request() {
            Ok(NextRequest::Ready(request)) => out.push(request),
            other => panic!("no call is ready: {:?}", other),
        }
    }
    out
}

#[test]
fn standard_errors_have_their_codes() {
    let expected = [
        (RpcError::parse_error(), -32700, "Parse error"),
        (RpcError::invalid_request(), -32600, "Invalid Request"),
        (RpcError::method_not_found(), -32601, "Method not found"),
        (RpcError::invalid_params(), -32602, "Invalid params"),
        (RpcError::internal_error(), -32603, "Internal error"),
        (RpcError::abandoned(), -32000, "Request abandoned"),
        (RpcError::connection_closed(), -32001, "Connection closed"),
    ];
    for (error, code, message) in expected {
        assert_eq!(error.code, code);
        assert_eq!(error.message, message);
        assert_eq!(error.data, None);
    }
}

#[test]
fn identifiers_are_compared_by_value() {
    let text = Id::Str("7".to_string());
    assert!(text.same(&Id::Str("7".to_string())));
    assert!(!text.same(&Id::Str("8".to_string())));
    assert!(!text.same(&Id::Num(7)));
    assert!(Id::Num(7).same(&Id::Num(7)));
    assert!(!Id::Num(7).same(&Id::Num(8)));
    assert!(Id::Null.same(&Id::Null));
    assert!(!Id::Null.same(&Id::Num(0)));
    assert_eq!(text.duplicate(), text);
    assert_eq!(Id::Num(3).duplicate(), Id::Num(3));
    assert_eq!(Id::Null.duplicate(), Id::Null);
}

#[test]
fn keys_are_compared_by_value() {
    let key = PendingKey { connection: 1, id: Id::Str("a".to_string()) };
    assert!(key.same(&PendingKey { connection: 1, id: Id::Str("a".to_string()) }));
    assert!(!key.same(&PendingKey { connection: 2, id: Id::Str("a".to_string()) }));
    assert!(!key.same(&PendingKey { connection: 1, id: Id::Str("b".to_string()) }));
    assert_eq!(key.duplicate(), key);
}

#[test]
fn outcome_becomes_an_output() {
    assert_eq!(
        Output::from_outcome(Ok(Value::Unsigned(1)), Id::Num(5)),
        Output::Success { id: Id::Num(5), result: Value::Unsigned(1) }
    );
    let failure = Output::from_outcome(Err(RpcError::internal_error()), Id::Null);
    assert_eq!(failure, Output::Failure { id: Id::Null, error: RpcError::internal_error() });
    assert_eq!(failure.id(), &Id::Null);
}

#[test]
fn call_tells_its_kind() {
    let call = method_call(1, "a");
    assert_eq!(call.id(), Some(&Id::Num(1)));
    assert!(call.is_valid() && call.is_deferrable() && !call.is_notification());
    let note = notification("n");
    assert_eq!(note.id(), None);
    assert!(note.is_valid() && !note.is_deferrable() && note.is_notification());
    let invalid = Call::Invalid { id: Id::Num(2) };
    assert_eq!(invalid.id(), Some(&Id::Num(2)));
    assert!(!invalid.is_valid() && invalid.is_deferrable() && !invalid.is_notification());
    assert!(!Call::Invalid { id: Id::Null }.is_deferrable());
}

#[test]
fn envelope_counts_only_calls_that_expect_an_output() {
    let body = Request::Batch(vec![
        notification("n"),
        method_call(1, "a"),
        Call::Invalid { id: Id::Null },
        notification("m"),
    ]);
    let mut envelope = BatchEnvelope::open(&body);
    assert!(envelope.is_batch());
    assert!(!envelope.is_flushed());
    assert_eq!(envelope.outstanding(), 2);
    assert!(!envelope.accepts(0));
    assert!(envelope.accepts(1));
    assert!(envelope.accepts(2));
    assert!(!envelope.accepts(3));
    assert!(!envelope.accepts(4));

    assert_eq!(envelope.resolve(0, Ok(Value::Null)), Err(ServerError::NotRespondable));
    assert_eq!(envelope.resolve(4, Ok(Value::Null)), Err(ServerError::AlreadyResolved));
    assert_eq!(envelope.resolve(2, Err(RpcError::invalid_request())), Ok(Completion::Buffered));
    assert_eq!(envelope.outstanding(), 1);
    assert_eq!(envelope.resolve(2, Ok(Value::Null)), Err(ServerError::AlreadyResolved));
    assert_eq!(envelope.outstanding(), 1);
    assert_eq!(
        envelope.resolve(1, Ok(Value::Unsigned(9))),
        Ok(Completion::Flush(Response::Batch(vec![
            Output::Success { id: Id::Num(1), result: Value::Unsigned(9) },
            Output::Failure { id: Id::Null, error: RpcError::invalid_request() },
        ])))
    );
    assert!(envelope.is_flushed());
    assert_eq!(envelope.outstanding(), 0);
    assert_eq!(envelope.resolve(1, Ok(Value::Null)), Err(ServerError::AlreadyResolved));
    assert_eq!(envelope.resolve(0, Ok(Value::Null)), Err(ServerError::AlreadyResolved));
    assert_eq!(envelope.abandon_all(), None);
}

#[test]
fn envelope_of_a_single_notification_is_flushed_from_the_start() {
    let mut envelope = BatchEnvelope::open(&Request::Single(notification("n")));
    assert!(!envelope.is_batch());
    assert!(envelope.is_flushed());
    assert_eq!(envelope.outstanding(), 0);
    assert_eq!(envelope.abandon_all(), None);
    assert_eq!(envelope.resolve(0, Ok(Value::Null)), Err(ServerError::AlreadyResolved));
}

#[test]
fn abandoning_an_envelope_answers_what_is_open() {
    let body = Request::Batch(vec![method_call(1, "a"), notification("n"), method_call(2, "b")]);
    let mut envelope = BatchEnvelope::open(&body);
    assert_eq!(envelope.resolve(2, Ok(Value::Bool(true))), Ok(Completion::Buffered));
    assert_eq!(
        envelope.abandon_all(),
        Some(Response::Batch(vec![
            Output::Failure { id: Id::Num(1), error: RpcError::abandoned() },
            Output::Success { id: Id::Num(2), result: Value::Bool(true) },
        ]))
    );
    assert!(envelope.is_flushed());
    assert_eq!(envelope.abandon_all(), None);

    let mut single = BatchEnvelope::open(&Request::Single(method_call(3, "c")));
    assert_eq!(
        single.abandon_all(),
        Some(Response::Single(Output::Failure { id: Id::Num(3), error: RpcError::abandoned() }))
    );
}

#[test]
fn store_keeps_one_request_under_each_key() {
    let mut rest = handles(1, vec![method_call(1, "a"), method_call(2, "b"), method_call(3, "c")]);
    let c = rest.pop().unwrap();
    let b = rest.pop().unwrap();
    let a = rest.pop().unwrap();
    let mut store = PendingRequestStore::new();
    let key = |id: u64| PendingKey { connection: 1, id: Id::Num(id) };
    assert!(!store.contains(&key(1)));
    assert_eq!(store.insert(key(1), a), None);
    assert_eq!(store.insert(key(2), b), None);
    assert!(store.contains(&key(1)));
    assert!(store.contains(&key(2)));
    assert!(!store.contains(&key(3)));

    let displaced = store.insert(key(1), c).unwrap();
    assert_eq!(displaced.method(), "a");
    assert_eq!(store.take(&key(3)), None);
    assert_eq!(store.take(&key(1)).unwrap().method(), "c");
    assert_eq!(store.take(&key(1)), None);
    assert!(!store.contains(&key(1)));
    assert_eq!(store.take(&key(2)).unwrap().method(), "b");
    assert_eq!(store.take(&key(2)), None);
}

#[test]
fn store_evicts_one_connection_only() {
    let mut first = handles(1, vec![method_call(1, "a"), method_call(2, "b")]);
    let mut second = handles(2, vec![method_call(1, "c")]);
    let mut store = PendingRequestStore::new();
    let key = |connection: u64, id: u64| PendingKey { connection, id: Id::Num(id) };
    store.insert(key(1, 2), first.pop().unwrap());
    store.insert(key(2, 1), second.pop().unwrap());
    store.insert(key(1, 1), first.pop().unwrap());

    let evicted = store.evict_for_connection(1);
    let mut names: Vec<(u64, String)> = Vec::new();
    for entry in &evicted {
        assert_eq!(entry.key.connection, 1);
        assert_eq!(Some(&entry.key.id), entry.request.id());
        names.push((entry.request.index() as u64, entry.request.method().to_string()));
    }
    names.sort();
    assert_eq!(names, vec![(0, "a".to_string()), (1, "b".to_string())]);
    assert!(!store.contains(&key(1, 1)));
    assert!(!store.contains(&key(1, 2)));
    assert!(store.contains(&key(2, 1)));
    assert_eq!(store.evict_for_connection(1), vec![]);
    assert_eq!(store.evict_for_connection(3), vec![]);
    assert_eq!(store.take(&key(2, 1)).unwrap().method(), "c");
}

#[test]
fn manager_hands_out_fresh_identifiers() {
    let mut manager = SubscriptionManager::new();
    assert!(manager.has_room());
    assert!(!manager.is_live(0));
    let first = manager.subscribe(10).unwrap();
    let second = manager.subscribe(11).unwrap();
    assert_eq!((first.id, first.connection), (0, 10));
    assert_eq!((second.id, second.connection), (1, 11));
    assert!(manager.is_live(0));
    assert!(manager.is_live(1));
    assert!(!manager.is_live(2));
    assert!(manager.unsubscribe(0));
    assert!(!manager.is_live(0));
    assert!(manager.is_live(1));
    assert!(!manager.unsubscribe(0));
    let third = manager.subscribe(10).unwrap();
    assert_eq!(third.id, 2);
}

#[test]
fn manager_pushes_to_the_connection_of_the_subscription() {
    let mut manager = SubscriptionManager::new();
    manager.subscribe(10).unwrap();
    manager.subscribe(11).unwrap();
    let push = manager.push(1, Value::Text("v".to_string())).unwrap();
    assert_eq!(push.connection, 11);
    assert_eq!(
        push.message,
        Call::Notification {
            method: "subscription".to_string(),
            params: Params::Named(vec![
                ("subscription".to_string(), Value::Unsigned(1)),
                ("result".to_string(), Value::Text("v".to_string())),
            ]),
        }
    );
    assert_eq!(manager.push(0, Value::Null).unwrap().connection, 10);
    assert_eq!(manager.push(2, Value::Null), Err(ServerError::UnknownSubscription));
}

#[test]
fn manager_ends_the_subscriptions_of_a_connection() {
    let mut manager = SubscriptionManager::new();
    manager.subscribe(10).unwrap();
    manager.subscribe(11).unwrap();
    manager.subscribe(10).unwrap();
    manager.close_connection(10);
    assert!(!manager.is_live(0));
    assert!(manager.is_live(1));
    assert!(!manager.is_live(2));
    assert_eq!(manager.subscribe(10).unwrap().id, 3);
    manager.clear();
    assert!(!manager.is_live(1));
    assert!(!manager.is_live(3));
    assert_eq!(manager.subscribe(12).unwrap().id, 4);
}

#[test]
fn store_hands_out_everything_it_keeps() {
    let mut first = handles(1, vec![method_call(1, "a"), method_call(2, "b")]);
    let mut second = handles(2, vec![method_call(1, "c")]);
    let mut store = PendingRequestStore::new();
    let key = |connection: u64, id: u64| PendingKey { connection, id: Id::Num(id) };
    store.insert(key(1, 2), first.pop().unwrap());
    store.insert(key(2, 1), second.pop().unwrap());
    store.insert(key(1, 1), first.pop().unwrap());

    let evicted = store.evict_all();
    let mut names: Vec<(u64, String)> = Vec::new();
    for entry in &evicted {
        assert_eq!(Some(&entry.key.id), entry.request.id());
        assert_eq!(entry.key.connection, entry.request.connection());
        names.push((entry.key.connection, entry.request.method().to_string()));
    }
    names.sort();
    assert_eq!(
        names,
        vec![(1, "a".to_string()), (1, "b".to_string()), (2, "c".to_string())]
    );
    assert!(!store.contains(&key(1, 1)));
    assert!(!store.contains(&key(1, 2)));
    assert!(!store.contains(&key(2, 1)));
    assert_eq!(store.evict_all(), vec![]);
}
