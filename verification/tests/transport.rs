use jsonrpc_server::{
    Call, Completion, Flush, Id, NextRequest, Output, Params, PendingKey, Request, Response,
    RpcError, Server, ServerError, ServerRq, Value,
};

fn method_call(id: u64, method: &str) -> Call {
    Call::MethodCall { id: Id::Num(id), method: method.to_string(), params: Params::Absent }
}

fn notification(method: &str) -> Call {
    Call::Notification { method: method.to_string(), params: Params::Absent }
}

fn ready(server: &mut Server) -> ServerRq {
    match server.next_request() {
        Ok(NextRequest::Ready(request)) => request,
        other => panic!("no call is ready: {:?}", other),
    }
}

fn abandoned(id: u64) -> Output {
    Output::Failure {
        id: Id::Num(id),
        error: RpcError { code: -32000, message: "Request abandoned".to_string(), data: None },
    }
}

fn connection_closed(id: u64) -> Output {
    Output::Failure {
        id: Id::Num(id),
        error: RpcError { code: -32001, message: "Connection closed".to_string(), data: None },
    }
}

#[test]
fn fresh_server_asks_for_the_transport() {
    let mut server = Server::new();
    assert!(!server.is_closed());
    assert_eq!(server.next_request(), Ok(NextRequest::Pull));
    assert_eq!(server.next_request(), Ok(NextRequest::Pull));
}

#[test]
fn calls_are_handed_out_in_order_before_the_next_request() {
    let mut server = Server::new();
    let first = server
        .accept(0, Request::Batch(vec![method_call(1, "a"), notification("b"), method_call(2, "c")]))
        .unwrap();
    let second = server.accept(0, Request::Single(method_call(3, "d"))).unwrap();
    assert_eq!((first.envelope, second.envelope), (0, 1));
    let mut seen = Vec::new();
    for _ in 0..4 {
        let request = ready(&mut server);
        seen.push((request.envelope(), request.index(), request.method().to_string()));
    }
    assert_eq!(
        seen,
        vec![
            (0, 0, "a".to_string()),
            (0, 1, "b".to_string()),
            (0, 2, "c".to_string()),
            (1, 0, "d".to_string()),
        ]
    );
    assert_eq!(server.next_request(), Ok(NextRequest::Pull));
}

#[test]
fn empty_batch_needs_no_response() {
    let mut server = Server::new();
    let accepted = server.accept(0, Request::Batch(vec![])).unwrap();
    assert!(accepted.flushed);
    assert_eq!(server.next_request(), Ok(NextRequest::Pull));
}

#[test]
fn fault_is_reported_once_and_the_stream_goes_on() {
    let mut server = Server::new();
    server.accept(0, Request::Single(method_call(1, "a"))).unwrap();
    server.fault();
    assert_eq!(server.next_request(), Err(ServerError::TransportFault));
    let request = ready(&mut server);
    assert_eq!(request.method(), "a");
    assert_eq!(server.next_request(), Ok(NextRequest::Pull));
    assert!(!server.is_closed());
}

#[test]
fn closing_abandons_every_open_call() {
    let mut server = Server::new();
    server.accept(0, Request::Batch(vec![method_call(1, "a"), method_call(2, "b")])).unwrap();
    server.accept(0, Request::Batch(vec![notification("n")])).unwrap();
    server.accept(1, Request::Single(method_call(3, "c"))).unwrap();
    server.accept(1, Request::Single(method_call(4, "d"))).unwrap();
    let a = ready(&mut server);
    let _b = ready(&mut server);
    let _n = ready(&mut server);
    let c = ready(&mut server);
    assert_eq!(a.respond(&mut server, Ok(Value::Unsigned(1))), Ok(Completion::Buffered));
    assert_eq!(
        c.respond(&mut server, Ok(Value::Unsigned(3))),
        Ok(Completion::Flush(Response::Single(Output::Success {
            id: Id::Num(3),
            result: Value::Unsigned(3),
        })))
    );

    let flushes = server.close();
    assert_eq!(
        flushes,
        vec![
            Flush {
                envelope: 0,
                response: Response::Batch(vec![
                    Output::Success { id: Id::Num(1), result: Value::Unsigned(1) },
                    abandoned(2),
                ]),
            },
            Flush { envelope: 3, response: Response::Single(abandoned(4)) },
        ]
    );
    assert!(server.is_closed());
    assert_eq!(server.next_request(), Err(ServerError::TransportClosed));
    assert_eq!(server.next_request(), Err(ServerError::TransportClosed));
    assert_eq!(server.close(), vec![]);
}

#[test]
fn closed_server_accepts_nothing() {
    let mut server = Server::new();
    server.close();
    assert_eq!(
        server.accept(0, Request::Single(method_call(1, "a"))),
        Err(ServerError::TransportClosed)
    );
    server.fault();
    assert_eq!(server.next_request(), Err(ServerError::TransportClosed));
}

#[test]
fn handle_of_a_closed_server_is_already_resolved() {
    let mut server = Server::new();
    server.accept(0, Request::Batch(vec![method_call(1, "a"), method_call(2, "b")])).unwrap();
    let a = ready(&mut server);
    let b = ready(&mut server);
    assert_eq!(server.close().len(), 1);
    assert_eq!(a.respond(&mut server, Ok(Value::Null)), Err(ServerError::AlreadyResolved));
    let refused = b.into_subscription(&mut server, Value::Null).unwrap_err();
    assert_eq!(refused.reason, ServerError::AlreadyResolved);
    assert_eq!(refused.request.method(), "b");
    assert_eq!(refused.request.abandon(&mut server), Err(ServerError::AlreadyResolved));
}

#[test]
fn closing_drops_kept_requests_and_subscriptions() {
    let mut server = Server::new();
    server.accept(0, Request::Batch(vec![method_call(1, "a"), method_call(2, "b")])).unwrap();
    let a = ready(&mut server);
    let b = ready(&mut server);
    let key = a.defer(&mut server).unwrap().ticket.key;
    let subscribed = b.into_subscription(&mut server, Value::Null).unwrap();
    assert_eq!(subscribed.ack, Completion::Buffered);
    let flushes = server.close();
    assert_eq!(
        flushes,
        vec![Flush {
            envelope: 0,
            response: Response::Batch(vec![
                connection_closed(1),
                Output::Success { id: Id::Num(2), result: Value::Unsigned(0) },
            ]),
        }]
    );
    assert_eq!(server.take_deferred(&key), None);
    assert_eq!(key, PendingKey { connection: 0, id: Id::Num(1) });
    assert_eq!(server.push(0, Value::Null), Err(ServerError::UnknownSubscription));
}

#[test]
fn every_batch_is_flushed_exactly_once() {
    let mut server = Server::new();
    let calls: Vec<Call> = vec![
        notification("n1"),
        method_call(1, "a"),
        notification("n2"),
        method_call(2, "b"),
        method_call(3, "c"),
    ];
    server.accept(0, Request::Batch(calls)).unwrap();
    let mut flushed = 0;
    let mut outputs_seen = 0;
    let mut handles = Vec::new();
    for _ in 0..5 {
        handles.push(ready(&mut server));
    }
    // answer from the last call to the first
    while let Some(request) = handles.pop() {
        let index = request.index() as u64;
        match request.respond(&mut server, Ok(Value::Unsigned(index))) {
            Ok(Completion::Flush(Response::Batch(outputs))) => {
                flushed += 1;
                outputs_seen = outputs.len();
                assert_eq!(
                    outputs,
                    vec![
                        Output::Success { id: Id::Num(1), result: Value::Unsigned(1) },
                        Output::Success { id: Id::Num(2), result: Value::Unsigned(3) },
                        Output::Success { id: Id::Num(3), result: Value::Unsigned(4) },
                    ]
                );
            },
            Ok(Completion::Flush(other)) => panic!("not a batch: {:?}", other),
            Ok(Completion::Buffered) => {},
            Err(error) => assert_eq!(error, ServerError::NotRespondable),
        }
    }
    assert_eq!(flushed, 1);
    assert_eq!(outputs_seen, 3);
    assert_eq!(server.close(), vec![]);
}

#[test]
fn closing_evicts_kept_requests_before_it_abandons() {
    let mut server = Server::new();
    server
        .accept(5, Request::Batch(vec![method_call(1, "a"), notification("n"), method_call(2, "b")]))
        .unwrap();
    server.accept(5, Request::Batch(vec![method_call(3, "c"), method_call(4, "d")])).unwrap();
    server.accept(6, Request::Single(method_call(5, "e"))).unwrap();
    let a = ready(&mut server);
    let _n = ready(&mut server);
    let b = ready(&mut server);
    let c = ready(&mut server);
    let _d = ready(&mut server);
    let key_a = a.defer(&mut server).unwrap().ticket.key;
    let key_b = b.defer(&mut server).unwrap().ticket.key;
    let key_c = c.defer(&mut server).unwrap().ticket.key;

    let flushes = server.close();
    assert_eq!(
        flushes,
        vec![
            // every open call of the first request was kept: the evictions answer it
            Flush {
                envelope: 0,
                response: Response::Batch(vec![connection_closed(1), connection_closed(2)]),
            },
            // the second request had a call in the application's hands
            Flush {
                envelope: 1,
                response: Response::Batch(vec![connection_closed(3), abandoned(4)]),
            },
            // the third request was still waiting to be handed out
            Flush { envelope: 2, response: Response::Single(abandoned(5)) },
        ]
    );
    assert_eq!(server.next_request(), Err(ServerError::TransportClosed));
    assert_eq!(server.take_deferred(&key_a), None);
    assert_eq!(server.take_deferred(&key_b), None);
    assert_eq!(server.take_deferred(&key_c), None);
    assert!(!server.awaits(0, 0) && !server.awaits(0, 2));
    assert!(!server.awaits(1, 0) && !server.awaits(1, 1) && !server.awaits(2, 0));
    assert_eq!(server.close(), vec![]);
}

#[test]
fn closing_answers_a_kept_single_call_with_connection_closed() {
    let mut server = Server::new();
    server.accept(1, Request::Single(method_call(9, "a"))).unwrap();
    let a = ready(&mut server);
    a.defer(&mut server).unwrap();
    assert_eq!(
        server.close(),
        vec![Flush { envelope: 0, response: Response::Single(connection_closed(9)) }]
    );
}
