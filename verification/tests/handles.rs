use jsonrpc_server::{
    Call, Completion, Flush, Id, NextRequest, Output, Params, PendingKey, Request, Response,
    RpcError, Server, ServerError, ServerRq, Value,
};

fn method_call(id: Id, method: &str, params: Params) -> Call {
    Call::MethodCall { id, method: method.to_string(), params }
}

fn notification(method: &str) -> Call {
    Call::Notification { method: method.to_string(), params: Params::Absent }
}

fn ready(server: &mut Server) -> ServerRq {
    match server.next_request() {
        Ok(NextRequest::Ready(request)) => request,
        other => panic!("no call is ready: {:?}", other),
    }
}

fn abandoned() -> RpcError {
    RpcError { code: -32000, message: "Request abandoned".to_string(), data: None }
}

fn connection_closed() -> RpcError {
    RpcError { code: -32001, message: "Connection closed".to_string(), data: None }
}

#[test]
fn id_is_absent_exactly_for_a_notification() {
    let mut server = Server::new();
    let body = Request::Batch(vec![
        method_call(Id::Str("x".to_string()), "m", Params::Absent),
        notification("n"),
        Call::Invalid { id: Id::Null },
        method_call(Id::Null, "m", Params::Absent),
    ]);
    server.accept(0, body).unwrap();
    let call = ready(&mut server);
    assert_eq!(call.id(), Some(&Id::Str("x".to_string())));
    assert!(!call.is_notification());
    let note = ready(&mut server);
    assert_eq!(note.id(), None);
    assert!(note.is_notification());
    let invalid = ready(&mut server);
    assert_eq!(invalid.id(), Some(&Id::Null));
    assert!(!invalid.is_valid());
    assert!(!invalid.is_notification());
    assert_eq!(invalid.params().len(), 0);
    let null = ready(&mut server);
    assert_eq!(null.id(), Some(&Id::Null));
    assert!(null.is_valid());
}

#[test]
fn handle_knows_its_place() {
    let mut server = Server::new();
    server.accept(5, Request::Single(notification("first"))).unwrap();
    server
        .accept(
            6,
            Request::Batch(vec![
                method_call(Id::Num(1), "a", Params::Absent),
                method_call(Id::Num(2), "b", Params::Absent),
            ]),
        )
        .unwrap();
    let first = ready(&mut server);
    assert_eq!((first.envelope(), first.index(), first.connection()), (0, 0, 5));
    let a = ready(&mut server);
    assert_eq!((a.envelope(), a.index(), a.connection()), (1, 0, 6));
    let b = ready(&mut server);
    assert_eq!((b.envelope(), b.index(), b.connection()), (1, 1, 6));
    assert_eq!(b.call(), &method_call(Id::Num(2), "b", Params::Absent));
}

#[test]
fn responding_to_a_notification_changes_nothing() {
    let mut server = Server::new();
    let body = Request::Batch(vec![notification("n"), method_call(Id::Num(1), "a", Params::Absent)]);
    server.accept(0, body).unwrap();
    let note = ready(&mut server);
    let call = ready(&mut server);
    assert_eq!(
        note.respond(&mut server, Ok(Value::Bool(true))),
        Err(ServerError::NotRespondable)
    );
    assert!(server.awaits(0, 1));
    assert!(!server.awaits(0, 0));
    // the batch still waits for its one call, and answers with that call alone
    assert_eq!(
        call.respond(&mut server, Ok(Value::Signed(-3))),
        Ok(Completion::Flush(Response::Batch(vec![Output::Success {
            id: Id::Num(1),
            result: Value::Signed(-3),
        }])))
    );
    assert!(!server.awaits(0, 1));
}

#[test]
fn invalid_call_is_answered_with_an_error() {
    let mut server = Server::new();
    server.accept(0, Request::Single(Call::Invalid { id: Id::Null })).unwrap();
    let invalid = ready(&mut server);
    assert_eq!(
        invalid.respond(&mut server, Err(RpcError::invalid_request())),
        Ok(Completion::Flush(Response::Single(Output::Failure {
            id: Id::Null,
            error: RpcError {
                code: -32600,
                message: "Invalid Request".to_string(),
                data: None,
            },
        })))
    );
}

#[test]
fn abandoned_call_is_answered_with_the_abandoned_error() {
    let mut server = Server::new();
    let body = Request::Batch(vec![
        method_call(Id::Num(1), "a", Params::Absent),
        method_call(Id::Num(2), "b", Params::Absent),
    ]);
    server.accept(0, body).unwrap();
    let a = ready(&mut server);
    let b = ready(&mut server);
    assert_eq!(a.abandon(&mut server), Ok(Completion::Buffered));
    assert_eq!(
        b.respond(&mut server, Ok(Value::Null)),
        Ok(Completion::Flush(Response::Batch(vec![
            Output::Failure { id: Id::Num(1), error: abandoned() },
            Output::Success { id: Id::Num(2), result: Value::Null },
        ])))
    );
}

#[test]
fn abandoning_the_last_call_flushes_the_batch() {
    let mut server = Server::new();
    let body = Request::Batch(vec![
        method_call(Id::Num(1), "a", Params::Absent),
        method_call(Id::Num(2), "b", Params::Absent),
    ]);
    server.accept(0, body).unwrap();
    let a = ready(&mut server);
    let b = ready(&mut server);
    assert_eq!(a.respond(&mut server, Ok(Value::Unsigned(7))), Ok(Completion::Buffered));
    assert_eq!(
        b.abandon(&mut server),
        Ok(Completion::Flush(Response::Batch(vec![
            Output::Success { id: Id::Num(1), result: Value::Unsigned(7) },
            Output::Failure { id: Id::Num(2), error: abandoned() },
        ])))
    );
}

#[test]
fn abandoned_single_call_is_flushed() {
    let mut server = Server::new();
    server.accept(0, Request::Single(method_call(Id::Num(8), "a", Params::Absent))).unwrap();
    let a = ready(&mut server);
    assert_eq!(
        a.abandon(&mut server),
        Ok(Completion::Flush(Response::Single(Output::Failure {
            id: Id::Num(8),
            error: abandoned(),
        })))
    );
}

#[test]
fn deferred_handle_comes_back_unchanged() {
    let mut server = Server::new();
    let params = Params::Named(vec![("k".to_string(), Value::Array(vec![Value::Null]))]);
    let call = method_call(Id::Str("abc".to_string()), "later", params);
    server.accept(3, Request::Single(call)).unwrap();
    let request = ready(&mut server);
    let deferred = request.defer(&mut server).unwrap();
    assert_eq!(server.next_request(), Ok(NextRequest::Pull));

    let key = PendingKey { connection: 3, id: Id::Str("abc".to_string()) };
    assert_eq!(deferred.ticket.key, key);
    let back = server.take_deferred(&key).unwrap();
    assert_eq!(back.id(), Some(&Id::Str("abc".to_string())));
    assert_eq!(back.method(), "later");
    assert_eq!(back.params().get_key("k"), Ok(&Value::Array(vec![Value::Null])));
    assert_eq!(back.params().len(), 1);
    assert_eq!((back.envelope(), back.index(), back.connection()), (0, 0, 3));
    assert_eq!(server.take_deferred(&key), None);
    assert_eq!(
        back.respond(&mut server, Ok(Value::Null)),
        Ok(Completion::Flush(Response::Single(Output::Success {
            id: Id::Str("abc".to_string()),
            result: Value::Null,
        })))
    );
}

#[test]
fn key_holds_connection_and_identifier() {
    let mut server = Server::new();
    server.accept(1, Request::Single(method_call(Id::Num(1), "a", Params::Absent))).unwrap();
    server.accept(2, Request::Single(method_call(Id::Num(1), "b", Params::Absent))).unwrap();
    let a = ready(&mut server);
    let b = ready(&mut server);
    assert_eq!(a.defer(&mut server).unwrap().displaced, None);
    assert_eq!(b.defer(&mut server).unwrap().displaced, None);
    assert_eq!(server.take_deferred(&PendingKey { connection: 3, id: Id::Num(1) }), None);
    assert_eq!(server.take_deferred(&PendingKey { connection: 1, id: Id::Num(2) }), None);
    let b = server.take_deferred(&PendingKey { connection: 2, id: Id::Num(1) }).unwrap();
    assert_eq!(b.method(), "b");
    let a = server.take_deferred(&PendingKey { connection: 1, id: Id::Num(1) }).unwrap();
    assert_eq!(a.method(), "a");
}

#[test]
fn reused_key_displaces_the_earlier_request() {
    let mut server = Server::new();
    let body = Request::Batch(vec![
        method_call(Id::Num(1), "old", Params::Absent),
        method_call(Id::Num(1), "new", Params::Absent),
    ]);
    server.accept(0, body).unwrap();
    let old = ready(&mut server);
    let new = ready(&mut server);
    assert_eq!(old.defer(&mut server).unwrap().displaced, None);
    let deferred = new.defer(&mut server).unwrap();
    let displaced = deferred.displaced.unwrap();
    assert_eq!(displaced.method(), "old");
    assert_eq!(displaced.index(), 0);
    let kept = server.take_deferred(&deferred.ticket.key).unwrap();
    assert_eq!(kept.method(), "new");
    assert_eq!(kept.index(), 1);
}

#[test]
fn notification_and_call_without_identifier_cannot_be_deferred() {
    let mut server = Server::new();
    let body = Request::Batch(vec![
        notification("n"),
        Call::Invalid { id: Id::Null },
        Call::Invalid { id: Id::Num(3) },
    ]);
    server.accept(0, body).unwrap();
    let note = ready(&mut server);
    let refused = note.defer(&mut server).unwrap_err();
    assert_eq!(refused.reason, ServerError::NotDeferrable);
    assert_eq!(refused.request.method(), "n");

    let nameless = ready(&mut server);
    let refused = nameless.defer(&mut server).unwrap_err();
    assert_eq!(refused.reason, ServerError::NotDeferrable);
    assert_eq!(refused.request.id(), Some(&Id::Null));
    assert_eq!(refused.request.index(), 1);

    let named = ready(&mut server);
    let deferred = named.defer(&mut server).unwrap();
    assert_eq!(deferred.ticket.key, PendingKey { connection: 0, id: Id::Num(3) });
}

#[test]
fn notification_cannot_become_a_subscription() {
    let mut server = Server::new();
    server.accept(0, Request::Single(notification("n"))).unwrap();
    let note = ready(&mut server);
    let refused = note.into_subscription(&mut server, Value::Null).unwrap_err();
    assert_eq!(refused.reason, ServerError::NotRespondable);
    assert_eq!(refused.request.method(), "n");
    assert_eq!(server.push(0, Value::Null), Err(ServerError::UnknownSubscription));
}

#[test]
fn subscription_in_a_batch_is_acknowledged_with_the_batch() {
    let mut server = Server::new();
    let body = Request::Batch(vec![
        method_call(Id::Num(1), "sub", Params::Absent),
        method_call(Id::Num(2), "other", Params::Absent),
    ]);
    server.accept(4, body).unwrap();
    let sub = ready(&mut server);
    let other = ready(&mut server);
    let subscribed = sub.into_subscription(&mut server, Value::Null).unwrap();
    assert_eq!(subscribed.ack, Completion::Buffered);
    assert_eq!(subscribed.subscription.id, 0);
    assert_eq!(
        other.respond(&mut server, Ok(Value::Bool(false))),
        Ok(Completion::Flush(Response::Batch(vec![
            Output::Success { id: Id::Num(1), result: Value::Unsigned(0) },
            Output::Success { id: Id::Num(2), result: Value::Bool(false) },
        ])))
    );
}

#[test]
fn subscriptions_get_fresh_identifiers() {
    let mut server = Server::new();
    let body = Request::Batch(vec![
        method_call(Id::Num(1), "s", Params::Absent),
        method_call(Id::Num(2), "s", Params::Absent),
        method_call(Id::Num(3), "s", Params::Absent),
    ]);
    server.accept(4, body).unwrap();
    let first = ready(&mut server).into_subscription(&mut server, Value::Null).unwrap();
    assert_eq!(first.subscription.id, 0);
    assert!(server.unsubscribe(0));
    let second = ready(&mut server).into_subscription(&mut server, Value::Null).unwrap();
    assert_eq!(second.subscription.id, 1);
    let third = ready(&mut server).into_subscription(&mut server, Value::Null).unwrap();
    assert_eq!(third.subscription.id, 2);
    assert!(matches!(third.ack, Completion::Flush(Response::Batch(_))));
    assert_eq!(server.push(0, Value::Null), Err(ServerError::UnknownSubscription));
    assert_eq!(server.push(1, Value::Null).unwrap().connection, 4);
}

#[test]
fn closed_connection_answers_its_deferred_calls() {
    let mut server = Server::new();
    let body = Request::Batch(vec![
        method_call(Id::Num(1), "a", Params::Absent),
        method_call(Id::Num(2), "b", Params::Absent),
    ]);
    server.accept(7, body).unwrap();
    server.accept(8, Request::Single(method_call(Id::Num(1), "c", Params::Absent))).unwrap();
    let a = ready(&mut server);
    let b = ready(&mut server);
    let c = ready(&mut server);
    a.defer(&mut server).unwrap();
    c.defer(&mut server).unwrap();
    let sub = b.into_subscription(&mut server, Value::Null).unwrap();
    assert_eq!(sub.ack, Completion::Buffered);

    let flushes = server.close_connection(7);
    assert_eq!(
        flushes,
        vec![Flush {
            envelope: 0,
            response: Response::Batch(vec![
                Output::Failure { id: Id::Num(1), error: connection_closed() },
                Output::Success { id: Id::Num(2), result: Value::Unsigned(sub.subscription.id) },
            ]),
        }]
    );
    // the request of the closed connection is gone, the other one is still kept
    assert_eq!(server.take_deferred(&PendingKey { connection: 7, id: Id::Num(1) }), None);
    assert_eq!(
        server.push(sub.subscription.id, Value::Null),
        Err(ServerError::UnknownSubscription)
    );
    let c = server.take_deferred(&PendingKey { connection: 8, id: Id::Num(1) }).unwrap();
    assert_eq!(c.method(), "c");
    assert_eq!(server.close_connection(7), vec![]);
}

#[test]
fn closed_connection_leaves_open_batches_waiting() {
    let mut server = Server::new();
    let body = Request::Batch(vec![
        method_call(Id::Num(1), "a", Params::Absent),
        method_call(Id::Num(2), "b", Params::Absent),
    ]);
    server.accept(7, body).unwrap();
    let a = ready(&mut server);
    let b = ready(&mut server);
    a.defer(&mut server).unwrap();
    assert_eq!(server.close_connection(7), vec![]);
    assert!(!server.awaits(0, 0));
    assert!(server.awaits(0, 1));
    assert_eq!(
        b.respond(&mut server, Ok(Value::Null)),
        Ok(Completion::Flush(Response::Batch(vec![
            Output::Failure { id: Id::Num(1), error: connection_closed() },
            Output::Success { id: Id::Num(2), result: Value::Null },
        ])))
    );
}
