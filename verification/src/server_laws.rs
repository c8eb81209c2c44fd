//! What holds of the server whatever the calls are.

use vstd::prelude::*;
use crate::request::ServerRq;
use crate::server::{handles_for, key_of, ServerView};
use crate::types::Call;

verus! {

/// A request that is kept for later and then asked for under its key comes
/// back as it was: the same call, with its identifier, method and
/// parameters, at the same place of the same physical request. It comes back
/// once: asking again finds nothing.
pub proof fn law_defer_then_take(server: ServerView, request: ServerRq)
    ensures
        server.defer(request).kept(key_of(request)) == Some(request),
        server.defer(request).kept(key_of(request)).unwrap().call().spec_id()
            == request.call().spec_id(),
        server.defer(request).kept(key_of(request)).unwrap().call().spec_method()
            == request.call().spec_method(),
        server.defer(request).kept(key_of(request)).unwrap().call().spec_params()
            == request.call().spec_params(),
        server.defer(request).take(key_of(request)).kept(key_of(request)) is None,
        server.defer(request).take(key_of(request)).pending == server.pending.remove(
            key_of(request),
        ),
        server.defer(request).take(key_of(request)).envelopes == server.envelopes,
{
    assert(server.pending.insert(key_of(request), request).remove(key_of(request))
        =~= server.pending.remove(key_of(request)));
}

/// The calls of a physical request are handed out in the client's order:
/// the handle at each place of the queue holds the call of that place, and
/// knows its place, its physical request and its connection.
pub proof fn law_handles_in_order(envelope: usize, connection: u64, calls: Seq<Call>, place: int)
    requires
        0 <= place < calls.len(),
        calls.len() <= usize::MAX,
    ensures
        handles_for(envelope, connection, calls).len() == calls.len(),
        handles_for(envelope, connection, calls)[place].call() == calls[place],
        handles_for(envelope, connection, calls)[place].spec_index() == place,
        handles_for(envelope, connection, calls)[place].spec_envelope() == envelope,
        handles_for(envelope, connection, calls)[place].spec_connection() == connection,
{
    ServerRq::lemma_issued(envelope, place as usize, connection, calls[place]);
}

/// Settling a call changes the physical request of that call and no other.
pub proof fn law_settling_is_local(
    server: ServerView,
    envelope: int,
    index: int,
    outcome: Result<crate::types::Value, crate::types::RpcErrorView>,
    other: int,
)
    requires
        0 <= other < server.envelopes.len(),
        other != envelope,
    ensures
        server.settle(envelope, index, outcome).envelopes.len() == server.envelopes.len(),
        server.settle(envelope, index, outcome).envelopes[other] == server.envelopes[other],
        server.settle(envelope, index, outcome).pending == server.pending,
        server.settle(envelope, index, outcome).queue == server.queue,
{
}

} // verus!
