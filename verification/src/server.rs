//! The server: it splits physical requests into calls, hands the calls out
//! one by one, and recomposes the answers.
//!
//! The server does no I/O. Whoever owns the transport asks
//! [`Server::next_request`] what to do: either a call is ready to be handled,
//! or the transport has to be read, and what was read is handed over with
//! [`Server::accept`], [`Server::fault`] or [`Server::close`]. Answering a call
//! says whether the response of its physical request is due; writing it is
//! the transport owner's part.

use vstd::prelude::*;
use vstd::pervasive::VecAdditionalExecFns;
use std::collections::VecDeque;
use crate::batch::{
    abandon_slots, opened, outputs_of, resolution, response_of, BatchEnvelope, Completion,
    EnvelopeView,
};
use crate::pending::{
    evicted_all, evicted_from, PendingEntry, PendingKey, PendingKeyView, PendingRequestStore,
    PendingTicket,
};
use crate::request::ServerRq;
use crate::subscription::{
    is_push_message, no_subscriptions, push_message, Push, Subscription, SubscriptionManager,
    SubscriptionsView,
};
use crate::types::{
    abandoned_error, connection_closed_error, outcome_view, Call, Id, Request, Response,
    ResponseView, RpcError, RpcErrorView, ServerError, Value,
};

verus! {

/// What the server is, as a mathematical value.
pub struct ServerView {
    /// The physical requests accepted so far, in the order of their arrival.
    pub envelopes: Seq<EnvelopeView>,
    /// The calls that wait to be handed out, the next one first.
    pub queue: Seq<ServerRq>,
    /// The requests kept for later.
    pub pending: Map<PendingKeyView, ServerRq>,
    /// The live subscriptions.
    pub subscriptions: SubscriptionsView,
    /// Whether a failed read of the transport is still to be reported.
    pub fault: bool,
    /// Whether the transport has ended.
    pub closed: bool,
}

/// The handles for the calls of one physical request, in the client's order.
pub open spec fn handles_for(envelope: usize, connection: u64, calls: Seq<Call>) -> Seq<ServerRq> {
    Seq::new(calls.len(), |i: int| ServerRq::issued(envelope, i as usize, connection, calls[i]))
}

/// The key under which a request is kept for later.
pub open spec fn key_of(request: ServerRq) -> PendingKeyView {
    PendingKeyView {
        connection: request.spec_connection(),
        id: request.call().spec_id().unwrap()@,
    }
}

impl ServerView {
    /// A server that has seen nothing yet.
    pub open spec fn initial() -> ServerView {
        ServerView {
            envelopes: Seq::empty(),
            queue: Seq::empty(),
            pending: Map::empty(),
            subscriptions: SubscriptionsView { live: no_subscriptions(), next: 0 },
            fault: false,
            closed: false,
        }
    }

    /// The server once the physical request `body` has arrived over
    /// `connection`: it gets the next envelope, and its calls join the queue
    /// in the client's order. A closed server accepts nothing.
    pub open spec fn accept(self, connection: u64, body: Request) -> ServerView {
        if self.closed {
            self
        } else {
            ServerView {
                envelopes: self.envelopes.push(opened(body is Batch, body.calls())),
                queue: self.queue + handles_for(
                    self.envelopes.len() as usize,
                    connection,
                    body.calls(),
                ),
                ..self
            }
        }
    }

    /// Whether the call at `index` of the physical request `envelope` still
    /// waits for its output.
    pub open spec fn awaits(self, envelope: int, index: int) -> bool {
        0 <= envelope < self.envelopes.len() && self.envelopes[envelope].accepts(index)
    }

    /// The server once the call at `index` of the physical request
    /// `envelope` has been resolved with `outcome`. Only that envelope
    /// changes; a physical request that is not known changes nothing.
    pub open spec fn settle(
        self,
        envelope: int,
        index: int,
        outcome: Result<Value, RpcErrorView>,
    ) -> ServerView {
        if 0 <= envelope < self.envelopes.len() {
            ServerView {
                envelopes: self.envelopes.update(
                    envelope,
                    self.envelopes[envelope].resolve(index, outcome),
                ),
                ..self
            }
        } else {
            self
        }
    }

    /// The server once the call at `index` of the physical request
    /// `envelope`, which came over `connection`, has become a subscription:
    /// the call is answered with the subscription's identifier, and the
    /// subscription is live.
    pub open spec fn subscribe(self, envelope: int, index: int, connection: u64) -> ServerView {
        let id = self.subscriptions.next;
        ServerView {
            subscriptions: SubscriptionsView {
                live: self.subscriptions.live.insert(id, connection),
                next: (id + 1) as u64,
            },
            ..self.settle(envelope, index, Ok(Value::Unsigned(id)))
        }
    }

    /// The server once the transport has ended. The requests kept for later
    /// are evicted, in the order of `evicted`, and their calls closed with
    /// their connection; then every call that is still open is abandoned.
    /// Nothing waits or is kept any more, and no subscription is live.
    pub open spec fn close(self, evicted: Seq<PendingEntry>) -> ServerView {
        ServerView {
            envelopes: evict_run(self.envelopes, evicted).map_values(
                |e: EnvelopeView| e.abandon_all(),
            ),
            queue: Seq::empty(),
            pending: Map::empty(),
            subscriptions: SubscriptionsView {
                live: no_subscriptions(),
                next: self.subscriptions.next,
            },
            fault: self.fault,
            closed: true,
        }
    }

    /// The server once `request` has been kept for later under its key.
    pub open spec fn defer(self, request: ServerRq) -> ServerView {
        ServerView { pending: self.pending.insert(key_of(request), request), ..self }
    }

    /// The request that asking for `key` hands out.
    pub open spec fn kept(self, key: PendingKeyView) -> Option<ServerRq> {
        if self.pending.contains_key(key) {
            Some(self.pending[key])
        } else {
            None
        }
    }

    /// The server once the request under `key` has been asked for.
    pub open spec fn take(self, key: PendingKeyView) -> ServerView {
        ServerView { pending: self.pending.remove(key), ..self }
    }
}

/// How settling a call ends, given the server before it.
pub open spec fn settlement(
    before: ServerView,
    envelope: int,
    index: int,
    outcome: Result<Value, RpcErrorView>,
    result: Result<Completion, ServerError>,
) -> bool {
    if 0 <= envelope < before.envelopes.len() {
        resolution(before.envelopes[envelope], index, outcome, result)
    } else {
        result == Err::<Completion, ServerError>(ServerError::AlreadyResolved)
    }
}

/// The responses that become due when every open call is abandoned: one
/// for each physical request with an open call, in the order of the requests.
pub open spec fn closing_writes(envelopes: Seq<EnvelopeView>) -> Seq<FlushView>
    decreases envelopes.len(),
{
    if envelopes.len() == 0 {
        Seq::empty()
    } else if envelopes.last().flushed {
        closing_writes(envelopes.drop_last())
    } else {
        closing_writes(envelopes.drop_last()).push(
            FlushView {
                envelope: envelopes.len() - 1,
                response: response_of(
                    envelopes.last().batch,
                    outputs_of(abandon_slots(envelopes.last().slots)),
                ),
            },
        )
    }
}

/// The envelopes once the call of `request` has been closed with its
/// connection.
pub open spec fn evict_one(envelopes: Seq<EnvelopeView>, request: ServerRq) -> Seq<EnvelopeView> {
    let envelope = request.spec_envelope() as int;
    if 0 <= envelope < envelopes.len() {
        envelopes.update(
            envelope,
            envelopes[envelope].resolve(
                request.spec_index() as int,
                Err(connection_closed_error()),
            ),
        )
    } else {
        envelopes
    }
}

/// The envelopes once the calls of the evicted requests have been closed
/// with their connection, one after the other.
pub open spec fn evict_run(envelopes: Seq<EnvelopeView>, evicted: Seq<PendingEntry>) -> Seq<
    EnvelopeView,
>
    decreases evicted.len(),
{
    if evicted.len() == 0 {
        envelopes
    } else {
        evict_one(evict_run(envelopes, evicted.drop_last()), evicted.last().request)
    }
}

/// The responses that become due while the calls of the evicted requests
/// are closed with their connection, one after the other.
pub open spec fn evict_writes(envelopes: Seq<EnvelopeView>, evicted: Seq<PendingEntry>) -> Seq<
    FlushView,
>
    decreases evicted.len(),
{
    if evicted.len() == 0 {
        Seq::empty()
    } else {
        let before = evict_run(envelopes, evicted.drop_last());
        let request = evicted.last().request;
        let envelope = request.spec_envelope() as int;
        let index = request.spec_index() as int;
        if 0 <= envelope < before.len() && before[envelope].completes(index) {
            evict_writes(envelopes, evicted.drop_last()).push(
                FlushView {
                    envelope,
                    response: response_of(
                        before[envelope].batch,
                        outputs_of(
                            before[envelope].filled(index, Err(connection_closed_error())),
                        ),
                    ),
                },
            )
        } else {
            evict_writes(envelopes, evicted.drop_last())
        }
    }
}

/// What the server wants next from the owner of the transport.
#[derive(Debug, PartialEq, Eq)]
pub enum NextRequest {
    /// A call is ready to be handled.
    Ready(ServerRq),
    /// No call is waiting: read the transport and hand over what was read.
    Pull,
}

/// What accepting a physical request gave.
#[derive(Debug, Clone, Copy, PartialEq, Eq, Structural)]
pub struct Accepted {
    /// The number of the physical request, to write its response under.
    pub envelope: usize,
    /// Whether the request needs no response: it holds no call that expects
    /// an output.
    pub flushed: bool,
}

/// The response that is due for one physical request.
#[derive(Debug, PartialEq, Eq)]
pub struct Flush {
    /// The number of the physical request.
    pub envelope: usize,
    /// What to write.
    pub response: Response,
}

/// What a [`Flush`] is, as a mathematical value.
pub struct FlushView {
    pub envelope: int,
    pub response: ResponseView,
}

impl View for Flush {
    type V = FlushView;

    open spec fn view(&self) -> FlushView {
        FlushView { envelope: self.envelope as int, response: self.response@ }
    }
}

/// The views of a sequence of due responses, in the same order.
pub open spec fn flush_views(flushes: Seq<Flush>) -> Seq<FlushView> {
    flushes.map_values(|f: Flush| f@)
}

/// The views of a sequence of envelopes, in the same order.
pub open spec fn envelope_views(envelopes: Seq<BatchEnvelope>) -> Seq<EnvelopeView> {
    envelopes.map_values(|e: BatchEnvelope| e@)
}

/// A request that the server did not take, handed back with the reason.
#[derive(Debug, PartialEq, Eq)]
pub struct Refused {
    pub reason: ServerError,
    pub request: ServerRq,
}

/// What keeping a request for later gave.
#[derive(Debug, PartialEq, Eq)]
pub struct Deferred {
    /// The receipt to ask for the request with.
    pub ticket: PendingTicket,
    /// The request that was kept under the same key before, and gave way.
    pub displaced: Option<ServerRq>,
}

/// What turning a request into a subscription gave.
#[derive(Debug, PartialEq, Eq)]
pub struct Subscribed {
    /// The live subscription.
    pub subscription: Subscription,
    /// What acknowledging the call did to its physical request.
    pub ack: Completion,
    /// The first push of the subscription: the initial value.
    pub first: Push,
}

/// The server. See the module's description.
pub struct Server {
    envelopes: Vec<BatchEnvelope>,
    queue: VecDeque<ServerRq>,
    pending: PendingRequestStore,
    subscriptions: SubscriptionManager,
    fault: bool,
    closed: bool,
}

impl View for Server {
    type V = ServerView;

    closed spec fn view(&self) -> ServerView {
        ServerView {
            envelopes: envelope_views(self.envelopes@),
            queue: self.queue@,
            pending: self.pending@,
            subscriptions: self.subscriptions@,
            fault: self.fault,
            closed: self.closed,
        }
    }
}

impl Server {
    /// The invariant of the server: all its parts are well formed.
    pub closed spec fn wf(&self) -> bool {
        &&& forall|i: int| 0 <= i < self.envelopes@.len() ==> (#[trigger] self.envelopes@[i]).wf()
        &&& self.pending.wf()
        &&& self.subscriptions@.wf()
    }

    /// Every physical request of a well-formed server is well formed, so
    /// that what holds of every envelope holds of each of them.
    pub proof fn lemma_envelopes_wf(&self)
        requires
            self.wf(),
        ensures
            forall|i: int| 0 <= i < self@.envelopes.len() ==> (#[trigger] self@.envelopes[i]).wf(),
    {
        assert forall|i: int| 0 <= i < self@.envelopes.len() implies (
        #[trigger] self@.envelopes[i]).wf() by {
            self.envelopes@[i].lemma_wf();
        }
    }

    /// Starts a server that has seen nothing yet.
    pub fn new() -> (r: Server)
        ensures
            r.wf(),
            r@ == ServerView::initial(),
    {
        let r = Server {
            envelopes: Vec::new(),
            queue: VecDeque::new(),
            pending: PendingRequestStore::new(),
            subscriptions: SubscriptionManager::new(),
            fault: false,
            closed: false,
        };
        assert(envelope_views(r.envelopes@) =~= Seq::<EnvelopeView>::empty());
        r
    }

    /// Whether the transport has ended.
    pub fn is_closed(&self) -> (r: bool)
        ensures
            r == self@.closed,
    {
        self.closed
    }

    /// Says what is to be done next.
    ///
    /// Once the transport has ended, every call reports so. Else a failed
    /// read that was handed over is reported, once. Else the next waiting
    /// call is handed out: the calls of one physical request come in the
    /// client's order, and all of them before those of the next request. If
    /// no call is waiting, the transport is to be read.
    pub fn next_request(&mut self) -> (r: Result<NextRequest, ServerError>)
        requires
            old(self).wf(),
        ensures
            final(self).wf(),
            if old(self)@.closed {
                r == Err::<NextRequest, ServerError>(ServerError::TransportClosed) && final(self)@
                    == old(self)@
            } else if old(self)@.fault {
                r == Err::<NextRequest, ServerError>(ServerError::TransportFault) && final(self)@
                    == (ServerView { fault: false, ..old(self)@ })
            } else if old(self)@.queue.len() > 0 {
                r == Ok::<NextRequest, ServerError>(NextRequest::Ready(old(self)@.queue[0]))
                    && final(self)@ == (ServerView {
                    queue: old(self)@.queue.skip(1),
                    ..old(self)@
                })
            } else {
                r == Ok::<NextRequest, ServerError>(NextRequest::Pull) && final(self)@ == old(
                    self,
                )@
            },
    {
        if self.closed {
            return Err(ServerError::TransportClosed);
        }
        if self.fault {
            self.fault = false;
            return Err(ServerError::TransportFault);
        }
        match self.queue.pop_front() {
            Some(request) => {
                assert(self.queue@ =~= old(self).queue@.skip(1));
                Ok(NextRequest::Ready(request))
            },
            None => Ok(NextRequest::Pull),
        }
    }

    /// Takes note that one read of the transport failed. The failure is
    /// reported by the next call of [`Server::next_request`]; the stream
    /// goes on.
    pub fn fault(&mut self)
        requires
            old(self).wf(),
        ensures
            final(self).wf(),
            final(self)@ == (ServerView { fault: true, ..old(self)@ }),
    {
        self.fault = true;
    }

    /// Accepts one physical request that arrived over `connection`.
    ///
    /// A single call is handled as a batch of one. Every call gets a handle,
    /// notifications too; the handles join the queue in the client's order.
    /// Only the calls that expect an output count as outstanding: a request
    /// of notifications only is flushed at once and never gets a response.
    /// A server whose transport has ended accepts nothing.
    pub fn accept(&mut self, connection: u64, body: Request) -> (r: Result<Accepted, ServerError>)
        requires
            old(self).wf(),
        ensures
            final(self).wf(),
            final(self)@ == old(self)@.accept(connection, body),
            match r {
                Ok(accepted) => {
                    &&& !old(self)@.closed
                    &&& accepted.envelope == old(self)@.envelopes.len()
                    &&& accepted.flushed == opened(body is Batch, body.calls()).flushed
                },
                Err(error) => old(self)@.closed && error == ServerError::TransportClosed,
            },
    {
        if self.closed {
            return Err(ServerError::TransportClosed);
        }
        let envelope = BatchEnvelope::open(&body);
        let flushed = envelope.is_flushed();
        let number = self.envelopes.len();
        let ghost calls = body.calls();
        let ghost waiting = self.queue@;
        proof {
            assert(envelope_views(self.envelopes@.push(envelope)) =~= envelope_views(
                self.envelopes@,
            ).push(envelope@));
        }
        self.envelopes.push(envelope);
        match body {
            Request::Single(call) => {
                self.queue.push_back(ServerRq::issue(number, 0, connection, call));
                proof {
                    assert(self.queue@ =~= waiting + handles_for(number, connection, calls));
                }
            },
            Request::Batch(calls_in) => {
                let mut rest = calls_in;
                let mut i: usize = 0;
                while i < rest.len()
                    invariant
                        i <= rest@.len(),
                        rest@.len() == calls.len(),
                        forall|j: int| i <= j < calls.len() ==> rest@[j] == calls[j],
                        self.queue@ == waiting + handles_for(number, connection, calls).take(
                            i as int,
                        ),
                        self.envelopes@ == old(self).envelopes@.push(envelope),
                        self.pending == old(self).pending,
                        self.subscriptions == old(self).subscriptions,
                        self.fault == old(self).fault,
                        self.closed == old(self).closed,
                    decreases rest@.len() - i,
                {
                    let mut call = Call::Invalid { id: Id::Null };
                    rest.set_and_swap(i, &mut call);
                    let ghost queued = self.queue@;
                    self.queue.push_back(ServerRq::issue(number, i, connection, call));
                    proof {
                        let all = handles_for(number, connection, calls);
                        assert(all.take(i as int + 1) =~= all.take(i as int).push(all[i as int]));
                        assert(self.queue@ =~= waiting + all.take(i as int + 1));
                    }
                    i = i + 1;
                }
                proof {
                    let all = handles_for(number, connection, calls);
                    assert(all.take(i as int) =~= all);
                }
            },
        }
        Ok(Accepted { envelope: number, flushed })
    }

    /// Resolves the call at `index` of the physical request `envelope`.
    fn settle(&mut self, envelope: usize, index: usize, outcome: Result<Value, RpcError>) -> (r:
        Result<Completion, ServerError>)
        requires
            old(self).wf(),
        ensures
            final(self).wf(),
            final(self)@ == old(self)@.settle(
                envelope as int,
                index as int,
                outcome_view(outcome),
            ),
            settlement(old(self)@, envelope as int, index as int, outcome_view(outcome), r),
    {
        if envelope >= self.envelopes.len() {
            return Err(ServerError::AlreadyResolved);
        }
        let ghost before = self.envelopes@;
        let r = self.envelopes[envelope].resolve(index, outcome);
        proof {
            assert(envelope_views(self.envelopes@) =~= envelope_views(before).update(
                envelope as int,
                before[envelope as int]@.resolve(index as int, outcome_view(outcome)),
            ));
        }
        r
    }

    /// Whether the call at `index` of the physical request `envelope` still
    /// waits for its output.
    pub fn awaits(&self, envelope: usize, index: usize) -> (r: bool)
        ensures
            r == self@.awaits(envelope as int, index as int),
    {
        envelope < self.envelopes.len() && self.envelopes[envelope].accepts(index)
    }

    /// Hands out the request that was kept for later under `key`, if there
    /// is one. The request is the one that was kept: its identifier, method
    /// and parameters are what they were.
    pub fn take_deferred(&mut self, key: &PendingKey) -> (r: Option<ServerRq>)
        requires
            old(self).wf(),
        ensures
            final(self).wf(),
            final(self)@ == old(self)@.take(key@),
            r == old(self)@.kept(key@),
    {
        self.pending.take(key)
    }

    /// Wraps `value` as the notification to write for the subscription
    /// `id`. A subscription that is not live, or no longer, is unknown; that
    /// is an ordinary outcome.
    pub fn push(&self, id: u64, value: Value) -> (r: Result<Push, ServerError>)
        ensures
            match r {
                Ok(push) => {
                    &&& self@.subscriptions.is_live(id)
                    &&& push.connection == self@.subscriptions.live[id]
                    &&& is_push_message(push.message, id, value)
                },
                Err(error) => !self@.subscriptions.is_live(id) && error
                    == ServerError::UnknownSubscription,
            },
    {
        self.subscriptions.push(id, value)
    }

    /// Ends the subscription `id`; further pushes to it fail. Says whether
    /// it was live.
    pub fn unsubscribe(&mut self, id: u64) -> (r: bool)
        requires
            old(self).wf(),
        ensures
            final(self).wf(),
            r == old(self)@.subscriptions.is_live(id),
            final(self)@ == (ServerView {
                subscriptions: SubscriptionsView {
                    live: old(self)@.subscriptions.live.remove(id),
                    next: old(self)@.subscriptions.next,
                },
                ..old(self)@
            }),
    {
        self.subscriptions.unsubscribe(id)
    }

    /// Closes the call of each evicted request with its connection, one
    /// after the other, and collects the responses that become due.
    fn evict(&mut self, evicted: &Vec<PendingEntry>) -> (r: Vec<Flush>)
        requires
            old(self).wf(),
        ensures
            final(self).wf(),
            final(self)@ == (ServerView {
                envelopes: evict_run(old(self)@.envelopes, evicted@),
                ..old(self)@
            }),
            flush_views(r@) == evict_writes(old(self)@.envelopes, evicted@),
    {
        let ghost before = envelope_views(self.envelopes@);
        let mut flushes: Vec<Flush> = Vec::new();
        let mut i: usize = 0;
        while i < evicted.len()
            invariant
                i <= evicted@.len(),
                self.wf(),
                envelope_views(self.envelopes@) == evict_run(before, evicted@.take(i as int)),
                flush_views(flushes@) == evict_writes(before, evicted@.take(i as int)),
                self@.pending == old(self)@.pending,
                self@.subscriptions == old(self)@.subscriptions,
                self@.queue == old(self)@.queue,
                self@.fault == old(self)@.fault,
                self@.closed == old(self)@.closed,
            decreases evicted@.len() - i,
        {
            let envelope = evicted[i].request.envelope();
            let index = evicted[i].request.index();
            let ghost done = flushes@;
            proof {
                assert(evicted@.take(i as int + 1).drop_last() =~= evicted@.take(i as int));
                assert(evicted@.take(i as int + 1).last() == evicted@[i as int]);
            }
            match self.settle(envelope, index, Err(RpcError::connection_closed())) {
                Ok(Completion::Flush(response)) => {
                    let flush = Flush { envelope, response };
                    proof {
                        assert(flush_views(done.push(flush)) =~= flush_views(done).push(flush@));
                    }
                    flushes.push(flush);
                },
                _ => {},
            }
            i = i + 1;
        }
        proof {
            assert(evicted@.take(i as int) =~= evicted@);
        }
        flushes
    }

    /// Takes note that the transport has ended. No physical request is left
    /// hanging. First the requests that were kept for later are evicted:
    /// each of their calls is answered with the error for a closed
    /// connection. Then every call that is still open is answered with the
    /// error for an abandoned call. The responses that become due are handed
    /// out: those that the evictions complete, then those of the requests
    /// that were still open, in the order of the requests. The waiting calls
    /// and the subscriptions are dropped.
    pub fn close(&mut self) -> (r: Vec<Flush>)
        requires
            old(self).wf(),
        ensures
            final(self).wf(),
            exists|evicted: Seq<PendingEntry>|
                {
                    &&& #[trigger] evicted_all(old(self)@.pending, evicted)
                    &&& final(self)@ == old(self)@.close(evicted)
                    &&& flush_views(r@) == evict_writes(old(self)@.envelopes, evicted)
                        + closing_writes(evict_run(old(self)@.envelopes, evicted))
                },
    {
        let evicted = self.pending.evict_all();
        let mut flushes = self.evict(&evicted);
        let ghost before = self.envelopes@;
        let ghost first = flush_views(flushes@);
        let mut i: usize = 0;
        while i < self.envelopes.len()
            invariant
                i <= self.envelopes@.len(),
                self.envelopes@.len() == before.len(),
                forall|j: int| 0 <= j < self.envelopes@.len() ==> (#[trigger] self.envelopes@[j]).wf(),
                forall|j: int| i <= j < before.len() ==> self.envelopes@[j] == before[j],
                forall|j: int| 0 <= j < i ==> (#[trigger] self.envelopes@[j])@ == before[j]@.abandon_all(),
                flush_views(flushes@) == first + closing_writes(
                    envelope_views(before).take(i as int),
                ),
                self.pending.wf(),
                self.pending@ == Map::<PendingKeyView, ServerRq>::empty(),
                self.subscriptions@ == old(self).subscriptions@,
                self.fault == old(self).fault,
            decreases self.envelopes@.len() - i,
        {
            let ghost done = flushes@;
            let ghost current = self.envelopes@;
            let due = self.envelopes[i].abandon_all();
            proof {
                let views = envelope_views(before);
                assert(views.take(i as int + 1).drop_last() =~= views.take(i as int));
                assert(views.take(i as int + 1).last() == before[i as int]@);
                assert forall|j: int| 0 <= j < i + 1 implies (#[trigger] self.envelopes@[j])@
                    == before[j]@.abandon_all() by {
                    if j < i {
                        assert(self.envelopes@[j] == current[j]);
                    }
                }
            }
            match due {
                Some(response) => {
                    let flush = Flush { envelope: i, response };
                    proof {
                        assert(flush_views(done.push(flush)) =~= flush_views(done).push(flush@));
                        assert((first + closing_writes(envelope_views(before).take(i as int))).push(
                            flush@,
                        ) =~= first + closing_writes(envelope_views(before).take(i as int)).push(
                            flush@,
                        ));
                    }
                    flushes.push(flush);
                },
                None => {},
            }
            i = i + 1;
        }
        self.queue = VecDeque::new();
        self.subscriptions.clear();
        self.closed = true;
        proof {
            let views = envelope_views(before);
            assert(views.take(i as int) =~= views);
            assert(envelope_views(self.envelopes@) =~= views.map_values(
                |e: EnvelopeView| e.abandon_all(),
            ));
            assert(evicted_all(old(self)@.pending, evicted@));
            assert(self@ == old(self)@.close(evicted@));
        }
        flushes
    }

    /// Takes note that `connection` went away. The requests that were kept
    /// for later on it are dropped, and each of their calls is answered with
    /// the error for a closed connection, so that the physical requests that
    /// wait for them are not left hanging; the responses that become due are
    /// handed out. The subscriptions of the connection end.
    pub fn close_connection(&mut self, connection: u64) -> (r: Vec<Flush>)
        requires
            old(self).wf(),
        ensures
            final(self).wf(),
            final(self)@.pending == crate::pending::without_connection(
                old(self)@.pending,
                connection,
            ),
            final(self)@.subscriptions == (SubscriptionsView {
                live: crate::subscription::without_connection(
                    old(self)@.subscriptions.live,
                    connection,
                ),
                next: old(self)@.subscriptions.next,
            }),
            final(self)@.queue == old(self)@.queue,
            final(self)@.fault == old(self)@.fault,
            final(self)@.closed == old(self)@.closed,
            exists|evicted: Seq<PendingEntry>|
                {
                    &&& #[trigger] evicted_from(old(self)@.pending, connection, evicted)
                    &&& final(self)@.envelopes == evict_run(old(self)@.envelopes, evicted)
                    &&& flush_views(r@) == evict_writes(old(self)@.envelopes, evicted)
                },
    {
        let evicted = self.pending.evict_for_connection(connection);
        self.subscriptions.close_connection(connection);
        let flushes = self.evict(&evicted);
        proof {
            assert(evicted_from(old(self)@.pending, connection, evicted@));
        }
        flushes
    }
}

impl ServerRq {
    /// Answers the call.
    ///
    /// The outcome is stored as the call's output. If other calls of the
    /// same physical request are still open, nothing is to be written yet.
    /// If this was the last one, the response of the physical request is
    /// due: the lone output of a single request, or the outputs of a batch
    /// in the client's order, without any entry for a notification. A
    /// notification cannot be answered: it is refused as not respondable and
    /// nothing changes. A call that was resolved before is refused as
    /// already resolved.
    pub fn respond(self, server: &mut Server, response: Result<Value, RpcError>) -> (r: Result<
        Completion,
        ServerError,
    >)
        requires
            old(server).wf(),
        ensures
            final(server).wf(),
            if self.call() is Notification {
                &&& r == Err::<Completion, ServerError>(ServerError::NotRespondable)
                &&& final(server)@ == old(server)@
            } else {
                &&& final(server)@ == old(server)@.settle(
                    self.spec_envelope() as int,
                    self.spec_index() as int,
                    outcome_view(response),
                )
                &&& settlement(
                    old(server)@,
                    self.spec_envelope() as int,
                    self.spec_index() as int,
                    outcome_view(response),
                    r,
                )
            },
    {
        if self.is_notification() {
            return Err(ServerError::NotRespondable);
        }
        server.settle(self.envelope(), self.index(), response)
    }

    /// Gives the call up without an answer. A notification needs none, so
    /// nothing happens. Every other call is answered with the error for an
    /// abandoned call, so that its physical request is not left hanging.
    pub fn abandon(self, server: &mut Server) -> (r: Result<Completion, ServerError>)
        requires
            old(server).wf(),
        ensures
            final(server).wf(),
            if self.call() is Notification {
                &&& r == Ok::<Completion, ServerError>(Completion::Buffered)
                &&& final(server)@ == old(server)@
            } else {
                &&& final(server)@ == old(server)@.settle(
                    self.spec_envelope() as int,
                    self.spec_index() as int,
                    Err(abandoned_error()),
                )
                &&& settlement(
                    old(server)@,
                    self.spec_envelope() as int,
                    self.spec_index() as int,
                    Err(abandoned_error()),
                    r,
                )
            },
    {
        if self.is_notification() {
            return Ok(Completion::Buffered);
        }
        server.settle(self.envelope(), self.index(), Err(RpcError::abandoned()))
    }

    /// Keeps the call for later, under its connection and identifier. A
    /// notification, or a malformed call without an identifier, cannot be
    /// kept: it is handed back. A request that was kept under the same key
    /// before gives way and is handed out.
    pub fn defer(self, server: &mut Server) -> (r: Result<Deferred, Refused>)
        requires
            old(server).wf(),
        ensures
            final(server).wf(),
            match r {
                Ok(deferred) => {
                    &&& self.call().spec_deferrable()
                    &&& final(server)@ == old(server)@.defer(self)
                    &&& deferred.ticket.key@ == key_of(self)
                    &&& deferred.displaced == old(server)@.kept(key_of(self))
                },
                Err(refused) => {
                    &&& !self.call().spec_deferrable()
                    &&& refused.reason == ServerError::NotDeferrable
                    &&& refused.request == self
                    &&& final(server)@ == old(server)@
                },
            },
    {
        if !self.is_deferrable() {
            return Err(Refused { reason: ServerError::NotDeferrable, request: self });
        }
        let key = match self.id() {
            Some(id) => PendingKey { connection: self.connection(), id: id.duplicate() },
            None => vstd::pervasive::unreached(),
        };
        let ticket = PendingTicket { key: key.duplicate() };
        let displaced = server.pending.insert(key, self);
        Ok(Deferred { ticket, displaced })
    }

    /// Turns the call into a subscription.
    ///
    /// The call is acknowledged with the identifier of the new subscription
    /// as its result, as [`ServerRq::respond`] would do it; the subscription
    /// pushes to the connection of the call, and `initial` becomes its first
    /// push. A notification cannot be acknowledged, a call that was resolved
    /// before cannot either, and no subscription can be opened once the
    /// identifiers are used up: the call is then handed back, and nothing
    /// changes.
    pub fn into_subscription(self, server: &mut Server, initial: Value) -> (r: Result<
        Subscribed,
        Refused,
    >)
        requires
            old(server).wf(),
        ensures
            final(server).wf(),
            match r {
                Ok(subscribed) => {
                    &&& !(self.call() is Notification)
                    &&& old(server)@.awaits(self.spec_envelope() as int, self.spec_index() as int)
                    &&& old(server)@.subscriptions.next < u64::MAX
                    &&& subscribed.subscription == (Subscription {
                        id: old(server)@.subscriptions.next,
                        connection: self.spec_connection(),
                    })
                    &&& final(server)@ == old(server)@.subscribe(
                        self.spec_envelope() as int,
                        self.spec_index() as int,
                        self.spec_connection(),
                    )
                    &&& settlement(
                        old(server)@,
                        self.spec_envelope() as int,
                        self.spec_index() as int,
                        Ok(Value::Unsigned(subscribed.subscription.id)),
                        Ok(subscribed.ack),
                    )
                    &&& subscribed.first.connection == self.spec_connection()
                    &&& is_push_message(
                        subscribed.first.message,
                        subscribed.subscription.id,
                        initial,
                    )
                },
                Err(refused) => {
                    &&& refused.request == self
                    &&& final(server)@ == old(server)@
                    &&& refused.reason == if self.call() is Notification {
                        ServerError::NotRespondable
                    } else if !old(server)@.awaits(
                        self.spec_envelope() as int,
                        self.spec_index() as int,
                    ) {
                        ServerError::AlreadyResolved
                    } else {
                        ServerError::OutOfSubscriptions
                    }
                    &&& {
                        ||| self.call() is Notification
                        ||| !old(server)@.awaits(
                            self.spec_envelope() as int,
                            self.spec_index() as int,
                        )
                        ||| old(server)@.subscriptions.next == u64::MAX
                    }
                },
            },
    {
        if self.is_notification() {
            return Err(Refused { reason: ServerError::NotRespondable, request: self });
        }
        if !server.awaits(self.envelope(), self.index()) {
            return Err(Refused { reason: ServerError::AlreadyResolved, request: self });
        }
        let subscription = match server.subscriptions.subscribe(self.connection()) {
            Some(subscription) => subscription,
            None => {
                return Err(Refused { reason: ServerError::OutOfSubscriptions, request: self });
            },
        };
        match server.settle(self.envelope(), self.index(), Ok(Value::Unsigned(subscription.id))) {
            Ok(ack) => Ok(
                Subscribed {
                    subscription,
                    ack,
                    first: Push {
                        connection: subscription.connection,
                        message: push_message(subscription.id, initial),
                    },
                },
            ),
            Err(_) => vstd::pervasive::unreached(),
        }
    }
}

} // verus!
