//! What holds of every physical request: how many outputs its response has
//! and in which order, and that the response is handed out exactly once.

use vstd::prelude::*;
use crate::batch::{
    abandon_slots, excluded_count, lemma_abandon_closes_all, lemma_fill_closes_one,
    lemma_open_count_bounds, lemma_outputs_count, open_count, opened, outputs_of, rank,
    slot_of, slots_for, EnvelopeView, SlotView,
};
use crate::types::{abandoned_error, output_of, Call, RpcErrorView, Value};

verus! {

/// The number of notifications among the calls.
pub open spec fn notification_count(calls: Seq<Call>) -> nat
    decreases calls.len(),
{
    if calls.len() == 0 {
        0
    } else if calls.last() is Notification {
        notification_count(calls.drop_last()) + 1
    } else {
        notification_count(calls.drop_last())
    }
}

/// Whether `slots` are the slots of `calls` with every expected output given:
/// a notification's slot is excluded, and every other slot holds an output
/// under the identifier of its call.
pub open spec fn answers(calls: Seq<Call>, slots: Seq<SlotView>) -> bool {
    &&& slots.len() == calls.len()
    &&& forall|i: int|
        0 <= i < calls.len() ==> match #[trigger] slots[i] {
            SlotView::Excluded => calls[i] is Notification,
            SlotView::Unfilled(_) => false,
            SlotView::Filled(output) => slot_of(calls[i]) == SlotView::Unfilled(output.id()),
        }
}

/// A request of `k` notifications and `m` other calls starts with `k`
/// excluded slots and `m` open ones.
pub proof fn lemma_slots_for_counts(calls: Seq<Call>)
    ensures
        slots_for(calls).len() == calls.len(),
        excluded_count(slots_for(calls)) == notification_count(calls),
        open_count(slots_for(calls)) + notification_count(calls) == calls.len(),
    decreases calls.len(),
{
    if calls.len() > 0 {
        lemma_slots_for_counts(calls.drop_last());
        assert(slots_for(calls).drop_last() =~= slots_for(calls.drop_last()));
    }
}

/// The response to a fully answered request of `k` notifications and `m`
/// other calls has exactly `m` outputs: one for each call that is not a
/// notification, none for a notification.
pub proof fn law_one_output_per_call(calls: Seq<Call>, slots: Seq<SlotView>)
    requires
        answers(calls, slots),
    ensures
        outputs_of(slots).len() + notification_count(calls) == calls.len(),
    decreases calls.len(),
{
    if calls.len() > 0 {
        let rest_calls = calls.drop_last();
        let rest_slots = slots.drop_last();
        assert forall|i: int| 0 <= i < rest_calls.len() implies match #[trigger] rest_slots[i] {
            SlotView::Excluded => rest_calls[i] is Notification,
            SlotView::Unfilled(_) => false,
            SlotView::Filled(output) => slot_of(rest_calls[i]) == SlotView::Unfilled(output.id()),
        } by {
            assert(rest_slots[i] == slots[i]);
        }
        law_one_output_per_call(rest_calls, rest_slots);
        assert(slots.last() == slots[calls.len() - 1]);
    }
}

/// The output of a filled slot stands in the response at the slot's rank,
/// and the rank never exceeds the number of outputs before the end.
pub proof fn lemma_output_at_rank(slots: Seq<SlotView>, index: int)
    requires
        0 <= index < slots.len(),
        slots[index] is Filled,
    ensures
        rank(slots, index) < outputs_of(slots).len(),
        outputs_of(slots)[rank(slots, index) as int] == slots[index]->Filled_0,
    decreases slots.len(),
{
    let rest = slots.drop_last();
    if index == slots.len() - 1 {
        assert(slots.take(index) =~= rest);
    } else {
        lemma_output_at_rank(rest, index);
        assert(rest.take(index) =~= slots.take(index));
    }
}

/// The ranks grow with the slots: a filled slot's output comes before the
/// output of every later slot.
pub proof fn lemma_rank_grows(slots: Seq<SlotView>, i: int, j: int)
    requires
        0 <= i < j <= slots.len(),
    ensures
        rank(slots, i) <= rank(slots, j),
        slots[i] is Filled ==> rank(slots, i) < rank(slots, j),
    decreases j - i,
{
    let upto = slots.take(j);
    assert(upto.drop_last() =~= slots.take(j - 1));
    assert(upto.last() == slots[j - 1]);
    if i < j - 1 {
        lemma_rank_grows(slots, i, j - 1);
    }
}

/// The outputs of a response keep the order in which the client sent the
/// calls: of two answered calls, the earlier one's output comes first, and
/// each output is the one stored for its call.
pub proof fn law_outputs_keep_order(slots: Seq<SlotView>, i: int, j: int)
    requires
        0 <= i < j < slots.len(),
        slots[i] is Filled,
        slots[j] is Filled,
    ensures
        rank(slots, i) < rank(slots, j) < outputs_of(slots).len(),
        outputs_of(slots)[rank(slots, i) as int] == slots[i]->Filled_0,
        outputs_of(slots)[rank(slots, j) as int] == slots[j]->Filled_0,
{
    lemma_output_at_rank(slots, i);
    lemma_output_at_rank(slots, j);
    lemma_rank_grows(slots, i, j);
}

/// A request that holds notifications only is flushed from the start, so
/// that no response is ever written for it; any other request starts open.
pub proof fn law_notifications_need_no_response(batch: bool, calls: Seq<Call>)
    ensures
        opened(batch, calls).flushed <==> notification_count(calls) == calls.len(),
        opened(batch, calls).flushed ==> opened(batch, calls).slots.len() == 0,
{
    lemma_slots_for_counts(calls);
}

/// One thing that can happen to an envelope.
pub enum EnvelopeEvent {
    /// The call at `index` is resolved: answered, abandoned or evicted.
    Resolve { index: int, outcome: Result<Value, RpcErrorView> },
    /// Every open call is abandoned at once.
    AbandonAll,
}

/// The envelope after one event.
pub open spec fn step(envelope: EnvelopeView, event: EnvelopeEvent) -> EnvelopeView {
    match event {
        EnvelopeEvent::Resolve { index, outcome } => envelope.resolve(index, outcome),
        EnvelopeEvent::AbandonAll => envelope.abandon_all(),
    }
}

/// Whether the event makes the envelope hand out its response.
pub open spec fn writes(envelope: EnvelopeView, event: EnvelopeEvent) -> bool {
    match event {
        EnvelopeEvent::Resolve { index, .. } => envelope.completes(index),
        EnvelopeEvent::AbandonAll => !envelope.flushed,
    }
}

/// The envelope after a run of events.
pub open spec fn run(envelope: EnvelopeView, events: Seq<EnvelopeEvent>) -> EnvelopeView
    decreases events.len(),
{
    if events.len() == 0 {
        envelope
    } else {
        step(run(envelope, events.drop_last()), events.last())
    }
}

/// The number of responses handed out during a run of events.
pub open spec fn write_count(envelope: EnvelopeView, events: Seq<EnvelopeEvent>) -> nat
    decreases events.len(),
{
    if events.len() == 0 {
        0
    } else if writes(run(envelope, events.drop_last()), events.last()) {
        write_count(envelope, events.drop_last()) + 1
    } else {
        write_count(envelope, events.drop_last())
    }
}

/// One event keeps an envelope well formed, never raises the number of
/// outstanding calls, and hands out the response exactly when it takes the
/// envelope from open to flushed.
pub proof fn lemma_step(envelope: EnvelopeView, event: EnvelopeEvent)
    requires
        envelope.wf(),
    ensures
        step(envelope, event).wf(),
        step(envelope, event).outstanding() <= envelope.outstanding(),
        envelope.flushed ==> step(envelope, event) == envelope,
        writes(envelope, event) <==> !envelope.flushed && step(envelope, event).flushed,
{
    lemma_open_count_bounds(envelope.slots);
    match event {
        EnvelopeEvent::Resolve { index, outcome } => {
            if envelope.accepts(index) {
                let filled = envelope.filled(index, outcome);
                lemma_fill_closes_one(envelope.slots, index, filled[index]->Filled_0);
            }
        },
        EnvelopeEvent::AbandonAll => {
            if envelope.flushed {
                assert(envelope.slots =~= Seq::<SlotView>::empty());
            }
        },
    }
}

/// Whatever happens to an envelope, in whatever order, its response is
/// handed out at most once, and exactly once if and only if the number of
/// outstanding calls reaches zero. An envelope that started flushed hands
/// out nothing.
pub proof fn law_flushed_exactly_once(envelope: EnvelopeView, events: Seq<EnvelopeEvent>)
    requires
        envelope.wf(),
    ensures
        run(envelope, events).wf(),
        run(envelope, events).outstanding() <= envelope.outstanding(),
        envelope.flushed ==> run(envelope, events).flushed,
        write_count(envelope, events) <= 1,
        write_count(envelope, events) == 1 <==> !envelope.flushed && run(
            envelope,
            events,
        ).outstanding() == 0,
    decreases events.len(),
{
    if events.len() > 0 {
        law_flushed_exactly_once(envelope, events.drop_last());
        lemma_step(run(envelope, events.drop_last()), events.last());
    }
}

/// Whether `slots` are the slots of `calls` at some point of their life:
/// each slot is as its call started with, or holds an output under the
/// identifier of its call.
pub open spec fn tracks(calls: Seq<Call>, slots: Seq<SlotView>) -> bool {
    &&& slots.len() == calls.len()
    &&& forall|i: int|
        0 <= i < calls.len() ==> {
            ||| #[trigger] slots[i] == slot_of(calls[i])
            ||| slots[i] matches SlotView::Filled(output) && slot_of(calls[i])
                == SlotView::Unfilled(output.id())
        }
}

/// As long as a physical request is open, its slots are those of its calls:
/// no event moves, adds or drops a slot, or stores an output under another
/// identifier than that of its call.
pub proof fn lemma_run_tracks_calls(batch: bool, calls: Seq<Call>, events: Seq<EnvelopeEvent>)
    requires
        !run(opened(batch, calls), events).flushed,
    ensures
        tracks(calls, run(opened(batch, calls), events).slots),
        run(opened(batch, calls), events).batch == batch,
    decreases events.len(),
{
    let start = opened(batch, calls);
    if events.len() > 0 {
        let before = run(start, events.drop_last());
        if before.flushed {
            match events.last() {
                EnvelopeEvent::Resolve { .. } => {},
                EnvelopeEvent::AbandonAll => {},
            }
        } else {
            lemma_run_tracks_calls(batch, calls, events.drop_last());
        }
    }
}

/// The response of a physical request, whenever and in whatever order its
/// calls were resolved: for `k` notifications and `m` other calls it holds
/// exactly `m` outputs, one for each call that is not a notification, each
/// under the identifier of its call, and none for a notification. The
/// outputs stand in the order of their calls.
pub proof fn law_batch_response(
    batch: bool,
    calls: Seq<Call>,
    events: Seq<EnvelopeEvent>,
    index: int,
    outcome: Result<Value, RpcErrorView>,
)
    requires
        run(opened(batch, calls), events).completes(index),
    ensures
        answers(calls, run(opened(batch, calls), events).filled(index, outcome)),
        outputs_of(run(opened(batch, calls), events).filled(index, outcome)).len()
            + notification_count(calls) == calls.len(),
        forall|i: int, j: int|
            #![trigger calls[i], calls[j]]
            0 <= i < j < calls.len() && !(calls[i] is Notification) && !(calls[j] is Notification)
                ==> rank(run(opened(batch, calls), events).filled(index, outcome), i) < rank(
                run(opened(batch, calls), events).filled(index, outcome),
                j,
            ),
{
    let before = run(opened(batch, calls), events);
    let full = before.filled(index, outcome);
    lemma_run_tracks_calls(batch, calls, events);
    lemma_fill_closes_one(before.slots, index, full[index]->Filled_0);
    lemma_open_count_bounds(full);
    assert forall|i: int| 0 <= i < calls.len() implies match #[trigger] full[i] {
        SlotView::Excluded => calls[i] is Notification,
        SlotView::Unfilled(_) => false,
        SlotView::Filled(output) => slot_of(calls[i]) == SlotView::Unfilled(output.id()),
    } by {
        if i != index {
            assert(full[i] == before.slots[i]);
        }
    }
    law_one_output_per_call(calls, full);
    assert forall|i: int, j: int|
        #![trigger calls[i], calls[j]]
        0 <= i < j < calls.len() && !(calls[i] is Notification) && !(
        calls[j] is Notification) implies rank(full, i) < rank(full, j) by {
        assert(full[i] is Filled);
        lemma_rank_grows(full, i, j);
    }
}

/// Whether the event resolves the call at `index`.
pub open spec fn resolves(event: EnvelopeEvent, index: int) -> bool {
    match event {
        EnvelopeEvent::Resolve { index: resolved, .. } => resolved == index,
        EnvelopeEvent::AbandonAll => true,
    }
}

/// A call that is still open after a run of events was open from the start,
/// and no event of the run resolved it.
pub proof fn lemma_still_open(envelope: EnvelopeView, events: Seq<EnvelopeEvent>, index: int)
    requires
        envelope.wf(),
        run(envelope, events).accepts(index),
    ensures
        envelope.accepts(index),
        forall|j: int| 0 <= j < events.len() ==> !resolves(#[trigger] events[j], index),
    decreases events.len(),
{
    if events.len() > 0 {
        let before = run(envelope, events.drop_last());
        law_flushed_exactly_once(envelope, events.drop_last());
        lemma_step(before, events.last());
        lemma_still_open(envelope, events.drop_last(), index);
        assert forall|j: int| 0 <= j < events.len() implies !resolves(
            #[trigger] events[j],
            index,
        ) by {
            if j < events.len() - 1 {
                assert(events.drop_last()[j] == events[j]);
            }
        }
    }
}

/// No physical request is left hanging: once every call that was open has
/// been resolved, whether answered, abandoned or closed with its connection,
/// the request is flushed.
pub proof fn law_resolved_requests_flush(envelope: EnvelopeView, events: Seq<EnvelopeEvent>)
    requires
        envelope.wf(),
        forall|i: int| #[trigger]
            envelope.accepts(i) ==> exists|j: int|
                0 <= j < events.len() && resolves(#[trigger] events[j], i),
    ensures
        run(envelope, events).flushed,
{
    let after = run(envelope, events);
    law_flushed_exactly_once(envelope, events);
    if !after.flushed {
        lemma_open_count_bounds(after.slots);
        let i = choose|i: int| 0 <= i < after.slots.len() && after.slots[i] is Unfilled;
        assert(after.accepts(i));
        lemma_still_open(envelope, events, i);
        assert(envelope.accepts(i));
        let j = choose|j: int| 0 <= j < events.len() && resolves(#[trigger] events[j], i);
        assert(resolves(events[j], i));
    }
}

/// A call that is given up is answered all the same: its slot carries the
/// error for an abandoned call under the call's own identifier, one call
/// fewer is outstanding, and if it was the last one the request is flushed
/// with that output in the response, at the place of the call.
pub proof fn law_abandoned_call_is_answered(envelope: EnvelopeView, index: int)
    requires
        envelope.wf(),
        envelope.accepts(index),
    ensures
        envelope.filled(index, Err(abandoned_error()))[index] == SlotView::Filled(
            output_of(Err(abandoned_error()), envelope.slots[index]->Unfilled_0),
        ),
        open_count(envelope.filled(index, Err(abandoned_error()))) + 1 == envelope.outstanding(),
        envelope.completes(index) <==> envelope.resolve(index, Err(abandoned_error())).flushed,
        !envelope.completes(index) ==> envelope.resolve(index, Err(abandoned_error())).slots
            == envelope.filled(index, Err(abandoned_error())),
        rank(envelope.filled(index, Err(abandoned_error())), index) < outputs_of(
            envelope.filled(index, Err(abandoned_error())),
        ).len(),
        outputs_of(envelope.filled(index, Err(abandoned_error())))[rank(
            envelope.filled(index, Err(abandoned_error())),
            index,
        ) as int] == output_of(Err(abandoned_error()), envelope.slots[index]->Unfilled_0),
{
    let filled = envelope.filled(index, Err(abandoned_error()));
    lemma_fill_closes_one(envelope.slots, index, filled[index]->Filled_0);
    lemma_output_at_rank(filled, index);
}

/// Abandoning every open call of a request answers each of them: the
/// response has one output for every call that is not a notification.
pub proof fn law_abandoned_request_is_answered(calls: Seq<Call>)
    ensures
        outputs_of(abandon_slots(slots_for(calls))).len() + notification_count(calls)
            == calls.len(),
{
    lemma_slots_for_counts(calls);
    lemma_abandon_closes_all(slots_for(calls));
    lemma_outputs_count(abandon_slots(slots_for(calls)));
}

} // verus!
