//! The bookkeeping of one physical request.
//!
//! A [`BatchEnvelope`] holds one slot per call of the request. A notification's
//! slot is excluded from the start; every other slot stays unfilled until its
//! call is resolved. When the last unfilled slot is filled the envelope hands
//! out the one response of the physical request, made of the filled slots in
//! the client's order, and is flushed for good.

use vstd::prelude::*;
use vstd::pervasive::VecAdditionalExecFns;
use crate::types::{
    abandoned_error, outcome_view, output_of, output_views, Call, Id, IdView, Output, OutputView,
    Request, Response, ResponseView, RpcError, RpcErrorView, ServerError, Value,
};

verus! {

/// The cell that belongs to one call of a physical request.
pub enum Slot {
    /// The call is a notification: it never gets an output.
    Excluded,
    /// The call, identified by the given id, has not been resolved yet.
    Unfilled(Id),
    /// The call has been resolved with this output.
    Filled(Output),
}

/// What a [`Slot`] is, as a mathematical value.
pub enum SlotView {
    Excluded,
    Unfilled(IdView),
    Filled(OutputView),
}

impl View for Slot {
    type V = SlotView;

    open spec fn view(&self) -> SlotView {
        match self {
            Slot::Excluded => SlotView::Excluded,
            Slot::Unfilled(id) => SlotView::Unfilled(id@),
            Slot::Filled(output) => SlotView::Filled(output@),
        }
    }
}

/// The views of a sequence of slots, in the same order.
pub open spec fn slot_views(slots: Seq<Slot>) -> Seq<SlotView> {
    slots.map_values(|s: Slot| s@)
}

/// The slot that a call starts with.
pub open spec fn slot_of(call: Call) -> SlotView {
    match call {
        Call::MethodCall { id, .. } => SlotView::Unfilled(id@),
        Call::Notification { .. } => SlotView::Excluded,
        Call::Invalid { id } => SlotView::Unfilled(id@),
    }
}

/// The slots that the calls of a physical request start with.
pub open spec fn slots_for(calls: Seq<Call>) -> Seq<SlotView> {
    calls.map_values(|c: Call| slot_of(c))
}

/// The number of slots that still wait for an output.
pub open spec fn open_count(slots: Seq<SlotView>) -> nat
    decreases slots.len(),
{
    if slots.len() == 0 {
        0
    } else if slots.last() is Unfilled {
        open_count(slots.drop_last()) + 1
    } else {
        open_count(slots.drop_last())
    }
}

/// The number of slots that belong to notifications.
pub open spec fn excluded_count(slots: Seq<SlotView>) -> nat
    decreases slots.len(),
{
    if slots.len() == 0 {
        0
    } else if slots.last() is Excluded {
        excluded_count(slots.drop_last()) + 1
    } else {
        excluded_count(slots.drop_last())
    }
}

/// The outputs of the filled slots, in the order of the slots.
pub open spec fn outputs_of(slots: Seq<SlotView>) -> Seq<OutputView>
    decreases slots.len(),
{
    if slots.len() == 0 {
        Seq::empty()
    } else {
        match slots.last() {
            SlotView::Filled(output) => outputs_of(slots.drop_last()).push(output),
            _ => outputs_of(slots.drop_last()),
        }
    }
}

/// The place that the output of slot `index` takes among the outputs.
pub open spec fn rank(slots: Seq<SlotView>, index: int) -> nat {
    outputs_of(slots.take(index)).len()
}

/// The slots after every unfilled one has been answered with the error for an
/// abandoned call.
pub open spec fn abandon_slots(slots: Seq<SlotView>) -> Seq<SlotView> {
    slots.map_values(
        |s: SlotView|
            match s {
                SlotView::Unfilled(id) => SlotView::Filled(
                    output_of(Err(abandoned_error()), id),
                ),
                _ => s,
            },
    )
}

/// The response that carries `outputs`: the lone output of a single request,
/// or all of them for a batch.
pub open spec fn response_of(batch: bool, outputs: Seq<OutputView>) -> ResponseView {
    if batch {
        ResponseView::Batch(outputs)
    } else {
        ResponseView::Single(outputs[0])
    }
}

/// What a [`BatchEnvelope`] is, as a mathematical value.
pub struct EnvelopeView {
    /// Whether the physical request was a batch.
    pub batch: bool,
    /// One slot per call, in the client's order; none once flushed.
    pub slots: Seq<SlotView>,
    /// Whether the physical request has been answered, or needed no answer.
    pub flushed: bool,
}

impl EnvelopeView {
    /// An envelope is flushed exactly when no slot waits for an output; a
    /// flushed envelope has given its slots away, and a single request has at
    /// most one slot.
    pub open spec fn wf(self) -> bool {
        &&& self.flushed <==> open_count(self.slots) == 0
        &&& self.flushed ==> self.slots.len() == 0
        &&& !self.batch ==> self.slots.len() <= 1
    }

    /// The number of calls that still wait for an output.
    pub open spec fn outstanding(self) -> nat {
        open_count(self.slots)
    }

    /// Whether the call at `index` can still be resolved.
    pub open spec fn accepts(self, index: int) -> bool {
        &&& !self.flushed
        &&& 0 <= index < self.slots.len()
        &&& self.slots[index] is Unfilled
    }

    /// Whether the call at `index` is a notification of a live envelope.
    pub open spec fn excludes(self, index: int) -> bool {
        &&& !self.flushed
        &&& 0 <= index < self.slots.len()
        &&& self.slots[index] is Excluded
    }

    /// The slots once the call at `index` has been resolved with `outcome`.
    pub open spec fn filled(self, index: int, outcome: Result<Value, RpcErrorView>) -> Seq<
        SlotView,
    > {
        self.slots.update(
            index,
            SlotView::Filled(output_of(outcome, self.slots[index]->Unfilled_0)),
        )
    }

    /// Whether resolving the call at `index` answers the physical request.
    pub open spec fn completes(self, index: int) -> bool {
        self.accepts(index) && open_count(self.slots) == 1
    }

    /// The envelope once the call at `index` has been resolved with `outcome`.
    /// An index that cannot be resolved leaves the envelope as it is.
    pub open spec fn resolve(self, index: int, outcome: Result<Value, RpcErrorView>) -> EnvelopeView {
        if !self.accepts(index) {
            self
        } else if self.completes(index) {
            EnvelopeView { batch: self.batch, slots: Seq::empty(), flushed: true }
        } else {
            EnvelopeView { batch: self.batch, slots: self.filled(index, outcome), flushed: false }
        }
    }

    /// The envelope once every open call has been abandoned.
    pub open spec fn abandon_all(self) -> EnvelopeView {
        EnvelopeView { batch: self.batch, slots: Seq::empty(), flushed: true }
    }
}

/// What resolving one call did to its physical request.
#[derive(Debug, PartialEq, Eq)]
pub enum Completion {
    /// Other calls of the request are still open: nothing is to be written.
    Buffered,
    /// This was the last open call: the response is to be written, once.
    Flush(Response),
}

/// How resolving a call ends, given the envelope before it.
pub open spec fn resolution(
    before: EnvelopeView,
    index: int,
    outcome: Result<Value, RpcErrorView>,
    result: Result<Completion, ServerError>,
) -> bool {
    if before.completes(index) {
        &&& result matches Ok(Completion::Flush(response))
        &&& response@ == response_of(before.batch, outputs_of(before.filled(index, outcome)))
    } else if before.accepts(index) {
        result == Ok::<Completion, ServerError>(Completion::Buffered)
    } else if before.excludes(index) {
        result == Err::<Completion, ServerError>(ServerError::NotRespondable)
    } else {
        result == Err::<Completion, ServerError>(ServerError::AlreadyResolved)
    }
}

/// The envelope that a physical request with the given calls starts as. A
/// request without a call that expects an output is flushed from the start:
/// nothing will be written for it.
pub open spec fn opened(batch: bool, calls: Seq<Call>) -> EnvelopeView {
    if open_count(slots_for(calls)) == 0 {
        EnvelopeView { batch, slots: Seq::empty(), flushed: true }
    } else {
        EnvelopeView { batch, slots: slots_for(calls), flushed: false }
    }
}

/// Filling an unfilled slot leaves one open slot fewer.
pub proof fn lemma_fill_closes_one(slots: Seq<SlotView>, index: int, output: OutputView)
    requires
        0 <= index < slots.len(),
        slots[index] is Unfilled,
    ensures
        open_count(slots.update(index, SlotView::Filled(output))) + 1 == open_count(slots),
        excluded_count(slots.update(index, SlotView::Filled(output))) == excluded_count(slots),
    decreases slots.len(),
{
    let after = slots.update(index, SlotView::Filled(output));
    if index == slots.len() - 1 {
        assert(after.drop_last() =~= slots.drop_last());
    } else {
        assert(after.drop_last() =~= slots.drop_last().update(index, SlotView::Filled(output)));
        lemma_fill_closes_one(slots.drop_last(), index, output);
    }
}

/// No more slots are open than there are slots, and an open slot is counted.
pub proof fn lemma_open_count_bounds(slots: Seq<SlotView>)
    ensures
        open_count(slots) + excluded_count(slots) <= slots.len(),
        open_count(slots) == 0 <==> forall|i: int| 0 <= i < slots.len() ==> !(slots[i] is Unfilled),
    decreases slots.len(),
{
    if slots.len() > 0 {
        lemma_open_count_bounds(slots.drop_last());
        let rest = slots.drop_last();
        if open_count(slots) == 0 {
            assert forall|i: int| 0 <= i < slots.len() implies !(slots[i] is Unfilled) by {
                if i < slots.len() - 1 {
                    assert(rest[i] == slots[i]);
                }
            }
        }
        if forall|i: int| 0 <= i < slots.len() ==> !(slots[i] is Unfilled) {
            assert forall|i: int| 0 <= i < rest.len() implies !(rest[i] is Unfilled) by {
                assert(rest[i] == slots[i]);
            }
        }
    }
}

/// The slots that calls start with are as many as the calls, and as many of
/// them are excluded as there are notifications.
pub proof fn lemma_slots_for_push(calls: Seq<Call>, call: Call)
    ensures
        slots_for(calls.push(call)) == slots_for(calls).push(slot_of(call)),
{
    assert(slots_for(calls.push(call)) =~= slots_for(calls).push(slot_of(call)));
}

/// There are as many outputs as slots that are neither excluded nor open.
pub proof fn lemma_outputs_count(slots: Seq<SlotView>)
    ensures
        outputs_of(slots).len() + open_count(slots) + excluded_count(slots) == slots.len(),
    decreases slots.len(),
{
    if slots.len() > 0 {
        lemma_outputs_count(slots.drop_last());
    }
}

/// Abandoning leaves no slot open, keeps the number of slots and excludes
/// the same ones.
pub proof fn lemma_abandon_closes_all(slots: Seq<SlotView>)
    ensures
        open_count(abandon_slots(slots)) == 0,
        abandon_slots(slots).len() == slots.len(),
        excluded_count(abandon_slots(slots)) == excluded_count(slots),
    decreases slots.len(),
{
    if slots.len() > 0 {
        lemma_abandon_closes_all(slots.drop_last());
        assert(abandon_slots(slots).drop_last() =~= abandon_slots(slots.drop_last()));
    }
}

/// An envelope for one physical request.
pub struct BatchEnvelope {
    batch: bool,
    slots: Vec<Slot>,
    outstanding: usize,
    flushed: bool,
}

impl View for BatchEnvelope {
    type V = EnvelopeView;

    closed spec fn view(&self) -> EnvelopeView {
        EnvelopeView { batch: self.batch, slots: slot_views(self.slots@), flushed: self.flushed }
    }
}

impl BatchEnvelope {
    /// The invariant of an envelope: its view is well formed and its counter
    /// is the number of open slots.
    pub closed spec fn wf(&self) -> bool {
        &&& self@.wf()
        &&& self.outstanding == open_count(self@.slots)
    }

    /// A well-formed envelope has a well-formed view.
    pub proof fn lemma_wf(&self)
        requires
            self.wf(),
        ensures
            self@.wf(),
    {
    }

    /// Whether the physical request was a batch.
    pub fn is_batch(&self) -> (r: bool)
        ensures
            r == self@.batch,
    {
        self.batch
    }

    /// Whether the physical request has been answered, or needed no answer.
    pub fn is_flushed(&self) -> (r: bool)
        ensures
            r == self@.flushed,
    {
        self.flushed
    }

    /// The number of calls that still wait for an output.
    pub fn outstanding(&self) -> (r: usize)
        requires
            self.wf(),
        ensures
            r == self@.outstanding(),
    {
        self.outstanding
    }

    /// Whether the call at `index` can still be resolved.
    pub fn accepts(&self, index: usize) -> (r: bool)
        ensures
            r == self@.accepts(index as int),
    {
        if self.flushed || index >= self.slots.len() {
            false
        } else {
            match &self.slots[index] {
                Slot::Unfilled(_) => true,
                _ => false,
            }
        }
    }

    /// Starts the bookkeeping of one physical request. Every call gets a
    /// slot; only the calls that expect an output count as outstanding.
    pub fn open(body: &Request) -> (r: BatchEnvelope)
        ensures
            r.wf(),
            r@.wf(),
            r@ == opened(body is Batch, body.calls()),
    {
        let mut slots: Vec<Slot> = Vec::new();
        let mut outstanding: usize = 0;
        let batch: bool;
        match body {
            Request::Single(call) => {
                batch = false;
                let slot = Slot::fresh(call);
                if !call.is_notification() {
                    outstanding = 1;
                }
                slots.push(slot);
                proof {
                    assert(slot_views(slots@) =~= slots_for(body.calls()));
                    assert(slot_views(slots@).drop_last() =~= Seq::<SlotView>::empty());
                    assert(open_count(Seq::<SlotView>::empty()) == 0);
                    assert(slot_views(slots@).last() == slot_of(*call));
                }
            },
            Request::Batch(calls) => {
                batch = true;
                let mut i: usize = 0;
                while i < calls.len()
                    invariant
                        i <= calls.len(),
                        slot_views(slots@) == slots_for(calls@.take(i as int)),
                        outstanding == open_count(slot_views(slots@)),
                        outstanding <= i,
                    decreases calls.len() - i,
                {
                    let slot = Slot::fresh(&calls[i]);
                    let ghost before = slots@;
                    proof {
                        lemma_slots_for_push(calls@.take(i as int), calls@[i as int]);
                        assert(calls@.take(i as int + 1) =~= calls@.take(i as int).push(
                            calls@[i as int],
                        ));
                        assert(slot_views(before.push(slot)) =~= slot_views(before).push(slot@));
                        assert(slot_views(before).push(slot@).drop_last() =~= slot_views(before));
                    }
                    if !calls[i].is_notification() {
                        outstanding = outstanding + 1;
                    }
                    slots.push(slot);
                    i = i + 1;
                }
                proof {
                    assert(calls@.take(i as int) =~= calls@);
                }
            },
        }
        if outstanding == 0 {
            let r = BatchEnvelope { batch, slots: Vec::new(), outstanding: 0, flushed: true };
            assert(slot_views(r.slots@) =~= Seq::<SlotView>::empty());
            r
        } else {
            BatchEnvelope { batch, slots, outstanding, flushed: false }
        }
    }

    /// Moves the outputs of the filled slots out, in the order of the slots,
    /// and leaves the envelope without slots.
    fn drain(&mut self) -> (outputs: Vec<Output>)
        ensures
            output_views(outputs@) == outputs_of(slot_views(old(self).slots@)),
            final(self).slots@.len() == 0,
            final(self).batch == old(self).batch,
            final(self).outstanding == old(self).outstanding,
            final(self).flushed == old(self).flushed,
    {
        let ghost start = self.slots@;
        let mut outputs: Vec<Output> = Vec::new();
        let mut i: usize = 0;
        while i < self.slots.len()
            invariant
                i <= self.slots@.len(),
                self.slots@.len() == start.len(),
                forall|j: int| i <= j < start.len() ==> self.slots@[j] == start[j],
                output_views(outputs@) == outputs_of(slot_views(start).take(i as int)),
                self.batch == old(self).batch,
                self.outstanding == old(self).outstanding,
                self.flushed == old(self).flushed,
            decreases self.slots@.len() - i,
        {
            let mut taken = Slot::Excluded;
            self.slots.set_and_swap(i, &mut taken);
            let ghost before = outputs@;
            proof {
                assert(slot_views(start).take(i as int + 1).drop_last() =~= slot_views(start).take(
                    i as int,
                ));
                assert(slot_views(start).take(i as int + 1).last() == start[i as int]@);
            }
            match taken {
                Slot::Filled(output) => {
                    proof {
                        assert(output_views(before.push(output)) =~= output_views(before).push(
                            output@,
                        ));
                    }
                    outputs.push(output);
                },
                _ => {},
            }
            i = i + 1;
        }
        proof {
            assert(slot_views(start).take(i as int) =~= slot_views(start));
        }
        self.slots = Vec::new();
        outputs
    }

    /// Wraps the collected outputs as the response of this physical request.
    fn respond_with(batch: bool, outputs: Vec<Output>) -> (r: Response)
        requires
            outputs@.len() > 0,
            !batch ==> outputs@.len() == 1,
        ensures
            r@ == response_of(batch, output_views(outputs@)),
    {
        if batch {
            Response::Batch(outputs)
        } else {
            let mut outputs = outputs;
            match outputs.pop() {
                Some(output) => Response::Single(output),
                None => vstd::pervasive::unreached(),
            }
        }
    }

    /// Resolves the call at `index` with `outcome`.
    ///
    /// The outcome is stored under the identifier of the call. If another
    /// call of the request is still open, nothing is to be written yet. If
    /// this was the last one, the envelope is flushed and the response, made
    /// of all filled slots in the client's order, is handed out. A
    /// notification is refused as not respondable; an index that is out of
    /// range or was resolved before is refused as already resolved. A refusal
    /// changes nothing.
    pub fn resolve(&mut self, index: usize, outcome: Result<Value, RpcError>) -> (r: Result<
        Completion,
        ServerError,
    >)
        requires
            old(self).wf(),
        ensures
            final(self).wf(),
            final(self)@.wf(),
            final(self)@ == old(self)@.resolve(index as int, outcome_view(outcome)),
            resolution(old(self)@, index as int, outcome_view(outcome), r),
    {
        if self.flushed || index >= self.slots.len() {
            return Err(ServerError::AlreadyResolved);
        }
        match &self.slots[index] {
            Slot::Excluded => {
                return Err(ServerError::NotRespondable);
            },
            Slot::Filled(_) => {
                return Err(ServerError::AlreadyResolved);
            },
            Slot::Unfilled(_) => {},
        }
        let ghost before = self.slots@;
        let mut taken = Slot::Excluded;
        self.slots.set_and_swap(index, &mut taken);
        match taken {
            Slot::Unfilled(id) => {
                let output = Output::from_outcome(outcome, id);
                proof {
                    lemma_fill_closes_one(slot_views(before), index as int, output@);
                    lemma_open_count_bounds(slot_views(before));
                    assert(slot_views(
                        before.update(index as int, Slot::Excluded).update(
                            index as int,
                            Slot::Filled(output),
                        ),
                    ) =~= old(self)@.filled(index as int, outcome_view(outcome)));
                }
                self.slots.set(index, Slot::Filled(output));
                self.outstanding = self.outstanding - 1;
                if self.outstanding == 0 {
                    let ghost full = slot_views(self.slots@);
                    let outputs = self.drain();
                    self.flushed = true;
                    proof {
                        lemma_outputs_count(full);
                        lemma_open_count_bounds(full);
                        assert(slot_views(self.slots@) =~= Seq::<SlotView>::empty());
                    }
                    Ok(Completion::Flush(Self::respond_with(self.batch, outputs)))
                } else {
                    Ok(Completion::Buffered)
                }
            },
            _ => vstd::pervasive::unreached(),
        }
    }

    /// Abandons every call that is still open: each gets the error output
    /// for an abandoned call under its own identifier, and the envelope is
    /// flushed. Hands out the response to write, or nothing if the envelope
    /// was flushed before.
    pub fn abandon_all(&mut self) -> (r: Option<Response>)
        requires
            old(self).wf(),
        ensures
            final(self).wf(),
            final(self)@.wf(),
            final(self)@ == old(self)@.abandon_all(),
            match r {
                Some(response) => {
                    &&& !old(self)@.flushed
                    &&& response@ == response_of(
                        old(self)@.batch,
                        outputs_of(abandon_slots(old(self)@.slots)),
                    )
                },
                None => old(self)@.flushed,
            },
    {
        if self.flushed {
            proof {
                assert(slot_views(self.slots@) =~= Seq::<SlotView>::empty());
            }
            return None;
        }
        let ghost start = self.slots@;
        let mut i: usize = 0;
        while i < self.slots.len()
            invariant
                i <= self.slots@.len(),
                self.slots@.len() == start.len(),
                forall|j: int| i <= j < start.len() ==> self.slots@[j] == start[j],
                forall|j: int| 0 <= j < i ==> self.slots@[j]@ == abandon_slots(slot_views(start))[j],
                self.batch == old(self).batch,
                self.outstanding == old(self).outstanding,
                self.flushed == old(self).flushed,
            decreases self.slots@.len() - i,
        {
            let mut taken = Slot::Excluded;
            self.slots.set_and_swap(i, &mut taken);
            let slot = match taken {
                Slot::Unfilled(id) => Slot::Filled(
                    Output::from_outcome(Err(RpcError::abandoned()), id),
                ),
                other => other,
            };
            self.slots.set(i, slot);
            i = i + 1;
        }
        let ghost full = slot_views(self.slots@);
        proof {
            assert(full =~= abandon_slots(slot_views(start)));
            lemma_open_count_bounds(slot_views(start));
            lemma_abandon_closes_all(slot_views(start));
            lemma_outputs_count(full);
            lemma_open_count_bounds(full);
        }
        let outputs = self.drain();
        self.outstanding = 0;
        self.flushed = true;
        proof {
            assert(slot_views(self.slots@) =~= Seq::<SlotView>::empty());
        }
        Some(Self::respond_with(self.batch, outputs))
    }
}

impl Slot {
    /// The slot that a call starts with.
    pub fn fresh(call: &Call) -> (r: Slot)
        ensures
            r@ == slot_of(*call),
    {
        match call {
            Call::MethodCall { id, .. } => Slot::Unfilled(id.duplicate()),
            Call::Notification { .. } => Slot::Excluded,
            Call::Invalid { id } => Slot::Unfilled(id.duplicate()),
        }
    }
}

} // verus!
