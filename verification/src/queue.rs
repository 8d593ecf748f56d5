//! The pending-input buffer: what sessions have sent since the last tick, in
//! the order it arrived.
//!
//! Sessions append; the tick scheduler takes the whole buffer once per tick
//! and leaves an empty one behind. Whoever shares the buffer between threads
//! holds a lock around each of the two calls and around nothing else.
use vstd::prelude::*;

verus! {

/// Input events waiting for the next tick. `E` is whatever one event is to the
/// host, which passes events on to the guest and does not look inside them.
pub struct PendingInput<E> {
    events: Vec<E>,
}

impl<E> View for PendingInput<E> {
    type V = Seq<E>;

    closed spec fn view(&self) -> Seq<E> {
        self.events@
    }
}

impl<E> PendingInput<E> {
    /// An empty buffer.
    pub fn new() -> (r: Self)
        ensures
            r@ == Seq::<E>::empty(),
    {
        PendingInput { events: Vec::new() }
    }

    /// Puts `event` behind everything already waiting.
    pub fn append(&mut self, event: E)
        ensures
            final(self)@ == old(self)@.push(event),
    {
        self.events.push(event);
    }

    /// Takes everything that is waiting, in order, and leaves the buffer
    /// empty: the swap at the start of a tick.
    pub fn swap_out(&mut self) -> (batch: Vec<E>)
        ensures
            batch@ == old(self)@,
            final(self)@ == Seq::<E>::empty(),
    {
        let mut batch: Vec<E> = Vec::new();
        core::mem::swap(&mut self.events, &mut batch);
        batch
    }

    /// How many events are waiting.
    pub fn len(&self) -> (n: usize)
        ensures
            n == self@.len(),
    {
        self.events.len()
    }

    /// Whether nothing is waiting.
    pub fn is_empty(&self) -> (b: bool)
        ensures
            b == (self@.len() == 0),
    {
        self.events.len() == 0
    }
}

/// One call on the buffer, as a value.
pub ghost enum QueueOp<E> {
    Append(E),
    Swap,
}

/// The buffer and the batches handed out so far, oldest first.
pub ghost struct QueueTrace<E> {
    pub waiting: Seq<E>,
    pub batches: Seq<Seq<E>>,
}

/// The trace after one more call.
pub open spec fn trace_step<E>(t: QueueTrace<E>, op: QueueOp<E>) -> QueueTrace<E> {
    match op {
        QueueOp::Append(e) => QueueTrace { waiting: t.waiting.push(e), batches: t.batches },
        QueueOp::Swap => QueueTrace {
            waiting: Seq::empty(),
            batches: t.batches.push(t.waiting),
        },
    }
}

/// The trace of a history of calls on a buffer that starts empty.
pub open spec fn trace_of<E>(ops: Seq<QueueOp<E>>) -> QueueTrace<E>
    decreases ops.len(),
{
    if ops.len() == 0 {
        QueueTrace { waiting: Seq::empty(), batches: Seq::empty() }
    } else {
        trace_step(trace_of(ops.drop_last()), ops.last())
    }
}

/// Every event appended in a history, in order of arrival.
pub open spec fn appended<E>(ops: Seq<QueueOp<E>>) -> Seq<E>
    decreases ops.len(),
{
    if ops.len() == 0 {
        Seq::empty()
    } else {
        match ops.last() {
            QueueOp::Append(e) => appended(ops.drop_last()).push(e),
            QueueOp::Swap => appended(ops.drop_last()),
        }
    }
}

/// The batches laid end to end.
pub open spec fn concat_all<E>(batches: Seq<Seq<E>>) -> Seq<E>
    decreases batches.len(),
{
    if batches.len() == 0 {
        Seq::empty()
    } else {
        concat_all(batches.drop_last()) + batches.last()
    }
}

/// Nothing is lost and nothing is seen twice: after any history of appends
/// and swaps, the batches handed out, laid end to end and followed by what
/// still waits, are exactly the events appended, each once and in order of
/// arrival. So an event appended before a swap is in that swap's batch and in
/// no other.
pub proof fn lemma_each_input_once<E>(ops: Seq<QueueOp<E>>)
    ensures
        concat_all(trace_of(ops).batches) + trace_of(ops).waiting == appended(ops),
    decreases ops.len(),
{
    if ops.len() > 0 {
        let earlier = ops.drop_last();
        lemma_each_input_once(earlier);
        let t = trace_of(earlier);
        match ops.last() {
            QueueOp::Append(e) => {
                assert(concat_all(t.batches) + t.waiting.push(e) =~= (concat_all(t.batches)
                    + t.waiting).push(e));
            },
            QueueOp::Swap => {
                let grown = t.batches.push(t.waiting);
                assert(grown.drop_last() =~= t.batches);
                assert(concat_all(grown) + Seq::<E>::empty() =~= concat_all(t.batches)
                    + t.waiting);
            },
        }
    } else {
        assert(concat_all(trace_of(ops).batches) + trace_of(ops).waiting =~= appended(ops));
    }
}

/// A swap hands out precisely what was appended since the swap before it.
pub proof fn lemma_swap_takes_all_waiting<E>(ops: Seq<QueueOp<E>>)
    ensures
        trace_of(ops.push(QueueOp::Swap)).batches.last() == trace_of(ops).waiting,
        trace_of(ops.push(QueueOp::Swap)).waiting == Seq::<E>::empty(),
{
    let grown = ops.push(QueueOp::Swap);
    assert(grown.drop_last() =~= ops);
}

} // verus!
