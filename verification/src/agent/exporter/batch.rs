//! Batching exporter: metrics are buffered and handed on in batches, when the
//! buffer reaches its capacity or when the flush timer ticks.
use crate::agent::event::OneOrMany;
use vstd::prelude::*;

verus! {

/// Default number of metrics that triggers a flush.
pub fn default_capacity() -> (capacity: usize)
    ensures
        capacity == 50,
{
    50
}

/// Default interval, in seconds, between timer flushes.
pub fn default_interval() -> (seconds: u64)
    ensures
        seconds == 30,
{
    30
}

/// An exporter that hands its `handler` batches of at least `capacity`
/// metrics, or whatever it holds every `interval` seconds.
#[derive(Debug)]
pub struct BatchExporter<H> {
    capacity: usize,
    interval: u64,
    handler: H,
}

impl<H> BatchExporter<H> {
    pub fn new(capacity: usize, interval: u64, handler: H) -> (exporter: Self)
        ensures
            exporter.capacity() == capacity,
            exporter.interval() == interval,
            exporter.handler() == handler,
    {
        BatchExporter { capacity, interval, handler }
    }

    pub closed spec fn capacity(&self) -> usize {
        self.capacity
    }

    pub closed spec fn interval(&self) -> u64 {
        self.interval
    }

    pub closed spec fn handler(&self) -> H {
        self.handler
    }

    /// The flush interval in seconds.
    pub fn interval_secs(&self) -> (seconds: u64)
        ensures
            seconds == self.interval(),
    {
        self.interval
    }

    /// A fresh buffer with this exporter's capacity.
    pub fn buffer<T>(&self) -> (buffer: BatchBuffer<T>)
        ensures
            buffer.pending() == Seq::<T>::empty(),
            buffer.capacity() == self.capacity(),
    {
        BatchBuffer::new(self.capacity)
    }

    /// The handler that receives the batches.
    pub fn handler_mut(&mut self) -> (handler: &mut H)
        ensures
            *handler == old(self).handler(),
            final(self).handler() == *final(handler),
            final(self).capacity() == old(self).capacity(),
            final(self).interval() == old(self).interval(),
    {
        &mut self.handler
    }
}

/// One step of a buffer of capacity `cap` that holds `pending`, on an event
/// carrying `items` (`Some(items)`) or on a tick of the timer (`None`): the
/// batch it flushes, if any, and what it holds afterwards. An event flushes
/// everything once the buffer reaches the capacity; a tick flushes whatever
/// the buffer holds.
pub open spec fn batch_step<T>(pending: Seq<T>, cap: usize, input: Option<Seq<T>>) -> (
    Option<Seq<T>>,
    Seq<T>,
) {
    match input {
        Some(items) => {
            let all = pending + items;
            if all.len() >= cap {
                (Some(all), Seq::empty())
            } else {
                (None, all)
            }
        },
        None => if pending.len() > 0 {
            (Some(pending), Seq::empty())
        } else {
            (None, pending)
        },
    }
}

/// Running a buffer that holds `pending` over `inputs`, events and ticks in
/// order: the batches flushed, in order, and what is left.
pub open spec fn batch_run<T>(pending: Seq<T>, cap: usize, inputs: Seq<Option<Seq<T>>>) -> (
    Seq<Seq<T>>,
    Seq<T>,
)
    decreases inputs.len(),
{
    if inputs.len() == 0 {
        (Seq::empty(), pending)
    } else {
        let (batches, rest) = batch_run(pending, cap, inputs.drop_last());
        let (flushed, left) = batch_step(rest, cap, inputs.last());
        match flushed {
            Some(batch) => (batches.push(batch), left),
            None => (batches, left),
        }
    }
}

/// The items that the events among `inputs` carry, in order.
pub open spec fn input_items<T>(inputs: Seq<Option<Seq<T>>>) -> Seq<T>
    decreases inputs.len(),
{
    if inputs.len() == 0 {
        Seq::empty()
    } else {
        input_items(inputs.drop_last()) + match inputs.last() {
            Some(items) => items,
            None => Seq::<T>::empty(),
        }
    }
}

/// Batching loses, repeats and reorders nothing, across events and ticks
/// together: the flushed batches followed by what is left pending are exactly
/// the items held and then received, in order. With a positive capacity no
/// batch is empty, and what is left holds fewer items than the capacity, or
/// none.
pub proof fn law_batches_conserve_items<T>(
    pending: Seq<T>,
    cap: usize,
    inputs: Seq<Option<Seq<T>>>,
)
    requires
        pending.len() < cap || pending.len() == 0,
    ensures
        batch_run(pending, cap, inputs).0.flatten_alt() + batch_run(pending, cap, inputs).1
            == pending + input_items(inputs),
        cap >= 1 ==> forall|i: int|
            0 <= i < batch_run(pending, cap, inputs).0.len() ==> (#[trigger] batch_run(
                pending,
                cap,
                inputs,
            ).0[i]).len() > 0,
        batch_run(pending, cap, inputs).1.len() < cap || batch_run(pending, cap, inputs).1.len()
            == 0,
    decreases inputs.len(),
{
    if inputs.len() > 0 {
        let d = inputs.drop_last();
        law_batches_conserve_items(pending, cap, d);
        let (batches, rest) = batch_run(pending, cap, d);
        let l = match inputs.last() {
            Some(items) => items,
            None => Seq::<T>::empty(),
        };
        let all = rest + l;
        assert(batches.flatten_alt() + rest == pending + input_items(d));
        assert(input_items(inputs) == input_items(d) + l);
        if inputs.last() is None {
            assert(rest + l =~= rest);
        }
        let (flushed, left) = batch_step(rest, cap, inputs.last());
        if flushed is Some {
            let b = batches.push(all);
            assert(flushed == Some(all));
            assert(b.drop_last() =~= batches);
            assert(b.flatten_alt() == batches.flatten_alt() + all);
            assert(b.flatten_alt() + Seq::<T>::empty() =~= b.flatten_alt());
            assert forall|i: int| cap >= 1 && 0 <= i < b.len() implies (#[trigger] b[i]).len()
                > 0 by {
                if i < batches.len() {
                    assert(b[i] == batches[i]);
                }
            }
        } else {
            assert(left == all);
        }
        let x = batches.flatten_alt();
        assert(x + (rest + l) =~= (x + rest) + l);
        assert((pending + input_items(d)) + l =~= pending + (input_items(d) + l));
    }
}

/// The buffer of a batching exporter. Between events it holds fewer items than
/// its capacity, or none.
pub struct BatchBuffer<T> {
    buffer: Vec<T>,
    capacity: usize,
}

impl<T> BatchBuffer<T> {
    #[verifier::type_invariant]
    spec fn inv(self) -> bool {
        self.buffer.len() < self.capacity || self.buffer.len() == 0
    }

    /// The items waiting for the next flush, oldest first.
    pub closed spec fn pending(self) -> Seq<T> {
        self.buffer@
    }

    pub closed spec fn capacity(self) -> usize {
        self.capacity
    }

    pub fn new(capacity: usize) -> (buffer: Self)
        ensures
            buffer.pending() == Seq::<T>::empty(),
            buffer.capacity() == capacity,
    {
        BatchBuffer { buffer: Vec::new(), capacity }
    }

    /// The number of items waiting.
    pub fn len(&self) -> (n: usize)
        ensures
            n == self.pending().len(),
    {
        self.buffer.len()
    }

    /// Adds the items of `event`; when the buffer then holds at least
    /// `capacity` items, all of them are returned as one batch and the buffer
    /// is emptied.
    pub fn push(&mut self, event: OneOrMany<T>) -> (flushed: Option<Vec<T>>)
        ensures
            final(self).capacity() == old(self).capacity(),
            batch_step(old(self).pending(), old(self).capacity(), Some(event.items())) == (
            match flushed {
                Some(batch) => Some(batch@),
                None => None::<Seq<T>>,
            },
            final(self).pending()),
            match flushed {
                Some(batch) => {
                    &&& batch@ == old(self).pending() + event.items()
                    &&& batch@.len() >= old(self).capacity()
                    &&& final(self).pending() == Seq::<T>::empty()
                },
                None => {
                    &&& final(self).pending() == old(self).pending() + event.items()
                    &&& final(self).pending().len() < old(self).capacity()
                },
            },
    {
        let mut buffer = Vec::new();
        std::mem::swap(&mut buffer, &mut self.buffer);
        let ghost before = buffer@;
        match event {
            OneOrMany::One(value) => {
                buffer.push(value);
                assert(buffer@ =~= before + seq![value]);
            },
            OneOrMany::Many(values) => {
                let mut values = values;
                buffer.append(&mut values);
            },
        }
        assert(buffer@ == before + event.items());
        if buffer.len() >= self.capacity {
            Some(buffer)
        } else {
            self.buffer = buffer;
            None
        }
    }

    /// The timer ticked: a non-empty buffer is returned as one batch and
    /// emptied.
    pub fn tick(&mut self) -> (flushed: Option<Vec<T>>)
        ensures
            final(self).capacity() == old(self).capacity(),
            final(self).pending() == Seq::<T>::empty(),
            batch_step(old(self).pending(), old(self).capacity(), None) == (
            match flushed {
                Some(batch) => Some(batch@),
                None => None::<Seq<T>>,
            },
            final(self).pending()),
            match flushed {
                Some(batch) => batch@ == old(self).pending() && batch@.len() > 0,
                None => old(self).pending().len() == 0,
            },
    {
        if self.buffer.len() == 0 {
            None
        } else {
            let mut buffer = Vec::new();
            std::mem::swap(&mut buffer, &mut self.buffer);
            Some(buffer)
        }
    }
}

} // verus!
