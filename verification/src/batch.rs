//! The micro-batching decisions of the background flusher: samples are
//! buffered and handed out as a batch when the buffer reaches the batch
//! size, when the flush interval ticks, or when ingestion ends.

use vstd::prelude::*;
use crate::sample::MetricSample;

verus! {

/// The buffer of samples waiting for the next flush.
pub struct BatchBuffer {
    batch_size: usize,
    pending: Vec<MetricSample>,
}

impl BatchBuffer {
    /// The samples waiting, in arrival order.
    pub closed spec fn pending_samples(&self) -> Seq<MetricSample> {
        self.pending@
    }

    /// The batch size the buffer was made with.
    pub closed spec fn size(&self) -> nat {
        self.batch_size as nat
    }

    /// An empty buffer flushing every `batch_size` samples.
    pub fn new(batch_size: usize) -> (b: Self)
        ensures
            b.pending_samples() == Seq::<MetricSample>::empty(),
            b.size() == batch_size,
    {
        BatchBuffer { batch_size, pending: Vec::new() }
    }

    /// Buffers a sample; hands out the whole buffer as a batch once it holds
    /// at least the batch size.
    pub fn push(&mut self, sample: MetricSample) -> (flushed: Option<Vec<MetricSample>>)
        ensures
            final(self).size() == old(self).size(),
            ({
                let all = old(self).pending_samples().push(sample);
                match flushed {
                    Some(batch) => all.len() >= old(self).size() && batch@ == all
                        && final(self).pending_samples() == Seq::<MetricSample>::empty(),
                    None => all.len() < old(self).size() && final(self).pending_samples() == all,
                }
            }),
    {
        self.pending.push(sample);
        if self.pending.len() >= self.batch_size {
            let mut batch: Vec<MetricSample> = Vec::new();
            std::mem::swap(&mut batch, &mut self.pending);
            Some(batch)
        } else {
            None
        }
    }

    /// Hands out the buffered samples, if any (on a flush tick or when the
    /// input ends).
    pub fn drain(&mut self) -> (flushed: Option<Vec<MetricSample>>)
        ensures
            final(self).size() == old(self).size(),
            final(self).pending_samples() == Seq::<MetricSample>::empty(),
            match flushed {
                Some(batch) => batch@ == old(self).pending_samples() && batch@.len() > 0,
                None => old(self).pending_samples().len() == 0,
            },
    {
        if self.pending.len() == 0 {
            None
        } else {
            let mut batch: Vec<MetricSample> = Vec::new();
            std::mem::swap(&mut batch, &mut self.pending);
            Some(batch)
        }
    }

    /// The number of samples waiting.
    pub fn len(&self) -> (n: usize)
        ensures
            n == self.pending_samples().len(),
    {
        self.pending.len()
    }
}

/// The buffer after an arrival: the buffer with the sample appended, or
/// nothing once that reaches the batch size.
pub open spec fn after_arrival(pending: Seq<MetricSample>, size: nat, s: MetricSample) -> Seq<MetricSample> {
    if pending.push(s).len() >= size {
        Seq::<MetricSample>::empty()
    } else {
        pending.push(s)
    }
}

/// The batches handed out by a run of arrivals.
pub open spec fn batches_of(pending: Seq<MetricSample>, size: nat, arrivals: Seq<MetricSample>) -> Seq<Seq<MetricSample>>
    decreases arrivals.len(),
{
    if arrivals.len() == 0 {
        Seq::empty()
    } else {
        let before = batches_of(pending, size, arrivals.drop_last());
        let buf = buffer_after(pending, size, arrivals.drop_last());
        if buf.push(arrivals.last()).len() >= size {
            before.push(buf.push(arrivals.last()))
        } else {
            before
        }
    }
}

/// The buffer after a run of arrivals.
pub open spec fn buffer_after(pending: Seq<MetricSample>, size: nat, arrivals: Seq<MetricSample>) -> Seq<MetricSample>
    decreases arrivals.len(),
{
    if arrivals.len() == 0 {
        pending
    } else {
        after_arrival(buffer_after(pending, size, arrivals.drop_last()), size, arrivals.last())
    }
}

/// All the samples of a run of batches, in order.
pub open spec fn flatten(batches: Seq<Seq<MetricSample>>) -> Seq<MetricSample>
    decreases batches.len(),
{
    if batches.len() == 0 {
        Seq::empty()
    } else {
        flatten(batches.drop_last()) + batches.last()
    }
}

/// Law: batching loses, duplicates and reorders nothing: the batches handed
/// out by a run of arrivals, followed by what is still buffered, are the
/// samples buffered before followed by the arrivals; each batch handed out
/// holds at least the batch size (exactly the batch size, for a batch size
/// of at least one, when the buffer started below it); and the buffer stays
/// below the batch size.
pub proof fn lemma_batching_preserves_order(pending: Seq<MetricSample>, size: nat, arrivals: Seq<MetricSample>)
    ensures
        flatten(batches_of(pending, size, arrivals)) + buffer_after(pending, size, arrivals) == pending
            + arrivals,
        forall|i: int|
            0 <= i < batches_of(pending, size, arrivals).len() ==> (#[trigger] batches_of(
                pending,
                size,
                arrivals,
            )[i]).len() >= size,
        pending.len() < size ==> buffer_after(pending, size, arrivals).len() < size,
        pending.len() < size && size >= 1 ==> forall|i: int|
            0 <= i < batches_of(pending, size, arrivals).len() ==> (#[trigger] batches_of(
                pending,
                size,
                arrivals,
            )[i]).len() == size,
    decreases arrivals.len(),
{
    if arrivals.len() > 0 {
        let init = arrivals.drop_last();
        let s = arrivals.last();
        lemma_batching_preserves_order(pending, size, init);
        let buf = buffer_after(pending, size, init);
        let before = batches_of(pending, size, init);
        if init.len() == 0 {
            assert(before =~= Seq::<Seq<MetricSample>>::empty());
            assert(buf == pending);
            assert(flatten(before) =~= Seq::<MetricSample>::empty());
        }
        assert(flatten(before) + buf == pending + init);
        assert(arrivals =~= init.push(s));
        assert(pending + arrivals =~= (pending + init).push(s));
        assert(flatten(before) + buf.push(s) =~= (flatten(before) + buf).push(s));
        if buf.push(s).len() >= size {
            let after = before.push(buf.push(s));
            assert(after.drop_last() =~= before);
            assert(flatten(after) == flatten(before) + buf.push(s));
            assert(flatten(after) + Seq::<MetricSample>::empty() =~= pending + arrivals);
        } else {
            assert(flatten(before) + buf.push(s) =~= pending + arrivals);
        }
    } else {
        assert(flatten(Seq::<Seq<MetricSample>>::empty()) =~= Seq::<MetricSample>::empty());
        assert(Seq::<MetricSample>::empty() + pending =~= pending + arrivals);
    }
}

} // verus!
