//! Grouping of lines into batches and their round-robin routing to shards.
use vstd::prelude::*;

verus! {

/// A batch on its way to a writer shard.
#[derive(Clone, Debug, PartialEq, Eq)]
pub struct Shipment<T> {
    /// Index of the shard whose queue the batch is offered to.
    pub shard: usize,
    /// The lines of the batch, in capture order.
    pub lines: Vec<T>,
}

/// A shipment as contracts see it.
pub struct Offer<T> {
    /// Index of the shard.
    pub shard: int,
    /// The lines of the batch.
    pub lines: Seq<T>,
}

impl<T> View for Shipment<T> {
    type V = Offer<T>;

    open spec fn view(&self) -> Offer<T> {
        Offer { shard: self.shard as int, lines: self.lines@ }
    }
}

/// What an optional shipment offers, if anything.
pub open spec fn offered<T>(shipment: Option<Shipment<T>>) -> Option<Offer<T>> {
    match shipment {
        Some(s) => Some(s@),
        None => None,
    }
}

/// The batcher as contracts see it.
pub struct BatcherState<T> {
    /// Lines collected since the last batch left, in capture order.
    pub batch: Seq<T>,
    /// Shard that the next batch goes to.
    pub writer_index: int,
    /// Number of lines at which a batch leaves.
    pub batch_size: int,
    /// Number of shards.
    pub num_writers: int,
}

impl<T> BatcherState<T> {
    /// The routing index names one of the shards.
    pub open spec fn wf(self) -> bool {
        &&& 0 <= self.writer_index < self.num_writers
        &&& 0 <= self.batch_size
    }

    /// A batcher that has seen nothing yet.
    pub open spec fn fresh(batch_size: int, num_writers: int) -> BatcherState<T> {
        BatcherState { batch: Seq::empty(), writer_index: 0, batch_size, num_writers }
    }

    /// Whether one more line completes the batch.
    pub open spec fn fills(self) -> bool {
        self.batch.len() + 1 >= self.batch_size
    }

    /// State after `line` was added; a completed batch has left.
    pub open spec fn after_push(self, line: T) -> BatcherState<T> {
        if self.fills() {
            BatcherState { batch: Seq::empty(), ..self }
        } else {
            BatcherState { batch: self.batch.push(line), ..self }
        }
    }

    /// The batch that leaves when `line` is added, if one does.
    pub open spec fn shipped_by_push(self, line: T) -> Option<Offer<T>> {
        if self.fills() {
            Some(Offer { shard: self.writer_index, lines: self.batch.push(line) })
        } else {
            None
        }
    }

    /// The batch that leaves at the closing flush, if any line is waiting.
    pub open spec fn shipped_by_flush(self) -> Option<Offer<T>> {
        if self.batch.len() > 0 {
            Some(Offer { shard: self.writer_index, lines: self.batch })
        } else {
            None
        }
    }

    /// State after a shard's queue took the batch: the next shard is up.
    pub open spec fn after_delivery(self) -> BatcherState<T> {
        BatcherState { writer_index: (self.writer_index + 1) % self.num_writers, ..self }
    }

    /// State after the closing flush.
    pub open spec fn after_flush(self) -> BatcherState<T> {
        BatcherState { batch: Seq::empty(), ..self }
    }
}

/// Collects lines and hands out a batch whenever `batch_size` lines are
/// together. Batches go to the shards in turn; the turn moves on only when a
/// batch was taken.
pub struct Batcher<T> {
    batch: Vec<T>,
    writer_index: usize,
    batch_size: usize,
    num_writers: usize,
}

impl<T> View for Batcher<T> {
    type V = BatcherState<T>;

    closed spec fn view(&self) -> BatcherState<T> {
        BatcherState {
            batch: self.batch@,
            writer_index: self.writer_index as int,
            batch_size: self.batch_size as int,
            num_writers: self.num_writers as int,
        }
    }
}

impl<T> Batcher<T> {
    #[verifier::type_invariant]
    spec fn routed(self) -> bool {
        self.writer_index < self.num_writers
    }

    /// A batcher for `num_writers` shards and batches of `batch_size` lines.
    /// A `batch_size` of 0 behaves as 1: every line leaves at once.
    pub fn new(batch_size: usize, num_writers: usize) -> (batcher: Batcher<T>)
        requires
            num_writers > 0,
        ensures
            batcher@ == BatcherState::<T>::fresh(batch_size as int, num_writers as int),
            batcher@.wf(),
    {
        Batcher { batch: Vec::new(), writer_index: 0, batch_size, num_writers }
    }

    /// Shard that the next batch goes to.
    pub fn writer_index(&self) -> (index: usize)
        ensures
            index == self@.writer_index,
            index < self@.num_writers,
    {
        proof {
            use_type_invariant(self);
        }
        self.writer_index
    }

    /// Number of lines at which a batch leaves.
    pub fn batch_size(&self) -> (size: usize)
        ensures
            size == self@.batch_size,
    {
        self.batch_size
    }

    /// Number of shards.
    pub fn num_writers(&self) -> (shards: usize)
        ensures
            shards == self@.num_writers,
            shards > 0,
    {
        proof {
            use_type_invariant(self);
        }
        self.num_writers
    }

    /// Number of lines waiting for their batch to fill.
    pub fn pending_len(&self) -> (n: usize)
        ensures
            n == self@.batch.len(),
    {
        self.batch.len()
    }

    /// Adds a line. When this completes a batch, the batch is returned with
    /// the shard it is meant for; the caller offers it to that shard's queue
    /// and calls `delivered` if the queue took it. A refused batch is lost
    /// and the same shard gets the next one.
    pub fn push(&mut self, line: T) -> (shipment: Option<Shipment<T>>)
        ensures
            final(self)@ == old(self)@.after_push(line),
            final(self)@.wf(),
            final(self)@.writer_index == old(self)@.writer_index,
            final(self)@.batch_size == old(self)@.batch_size,
            final(self)@.num_writers == old(self)@.num_writers,
            offered(shipment) == old(self)@.shipped_by_push(line),
            shipment is Some <==> old(self)@.fills(),
    {
        proof {
            use_type_invariant(&*self);
        }
        let mut lines: Vec<T> = Vec::new();
        core::mem::swap(&mut lines, &mut self.batch);
        lines.push(line);
        if lines.len() >= self.batch_size {
            Some(Shipment { shard: self.writer_index, lines })
        } else {
            self.batch = lines;
            None
        }
    }

    /// Records that the last batch handed out was taken by its shard.
    pub fn delivered(&mut self)
        ensures
            final(self)@ == old(self)@.after_delivery(),
            final(self)@.wf(),
            final(self)@.batch == old(self)@.batch,
            final(self)@.batch_size == old(self)@.batch_size,
            final(self)@.num_writers == old(self)@.num_writers,
    {
        proof {
            use_type_invariant(&*self);
        }
        self.writer_index = (self.writer_index + 1) % self.num_writers;
    }

    /// Hands out whatever is waiting, as the batch that closes a run. The
    /// routing index stays where it is.
    pub fn flush(&mut self) -> (shipment: Option<Shipment<T>>)
        ensures
            final(self)@ == old(self)@.after_flush(),
            final(self)@.wf(),
            final(self)@.writer_index == old(self)@.writer_index,
            final(self)@.batch_size == old(self)@.batch_size,
            final(self)@.num_writers == old(self)@.num_writers,
            offered(shipment) == old(self)@.shipped_by_flush(),
            shipment is Some <==> old(self)@.batch.len() > 0,
    {
        proof {
            use_type_invariant(&*self);
        }
        if self.batch.len() == 0 {
            assert(self.batch@ =~= Seq::<T>::empty());
            return None;
        }
        let mut lines: Vec<T> = Vec::new();
        core::mem::swap(&mut lines, &mut self.batch);
        Some(Shipment { shard: self.writer_index, lines })
    }
}

} // verus!
