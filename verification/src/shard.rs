//! A writer shard: one append-only file, fed with batches, written with
//! bounded retry.
use crate::clock::{clock_text, TimedLine};
use crate::text::{decimal, decimal_text};
use vstd::prelude::*;
use vstd::string::StringExecFns;

verus! {

/// The bytes that a line takes in a shard file: its capture time, a space,
/// and the raw bytes of the line, which end with the newline.
pub open spec fn record_of(line: TimedLine) -> Seq<u8> {
    clock_text(line.time@) + seq![32u8] + line.bytes@
}

/// The records of a batch, line by line.
pub open spec fn records_of(batch: Seq<TimedLine>) -> Seq<Seq<u8>> {
    Seq::new(batch.len(), |i: int| record_of(batch[i]))
}

/// Path of the file of shard `index`.
pub open spec fn shard_file_name(index: nat) -> Seq<char> {
    "content/crystal-md-"@ + decimal(index) + ".txt"@
}

/// Formats a line for its shard file. The line's bytes are taken as they
/// came from the server.
pub fn record(line: &TimedLine) -> (bytes: Vec<u8>)
    ensures
        bytes@ == record_of(*line),
{
    let mut bytes = line.time.text();
    bytes.push(32u8);
    let n: usize = line.bytes.len();
    let mut i: usize = 0;
    while i < n
        invariant
            i <= n,
            n == line.bytes@.len(),
            bytes@ == clock_text(line.time@) + seq![32u8] + line.bytes@.subrange(0, i as int),
        decreases n - i,
    {
        bytes.push(line.bytes[i]);
        assert(line.bytes@.subrange(0, i + 1) =~= line.bytes@.subrange(0, i as int).push(
            line.bytes@[i as int],
        ));
        i = i + 1;
    }
    assert(line.bytes@.subrange(0, n as int) =~= line.bytes@);
    bytes
}

/// Gives the path of a shard's file.
pub fn file_name(index: usize) -> (name: String)
    ensures
        name@ == shard_file_name(index as nat),
{
    let mut name = String::from_str("content/crystal-md-");
    let digits = decimal_text(index as u64);
    name.append(digits.as_str());
    name.append(".txt");
    name
}

/// Where a shard stands in its work.
#[derive(Clone, Copy, Debug, PartialEq, Eq, Structural)]
pub enum ShardPhase {
    /// Waiting for a batch or the flush tick.
    Idle,
    /// Writing the records of a batch, one by one.
    Writing,
    /// Flushing behind the last record of a batch.
    FlushingBatch,
    /// Flushing because the flush interval has passed.
    FlushingTick,
    /// Ended on the stop signal.
    Stopped,
    /// Ended because an operation failed too often.
    Aborted,
}

/// What the shard's task has to do next.
#[derive(Clone, Copy, Debug, PartialEq, Eq, Structural)]
pub enum ShardStep {
    /// Wait for a batch, the flush tick or the stop signal.
    Await,
    /// Write the current record to the file.
    Write,
    /// Flush the file.
    Flush,
    /// End the task.
    Exit,
}

/// What follows from the result of a write or a flush.
#[derive(Clone, Copy, Debug, PartialEq, Eq, Structural)]
pub enum Verdict {
    /// Go on with the next step.
    Proceed,
    /// The batch is written and flushed: that many lines are no longer in
    /// flight.
    BatchWritten { lines: usize },
    /// The operation failed: wait that many seconds and do it again.
    RetryAfter { secs: u64 },
    /// The operation failed once too often: the shard gives up.
    GiveUp,
}

/// A shard as contracts see it.
pub struct ShardState {
    /// Where the shard stands.
    pub phase: ShardPhase,
    /// The records of the batch in work.
    pub records: Seq<Seq<u8>>,
    /// How many of them are written.
    pub cursor: int,
    /// How often the operation in work has failed.
    pub retries: int,
    /// How many failures of one operation end the shard.
    pub max_retries: int,
    /// Seconds to wait before an operation is tried again.
    pub retry_interval_secs: int,
}

impl ShardState {
    /// A shard that waits for its first batch.
    pub open spec fn idle(max_retries: int, retry_interval_secs: int) -> ShardState {
        ShardState {
            phase: ShardPhase::Idle,
            records: Seq::empty(),
            cursor: 0,
            retries: 0,
            max_retries,
            retry_interval_secs,
        }
    }

    /// A write or a flush is in work.
    pub open spec fn busy(self) -> bool {
        self.phase == ShardPhase::Writing || self.phase == ShardPhase::FlushingBatch || self.phase
            == ShardPhase::FlushingTick
    }

    /// One more failure uses up the retry budget.
    pub open spec fn exhausted(self) -> bool {
        self.retries + 1 >= self.max_retries
    }

    /// What the task has to do in this state.
    pub open spec fn step(self) -> ShardStep {
        match self.phase {
            ShardPhase::Idle => ShardStep::Await,
            ShardPhase::Writing => ShardStep::Write,
            ShardPhase::FlushingBatch | ShardPhase::FlushingTick => ShardStep::Flush,
            ShardPhase::Stopped | ShardPhase::Aborted => ShardStep::Exit,
        }
    }

    /// The record that is to be written next, while the shard is writing.
    pub open spec fn current(self) -> Option<Seq<u8>> {
        if self.phase == ShardPhase::Writing && 0 <= self.cursor < self.records.len() {
            Some(self.records[self.cursor])
        } else {
            None
        }
    }

    /// State after a batch with these records arrived. Only an idle shard
    /// takes a batch. An empty batch goes straight to its flush.
    pub open spec fn after_batch(self, records: Seq<Seq<u8>>) -> ShardState {
        if self.phase != ShardPhase::Idle {
            self
        } else if records.len() == 0 {
            ShardState { phase: ShardPhase::FlushingBatch, records, cursor: 0, retries: 0, ..self }
        } else {
            ShardState { phase: ShardPhase::Writing, records, cursor: 0, retries: 0, ..self }
        }
    }

    /// State after the flush tick: an idle shard starts a flush.
    pub open spec fn after_tick(self) -> ShardState {
        if self.phase == ShardPhase::Idle {
            ShardState { phase: ShardPhase::FlushingTick, retries: 0, ..self }
        } else {
            self
        }
    }

    /// State after the stop signal was seen: an idle shard ends. A shard
    /// in work sees the signal when its work is done.
    pub open spec fn after_stop(self) -> ShardState {
        if self.phase == ShardPhase::Idle {
            ShardState { phase: ShardPhase::Stopped, ..self }
        } else {
            self
        }
    }

    /// State after the operation in work has failed.
    pub open spec fn after_failure(self) -> ShardState {
        if self.exhausted() {
            ShardState { phase: ShardPhase::Aborted, ..self }
        } else {
            ShardState { retries: self.retries + 1, ..self }
        }
    }

    /// State after the result of the operation in work is known.
    pub open spec fn after_report(self, ok: bool) -> ShardState {
        if !self.busy() {
            self
        } else if !ok {
            self.after_failure()
        } else {
            match self.phase {
                ShardPhase::Writing => if self.cursor + 1 < self.records.len() {
                    ShardState { cursor: self.cursor + 1, retries: 0, ..self }
                } else {
                    ShardState {
                        phase: ShardPhase::FlushingBatch,
                        cursor: self.cursor + 1,
                        retries: 0,
                        ..self
                    }
                },
                ShardPhase::FlushingBatch => ShardState {
                    phase: ShardPhase::Idle,
                    records: Seq::empty(),
                    cursor: 0,
                    retries: 0,
                    ..self
                },
                _ => ShardState { phase: ShardPhase::Idle, retries: 0, ..self },
            }
        }
    }

    /// What the task is told when the result of the operation in work is
    /// known.
    pub open spec fn verdict(self, ok: bool) -> Verdict {
        if !self.busy() {
            Verdict::Proceed
        } else if !ok {
            if self.exhausted() {
                Verdict::GiveUp
            } else {
                Verdict::RetryAfter { secs: self.retry_interval_secs as u64 }
            }
        } else if self.phase == ShardPhase::FlushingBatch {
            Verdict::BatchWritten { lines: self.records.len() as usize }
        } else {
            Verdict::Proceed
        }
    }
}

/// The shard after the results of its operations came in, one by one.
pub open spec fn after_reports(start: ShardState, results: Seq<bool>) -> ShardState
    decreases results.len(),
{
    if results.len() == 0 {
        start
    } else {
        after_reports(start, results.drop_last()).after_report(results.last())
    }
}

/// The records that reached the file while the results came in: those
/// whose write succeeded, in the order of the writes.
pub open spec fn written_by(start: ShardState, results: Seq<bool>) -> Seq<Seq<u8>>
    decreases results.len(),
{
    if results.len() == 0 {
        Seq::empty()
    } else {
        let before = after_reports(start, results.drop_last());
        let earlier = written_by(start, results.drop_last());
        if results.last() && before.current() is Some {
            earlier.push(before.current()->0)
        } else {
            earlier
        }
    }
}

/// How often a batch was reported as written while the results came in.
pub open spec fn completions(start: ShardState, results: Seq<bool>) -> nat
    decreases results.len(),
{
    if results.len() == 0 {
        0
    } else {
        let before = after_reports(start, results.drop_last());
        completions(start, results.drop_last()) + if before.verdict(results.last())
            is BatchWritten {
            1nat
        } else {
            0nat
        }
    }
}

/// Number of operations among `results` that succeeded.
pub open spec fn successes(results: Seq<bool>) -> nat
    decreases results.len(),
{
    if results.len() == 0 {
        0
    } else {
        successes(results.drop_last()) + if results.last() {
            1nat
        } else {
            0nat
        }
    }
}

/// Number of operations among `results` that failed.
pub open spec fn failures(results: Seq<bool>) -> nat
    decreases results.len(),
{
    if results.len() == 0 {
        0
    } else {
        failures(results.drop_last()) + if results.last() {
            0nat
        } else {
            1nat
        }
    }
}

/// A shard that has taken a batch and whose operations fail less often
/// than the retry budget allows stays with the batch: it writes the
/// records in their order, one for each success, then flushes, and reports
/// the batch as written once.
pub proof fn lemma_batch_in_order(
    max_retries: int,
    retry_interval_secs: int,
    records: Seq<Seq<u8>>,
    results: Seq<bool>,
)
    requires
        failures(results) < max_retries,
    ensures
        ({
            let start = ShardState::idle(max_retries, retry_interval_secs).after_batch(records);
            let now = after_reports(start, results);
            let done = successes(results);
            &&& now.max_retries == max_retries
            &&& now.retries <= failures(results)
            &&& written_by(start, results) == records.subrange(
                0,
                if done < records.len() {
                    done as int
                } else {
                    records.len() as int
                },
            )
            &&& done < records.len() ==> now.phase == ShardPhase::Writing && now.cursor == done
                && now.records == records && completions(start, results) == 0
            &&& done == records.len() ==> now.phase == ShardPhase::FlushingBatch && now.records
                == records && completions(start, results) == 0
            &&& done > records.len() ==> now.phase == ShardPhase::Idle && completions(
                start,
                results,
            ) == 1
        }),
    decreases results.len(),
{
    let start = ShardState::idle(max_retries, retry_interval_secs).after_batch(records);
    if results.len() == 0 {
        assert(written_by(start, results) =~= records.subrange(0, 0));
    } else {
        let front = results.drop_last();
        lemma_batch_in_order(max_retries, retry_interval_secs, records, front);
        let before = after_reports(start, front);
        let done = successes(front);
        if results.last() {
            if done < records.len() {
                assert(before.current() == Some(records[done as int]));
                assert(records.subrange(0, done as int).push(records[done as int])
                    =~= records.subrange(0, done as int + 1));
            }
        }
    }
}

/// Write retry: when the operations of a batch fail less often than the
/// retry budget allows and succeed once for every record and once for the
/// flush, the whole batch is in the file, in order, the shard is idle
/// again, and the batch was reported as written exactly once.
pub proof fn lemma_patient_shard_completes(
    max_retries: int,
    retry_interval_secs: int,
    records: Seq<Seq<u8>>,
    results: Seq<bool>,
)
    requires
        failures(results) < max_retries,
        successes(results) == records.len() + 1,
    ensures
        ({
            let start = ShardState::idle(max_retries, retry_interval_secs).after_batch(records);
            &&& after_reports(start, results).phase == ShardPhase::Idle
            &&& written_by(start, results) == records
            &&& completions(start, results) == 1
        }),
{
    lemma_batch_in_order(max_retries, retry_interval_secs, records, results);
    assert(records.subrange(0, records.len() as int) =~= records);
}

/// A shard that has ended does nothing any more: it asks for no write and
/// no flush, and neither a batch nor a tick nor a result changes it.
pub proof fn lemma_ended_shard_is_inert(state: ShardState, records: Seq<Seq<u8>>, ok: bool)
    requires
        state.phase == ShardPhase::Stopped || state.phase == ShardPhase::Aborted,
    ensures
        state.step() == ShardStep::Exit,
        state.current() is None,
        state.after_batch(records) == state,
        state.after_tick() == state,
        state.after_stop() == state,
        state.after_report(ok) == state,
        state.verdict(ok) == Verdict::Proceed,
{
}

/// The state of one writer shard. The shard's task asks it what to do,
/// does it on the shard's file and reports whether it worked.
pub struct WriterShard {
    index: usize,
    phase: ShardPhase,
    records: Vec<Vec<u8>>,
    cursor: usize,
    retries: usize,
    max_retries: usize,
    retry_interval_secs: u64,
}

impl View for WriterShard {
    type V = ShardState;

    closed spec fn view(&self) -> ShardState {
        ShardState {
            phase: self.phase,
            records: crate::lines::rows(self.records@),
            cursor: self.cursor as int,
            retries: self.retries as int,
            max_retries: self.max_retries as int,
            retry_interval_secs: self.retry_interval_secs as int,
        }
    }
}

impl WriterShard {
    #[verifier::type_invariant]
    spec fn in_step(self) -> bool {
        &&& self.phase == ShardPhase::Writing ==> self.cursor < self.records@.len()
        &&& self.retries == 0 || self.retries < self.max_retries
    }

    /// A shard that waits for its first batch.
    pub fn new(index: usize, max_retries: usize, retry_interval_secs: u64) -> (shard: WriterShard)
        ensures
            shard@ == ShardState::idle(max_retries as int, retry_interval_secs as int),
            shard.spec_index() == index,
    {
        let shard = WriterShard {
            index,
            phase: ShardPhase::Idle,
            records: Vec::new(),
            cursor: 0,
            retries: 0,
            max_retries,
            retry_interval_secs,
        };
        assert(crate::lines::rows(shard.records@) =~= Seq::<Seq<u8>>::empty());
        shard
    }

    /// Index of this shard among the shards.
    pub closed spec fn spec_index(&self) -> usize {
        self.index
    }

    /// Index of this shard among the shards.
    #[verifier::when_used_as_spec(spec_index)]
    pub fn index(&self) -> (index: usize)
        ensures
            index == self.spec_index(),
    {
        self.index
    }

    /// Where the shard stands.
    pub fn phase(&self) -> (phase: ShardPhase)
        ensures
            phase == self@.phase,
    {
        self.phase
    }

    /// What the shard's task has to do next.
    pub fn next_step(&self) -> (step: ShardStep)
        ensures
            step == self@.step(),
    {
        match self.phase {
            ShardPhase::Idle => ShardStep::Await,
            ShardPhase::Writing => ShardStep::Write,
            ShardPhase::FlushingBatch => ShardStep::Flush,
            ShardPhase::FlushingTick => ShardStep::Flush,
            ShardPhase::Stopped => ShardStep::Exit,
            ShardPhase::Aborted => ShardStep::Exit,
        }
    }

    /// The record that is to be written, while the shard is writing.
    pub fn current_record(&self) -> (bytes: Option<&Vec<u8>>)
        ensures
            match bytes {
                Some(b) => self@.current() == Some(b@),
                None => self@.current() is None,
            },
            self@.phase == ShardPhase::Writing ==> bytes is Some,
    {
        proof {
            use_type_invariant(self);
        }
        match self.phase {
            ShardPhase::Writing => Some(&self.records[self.cursor]),
            _ => None,
        }
    }

    /// Takes a batch from the queue, if the shard is idle; tells whether it
    /// did. The lines are formatted at once.
    pub fn accept(&mut self, batch: &Vec<TimedLine>) -> (taken: bool)
        ensures
            taken == (old(self)@.phase == ShardPhase::Idle),
            final(self)@ == old(self)@.after_batch(records_of(batch@)),
            final(self).spec_index() == old(self).spec_index(),
    {
        proof {
            use_type_invariant(&*self);
        }
        match self.phase {
            ShardPhase::Idle => {},
            _ => {
                return false;
            },
        }
        let mut records: Vec<Vec<u8>> = Vec::new();
        let n: usize = batch.len();
        let mut i: usize = 0;
        while i < n
            invariant
                i <= n,
                n == batch@.len(),
                records@.len() == i,
                forall|k: int| 0 <= k < i ==> (#[trigger] records@[k])@ == record_of(batch@[k]),
            decreases n - i,
        {
            records.push(record(&batch[i]));
            i = i + 1;
        }
        assert(crate::lines::rows(records@) =~= records_of(batch@));
        self.records = records;
        self.cursor = 0;
        self.retries = 0;
        self.phase = if n == 0 {
            ShardPhase::FlushingBatch
        } else {
            ShardPhase::Writing
        };
        true
    }

    /// Reacts to the flush tick.
    pub fn tick(&mut self)
        ensures
            final(self)@ == old(self)@.after_tick(),
            final(self).spec_index() == old(self).spec_index(),
    {
        proof {
            use_type_invariant(&*self);
        }
        match self.phase {
            ShardPhase::Idle => {
                self.retries = 0;
                self.phase = ShardPhase::FlushingTick;
            },
            _ => {},
        }
    }

    /// Reacts to the stop signal.
    pub fn stop(&mut self)
        ensures
            final(self)@ == old(self)@.after_stop(),
            final(self).spec_index() == old(self).spec_index(),
    {
        proof {
            use_type_invariant(&*self);
        }
        match self.phase {
            ShardPhase::Idle => {
                self.phase = ShardPhase::Stopped;
            },
            _ => {},
        }
    }

    /// Takes the result of the write or flush that was asked for and says
    /// how to go on.
    pub fn report(&mut self, ok: bool) -> (verdict: Verdict)
        ensures
            final(self)@ == old(self)@.after_report(ok),
            verdict == old(self)@.verdict(ok),
            final(self).spec_index() == old(self).spec_index(),
    {
        proof {
            use_type_invariant(&*self);
        }
        match self.phase {
            ShardPhase::Idle => {
                return Verdict::Proceed;
            },
            ShardPhase::Stopped => {
                return Verdict::Proceed;
            },
            ShardPhase::Aborted => {
                return Verdict::Proceed;
            },
            _ => {},
        }
        if !ok {
            if self.retries + 1 >= self.max_retries {
                self.phase = ShardPhase::Aborted;
                return Verdict::GiveUp;
            }
            self.retries = self.retries + 1;
            return Verdict::RetryAfter { secs: self.retry_interval_secs };
        }
        match self.phase {
            ShardPhase::Writing => {
                let len: usize = self.records.len();
                self.retries = 0;
                if self.cursor + 1 < len {
                    self.cursor = self.cursor + 1;
                } else {
                    self.phase = ShardPhase::FlushingBatch;
                    self.cursor = self.cursor + 1;
                }
                Verdict::Proceed
            },
            ShardPhase::FlushingBatch => {
                let lines: usize = self.records.len();
                self.retries = 0;
                self.cursor = 0;
                self.phase = ShardPhase::Idle;
                self.records = Vec::new();
                assert(crate::lines::rows(self.records@) =~= Seq::<Seq<u8>>::empty());
                Verdict::BatchWritten { lines }
            },
            _ => {
                self.retries = 0;
                self.phase = ShardPhase::Idle;
                Verdict::Proceed
            },
        }
    }
}

} // verus!
