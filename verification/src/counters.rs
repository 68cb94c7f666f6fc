//! The rolling counters of a run: lines in flight and lines sent.
use crate::settings::REPORT_INTERVAL;
use crate::text::{decimal, decimal_text};
use vstd::prelude::*;
use vstd::string::StringExecFns;

verus! {

/// The counters as contracts see them.
pub struct Tally {
    /// Lines taken by a shard's queue and not yet written.
    pub in_flight: nat,
    /// Lines ever taken by a shard's queue.
    pub total_sent: nat,
    /// Lines of batches that a queue refused.
    pub dropped: nat,
}

/// Something that moves a counter.
pub enum CounterEvent {
    /// A shard's queue took a batch of that many lines.
    Enqueued(nat),
    /// A shard has written a batch of that many lines.
    Written(nat),
    /// A queue refused a batch of that many lines.
    Dropped(nat),
}

impl Tally {
    /// All counters at zero.
    pub open spec fn zero() -> Tally {
        Tally { in_flight: 0, total_sent: 0, dropped: 0 }
    }

    /// Whether `event` can happen now: a shard can only write what is in
    /// flight.
    pub open spec fn admits(self, event: CounterEvent) -> bool {
        match event {
            CounterEvent::Written(n) => n <= self.in_flight,
            _ => true,
        }
    }

    /// The counters after `event`.
    pub open spec fn after(self, event: CounterEvent) -> Tally {
        match event {
            CounterEvent::Enqueued(n) => Tally {
                in_flight: self.in_flight + n,
                total_sent: self.total_sent + n,
                ..self
            },
            CounterEvent::Written(n) => Tally { in_flight: (self.in_flight - n) as nat, ..self },
            CounterEvent::Dropped(n) => Tally { dropped: self.dropped + n, ..self },
        }
    }
}

/// The counters after a history of events, starting at zero.
pub open spec fn tally_of(events: Seq<CounterEvent>) -> Tally
    decreases events.len(),
{
    if events.len() == 0 {
        Tally::zero()
    } else {
        tally_of(events.drop_last()).after(events.last())
    }
}

/// Whether every event of the history could happen when it did.
pub open spec fn admissible(events: Seq<CounterEvent>) -> bool
    decreases events.len(),
{
    if events.len() == 0 {
        true
    } else {
        admissible(events.drop_last()) && tally_of(events.drop_last()).admits(events.last())
    }
}

/// Lines that the queues took over a history.
pub open spec fn lines_enqueued(events: Seq<CounterEvent>) -> nat
    decreases events.len(),
{
    if events.len() == 0 {
        0
    } else {
        lines_enqueued(events.drop_last()) + match events.last() {
            CounterEvent::Enqueued(n) => n,
            _ => 0nat,
        }
    }
}

/// Lines that the shards wrote over a history.
pub open spec fn lines_written(events: Seq<CounterEvent>) -> nat
    decreases events.len(),
{
    if events.len() == 0 {
        0
    } else {
        lines_written(events.drop_last()) + match events.last() {
            CounterEvent::Written(n) => n,
            _ => 0nat,
        }
    }
}

/// Batch conservation: the lines sent are the lines that the queues took,
/// neither more nor less; the lines in flight are those of them not yet
/// written, never below zero nor above the lines sent; and when the shards
/// have written all that the queues took, nothing is in flight.
pub proof fn lemma_batch_conservation(events: Seq<CounterEvent>)
    requires
        admissible(events),
    ensures
        tally_of(events).total_sent == lines_enqueued(events),
        tally_of(events).in_flight + lines_written(events) == lines_enqueued(events),
        tally_of(events).in_flight <= tally_of(events).total_sent,
        lines_written(events) == lines_enqueued(events) ==> tally_of(events).in_flight == 0,
    decreases events.len(),
{
    if events.len() > 0 {
        lemma_batch_conservation(events.drop_last());
    }
}

/// The line that the reporter prints for the counters.
pub open spec fn report_text(tally: Tally) -> Seq<char> {
    "cb: "@ + decimal(tally.in_flight) + ", cr: "@ + decimal(tally.total_sent)
}

/// The counters of a run.
#[derive(Clone, Copy, Debug, PartialEq, Eq)]
pub struct Counters {
    in_flight: usize,
    total_sent: usize,
    dropped: usize,
}

impl View for Counters {
    type V = Tally;

    closed spec fn view(&self) -> Tally {
        Tally {
            in_flight: self.in_flight as nat,
            total_sent: self.total_sent as nat,
            dropped: self.dropped as nat,
        }
    }
}

impl Counters {
    #[verifier::type_invariant]
    spec fn bounded(self) -> bool {
        self.in_flight <= self.total_sent
    }

    /// Counters at zero.
    pub fn new() -> (counters: Counters)
        ensures
            counters@ == Tally::zero(),
    {
        Counters { in_flight: 0, total_sent: 0, dropped: 0 }
    }

    /// Lines taken by a queue and not yet written.
    pub fn in_flight(&self) -> (n: usize)
        ensures
            n == self@.in_flight,
            self@.in_flight <= self@.total_sent,
    {
        proof {
            use_type_invariant(self);
        }
        self.in_flight
    }

    /// Lines ever taken by a queue.
    pub fn total_sent(&self) -> (n: usize)
        ensures
            n == self@.total_sent,
    {
        self.total_sent
    }

    /// Lines of refused batches.
    pub fn dropped(&self) -> (n: usize)
        ensures
            n == self@.dropped,
    {
        self.dropped
    }

    /// Counts a batch of `lines` lines that a queue took.
    pub fn record_enqueued(&mut self, lines: usize)
        requires
            old(self)@.total_sent + lines <= usize::MAX,
        ensures
            final(self)@ == old(self)@.after(CounterEvent::Enqueued(lines as nat)),
    {
        proof {
            use_type_invariant(&*self);
        }
        self.total_sent = self.total_sent + lines;
        self.in_flight = self.in_flight + lines;
    }

    /// Counts a batch of `lines` lines that a shard has written.
    pub fn record_written(&mut self, lines: usize)
        requires
            lines <= old(self)@.in_flight,
        ensures
            final(self)@ == old(self)@.after(CounterEvent::Written(lines as nat)),
    {
        proof {
            use_type_invariant(&*self);
        }
        self.in_flight = self.in_flight - lines;
    }

    /// Counts a batch of `lines` lines that a queue refused.
    pub fn record_dropped(&mut self, lines: usize)
        requires
            old(self)@.dropped + lines <= usize::MAX,
        ensures
            final(self)@ == old(self)@.after(CounterEvent::Dropped(lines as nat)),
    {
        proof {
            use_type_invariant(&*self);
        }
        self.dropped = self.dropped + lines;
    }

    /// The line that the reporter prints once a second.
    pub fn report(&self) -> (line: String)
        ensures
            line@ == report_text(self@),
    {
        let mut line = String::from_str("cb: ");
        let in_flight = decimal_text(self.in_flight as u64);
        line.append(in_flight.as_str());
        line.append(", cr: ");
        let total = decimal_text(self.total_sent as u64);
        line.append(total.as_str());
        line
    }
}

/// What the reporter's task has to do next.
#[derive(Clone, Copy, Debug, PartialEq, Eq, Structural)]
pub enum ReporterStep {
    /// End the task.
    Exit,
    /// Wait that many seconds, then print the counters.
    Report { after_secs: u64 },
}

/// The step that the reporter takes while the stop signal stands as
/// `stopped`.
pub open spec fn reporter_step_of(stopped: bool) -> ReporterStep {
    if stopped {
        ReporterStep::Exit
    } else {
        ReporterStep::Report { after_secs: REPORT_INTERVAL }
    }
}

/// Gives the next step of the reporter: it prints once a second as long as
/// the stop signal is clear, and ends when it is set.
pub fn reporter_step(stopped: bool) -> (step: ReporterStep)
    ensures
        step == reporter_step_of(stopped),
{
    if stopped {
        ReporterStep::Exit
    } else {
        ReporterStep::Report { after_secs: REPORT_INTERVAL }
    }
}

} // verus!
