//! The reader side of a run: from the bytes of the session to batches for
//! the shards and answers for the server.
use crate::batcher::{offered, Batcher, BatcherState, Offer, Shipment};
use crate::clock::TimedLine;
use crate::control::RunEnd;
use crate::counters::{admissible, tally_of, CounterEvent, Counters};
use crate::handshake::{connected_after, react, reaction_to, reply, reply_to, Reaction};
use crate::lines::{complete_lines, rows, unfinished_tail, LineBuffer};
use crate::params::CrystalParams;
use crate::routing::{accepted_lines, state_after, Attempt};
use crate::settings::Settings;
use vstd::prelude::*;

verus! {

/// The reader as contracts see it.
pub struct ReaderState {
    /// Bytes received that no newline has closed yet.
    pub buffer: Seq<u8>,
    /// The batcher.
    pub batcher: BatcherState<TimedLine>,
    /// The connected flag.
    pub connected: bool,
    /// Whether the stop signal was seen.
    pub stopped: bool,
}

impl ReaderState {
    /// The reader at the start of a run.
    pub open spec fn initial(settings: Settings) -> ReaderState {
        ReaderState {
            buffer: Seq::empty(),
            batcher: BatcherState::fresh(settings.batch_size as int, settings.num_writers as int),
            connected: false,
            stopped: false,
        }
    }

    /// The lines that a read of `chunk` completes. After the stop signal
    /// nothing is read any more.
    pub open spec fn lines_from(self, chunk: Seq<u8>) -> Seq<Seq<u8>> {
        if self.stopped {
            Seq::empty()
        } else {
            complete_lines(self.buffer + chunk)
        }
    }

    /// The reader after a read of `chunk`.
    pub open spec fn after_bytes(self, chunk: Seq<u8>) -> ReaderState {
        if self.stopped {
            self
        } else {
            ReaderState { buffer: unfinished_tail(self.buffer + chunk), ..self }
        }
    }

    /// What `line` asks of the client.
    pub open spec fn reaction(self, line: TimedLine) -> Reaction {
        if self.stopped {
            Reaction::Ignore
        } else {
            reaction_to(line.bytes@)
        }
    }

    /// The batch that `line` completes, if it completes one.
    pub open spec fn shipped_by_line(self, line: TimedLine) -> Option<Offer<TimedLine>> {
        if self.stopped {
            None
        } else {
            self.batcher.shipped_by_push(line)
        }
    }

    /// The reader after `line` was handled: the line is in the batch,
    /// prompt or not, and the connected flag is set if the line says so.
    pub open spec fn after_line(self, line: TimedLine) -> ReaderState {
        if self.stopped {
            self
        } else {
            ReaderState {
                batcher: self.batcher.after_push(line),
                connected: self.connected || reaction_to(line.bytes@) == Reaction::MarkConnected,
                ..self
            }
        }
    }

    /// The reader after a queue has answered to a batch: a batch that was
    /// taken moves the turn to the next shard.
    pub open spec fn after_answer(self, accepted: bool) -> ReaderState {
        if accepted {
            ReaderState { batcher: self.batcher.after_delivery(), ..self }
        } else {
            self
        }
    }

    /// The batch that leaves when the stop signal is seen: the lines that
    /// wait, if any. It leaves once.
    pub open spec fn shipped_by_stop(self) -> Option<Offer<TimedLine>> {
        if self.stopped {
            None
        } else {
            self.batcher.shipped_by_flush()
        }
    }

    /// The reader after the stop signal was seen.
    pub open spec fn after_stop(self) -> ReaderState {
        if self.stopped {
            self
        } else {
            ReaderState { batcher: self.batcher.after_flush(), stopped: true, ..self }
        }
    }
}

impl ReaderState {
    /// The reader of the run that follows a reconnect: as at the start of
    /// the first run, for the same batch size and the same shards.
    pub open spec fn restarted(self) -> ReaderState {
        ReaderState {
            buffer: Seq::empty(),
            batcher: BatcherState::fresh(self.batcher.batch_size, self.batcher.num_writers),
            connected: false,
            stopped: false,
        }
    }

    /// The batch that leaves when a run ends, however it ends: the lines
    /// that wait, if any. They leave on a stop and on a fault of the
    /// session alike.
    pub open spec fn shipped_by_end(self, end: RunEnd) -> Option<Offer<TimedLine>> {
        self.shipped_by_stop()
    }

    /// The reader after its run has ended: it holds no line back and takes
    /// nothing more, whatever ended the run.
    pub open spec fn after_end(self, end: RunEnd) -> ReaderState {
        self.after_stop()
    }
}

/// What the counters are told when a queue has answered to a batch of
/// `lines` lines.
pub open spec fn counted(lines: nat, accepted: bool) -> CounterEvent {
    if accepted {
        CounterEvent::Enqueued(lines)
    } else {
        CounterEvent::Dropped(lines)
    }
}

/// What the counters are told over a run of offers.
pub open spec fn answers_counted<T>(tries: Seq<Attempt<T>>) -> Seq<CounterEvent> {
    Seq::new(tries.len(), |k: int| counted(tries[k].offer.lines.len(), tries[k].accepted))
}

/// Lines sent are lines handed over: counting the answers of the queues as
/// `settle` does, the lines sent are exactly the lines of the batches that
/// a queue took. A dropped batch counts for nothing in them.
pub proof fn lemma_sent_is_what_queues_took<T>(tries: Seq<Attempt<T>>)
    ensures
        admissible(answers_counted(tries)),
        tally_of(answers_counted(tries)).total_sent == accepted_lines(tries),
        tally_of(answers_counted(tries)).in_flight == accepted_lines(tries),
    decreases tries.len(),
{
    if tries.len() > 0 {
        lemma_sent_is_what_queues_took(tries.drop_last());
        assert(answers_counted(tries).drop_last() =~= answers_counted(tries.drop_last()));
    }
}

/// The reader after `lines` were handled one by one; `accepted[i]` is the
/// answer of the queue if line `i` completed a batch.
pub open spec fn reader_after(
    start: ReaderState,
    lines: Seq<TimedLine>,
    accepted: Seq<bool>,
) -> ReaderState
    decreases lines.len(),
{
    if lines.len() == 0 {
        start
    } else {
        let before = reader_after(start, lines.drop_last(), accepted.drop_last());
        let pushed = before.after_line(lines.last());
        if before.shipped_by_line(lines.last()) is Some {
            pushed.after_answer(accepted.last())
        } else {
            pushed
        }
    }
}

/// The raw bytes of timed lines.
pub open spec fn raw(lines: Seq<TimedLine>) -> Seq<Seq<u8>> {
    Seq::new(lines.len(), |i: int| lines[i].bytes@)
}

/// A reader that is not stopped batches and routes as a batcher does on
/// its own, reads no less and no more into the connected flag than the
/// login dialogue says, and does not stop by itself.
pub proof fn lemma_reader_routes_as_batcher(
    start: ReaderState,
    lines: Seq<TimedLine>,
    accepted: Seq<bool>,
)
    requires
        !start.stopped,
    ensures
        !reader_after(start, lines, accepted).stopped,
        reader_after(start, lines, accepted).batcher == state_after(start.batcher, lines, accepted),
        reader_after(start, lines, accepted).connected == connected_after(
            start.connected,
            raw(lines),
        ),
        reader_after(start, lines, accepted).buffer == start.buffer,
    decreases lines.len(),
{
    if lines.len() > 0 {
        lemma_reader_routes_as_batcher(start, lines.drop_last(), accepted.drop_last());
        assert(raw(lines).drop_last() =~= raw(lines.drop_last()));
        assert(raw(lines).last() == lines.last().bytes@);
    }
}

/// Stop monotonicity: a reader that has seen the stop signal stays as it
/// is. It reads nothing, batches nothing, answers nothing, and no batch
/// leaves it any more.
pub proof fn lemma_stopped_reader_is_inert(state: ReaderState, chunk: Seq<u8>, line: TimedLine)
    requires
        state.stopped,
    ensures
        state.lines_from(chunk) == Seq::<Seq<u8>>::empty(),
        state.after_bytes(chunk) == state,
        state.shipped_by_line(line) is None,
        state.reaction(line) == Reaction::Ignore,
        state.after_line(line) == state,
        state.shipped_by_stop() is None,
        state.after_stop() == state,
{
}

/// A reconnect is a full restart: the sizes that a reader was made with
/// stay with it through reads, lines, answers and its end, so the reader
/// of the next run is the reader that the first run started with.
pub proof fn lemma_restart_is_fresh(
    settings: Settings,
    lines: Seq<TimedLine>,
    accepted: Seq<bool>,
    chunk: Seq<u8>,
    end: RunEnd,
)
    requires
        accepted.len() == lines.len(),
    ensures
        reader_after(ReaderState::initial(settings), lines, accepted).after_bytes(chunk).after_end(
            end,
        ).restarted() == ReaderState::initial(settings),
{
    let start = ReaderState::initial(settings);
    lemma_reader_routes_as_batcher(start, lines, accepted);
    crate::routing::lemma_lines_conserved(start.batcher, lines, accepted);
}

/// No line is left behind at the end of a run: whatever ended it, the
/// lines that waited are the last batch, bound for the shard whose turn it
/// is, and the reader is empty and closed afterwards.
pub proof fn lemma_end_ships_the_rest(state: ReaderState, end: RunEnd)
    requires
        !state.stopped,
    ensures
        state.batcher.batch.len() > 0 ==> state.shipped_by_end(end) == Some(
            Offer { shard: state.batcher.writer_index, lines: state.batcher.batch },
        ),
        state.batcher.batch.len() == 0 ==> state.shipped_by_end(end) is None,
        state.after_end(end).stopped,
        state.after_end(end).batcher.batch == Seq::<TimedLine>::empty(),
        state.after_end(end).batcher.writer_index == state.batcher.writer_index,
{
}

/// The stop signal takes effect at once: after it, the reader is stopped
/// and holds no line back.
pub proof fn lemma_stop_empties_reader(state: ReaderState)
    ensures
        state.after_stop().stopped,
        !state.stopped ==> state.after_stop().batcher.batch == Seq::<TimedLine>::empty(),
{
}

/// What has to be done about a line.
#[derive(Clone, Debug, PartialEq, Eq)]
pub struct LineOutcome {
    /// The batch that the line has completed, to be offered to its shard.
    pub shipment: Option<Shipment<TimedLine>>,
    /// What the line asks of the client.
    pub reaction: Reaction,
    /// The bytes to write to the session in answer, if the line is a prompt
    /// that wants an answer.
    pub reply: Option<Vec<u8>>,
}

/// The bytes held by an optional byte vector.
pub open spec fn bytes_of(reply: Option<Vec<u8>>) -> Option<Seq<u8>> {
    match reply {
        Some(b) => Some(b@),
        None => None,
    }
}

/// The sending side of a shard's queue.
#[verifier::external_type_specification]
#[verifier::external_body]
#[verifier::reject_recursive_types(T)]
pub struct ExSender<T>(tokio::sync::mpsc::Sender<T>);

/// Offers a batch to a shard's queue with `tokio::sync::mpsc::Sender::try_send`,
/// which never waits, and tells whether the queue took it. A queue that is
/// full or whose shard has gone refuses. Whether that is so depends on what
/// the shard does meanwhile, so nothing is promised of the answer.
#[verifier::external_body]
fn offer(queue: &tokio::sync::mpsc::Sender<Vec<TimedLine>>, batch: Vec<TimedLine>) -> (accepted:
    bool) {
    queue.try_send(batch).is_ok()
}

/// The reader of one run.
pub struct Collector {
    params: CrystalParams,
    settings: Settings,
    buffer: LineBuffer,
    batcher: Batcher<TimedLine>,
    connected: bool,
    stopped: bool,
}

impl View for Collector {
    type V = ReaderState;

    closed spec fn view(&self) -> ReaderState {
        ReaderState {
            buffer: self.buffer@,
            batcher: self.batcher@,
            connected: self.connected,
            stopped: self.stopped,
        }
    }
}

/// Starts a run with the default settings: gives the reader for a session
/// with these parameters, as it is before the first byte.
pub fn start(
    assets: Vec<String>,
    mkt_data_address: String,
    mkt_data_username: String,
    mkt_data_password: String,
) -> (collector: Collector)
    ensures
        collector@ == ReaderState::initial(Settings::standard()),
        collector.spec_settings() == Settings::standard(),
        collector.spec_params().assets == assets,
        collector.spec_params().mkt_data_address == mkt_data_address,
        collector.spec_params().mkt_data_username == mkt_data_username,
        collector.spec_params().mkt_data_password == mkt_data_password,
{
    Collector::new(
        CrystalParams { assets, mkt_data_address, mkt_data_username, mkt_data_password },
        Settings::standard(),
    )
}

impl Collector {
    /// The parameters of the session.
    pub closed spec fn spec_params(&self) -> CrystalParams {
        self.params
    }

    /// The settings of the run.
    pub closed spec fn spec_settings(&self) -> Settings {
        self.settings
    }

    /// The reader for a session with these parameters and settings, as it
    /// is before the first byte.
    pub fn new(params: CrystalParams, settings: Settings) -> (collector: Collector)
        requires
            settings.num_writers > 0,
        ensures
            collector@ == ReaderState::initial(settings),
            collector.spec_params() == params,
            collector.spec_settings() == settings,
    {
        Collector {
            params,
            settings,
            buffer: LineBuffer::new(),
            batcher: Batcher::new(settings.batch_size, settings.num_writers),
            connected: false,
            stopped: false,
        }
    }

    /// The parameters of the session.
    pub fn params(&self) -> (params: &CrystalParams)
        ensures
            *params == self.spec_params(),
    {
        &self.params
    }

    /// The settings of the run.
    pub fn settings(&self) -> (settings: &Settings)
        ensures
            *settings == self.spec_settings(),
    {
        &self.settings
    }

    /// The connected flag.
    pub fn is_connected(&self) -> (connected: bool)
        ensures
            connected == self@.connected,
    {
        self.connected
    }

    /// Whether the stop signal was seen.
    pub fn is_stopped(&self) -> (stopped: bool)
        ensures
            stopped == self@.stopped,
    {
        self.stopped
    }

    /// Shard that the next batch goes to.
    pub fn writer_index(&self) -> (index: usize)
        ensures
            index == self@.batcher.writer_index,
    {
        self.batcher.writer_index()
    }

    /// Number of lines waiting for their batch to fill.
    pub fn batched(&self) -> (n: usize)
        ensures
            n == self@.batcher.batch.len(),
    {
        self.batcher.pending_len()
    }

    /// Takes the bytes of one read and returns the lines they complete.
    /// Each is to be stamped and passed to `on_line`, in order.
    pub fn on_bytes(&mut self, chunk: &[u8]) -> (lines: Vec<Vec<u8>>)
        ensures
            rows(lines@) == old(self)@.lines_from(chunk@),
            final(self)@ == old(self)@.after_bytes(chunk@),
            final(self).spec_params() == old(self).spec_params(),
            final(self).spec_settings() == old(self).spec_settings(),
    {
        if self.stopped {
            let lines: Vec<Vec<u8>> = Vec::new();
            assert(rows(lines@) =~= Seq::<Seq<u8>>::empty());
            return lines;
        }
        self.buffer.feed(chunk)
    }

    /// Handles one line: puts it into the batch and looks whether it is a
    /// prompt. A batch that the line completes is to be offered to its
    /// shard first, and the queue's answer passed to `settle`; then the reply, if
    /// there is one, is to be written to the session.
    pub fn on_line(&mut self, line: TimedLine) -> (outcome: LineOutcome)
        ensures
            offered(outcome.shipment) == old(self)@.shipped_by_line(line),
            outcome.reaction == old(self)@.reaction(line),
            bytes_of(outcome.reply) == reply_to(outcome.reaction, old(self).spec_params()),
            final(self)@ == old(self)@.after_line(line),
            final(self).spec_params() == old(self).spec_params(),
            final(self).spec_settings() == old(self).spec_settings(),
    {
        if self.stopped {
            return LineOutcome { shipment: None, reaction: Reaction::Ignore, reply: None };
        }
        let reaction = react(line.bytes.as_slice());
        let answer = reply(reaction, &self.params);
        match reaction {
            Reaction::MarkConnected => {
                self.connected = true;
            },
            _ => {},
        }
        let shipment = self.batcher.push(line);
        LineOutcome { shipment, reaction, reply: answer }
    }

    /// Takes the answer of a shard's queue to a batch of `lines` lines: a
    /// batch that was taken is counted as sent and in flight, and the next
    /// shard is up; a refused batch is counted as dropped.
    pub fn settle(&mut self, counters: &mut Counters, lines: usize, accepted: bool)
        requires
            old(counters)@.total_sent + lines <= usize::MAX,
            old(counters)@.dropped + lines <= usize::MAX,
        ensures
            final(self)@ == old(self)@.after_answer(accepted),
            final(counters)@ == old(counters)@.after(counted(lines as nat, accepted)),
            final(self).spec_params() == old(self).spec_params(),
            final(self).spec_settings() == old(self).spec_settings(),
    {
        if accepted {
            self.batcher.delivered();
            counters.record_enqueued(lines);
        } else {
            counters.record_dropped(lines);
        }
    }

    /// Offers a batch to the queue of its shard, without waiting, and
    /// settles the answer: a batch that the queue refuses is dropped, and
    /// counted as dropped.
    pub fn ship(
        &mut self,
        queues: &Vec<tokio::sync::mpsc::Sender<Vec<TimedLine>>>,
        shipment: Shipment<TimedLine>,
        counters: &mut Counters,
    ) -> (accepted: bool)
        requires
            shipment.shard < queues@.len(),
            old(counters)@.total_sent + shipment.lines@.len() <= usize::MAX,
            old(counters)@.dropped + shipment.lines@.len() <= usize::MAX,
        ensures
            final(self)@ == old(self)@.after_answer(accepted),
            final(counters)@ == old(counters)@.after(counted(shipment.lines@.len(), accepted)),
            final(self).spec_params() == old(self).spec_params(),
            final(self).spec_settings() == old(self).spec_settings(),
    {
        let lines: usize = shipment.lines.len();
        let accepted = offer(&queues[shipment.shard], shipment.lines);
        self.settle(counters, lines, accepted);
        accepted
    }

    /// Starts over after a reconnect: gives the reader of a fresh run with
    /// the same parameters, settings, batch size and shards. Nothing else
    /// of the old run is kept, neither buffered bytes nor waiting lines nor
    /// the connected flag nor the turn.
    pub fn restart(self) -> (fresh: Collector)
        ensures
            fresh@ == self@.restarted(),
            fresh.spec_params() == self.spec_params(),
            fresh.spec_settings() == self.spec_settings(),
    {
        let batch_size = self.batcher.batch_size();
        let num_writers = self.batcher.num_writers();
        Collector {
            params: self.params,
            settings: self.settings,
            buffer: LineBuffer::new(),
            batcher: Batcher::new(batch_size, num_writers),
            connected: false,
            stopped: false,
        }
    }

    /// Closes the run, whatever ended it: the stop signal, the end of the
    /// stream or a failed read or write. The reader takes nothing more, and
    /// the lines that wait leave as a last batch, to be offered to its shard
    /// as any other before anything else is done about the end.
    pub fn on_end(&mut self, end: RunEnd) -> (shipment: Option<Shipment<TimedLine>>)
        ensures
            offered(shipment) == old(self)@.shipped_by_end(end),
            final(self)@ == old(self)@.after_end(end),
            final(self)@.stopped,
            final(self).spec_params() == old(self).spec_params(),
            final(self).spec_settings() == old(self).spec_settings(),
    {
        self.on_stop()
    }

    /// Reacts to the stop signal: the reader stops, and the lines that
    /// wait leave as a last batch, to be offered to its shard as any other.
    pub fn on_stop(&mut self) -> (shipment: Option<Shipment<TimedLine>>)
        ensures
            offered(shipment) == old(self)@.shipped_by_stop(),
            final(self)@ == old(self)@.after_stop(),
            final(self).spec_params() == old(self).spec_params(),
            final(self).spec_settings() == old(self).spec_settings(),
    {
        if self.stopped {
            return None;
        }
        self.stopped = true;
        self.batcher.flush()
    }
}

} // verus!
