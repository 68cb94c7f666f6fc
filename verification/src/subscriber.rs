//! Subscription: the commands sent for each instrument, and the pacing of
//! the subscription list in chunks.
use vstd::prelude::*;
use vstd::string::StringExecFns;

verus! {

/// Milliseconds between two looks at the connected flag.
pub const POLL_INTERVAL_MILLIS: u64 = 100;

/// The lower-case form of a text, as `str::to_lowercase` of the standard
/// library gives it.
pub uninterp spec fn lowercase_of(text: Seq<char>) -> Seq<char>;

/// Lower-cases a text with `str::to_lowercase`.
#[verifier::external_body]
fn lowercase(text: &str) -> (lowered: String)
    ensures
        lowered@ == lowercase_of(text@),
{
    text.to_lowercase()
}

/// The texts held by a vector of strings.
pub open spec fn texts(v: Seq<String>) -> Seq<Seq<char>> {
    Seq::new(v.len(), |i: int| v[i]@)
}

/// The three commands that subscribe to a symbol already in lower case, in
/// the order they are sent, each with its newline.
pub open spec fn command_lines(lowered: Seq<char>) -> Seq<Seq<char>> {
    seq![
        "BQT "@ + lowered + "\n"@,
        "GQT "@ + lowered + " S 1\n"@,
        "SQT "@ + lowered + "\n"@,
    ]
}

/// The commands for a chunk of symbols: three for each symbol, symbol
/// after symbol.
pub open spec fn chunk_commands(chunk: Seq<Seq<char>>) -> Seq<Seq<char>>
    decreases chunk.len(),
{
    if chunk.len() == 0 {
        Seq::empty()
    } else {
        chunk_commands(chunk.drop_last()) + command_lines(lowercase_of(chunk.last()))
    }
}

/// Builds the three subscription commands for a symbol that is in lower
/// case already.
pub fn commands_for_lowered(lowered: &str) -> (commands: Vec<String>)
    ensures
        texts(commands@) == command_lines(lowered@),
{
    let mut begin = String::from_str("BQT ");
    begin.append(lowered);
    begin.append("\n");
    let mut get = String::from_str("GQT ");
    get.append(lowered);
    get.append(" S 1\n");
    let mut stream = String::from_str("SQT ");
    stream.append(lowered);
    stream.append("\n");
    let mut commands: Vec<String> = Vec::new();
    commands.push(begin);
    commands.push(get);
    commands.push(stream);
    assert(texts(commands@) =~= command_lines(lowered@));
    commands
}

/// Builds the three subscription commands for a symbol. The symbol is sent
/// in lower case whatever its case in the list.
pub fn commands_for(symbol: &str) -> (commands: Vec<String>)
    ensures
        texts(commands@) == command_lines(lowercase_of(symbol@)),
{
    let lowered = lowercase(symbol);
    commands_for_lowered(lowered.as_str())
}

/// The subscription list: the futures first, then the assets.
pub fn subscription_list(futures: Vec<String>, assets: Vec<String>) -> (list: Vec<String>)
    ensures
        list@ == futures@ + assets@,
{
    let mut list = futures;
    let mut rest = assets;
    list.append(&mut rest);
    list
}

/// What the subscriber's task has to do next.
#[derive(Clone, Debug, PartialEq, Eq)]
pub enum SubscriberStep {
    /// The session is not authenticated yet: look again after the pause.
    Poll { millis: u64 },
    /// Write these commands to the session, in order, then pause.
    Send { commands: Vec<String>, pause_secs: u64 },
    /// Every symbol is subscribed: the task ends.
    Done,
}

/// A step as contracts see it.
pub enum StepView {
    /// Look again after the pause.
    Poll { millis: int },
    /// Write the commands, then pause.
    Send { commands: Seq<Seq<char>>, pause_secs: int },
    /// The task ends.
    Done,
}

impl View for SubscriberStep {
    type V = StepView;

    open spec fn view(&self) -> StepView {
        match *self {
            SubscriberStep::Poll { millis } => StepView::Poll { millis: millis as int },
            SubscriberStep::Send { commands, pause_secs } => StepView::Send {
                commands: texts(commands@),
                pause_secs: pause_secs as int,
            },
            SubscriberStep::Done => StepView::Done,
        }
    }
}

/// The subscriber as contracts see it.
pub struct SubscriberState {
    /// Symbols not yet subscribed. Chunks are taken from the end.
    pub pending: Seq<Seq<char>>,
    /// Symbols per chunk.
    pub chunk_size: int,
    /// Seconds to pause behind each chunk.
    pub pause_secs: int,
    /// Whether the session was seen authenticated.
    pub started: bool,
}

impl SubscriberState {
    /// Symbols that a chunk holds at most. A chunk size of 0 counts as 1,
    /// so that every step subscribes a symbol and the task comes to an end.
    pub open spec fn chunk_limit(self) -> int {
        if self.chunk_size < 1 {
            1
        } else {
            self.chunk_size
        }
    }

    /// Number of symbols in the next chunk.
    pub open spec fn chunk_len(self) -> int {
        if self.chunk_limit() < self.pending.len() {
            self.chunk_limit()
        } else {
            self.pending.len() as int
        }
    }

    /// The next chunk: the last `chunk_len` symbols of the list, in list
    /// order.
    pub open spec fn chunk(self) -> Seq<Seq<char>> {
        self.pending.subrange(self.pending.len() - self.chunk_len(), self.pending.len() as int)
    }

    /// Whether the task still waits for the session to be authenticated.
    pub open spec fn waits(self, connected: bool) -> bool {
        !self.started && !connected
    }

    /// The step taken in this state. The stop signal ends the task at
    /// once, whatever is left to subscribe.
    pub open spec fn step(self, connected: bool, stopped: bool) -> StepView {
        if stopped {
            StepView::Done
        } else if self.waits(connected) {
            StepView::Poll { millis: POLL_INTERVAL_MILLIS as int }
        } else if self.pending.len() == 0 {
            StepView::Done
        } else {
            StepView::Send {
                commands: chunk_commands(self.chunk()),
                pause_secs: self.pause_secs,
            }
        }
    }

    /// The state after the step.
    pub open spec fn after_step(self, connected: bool, stopped: bool) -> SubscriberState {
        if stopped || self.waits(connected) {
            self
        } else {
            SubscriberState {
                pending: self.pending.subrange(0, self.pending.len() - self.chunk_len()),
                started: true,
                ..self
            }
        }
    }
}

/// The subscriber after `sends` steps on an authenticated session that
/// is not stopped.
pub open spec fn after_sends(start: SubscriberState, sends: nat) -> SubscriberState
    decreases sends,
{
    if sends == 0 {
        start
    } else {
        after_sends(start, (sends - 1) as nat).after_step(true, false)
    }
}

/// The larger of 0 and `n`.
pub open spec fn at_least_zero(n: int) -> int {
    if n < 0 {
        0
    } else {
        n
    }
}

/// Three commands per symbol: the commands of a chunk are three times as
/// many as its symbols, and those of its `j`-th symbol stand together, in
/// their order, at the places `3j`, `3j + 1` and `3j + 2`.
pub proof fn lemma_three_per_symbol(chunk: Seq<Seq<char>>)
    ensures
        chunk_commands(chunk).len() == 3 * chunk.len(),
        forall|j: int|
            #![trigger chunk[j]]
            0 <= j < chunk.len() ==> chunk_commands(chunk).subrange(3 * j, 3 * j + 3)
                == command_lines(lowercase_of(chunk[j])),
    decreases chunk.len(),
{
    if chunk.len() > 0 {
        let front = chunk.drop_last();
        lemma_three_per_symbol(front);
        let all = chunk_commands(chunk);
        let last = command_lines(lowercase_of(chunk.last()));
        assert(last.len() == 3);
        assert forall|j: int| #![trigger chunk[j]] 0 <= j < chunk.len() implies all.subrange(
            3 * j,
            3 * j + 3,
        ) == command_lines(lowercase_of(chunk[j])) by {
            if j < front.len() {
                assert(chunk[j] == front[j]);
                assert(all.subrange(3 * j, 3 * j + 3) =~= chunk_commands(front).subrange(
                    3 * j,
                    3 * j + 3,
                ));
            } else {
                assert(all.subrange(3 * j, 3 * j + 3) =~= last);
            }
        }
    }
}

/// Subscription pacing: with chunks of `chunk_size` symbols (of one, if
/// the size is 0), the step behind `sends` chunks sends the chunk that
/// lies `sends` chunks before the end of the list, and when no symbol is
/// left the task is done. At no time is a symbol sent twice or left out.
pub proof fn lemma_pacing(list: Seq<Seq<char>>, chunk_size: int, pause_secs: int, sends: nat)
    requires
        chunk_size >= 0,
    ensures
        ({
            let start = SubscriberState { pending: list, chunk_size, pause_secs, started: false };
            let now = after_sends(start, sends);
            let size = start.chunk_limit();
            let left = at_least_zero(list.len() - sends * size);
            &&& now.pending == list.subrange(0, left)
            &&& now.chunk_size == chunk_size
            &&& now.pause_secs == pause_secs
            &&& left > 0 ==> now.step(true, false) == (StepView::Send {
                commands: chunk_commands(list.subrange(at_least_zero(left - size), left)),
                pause_secs,
            })
            &&& left == 0 ==> now.step(true, false) == StepView::Done
            &&& sends * size >= list.len() ==> left == 0
        }),
    decreases sends,
{
    let start = SubscriberState { pending: list, chunk_size, pause_secs, started: false };
    let now = after_sends(start, sends);
    let size = start.chunk_limit();
    let left = at_least_zero(list.len() - sends * size);
    if sends == 0 {
        assert(0 * size == 0) by (nonlinear_arith);
        assert(now.pending =~= list.subrange(0, left));
    } else {
        let fewer = (sends - 1) as nat;
        lemma_pacing(list, chunk_size, pause_secs, fewer);
        let before = after_sends(start, fewer);
        let had = at_least_zero(list.len() - fewer * size);
        assert(sends * size == fewer * size + size) by (nonlinear_arith)
            requires
                sends == fewer + 1,
        ;
        assert(before.chunk_limit() == size);
        assert(left == at_least_zero(had - size));
        assert(now.pending =~= list.subrange(0, left));
    }
    if left > 0 {
        assert(now.chunk() =~= list.subrange(at_least_zero(left - size), left));
    }
}

/// The subscriber comes to an end: after as many chunks as the list has
/// symbols, at the latest, nothing is left and the task is done, whatever
/// the chunk size.
pub proof fn lemma_subscriber_ends(list: Seq<Seq<char>>, chunk_size: int, pause_secs: int)
    requires
        chunk_size >= 0,
    ensures
        ({
            let start = SubscriberState { pending: list, chunk_size, pause_secs, started: false };
            let end = after_sends(start, list.len());
            &&& end.pending.len() == 0
            &&& end.step(true, false) == StepView::Done
        }),
{
    let start = SubscriberState { pending: list, chunk_size, pause_secs, started: false };
    let size = start.chunk_limit();
    lemma_pacing(list, chunk_size, pause_secs, list.len());
    assert(list.len() * size >= list.len()) by (nonlinear_arith)
        requires
            size >= 1,
    ;
}

/// Stop monotonicity for the subscriber: when the stop signal is set the
/// task is done at once and subscribes nothing more.
pub proof fn lemma_stopped_subscriber_is_done(state: SubscriberState, connected: bool)
    ensures
        state.step(connected, true) == StepView::Done,
        state.after_step(connected, true) == state,
{
}

/// The state of the subscriber task.
pub struct Subscriber {
    pending: Vec<String>,
    chunk_size: usize,
    pause_secs: u64,
    started: bool,
}

impl View for Subscriber {
    type V = SubscriberState;

    closed spec fn view(&self) -> SubscriberState {
        SubscriberState {
            pending: texts(self.pending@),
            chunk_size: self.chunk_size as int,
            pause_secs: self.pause_secs as int,
            started: self.started,
        }
    }
}

impl Subscriber {
    /// A subscriber for the given list, which waits for the session to be
    /// authenticated. A `chunk_size` of 0 behaves as 1.
    pub fn new(list: Vec<String>, chunk_size: usize, pause_secs: u64) -> (subscriber: Subscriber)
        ensures
            subscriber@ == (SubscriberState {
                pending: texts(list@),
                chunk_size: chunk_size as int,
                pause_secs: pause_secs as int,
                started: false,
            }),
    {
        Subscriber { pending: list, chunk_size, pause_secs, started: false }
    }

    /// Number of symbols not yet subscribed.
    pub fn remaining(&self) -> (n: usize)
        ensures
            n == self@.pending.len(),
    {
        self.pending.len()
    }

    /// Takes the next step; `connected` and `stopped` are the connected
    /// flag and the stop signal as they stand. Once the connected flag was
    /// seen set it is not looked at again.
    pub fn next_step(&mut self, connected: bool, stopped: bool) -> (step: SubscriberStep)
        ensures
            step@ == old(self)@.step(connected, stopped),
            final(self)@ == old(self)@.after_step(connected, stopped),
    {
        if stopped {
            return SubscriberStep::Done;
        }
        if !self.started && !connected {
            return SubscriberStep::Poll { millis: POLL_INTERVAL_MILLIS };
        }
        self.started = true;
        let len: usize = self.pending.len();
        if len == 0 {
            assert(self@.pending =~= old(self)@.pending.subrange(0, 0));
            return SubscriberStep::Done;
        }
        let limit: usize = if self.chunk_size < 1 {
            1
        } else {
            self.chunk_size
        };
        let take: usize = if limit < len {
            limit
        } else {
            len
        };
        let ghost before = self.pending@;
        let chunk = self.pending.split_off(len - take);
        assert(texts(self.pending@) =~= texts(before).subrange(0, len - take));
        assert(texts(chunk@) =~= texts(before).subrange(len - take, len as int));
        let mut commands: Vec<String> = Vec::new();
        let mut i: usize = 0;
        while i < take
            invariant
                i <= take,
                take == chunk@.len(),
                texts(commands@) == chunk_commands(texts(chunk@).subrange(0, i as int)),
            decreases take - i,
        {
            let mut three = commands_for(chunk[i].as_str());
            let ghost so_far = texts(commands@);
            let ghost added = texts(three@);
            commands.append(&mut three);
            proof {
                let upto = texts(chunk@).subrange(0, i + 1);
                assert(upto.drop_last() =~= texts(chunk@).subrange(0, i as int));
                assert(upto.last() == chunk@[i as int]@);
                assert(texts(commands@) =~= so_far + added);
            }
            i = i + 1;
        }
        assert(texts(chunk@).subrange(0, take as int) =~= texts(chunk@));
        SubscriberStep::Send { commands, pause_secs: self.pause_secs }
    }
}

} // verus!
