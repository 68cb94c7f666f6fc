//! The life of a run from outside: reconnecting after a session fault,
//! and the stop path at the end of the day.
use crate::settings::Settings;
use vstd::prelude::*;

verus! {

/// Name of the secret that holds the storage account.
pub const BLOB_ACCOUNT: &'static str = "blob-account";

/// Name of the secret that holds the storage container.
pub const BLOB_CONTAINER: &'static str = "blob-container";

/// Name of the secret that holds the storage key.
pub const BLOB_KEY: &'static str = "blob-key";

/// The folder that holds the shard files.
pub const CONTENT_FOLDER: &'static str = "content";

/// A fault of the session. Every one of them ends the run and is answered
/// by a reconnect.
#[derive(Clone, Copy, Debug, PartialEq, Eq, Structural)]
pub enum SessionFault {
    /// The server could not be reached.
    ConnectFailed,
    /// A read of the session failed.
    ReadFailed,
    /// The server closed the session.
    EndOfStream,
    /// A write to the session failed.
    WriteFailed,
}

/// How a run ended.
#[derive(Clone, Copy, Debug, PartialEq, Eq, Structural)]
pub enum RunEnd {
    /// The reader saw the stop signal.
    Stopped,
    /// The session broke.
    Fault(SessionFault),
}

/// One step of the reconnect controller.
#[derive(Clone, Copy, Debug, PartialEq, Eq, Structural)]
pub enum ControlStep {
    /// Set the stop signal, so that every task of the run ends.
    RaiseStop,
    /// Wait for the tasks to come to rest.
    Pause { secs: u64 },
    /// Clear the stop signal.
    ClearStop,
    /// Report that a reconnect takes place.
    Announce,
    /// Start a fresh run with the same parameters: new session, new shards,
    /// new tasks.
    Restart,
}

/// The steps of a reconnect, in order.
pub open spec fn reconnect_steps(delay_secs: u64) -> Seq<ControlStep> {
    seq![
        ControlStep::RaiseStop,
        ControlStep::Pause { secs: delay_secs },
        ControlStep::ClearStop,
        ControlStep::Announce,
        ControlStep::Restart,
    ]
}

/// What follows a run: nothing after a stop, a reconnect after a fault.
pub open spec fn steps_after(end: RunEnd, delay_secs: u64) -> Seq<ControlStep> {
    match end {
        RunEnd::Stopped => Seq::empty(),
        RunEnd::Fault(_) => reconnect_steps(delay_secs),
    }
}

/// The stop signal after `steps` were taken, when it was `raised` before.
pub open spec fn signal_after(raised: bool, steps: Seq<ControlStep>) -> bool
    decreases steps.len(),
{
    if steps.len() == 0 {
        raised
    } else {
        match steps.last() {
            ControlStep::RaiseStop => true,
            ControlStep::ClearStop => false,
            _ => signal_after(raised, steps.drop_last()),
        }
    }
}

/// Number of restarts among `steps`.
pub open spec fn restarts(steps: Seq<ControlStep>) -> nat
    decreases steps.len(),
{
    if steps.len() == 0 {
        0
    } else {
        restarts(steps.drop_last()) + if steps.last() == ControlStep::Restart {
            1nat
        } else {
            0nat
        }
    }
}

/// A reconnect is one pulse of the stop signal and one restart: the signal
/// is set while the controller pauses, clear again when the new run starts,
/// and exactly one run is started, as the last step.
pub proof fn lemma_reconnect_pulse(raised: bool, delay_secs: u64)
    ensures
        signal_after(raised, reconnect_steps(delay_secs).subrange(0, 1)),
        signal_after(raised, reconnect_steps(delay_secs).subrange(0, 2)),
        !signal_after(raised, reconnect_steps(delay_secs).subrange(0, 3)),
        !signal_after(raised, reconnect_steps(delay_secs)),
        restarts(reconnect_steps(delay_secs)) == 1,
        reconnect_steps(delay_secs).last() == ControlStep::Restart,
{
    let steps = reconnect_steps(delay_secs);
    let four = steps.drop_last();
    let three = four.drop_last();
    let two = three.drop_last();
    let one = two.drop_last();
    assert(one =~= steps.subrange(0, 1));
    assert(two =~= steps.subrange(0, 2));
    assert(three =~= steps.subrange(0, 3));
    assert(one.drop_last().len() == 0);
    assert(signal_after(raised, one));
    assert(signal_after(raised, two));
    assert(!signal_after(raised, three));
    assert(!signal_after(raised, four));
    assert(restarts(one.drop_last()) == 0);
    assert(restarts(one) == 0);
    assert(restarts(two) == 0);
    assert(restarts(three) == 0);
    assert(restarts(four) == 0);
}

/// The steps of a reconnect: raise the stop signal, cool down, clear the
/// signal, report, start again.
pub fn reconnect(settings: &Settings) -> (steps: Vec<ControlStep>)
    ensures
        steps@ == reconnect_steps(settings.reconnect_delay_secs),
{
    let mut steps: Vec<ControlStep> = Vec::new();
    steps.push(ControlStep::RaiseStop);
    steps.push(ControlStep::Pause { secs: settings.reconnect_delay_secs });
    steps.push(ControlStep::ClearStop);
    steps.push(ControlStep::Announce);
    steps.push(ControlStep::Restart);
    assert(steps@ =~= reconnect_steps(settings.reconnect_delay_secs));
    steps
}

/// What to do when a run has ended: after a fault, reconnect; after a stop,
/// nothing.
pub fn after_run(end: RunEnd, settings: &Settings) -> (steps: Vec<ControlStep>)
    ensures
        steps@ == steps_after(end, settings.reconnect_delay_secs),
{
    match end {
        RunEnd::Stopped => Vec::new(),
        RunEnd::Fault(_) => reconnect(settings),
    }
}

/// Applies a step to the stop signal.
pub fn apply_to_signal(raised: bool, step: ControlStep) -> (now: bool)
    ensures
        now == signal_after(raised, seq![step]),
{
    let ghost one = seq![step];
    assert(one.len() == 1 && one.last() == step);
    assert(signal_after(raised, one.drop_last()) == raised);
    match step {
        ControlStep::RaiseStop => true,
        ControlStep::ClearStop => false,
        _ => raised,
    }
}

/// One step of the stop path.
#[derive(Clone, Copy, Debug, PartialEq, Eq, Structural)]
pub enum StopStep {
    /// Set the stop signal.
    RaiseStop,
    /// Ask the secret provider for the storage account.
    ResolveAccount,
    /// Ask the secret provider for the storage container.
    ResolveContainer,
    /// Ask the secret provider for the storage key.
    ResolveKey,
    /// Hand the content folder to the archive uploader, with the three
    /// secrets.
    Upload,
    /// Give the failure of the step before to the error reporter.
    Report,
    /// Report that the day is done.
    Announce,
    /// Nothing is left to do.
    Done,
}

/// Whether a step calls a collaborator that can fail for good: the secret
/// provider or the uploader.
pub open spec fn calls_collaborator(step: StopStep) -> bool {
    step == StopStep::ResolveAccount || step == StopStep::ResolveContainer || step
        == StopStep::ResolveKey || step == StopStep::Upload
}

/// The step that follows, by the result of the step that was due. A
/// secret that cannot be resolved and an upload that fails are reported
/// and end the work; the day is announced as done either way. No step
/// clears the stop signal.
pub open spec fn stop_step_after(step: StopStep, ok: bool) -> StopStep {
    match step {
        StopStep::RaiseStop => StopStep::ResolveAccount,
        StopStep::ResolveAccount => if ok {
            StopStep::ResolveContainer
        } else {
            StopStep::Report
        },
        StopStep::ResolveContainer => if ok {
            StopStep::ResolveKey
        } else {
            StopStep::Report
        },
        StopStep::ResolveKey => if ok {
            StopStep::Upload
        } else {
            StopStep::Report
        },
        StopStep::Upload => if ok {
            StopStep::Announce
        } else {
            StopStep::Report
        },
        StopStep::Report => StopStep::Announce,
        StopStep::Announce => StopStep::Done,
        StopStep::Done => StopStep::Done,
    }
}

/// The name of the secret that a step asks for, if it asks for one.
pub open spec fn secret_name(step: StopStep) -> Option<&'static str> {
    match step {
        StopStep::ResolveAccount => Some(BLOB_ACCOUNT),
        StopStep::ResolveContainer => Some(BLOB_CONTAINER),
        StopStep::ResolveKey => Some(BLOB_KEY),
        _ => None,
    }
}

/// The stop signal after a step of the stop path was taken.
pub open spec fn signal_after_stop_step(raised: bool, step: StopStep) -> bool {
    raised || step == StopStep::RaiseStop
}

/// The step that is due when the steps before it had these results, the
/// first step being the raising of the stop signal.
pub open spec fn stop_step_at(results: Seq<bool>) -> StopStep
    decreases results.len(),
{
    if results.len() == 0 {
        StopStep::RaiseStop
    } else {
        stop_step_after(stop_step_at(results.drop_last()), results.last())
    }
}

/// The stop signal when the steps of the stop path had these results.
pub open spec fn signal_on_stop_path(raised: bool, results: Seq<bool>) -> bool
    decreases results.len(),
{
    if results.len() == 0 {
        raised
    } else {
        signal_after_stop_step(
            signal_on_stop_path(raised, results.drop_last()),
            stop_step_at(results.drop_last()),
        )
    }
}

/// Number of reports to the error reporter among the steps taken with
/// these results.
pub open spec fn reports_on_stop_path(results: Seq<bool>) -> nat
    decreases results.len(),
{
    if results.len() == 0 {
        0
    } else {
        reports_on_stop_path(results.drop_last()) + if stop_step_at(results.drop_last())
            == StopStep::Report {
            1nat
        } else {
            0nat
        }
    }
}

/// Whether one of the steps taken with these results called a
/// collaborator and failed.
pub open spec fn failed_on_stop_path(results: Seq<bool>) -> bool
    decreases results.len(),
{
    if results.len() == 0 {
        false
    } else {
        failed_on_stop_path(results.drop_last()) || (calls_collaborator(
            stop_step_at(results.drop_last()),
        ) && !results.last())
    }
}

/// How far the stop path has come: 0 at its first step, 7 when nothing is
/// left to do.
pub open spec fn stop_progress(step: StopStep) -> int {
    match step {
        StopStep::RaiseStop => 0,
        StopStep::ResolveAccount => 1,
        StopStep::ResolveContainer => 2,
        StopStep::ResolveKey => 3,
        StopStep::Upload => 4,
        StopStep::Report => 5,
        StopStep::Announce => 6,
        StopStep::Done => 7,
    }
}

/// The stop path for every outcome: whatever fails, the path moves on with
/// each step and is done after seven at most; the stop signal is set by
/// the first step and stays set; the upload is tried only with all three
/// secrets; and a failure of the secret provider or the uploader is given
/// to the error reporter, once, before the day is announced as done.
pub proof fn lemma_stop_path(raised: bool, results: Seq<bool>)
    ensures
        stop_progress(stop_step_at(results)) >= results.len() || stop_step_at(results)
            == StopStep::Done,
        results.len() >= 7 ==> stop_step_at(results) == StopStep::Done,
        results.len() >= 1 ==> signal_on_stop_path(raised, results),
        raised ==> signal_on_stop_path(raised, results),
        reports_on_stop_path(results) <= 1,
        stop_progress(stop_step_at(results)) <= 5 ==> reports_on_stop_path(results) == 0,
        stop_progress(stop_step_at(results)) >= 6 ==> (reports_on_stop_path(results) == 1
            <==> failed_on_stop_path(results)),
        stop_step_at(results) == StopStep::Report ==> failed_on_stop_path(results),
        stop_progress(stop_step_at(results)) <= 4 ==> !failed_on_stop_path(results),
    decreases results.len(),
{
    if results.len() > 0 {
        lemma_stop_path(raised, results.drop_last());
    }
}

/// The first step of the stop path: raise the stop signal.
pub fn stop() -> (step: StopStep)
    ensures
        step == stop_step_at(Seq::empty()),
        step == StopStep::RaiseStop,
{
    StopStep::RaiseStop
}

/// Gives the step of the stop path that follows, by the result of the
/// step that was due.
pub fn after_stop_step(step: StopStep, ok: bool) -> (next: StopStep)
    ensures
        next == stop_step_after(step, ok),
{
    match step {
        StopStep::RaiseStop => StopStep::ResolveAccount,
        StopStep::ResolveAccount => if ok {
            StopStep::ResolveContainer
        } else {
            StopStep::Report
        },
        StopStep::ResolveContainer => if ok {
            StopStep::ResolveKey
        } else {
            StopStep::Report
        },
        StopStep::ResolveKey => if ok {
            StopStep::Upload
        } else {
            StopStep::Report
        },
        StopStep::Upload => if ok {
            StopStep::Announce
        } else {
            StopStep::Report
        },
        StopStep::Report => StopStep::Announce,
        StopStep::Announce => StopStep::Done,
        StopStep::Done => StopStep::Done,
    }
}

/// Gives the name of the secret that a step asks for, if it asks for one.
pub fn secret_of(step: StopStep) -> (name: Option<&'static str>)
    ensures
        name == secret_name(step),
{
    match step {
        StopStep::ResolveAccount => Some(BLOB_ACCOUNT),
        StopStep::ResolveContainer => Some(BLOB_CONTAINER),
        StopStep::ResolveKey => Some(BLOB_KEY),
        _ => None,
    }
}

/// Applies a step of the stop path to the stop signal.
pub fn apply_stop_step(raised: bool, step: StopStep) -> (now: bool)
    ensures
        now == signal_after_stop_step(raised, step),
{
    match step {
        StopStep::RaiseStop => true,
        _ => raised,
    }
}

} // verus!
