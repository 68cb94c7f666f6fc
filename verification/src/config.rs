//! What the environment configures: the cadence and the times of the
//! daily run, and where the secrets are kept.
use vstd::prelude::*;
use vstd::string::StringExecFns;

verus! {

/// Name of the secret that holds the address of the quote server.
pub const MARKETDATA_ADDRESS: &'static str = "marketdata-address";

/// Name of the secret that holds the login name.
pub const MARKETDATA_UN: &'static str = "marketdata-username";

/// Name of the secret that holds the password.
pub const MARKETDATA_PW: &'static str = "marketdata-password";

/// Name of the secret that holds the address of the error reporter.
pub const SENTRY_DSN: &'static str = "sentry-dsn";

/// Seconds between two wake-ups of the main task.
pub const KEEPALIVE: u64 = 3600;

/// Seconds between two looks of the scheduler at its jobs.
pub const SCHEDULER_TICK: u64 = 5;

/// On which days the run takes place.
#[derive(Clone, Copy, Debug, PartialEq, Eq, Structural)]
pub enum Cadence {
    /// Every day of the week.
    Everyday,
    /// Monday to Friday.
    Weekdays,
}

/// The cadence that a setting asks for: every day if it says `Everyday`,
/// weekdays for anything else.
pub open spec fn cadence_of(setting: Seq<char>) -> Cadence {
    if setting == "Everyday"@ {
        Cadence::Everyday
    } else {
        Cadence::Weekdays
    }
}

/// A setting, or the default where it is not set.
pub open spec fn setting_or(setting: Option<String>, default: Seq<char>) -> Seq<char> {
    match setting {
        Some(value) => value@,
        None => default,
    }
}

fn or_default(setting: Option<String>, default: &str) -> (value: String)
    ensures
        value@ == setting_or(setting, default@),
{
    match setting {
        Some(value) => value,
        None => String::from_str(default),
    }
}

/// Reads the cadence of the run from the value of `INTERVAL`.
pub fn schedule_interval(setting: &str) -> (cadence: Cadence)
    ensures
        cadence == cadence_of(setting@),
{
    let given = String::from_str(setting);
    let everyday = String::from_str("Everyday");
    if given == everyday {
        Cadence::Everyday
    } else {
        Cadence::Weekdays
    }
}

/// The address of the vault: the value of `VAULT_URL`, empty if not set.
pub fn vault_url(setting: Option<String>) -> (url: String)
    ensures
        url@ == setting_or(setting, ""@),
{
    or_default(setting, "")
}

/// The time of day, in UTC, at which the run starts: the value of
/// `CHITA_START_TIME`, or 11:00.
pub fn start_time(setting: Option<String>) -> (time: String)
    ensures
        time@ == setting_or(setting, "11:00"@),
{
    or_default(setting, "11:00")
}

/// The time of day, in UTC, at which the run is stopped: the value of
/// `CHITA_STOP_TIME`, or 22:00.
pub fn stop_time(setting: Option<String>) -> (time: String)
    ensures
        time@ == setting_or(setting, "22:00"@),
{
    or_default(setting, "22:00")
}

} // verus!
