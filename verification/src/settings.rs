//! The tunable constants of a collector.
use vstd::prelude::*;

verus! {

/// Number of writer shards.
pub const NUM_WRITERS: usize = 20;

/// Lines per batch.
pub const BATCH_SIZE: usize = 10000;

/// Capacity of a shard's queue, in batches.
pub const MAX_BUFFER_SIZE: usize = 1000000;

/// Seconds between two periodic flushes of a shard.
pub const FLUSH_INTERVAL: u64 = 300;

/// Seconds between two tries of a write or flush.
pub const RETRY_INTERVAL: u64 = 5;

/// Failures of one write or flush that end a shard.
pub const MAX_RETRIES: usize = 10;

/// Seconds to cool down before a reconnect.
pub const RECONNECT_DELAY: u64 = 10;

/// Symbols subscribed between two pauses.
pub const SUBSCRIPTION_CHUNK: usize = 5000;

/// Seconds to pause between two chunks of subscriptions.
pub const SUBSCRIPTION_PAUSE: u64 = 5;

/// Bytes asked for in one read of the session.
pub const READ_BUFFER_SIZE: usize = 16384;

/// Seconds between two lines of the reporter.
pub const REPORT_INTERVAL: u64 = 1;

/// The tunable constants, as one record.
#[derive(Clone, Copy, Debug, PartialEq, Eq)]
pub struct Settings {
    /// Number of writer shards.
    pub num_writers: usize,
    /// Lines per batch.
    pub batch_size: usize,
    /// Capacity of a shard's queue, in batches.
    pub max_buffer_size: usize,
    /// Seconds between two periodic flushes of a shard.
    pub flush_interval_secs: u64,
    /// Seconds between two tries of a write or flush.
    pub retry_interval_secs: u64,
    /// Failures of one write or flush that end a shard.
    pub max_retries: usize,
    /// Seconds to cool down before a reconnect.
    pub reconnect_delay_secs: u64,
    /// Symbols subscribed between two pauses.
    pub subscription_chunk: usize,
    /// Seconds to pause between two chunks of subscriptions.
    pub subscription_pause_secs: u64,
    /// Bytes asked for in one read of the session.
    pub read_buffer_size: usize,
}

impl Settings {
    /// The defaults.
    pub open spec fn spec_standard() -> Settings {
        Settings {
            num_writers: NUM_WRITERS,
            batch_size: BATCH_SIZE,
            max_buffer_size: MAX_BUFFER_SIZE,
            flush_interval_secs: FLUSH_INTERVAL,
            retry_interval_secs: RETRY_INTERVAL,
            max_retries: MAX_RETRIES,
            reconnect_delay_secs: RECONNECT_DELAY,
            subscription_chunk: SUBSCRIPTION_CHUNK,
            subscription_pause_secs: SUBSCRIPTION_PAUSE,
            read_buffer_size: READ_BUFFER_SIZE,
        }
    }

    /// The defaults.
    #[verifier::when_used_as_spec(spec_standard)]
    pub fn standard() -> (settings: Settings)
        ensures
            settings == Settings::spec_standard(),
    {
        Settings {
            num_writers: NUM_WRITERS,
            batch_size: BATCH_SIZE,
            max_buffer_size: MAX_BUFFER_SIZE,
            flush_interval_secs: FLUSH_INTERVAL,
            retry_interval_secs: RETRY_INTERVAL,
            max_retries: MAX_RETRIES,
            reconnect_delay_secs: RECONNECT_DELAY,
            subscription_chunk: SUBSCRIPTION_CHUNK,
            subscription_pause_secs: SUBSCRIPTION_PAUSE,
            read_buffer_size: READ_BUFFER_SIZE,
        }
    }
}

} // verus!
