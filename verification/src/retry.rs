//! Retry policies of the collaborators: the secret provider and the
//! uploader back off with each attempt, the downloader waits a fixed time.
use vstd::prelude::*;

verus! {

/// Attempts that the secret provider and the uploader are given.
pub const RETRY_COUNT: usize = 30;

/// Seconds of timeout per attempt number, for a secret.
pub const TIMEOUT_SECS: u64 = 5;

/// Seconds of timeout per attempt number, for an upload.
pub const UPLOAD_TIMEOUT_SECS: u64 = 20;

/// Seconds of pause per attempt number.
pub const RETRY_DELAY_SECS: u64 = 1;

/// Attempts that the downloader is given.
pub const DOWNLOAD_RETRIES: u8 = 30;

/// Seconds between two attempts of the downloader.
pub const DOWNLOAD_PAUSE_SECS: u64 = 2;

/// A back-off as contracts see it.
pub struct BackoffState {
    /// Attempts that have failed so far: the number of the attempt that is
    /// due, counted from 0.
    pub attempt: int,
    /// Attempts that are given.
    pub retry_count: int,
    /// Seconds of timeout per attempt number.
    pub timeout_secs: int,
    /// Seconds of pause per attempt number.
    pub delay_secs: int,
}

impl BackoffState {
    /// Whether an attempt is still due.
    pub open spec fn due(self) -> bool {
        self.attempt < self.retry_count
    }

    /// Timeout of the attempt that is due: the attempt number times the
    /// unit, so the first attempt gets none at all.
    pub open spec fn timeout(self) -> int {
        self.timeout_secs * self.attempt
    }

    /// Pause behind the attempt that is due, should it fail: the attempt
    /// number times the unit. There is none behind the last attempt.
    pub open spec fn pause(self) -> Option<int> {
        if self.attempt + 1 < self.retry_count {
            Some(self.delay_secs * self.attempt)
        } else {
            None
        }
    }

    /// The back-off after the attempt that was due has failed.
    pub open spec fn after_failure(self) -> BackoffState {
        if self.due() {
            BackoffState { attempt: self.attempt + 1, ..self }
        } else {
            self
        }
    }
}

/// The back-off after `failures` attempts in a row have failed.
pub open spec fn after_failures(start: BackoffState, failures: nat) -> BackoffState
    decreases failures,
{
    if failures == 0 {
        start
    } else {
        after_failures(start, (failures - 1) as nat).after_failure()
    }
}

/// Attempt-scaled back-off: while attempts are left, the attempt behind
/// `k` failures has `k` times the timeout unit and is followed by `k` times
/// the pause unit; when all attempts have failed, none is due any more.
pub proof fn lemma_backoff_scales(retry_count: int, timeout_secs: int, delay_secs: int, k: nat)
    requires
        0 <= retry_count,
    ensures
        ({
            let start = BackoffState { attempt: 0, retry_count, timeout_secs, delay_secs };
            let now = after_failures(start, k);
            &&& now == BackoffState {
                attempt: if k < retry_count {
                    k as int
                } else {
                    retry_count
                },
                ..start
            }
            &&& k < retry_count ==> now.due() && now.attempt == k && now.timeout() == timeout_secs
                * k
            &&& k + 1 < retry_count ==> now.pause() == Some(delay_secs * k)
            &&& k + 1 == retry_count ==> now.pause() is None
            &&& k >= retry_count ==> !now.due() && now.attempt == retry_count
        }),
    decreases k,
{
    if k > 0 {
        lemma_backoff_scales(retry_count, timeout_secs, delay_secs, (k - 1) as nat);
    }
}

/// An attempt that is due.
#[derive(Clone, Copy, Debug, PartialEq, Eq, Structural)]
pub struct Try {
    /// Number of the attempt, counted from 1 as messages count it.
    pub number: usize,
    /// Seconds after which the attempt is given up.
    pub timeout_secs: u64,
}

/// The back-off of one operation of a collaborator.
#[derive(Clone, Copy, Debug)]
pub struct Backoff {
    attempt: usize,
    retry_count: usize,
    timeout_secs: u64,
    delay_secs: u64,
}

impl View for Backoff {
    type V = BackoffState;

    closed spec fn view(&self) -> BackoffState {
        BackoffState {
            attempt: self.attempt as int,
            retry_count: self.retry_count as int,
            timeout_secs: self.timeout_secs as int,
            delay_secs: self.delay_secs as int,
        }
    }
}

impl Backoff {
    #[verifier::type_invariant]
    spec fn fits(self) -> bool {
        &&& self.attempt <= self.retry_count
        &&& self.retry_count * self.timeout_secs <= u64::MAX
        &&& self.retry_count * self.delay_secs <= u64::MAX
    }

    /// A back-off with `retry_count` attempts, if the longest timeout and
    /// the longest pause can be counted in seconds at all.
    pub fn new(retry_count: usize, timeout_secs: u64, delay_secs: u64) -> (backoff: Option<Backoff>)
        ensures
            backoff is Some <==> retry_count * timeout_secs <= u64::MAX && retry_count * delay_secs
                <= u64::MAX,
            backoff matches Some(b) ==> b@ == (BackoffState {
                attempt: 0,
                retry_count: retry_count as int,
                timeout_secs: timeout_secs as int,
                delay_secs: delay_secs as int,
            }),
    {
        let count: u64 = retry_count as u64;
        if count.checked_mul(timeout_secs).is_none() {
            return None;
        }
        if count.checked_mul(delay_secs).is_none() {
            return None;
        }
        Some(Backoff { attempt: 0, retry_count, timeout_secs, delay_secs })
    }

    /// The back-off of a secret fetch.
    pub fn for_secret() -> (backoff: Backoff)
        ensures
            backoff@ == (BackoffState {
                attempt: 0,
                retry_count: RETRY_COUNT as int,
                timeout_secs: TIMEOUT_SECS as int,
                delay_secs: RETRY_DELAY_SECS as int,
            }),
    {
        Backoff {
            attempt: 0,
            retry_count: RETRY_COUNT,
            timeout_secs: TIMEOUT_SECS,
            delay_secs: RETRY_DELAY_SECS,
        }
    }

    /// The back-off of an upload.
    pub fn for_upload() -> (backoff: Backoff)
        ensures
            backoff@ == (BackoffState {
                attempt: 0,
                retry_count: RETRY_COUNT as int,
                timeout_secs: UPLOAD_TIMEOUT_SECS as int,
                delay_secs: RETRY_DELAY_SECS as int,
            }),
    {
        Backoff {
            attempt: 0,
            retry_count: RETRY_COUNT,
            timeout_secs: UPLOAD_TIMEOUT_SECS,
            delay_secs: RETRY_DELAY_SECS,
        }
    }

    /// The attempt that is due, if one is.
    pub fn next_attempt(&self) -> (due: Option<Try>)
        ensures
            due is Some <==> self@.due(),
            due matches Some(t) ==> t.number == self@.attempt + 1 && t.timeout_secs
                == self@.timeout(),
    {
        proof {
            use_type_invariant(self);
        }
        if self.attempt < self.retry_count {
            proof {
                Self::lemma_scaled(
                    self.attempt as int,
                    self.retry_count as int,
                    self.timeout_secs as int,
                );
            }
            Some(
                Try {
                    number: self.attempt + 1,
                    timeout_secs: self.timeout_secs * (self.attempt as u64),
                },
            )
        } else {
            None
        }
    }

    /// Records that the attempt that was due has failed, and gives the
    /// seconds to pause before the next one. When that was the last attempt
    /// there is no pause, and the operation has failed for good.
    pub fn record_failure(&mut self) -> (pause_secs: Option<u64>)
        ensures
            final(self)@ == old(self)@.after_failure(),
            match pause_secs {
                Some(secs) => old(self)@.pause() == Some(secs as int),
                None => old(self)@.pause() is None,
            },
    {
        proof {
            use_type_invariant(&*self);
        }
        if self.attempt >= self.retry_count {
            return None;
        }
        let failed: usize = self.attempt;
        self.attempt = failed + 1;
        if failed + 1 < self.retry_count {
            proof {
                Self::lemma_scaled(
                    failed as int,
                    self.retry_count as int,
                    self.delay_secs as int,
                );
            }
            Some(self.delay_secs * (failed as u64))
        } else {
            None
        }
    }

    proof fn lemma_scaled(attempt: int, count: int, unit: int)
        requires
            0 <= attempt <= count,
            0 <= unit,
        ensures
            0 <= unit * attempt <= count * unit,
    {
        assert(0 <= unit * attempt <= count * unit) by (nonlinear_arith)
            requires
                0 <= attempt <= count,
                0 <= unit,
        ;
    }
}

/// Whether an HTTP status stands for success: the codes 200 to 299.
pub open spec fn is_success(status: u16) -> bool {
    200 <= status < 300
}

/// What follows from the answer to a download request.
#[derive(Clone, Copy, Debug, PartialEq, Eq, Structural)]
pub enum DownloadVerdict {
    /// The answer is good: save its body.
    Save,
    /// The request failed: report the try, pause and look whether another
    /// try is left.
    Retry { tried: u8, pause_secs: u64 },
    /// No try is left.
    GiveUp,
}

/// The retry count of the downloader.
#[derive(Clone, Copy, Debug)]
pub struct Download {
    retries: u8,
}

impl View for Download {
    type V = int;

    closed spec fn view(&self) -> int {
        self.retries as int
    }
}

impl Download {
    /// A download that has not been tried yet.
    pub fn new() -> (download: Download)
        ensures
            download@ == 0,
    {
        Download { retries: 0 }
    }

    /// Whether a try is left.
    pub fn may_try(&self) -> (left: bool)
        ensures
            left == (self@ < DOWNLOAD_RETRIES),
    {
        self.retries < DOWNLOAD_RETRIES
    }

    /// Takes the answer to a request: its HTTP status, or none when the
    /// request itself failed.
    pub fn on_response(&mut self, status: Option<u16>) -> (verdict: DownloadVerdict)
        ensures
            old(self)@ >= DOWNLOAD_RETRIES ==> verdict == DownloadVerdict::GiveUp && final(self)@
                == old(self)@,
            old(self)@ < DOWNLOAD_RETRIES && (status matches Some(code) && is_success(code))
                ==> verdict == DownloadVerdict::Save && final(self)@ == old(self)@,
            old(self)@ < DOWNLOAD_RETRIES && !(status matches Some(code) && is_success(code))
                ==> final(self)@ == old(self)@ + 1 && verdict == (DownloadVerdict::Retry {
                tried: (old(self)@ + 1) as u8,
                pause_secs: DOWNLOAD_PAUSE_SECS,
            }),
    {
        if self.retries >= DOWNLOAD_RETRIES {
            return DownloadVerdict::GiveUp;
        }
        let good = match status {
            Some(code) => 200 <= code && code < 300,
            None => false,
        };
        if good {
            DownloadVerdict::Save
        } else {
            self.retries = self.retries + 1;
            DownloadVerdict::Retry { tried: self.retries, pause_secs: DOWNLOAD_PAUSE_SECS }
        }
    }
}

} // verus!
