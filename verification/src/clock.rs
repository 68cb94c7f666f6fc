//! Capture times: the wall-clock time of day at which a line came in.
use vstd::prelude::*;

verus! {

/// A time of day as contracts see it.
pub struct ClockReading {
    /// Hour of the day.
    pub hour: int,
    /// Minute of the hour.
    pub minute: int,
    /// Second of the minute.
    pub second: int,
    /// Millisecond of the second.
    pub millisecond: int,
}

impl ClockReading {
    /// All four parts are in the range a clock shows.
    pub open spec fn valid(self) -> bool {
        &&& 0 <= self.hour < 24
        &&& 0 <= self.minute < 60
        &&& 0 <= self.second < 60
        &&& 0 <= self.millisecond < 1000
    }
}

/// A time of day in local wall-clock time, to the millisecond.
#[derive(Clone, Copy, Debug, PartialEq, Eq)]
pub struct CaptureTime {
    hour: u32,
    minute: u32,
    second: u32,
    millisecond: u32,
}

impl View for CaptureTime {
    type V = ClockReading;

    closed spec fn view(&self) -> ClockReading {
        ClockReading {
            hour: self.hour as int,
            minute: self.minute as int,
            second: self.second as int,
            millisecond: self.millisecond as int,
        }
    }
}

/// The ASCII code of the decimal digit `d`.
pub open spec fn digit_byte(d: int) -> u8 {
    (48 + d) as u8
}

/// `n` in two decimal digits.
pub open spec fn two_digit_bytes(n: int) -> Seq<u8> {
    seq![digit_byte(n / 10), digit_byte(n % 10)]
}

/// `n` in three decimal digits.
pub open spec fn three_digit_bytes(n: int) -> Seq<u8> {
    seq![digit_byte(n / 100), digit_byte(n / 10 % 10), digit_byte(n % 10)]
}

/// The twelve bytes `HH:MM:SS.mmm` of a time of day.
pub open spec fn clock_text(t: ClockReading) -> Seq<u8> {
    two_digit_bytes(t.hour) + seq![58u8] + two_digit_bytes(t.minute) + seq![58u8]
        + two_digit_bytes(t.second) + seq![46u8] + three_digit_bytes(t.millisecond)
}

/// Reads the local wall clock with `chrono::Local::now` and takes the hour,
/// minute and second of the time of day and the milliseconds behind the
/// second. The clock of the operating system knows no leap second, so the
/// milliseconds stay below 1000 and all four parts are in range.
#[verifier::external_body]
fn local_now() -> (t: CaptureTime)
    ensures
        t@.valid(),
{
    let now = chrono::Local::now();
    CaptureTime {
        hour: chrono::Timelike::hour(&now),
        minute: chrono::Timelike::minute(&now),
        second: chrono::Timelike::second(&now),
        millisecond: now.timestamp_subsec_millis(),
    }
}

/// Formats a time of day with `chrono::NaiveTime::format` and the pattern
/// `%H:%M:%S%.3f`: hour, minute and second in two digits each, with colons
/// between, then a point and the milliseconds in three digits.
#[verifier::external_body]
fn format_clock(t: &CaptureTime) -> (text: Vec<u8>)
    requires
        t@.valid(),
    ensures
        text@ == clock_text(t@),
{
    match chrono::NaiveTime::from_hms_milli_opt(t.hour, t.minute, t.second, t.millisecond) {
        Some(time) => time.format("%H:%M:%S%.3f").to_string().into_bytes(),
        None => Vec::new(),
    }
}

impl CaptureTime {
    #[verifier::type_invariant]
    spec fn in_range(self) -> bool {
        self@.valid()
    }

    /// The time of day with the given parts, if they are in range.
    pub fn new(hour: u32, minute: u32, second: u32, millisecond: u32) -> (time: Option<
        CaptureTime,
    >)
        ensures
            time is Some <==> hour < 24 && minute < 60 && second < 60 && millisecond < 1000,
            time matches Some(t) ==> t@ == (ClockReading {
                hour: hour as int,
                minute: minute as int,
                second: second as int,
                millisecond: millisecond as int,
            }),
    {
        if hour < 24 && minute < 60 && second < 60 && millisecond < 1000 {
            Some(CaptureTime { hour, minute, second, millisecond })
        } else {
            None
        }
    }

    /// The time of day now, by the local wall clock.
    pub fn now() -> (time: CaptureTime)
        ensures
            time@.valid(),
    {
        local_now()
    }

    /// Hour of the day.
    pub fn hour(&self) -> (h: u32)
        ensures
            h == self@.hour,
            h < 24,
    {
        proof {
            use_type_invariant(self);
        }
        self.hour
    }

    /// Minute of the hour.
    pub fn minute(&self) -> (m: u32)
        ensures
            m == self@.minute,
            m < 60,
    {
        proof {
            use_type_invariant(self);
        }
        self.minute
    }

    /// Second of the minute.
    pub fn second(&self) -> (s: u32)
        ensures
            s == self@.second,
            s < 60,
    {
        proof {
            use_type_invariant(self);
        }
        self.second
    }

    /// Millisecond of the second.
    pub fn millisecond(&self) -> (ms: u32)
        ensures
            ms == self@.millisecond,
            ms < 1000,
    {
        proof {
            use_type_invariant(self);
        }
        self.millisecond
    }

    /// The time as it stands in front of a line in a shard file:
    /// `HH:MM:SS.mmm`.
    pub fn text(&self) -> (text: Vec<u8>)
        ensures
            text@ == clock_text(self@),
            self@.valid(),
    {
        proof {
            use_type_invariant(self);
        }
        format_clock(self)
    }
}

/// A line with the time at which it was read.
#[derive(Clone, Debug, PartialEq, Eq)]
pub struct TimedLine {
    /// When the line was read.
    pub time: CaptureTime,
    /// The raw bytes of the line, with its newline.
    pub bytes: Vec<u8>,
}

impl TimedLine {
    /// Stamps a line with the time it is now.
    pub fn stamp(bytes: Vec<u8>) -> (line: TimedLine)
        ensures
            line.bytes == bytes,
            line.time@.valid(),
    {
        TimedLine { time: CaptureTime::now(), bytes }
    }

    /// A line read at the given time.
    pub fn at(time: CaptureTime, bytes: Vec<u8>) -> (line: TimedLine)
        ensures
            line.time == time,
            line.bytes == bytes,
    {
        TimedLine { time, bytes }
    }
}

} // verus!
