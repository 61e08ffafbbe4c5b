//! What is known about files.
pub mod linux;
pub mod mode;
pub mod unix;
pub mod windows;

pub use linux::{Metadata, Statx, StatxTimestamp};
pub use mode::{FileType, FileTypeFlags, Permissions};

use crate::error::{ErrorKind, IoError};
use vstd::prelude::*;

verus! {

/// How many nanoseconds make a second.
pub const NANOS_PER_SEC: u32 = 1_000_000_000;

/// A point in time, counted from the start of the year 1970.
#[derive(Clone, Copy, Debug, PartialEq, Eq, Structural)]
pub struct SystemTime {
    pub secs: i64,
    /// Less than a second's worth.
    pub nanos: u32,
}

impl SystemTime {
    pub open spec fn wf(self) -> bool {
        self.nanos < NANOS_PER_SEC
    }

    /// The time in nanoseconds.
    pub open spec fn spec_nanos(self) -> int {
        self.secs * NANOS_PER_SEC + self.nanos
    }
}

/// The error for a timestamp that no time stands for.
pub open spec fn out_of_range() -> IoError {
    IoError::Custom { kind: ErrorKind::InvalidData, message: "timestamp is out of range" }
}

/// Whether this is the time of a Unix timestamp, before 1970 or after, or an
/// error because there is no such time.
pub open spec fn time_of(secs: i64, nanos: u32, time: Result<SystemTime, IoError>) -> bool {
    match time {
        Ok(time) => time.wf() && time.spec_nanos() == secs * NANOS_PER_SEC + nanos,
        Err(error) => {
            &&& secs + nanos / NANOS_PER_SEC > i64::MAX
            &&& error == out_of_range()
        },
    }
}

/// A timestamp whose nanoseconds are less than a second is its own time, also
/// before 1970.
pub proof fn law_timestamp_is_exact(secs: i64, nanos: u32, time: Result<SystemTime, IoError>)
    requires
        time_of(secs, nanos, time),
        nanos < NANOS_PER_SEC,
    ensures
        time == Ok::<SystemTime, IoError>(SystemTime { secs, nanos }),
{
}

/// The time of a Unix timestamp.
pub fn system_time_from_unix(secs: i64, nanos: u32) -> (time: Result<SystemTime, IoError>)
    ensures
        time_of(secs, nanos, time),
{
    let carry = (nanos / NANOS_PER_SEC) as i64;
    match secs.checked_add(carry) {
        Some(secs) => Ok(SystemTime { secs, nanos: nanos % NANOS_PER_SEC }),
        None => Err(IoError::new(ErrorKind::InvalidData, "timestamp is out of range")),
    }
}

/// A timestamp is the time that it says, to the nanosecond, as long as there is such
/// a time; whole seconds among its nanoseconds are carried over.
pub proof fn law_time_is_what_the_timestamp_says(secs: i64, nanos: u32, time: Result<SystemTime, IoError>)
    requires
        call_ensures(system_time_from_unix, (secs, nanos), time),
    ensures
        secs + nanos / 1_000_000_000 <= i64::MAX ==> (time matches Ok(time) && time.nanos < 1_000_000_000 && time.secs
            * 1_000_000_000 + time.nanos == secs * 1_000_000_000 + nanos),
        secs + nanos / 1_000_000_000 > i64::MAX ==> (time matches Err(error) && error.spec_kind()
            == ErrorKind::InvalidData),
{
}

} // verus!
