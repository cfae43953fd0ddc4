//! Instants, and how they are written.
use vstd::prelude::*;

verus! {

/// The first second that has a date in the calendar: the start of the year -262143.
pub const FIRST_SECOND: i64 = -8334601228800;

/// The last second that has a date in the calendar: the end of the year 262142.
pub const LAST_SECOND: i64 = 8210266876799;

/// An instant: whole seconds since the Unix epoch, and nanoseconds on top of them.
#[derive(Clone, Copy, Debug, PartialEq, Eq)]
pub struct Timestamp {
    pub secs: i64,
    pub nanos: u32,
}

impl Timestamp {
    /// The instant has a date in the calendar.
    pub open spec fn wf(&self) -> bool {
        &&& FIRST_SECOND <= self.secs <= LAST_SECOND
        &&& self.nanos < 1_000_000_000
    }

    /// Whether the instant has a date in the calendar.
    pub fn has_date(&self) -> (yes: bool)
        ensures
            yes == self.wf(),
    {
        FIRST_SECOND <= self.secs && self.secs <= LAST_SECOND && self.nanos < 1_000_000_000
    }
}

/// An instant written as RFC 3339 prescribes, in UTC.
pub uninterp spec fn rfc3339(secs: int, nanos: int) -> Seq<char>;

/// `DateTime::to_rfc3339` writes the instant that `DateTime::from_timestamp` makes of the seconds
/// and nanoseconds.
#[verifier::external_body]
pub(crate) fn rfc3339_text(time: Timestamp) -> (text: String)
    requires
        time.wf(),
    ensures
        text@ == rfc3339(time.secs as int, time.nanos as int),
{
    chrono::DateTime::from_timestamp(time.secs, time.nanos).unwrap().to_rfc3339()
}

} // verus!
