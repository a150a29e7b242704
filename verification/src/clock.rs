//! Instants, read and printed by `chrono`.

use vstd::prelude::*;

verus! {

/// An instant: seconds since the Unix epoch, and nanoseconds since the last
/// whole second.
#[derive(Clone, Copy, Debug, PartialEq, Eq, Structural)]
pub struct Timestamp {
    pub secs: i64,
    pub nanos: u32,
}

/// The RFC 3339 text that `chrono` prints for an instant, if `chrono` can
/// represent the instant.
pub uninterp spec fn rfc3339_text(secs: int, nanos: int) -> Option<Seq<char>>;

/// `chrono::Utc::now`, taken apart by `timestamp` and
/// `timestamp_subsec_nanos`. The clock decides the result; a reading of the
/// system clock has less than a second's worth of nanoseconds. (`now` does
/// not return where the system clock reads an instant before 1970.)
#[verifier::external_body]
fn read_clock() -> (now: Timestamp)
    ensures
        now.nanos < 1_000_000_000,
{
    let t = chrono::Utc::now();
    Timestamp { secs: t.timestamp(), nanos: t.timestamp_subsec_nanos() }
}

/// `chrono::DateTime::from_timestamp` followed by `to_rfc3339`: the text is
/// a function of the two numbers; there is none where `from_timestamp`
/// rejects them.
#[verifier::external_body]
fn print_rfc3339(secs: i64, nanos: u32) -> (text: Option<String>)
    ensures
        match text {
            Some(t) => rfc3339_text(secs as int, nanos as int) == Some(t@),
            None => rfc3339_text(secs as int, nanos as int) is None,
        },
{
    chrono::DateTime::from_timestamp(secs, nanos).map(|t| t.to_rfc3339())
}

impl Timestamp {
    /// The milliseconds that lie between the two instants, as a number:
    /// negative where `self` is the later one.
    pub open spec fn millis_until(self, later: Timestamp) -> int {
        ((later.secs - self.secs) * 1_000_000_000 + (later.nanos - self.nanos)) / 1_000_000
    }

    /// The current instant.
    pub fn now() -> (now: Timestamp)
        ensures
            now.nanos < 1_000_000_000,
    {
        read_clock()
    }

    /// The instant as RFC 3339 text, where it can be represented.
    pub fn to_rfc3339(&self) -> (text: Option<String>)
        ensures
            match text {
                Some(t) => rfc3339_text(self.secs as int, self.nanos as int) == Some(t@),
                None => rfc3339_text(self.secs as int, self.nanos as int) is None,
            },
    {
        print_rfc3339(self.secs, self.nanos)
    }

    /// The whole milliseconds from `self` to `later`; zero where `later` is
    /// not after `self`.
    pub fn elapsed_ms(&self, later: &Timestamp) -> (ms: u128)
        ensures
            ms == if self.millis_until(*later) > 0 {
                self.millis_until(*later)
            } else {
                0
            },
    {
        let secs: i128 = later.secs as i128 - self.secs as i128;
        let nanos: i128 = later.nanos as i128 - self.nanos as i128;
        let total: i128 = secs * 1_000_000_000 + nanos;
        if total > 0 {
            (total / 1_000_000) as u128
        } else {
            0
        }
    }
}

} // verus!
