use vstd::prelude::*;

verus! {

/// An instant in UTC: whole seconds since the Unix epoch and the nanoseconds past them.
/// The nanoseconds reach 1_000_000_000 or more only within a leap second.
#[derive(Debug, Clone, Copy, PartialEq, Eq, Structural, Hash)]
pub struct Timestamp {
    pub seconds: i64,
    pub nanos: u32,
}

impl Timestamp {
    /// `self` is at or before `other`.
    pub open spec fn at_or_before(self, other: Timestamp) -> bool {
        self.seconds < other.seconds || (self.seconds == other.seconds && self.nanos <= other.nanos)
    }

    /// `self` moved `secs` seconds later.
    pub open spec fn later_by(self, secs: int) -> Timestamp {
        Timestamp { seconds: (self.seconds + secs) as i64, nanos: self.nanos }
    }

    /// Nanoseconds from `self` to `other`, negative where `other` is earlier.
    pub open spec fn nanos_until(self, other: Timestamp) -> int {
        (other.seconds - self.seconds) * 1_000_000_000 + (other.nanos - self.nanos)
    }

    /// Whole seconds from `self` until `later`, or `None` where `later` has already passed.
    pub fn seconds_until(&self, later: &Timestamp) -> (r: Option<u128>)
        ensures
            r == if self.nanos_until(*later) < 0 {
                None::<u128>
            } else {
                Some((self.nanos_until(*later) / 1_000_000_000) as u128)
            },
    {
        let secs: i128 = later.seconds as i128 - self.seconds as i128;
        assert(-0x1_0000_0000_0000_0000 <= secs <= 0x1_0000_0000_0000_0000);
        assert(-0x1_0000_0000_0000_0000 * 1_000_000_000 <= secs * 1_000_000_000
            <= 0x1_0000_0000_0000_0000 * 1_000_000_000) by (nonlinear_arith)
            requires
                -0x1_0000_0000_0000_0000 <= secs <= 0x1_0000_0000_0000_0000,
        ;
        let diff: i128 = secs * 1_000_000_000 + (later.nanos as i128 - self.nanos as i128);
        if diff < 0 {
            None
        } else {
            Some((diff / 1_000_000_000) as u128)
        }
    }

    /// Whether `self` is at or before `other`.
    pub fn is_at_or_before(&self, other: &Timestamp) -> (r: bool)
        ensures
            r == self.at_or_before(*other),
    {
        self.seconds < other.seconds || (self.seconds == other.seconds && self.nanos <= other.nanos)
    }

    /// `self` moved `secs` seconds later.
    pub fn add_seconds(&self, secs: i64) -> (r: Timestamp)
        requires
            i64::MIN <= self.seconds + secs <= i64::MAX,
        ensures
            r == self.later_by(secs as int),
    {
        Timestamp { seconds: self.seconds + secs, nanos: self.nanos }
    }
}

/// What `DateTime::<Utc>::to_rfc3339` writes for an instant, where chrono can hold it.
pub uninterp spec fn rfc3339_text(seconds: i64, nanos: u32) -> Option<Seq<char>>;

/// The instant, as seconds and nanoseconds, that `DateTime::parse_from_rfc3339` reads from a text.
pub uninterp spec fn rfc3339_instant(text: Seq<char>) -> Option<(i64, u32)>;

pub open spec fn instant_pair(t: Option<Timestamp>) -> Option<(i64, u32)> {
    match t {
        Some(t) => Some((t.seconds, t.nanos)),
        None => None,
    }
}

pub open spec fn text_view(s: Option<String>) -> Option<Seq<char>> {
    match s {
        Some(s) => Some(s@),
        None => None,
    }
}

/// Relies on chrono's `Utc::now`, `DateTime::timestamp` and `DateTime::timestamp_subsec_nanos`:
/// the current instant, of which nothing is known ahead.
#[verifier::external_body]
pub(crate) fn now() -> (r: Timestamp) {
    let t = chrono::Utc::now();
    Timestamp { seconds: t.timestamp(), nanos: t.timestamp_subsec_nanos() }
}

/// Relies on chrono's `DateTime::from_timestamp` and `DateTime::to_rfc3339`: the RFC 3339
/// text of the instant in UTC, or `None` where the instant lies outside chrono's range.
#[verifier::external_body]
pub(crate) fn format_rfc3339(t: &Timestamp) -> (r: Option<String>)
    ensures
        text_view(r) == rfc3339_text(t.seconds, t.nanos),
{
    chrono::DateTime::from_timestamp(t.seconds, t.nanos).map(|d| d.to_rfc3339())
}

/// Relies on chrono's `DateTime::parse_from_rfc3339`, taken to UTC with `with_timezone`:
/// the instant that the text names, or `None` where it is no RFC 3339 date and time.
#[verifier::external_body]
pub(crate) fn parse_rfc3339(text: &str) -> (r: Option<Timestamp>)
    ensures
        instant_pair(r) == rfc3339_instant(text@),
{
    chrono::DateTime::parse_from_rfc3339(text).ok().map(|d| d.with_timezone(&chrono::Utc)).map(
        |d| Timestamp { seconds: d.timestamp(), nanos: d.timestamp_subsec_nanos() },
    )
}

} // verus!
