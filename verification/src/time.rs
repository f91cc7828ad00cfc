//! Points in time, as HTTP dates give them.
use vstd::prelude::*;
use vstd::string::*;

verus! {

/// What RFC 2822 date text stands for: seconds since 1970 in UTC, and nanoseconds within the
/// second (a thousand million or more in a leap second).
pub uninterp spec fn rfc2822_time(text: Seq<char>) -> Option<(i64, u32)>;

/// A point in time, in UTC.
#[derive(Clone, Copy, PartialEq, Eq, Structural, Debug)]
pub struct UtcTime {
    /// Seconds since the beginning of 1970.
    pub secs: i64,
    /// Nanoseconds since the second began.
    pub nanos: u32,
}

/// The point in time that date text gives.
pub open spec fn date_of(text: Seq<char>) -> Option<UtcTime> {
    match rfc2822_time(text) {
        Some(t) => Some(UtcTime { secs: t.0, nanos: t.1 }),
        None => None,
    }
}

/// `chrono::DateTime::parse_from_rfc2822`: the point in time that RFC 2822 date text gives, in UTC;
/// nothing where the text is no such date.
#[verifier::external_body]
fn parse_rfc2822(text: &str) -> (time: Option<(i64, u32)>)
    ensures
        time == rfc2822_time(text@),
{
    let time = chrono::DateTime::parse_from_rfc2822(text).ok()?.to_utc();
    Some((time.timestamp(), time.timestamp_subsec_nanos()))
}

/// Reads an HTTP date.
pub fn parse_date(text: &str) -> (time: Option<UtcTime>)
    ensures
        time == date_of(text@),
{
    match parse_rfc2822(text) {
        Some(t) => Some(UtcTime { secs: t.0, nanos: t.1 }),
        None => None,
    }
}

impl UtcTime {
    /// Whether this point in time is `other` or one before it.
    pub open spec fn no_later(self, other: UtcTime) -> bool {
        self.secs < other.secs || (self.secs == other.secs && self.nanos <= other.nanos)
    }

    /// Whether this point in time is `other` or one before it.
    pub fn no_later_than(&self, other: &UtcTime) -> (yes: bool)
        ensures
            yes == self.no_later(*other),
    {
        self.secs < other.secs || (self.secs == other.secs && self.nanos <= other.nanos)
    }
}

/// Whether what was last changed at `modified` is unchanged for one who saw it at `since`: both
/// times are known, and the change is no later.
pub open spec fn unchanged(modified: Option<UtcTime>, since: Option<UtcTime>) -> bool {
    modified is Some && since is Some && modified->0.no_later(since->0)
}

/// Whether what was last changed at `modified` is unchanged for one who saw it at `since`.
pub fn unchanged_since(modified: Option<UtcTime>, since: Option<UtcTime>) -> (yes: bool)
    ensures
        yes == unchanged(modified, since),
{
    match (modified, since) {
        (Some(m), Some(s)) => m.no_later_than(&s),
        _ => false,
    }
}

/// The order of points in time is total, transitive and antisymmetric.
pub proof fn law_time_order(a: UtcTime, b: UtcTime, c: UtcTime)
    ensures
        a.no_later(b) || b.no_later(a),
        a.no_later(b) && b.no_later(c) ==> a.no_later(c),
        a.no_later(b) && b.no_later(a) ==> a == b,
{
}

/// An earlier second comes before a later one whatever the nanoseconds, which decide only within one
/// second.
pub proof fn law_earlier_seconds_come_first(a: UtcTime, b: UtcTime)
    ensures
        a.secs < b.secs ==> a.no_later(b) && !b.no_later(a),
        a.secs == b.secs && a.nanos < b.nanos ==> a.no_later(b) && !b.no_later(a),
        a.no_later(a),
{
}

/// What was changed at the time of the sender's version, or before it, is unchanged for the sender;
/// what was changed after it is not, nor is anything where one of the two times is unknown.
pub proof fn law_unchanged_until_changed(modified: UtcTime, since: UtcTime)
    ensures
        unchanged(Some(modified), Some(modified)),
        modified.secs < since.secs ==> unchanged(Some(modified), Some(since)),
        modified.secs > since.secs ==> !unchanged(Some(modified), Some(since)),
        modified.secs == since.secs ==> unchanged(Some(modified), Some(since)) == (modified.nanos
            <= since.nanos),
        !unchanged(None, Some(since)),
        !unchanged(Some(modified), None),
        !unchanged(None, None),
{
}

/// A date is the point in time that its text gives, and none where the text gives none.
pub proof fn law_dates_are_read(text: Seq<char>)
    ensures
        match rfc2822_time(text) {
            Some((secs, nanos)) => date_of(text) == Some(UtcTime { secs, nanos }),
            None => date_of(text) is None,
        },
{
}

} // verus!
