//! Moments and spans of time.

use vstd::prelude::*;

verus! {

/// The first second of the first day that a calendar date can stand for:
/// 1 January 262144 BCE.
pub const FIRST_SECOND: i64 = -8_334_601_228_800;

/// The last second of the last such day: 31 December 262142.
pub const LAST_SECOND: i64 = 8_210_266_876_799;

/// The nanoseconds of a second.
pub const NANOS_PER_SECOND: u32 = 1_000_000_000;

/// A moment that has a calendar date.
#[derive(Debug, Clone, Copy, PartialEq, Eq)]
pub struct Timestamp {
    secs: i64,
    nanos: u32,
}

/// Whether a moment, in seconds since 1 January 1970 and nanoseconds since the
/// last whole second, has a calendar date.
pub open spec fn has_date(secs: i64, nanos: u32) -> bool {
    FIRST_SECOND <= secs <= LAST_SECOND && nanos < NANOS_PER_SECOND
}

impl View for Timestamp {
    type V = int;

    /// The nanoseconds since 1 January 1970.
    closed spec fn view(&self) -> int {
        self.secs * 1_000_000_000 + self.nanos
    }
}

impl Timestamp {
    #[verifier::type_invariant]
    spec fn well_formed(self) -> bool {
        has_date(self.secs, self.nanos)
    }

    /// The moment so many seconds after 1 January 1970, and so many nanoseconds
    /// after that second.
    pub fn at(secs: i64, nanos: u32) -> (r: Option<Timestamp>)
        ensures
            match r {
                Some(moment) => has_date(secs, nanos) && moment@ == secs * 1_000_000_000 + nanos,
                None => !has_date(secs, nanos),
            },
    {
        if FIRST_SECOND <= secs && secs <= LAST_SECOND && nanos < NANOS_PER_SECOND {
            Some(Timestamp { secs, nanos })
        } else {
            None
        }
    }

    /// The nanoseconds since 1 January 1970.
    pub fn nanos(&self) -> (r: i128)
        ensures
            r == self@,
    {
        self.secs as i128 * 1_000_000_000 + self.nanos as i128
    }

    /// The moment in the notation of RFC 3339.
    pub fn to_text(&self) -> (r: String)
        ensures
            r@ == rfc3339_text(self@),
    {
        proof {
            use_type_invariant(*self);
        }
        rfc3339(self.secs, self.nanos)
    }
}

/// What [`chrono::DateTime::to_rfc3339`] makes of the moment so many
/// nanoseconds after 1 January 1970, in UTC.
pub uninterp spec fn rfc3339_text(at: int) -> Seq<char>;

/// [`chrono::DateTime::from_timestamp`], which knows every moment that has a
/// date, and [`chrono::DateTime::to_rfc3339`]. Nothing more is claimed of the
/// text than that the moment decides it.
#[verifier::external_body]
fn rfc3339(secs: i64, nanos: u32) -> (r: String)
    requires
        has_date(secs, nanos),
    ensures
        r@ == rfc3339_text(secs * 1_000_000_000 + nanos),
{
    chrono::DateTime::<chrono::Utc>::from_timestamp(secs, nanos).unwrap().to_rfc3339()
}

/// What an optional moment says.
pub open spec fn optional_moment(at: Option<Timestamp>) -> Option<int> {
    match at {
        Some(at) => Some(at@),
        None => None,
    }
}

/// Whether `retention` nanoseconds have gone by since `at`. A retention of zero
/// is over at once, whatever the clock says.
pub open spec fn retention_is_over(now: int, at: int, retention: int) -> bool {
    retention == 0 || now - at >= retention
}

/// Whether `retention` nanoseconds have gone by since `at`.
pub fn exceeded_retention(now: Timestamp, at: Timestamp, retention: u128) -> (r: bool)
    ensures
        r == retention_is_over(now@, at@, retention as int),
{
    if retention == 0 {
        return true;
    }
    let now_nanos: i128 = now.nanos();
    let at_nanos: i128 = at.nanos();
    proof {
        use_type_invariant(now);
        use_type_invariant(at);
    }
    if now_nanos < at_nanos {
        return false;
    }
    let elapsed: u128 = (now_nanos - at_nanos) as u128;
    elapsed >= retention
}

} // verus!
