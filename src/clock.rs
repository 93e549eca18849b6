//! Points in time and spans between them, as plain integers, with the
//! calendar and text work handed to `chrono`.
use chrono::{DateTime, TimeDelta, Utc};
use vstd::prelude::*;

verus! {

/// Nanoseconds in one second.
pub const NANOS_PER_SEC: u32 = 1_000_000_000;

/// Earliest second (Unix time) that `chrono` can hold as a UTC date and time:
/// January 1, 262144 BCE.
pub const MIN_UNIX_SECS: i64 = -8_334_601_228_800;

/// Latest second (Unix time) that `chrono` can hold as a UTC date and time:
/// December 31 of year 262142, 23:59:59.
pub const MAX_UNIX_SECS: i64 = 8_210_266_876_799;

/// Whole seconds between the earliest and the latest representable instant,
/// plus one: no span between two instants reaches it.
pub const MAX_SPAN_SECS: i64 = 16_544_868_105_600;

/// An instant in UTC: whole seconds since the Unix epoch and the nanoseconds
/// into that second (leap seconds are not represented).
#[derive(Clone, Copy, Debug, PartialEq, Eq)]
pub struct Timestamp {
    pub secs: i64,
    pub nanos: u32,
}

impl Timestamp {
    pub open spec fn wf(self) -> bool {
        &&& MIN_UNIX_SECS <= self.secs <= MAX_UNIX_SECS
        &&& self.nanos < NANOS_PER_SEC
    }

    /// Nanoseconds since the Unix epoch.
    pub open spec fn total(self) -> int {
        self.secs as int * NANOS_PER_SEC as int + self.nanos as int
    }

    /// The instant `secs` seconds and `nanos` nanoseconds after the epoch,
    /// or `None` where that is not a representable instant.
    pub fn from_parts(secs: i64, nanos: u32) -> (r: Option<Timestamp>)
        ensures
            r == (if (Timestamp { secs, nanos }).wf() {
                Some(Timestamp { secs, nanos })
            } else {
                None
            }),
    {
        if MIN_UNIX_SECS <= secs && secs <= MAX_UNIX_SECS && nanos < NANOS_PER_SEC {
            Some(Timestamp { secs, nanos })
        } else {
            None
        }
    }
}

/// A signed span of time: `secs` whole seconds (rounded towards minus
/// infinity) and `nanos` nanoseconds on top, as `chrono::TimeDelta` holds it.
#[derive(Clone, Copy, Debug, PartialEq, Eq)]
pub struct Elapsed {
    pub secs: i64,
    pub nanos: u32,
}

impl Elapsed {
    pub open spec fn wf(self) -> bool {
        &&& -MAX_SPAN_SECS <= self.secs <= MAX_SPAN_SECS
        &&& self.nanos < NANOS_PER_SEC
    }

    /// The span in nanoseconds.
    pub open spec fn total(self) -> int {
        self.secs as int * NANOS_PER_SEC as int + self.nanos as int
    }
}

/// The span from `start` to `end`, exactly.
pub open spec fn span(start: Timestamp, end: Timestamp) -> Elapsed {
    let d = end.total() - start.total();
    Elapsed {
        secs: (d / NANOS_PER_SEC as int) as i64,
        nanos: (d % NANOS_PER_SEC as int) as u32,
    }
}

/// What `chrono` prints for the UTC instant `secs`, `nanos` after the epoch.
pub uninterp spec fn utc_text(secs: i64, nanos: u32) -> Seq<char>;

/// What `chrono` prints for the span of `secs` seconds and `nanos` nanoseconds
/// (ISO 8601, such as `PT5.25S`).
pub uninterp spec fn delta_text(secs: i64, nanos: u32) -> Seq<char>;

/// Relies on `chrono::Utc::now`: it reads the system clock, panics on a time
/// before the Unix epoch, and builds its result with
/// `DateTime::from_timestamp` from whole seconds and sub-second nanoseconds,
/// so the instant is representable and not before the epoch.
#[verifier::external_body]
pub(crate) fn utc_now() -> (r: Timestamp)
    ensures
        r.wf(),
        r.secs >= 0,
{
    let now = Utc::now();
    Timestamp { secs: now.timestamp(), nanos: now.timestamp_subsec_nanos() }
}

/// Relies on `chrono::DateTime::signed_duration_since`, which subtracts two
/// instants exactly, and on `TimeDelta::num_seconds` and
/// `TimeDelta::subsec_nanos`, whose sum in nanoseconds is the whole span and
/// whose second part lies strictly between minus and plus one second.
#[verifier::external_body]
fn signed_duration_since(end: &Timestamp, start: &Timestamp) -> (r: (i64, i32))
    requires
        end.wf(),
        start.wf(),
    ensures
        r.0 as int * NANOS_PER_SEC as int + r.1 as int == end.total() - start.total(),
        -(NANOS_PER_SEC as int) < r.1 < NANOS_PER_SEC as int,
{
    let end = DateTime::<Utc>::from_timestamp(end.secs, end.nanos).unwrap();
    let start = DateTime::<Utc>::from_timestamp(start.secs, start.nanos).unwrap();
    let delta = end.signed_duration_since(start);
    (delta.num_seconds(), delta.subsec_nanos())
}

/// Relies on the `Display` impl of `chrono::DateTime<Utc>`; the instant is
/// built with `DateTime::from_timestamp`, which accepts every well-formed
/// `Timestamp`.
#[verifier::external_body]
pub(crate) fn format_utc(t: &Timestamp) -> (r: String)
    requires
        t.wf(),
    ensures
        r@ == utc_text(t.secs, t.nanos),
{
    DateTime::<Utc>::from_timestamp(t.secs, t.nanos).unwrap().to_string()
}

/// Relies on the `Display` impl of `chrono::TimeDelta`; the span is built with
/// `TimeDelta::new`, which accepts every well-formed `Elapsed`.
#[verifier::external_body]
pub(crate) fn format_delta(e: &Elapsed) -> (r: String)
    requires
        e.wf(),
    ensures
        r@ == delta_text(e.secs, e.nanos),
{
    TimeDelta::new(e.secs, e.nanos).unwrap().to_string()
}

/// The exact span from `start` to `end`: negative where `end` comes first.
pub fn elapsed_between(start: &Timestamp, end: &Timestamp) -> (r: Elapsed)
    requires
        start.wf(),
        end.wf(),
    ensures
        r == span(*start, *end),
        r.wf(),
        r.total() == end.total() - start.total(),
{
    let (s, n) = signed_duration_since(end, start);
    let ghost ns: int = NANOS_PER_SEC as int;
    let ghost d: int = end.total() - start.total();
    assert(-(MAX_SPAN_SECS as int) * ns < d < MAX_SPAN_SECS as int * ns) by (nonlinear_arith)
        requires
            d == end.total() - start.total(),
            ns == NANOS_PER_SEC as int,
            start.wf(),
            end.wf(),
    ;
    assert(-(MAX_SPAN_SECS as int) - 1 <= s <= MAX_SPAN_SECS as int) by (nonlinear_arith)
        requires
            s as int * ns + n as int == d,
            -ns < n < ns,
            ns == 1_000_000_000,
            -(MAX_SPAN_SECS as int) * ns < d < MAX_SPAN_SECS as int * ns,
    ;
    let r = if n < 0 {
        Elapsed { secs: s - 1, nanos: (n + NANOS_PER_SEC as i32) as u32 }
    } else {
        Elapsed { secs: s, nanos: n as u32 }
    };
    assert(r.total() == d) by (nonlinear_arith)
        requires
            s as int * ns + n as int == d,
            ns == 1_000_000_000,
            r.total() == r.secs as int * ns + r.nanos as int,
            n < 0 ==> r.secs == s - 1 && r.nanos == n + ns,
            n >= 0 ==> r.secs == s && r.nanos == n,
    ;
    assert(-(MAX_SPAN_SECS as int) <= r.secs <= MAX_SPAN_SECS as int) by (nonlinear_arith)
        requires
            r.secs as int * ns + r.nanos as int == d,
            0 <= r.nanos < ns,
            ns == 1_000_000_000,
            -(MAX_SPAN_SECS as int) * ns < d < MAX_SPAN_SECS as int * ns,
    ;
    proof {
        vstd::arithmetic::div_mod::lemma_fundamental_div_mod_converse(
            d,
            ns,
            r.secs as int,
            r.nanos as int,
        );
    }
    r
}

} // verus!
