//! Points in time, as the store records them, and their RFC 3339 rendering.
use vstd::prelude::*;

verus! {

/// The last second that `chrono::DateTime<Utc>` can represent
/// (`DateTime::<Utc>::MAX_UTC`, +262142-12-31T23:59:59Z), in seconds since the Unix epoch.
pub const MAX_UNIX_SECS: i64 = 8210266876799i64;

/// A UTC instant at or after the Unix epoch: whole seconds since
/// 1970-01-01T00:00:00Z and the nanoseconds within that second.
#[derive(Clone, Copy, Debug, PartialEq, Eq, Structural)]
pub struct Timestamp {
    secs: i64,
    nanos: u32,
}

/// The range that every `Timestamp` stays in.
pub open spec fn timestamp_in_range(secs: i64, nanos: u32) -> bool {
    0 <= secs <= MAX_UNIX_SECS && nanos < 1_000_000_000
}

impl Timestamp {
    #[verifier::type_invariant]
    spec fn in_range(self) -> bool {
        timestamp_in_range(self.secs, self.nanos)
    }

    /// Seconds since the Unix epoch.
    pub closed spec fn unix_secs(self) -> i64 {
        self.secs
    }

    /// Nanoseconds within the second.
    pub closed spec fn subsec_nanos(self) -> u32 {
        self.nanos
    }

    /// The timestamp with the given parts, when they lie in the range a `Timestamp` covers.
    pub fn from_unix(secs: i64, nanos: u32) -> (r: Option<Timestamp>)
        ensures
            r is Some <==> timestamp_in_range(secs, nanos),
            r matches Some(t) ==> t.unix_secs() == secs && t.subsec_nanos() == nanos,
    {
        if 0 <= secs && secs <= MAX_UNIX_SECS && nanos < 1_000_000_000 {
            Some(Timestamp { secs, nanos })
        } else {
            None
        }
    }
}

/// The text that `chrono` gives for the instant `secs`/`nanos`
/// with `to_rfc3339_opts(SecondsFormat::Secs, true)`, e.g. `2018-01-26T18:30:09Z`.
pub uninterp spec fn rfc3339_utc_seconds(secs: i64, nanos: u32) -> Seq<char>;

/// The current instant, from `chrono::Utc::now()`.
///
/// Trusted: `Utc::now()` reads the system clock; nothing is claimed about which instant
/// comes back. Its value is kept as `timestamp()` and `timestamp_subsec_nanos()`; the source
/// shows that `Utc::now()` panics for a clock before the Unix epoch and builds the value from a
/// `Duration` (nanoseconds below 1e9), and a `DateTime<Utc>` never lies past `MAX_UTC`, so the
/// parts lie in the range of the type's invariant.
#[verifier::external_body]
pub fn now_utc() -> (t: Timestamp) {
    let now = chrono::Utc::now();
    Timestamp { secs: now.timestamp(), nanos: now.timestamp_subsec_nanos() }
}

/// Renders `t` as `chrono` does: `DateTime::from_timestamp(secs, nanos)` followed by
/// `to_rfc3339_opts(SecondsFormat::Secs, true)`.
///
/// Trusted: the result is claimed to be `rfc3339_utc_seconds` of the instant's parts, a
/// function of those parts alone. `from_timestamp` returns `Some` on the whole range of the
/// type's invariant (days within `i32`, time of day below 86400 s, nanoseconds below 1e9),
/// so the `None` arm is never taken.
#[verifier::external_body]
pub fn rfc3339_seconds(t: Timestamp) -> (r: String)
    ensures
        r@ == rfc3339_utc_seconds(t.unix_secs(), t.subsec_nanos()),
{
    match chrono::DateTime::from_timestamp(t.secs, t.nanos) {
        Some(d) => d.to_rfc3339_opts(chrono::SecondsFormat::Secs, true),
        None => String::new(),
    }
}

} // verus!
