//! The current time, read from the system clock through the `time` crate.
use time::OffsetDateTime;
use vstd::prelude::*;

verus! {

/// The number of nanoseconds in a second.
pub open spec fn nanos_per_second() -> int {
    1_000_000_000
}

/// Reads `time::OffsetDateTime::now_utc` and gives it as nanoseconds since
/// the Unix epoch (`unix_timestamp_nanos`). The value is whatever the
/// system clock says; the one thing claimed is the form that
/// `unix_timestamp_nanos` gives it: an `i64` count of whole seconds times
/// 10^9 plus a nanosecond part below 10^9.
#[verifier::external_body]
pub(crate) fn unix_now_nanos() -> (r: i128)
    ensures
        i64::MIN * nanos_per_second() <= r < (i64::MAX + 1) * nanos_per_second(),
{
    OffsetDateTime::now_utc().unix_timestamp_nanos()
}

/// The whole seconds of a time given in nanoseconds, rounded down, as
/// `OffsetDateTime::unix_timestamp` counts them.
pub fn whole_seconds(nanos: i128) -> (s: i64)
    requires
        i64::MIN * nanos_per_second() <= nanos < (i64::MAX + 1) * nanos_per_second(),
    ensures
        s == (nanos as int) / nanos_per_second(),
{
    let d: i128 = 1_000_000_000;
    if nanos >= 0 {
        let q = nanos / d;
        assert(q <= i64::MAX) by (nonlinear_arith)
            requires
                q == nanos / d,
                0 <= nanos < (i64::MAX + 1) * d,
                d == 1_000_000_000,
        ;
        q as i64
    } else {
        let m = -(nanos + 1);
        let q = m / d;
        assert(-q - 1 == nanos / d && -q - 1 >= i64::MIN) by (nonlinear_arith)
            requires
                q == m / d,
                m == -(nanos + 1),
                i64::MIN * d <= nanos < 0,
                d == 1_000_000_000,
        ;
        (-q - 1) as i64
    }
}

} // verus!
