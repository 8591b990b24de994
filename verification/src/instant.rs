//! Instants are nanoseconds since the Unix epoch, UTC.

use vstd::prelude::*;

verus! {

/// The instant of a whole second and a nanosecond part (which exceeds a
/// second's worth only inside a leap second).
pub open spec fn instant_of(secs: i64, nanos: u32) -> int {
    secs * 1_000_000_000 + nanos
}

/// The UTC instant an RFC 3339 text names, as seconds since the epoch and
/// the nanoseconds past that second, by the rules of
/// `chrono::DateTime::parse_from_rfc3339`; `None` if it names none.
pub uninterp spec fn rfc3339_instant(s: Seq<char>) -> Option<(i64, u32)>;

/// Reads an RFC 3339 timestamp with `chrono::DateTime::parse_from_rfc3339`
/// and takes it to UTC. What it accepts is named, not written out.
#[verifier::external_body]
pub(crate) fn parse_rfc3339(raw: &str) -> (r: Option<(i64, u32)>)
    ensures
        r == rfc3339_instant(raw@),
{
    match chrono::DateTime::parse_from_rfc3339(raw) {
        Ok(dt) => {
            let utc = dt.with_timezone(&chrono::Utc);
            Some((utc.timestamp(), utc.timestamp_subsec_nanos()))
        },
        Err(_) => None,
    }
}

/// The instant `secs` and `nanos` name, in nanoseconds since the epoch.
pub fn nanos_since_epoch(secs: i64, nanos: u32) -> (r: i128)
    ensures
        r == instant_of(secs, nanos),
{
    assert(-9_223_372_036_854_775_808 * 1_000_000_000 <= secs * 1_000_000_000
        <= 9_223_372_036_854_775_807 * 1_000_000_000) by (nonlinear_arith)
        requires
            -9_223_372_036_854_775_808 <= secs <= 9_223_372_036_854_775_807,
    ;
    (secs as i128) * 1_000_000_000 + (nanos as i128)
}

/// The whole seconds and the nanoseconds past them (below a second's
/// worth) of an instant, when the seconds fit an `i64`.
pub fn seconds_and_nanos(t: i128) -> (r: Option<(i64, u32)>)
    ensures
        r matches Some((secs, nanos)) ==> instant_of(secs, nanos) == t && nanos < 1_000_000_000,
        r is None <==> !(i64::MIN <= t / 1_000_000_000 <= i64::MAX),
{
    let (secs, nanos): (i128, i128) = if t >= 0 {
        let q = t / 1_000_000_000;
        let m = t % 1_000_000_000;
        assert(q * 1_000_000_000 + m == t && 0 <= m < 1_000_000_000) by (nonlinear_arith)
            requires
                t >= 0,
                q == t / 1_000_000_000,
                m == t % 1_000_000_000,
        ;
        (q, m)
    } else {
        let u: i128 = -(t + 1);
        let q0 = u / 1_000_000_000;
        let m0 = u % 1_000_000_000;
        assert(q0 * 1_000_000_000 + m0 == u && 0 <= m0 < 1_000_000_000) by (nonlinear_arith)
            requires
                u >= 0,
                q0 == u / 1_000_000_000,
                m0 == u % 1_000_000_000,
        ;
        (-q0 - 1, 999_999_999 - m0)
    };
    assert(secs == t / 1_000_000_000) by (nonlinear_arith)
        requires
            secs * 1_000_000_000 + nanos == t,
            0 <= nanos < 1_000_000_000,
    ;
    if secs < -9_223_372_036_854_775_808 || secs > 9_223_372_036_854_775_807 {
        return None;
    }
    Some((secs as i64, nanos as u32))
}

/// The current time from `chrono::Utc::now`, as seconds since the epoch
/// and nanoseconds past that second. Which time it is goes unstated; only
/// what holds of every `chrono::DateTime<Utc>` is: it lies within about
/// 262,000 years of the epoch (well inside 2^61 seconds), and its
/// nanosecond part is below two seconds' worth (one past a second only
/// inside a leap second).
#[verifier::external_body]
pub(crate) fn clock_now() -> (r: (i64, u32))
    ensures
        -0x2000_0000_0000_0000 <= r.0 <= 0x2000_0000_0000_0000,
        r.1 < 2_000_000_000,
{
    let now = chrono::Utc::now();
    (now.timestamp(), now.timestamp_subsec_nanos())
}

} // verus!
