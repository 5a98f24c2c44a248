//! Reading duration options. humantime panics on texts whose total passes
//! the largest `Duration`, so each text is first bounded from above, in
//! nanoseconds, and only texts under that limit are handed to it.
use vstd::prelude::*;
use crate::outside::{duration_of, parse_duration};
use crate::plugin::Span;
use crate::text::text_eq;

verus! {

/// One nanosecond past the largest `Duration`: `(u64::MAX + 1) * 10^9`.
pub const DURATION_LIMIT_NS: u128 = 18446744073709551616000000000;

/// Nanoseconds in a year of 365.25 days, humantime's largest unit.
pub const YEAR_NS: u128 = 31557600000000000;

/// `x`, capped at the limit.
pub open spec fn sat(x: int) -> int {
    if x < DURATION_LIMIT_NS { x } else { DURATION_LIMIT_NS as int }
}

/// Nanoseconds in one of a unit named as humantime names its units; any
/// other name (which humantime refuses) counts as a year.
pub open spec fn unit_ns(u: Seq<char>) -> int {
    if u == "nanos"@ || u == "nsec"@ || u == "ns"@ {
        1
    } else if u == "usec"@ || u == "us"@ || u == "µs"@ {
        1000
    } else if u == "millis"@ || u == "msec"@ || u == "ms"@ {
        1000000
    } else if u == "seconds"@ || u == "second"@ || u == "secs"@ || u == "sec"@ || u == "s"@ {
        1000000000
    } else if u == "minutes"@ || u == "minute"@ || u == "min"@ || u == "mins"@ || u == "m"@ {
        60000000000
    } else if u == "hours"@ || u == "hour"@ || u == "hr"@ || u == "hrs"@ || u == "h"@ {
        3600000000000
    } else if u == "days"@ || u == "day"@ || u == "d"@ {
        86400000000000
    } else if u == "weeks"@ || u == "week"@ || u == "wk"@ || u == "wks"@ || u == "w"@ {
        604800000000000
    } else if u == "months"@ || u == "month"@ || u == "M"@ {
        2630016000000000
    } else {
        YEAR_NS as int
    }
}

pub open spec fn is_unit_char(c: char) -> bool {
    ('a' <= c && c <= 'z') || ('A' <= c && c <= 'Z') || c == 'µ'
}

pub open spec fn is_digit(c: char) -> bool {
    '0' <= c && c <= '9'
}

/// Where a scan of a duration text stands: the bound of the spans read so
/// far, the integer part of the current number, whether it has a fraction,
/// the phase (0 between spans, 1 in a number, 2 in its fraction, 3 in its
/// unit) and where the unit began.
pub struct ScanState {
    pub total: int,
    pub num: int,
    pub frac: bool,
    pub phase: int,
    pub unit_start: int,
}

/// The bound of one span: its integer part in the unit, plus one unit for
/// a fraction, which is below one.
pub open spec fn span_bound(num: int, frac: bool, m: int) -> int {
    sat(sat(num * m) + if frac { m } else { 0 })
}

/// The state once the span whose unit ends at `end` is counted.
pub open spec fn close(st: ScanState, s: Seq<char>, end: int) -> int {
    sat(st.total + span_bound(st.num, st.frac, unit_ns(s.subrange(st.unit_start, end))))
}

/// The state after the first `n` characters of `s`.
pub open spec fn scan(s: Seq<char>, n: int) -> ScanState
    decreases n,
{
    if n <= 0 {
        ScanState { total: 0, num: 0, frac: false, phase: 0, unit_start: 0 }
    } else {
        let st = scan(s, n - 1);
        let c = s[n - 1];
        let i = n - 1;
        if st.phase == 0 {
            if is_digit(c) {
                ScanState { num: (c as int - '0' as int), frac: false, phase: 1, ..st }
            } else {
                st
            }
        } else if st.phase == 1 {
            if is_digit(c) {
                ScanState { num: sat(st.num * 10 + (c as int - '0' as int)), ..st }
            } else if c == '.' {
                ScanState { frac: true, phase: 2, ..st }
            } else if is_unit_char(c) {
                ScanState { phase: 3, unit_start: i, ..st }
            } else {
                st
            }
        } else if st.phase == 2 {
            if is_unit_char(c) {
                ScanState { phase: 3, unit_start: i, ..st }
            } else {
                st
            }
        } else {
            if is_unit_char(c) {
                st
            } else if is_digit(c) {
                ScanState {
                    total: close(st, s, i),
                    num: (c as int - '0' as int),
                    frac: false,
                    phase: 1,
                    unit_start: st.unit_start,
                }
            } else {
                ScanState { total: close(st, s, i), phase: 0, ..st }
            }
        }
    }
}

/// An upper bound, in nanoseconds and capped at the limit, on the duration
/// humantime reads in `s`: each span's integer part in its unit, plus one
/// unit for a fraction. For a text without fractions that humantime reads,
/// it is the duration itself.
pub open spec fn duration_bound(s: Seq<char>) -> int {
    let st = scan(s, s.len() as int);
    if st.phase == 3 {
        close(st, s, s.len() as int)
    } else {
        st.total
    }
}

/// Whether a duration option is refused: it is set, and it is past the
/// largest duration or not a duration.
pub open spec fn duration_refused(t: Seq<char>) -> bool {
    t.len() > 0 && (duration_bound(t) >= DURATION_LIMIT_NS || duration_of(t) is None)
}

fn unit_ns_of(u: &str) -> (r: u128)
    ensures
        r == unit_ns(u@),
{
    if text_eq(u, "nanos") || text_eq(u, "nsec") || text_eq(u, "ns") {
        1
    } else if text_eq(u, "usec") || text_eq(u, "us") || text_eq(u, "µs") {
        1000
    } else if text_eq(u, "millis") || text_eq(u, "msec") || text_eq(u, "ms") {
        1000000
    } else if text_eq(u, "seconds") || text_eq(u, "second") || text_eq(u, "secs") || text_eq(
        u,
        "sec",
    ) || text_eq(u, "s") {
        1000000000
    } else if text_eq(u, "minutes") || text_eq(u, "minute") || text_eq(u, "min") || text_eq(
        u,
        "mins",
    ) || text_eq(u, "m") {
        60000000000
    } else if text_eq(u, "hours") || text_eq(u, "hour") || text_eq(u, "hr") || text_eq(u, "hrs")
        || text_eq(u, "h") {
        3600000000000
    } else if text_eq(u, "days") || text_eq(u, "day") || text_eq(u, "d") {
        86400000000000
    } else if text_eq(u, "weeks") || text_eq(u, "week") || text_eq(u, "wk") || text_eq(u, "wks")
        || text_eq(u, "w") {
        604800000000000
    } else if text_eq(u, "months") || text_eq(u, "month") || text_eq(u, "M") {
        2630016000000000
    } else {
        YEAR_NS
    }
}

fn sat_add(a: u128, b: u128) -> (r: u128)
    requires
        a <= DURATION_LIMIT_NS,
        b <= DURATION_LIMIT_NS,
    ensures
        r == sat(a + b),
{
    if a + b < DURATION_LIMIT_NS {
        a + b
    } else {
        DURATION_LIMIT_NS
    }
}

fn sat_mul(a: u128, m: u128) -> (r: u128)
    requires
        a <= DURATION_LIMIT_NS,
        1 <= m <= YEAR_NS,
    ensures
        r == sat(a * m),
{
    let q = DURATION_LIMIT_NS / m;
    if a > q {
        assert(a * m > DURATION_LIMIT_NS) by (nonlinear_arith)
            requires
                a > q,
                q == DURATION_LIMIT_NS / m,
                m >= 1,
        ;
        DURATION_LIMIT_NS
    } else {
        assert(a * m <= DURATION_LIMIT_NS) by (nonlinear_arith)
            requires
                a <= q,
                q == DURATION_LIMIT_NS / m,
                m >= 1,
        ;
        let p = a * m;
        if p < DURATION_LIMIT_NS {
            p
        } else {
            DURATION_LIMIT_NS
        }
    }
}

fn close_of(s: &str, total: u128, num: u128, frac: bool, unit_start: usize, end: usize) -> (r: u128)
    requires
        total <= DURATION_LIMIT_NS,
        num <= DURATION_LIMIT_NS,
        unit_start <= end <= s@.len(),
    ensures
        r == close(
            ScanState { total: total as int, num: num as int, frac, phase: 3, unit_start: unit_start as int },
            s@,
            end as int,
        ),
{
    let unit = s.substring_char(unit_start, end);
    let m = unit_ns_of(unit);
    let part = sat_mul(num, m);
    let span = sat_add(part, if frac { m } else { 0 });
    sat_add(total, span)
}

/// The bound humantime's reading of `s` stays under.
pub fn duration_bound_of(s: &str) -> (r: u128)
    ensures
        r == duration_bound(s@),
{
    let n = s.unicode_len();
    let mut total: u128 = 0;
    let mut num: u128 = 0;
    let mut frac = false;
    let mut phase: u8 = 0;
    let mut unit_start: usize = 0;
    let mut i: usize = 0;
    while i < n
        invariant
            i <= n,
            n == s@.len(),
            total <= DURATION_LIMIT_NS,
            num <= DURATION_LIMIT_NS,
            phase <= 3,
            unit_start <= i,
            scan(s@, i as int) == (ScanState {
                total: total as int,
                num: num as int,
                frac,
                phase: phase as int,
                unit_start: unit_start as int,
            }),
        decreases n - i,
    {
        let c = s.get_char(i);
        let digit = '0' <= c && c <= '9';
        let unit_char = ('a' <= c && c <= 'z') || ('A' <= c && c <= 'Z') || c == 'µ';
        if phase == 0 {
            if digit {
                num = (c as u32 - '0' as u32) as u128;
                frac = false;
                phase = 1;
            }
        } else if phase == 1 {
            if digit {
                num = sat_add(sat_mul(num, 10), (c as u32 - '0' as u32) as u128);
            } else if c == '.' {
                frac = true;
                phase = 2;
            } else if unit_char {
                phase = 3;
                unit_start = i;
            }
        } else if phase == 2 {
            if unit_char {
                phase = 3;
                unit_start = i;
            }
        } else {
            if !unit_char {
                total = close_of(s, total, num, frac, unit_start, i);
                if digit {
                    num = (c as u32 - '0' as u32) as u128;
                    frac = false;
                    phase = 1;
                } else {
                    phase = 0;
                }
            }
        }
        i += 1;
    }
    if phase == 3 {
        close_of(s, total, num, frac, unit_start, n)
    } else {
        total
    }
}

/// Reads a duration text; texts past the largest duration are refused
/// before humantime sees them.
pub fn read_duration(t: &str) -> (r: Result<Span, String>)
    ensures
        r is Ok <==> duration_bound(t@) < DURATION_LIMIT_NS && duration_of(t@) is Some,
        r matches Ok(d) ==> (d.secs, d.nanos) == duration_of(t@)->0,
        duration_bound(t@) >= DURATION_LIMIT_NS ==> (r matches Err(e) && e@
            == "Duration is too long"@),
{
    if duration_bound_of(t) >= DURATION_LIMIT_NS {
        return Err(String::from_str("Duration is too long"));
    }
    parse_duration(t)
}

} // verus!
