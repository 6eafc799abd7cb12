//! Windows time: `FILETIME` ticks and the calendar fields of a `SYSTEMTIME`.

use vstd::prelude::*;

verus! {

/// Performance-counter ticks per second; a tick is 100 ns, as in a `FILETIME`.
pub const QPC_FREQ: u64 = 10_000_000;

/// Seconds between 1601-01-01 and 1970-01-01.
pub const EPOCH_DIFF_SECS: u64 = 11_644_473_600;

/// The host clock as sampled for a call.
#[derive(Clone, Copy, Debug, PartialEq, Eq, Structural)]
pub struct HostClock {
    /// Wall-clock time as a `FILETIME`.
    pub filetime: u64,
    /// 100-ns ticks since the process started.
    pub ticks: u64,
}

/// The `FILETIME` of a Unix time: 100-ns ticks since 1601-01-01 UTC.
pub open spec fn unix_filetime(secs: int, nanos: int) -> int {
    (secs + EPOCH_DIFF_SECS) * 10_000_000 + nanos / 100
}

/// The `FILETIME` of a Unix time.
pub fn filetime_of(secs: u64, nanos: u32) -> (r: u64)
    requires
        unix_filetime(secs as int, nanos as int) <= u64::MAX,
    ensures
        r == unix_filetime(secs as int, nanos as int),
{
    (secs + EPOCH_DIFF_SECS) * 10_000_000 + nanos as u64 / 100
}

/// How far a `FILETIME` is from the Unix epoch: whether it lies before, the seconds, and the
/// nanoseconds.
pub fn unix_time(filetime: u64) -> (r: (bool, u64, u32))
    ensures
        r.0 == (filetime < unix_filetime(0, 0)),
        r.0 ==> filetime == unix_filetime(0, 0) - r.1 * 10_000_000 - r.2 as int / 100,
        !r.0 ==> filetime == unix_filetime(r.1 as int, r.2 as int),
        r.2 < 1_000_000_000,
        r.2 % 100 == 0,
{
    let epoch: u64 = EPOCH_DIFF_SECS * 10_000_000;
    if filetime < epoch {
        let d: u64 = epoch - filetime;
        (true, d / 10_000_000, (d % 10_000_000) as u32 * 100)
    } else {
        let d: u64 = filetime - epoch;
        (false, d / 10_000_000, (d % 10_000_000) as u32 * 100)
    }
}

/// A Unix time comes back from its `FILETIME`, as far as a tick tells it.
pub proof fn lemma_unix_time_round_trip(secs: int, nanos: int, s: int, n: int)
    requires
        0 <= nanos < 1_000_000_000,
        0 <= n < 1_000_000_000,
        n % 100 == 0,
        unix_filetime(s, n) == unix_filetime(secs, nanos),
    ensures
        s == secs,
        n == nanos - nanos % 100,
{
}

/// Whether a year has a 29th of February.
pub open spec fn is_leap(y: int) -> bool {
    y % 4 == 0 && (y % 100 != 0 || y % 400 == 0)
}

/// The length of a month.
pub open spec fn month_days(y: int, m: int) -> int {
    if m == 2 {
        if is_leap(y) {
            29
        } else {
            28
        }
    } else if m == 4 || m == 6 || m == 9 || m == 11 {
        30
    } else {
        31
    }
}

/// Days from 0001-01-01 to the first day of year `y`.
pub open spec fn days_before_year(y: int) -> int {
    365 * (y - 1) + (y - 1) / 4 - (y - 1) / 100 + (y - 1) / 400
}

/// Days from the first day of year `y` to the first day of its month `m`.
pub open spec fn days_before_month(y: int, m: int) -> int
    decreases m,
{
    if m <= 1 {
        0
    } else {
        days_before_month(y, m - 1) + month_days(y, m - 1)
    }
}

/// Days from 0001-01-01 to a date.
pub open spec fn day_number(y: int, m: int, d: int) -> int {
    days_before_year(y) + days_before_month(y, m) + d - 1
}

/// Days from 0001-01-01 to 1601-01-01.
pub open spec fn filetime_day_zero() -> int {
    584_388
}

/// Whether the fields of a `SYSTEMTIME` (year, month, day of week with Sunday
/// as 0, day, hour, minute, second, millisecond) are those of a `FILETIME`.
pub open spec fn is_systemtime(ft: u64, f: Seq<u16>) -> bool {
    let ms = ft as int / 10_000;
    let secs = ms / 1000;
    let day = filetime_day_zero() + secs / 86_400;
    &&& f.len() == 8
    &&& 1 <= f[1] <= 12
    &&& 1 <= f[3] <= month_days(f[0] as int, f[1] as int)
    &&& day_number(f[0] as int, f[1] as int, f[3] as int) == day
    &&& f[2] == (day + 1) % 7
    &&& f[4] == (secs % 86_400) / 3600
    &&& f[5] == (secs % 3600) / 60
    &&& f[6] == secs % 60
    &&& f[7] == ms % 1000
}

/// Whether a year has a 29th of February.
fn leap(y: u64) -> (r: bool)
    ensures
        r == is_leap(y as int),
{
    y % 4 == 0 && (y % 100 != 0 || y % 400 == 0)
}

/// The length of a month.
fn days_of_month(y: u64, m: u64) -> (r: u64)
    ensures
        r == month_days(y as int, m as int),
        28 <= r <= 31,
{
    if m == 2 {
        if leap(y) {
            29
        } else {
            28
        }
    } else if m == 4 || m == 6 || m == 9 || m == 11 {
        30
    } else {
        31
    }
}

/// A year is as long as its months.
proof fn lemma_year_len(y: int)
    ensures
        days_before_month(y, 13) == 365 + if is_leap(y) {
            1int
        } else {
            0
        },
{
    reveal_with_fuel(days_before_month, 14);
}

/// The month and day of a day of the year.
fn month_of(y: u64, day_of_year: u64) -> (r: (u64, u64))
    requires
        day_of_year < days_before_month(y as int, 13),
    ensures
        1 <= r.0 <= 12,
        1 <= r.1 <= month_days(y as int, r.0 as int),
        days_before_month(y as int, r.0 as int) + r.1 - 1 == day_of_year,
{
    let mut m: u64 = 1;
    let mut left: u64 = day_of_year;
    while left >= days_of_month(y, m)
        invariant
            1 <= m <= 12,
            days_before_month(y as int, m as int) + left == day_of_year,
            day_of_year < days_before_month(y as int, 13),
        decreases left,
    {
        left = left - days_of_month(y, m);
        m = m + 1;
        assert(days_before_month(y as int, m as int) == days_before_month(y as int, m - 1)
            + month_days(y as int, m - 1));
    }
    (m, left + 1)
}

/// The year of a day counted from 0001-01-01, and the day in that year.
fn year_of(day: u64) -> (r: (u64, u64))
    requires
        day < 0x1_0000_0000,
    ensures
        r.0 >= 1,
        days_before_year(r.0 as int) + r.1 == day,
        r.1 < days_before_month(r.0 as int, 13),
{
    let n400: u64 = day / 146_097;
    let in400: u64 = day % 146_097;
    let q100: u64 = in400 / 36_524;
    let n100: u64 = if q100 > 3 {
        3
    } else {
        q100
    };
    let in100: u64 = in400 - n100 * 36_524;
    let n4: u64 = in100 / 1461;
    let in4: u64 = in100 % 1461;
    let q1: u64 = in4 / 365;
    let n1: u64 = if q1 > 3 {
        3
    } else {
        q1
    };
    let doy: u64 = in4 - n1 * 365;
    let y: u64 = 400 * n400 + 100 * n100 + 4 * n4 + n1 + 1;
    proof {
        let p = y - 1;
        assert(n4 <= 24);
        assert(p / 4 == 100 * n400 + 25 * n100 + n4);
        assert(p / 100 == 4 * n400 + n100);
        assert(p / 400 == n400);
        lemma_year_len(y as int);
    }
    (y, doy)
}

/// The fields of a `SYSTEMTIME` for a `FILETIME`, in UTC.
pub fn systemtime_fields(filetime: u64) -> (r: [u16; 8])
    ensures
        is_systemtime(filetime, r@),
{
    let ms_all: u64 = filetime / 10_000;
    let secs: u64 = ms_all / 1000;
    let day: u64 = 584_388 + secs / 86_400;
    let (y, doy) = year_of(day);
    let (m, d) = month_of(y, doy);
    assert(y <= 65535);
    let dow: u64 = (day + 1) % 7;
    let r: [u16; 8] = [
        y as u16,
        m as u16,
        dow as u16,
        d as u16,
        ((secs % 86_400) / 3600) as u16,
        ((secs % 3600) / 60) as u16,
        (secs % 60) as u16,
        (ms_all % 1000) as u16,
    ];
    r
}

/// What a multiple adds to the count of multiples.
proof fn lemma_multiples(a: int)
    ensures
        a / 4 == (a - 1) / 4 + if a % 4 == 0 { 1int } else { 0 },
        a / 100 == (a - 1) / 100 + if a % 100 == 0 { 1int } else { 0 },
        a / 400 == (a - 1) / 400 + if a % 400 == 0 { 1int } else { 0 },
{
}

/// A year is over when the next one starts.
proof fn lemma_next_year(a: int)
    requires
        1 <= a,
    ensures
        days_before_year(a + 1) == days_before_year(a) + 365 + (if is_leap(a) {
            1int
        } else {
            0
        }),
{
    lemma_multiples(a);
    assert(a % 400 == 0 ==> a % 100 == 0);
    assert(a % 100 == 0 ==> a % 4 == 0);
}

/// Later years start later.
proof fn lemma_years_ascend(a: int, b: int)
    requires
        1 <= a < b,
    ensures
        days_before_year(a) + 365 + (if is_leap(a) {
            1int
        } else {
            0
        }) <= days_before_year(b),
    decreases b - a,
{
    if b == a + 1 {
        lemma_next_year(a);
    } else {
        lemma_years_ascend(a, b - 1);
        lemma_next_year(b - 1);
    }
}

/// Later months of a year start later.
proof fn lemma_months_ascend(y: int, a: int, b: int)
    requires
        1 <= a < b <= 13,
    ensures
        days_before_month(y, a) + month_days(y, a) <= days_before_month(y, b),
    decreases b - a,
{
    if b > a + 1 {
        lemma_months_ascend(y, a, b - 1);
    }
}

/// A day has one date: two dates with the same day number are the same.
pub proof fn lemma_date_unique(y1: int, m1: int, d1: int, y2: int, m2: int, d2: int)
    requires
        y1 >= 1,
        y2 >= 1,
        1 <= m1 <= 12,
        1 <= m2 <= 12,
        1 <= d1 <= month_days(y1, m1),
        1 <= d2 <= month_days(y2, m2),
        day_number(y1, m1, d1) == day_number(y2, m2, d2),
    ensures
        y1 == y2,
        m1 == m2,
        d1 == d2,
{
    lemma_year_len(y1);
    lemma_year_len(y2);
    lemma_months_ascend(y1, m1, 13);
    lemma_months_ascend(y2, m2, 13);
    if m1 > 1 {
        lemma_months_ascend(y1, 1, m1);
    }
    if m2 > 1 {
        lemma_months_ascend(y2, 1, m2);
    }
    if y1 < y2 {
        lemma_years_ascend(y1, y2);
    } else if y2 < y1 {
        lemma_years_ascend(y2, y1);
    } else if m1 < m2 {
        lemma_months_ascend(y1, m1, m2);
    } else if m2 < m1 {
        lemma_months_ascend(y1, m2, m1);
    }
}

/// The fields of the date of a `FILETIME`.
pub open spec fn date_of(ft: u64) -> Seq<u16> {
    choose|f: Seq<u16>| is_systemtime(ft, f)
}

/// A time has one date: the fields of a `FILETIME` are determined.
pub proof fn lemma_date_of(ft: u64, f: Seq<u16>)
    requires
        is_systemtime(ft, f),
    ensures
        f == date_of(ft),
{
    let g = date_of(ft);
    assert(is_systemtime(ft, g));
    lemma_year_nonzero(f[0] as int, f[1] as int, f[3] as int);
    lemma_year_nonzero(g[0] as int, g[1] as int, g[3] as int);
    lemma_date_unique(
        f[0] as int,
        f[1] as int,
        f[3] as int,
        g[0] as int,
        g[1] as int,
        g[3] as int,
    );
    assert(f =~= g);
}

/// A date from the year 1601 on lies in a year from 1 on.
proof fn lemma_year_nonzero(y: int, m: int, d: int)
    requires
        y >= 0,
        1 <= m <= 12,
        1 <= d <= month_days(y, m),
        day_number(y, m, d) >= filetime_day_zero(),
    ensures
        y >= 1,
{
    if y == 0 {
        lemma_months_ascend(0, m, 13);
        reveal_with_fuel(days_before_month, 14);
    }
}

} // verus!
