//! Conversions between civil (UTC) time and Julian dates.
//!
//! A Julian date is carried as a whole number of nanoseconds since Julian
//! date 0.0, so that a date such as 2451545.0 is `2451545 * NANOS_PER_DAY`.
//! Civil times are proleptic Gregorian, without leap seconds, for the years
//! `1..=MAX_YEAR`.

use vstd::prelude::*;
use vstd::arithmetic::div_mod::{
    lemma_div_denominator,
    lemma_fundamental_div_mod,
    lemma_fundamental_div_mod_converse,
};

verus! {

pub const NANOS_PER_SECOND: i128 = 1_000_000_000;

pub const SECONDS_PER_DAY: i128 = 86_400;

pub const NANOS_PER_DAY: i128 = 86_400_000_000_000;

/// The last year that a civil time of this library can fall in.
pub const MAX_YEAR: i32 = 9999;

/// Julian date of the Unix epoch, 1970-01-01T00:00:00Z (Julian date 2440587.5).
pub const UNIX_EPOCH_JULIAN: i128 = 210_866_760_000_000_000_000;

/// A civil date and time of day in UTC, with nanosecond resolution.
#[derive(Clone, Copy, Debug, PartialEq, Eq)]
pub struct CivilTime {
    /// Gregorian year, `1..=MAX_YEAR`.
    pub year: i32,
    /// Month of the year, `1..=12`.
    pub month: i32,
    /// Day of the month, from 1.
    pub day: i32,
    /// Hour after midnight, `0..=23`.
    pub hour: i32,
    /// Minute after the hour, `0..=59`.
    pub minute: i32,
    /// Second after the minute, `0..=59`.
    pub second: i32,
    /// Nanoseconds after the second, `0..NANOS_PER_SECOND`.
    pub nanosecond: i32,
}

pub open spec fn is_leap_year(y: int) -> bool {
    y % 4 == 0 && (y % 100 != 0 || y % 400 == 0)
}

/// Lengths of the months of a common year.
pub open spec fn common_month_lengths() -> Seq<int> {
    seq![31, 28, 31, 30, 31, 30, 31, 31, 30, 31, 30, 31]
}

/// Number of days in month `m` (1-based) of year `y`.
pub open spec fn days_in_month(y: int, m: int) -> int
    recommends
        1 <= m <= 12,
{
    if m == 2 && is_leap_year(y) {
        29
    } else {
        common_month_lengths()[m - 1]
    }
}

pub open spec fn days_in_year(y: int) -> int {
    if is_leap_year(y) {
        366
    } else {
        365
    }
}

/// Days of a common year that come before month `m` (1-based).
pub open spec fn days_before_month(m: int) -> int
    decreases m,
{
    if m <= 1 {
        0
    } else {
        days_before_month(m - 1) + common_month_lengths()[m - 2]
    }
}

/// Ordinal day of day `d` of month `m` in year `y`: 1 for January 1st.
pub open spec fn day_of_year(y: int, m: int, d: int) -> int {
    days_before_month(m) + d + if is_leap_year(y) && m > 2 {
        1int
    } else {
        0int
    }
}

/// Whole days part of the Julian date of January 0.0 of year `yr`, which is
/// this value plus one half: 365 days for each year before it, plus the
/// Gregorian leap days among them, counted from 1721424 for year 1.
pub open spec fn year_start_day(yr: int) -> int {
    let y = yr - 1;
    365 * y + y / 4 - y / 100 + y / 400 + 1_721_424
}

/// Julian date of January 0.0 (that is, December 31st, 0h) of year `yr`.
pub open spec fn year_start_julian(yr: int) -> int {
    year_start_day(yr) * NANOS_PER_DAY + NANOS_PER_DAY / 2
}

pub open spec fn nanos_of_day(h: int, m: int, s: int) -> int {
    (h * 3600 + m * 60 + s) * NANOS_PER_SECOND
}

/// The Julian date of a civil time.
pub open spec fn civil_julian(t: CivilTime) -> int {
    year_start_julian(t.year as int) + day_of_year(t.year as int, t.month as int, t.day as int)
        * NANOS_PER_DAY + nanos_of_day(t.hour as int, t.minute as int, t.second as int)
        + t.nanosecond
}

impl CivilTime {
    pub open spec fn wf(&self) -> bool {
        &&& 1 <= self.year <= MAX_YEAR
        &&& 1 <= self.month <= 12
        &&& 1 <= self.day <= days_in_month(self.year as int, self.month as int)
        &&& 0 <= self.hour <= 23
        &&& 0 <= self.minute <= 59
        &&& 0 <= self.second <= 59
        &&& 0 <= self.nanosecond < NANOS_PER_SECOND
    }
}

/// Number of days in month `mo` of year `yr`.
pub fn month_length(yr: i32, mo: i32) -> (r: i32)
    requires
        1 <= mo <= 12,
    ensures
        r == days_in_month(yr as int, mo as int),
{
    let lengths: [i32; 12] = [31, 28, 31, 30, 31, 30, 31, 31, 30, 31, 30, 31];
    assert(lengths@ =~= common_month_lengths().map_values(|v: int| v as i32));
    if mo == 2 && (yr % 4 == 0) && ((yr % 100 != 0) || (yr % 400 == 0)) {
        29
    } else {
        lengths[(mo - 1) as usize]
    }
}

impl CivilTime {
    /// Whether the fields name a civil time that this library handles.
    pub fn is_valid(&self) -> (r: bool)
        ensures
            r == self.wf(),
    {
        1 <= self.year && self.year <= MAX_YEAR && 1 <= self.month && self.month <= 12 && 1
            <= self.day && self.day <= month_length(self.year, self.month) && 0 <= self.hour
            && self.hour <= 23 && 0 <= self.minute && self.minute <= 59 && 0 <= self.second
            && self.second <= 59 && 0 <= self.nanosecond && self.nanosecond < 1_000_000_000
    }

    /// The civil time with these fields, if they name a valid one.
    pub fn new(
        year: i32,
        month: i32,
        day: i32,
        hour: i32,
        minute: i32,
        second: i32,
        nanosecond: i32,
    ) -> (r: Option<CivilTime>)
        ensures
            ({
                let t = CivilTime { year, month, day, hour, minute, second, nanosecond };
                &&& r.is_some() <==> t.wf()
                &&& r matches Some(c) ==> c == t
            }),
    {
        let t = CivilTime { year, month, day, hour, minute, second, nanosecond };
        if t.is_valid() {
            Some(t)
        } else {
            None
        }
    }
}

/// Nanoseconds from midnight to `h:m:s`.
pub fn fraction_of_day(h: i32, m: i32, s: i32) -> (r: i128)
    ensures
        r == nanos_of_day(h as int, m as int, s as int),
{
    ((h as i128) * 3600 + (m as i128) * 60 + (s as i128)) * NANOS_PER_SECOND
}

/// Julian date of January 0.0 of year `yr` (Meeus, Astronomical Formulae
/// for Calculators, pages 23-25).
pub fn julian_date_of_year(yr: i32) -> (r: i128)
    requires
        yr >= 1,
    ensures
        r == year_start_julian(yr as int),
{
    let y: i128 = yr as i128 - 1;
    let a: i128 = y / 100;
    let b: i128 = 2 - a + a / 4;
    let days: i128 = 1461 * y / 4 + 428 + 1_720_994 + b;
    proof {
        lemma_meeus_year_start(yr as int);
    }
    days * NANOS_PER_DAY + NANOS_PER_DAY / 2
}

/// Ordinal day of the year of the date `yr-mo-dy`: 1 for January 1st.
pub fn day_of_the_year(yr: i32, mo: i32, dy: i32) -> (r: i32)
    requires
        1 <= mo <= 12,
        dy <= i32::MAX - 366,
    ensures
        r == day_of_year(yr as int, mo as int, dy as int),
{
    let days: [u8; 12] = [31, 28, 31, 30, 31, 30, 31, 31, 30, 31, 30, 31];
    assert(forall|j: int| 0 <= j < 12 ==> days@[j] as int == #[trigger] common_month_lengths()[j]);
    assert(forall|j: int| 0 <= j < 12 ==> #[trigger] days@[j] <= 31);
    let mut day: i32 = 0;
    let n: usize = (mo - 1) as usize;
    let mut i: usize = 0;
    while i < n
        invariant
            n == mo - 1,
            n <= 11,
            i <= n,
            days@.len() == 12,
            forall|j: int| 0 <= j < 12 ==> days@[j] as int == #[trigger] common_month_lengths()[j],
            day == days_before_month(i as int + 1),
            forall|j: int| 0 <= j < 12 ==> #[trigger] days@[j] <= 31,
            0 <= day <= 31 * i,
        decreases n - i,
    {
        day += days[i] as i32;
        i += 1;
    }
    day += dy;
    if (yr % 4 == 0) && ((yr % 100 != 0) || (yr % 400 == 0)) && (mo > 2) {
        day += 1;
    }
    day
}

/// The Julian date of the civil time `t`.
pub fn julian_timestamp(t: CivilTime) -> (r: i128)
    requires
        t.wf(),
    ensures
        r == civil_julian(t),
{
    julian_date_of_year(t.year) + (day_of_the_year(t.year, t.month, t.day) as i128)
        * NANOS_PER_DAY + fraction_of_day(t.hour, t.minute, t.second) + t.nanosecond as i128
}

/// First Julian date that `julian_to_unix` takes: 0001-01-01T00:00:00Z.
pub open spec fn julian_range_start() -> int {
    year_start_julian(1) + NANOS_PER_DAY
}

/// First Julian date past the last civil time: (MAX_YEAR + 1)-01-01T00:00:00Z.
pub open spec fn julian_range_end() -> int {
    year_start_julian(MAX_YEAR + 1) + NANOS_PER_DAY
}

pub open spec fn in_calendar_range(j: int) -> bool {
    julian_range_start() <= j < julian_range_end()
}

/// Whether `julian` is a date that `julian_to_unix` takes.
pub fn is_in_calendar_range(julian: i128) -> (r: bool)
    ensures
        r == in_calendar_range(julian as int),
{
    148_731_163_200_000_000_000 <= julian && julian < 464_269_060_800_000_000_000
}

/// Whole days part of the Julian date of January 0.0 of year `yr`.
fn year_start_days(yr: i32) -> (r: i128)
    requires
        1 <= yr <= MAX_YEAR + 1,
    ensures
        r == year_start_day(yr as int),
{
    let y: i128 = yr as i128 - 1;
    365 * y + y / 4 - y / 100 + y / 400 + 1_721_424
}

/// The civil (UTC) time at the Julian date `julian`.
pub fn julian_to_unix(julian: i128) -> (r: CivilTime)
    requires
        in_calendar_range(julian as int),
    ensures
        r.wf(),
        civil_julian(r) == julian,
{
    // Nanoseconds since the midnight that starts Julian day 0.
    let x: i128 = julian - NANOS_PER_DAY / 2;
    let n: i128 = x / NANOS_PER_DAY;
    let rem: i128 = x % NANOS_PER_DAY;
    proof {
        lemma_fundamental_div_mod(x as int, NANOS_PER_DAY as int);
        assert(1_721_425 <= n <= 5_373_483) by (nonlinear_arith)
            requires
                x == 86_400_000_000_000 * n + rem,
                0 <= rem < 86_400_000_000_000,
                1_721_425 * 86_400_000_000_000 <= x < 5_373_484 * 86_400_000_000_000,
        ;
    }
    // The year: the last one that starts before day `n`.
    let mut y: i32 = ((n - 1_721_425) / 366 + 1) as i32;
    while year_start_days(y) >= n
        invariant
            1 <= y <= MAX_YEAR,
            1_721_425 <= n <= 5_373_483,
        decreases y,
    {
        y -= 1;
    }
    while year_start_days(y + 1) < n
        invariant
            1 <= y <= MAX_YEAR,
            year_start_day(y as int) < n <= 5_373_483,
        decreases MAX_YEAR - y,
    {
        y += 1;
    }
    let doy: i128 = n - year_start_days(y);
    proof {
        lemma_year_step(y as int);
    }
    // The month: the last one that starts before day `doy` of the year.
    let mut m: i32 = 1;
    while m < 12 && (day_of_the_year(y, m + 1, 0) as i128) < doy
        invariant
            1 <= m <= 12,
            day_of_year(y as int, m as int, 0) < doy <= days_in_year(y as int),
        decreases 12 - m,
    {
        m += 1;
    }
    let d: i128 = doy - day_of_the_year(y, m, 0) as i128;
    proof {
        lemma_month_step(y as int, m as int);
    }
    let sod: i128 = rem / NANOS_PER_SECOND;
    let nanos: i128 = rem % NANOS_PER_SECOND;
    let hour: i128 = sod / 3600;
    let rest: i128 = sod % 3600;
    proof {
        lemma_fundamental_div_mod(rem as int, NANOS_PER_SECOND as int);
        lemma_fundamental_div_mod(sod as int, 3600);
        lemma_fundamental_div_mod(rest as int, 60);
    }
    CivilTime {
        year: y,
        month: m,
        day: d as i32,
        hour: hour as i32,
        minute: (rest / 60) as i32,
        second: (rest % 60) as i32,
        nanosecond: nanos as i32,
    }
}

/// Each month starts where the one before it ends, and December ends the year.
proof fn lemma_month_step(y: int, m: int)
    requires
        1 <= m <= 12,
    ensures
        m < 12 ==> day_of_year(y, m + 1, 0) == day_of_year(y, m, 0) + days_in_month(y, m),
        m == 12 ==> day_of_year(y, m, 0) + days_in_month(y, m) == days_in_year(y),
{
    lemma_days_before_month_values();
    assert(common_month_lengths() =~= seq![31int, 28, 31, 30, 31, 30, 31, 31, 30, 31, 30, 31]);
}

/// The Meeus arithmetic for the start of a year gives `year_start_day`.
proof fn lemma_meeus_year_start(yr: int)
    requires
        yr >= 1,
    ensures
        ({
            let y = yr - 1;
            let a = y / 100;
            1461 * y / 4 + 428 + 1_720_994 + (2 - a + a / 4) == year_start_day(yr)
        }),
{
    let z = yr - 1;
    lemma_fundamental_div_mod(z, 4);
    lemma_fundamental_div_mod_converse(1461 * z, 4, 365 * z + z / 4, z % 4);
    lemma_div_denominator(z, 100, 4);
}

/// Counting from `z` to `z + 1` passes a multiple of `d` exactly when
/// `z + 1` is one.
proof fn lemma_div_step(z: int, d: int)
    requires
        z >= 0,
        d > 0,
    ensures
        (z + 1) / d == z / d + if (z + 1) % d == 0 {
            1int
        } else {
            0int
        },
{
    lemma_fundamental_div_mod(z, d);
    let q = z / d;
    let r = z % d;
    assert(0 <= r < d);
    assert(z + 1 == q * d + r + 1) by (nonlinear_arith)
        requires
            z == d * q + r,
    ;
    if r < d - 1 {
        lemma_fundamental_div_mod_converse(z + 1, d, q, r + 1);
    } else {
        assert(z + 1 == (q + 1) * d + 0) by (nonlinear_arith)
            requires
                z + 1 == q * d + r + 1,
                r == d - 1,
        ;
        lemma_fundamental_div_mod_converse(z + 1, d, q + 1, 0);
    }
}

proof fn lemma_divisor_chain(n: int)
    ensures
        n % 400 == 0 ==> n % 100 == 0,
        n % 100 == 0 ==> n % 4 == 0,
{
    lemma_fundamental_div_mod(n, 400);
    lemma_fundamental_div_mod(n, 100);
    if n % 400 == 0 {
        lemma_fundamental_div_mod_converse(n, 100, 4 * (n / 400), 0);
    }
    if n % 100 == 0 {
        lemma_fundamental_div_mod_converse(n, 4, 25 * (n / 100), 0);
    }
}

/// Julian dates of year starts up to `MAX_YEAR + 1` are small.
pub proof fn lemma_year_start_bound(yr: int)
    requires
        1 <= yr <= MAX_YEAR + 1,
    ensures
        0 < year_start_julian(yr) < 1_000_000_000_000_000_000_000,
{
    lemma_year_start_monotone(1, yr);
    lemma_year_start_monotone(yr, MAX_YEAR + 1);
}

/// Each year starts `days_in_year` days after the one before it.
pub proof fn lemma_year_step(yr: int)
    requires
        yr >= 1,
    ensures
        year_start_day(yr + 1) == year_start_day(yr) + days_in_year(yr),
{
    lemma_div_step(yr - 1, 4);
    lemma_div_step(yr - 1, 100);
    lemma_div_step(yr - 1, 400);
    lemma_divisor_chain(yr);
}

/// Later years start later.
pub proof fn lemma_year_start_monotone(y1: int, y2: int)
    requires
        1 <= y1 <= y2,
    ensures
        year_start_day(y1) + 365 * (y2 - y1) <= year_start_day(y2),
    decreases y2 - y1,
{
    if y1 < y2 {
        lemma_year_start_monotone(y1, y2 - 1);
        lemma_year_step(y2 - 1);
    }
}

proof fn lemma_days_before_month_values()
    ensures
        days_before_month(1) == 0,
        days_before_month(2) == 31,
        days_before_month(3) == 59,
        days_before_month(4) == 90,
        days_before_month(5) == 120,
        days_before_month(6) == 151,
        days_before_month(7) == 181,
        days_before_month(8) == 212,
        days_before_month(9) == 243,
        days_before_month(10) == 273,
        days_before_month(11) == 304,
        days_before_month(12) == 334,
{
    reveal_with_fuel(days_before_month, 12);
}

/// A valid date is one of the days of its year.
pub proof fn lemma_day_of_year_bounds(y: int, m: int, d: int)
    requires
        1 <= m <= 12,
        1 <= d <= days_in_month(y, m),
    ensures
        1 <= day_of_year(y, m, d) <= days_in_year(y),
{
    lemma_days_before_month_values();
}

/// Every valid civil time has a Julian date that `julian_to_unix` takes.
pub proof fn lemma_civil_in_range(t: CivilTime)
    requires
        t.wf(),
    ensures
        in_calendar_range(civil_julian(t)),
{
    let y = t.year as int;
    lemma_day_of_year_bounds(y, t.month as int, t.day as int);
    lemma_year_start_monotone(1, y);
    lemma_year_step(y);
    lemma_year_start_monotone(y + 1, MAX_YEAR + 1);
}

/// Two valid dates of one year with the same ordinal day are the same date.
proof fn lemma_date_unique(y: int, m1: int, d1: int, m2: int, d2: int)
    requires
        1 <= m1 <= 12,
        1 <= d1 <= days_in_month(y, m1),
        1 <= m2 <= 12,
        1 <= d2 <= days_in_month(y, m2),
        day_of_year(y, m1, d1) == day_of_year(y, m2, d2),
    ensures
        m1 == m2,
        d1 == d2,
{
    lemma_days_before_month_values();
    assert(common_month_lengths() =~= seq![31int, 28, 31, 30, 31, 30, 31, 31, 30, 31, 30, 31]);
}

/// Two valid civil times with the same Julian date are the same civil time.
pub proof fn lemma_civil_julian_injective(a: CivilTime, b: CivilTime)
    requires
        a.wf(),
        b.wf(),
        civil_julian(a) == civil_julian(b),
    ensures
        a == b,
{
    let na = year_start_day(a.year as int) + day_of_year(a.year as int, a.month as int, a.day as int);
    let nb = year_start_day(b.year as int) + day_of_year(b.year as int, b.month as int, b.day as int);
    let sa = a.hour * 3600 + a.minute * 60 + a.second;
    let sb = b.hour * 3600 + b.minute * 60 + b.second;
    let ra = sa * NANOS_PER_SECOND + a.nanosecond;
    let rb = sb * NANOS_PER_SECOND + b.nanosecond;
    assert(civil_julian(a) - NANOS_PER_DAY / 2 == na * NANOS_PER_DAY + ra);
    assert(civil_julian(b) - NANOS_PER_DAY / 2 == nb * NANOS_PER_DAY + rb);
    lemma_fundamental_div_mod_converse(civil_julian(a) - NANOS_PER_DAY / 2, NANOS_PER_DAY as int, na, ra);
    lemma_fundamental_div_mod_converse(civil_julian(b) - NANOS_PER_DAY / 2, NANOS_PER_DAY as int, nb, rb);
    lemma_fundamental_div_mod_converse(ra, NANOS_PER_SECOND as int, sa, a.nanosecond as int);
    lemma_fundamental_div_mod_converse(rb, NANOS_PER_SECOND as int, sb, b.nanosecond as int);
    lemma_fundamental_div_mod_converse(sa, 3600, a.hour as int, a.minute * 60 + a.second);
    lemma_fundamental_div_mod_converse(sb, 3600, b.hour as int, b.minute * 60 + b.second);
    lemma_fundamental_div_mod_converse(a.minute * 60 + a.second, 60, a.minute as int, a.second as int);
    lemma_fundamental_div_mod_converse(b.minute * 60 + b.second, 60, b.minute as int, b.second as int);
    lemma_day_of_year_bounds(a.year as int, a.month as int, a.day as int);
    lemma_day_of_year_bounds(b.year as int, b.month as int, b.day as int);
    if a.year < b.year {
        lemma_year_step(a.year as int);
        lemma_year_start_monotone(a.year + 1, b.year as int);
    } else if b.year < a.year {
        lemma_year_step(b.year as int);
        lemma_year_start_monotone(b.year + 1, a.year as int);
    }
    lemma_date_unique(a.year as int, a.month as int, a.day as int, b.month as int, b.day as int);
}

/// Turning a valid civil time into a Julian date and back gives it again:
/// its Julian date is one that `julian_to_unix` takes, and the only valid
/// civil time at that date is the civil time itself.
pub proof fn lemma_julian_round_trip(t: CivilTime, back: CivilTime)
    requires
        t.wf(),
        back.wf(),
        civil_julian(back) == civil_julian(t),
    ensures
        in_calendar_range(civil_julian(t)),
        back == t,
{
    lemma_civil_in_range(t);
    lemma_civil_julian_injective(back, t);
}

} // verus!
