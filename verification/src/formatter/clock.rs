//! Calendar arithmetic and timestamp rendering.
//!
//! Timestamps are taken as seconds and milliseconds since the Unix epoch and
//! rendered in the proleptic Gregorian calendar, UTC.

use vstd::prelude::*;

use crate::text::{
    decimal, digits_value, lemma_decimal_digits, lemma_padded_value, pow10, push_char, push_padded,
    zero_pad,
};

verus! {

// ─── Calendar model ───────────────────────────────────────────────────────

/// Gregorian leap years.
pub open spec fn is_leap(y: int) -> bool {
    y % 4 == 0 && (y % 100 != 0 || y % 400 == 0)
}

/// Number of days of month `m` (1–12) in year `y`.
pub open spec fn days_in_month(y: int, m: int) -> int {
    if m == 2 {
        if is_leap(y) {
            29
        } else {
            28
        }
    } else if m == 4 || m == 6 || m == 9 || m == 11 {
        30
    } else {
        31
    }
}

/// Days of year `y` before the first day of month `m` (1–12).
pub open spec fn days_before_month(y: int, m: int) -> int {
    let base: int = if m == 1 {
        0
    } else if m == 2 {
        31
    } else if m == 3 {
        59
    } else if m == 4 {
        90
    } else if m == 5 {
        120
    } else if m == 6 {
        151
    } else if m == 7 {
        181
    } else if m == 8 {
        212
    } else if m == 9 {
        243
    } else if m == 10 {
        273
    } else if m == 11 {
        304
    } else {
        334
    };
    if m > 2 && is_leap(y) {
        base + 1
    } else {
        base
    }
}

/// Number of leap years among the years `1 ..= y - 1` (for `y >= 1`).
pub open spec fn leaps_before(y: int) -> int {
    (y - 1) / 4 - (y - 1) / 100 + (y - 1) / 400
}

/// Days from 1970-01-01 to the date `y-m-d`.
pub open spec fn day_number(y: int, m: int, d: int) -> int {
    365 * (y - 1970) + leaps_before(y) - leaps_before(1970) + days_before_month(y, m) + d - 1
}

/// `y-m-d` is a date of the calendar (from year 1 on).
pub open spec fn valid_date(y: int, m: int, d: int) -> bool {
    &&& y >= 1
    &&& 1 <= m <= 12
    &&& 1 <= d <= days_in_month(y, m)
}

// ─── Facts about the conversion ───────────────────────────────────────────

/// Within a 400-year era, the day `doe` lies in year-of-era `yoe` (years
/// starting on the 1st of March), on day `doy` of that year; the 366th day
/// only exists when the following January's year is a leap year.
proof fn lemma_era_day(doe: u32)
    requires
        doe <= 146096,
    ensures
        ({
            let yoe = (doe - doe / 1460 + doe / 36524 - doe / 146096) / 365;
            &&& yoe <= 399
            &&& 365 * yoe + yoe / 4 - yoe / 100 <= doe
            &&& doe - (365 * yoe + yoe / 4 - yoe / 100) <= 365
            &&& doe - (365 * yoe + yoe / 4 - yoe / 100) == 365 ==> ((yoe + 1) % 4 == 0 && ((yoe
                + 1) % 100 != 0 || yoe == 399))
        }),
{
    assert({
        let yoe = (doe - doe / 1460 + doe / 36524 - doe / 146096) / 365;
        &&& yoe <= 399
        &&& 365 * yoe + yoe / 4 - yoe / 100 <= doe
        &&& doe - (365 * yoe + yoe / 4 - yoe / 100) <= 365
        &&& doe - (365 * yoe + yoe / 4 - yoe / 100) == 365 ==> ((yoe + 1) % 4 == 0 && ((yoe + 1)
            % 100 != 0 || yoe == 399))
    }) by (bit_vector)
        requires
            doe <= 146096,
    ;
}

/// Days since 1 March before the first day of March-based month `mp`
/// (0 = March … 11 = February).
pub open spec fn march_offset(mp: int) -> int {
    if mp == 0 {
        0
    } else if mp == 1 {
        31
    } else if mp == 2 {
        61
    } else if mp == 3 {
        92
    } else if mp == 4 {
        122
    } else if mp == 5 {
        153
    } else if mp == 6 {
        184
    } else if mp == 7 {
        214
    } else if mp == 8 {
        245
    } else if mp == 9 {
        275
    } else if mp == 10 {
        306
    } else {
        337
    }
}

/// The month of a day of a March-based year, and its day within the month.
proof fn lemma_year_day(doy: u32)
    requires
        doy <= 365,
    ensures
        ({
            let mp = (5 * doy + 2) / 153;
            let d = doy - (153 * mp + 2) / 5 + 1;
            &&& mp <= 11
            &&& (153 * mp + 2) / 5 == march_offset(mp as int)
            &&& 1 <= d
            &&& (mp == 1 || mp == 3 || mp == 6 || mp == 8) ==> d <= 30
            &&& mp == 11 ==> d <= 29
            &&& d <= 31
        }),
{
    assert({
        let mp = (5 * doy + 2) / 153;
        let d = doy - (153 * mp + 2) / 5 + 1;
        &&& mp <= 11
        &&& (mp == 0 ==> (153 * mp + 2) / 5 == 0)
        &&& (mp == 1 ==> (153 * mp + 2) / 5 == 31)
        &&& (mp == 2 ==> (153 * mp + 2) / 5 == 61)
        &&& (mp == 3 ==> (153 * mp + 2) / 5 == 92)
        &&& (mp == 4 ==> (153 * mp + 2) / 5 == 122)
        &&& (mp == 5 ==> (153 * mp + 2) / 5 == 153)
        &&& (mp == 6 ==> (153 * mp + 2) / 5 == 184)
        &&& (mp == 7 ==> (153 * mp + 2) / 5 == 214)
        &&& (mp == 8 ==> (153 * mp + 2) / 5 == 245)
        &&& (mp == 9 ==> (153 * mp + 2) / 5 == 275)
        &&& (mp == 10 ==> (153 * mp + 2) / 5 == 306)
        &&& (mp == 11 ==> (153 * mp + 2) / 5 == 337)
        &&& 1 <= d
        &&& (mp == 1 || mp == 3 || mp == 6 || mp == 8) ==> d <= 30
        &&& mp == 11 ==> d <= 29
        &&& d <= 31
    }) by (bit_vector)
        requires
            doy <= 365,
    ;
}

/// Splitting a year count by the 400-year cycle.
proof fn lemma_leaps_in_era(era: int, yoe: int)
    requires
        era >= 0,
        0 <= yoe < 400,
    ensures
        (400 * era + yoe) / 4 == 100 * era + yoe / 4,
        (400 * era + yoe) / 100 == 4 * era + yoe / 100,
        (400 * era + yoe) / 400 == era,
{
    assert((400 * era + yoe) / 4 == 100 * era + yoe / 4) by (nonlinear_arith)
        requires
            era >= 0,
            0 <= yoe < 400,
    ;
    assert((400 * era + yoe) / 100 == 4 * era + yoe / 100) by (nonlinear_arith)
        requires
            era >= 0,
            0 <= yoe < 400,
    ;
    assert((400 * era + yoe) / 400 == era) by (nonlinear_arith)
        requires
            era >= 0,
            0 <= yoe < 400,
    ;
}

/// Day number of a date from March to December of the era's year `yoe`.
proof fn lemma_day_number_march_to_december(era: int, yoe: int, mp: int, d: int)
    requires
        era >= 0,
        0 <= yoe <= 399,
        0 <= mp <= 9,
    ensures
        day_number(400 * era + yoe, mp + 3, d) == 146097 * era + 365 * yoe + yoe / 4 - yoe / 100
            + march_offset(mp) + d - 1 - 719468,
{
    let n = 400 * era + yoe;
    lemma_leaps_in_era(era, yoe);
    lemma_leaps_step(n);
    assert(leaps_before(1970) == 477);
    assert(leaps_before(n + 1) == 97 * era + yoe / 4 - yoe / 100);
    assert(days_before_month(n, mp + 3) == 59 + march_offset(mp) + if is_leap(n) {
        1int
    } else {
        0
    });
}

/// Day number of a date in January or February of the year after the era's
/// year `yoe`.
proof fn lemma_day_number_january_february(era: int, yoe: int, mp: int, d: int)
    requires
        era >= 0,
        0 <= yoe <= 399,
        10 <= mp <= 11,
    ensures
        day_number(400 * era + yoe + 1, mp - 9, d) == 146097 * era + 365 * yoe + yoe / 4 - yoe
            / 100 + march_offset(mp) + d - 1 - 719468,
{
    lemma_leaps_in_era(era, yoe);
    assert(leaps_before(1970) == 477);
    assert(leaps_before(400 * era + yoe + 1) == 97 * era + yoe / 4 - yoe / 100);
    assert(days_before_month(400 * era + yoe + 1, mp - 9) == march_offset(mp) - 306);
}

/// The conversion steps from a day count to a date land on that date.
#[verifier::spinoff_prover]
#[verifier::rlimit(40)]
proof fn lemma_civil_from_days(
    days: int,
    era: int,
    doe: int,
    yoe: int,
    doy: int,
    mp: int,
    d: int,
    m: int,
    y: int,
)
    requires
        days >= 0,
        era == (days + 719468) / 146097,
        doe == (days + 719468) % 146097,
        yoe == (doe - doe / 1460 + doe / 36524 - doe / 146096) / 365,
        doy == doe - (365 * yoe + yoe / 4 - yoe / 100),
        mp == (5 * doy + 2) / 153,
        d == doy - (153 * mp + 2) / 5 + 1,
        m == if mp < 10 {
            mp + 3
        } else {
            mp - 9
        },
        y == if m <= 2 {
            yoe + era * 400 + 1
        } else {
            yoe + era * 400
        },
    ensures
        valid_date(y, m, d),
        day_number(y, m, d) == days,
{
    assert(days + 719468 == 146097 * era + doe);
    lemma_era_day(doe as u32);
    lemma_year_day(doy as u32);
    assert(doy == march_offset(mp) + d - 1);
    if mp < 10 {
        lemma_day_number_march_to_december(era, yoe, mp, d);
    } else {
        lemma_day_number_january_february(era, yoe, mp, d);
        if mp == 11 {
            let n = 400 * era + yoe + 1;
            assert(is_leap(n) == ((yoe + 1) % 4 == 0 && ((yoe + 1) % 100 != 0 || yoe == 399))) by {
                assert(n % 4 == (yoe + 1) % 4);
                assert(n % 100 == (yoe + 1) % 100);
                assert(n % 400 == (yoe + 1) % 400);
            }
        }
    }
}

/// The leap-year count grows by one exactly past each leap year.
#[verifier::spinoff_prover]
proof fn lemma_leaps_step(y: int)
    requires
        y >= 0,
    ensures
        leaps_before(y + 1) == leaps_before(y) + if is_leap(y) {
            1int
        } else {
            0
        },
{
    assert(y / 4 - (y - 1) / 4 == if y % 4 == 0 {
        1int
    } else {
        0
    });
    assert(y / 100 - (y - 1) / 100 == if y % 100 == 0 {
        1int
    } else {
        0
    });
    assert(y / 400 - (y - 1) / 400 == if y % 400 == 0 {
        1int
    } else {
        0
    });
}

/// Converts days since Unix epoch to (year, month, day).
pub fn days_to_date(days_since_epoch: u64) -> (r: (u64, u64, u64))
    requires
        days_since_epoch <= u64::MAX - 719468,
    ensures
        valid_date(r.0 as int, r.1 as int, r.2 as int),
        day_number(r.0 as int, r.1 as int, r.2 as int) == days_since_epoch,
{
    let z = days_since_epoch + 719468;
    let era = z / 146097;
    let doe = z % 146097;
    proof {
        lemma_era_day(doe as u32);
        assert(era * 400 <= z) by (nonlinear_arith)
            requires
                era == z / 146097,
                z >= 0,
        ;
    }
    let yoe = (doe - doe / 1460 + doe / 36524 - doe / 146096) / 365;
    let doy = doe - (365 * yoe + yoe / 4 - yoe / 100);
    proof {
        lemma_year_day(doy as u32);
    }
    let y = yoe + era * 400;
    let mp = (5 * doy + 2) / 153;
    let d = doy - (153 * mp + 2) / 5 + 1;
    let m = if mp < 10 {
        mp + 3
    } else {
        mp - 9
    };
    let y = if m <= 2 {
        y + 1
    } else {
        y
    };
    proof {
        lemma_civil_from_days(
            days_since_epoch as int,
            era as int,
            doe as int,
            yoe as int,
            doy as int,
            mp as int,
            d as int,
            m as int,
            y as int,
        );
    }
    (y, m, d)
}

// ─── Laws ─────────────────────────────────────────────────────────────────

/// Distinct dates have distinct day numbers: a day number names one date.
pub proof fn law_day_number_injective(y1: int, m1: int, d1: int, y2: int, m2: int, d2: int)
    requires
        valid_date(y1, m1, d1),
        valid_date(y2, m2, d2),
        day_number(y1, m1, d1) == day_number(y2, m2, d2),
    ensures
        y1 == y2 && m1 == m2 && d1 == d2,
{
    lemma_year_bounds(y1, m1, d1);
    lemma_year_bounds(y2, m2, d2);
    if y1 < y2 {
        lemma_year_start_monotone(y1 + 1, y2);
    } else if y2 < y1 {
        lemma_year_start_monotone(y2 + 1, y1);
    }
    assert(y1 == y2);
}

/// Day number of the first of January of year `y`.
pub open spec fn year_start(y: int) -> int {
    day_number(y, 1, 1)
}

/// A valid date lies within its year: between its first of January and the
/// first of January of the following year.
proof fn lemma_year_bounds(y: int, m: int, d: int)
    requires
        valid_date(y, m, d),
    ensures
        year_start(y) <= day_number(y, m, d) < year_start(y + 1),
{
    assert(leaps_before(y + 1) - leaps_before(y) == if is_leap(y) {
        1int
    } else {
        0
    }) by {
        assert(y / 4 - (y - 1) / 4 == if y % 4 == 0 {
            1int
        } else {
            0
        });
        assert(y / 100 - (y - 1) / 100 == if y % 100 == 0 {
            1int
        } else {
            0
        });
        assert(y / 400 - (y - 1) / 400 == if y % 400 == 0 {
            1int
        } else {
            0
        });
    }
}

/// Years start later than earlier years end.
proof fn lemma_year_start_monotone(a: int, b: int)
    requires
        1 <= a <= b,
    ensures
        year_start(a) <= year_start(b),
    decreases b - a,
{
    if a < b {
        lemma_year_start_monotone(a + 1, b);
        assert(leaps_before(a + 1) >= leaps_before(a)) by {
            assert(a / 4 >= (a - 1) / 4);
            assert(a / 400 >= (a - 1) / 400);
            assert(a / 100 - (a - 1) / 100 <= a / 4 - (a - 1) / 4);
        }
    }
}

// ─── Rendering ────────────────────────────────────────────────────────────

/// The parts of a timestamp: date, time of day and milliseconds.
pub open spec fn time_parts(secs: u64) -> (int, int, int) {
    let t = (secs % 86400) as int;
    (t / 3600, (t % 3600) / 60, t % 60)
}

/// `YYYY-MM-DD` for the given date.
pub open spec fn render_date(date: (u64, u64, u64)) -> Seq<char> {
    zero_pad(decimal(date.0 as nat), 4) + seq!['-'] + zero_pad(decimal(date.1 as nat), 2) + seq!['-']
        + zero_pad(decimal(date.2 as nat), 2)
}

/// `hh:mm:ss.mmm` for the given time of day and milliseconds.
pub open spec fn render_time(time: (int, int, int), millis: u32) -> Seq<char> {
    zero_pad(decimal(time.0 as nat), 2) + seq![':'] + zero_pad(decimal(time.1 as nat), 2) + seq![':']
        + zero_pad(decimal(time.2 as nat), 2) + seq!['.'] + zero_pad(decimal(millis as nat), 3)
}

/// `YYYY-MM-DD<sep>hh:mm:ss.mmm` for the given date, time and milliseconds.
pub open spec fn render_timestamp(
    date: (u64, u64, u64),
    time: (int, int, int),
    millis: u32,
    sep: char,
) -> Seq<char> {
    render_date(date) + seq![sep] + render_time(time, millis)
}

/// The calendar date of `secs` seconds after the epoch.
pub open spec fn date_of(secs: u64, date: (u64, u64, u64)) -> bool {
    &&& valid_date(date.0 as int, date.1 as int, date.2 as int)
    &&& day_number(date.0 as int, date.1 as int, date.2 as int) == secs / 86400
}

fn push_date(s: &mut String, year: u64, month: u64, day: u64)
    ensures
        final(s)@ == old(s)@ + render_date((year, month, day)),
{
    let ghost start = s@;
    push_padded(s, year, 4);
    push_char(s, '-');
    push_padded(s, month, 2);
    push_char(s, '-');
    push_padded(s, day, 2);
    assert(s@ =~= start + render_date((year, month, day)));
}

fn push_time(s: &mut String, hours: u64, minutes: u64, seconds: u64, millis: u32)
    ensures
        final(s)@ == old(s)@ + render_time((hours as int, minutes as int, seconds as int), millis),
{
    let ghost start = s@;
    push_padded(s, hours, 2);
    push_char(s, ':');
    push_padded(s, minutes, 2);
    push_char(s, ':');
    push_padded(s, seconds, 2);
    push_char(s, '.');
    push_padded(s, millis as u64, 3);
    assert(s@ =~= start + render_time((hours as int, minutes as int, seconds as int), millis));
}

/// Appends `YYYY-MM-DD<sep>hh:mm:ss.mmm` for `secs` seconds and `millis`
/// milliseconds after the epoch, and returns the date it used.
pub fn push_timestamp(s: &mut String, secs: u64, millis: u32, sep: char) -> (date: (u64, u64, u64))
    ensures
        date_of(secs, date),
        final(s)@ == old(s)@ + render_timestamp(date, time_parts(secs), millis, sep),
{
    let days = secs / 86400;
    let time_secs = secs % 86400;
    let hours = time_secs / 3600;
    let minutes = (time_secs % 3600) / 60;
    let seconds = time_secs % 60;
    let date = days_to_date(days);
    let ghost start = s@;
    push_date(s, date.0, date.1, date.2);
    push_char(s, sep);
    push_time(s, hours, minutes, seconds, millis);
    assert(time_parts(secs) == (hours as int, minutes as int, seconds as int));
    assert(s@ =~= start + render_timestamp(date, time_parts(secs), millis, sep));
    date
}

/// Seconds and milliseconds since the Unix epoch, read from the system
/// clock (`SystemTime::now().duration_since(UNIX_EPOCH)`, zero when the
/// clock is before the epoch). The value depends on the time of the call;
/// the milliseconds are below 1000.
#[verifier::external_body]
pub(crate) fn now_since_epoch() -> (r: (u64, u32))
    ensures
        r.1 < 1000,
{
    let d = std::time::SystemTime::now().duration_since(std::time::UNIX_EPOCH).unwrap_or_default();
    (d.as_secs(), d.subsec_millis())
}

/// `secs` seconds and `millis` milliseconds after the epoch is a reading
/// the system clock gives (a possible result of `now_since_epoch`).
pub closed spec fn clock_reading(secs: u64, millis: u32) -> bool {
    call_ensures(now_since_epoch, (), (secs, millis))
}

/// Reads the system clock: seconds and milliseconds since the epoch.
pub fn read_clock() -> (r: (u64, u32))
    ensures
        clock_reading(r.0, r.1),
        r.1 < 1000,
{
    now_since_epoch()
}

// ─── Reading timestamps back ──────────────────────────────────────────────

/// The seconds and milliseconds since the epoch that the timestamp
/// `YYYY-MM-DD?hh:mm:ss.mmm` at the start of `t` writes.
pub open spec fn read_timestamp(t: Seq<char>) -> (int, int) {
    let y = digits_value(t.subrange(0, 4));
    let mo = digits_value(t.subrange(5, 7));
    let d = digits_value(t.subrange(8, 10));
    let h = digits_value(t.subrange(11, 13));
    let mi = digits_value(t.subrange(14, 16));
    let se = digits_value(t.subrange(17, 19));
    (day_number(y, mo, d) * 86400 + h * 3600 + mi * 60 + se, digits_value(t.subrange(20, 23)))
}

/// A character of a rendered timestamp: a digit or one of its separators.
pub open spec fn timestamp_char(c: char, sep: char) -> bool {
    ('0' <= c && c <= '9') || c == '-' || c == ':' || c == '.' || c == sep
}

/// Zero-padded decimals are made of digits.
proof fn lemma_padded_digits(n: nat, width: nat)
    ensures
        forall|i: int|
            0 <= i < zero_pad(decimal(n), width).len() ==> '0' <= #[trigger] zero_pad(decimal(n), width)[i]
                <= '9',
{
    lemma_decimal_digits(n);
    let d = decimal(n);
    if d.len() < width {
        let z = Seq::new((width - d.len()) as nat, |i: int| '0');
        assert forall|i: int| 0 <= i < (z + d).len() implies '0' <= #[trigger] (z + d)[i] <= '9' by {
            if i >= z.len() {
                assert((z + d)[i] == d[i - z.len()]);
            }
        }
    }
}

/// The year of a reading below 253402300800 seconds (the end of year 9999)
/// has four digits.
proof fn lemma_four_digit_year(secs: u64, date: (u64, u64, u64))
    requires
        date_of(secs, date),
        secs < 253402300800,
    ensures
        date.0 < 10000,
{
    if date.0 >= 10000 {
        lemma_year_bounds(date.0 as int, date.1 as int, date.2 as int);
        lemma_year_start_monotone(10000, date.0 as int);
        assert(year_start(10000) == 2932897);
    }
}

/// A timestamp rendered for a reading before the end of year 9999 takes 23
/// characters, is made of digits and its separators, and reads back as the
/// reading: the seconds and the milliseconds it was rendered from.
pub proof fn law_timestamp_reads_back(secs: u64, millis: u32, date: (u64, u64, u64), sep: char)
    requires
        date_of(secs, date),
        millis < 1000,
        secs < 253402300800,
    ensures
        render_timestamp(date, time_parts(secs), millis, sep).len() == 23,
        read_timestamp(render_timestamp(date, time_parts(secs), millis, sep)) == (secs as int, millis as int),
        forall|i: int|
            0 <= i < 23 ==> timestamp_char(
                #[trigger] render_timestamp(date, time_parts(secs), millis, sep)[i],
                sep,
            ),
{
    lemma_four_digit_year(secs, date);
    reveal_with_fuel(pow10, 5);
    let (y, mo, d) = date;
    let tp = time_parts(secs);
    let t = (secs % 86400) as int;
    assert(0 <= tp.0 < 24 && 0 <= tp.1 < 60 && 0 <= tp.2 < 60);
    let ys = zero_pad(decimal(y as nat), 4);
    let ms = zero_pad(decimal(mo as nat), 2);
    let ds = zero_pad(decimal(d as nat), 2);
    let hs = zero_pad(decimal(tp.0 as nat), 2);
    let mis = zero_pad(decimal(tp.1 as nat), 2);
    let ss = zero_pad(decimal(tp.2 as nat), 2);
    let mls = zero_pad(decimal(millis as nat), 3);
    lemma_padded_value(y as nat, 4);
    lemma_padded_value(mo as nat, 2);
    lemma_padded_value(d as nat, 2);
    lemma_padded_value(tp.0 as nat, 2);
    lemma_padded_value(tp.1 as nat, 2);
    lemma_padded_value(tp.2 as nat, 2);
    lemma_padded_value(millis as nat, 3);
    lemma_padded_digits(y as nat, 4);
    lemma_padded_digits(mo as nat, 2);
    lemma_padded_digits(d as nat, 2);
    lemma_padded_digits(tp.0 as nat, 2);
    lemma_padded_digits(tp.1 as nat, 2);
    lemma_padded_digits(tp.2 as nat, 2);
    lemma_padded_digits(millis as nat, 3);
    let r = render_timestamp(date, tp, millis, sep);
    assert(r =~= ys + seq!['-'] + ms + seq!['-'] + ds + seq![sep] + hs + seq![':'] + mis + seq![':'] + ss
        + seq!['.'] + mls);
    assert(r.subrange(0, 4) =~= ys);
    assert(r.subrange(5, 7) =~= ms);
    assert(r.subrange(8, 10) =~= ds);
    assert(r.subrange(11, 13) =~= hs);
    assert(r.subrange(14, 16) =~= mis);
    assert(r.subrange(17, 19) =~= ss);
    assert(r.subrange(20, 23) =~= mls);
    assert(tp.0 * 3600 + tp.1 * 60 + tp.2 == t);
    assert(secs as int == (secs / 86400) * 86400 + t);
    assert forall|i: int| 0 <= i < 23 implies timestamp_char(#[trigger] r[i], sep) by {
        if i < 4 {
            assert(r[i] == ys[i]);
        } else if 5 <= i < 7 {
            assert(r[i] == ms[i - 5]);
        } else if 8 <= i < 10 {
            assert(r[i] == ds[i - 8]);
        } else if 11 <= i < 13 {
            assert(r[i] == hs[i - 11]);
        } else if 14 <= i < 16 {
            assert(r[i] == mis[i - 14]);
        } else if 17 <= i < 19 {
            assert(r[i] == ss[i - 17]);
        } else if 20 <= i {
            assert(r[i] == mls[i - 20]);
        }
    }
}

} // verus!
