use vstd::prelude::*;
use chrono::Datelike;
use crate::numbers::{digit_char, decimal_digits};

verus! {

/// Day number (days from the common era, January 1 of year 1 being day 1) of
/// the earliest date `chrono::NaiveDate` holds, January 1 of year -262143.
pub const MIN_DAY: i32 = -95746129;

/// Day number of the latest date `chrono::NaiveDate` holds, December 31 of
/// year 262142.
pub const MAX_DAY: i32 = 95745399;

/// The day number denotes a date that `chrono::NaiveDate` can hold.
pub open spec fn day_in_range(n: int) -> bool {
    MIN_DAY <= n <= MAX_DAY
}

/// Proleptic Gregorian leap year.
pub open spec fn is_leap_year(y: int) -> bool {
    y % 4 == 0 && (y % 100 != 0 || y % 400 == 0)
}

/// Number of days in month `m` of year `y`.
pub open spec fn days_in_month(y: int, m: int) -> int {
    if m == 2 {
        if is_leap_year(y) { 29 } else { 28 }
    } else if m == 4 || m == 6 || m == 9 || m == 11 {
        30
    } else {
        31
    }
}

/// `(y, m, d)` names a calendar day within chrono's year range.
pub open spec fn valid_ymd(y: int, m: int, d: int) -> bool {
    &&& -262143 <= y <= 262142
    &&& 1 <= m <= 12
    &&& 1 <= d <= days_in_month(y, m)
}

/// Days of the (proleptic Gregorian) years before year `y`, counted from
/// January 1 of year 1; negative for the years before it.
pub open spec fn days_before_year(y: int) -> int {
    365 * (y - 1) + (y - 1) / 4 - (y - 1) / 100 + (y - 1) / 400
}

/// Days of the months of year `y` before month `m`.
pub open spec fn days_before_month(y: int, m: int) -> int {
    let common: int = if m <= 1 { 0 } else if m == 2 { 31 } else if m == 3 { 59 } else if m == 4 { 90 }
        else if m == 5 { 120 } else if m == 6 { 151 } else if m == 7 { 181 } else if m == 8 { 212 }
        else if m == 9 { 243 } else if m == 10 { 273 } else if m == 11 { 304 } else { 334 };
    common + if m > 2 && is_leap_year(y) { 1int } else { 0int }
}

/// Day number of a valid calendar date, as `chrono::Datelike::num_days_from_ce`
/// computes it: January 1 of year 1 is day 1, December 31 of year 0 is day 0.
pub closed spec fn ymd_day_number(y: int, m: int, d: int) -> int {
    days_before_year(y) + days_before_month(y, m) + d
}

/// The two decimal digits of `n` (`0 <= n < 100`), as chrono writes `%m` and `%d`.
pub open spec fn two_digits(n: int) -> Seq<char> {
    seq![digit_char(n / 10), digit_char(n % 10)]
}

/// The four decimal digits of `n` (`0 <= n < 10000`).
pub open spec fn four_digits(n: int) -> Seq<char> {
    seq![digit_char(n / 1000), digit_char((n / 100) % 10), digit_char((n / 10) % 10), digit_char(n % 10)]
}

/// A year as chrono writes `%Y`: four digits for years 0 to 9999, otherwise
/// a sign and at least four digits.
pub open spec fn year_text(y: int) -> Seq<char> {
    if 0 <= y <= 9999 {
        four_digits(y)
    } else if y > 9999 {
        seq!['+'] + decimal_digits(y as nat)
    } else if -y <= 9999 {
        seq!['-'] + four_digits(-y)
    } else {
        seq!['-'] + decimal_digits((-y) as nat)
    }
}

/// `YYYY-MM-DD` rendering of a day, as chrono's `format("%Y-%m-%d")` prints it.
pub closed spec fn iso_date_text(n: int) -> Seq<char> {
    let (y, m, d) = date_of_day(n);
    year_text(y) + seq!['-'] + two_digits(m) + seq!['-'] + two_digits(d)
}

/// The day that `chrono::NaiveDate::parse_from_str(s, "%Y-%m-%d")` reads
/// from `s`, or `None` where it reports an error.
pub uninterp spec fn iso_date_parse(s: Seq<char>) -> Option<int>;

/// Day of the week of a day (Monday is 0, Sunday is 6), as chrono's
/// `weekday().num_days_from_monday()` gives it: day 1 (January 1 of year 1)
/// is a Monday.
pub closed spec fn weekday_of(n: int) -> int {
    (n - 1) % 7
}

/// Day number of a calendar date, through `chrono::NaiveDate::from_ymd_opt`:
/// `Some` exactly for valid dates (month 1 to 12, a day that exists in that
/// month, year within chrono's range), and then a day in range.
#[verifier::external_body]
pub(crate) fn day_from_ymd(y: i32, m: u32, d: u32) -> (r: Option<i32>)
    ensures
        r is Some <==> valid_ymd(y as int, m as int, d as int),
        r matches Some(n) ==> n == ymd_day_number(y as int, m as int, d as int) && day_in_range(n as int),
{
    match chrono::NaiveDate::from_ymd_opt(y, m, d) {
        Some(date) => Some(date.num_days_from_ce()),
        None => None,
    }
}

/// `chrono::NaiveDate::checked_add_signed` by a whole number of days: the
/// day `k` days later, or `None` when that day is out of chrono's range.
#[verifier::external_body]
pub(crate) fn add_days(n: i32, k: i64) -> (r: Option<i32>)
    requires
        day_in_range(n as int),
        -1_000_000_000 <= k <= 1_000_000_000,
    ensures
        r == (if day_in_range(n + k) { Some((n + k) as i32) } else { None::<i32> }),
{
    match chrono::NaiveDate::from_num_days_from_ce_opt(n) {
        Some(date) => match date.checked_add_signed(chrono::TimeDelta::days(k)) {
            Some(later) => Some(later.num_days_from_ce()),
            None => None,
        },
        None => None,
    }
}

/// `chrono::NaiveDate::checked_sub_signed` by a whole number of days: the
/// day `k` days earlier, or `None` when that day is out of chrono's range.
#[verifier::external_body]
pub(crate) fn sub_days(n: i32, k: i64) -> (r: Option<i32>)
    requires
        day_in_range(n as int),
        -1_000_000_000 <= k <= 1_000_000_000,
    ensures
        r == (if day_in_range(n - k) { Some((n - k) as i32) } else { None::<i32> }),
{
    match chrono::NaiveDate::from_num_days_from_ce_opt(n) {
        Some(date) => match date.checked_sub_signed(chrono::TimeDelta::days(k)) {
            Some(earlier) => Some(earlier.num_days_from_ce()),
            None => None,
        },
        None => None,
    }
}

/// Renders a day as `YYYY-MM-DD` with chrono's `format("%Y-%m-%d")`, which
/// writes the text `iso_date_text` states.
#[verifier::external_body]
pub(crate) fn format_iso_date(n: i32) -> (r: String)
    requires
        day_in_range(n as int),
    ensures
        r@ == iso_date_text(n as int),
{
    match chrono::NaiveDate::from_num_days_from_ce_opt(n) {
        Some(date) => date.format("%Y-%m-%d").to_string(),
        None => String::new(),
    }
}

/// Parses a `YYYY-MM-DD` date with `chrono::NaiveDate::parse_from_str`.
/// The result is the named `iso_date_parse`; a parsed day is in range.
#[verifier::external_body]
pub(crate) fn parse_iso_date(s: &str) -> (r: Option<i32>)
    ensures
        r == (match iso_date_parse(s@) {
            Some(n) => Some(n as i32),
            None => None::<i32>,
        }),
        r matches Some(n) ==> day_in_range(n as int) && iso_date_parse(s@) == Some(n as int),
{
    match chrono::NaiveDate::parse_from_str(s, "%Y-%m-%d") {
        Ok(date) => Some(date.num_days_from_ce()),
        Err(_) => None,
    }
}

/// Day of the week (Monday 0 to Sunday 6) with chrono's `weekday`.
#[verifier::external_body]
pub(crate) fn weekday_index(n: i32) -> (r: u32)
    requires
        day_in_range(n as int),
    ensures
        r == weekday_of(n as int),
        r < 7,
{
    match chrono::NaiveDate::from_num_days_from_ce_opt(n) {
        Some(date) => date.weekday().num_days_from_monday(),
        None => 0,
    }
}

/// The calendar date `(y, m, d)` whose day number is `n`.
pub open spec fn date_of_day(n: int) -> (int, int, int) {
    choose|y: int, m: int, d: int| valid_ymd(y, m, d) && ymd_day_number(y, m, d) == n
}

/// Zero-based month of a day, as chrono's `Datelike::month0` gives it.
pub closed spec fn month0_of(n: int) -> int {
    date_of_day(n).1 - 1
}

/// Day of the month of a day, as chrono's `Datelike::day` gives it.
pub closed spec fn day_of_month_of(n: int) -> int {
    date_of_day(n).2
}

/// Zero-based month (0 for January) of a day, with chrono's `month0`.
#[verifier::external_body]
pub(crate) fn month0_of_day(n: i32) -> (r: u32)
    requires
        day_in_range(n as int),
    ensures
        r == month0_of(n as int),
        r < 12,
{
    match chrono::NaiveDate::from_num_days_from_ce_opt(n) {
        Some(date) => date.month0(),
        None => 0,
    }
}

/// Day of the month (1 to 31) of a day, with chrono's `day`.
#[verifier::external_body]
pub(crate) fn day_of_month(n: i32) -> (r: u32)
    requires
        day_in_range(n as int),
    ensures
        r == day_of_month_of(n as int),
        1 <= r <= 31,
{
    match chrono::NaiveDate::from_num_days_from_ce_opt(n) {
        Some(date) => date.day(),
        None => 1,
    }
}

/// Preset windows for the department-head utilization trend.
#[derive(Debug, Clone, Copy, PartialEq, Eq, Structural)]
pub enum TrendRangePreset {
    CurrentMonth,
    Next30Days,
    ThreeMonths,
    SixMonths,
}

/// Label shown for a trend preset.
pub open spec fn trend_preset_label(p: TrendRangePreset) -> Seq<char> {
    match p {
        TrendRangePreset::CurrentMonth => "Current Month"@,
        TrendRangePreset::Next30Days => "Next 30 Days"@,
        TrendRangePreset::ThreeMonths => "3 Months"@,
        TrendRangePreset::SixMonths => "6 Months"@,
    }
}

/// `start` and `start + days` (or `start` again when that is out of range).
pub open spec fn offset_range_days(start: int, days: int) -> (int, int) {
    (start, if day_in_range(start + days) { start + days } else { start })
}

/// First and last day of the month of `(y, m)`, as the current-month preset
/// computes them.
pub open spec fn current_month_days(y: int, m: int) -> (int, int) {
    let start = ymd_day_number(y, m, 1);
    let next = if m == 12 {
        if valid_ymd(y + 1, 1, 1) { ymd_day_number(y + 1, 1, 1) } else { start }
    } else {
        ymd_day_number(y, m + 1, 1)
    };
    (start, if day_in_range(next - 1) { next - 1 } else { start })
}

/// The window of a preset seen from the date `(y, m, d)`, as day numbers.
pub open spec fn preset_days(p: TrendRangePreset, y: int, m: int, d: int) -> (int, int) {
    match p {
        TrendRangePreset::CurrentMonth => current_month_days(y, m),
        TrendRangePreset::Next30Days => offset_range_days(ymd_day_number(y, m, d), 30),
        TrendRangePreset::ThreeMonths => offset_range_days(ymd_day_number(y, m, d), 90),
        TrendRangePreset::SixMonths => offset_range_days(ymd_day_number(y, m, d), 180),
    }
}

impl TrendRangePreset {
    /// Label shown in the range picker.
    pub fn label(&self) -> (r: &'static str)
        ensures
            r@ == trend_preset_label(*self),
    {
        match self {
            TrendRangePreset::CurrentMonth => "Current Month",
            TrendRangePreset::Next30Days => "Next 30 Days",
            TrendRangePreset::ThreeMonths => "3 Months",
            TrendRangePreset::SixMonths => "6 Months",
        }
    }

    /// The `YYYY-MM-DD` boundaries of the preset, seen from the date
    /// `(year, month, day)`: the current calendar month, or today through
    /// today plus 30, 90 or 180 days.
    pub fn resolve_from_date(self, year: i32, month: u32, day: u32) -> (r: (String, String))
        requires
            valid_ymd(year as int, month as int, day as int),
        ensures
            day_in_range(preset_days(self, year as int, month as int, day as int).0),
            day_in_range(preset_days(self, year as int, month as int, day as int).1),
            r.0@ == iso_date_text(preset_days(self, year as int, month as int, day as int).0),
            r.1@ == iso_date_text(preset_days(self, year as int, month as int, day as int).1),
    {
        match self {
            TrendRangePreset::CurrentMonth => {
                let today = day_from_ymd(year, month, day);
                let start = match day_from_ymd(year, month, 1) {
                    Some(s) => s,
                    None => today.unwrap(),
                };
                let next = if month == 12 {
                    if year < 262142 {
                        match day_from_ymd(year + 1, 1, 1) {
                            Some(n) => n,
                            None => start,
                        }
                    } else {
                        start
                    }
                } else {
                    match day_from_ymd(year, month + 1, 1) {
                        Some(n) => n,
                        None => start,
                    }
                };
                let end = match sub_days(next, 1) {
                    Some(e) => e,
                    None => start,
                };
                (format_iso_date(start), format_iso_date(end))
            },
            TrendRangePreset::Next30Days => offset_range_iso(day_from_ymd(year, month, day).unwrap(), 30),
            TrendRangePreset::ThreeMonths => offset_range_iso(day_from_ymd(year, month, day).unwrap(), 90),
            TrendRangePreset::SixMonths => offset_range_iso(day_from_ymd(year, month, day).unwrap(), 180),
        }
    }
}

/// `start` and `start + days` rendered as `YYYY-MM-DD`; the end falls back to
/// `start` when it would leave chrono's range.
pub fn offset_range_iso(start: i32, days: i64) -> (r: (String, String))
    requires
        day_in_range(start as int),
        -1_000_000_000 <= days <= 1_000_000_000,
    ensures
        day_in_range(offset_range_days(start as int, days as int).1),
        r.0@ == iso_date_text(start as int),
        r.1@ == iso_date_text(offset_range_days(start as int, days as int).1),
{
    let end = match add_days(start, days) {
        Some(e) => e,
        None => start,
    };
    (format_iso_date(start), format_iso_date(end))
}

/// Floor division by `c` steps up by one exactly at the multiples of `c`.
proof fn lemma_floor_step(y: int, c: int)
    requires
        c > 0,
    ensures
        y / c - (y - 1) / c == if y % c == 0 { 1int } else { 0int },
{
    vstd::arithmetic::div_mod::lemma_fundamental_div_mod(y, c);
    vstd::arithmetic::div_mod::lemma_fundamental_div_mod(y - 1, c);
    vstd::arithmetic::div_mod::lemma_mod_bound(y, c);
    vstd::arithmetic::div_mod::lemma_mod_bound(y - 1, c);
    let q1 = y / c;
    let q0 = (y - 1) / c;
    assert(c * (q1 - q0) == 1 + (y - 1) % c - y % c) by (nonlinear_arith)
        requires
            y == c * q1 + y % c,
            y - 1 == c * q0 + (y - 1) % c;
    if q1 - q0 >= 2 {
        assert(c * (q1 - q0) >= c * 2) by (nonlinear_arith)
            requires
                q1 - q0 >= 2,
                c > 0;
    } else if q1 - q0 <= -1 {
        assert(c * (q1 - q0) <= -c) by (nonlinear_arith)
            requires
                q1 - q0 <= -1,
                c > 0;
    } else if q1 - q0 == 1 {
        assert(c * (q1 - q0) == c) by (nonlinear_arith)
            requires
                q1 - q0 == 1;
    } else {
        assert(q1 - q0 == 0);
        assert(c * (q1 - q0) == 0) by (nonlinear_arith)
            requires
                q1 - q0 == 0;
    }
}

/// The first day of the year after `y` comes 365 days (366 in a leap year)
/// after the first day of `y`.
proof fn lemma_year_length(y: int)
    ensures
        days_before_year(y + 1) == days_before_year(y) + 365 + if is_leap_year(y) { 1int } else { 0int },
{
    lemma_floor_step(y, 4);
    lemma_floor_step(y, 100);
    lemma_floor_step(y, 400);
    assert(y % 100 == 0 ==> y % 4 == 0) by {
        if y % 100 == 0 {
            vstd::arithmetic::div_mod::lemma_fundamental_div_mod(y, 100);
            assert(y == 100 * (y / 100));
            assert(y == 4 * (25 * (y / 100)));
            vstd::arithmetic::div_mod::lemma_mod_multiples_basic(25 * (y / 100), 4);
        }
    }
    assert(y % 400 == 0 ==> y % 100 == 0) by {
        if y % 400 == 0 {
            vstd::arithmetic::div_mod::lemma_fundamental_div_mod(y, 400);
            assert(y == 100 * (4 * (y / 400)));
            vstd::arithmetic::div_mod::lemma_mod_multiples_basic(4 * (y / 400), 100);
        }
    }
}

/// Later years start later.
proof fn lemma_years_increase(y1: int, y2: int)
    requires
        y1 <= y2,
    ensures
        days_before_year(y1) <= days_before_year(y2),
    decreases y2 - y1,
{
    if y1 < y2 {
        lemma_years_increase(y1, y2 - 1);
        lemma_year_length(y2 - 1);
    }
}

/// A valid calendar date has a day number in chrono's range.
pub proof fn lemma_valid_date_in_range(y: int, m: int, d: int)
    requires
        valid_ymd(y, m, d),
    ensures
        day_in_range(ymd_day_number(y, m, d)),
{
    lemma_years_increase(-262143, y);
    lemma_years_increase(y + 1, 262143);
    lemma_year_length(y);
}

/// The current-month window runs from the first to the last day of the
/// month it is seen from, so it contains that day. (In December of chrono's
/// last year the next month cannot be formed and the window is not a month.)
pub proof fn law_current_month_contains_today(y: int, m: int, d: int)
    requires
        valid_ymd(y, m, d),
        !(y == 262142 && m == 12),
    ensures
        current_month_days(y, m) == (ymd_day_number(y, m, 1), ymd_day_number(y, m, days_in_month(y, m))),
        current_month_days(y, m).0 <= ymd_day_number(y, m, d) <= current_month_days(y, m).1,
{
    lemma_valid_date_in_range(y, m, days_in_month(y, m));
    if m == 12 {
        lemma_year_length(y);
        assert(valid_ymd(y + 1, 1, 1));
    }
}

/// Within a year, a later month starts after the earlier one has ended.
proof fn lemma_months_ordered(y: int, m1: int, d1: int, m2: int, d2: int)
    requires
        valid_ymd(y, m1, d1),
        valid_ymd(y, m2, d2),
        m1 < m2,
    ensures
        days_before_month(y, m1) + d1 < days_before_month(y, m2) + d2,
{
}

/// Distinct calendar dates have distinct day numbers.
proof fn lemma_day_number_injective(y1: int, m1: int, d1: int, y2: int, m2: int, d2: int)
    requires
        valid_ymd(y1, m1, d1),
        valid_ymd(y2, m2, d2),
        ymd_day_number(y1, m1, d1) == ymd_day_number(y2, m2, d2),
    ensures
        y1 == y2 && m1 == m2 && d1 == d2,
{
    if y1 < y2 {
        lemma_year_length(y1);
        lemma_years_increase(y1 + 1, y2);
        assert(days_before_month(y1, m1) + d1 <= days_before_month(y1, 12) + 31);
    } else if y2 < y1 {
        lemma_year_length(y2);
        lemma_years_increase(y2 + 1, y1);
        assert(days_before_month(y2, m2) + d2 <= days_before_month(y2, 12) + 31);
    } else if m1 < m2 {
        lemma_months_ordered(y1, m1, d1, m2, d2);
    } else if m2 < m1 {
        lemma_months_ordered(y1, m2, d2, m1, d1);
    }
}

/// The month and the day of the month of a date's day number are that
/// date's own: `month0` and `day` give back what the day was made from.
pub proof fn law_date_parts_round_trip(y: int, m: int, d: int)
    requires
        valid_ymd(y, m, d),
    ensures
        month0_of(ymd_day_number(y, m, d)) == m - 1,
        day_of_month_of(ymd_day_number(y, m, d)) == d,
{
    let n = ymd_day_number(y, m, d);
    assert(valid_ymd(y, m, d) && ymd_day_number(y, m, d) == n);
    let (y2, m2, d2) = date_of_day(n);
    lemma_day_number_injective(y, m, d, y2, m2, d2);
}

/// Days of the week repeat every seven days, and day 1 (January 1 of
/// year 1) is a Monday.
pub proof fn law_week_cycle(n: int)
    ensures
        0 <= weekday_of(n) < 7,
        weekday_of(n + 7) == weekday_of(n),
        weekday_of(ymd_day_number(1, 1, 1)) == 0,
{
    assert(ymd_day_number(1, 1, 1) == 1);
}

/// `a` sorts before `b` or equals it, character by character, as Rust
/// orders strings.
pub open spec fn text_le(a: Seq<char>, b: Seq<char>) -> bool
    decreases a.len(),
{
    if a.len() == 0 {
        true
    } else if b.len() == 0 {
        false
    } else if a[0] != b[0] {
        a[0] < b[0]
    } else {
        text_le(a.drop_first(), b.drop_first())
    }
}

/// A common beginning does not change how two texts sort.
proof fn lemma_text_le_common_prefix(p: Seq<char>, a: Seq<char>, b: Seq<char>)
    ensures
        text_le(p + a, p + b) == text_le(a, b),
    decreases p.len(),
{
    if p.len() > 0 {
        assert((p + a).drop_first() =~= p.drop_first() + a);
        assert((p + b).drop_first() =~= p.drop_first() + b);
        lemma_text_le_common_prefix(p.drop_first(), a, b);
    } else {
        assert(p + a =~= a);
        assert(p + b =~= b);
    }
}

/// Two-digit texts sort as their numbers do.
proof fn lemma_two_digits_order(d1: int, d2: int)
    requires
        0 <= d1 <= d2 < 100,
    ensures
        text_le(two_digits(d1), two_digits(d2)),
{
    let a = two_digits(d1);
    let b = two_digits(d2);
    reveal_with_fuel(text_le, 3);
    assert(a.drop_first() =~= seq![digit_char(d1 % 10)]);
    assert(b.drop_first() =~= seq![digit_char(d2 % 10)]);
    assert(a.drop_first().drop_first().len() == 0);
}

/// The day number of a valid date names that date.
proof fn lemma_date_of_day_number(y: int, m: int, d: int)
    requires
        valid_ymd(y, m, d),
    ensures
        date_of_day(ymd_day_number(y, m, d)) == (y, m, d),
{
    let n = ymd_day_number(y, m, d);
    assert(valid_ymd(y, m, d) && ymd_day_number(y, m, d) == n);
    let (y2, m2, d2) = date_of_day(n);
    lemma_day_number_injective(y, m, d, y2, m2, d2);
}

/// The texts of the current-month window bracket the text of the day it is
/// seen from: the first of the month sorts before it and the last day after
/// it, as `resolve_from_date` renders them.
pub proof fn law_current_month_texts_bracket_today(y: int, m: int, d: int)
    requires
        valid_ymd(y, m, d),
        !(y == 262142 && m == 12),
    ensures
        text_le(iso_date_text(current_month_days(y, m).0), iso_date_text(ymd_day_number(y, m, d))),
        text_le(iso_date_text(ymd_day_number(y, m, d)), iso_date_text(current_month_days(y, m).1)),
{
    law_current_month_contains_today(y, m, d);
    let last = days_in_month(y, m);
    lemma_date_of_day_number(y, m, 1);
    lemma_date_of_day_number(y, m, d);
    lemma_date_of_day_number(y, m, last);
    let p = year_text(y) + seq!['-'] + two_digits(m) + seq!['-'];
    assert(iso_date_text(ymd_day_number(y, m, 1)) == p + two_digits(1));
    assert(iso_date_text(ymd_day_number(y, m, d)) == p + two_digits(d));
    assert(iso_date_text(ymd_day_number(y, m, last)) == p + two_digits(last));
    lemma_two_digits_order(1, d);
    lemma_two_digits_order(d, last);
    lemma_text_le_common_prefix(p, two_digits(1), two_digits(d));
    lemma_text_le_common_prefix(p, two_digits(d), two_digits(last));
}

} // verus!
