//! Calendar dates of notes: which Monday a week note belongs to, which day a
//! daily note belongs to, batches of weekly dates, file names and headers.
//!
//! Dates are held as plain year, month and day values; the calendar
//! arithmetic itself is done by `chrono`, behind the trusted items at the end
//! of this file, and is described by the proleptic Gregorian day number
//! [`day_number`].
use chrono::Datelike;
use vstd::prelude::*;

use crate::text::{owned, push_str, push_zero_padded, str_eq, zero_padded};

verus! {

// ---------------------------------------------------------------------------
// The calendar model
// ---------------------------------------------------------------------------

/// Leap years of the proleptic Gregorian calendar (astronomical year numbers).
pub open spec fn is_leap(y: int) -> bool {
    y % 4 == 0 && (y % 100 != 0 || y % 400 == 0)
}

/// The number of days of month `m` in year `y`.
pub open spec fn days_in_month(y: int, m: int) -> int {
    if m == 2 {
        if is_leap(y) {
            29
        } else {
            28
        }
    } else if m == 4 || m == 6 || m == 9 || m == 11 {
        30
    } else {
        31
    }
}

/// The first year that `chrono::NaiveDate` represents.
pub open spec fn min_year() -> int {
    -262143
}

/// The last year that `chrono::NaiveDate` represents.
pub open spec fn max_year() -> int {
    262142
}

/// A calendar date that `chrono::NaiveDate` can represent.
pub open spec fn valid_ymd(y: int, m: int, d: int) -> bool {
    &&& min_year() <= y <= max_year()
    &&& 1 <= m <= 12
    &&& 1 <= d <= days_in_month(y, m)
}

/// The number of days from 1970-01-01 to the given date of the proleptic
/// Gregorian calendar (negative before it).
pub open spec fn day_number(y: int, m: int, d: int) -> int {
    let y1 = if m <= 2 {
        y - 1
    } else {
        y
    };
    let era = y1 / 400;
    let yoe = y1 - era * 400;
    let mp = if m > 2 {
        m - 3
    } else {
        m + 9
    };
    let doy = (153 * mp + 2) / 5 + d - 1;
    let doe = yoe * 365 + yoe / 4 - yoe / 100 + doy;
    era * 146097 + doe - 719468
}

/// The day number of the first date that `chrono::NaiveDate` represents.
pub open spec fn first_day() -> int {
    day_number(min_year(), 1, 1)
}

/// The day number of the last date that `chrono::NaiveDate` represents.
pub open spec fn last_day() -> int {
    day_number(max_year(), 12, 31)
}

/// Whether day number `x` is a date that `chrono::NaiveDate` represents.
pub open spec fn in_range(x: int) -> bool {
    first_day() <= x <= last_day()
}

/// The day of the week of day number `x`, counted from Monday = 0
/// (1970-01-01 was a Thursday).
pub open spec fn weekday_index(x: int) -> int {
    (x + 3) % 7
}

/// The day number of the Monday that starts the week of day number `x`.
pub open spec fn week_start(x: int) -> int {
    x - weekday_index(x)
}

/// A calendar date, as year, month and day.
#[derive(Clone, Copy, Debug, PartialEq, Eq, Structural)]
pub struct Date {
    pub year: i32,
    pub month: u32,
    pub day: u32,
}

impl Date {
    /// The date exists and `chrono::NaiveDate` can represent it.
    pub open spec fn wf(self) -> bool {
        valid_ymd(self.year as int, self.month as int, self.day as int)
    }

    /// The day number of this date.
    pub open spec fn days(self) -> int {
        day_number(self.year as int, self.month as int, self.day as int)
    }

    /// The date with the given year, month and day, if it exists in the
    /// range that `chrono::NaiveDate` covers.
    pub fn from_ymd_opt(year: i32, month: u32, day: u32) -> (r: Option<Date>)
        ensures
            r is Some <==> valid_ymd(year as int, month as int, day as int),
            r matches Some(d) ==> d == (Date { year, month, day }),
    {
        chrono_from_ymd(year, month, day)
    }
}

// ---------------------------------------------------------------------------
// When options
// ---------------------------------------------------------------------------

/// Weekly note timing options.
#[derive(Clone, Copy, Debug, PartialEq, Eq, Structural)]
pub enum When {
    LastWeek,
    ThisWeek,
    NextWeek,
}

/// Daily note timing options.
#[derive(Clone, Copy, Debug, PartialEq, Eq, Structural)]
pub enum DailyWhen {
    Yesterday,
    Today,
    Tomorrow,
}

/// The error for a weekly timing option that is not one of the three names.
#[derive(Clone, Copy, Debug, PartialEq, Eq, Structural)]
pub struct InvalidWhenError;

/// The error for a daily timing option that is not one of the three names.
#[derive(Clone, Copy, Debug, PartialEq, Eq, Structural)]
pub struct InvalidDailyWhenError;

impl InvalidWhenError {
    /// The error's message.
    pub fn message(&self) -> (r: String)
        ensures
            r@ == "invalid When option, must be one of |thisWeek|nextWeek|lastWeek|"@,
    {
        owned("invalid When option, must be one of |thisWeek|nextWeek|lastWeek|")
    }
}

impl InvalidDailyWhenError {
    /// The error's message.
    pub fn message(&self) -> (r: String)
        ensures
            r@ == "invalid when option, must be one of |yesterday|today|tomorrow|"@,
    {
        owned("invalid when option, must be one of |yesterday|today|tomorrow|")
    }
}

/// The weekly option that a name stands for.
pub open spec fn when_named(s: Seq<char>) -> Option<When> {
    if s == "lastWeek"@ {
        Some(When::LastWeek)
    } else if s == "thisWeek"@ {
        Some(When::ThisWeek)
    } else if s == "nextWeek"@ {
        Some(When::NextWeek)
    } else {
        None
    }
}

/// The daily option that a name stands for.
pub open spec fn daily_when_named(s: Seq<char>) -> Option<DailyWhen> {
    if s == "yesterday"@ {
        Some(DailyWhen::Yesterday)
    } else if s == "today"@ {
        Some(DailyWhen::Today)
    } else if s == "tomorrow"@ {
        Some(DailyWhen::Tomorrow)
    } else {
        None
    }
}

impl When {
    /// Parses `lastWeek`, `thisWeek` or `nextWeek`.
    pub fn from_str(s: &str) -> (r: Result<When, InvalidWhenError>)
        ensures
            match when_named(s@) {
                Some(w) => r == Ok::<When, InvalidWhenError>(w),
                None => r == Err::<When, InvalidWhenError>(InvalidWhenError),
            },
    {
        if str_eq(s, "lastWeek") {
            Ok(When::LastWeek)
        } else if str_eq(s, "thisWeek") {
            Ok(When::ThisWeek)
        } else if str_eq(s, "nextWeek") {
            Ok(When::NextWeek)
        } else {
            Err(InvalidWhenError)
        }
    }

    /// The shift, in days, from the Monday of the current week.
    pub open spec fn offset(self) -> int {
        match self {
            When::LastWeek => -7,
            When::ThisWeek => 0,
            When::NextWeek => 7,
        }
    }
}

impl DailyWhen {
    /// Parses `yesterday`, `today` or `tomorrow`.
    pub fn from_str(s: &str) -> (r: Result<DailyWhen, InvalidDailyWhenError>)
        ensures
            match daily_when_named(s@) {
                Some(w) => r == Ok::<DailyWhen, InvalidDailyWhenError>(w),
                None => r == Err::<DailyWhen, InvalidDailyWhenError>(InvalidDailyWhenError),
            },
    {
        if str_eq(s, "yesterday") {
            Ok(DailyWhen::Yesterday)
        } else if str_eq(s, "today") {
            Ok(DailyWhen::Today)
        } else if str_eq(s, "tomorrow") {
            Ok(DailyWhen::Tomorrow)
        } else {
            Err(InvalidDailyWhenError)
        }
    }

    /// The shift, in days, from the given day.
    pub open spec fn offset(self) -> int {
        match self {
            DailyWhen::Yesterday => -1,
            DailyWhen::Today => 0,
            DailyWhen::Tomorrow => 1,
        }
    }
}

// ---------------------------------------------------------------------------
// Date arithmetic
// ---------------------------------------------------------------------------

/// Weekday arithmetic: the Monday of a week is a Monday, lies at most six days
/// before any day of its week, and moving by whole weeks keeps the weekday.
pub proof fn lemma_week_start(x: int, k: int)
    ensures
        weekday_index(week_start(x)) == 0,
        0 <= x - week_start(x) < 7,
        0 <= weekday_index(x) < 7,
        weekday_index(x + 7 * k) == weekday_index(x),
        week_start(x + 7 * k) == week_start(x) + 7 * k,
{
    assert(weekday_index(x + 7 * k) == weekday_index(x)) by (nonlinear_arith);
}

/// Returns the Monday of the week relative to the given date: the current
/// week for `ThisWeek`, a week earlier for `LastWeek`, a week later for
/// `NextWeek`.
///
/// Every date on the way lies in the range that `chrono::NaiveDate`
/// covers; outside it the date arithmetic cannot go on.
pub fn date_from_when(date: Date, when: When) -> (r: Date)
    requires
        date.wf(),
        in_range(week_start(date.days())),
        in_range(week_start(date.days()) + when.offset()),
    ensures
        r.wf(),
        r.days() == week_start(date.days()) + when.offset(),
        weekday_index(r.days()) == 0,
{
    proof {
        lemma_week_start(date.days(), 0);
        lemma_week_start(week_start(date.days()), when.offset() / 7);
    }
    let wd = chrono_weekday(date);
    let monday = chrono_add_days(date, -(wd as i64)).unwrap();
    match when {
        When::LastWeek => chrono_add_days(monday, -7).unwrap(),
        When::NextWeek => chrono_add_days(monday, 7).unwrap(),
        When::ThisWeek => monday,
    }
}

/// Returns the date relative to the given date for daily notes.
///
/// The result lies in the range that `chrono::NaiveDate` covers; outside it
/// the date arithmetic cannot go on.
pub fn date_from_daily_when(date: Date, when: DailyWhen) -> (r: Date)
    requires
        date.wf(),
        in_range(date.days() + when.offset()),
    ensures
        r.wf(),
        r.days() == date.days() + when.offset(),
{
    match when {
        DailyWhen::Yesterday => chrono_add_days(date, -1).unwrap(),
        DailyWhen::Tomorrow => chrono_add_days(date, 1).unwrap(),
        DailyWhen::Today => date,
    }
}

/// The number of days between the first and the last date that
/// `chrono::NaiveDate` covers is below two hundred million.
pub proof fn lemma_range_span()
    ensures
        0 < last_day() - first_day() < 200_000_000,
{
}

/// Generates `batch_size` dates spaced 7 days apart, starting at `start_date`.
///
/// Every date of the batch lies in the range that `chrono::NaiveDate`
/// covers; outside it the date arithmetic cannot go on.
pub fn get_batch_dates(start_date: Date, batch_size: usize) -> (r: Vec<Date>)
    requires
        start_date.wf(),
        batch_size > 0 ==> in_range(start_date.days() + 7 * (batch_size - 1)),
    ensures
        r@.len() == batch_size,
        forall|i: int|
            0 <= i < batch_size ==> (#[trigger] r@[i]).wf() && r@[i].days() == start_date.days()
                + 7 * i,
{
    proof {
        lemma_range_span();
    }
    let mut dates: Vec<Date> = Vec::new();
    let mut i: usize = 0;
    while i < batch_size
        invariant
            start_date.wf(),
            batch_size > 0 ==> in_range(start_date.days() + 7 * (batch_size - 1)),
            0 < last_day() - first_day() < 200_000_000,
            i <= batch_size,
            dates@.len() == i,
            forall|k: int|
                0 <= k < i ==> (#[trigger] dates@[k]).wf() && dates@[k].days() == start_date.days()
                    + 7 * k,
        decreases batch_size - i,
    {
        let d = chrono_add_days(start_date, (i as i64) * 7).unwrap();
        dates.push(d);
        i = i + 1;
    }
    dates
}

/// A batch of weekly dates that starts on a Monday holds only Mondays.
pub proof fn lemma_batch_of_mondays(start: int, i: int)
    requires
        weekday_index(start) == 0,
    ensures
        weekday_index(start + 7 * i) == 0,
{
    lemma_week_start(start, i);
}

// ---------------------------------------------------------------------------
// Names
// ---------------------------------------------------------------------------

/// The English name of month `m` (`Unknown` outside `1..=12`).
pub open spec fn month_name_of(m: int) -> Seq<char> {
    if m == 1 {
        "January"@
    } else if m == 2 {
        "February"@
    } else if m == 3 {
        "March"@
    } else if m == 4 {
        "April"@
    } else if m == 5 {
        "May"@
    } else if m == 6 {
        "June"@
    } else if m == 7 {
        "July"@
    } else if m == 8 {
        "August"@
    } else if m == 9 {
        "September"@
    } else if m == 10 {
        "October"@
    } else if m == 11 {
        "November"@
    } else if m == 12 {
        "December"@
    } else {
        "Unknown"@
    }
}

/// The English name of the weekday with index `i`, Monday = 0.
pub open spec fn weekday_name_of(i: int) -> Seq<char> {
    if i == 0 {
        "Monday"@
    } else if i == 1 {
        "Tuesday"@
    } else if i == 2 {
        "Wednesday"@
    } else if i == 3 {
        "Thursday"@
    } else if i == 4 {
        "Friday"@
    } else if i == 5 {
        "Saturday"@
    } else {
        "Sunday"@
    }
}

/// The months of the year are named, in order, January to December, and no
/// two months share a name.
pub proof fn law_month_names()
    ensures
        month_name_of(1) == "January"@,
        month_name_of(2) == "February"@,
        month_name_of(3) == "March"@,
        month_name_of(4) == "April"@,
        month_name_of(5) == "May"@,
        month_name_of(6) == "June"@,
        month_name_of(7) == "July"@,
        month_name_of(8) == "August"@,
        month_name_of(9) == "September"@,
        month_name_of(10) == "October"@,
        month_name_of(11) == "November"@,
        month_name_of(12) == "December"@,
        forall|a: int, b: int|
            1 <= a <= 12 && 1 <= b <= 12 && a != b ==> #[trigger] month_name_of(a)
                != #[trigger] month_name_of(b),
{
    reveal_strlit("January");
    reveal_strlit("February");
    reveal_strlit("March");
    reveal_strlit("April");
    reveal_strlit("May");
    reveal_strlit("June");
    reveal_strlit("July");
    reveal_strlit("August");
    reveal_strlit("September");
    reveal_strlit("October");
    reveal_strlit("November");
    reveal_strlit("December");
    assert forall|a: int, b: int|
        1 <= a <= 12 && 1 <= b <= 12 && a != b implies #[trigger] month_name_of(a)
            != #[trigger] month_name_of(b) by {
        if month_name_of(a) == month_name_of(b) {
            assert(month_name_of(a).len() == month_name_of(b).len());
            assert(month_name_of(a)[0] == month_name_of(b)[0]);
            assert(month_name_of(a)[2] == month_name_of(b)[2]);
        }
    }
}

/// The days of the week, counted from Monday, are named Monday to Sunday, no
/// two days share a name, and the calendar places them: 1970-01-01 was a
/// Thursday, 2000-01-01 a Saturday, and each day is followed by the next
/// day of the week.
pub proof fn law_weekday_names()
    ensures
        weekday_name_of(0) == "Monday"@,
        weekday_name_of(1) == "Tuesday"@,
        weekday_name_of(2) == "Wednesday"@,
        weekday_name_of(3) == "Thursday"@,
        weekday_name_of(4) == "Friday"@,
        weekday_name_of(5) == "Saturday"@,
        weekday_name_of(6) == "Sunday"@,
        forall|a: int, b: int|
            0 <= a < 7 && 0 <= b < 7 && a != b ==> #[trigger] weekday_name_of(a)
                != #[trigger] weekday_name_of(b),
        weekday_name_of(weekday_index(day_number(1970, 1, 1))) == "Thursday"@,
        weekday_name_of(weekday_index(day_number(2000, 1, 1))) == "Saturday"@,
        forall|x: int| #[trigger] weekday_index(x + 1) == (weekday_index(x) + 1) % 7,
{
    reveal_strlit("Monday");
    reveal_strlit("Tuesday");
    reveal_strlit("Wednesday");
    reveal_strlit("Thursday");
    reveal_strlit("Friday");
    reveal_strlit("Saturday");
    reveal_strlit("Sunday");
    assert forall|a: int, b: int|
        0 <= a < 7 && 0 <= b < 7 && a != b implies #[trigger] weekday_name_of(a)
            != #[trigger] weekday_name_of(b) by {
        if weekday_name_of(a) == weekday_name_of(b) {
            assert(weekday_name_of(a).len() == weekday_name_of(b).len());
            assert(weekday_name_of(a)[0] == weekday_name_of(b)[0]);
            assert(weekday_name_of(a)[2] == weekday_name_of(b)[2]);
        }
    }
    assert(day_number(1970, 1, 1) == 0);
    assert(day_number(2000, 1, 1) == 10957);
    assert forall|x: int| #[trigger] weekday_index(x + 1) == (weekday_index(x) + 1) % 7 by {
        assert((x + 1 + 3) % 7 == ((x + 3) % 7 + 1) % 7) by (nonlinear_arith);
    }
}

/// The English name of month `month`.
pub fn month_name(month: u32) -> (r: &'static str)
    ensures
        r@ == month_name_of(month as int),
{
    match month {
        1 => "January",
        2 => "February",
        3 => "March",
        4 => "April",
        5 => "May",
        6 => "June",
        7 => "July",
        8 => "August",
        9 => "September",
        10 => "October",
        11 => "November",
        12 => "December",
        _ => "Unknown",
    }
}

/// The English name of the weekday with index `index` (Monday = 0, as
/// `Weekday::num_days_from_monday` counts).
pub fn weekday_full_name(index: u32) -> (r: &'static str)
    requires
        index < 7,
    ensures
        r@ == weekday_name_of(index as int),
{
    match index {
        0 => "Monday",
        1 => "Tuesday",
        2 => "Wednesday",
        3 => "Thursday",
        4 => "Friday",
        5 => "Saturday",
        _ => "Sunday",
    }
}

/// The directory part `YYYY/MM` of a note for `date`.
pub open spec fn path_part_of(date: Date) -> Seq<char> {
    zero_padded(date.year as int, 4) + "/"@ + zero_padded(date.month as int, 2)
}

/// The file name `YYYY-MM-DD-{suffix}.{ext}` of a note for `date`.
pub open spec fn file_name_of(date: Date, suffix: Seq<char>, ext: Seq<char>) -> Seq<char> {
    zero_padded(date.year as int, 4) + "-"@ + zero_padded(date.month as int, 2) + "-"@
        + zero_padded(date.day as int, 2) + "-"@ + suffix + "."@ + ext
}

/// Returns the path part and file name of a note: `YYYY/MM` and
/// `YYYY-MM-DD-{suffix}.{ext}`.
pub fn name_from_date(date: Date, suffix: &str, ext: &str) -> (r: (String, String))
    ensures
        r.0@ == path_part_of(date),
        r.1@ == file_name_of(date, suffix@, ext@),
{
    let mut path_part = String::new();
    push_zero_padded(&mut path_part, date.year as i64, 4);
    push_str(&mut path_part, "/");
    push_zero_padded(&mut path_part, date.month as i64, 2);
    let mut file_name = String::new();
    push_zero_padded(&mut file_name, date.year as i64, 4);
    push_str(&mut file_name, "-");
    push_zero_padded(&mut file_name, date.month as i64, 2);
    push_str(&mut file_name, "-");
    push_zero_padded(&mut file_name, date.day as i64, 2);
    push_str(&mut file_name, "-");
    push_str(&mut file_name, suffix);
    push_str(&mut file_name, ".");
    push_str(&mut file_name, ext);
    proof {
        assert(path_part@ =~= path_part_of(date));
        assert(file_name@ =~= file_name_of(date, suffix@, ext@));
    }
    (path_part, file_name)
}

/// The header text `Weekday DD Month YYYY` for `date`.
pub open spec fn header_of(date: Date) -> Seq<char> {
    weekday_name_of(weekday_index(date.days())) + " "@ + zero_padded(date.day as int, 2) + " "@
        + month_name_of(date.month as int) + " "@ + zero_padded(date.year as int, 4)
}

/// Returns the date text for note headers, such as `Monday 28 July 2025`.
pub fn date_for_header(date: Date) -> (r: String)
    requires
        date.wf(),
    ensures
        r@ == header_of(date),
{
    let wd = chrono_weekday(date);
    let mut s = owned(weekday_full_name(wd));
    push_str(&mut s, " ");
    push_zero_padded(&mut s, date.day as i64, 2);
    push_str(&mut s, " ");
    push_str(&mut s, month_name(date.month));
    push_str(&mut s, " ");
    push_zero_padded(&mut s, date.year as i64, 4);
    proof {
        assert(s@ =~= header_of(date));
    }
    s
}

/// The year of the common era that `Datelike::year_ce` reports: the year
/// itself from 1 on, `1 - year` before (1 BCE for year 0).
pub open spec fn ce_year(y: int) -> int {
    if y >= 1 {
        y
    } else {
        1 - y
    }
}

/// The `YYYY-MM-DD` text of `date` that note results report, with the year
/// counted in the common era.
pub open spec fn iso_date_of(date: Date) -> Seq<char> {
    zero_padded(ce_year(date.year as int), 4) + "-"@ + zero_padded(date.month as int, 2) + "-"@
        + zero_padded(date.day as int, 2)
}

/// Returns the `YYYY-MM-DD` text that note results report for `date`.
pub fn iso_date(date: Date) -> (r: String)
    ensures
        r@ == iso_date_of(date),
{
    let y: i64 = if date.year >= 1 {
        date.year as i64
    } else {
        1 - (date.year as i64)
    };
    let mut s = String::new();
    push_zero_padded(&mut s, y, 4);
    push_str(&mut s, "-");
    push_zero_padded(&mut s, date.month as i64, 2);
    push_str(&mut s, "-");
    push_zero_padded(&mut s, date.day as i64, 2);
    proof {
        assert(s@ =~= iso_date_of(date));
    }
    s
}

// ---------------------------------------------------------------------------
// Checking dates
// ---------------------------------------------------------------------------

/// Whether `y` is a leap year.
pub fn leap_year(y: i32) -> (r: bool)
    ensures
        r == is_leap(y as int),
{
    let z: i64 = y as i64 + 400000;
    proof {
        vstd::arithmetic::div_mod::lemma_mod_multiples_vanish(100000, y as int, 4);
        vstd::arithmetic::div_mod::lemma_mod_multiples_vanish(4000, y as int, 100);
        vstd::arithmetic::div_mod::lemma_mod_multiples_vanish(1000, y as int, 400);
    }
    z % 4 == 0 && (z % 100 != 0 || z % 400 == 0)
}

impl Date {
    /// Whether this date exists and `chrono::NaiveDate` can represent it.
    pub fn is_valid(&self) -> (r: bool)
        ensures
            r == self.wf(),
    {
        if self.year < -262143 || self.year > 262142 || self.month < 1 || self.month > 12 || self.day < 1 {
            return false;
        }
        let dim: u32 = if self.month == 2 {
            if leap_year(self.year) {
                29
            } else {
                28
            }
        } else if self.month == 4 || self.month == 6 || self.month == 9 || self.month == 11 {
            30
        } else {
            31
        };
        self.day <= dim
    }

    /// The day number of this date.
    pub fn day_number(&self) -> (r: i64)
        requires
            self.wf(),
        ensures
            r == self.days(),
    {
        let y: i64 = self.year as i64;
        let m: i64 = self.month as i64;
        let d: i64 = self.day as i64;
        let y1: i64 = if m <= 2 {
            y - 1
        } else {
            y
        };
        let shifted: i64 = y1 + 400000;
        let era_shifted: i64 = shifted / 400;
        let yoe: i64 = shifted - era_shifted * 400;
        let mp: i64 = if m > 2 {
            m - 3
        } else {
            m + 9
        };
        let doy: i64 = (153 * mp + 2) / 5 + d - 1;
        let doe: i64 = yoe * 365 + yoe / 4 - yoe / 100 + doy;
        proof {
            let q = (y1 as int) / 400;
            let r = (y1 as int) % 400;
            vstd::arithmetic::div_mod::lemma_fundamental_div_mod(y1 as int, 400);
            assert(0 <= r < 400);
            assert(shifted == 400 * (q + 1000) + r);
            vstd::arithmetic::div_mod::lemma_div_multiples_vanish_fancy(q + 1000, r, 400);
        }
        (era_shifted - 1000) * 146097 + doe - 719468
    }
}

/// The day numbers of the first and last dates that `chrono::NaiveDate` covers.
pub proof fn lemma_range_ends()
    ensures
        first_day() == -96465292,
        last_day() == 95026236,
{
}

/// Whether `today` is far enough from the ends of the dates that
/// `chrono::NaiveDate` covers for any note command: two weeks before it and
/// eight weeks after it are covered.
pub open spec fn supported_today(today: Date) -> bool {
    &&& today.wf()
    &&& first_day() + 13 <= today.days()
    &&& today.days() + 56 <= last_day()
}

/// Whether `today` is a supported day for the note commands.
pub fn date_supported(today: Date) -> (r: bool)
    ensures
        r == supported_today(today),
{
    if !today.is_valid() {
        return false;
    }
    let n = today.day_number();
    proof {
        lemma_range_ends();
    }
    -96465292 + 13 <= n && n + 56 <= 95026236
}

// ---------------------------------------------------------------------------
// chrono
// ---------------------------------------------------------------------------

/// `chrono::NaiveDate::from_ymd_opt`: `Some` exactly for the dates of the
/// proleptic Gregorian calendar in the years that `NaiveDate` covers
/// (262144 BCE to 262142 CE), with the same year, month and day.
#[verifier::external_body]
fn chrono_from_ymd(year: i32, month: u32, day: u32) -> (r: Option<Date>)
    ensures
        r is Some <==> valid_ymd(year as int, month as int, day as int),
        r matches Some(d) ==> d == (Date { year, month, day }),
{
    chrono::NaiveDate::from_ymd_opt(year, month, day).map(
        |d| Date { year: d.year(), month: d.month(), day: d.day() },
    )
}

/// `chrono::NaiveDate::checked_add_signed` with `TimeDelta::days(days)`: the
/// date `days` days later (earlier when negative), `None` when it falls
/// outside the dates that `NaiveDate` covers.
#[verifier::external_body]
fn chrono_add_days(date: Date, days: i64) -> (r: Option<Date>)
    requires
        date.wf(),
        -1_000_000_000 <= days <= 1_000_000_000,
    ensures
        r is Some <==> in_range(date.days() + days),
        r matches Some(d) ==> d.wf() && d.days() == date.days() + days,
{
    chrono::NaiveDate::from_ymd_opt(date.year, date.month, date.day).and_then(
        |d| d.checked_add_signed(chrono::TimeDelta::days(days)),
    ).map(|d| Date { year: d.year(), month: d.month(), day: d.day() })
}

/// `Datelike::weekday` then `Weekday::num_days_from_monday` on a
/// `chrono::NaiveDate`: the day of the week, Monday = 0 to Sunday = 6.
#[verifier::external_body]
fn chrono_weekday(date: Date) -> (r: u32)
    requires
        date.wf(),
    ensures
        r == weekday_index(date.days()),
{
    chrono::NaiveDate::from_ymd_opt(date.year, date.month, date.day).unwrap().weekday().num_days_from_monday()
}

} // verus!
