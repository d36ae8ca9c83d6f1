//! Calendar dates and inclusive day ranges.
//!
//! A [`Date`] is a day of the proleptic Gregorian calendar, held as its day
//! number: January 1 of year 1 is day 1, and consecutive days have consecutive
//! numbers. Order, equality and day arithmetic are those of the integers.
//! Everything that needs the calendar itself (years, months, ISO weeks, the
//! written form of a date) is computed by `chrono` and appears in contracts
//! under a name of its own.

use vstd::prelude::*;

verus! {

/// Day number of the earliest date that can be represented
/// (January 1 of year -262143).
pub const MIN_DAY: i32 = -95_746_129;

/// Day number of the latest date that can be represented
/// (December 31 of year 262142).
pub const MAX_DAY: i32 = 95_745_399;

/// Day number of January 1, 1970.
pub const EPOCH_DAY: i32 = 719_163;

/// Whether a day number denotes a date that can be represented.
pub open spec fn day_in_range(day: int) -> bool {
    MIN_DAY <= day <= MAX_DAY
}

/// The calendar year of the day with the given number, as `chrono` computes it.
pub uninterp spec fn civil_year(day: int) -> int;

/// The month (1 to 12) of the day with the given number, as `chrono` computes it.
pub uninterp spec fn civil_month(day: int) -> int;

/// The ISO 8601 week of the day with the given number, as `chrono` computes
/// it: the week-based year, then the week number.
pub uninterp spec fn iso_week(day: int) -> (int, int);

/// The written form of the day with the given number, as `chrono` displays it
/// (`YYYY-MM-DD` for the years 0 to 9999).
pub uninterp spec fn calendar_text(day: int) -> Seq<char>;

/// The day number of a calendar date given by year, month and day of month, as
/// `chrono` computes it; `None` where no such date exists or it cannot be
/// represented.
pub uninterp spec fn day_of_civil(year: int, month: int, day: int) -> Option<int>;

/// The UTC day on which a Unix timestamp falls, if it can be represented.
pub open spec fn day_of_timestamp(secs: int) -> Option<int> {
    let day = secs / 86_400 + EPOCH_DAY;
    if day_in_range(day) {
        Some(day)
    } else {
        None
    }
}

/// Calls `chrono::NaiveDate::from_ymd_opt` and hands back the day number of
/// the date it made (`Datelike::num_days_from_ce`). The result is named
/// [`day_of_civil`]; trusted of it: a day number that comes back is that of a
/// `NaiveDate`, so it lies between [`MIN_DAY`] and [`MAX_DAY`].
#[verifier::external_body]
fn chrono_day_of_civil(year: i32, month: u32, day: u32) -> (r: Option<i32>)
    ensures
        r matches Some(n) ==> day_in_range(n as int),
        day_of_civil(year as int, month as int, day as int) == match r {
            Some(n) => Some(n as int),
            None => None,
        },
{
    chrono::NaiveDate::from_ymd_opt(year, month, day).map(|d| chrono::Datelike::num_days_from_ce(&d))
}

/// Calls `chrono::Datelike::year` on the `NaiveDate` with the given day
/// number. The result is named [`civil_year`].
#[verifier::external_body]
fn chrono_year(day: i32) -> (r: i32)
    requires
        day_in_range(day as int),
    ensures
        r as int == civil_year(day as int),
{
    chrono::Datelike::year(&chrono::NaiveDate::from_num_days_from_ce_opt(day).unwrap())
}

/// Calls `chrono::Datelike::month` on the `NaiveDate` with the given day
/// number. The result is named [`civil_month`].
#[verifier::external_body]
fn chrono_month(day: i32) -> (r: u32)
    requires
        day_in_range(day as int),
    ensures
        r as int == civil_month(day as int),
{
    chrono::Datelike::month(&chrono::NaiveDate::from_num_days_from_ce_opt(day).unwrap())
}

/// Calls `chrono::Datelike::iso_week` on the `NaiveDate` with the given day
/// number and hands back the week's year and number. The result is named
/// [`iso_week`].
#[verifier::external_body]
fn chrono_iso_week(day: i32) -> (r: (i32, u32))
    requires
        day_in_range(day as int),
    ensures
        (r.0 as int, r.1 as int) == iso_week(day as int),
{
    let week = chrono::Datelike::iso_week(
        &chrono::NaiveDate::from_num_days_from_ce_opt(day).unwrap(),
    );
    (week.year(), week.week())
}

/// Formats the `NaiveDate` with the given day number through its `Display`
/// impl. The result is named [`calendar_text`].
#[verifier::external_body]
fn chrono_calendar_text(day: i32) -> (r: String)
    requires
        day_in_range(day as int),
    ensures
        r@ == calendar_text(day as int),
{
    format!("{}", chrono::NaiveDate::from_num_days_from_ce_opt(day).unwrap())
}

/// Calls `chrono::DateTime::from_timestamp` with no nanoseconds and hands back
/// the day number of the UTC date (`DateTime::date_naive`) of the instant.
/// Trusted of it: the instant exists exactly when its day can be represented,
/// and the day is the number of whole days since the Unix epoch, counted from
/// [`EPOCH_DAY`].
#[verifier::external_body]
fn chrono_day_of_timestamp(secs: i64) -> (r: Option<i32>)
    ensures
        day_of_timestamp(secs as int) == match r {
            Some(n) => Some(n as int),
            None => None,
        },
{
    chrono::DateTime::from_timestamp(secs, 0).map(
        |t| chrono::Datelike::num_days_from_ce(&t.date_naive()),
    )
}

/// Reads the system clock (`std::time::SystemTime::now`) as whole seconds
/// since the Unix epoch; `None` where the clock stands before the epoch or
/// the count does not fit. Nothing is claimed of the value.
#[verifier::external_body]
fn system_unix_seconds() -> Option<i64> {
    match std::time::SystemTime::now().duration_since(std::time::UNIX_EPOCH) {
        Ok(elapsed) => i64::try_from(elapsed.as_secs()).ok(),
        Err(_) => None,
    }
}

/// A calendar date.
#[derive(Debug, Clone, Copy, PartialEq, Eq, Structural, PartialOrd, Ord, Hash)]
pub struct Date {
    day: i32,
}

impl View for Date {
    type V = int;

    /// The day number of the date.
    closed spec fn view(&self) -> int {
        self.day as int
    }
}

impl Date {
    #[verifier::type_invariant]
    spec fn in_range(self) -> bool {
        day_in_range(self.day as int)
    }

    /// Two dates with the same day number are the same date.
    pub proof fn lemma_same_day(a: Date, b: Date)
        ensures
            a@ == b@ <==> a == b,
    {
    }

    /// The date with the given day number; `None` exactly where the number
    /// is outside [`MIN_DAY`]..=[`MAX_DAY`].
    pub fn from_day_number(day: i32) -> (r: Option<Date>)
        ensures
            r is Some <==> day_in_range(day as int),
            r matches Some(d) ==> d@ == day,
    {
        if MIN_DAY <= day && day <= MAX_DAY {
            Some(Date { day })
        } else {
            None
        }
    }

    /// The date of a year, month and day of month.
    pub fn from_ymd_opt(year: i32, month: u32, day: u32) -> (r: Option<Date>)
        ensures
            day_of_civil(year as int, month as int, day as int) == match r {
                Some(d) => Some(d@),
                None => None,
            },
    {
        match chrono_day_of_civil(year, month, day) {
            Some(n) => Some(Date { day: n }),
            None => None,
        }
    }

    /// The UTC date on which a Unix timestamp (seconds since 1970-01-01
    /// 00:00:00 UTC) falls; `None` exactly where that day cannot be
    /// represented.
    pub fn from_timestamp(secs: i64) -> (r: Option<Date>)
        ensures
            day_of_timestamp(secs as int) == match r {
                Some(d) => Some(d@),
                None => None,
            },
    {
        match chrono_day_of_timestamp(secs) {
            Some(n) => Some(Date { day: n }),
            None => None,
        }
    }

    /// The current UTC date. `None` where the system clock stands before
    /// 1970 or beyond the last date that can be represented.
    pub fn today() -> Option<Date> {
        match system_unix_seconds() {
            Some(secs) => Date::from_timestamp(secs),
            None => None,
        }
    }

    /// The day number of the date.
    pub fn day_number(&self) -> (r: i32)
        ensures
            r == self@,
            day_in_range(r as int),
    {
        proof {
            use_type_invariant(self);
        }
        self.day
    }

    /// The calendar year.
    pub fn year(&self) -> (r: i32)
        ensures
            r == civil_year(self@),
    {
        proof {
            use_type_invariant(self);
        }
        chrono_year(self.day)
    }

    /// The month, from 1.
    pub fn month(&self) -> (r: u32)
        ensures
            r == civil_month(self@),
    {
        proof {
            use_type_invariant(self);
        }
        chrono_month(self.day)
    }

    /// The ISO 8601 week: the week-based year and the week number.
    pub fn iso_week(&self) -> (r: (i32, u32))
        ensures
            (r.0 as int, r.1 as int) == iso_week(self@),
    {
        proof {
            use_type_invariant(self);
        }
        chrono_iso_week(self.day)
    }

    /// The written form of the date.
    pub fn to_string(&self) -> (r: String)
        ensures
            r@ == calendar_text(self@),
    {
        proof {
            use_type_invariant(self);
        }
        chrono_calendar_text(self.day)
    }

    /// Whether this date is strictly earlier than `other`.
    pub fn is_before(&self, other: &Date) -> (r: bool)
        ensures
            r == (self@ < other@),
    {
        self.day < other.day
    }
}

impl Default for Date {
    /// January 1, 1970.
    fn default() -> (r: Date)
        ensures
            r@ == EPOCH_DAY,
    {
        Date { day: EPOCH_DAY }
    }
}

/// A number of days.
#[derive(Debug, Clone, Copy, PartialEq, Eq, Structural)]
pub struct Days(pub u32);

impl Days {
    pub fn new(days: u32) -> (r: Days)
        ensures
            r.0 == days,
    {
        Days(days)
    }

    pub fn value(self) -> (r: u32)
        ensures
            r == self.0,
    {
        self.0
    }
}

/// An inclusive span of days, from `from` to `to`. A range whose `from` is
/// later than its `to` holds no day.
#[derive(Debug, Clone, Copy, PartialEq, Eq, Structural)]
pub struct DateRange {
    pub from: Date,
    pub to: Date,
}

impl DateRange {
    /// Number of days in the range.
    pub open spec fn spec_len(self) -> nat {
        if self.from@ <= self.to@ {
            (self.to@ - self.from@ + 1) as nat
        } else {
            0
        }
    }

    /// The day numbers of the range, ascending.
    pub open spec fn days(self) -> Seq<int> {
        Seq::new(self.spec_len(), |i: int| self.from@ + i)
    }

    /// Whether the day with the given number lies in the range.
    pub open spec fn holds(self, day: int) -> bool {
        self.from@ <= day <= self.to@
    }

    /// The range ending at `to` that holds `n` days: its first day is the day
    /// `n - 1` days before `to`.
    pub open spec fn ends_at(self, to: Date, n: Days) -> bool {
        self.to == to && self.from@ == to@ - (n.0 - 1)
    }

    pub fn new(from: Date, to: Date) -> (r: DateRange)
        ensures
            r.from == from,
            r.to == to,
    {
        DateRange { from, to }
    }

    /// The range of `n` days that ends at `to`; `None` exactly where its
    /// first day cannot be represented.
    pub fn ending_at(to: Date, n: Days) -> (r: Option<DateRange>)
        ensures
            day_in_range(to@),
            r is Some <==> day_in_range(to@ - (n.0 - 1)),
            r matches Some(range) ==> range.ends_at(to, n),
    {
        let last: i64 = to.day_number() as i64;
        let first: i64 = last - (n.0 as i64 - 1);
        if (MIN_DAY as i64) <= first && first <= (MAX_DAY as i64) {
            match Date::from_day_number(first as i32) {
                Some(from) => Some(DateRange { from, to }),
                None => None,
            }
        } else {
            None
        }
    }

    /// The `n` days up to and including the current UTC date. `None` where
    /// the clock gives no date, or the first day cannot be represented.
    pub fn last_n_days(n: Days) -> (r: Option<DateRange>)
        ensures
            r matches Some(range) ==> range.ends_at(range.to, n),
    {
        match Date::today() {
            Some(to) => DateRange::ending_at(to, n),
            None => None,
        }
    }

    /// Number of days in the range.
    pub fn len(&self) -> (r: u32)
        ensures
            r == self.spec_len(),
    {
        let first = self.from.day_number();
        let last = self.to.day_number();
        if first <= last {
            (last as i64 - first as i64 + 1) as u32
        } else {
            0
        }
    }

    /// Whether `date` lies in the range.
    pub fn contains(&self, date: &Date) -> (r: bool)
        ensures
            r == self.holds(date@),
    {
        let day = date.day_number();
        self.from.day_number() <= day && day <= self.to.day_number()
    }

    /// The day at a position of the range, counted from 0 at `from`; `None`
    /// beyond the last day.
    pub fn day_at(&self, index: u32) -> (r: Option<Date>)
        ensures
            r is Some <==> index < self.spec_len(),
            r matches Some(d) ==> d@ == self.from@ + index,
    {
        let first = self.from.day_number();
        let last = self.to.day_number();
        let day: i64 = first as i64 + index as i64;
        if day <= last as i64 {
            Date::from_day_number(day as i32)
        } else {
            None
        }
    }

    /// The days of the range, from `from` to `to`, ascending.
    pub fn iter_days(&self) -> (r: Vec<Date>)
        ensures
            r@.map_values(|d: Date| d@) == self.days(),
    {
        let first = self.from.day_number();
        let last = self.to.day_number();
        let mut out: Vec<Date> = Vec::new();
        if first <= last {
            let mut day: i32 = first;
            loop
                invariant_except_break
                    first <= day <= last,
                    out@.len() == day - first,
                invariant
                    first == self.from@,
                    last == self.to@,
                    day_in_range(first as int),
                    day_in_range(last as int),
                    forall|i: int| 0 <= i < out@.len() ==> (#[trigger] out@[i])@ == first + i,
                ensures
                    out@.len() == last - first + 1,
                decreases last - day,
            {
                match Date::from_day_number(day) {
                    Some(d) => out.push(d),
                    None => {
                        // every day between two dates is a date
                        assert(false);
                    },
                }
                if day == last {
                    break ;
                }
                day = day + 1;
            }
        }
        assert(out@.map_values(|d: Date| d@) =~= self.days());
        out
    }
}

} // verus!
