//! The city-events source's data and its cache-partitioning rules: which
//! issue instant and lifetime a scraped events page is stored under, one
//! rule per listing cycle (day, week, weekend, month). The calendar
//! arithmetic those rules need — day numbers, weekdays, week-of-month —
//! is spelled out and verified here rather than taken on trust.

use crate::key::{spec_new_key, StorageKey};
use crate::timestamp::{days_in_month, is_leap_year, Timestamp};
use vstd::prelude::*;

verus! {

/// Which listing cycle a scraped events page covers.
#[derive(Clone, Copy, PartialEq, Eq, Structural, Debug)]
pub enum ThingsToDoCycle {
    Today,
    Week,
    Weekend,
    Month,
}

/// One scraped article: its title, tags, text and outgoing links.
pub struct ArticleContent {
    pub title: String,
    pub tags: Vec<String>,
    pub content: String,
    pub links: Vec<String>,
}

/// A whole scraped events page: when it was written and its articles.
pub struct ThingsToDo {
    pub written: String,
    pub article: Vec<ArticleContent>,
}

impl ThingsToDo {
    /// How many articles the page carries.
    pub fn len(&self) -> (r: usize)
        ensures
            r == self.article@.len(),
    {
        self.article.len()
    }
}

// ---------------------------------------------------------------------------
// Calendar arithmetic
// ---------------------------------------------------------------------------
pub open spec fn days_in_year(y: int) -> int {
    if is_leap_year(y) {
        366
    } else {
        365
    }
}

/// Days lying strictly before year `y`, counted from the first of year 1.
pub open spec fn days_before_year(y: int) -> int
    decreases y,
{
    if y <= 1 {
        0
    } else {
        days_before_year(y - 1) + days_in_year(y - 1)
    }
}

/// Days of year `y` lying strictly before month `m`.
pub open spec fn days_before_month(y: int, m: int) -> int
    decreases m,
{
    if m <= 1 {
        0
    } else {
        days_before_month(y, m - 1) + days_in_month(y, m - 1)
    }
}

/// The zero-based day number of a date, day zero being the first of
/// January of year 1.
pub open spec fn day_number(y: int, m: int, d: int) -> int {
    days_before_year(y) + days_before_month(y, m) + d - 1
}

/// The weekday of a date, zero standing for Monday: day zero of the
/// proleptic Gregorian calendar is a Monday.
pub open spec fn weekday(y: int, m: int, d: int) -> int {
    day_number(y, m, d) % 7
}

proof fn lemma_days_before_year_bound(y: int)
    requires
        1 <= y,
    ensures
        days_before_year(y) <= 366 * (y - 1),
        0 <= days_before_year(y),
    decreases y,
{
    if y > 1 {
        lemma_days_before_year_bound(y - 1);
    }
}

fn days_in_year_x(y: u32) -> (r: u32)
    ensures
        r == days_in_year(y as int),
{
    if (y % 4 == 0 && y % 100 != 0) || y % 400 == 0 {
        366
    } else {
        365
    }
}

/// The executable day number.
pub fn day_number_x(y: u32, m: u32, d: u32) -> (r: u64)
    requires
        1 <= y <= 10001,
        1 <= m <= 12,
        1 <= d <= 31,
    ensures
        r == day_number(y as int, m as int, d as int),
{
    let mut sum: u64 = 0;
    let mut i: u32 = 1;
    while i < y
        invariant
            1 <= i <= y,
            y <= 10001,
            sum == days_before_year(i as int),
            sum <= 366 * (i - 1),
        decreases y - i,
    {
        proof {
            lemma_days_before_year_bound(i as int);
        }
        sum = sum + days_in_year_x(i) as u64;
        i += 1;
    }
    proof {
        lemma_days_before_year_bound(y as int);
    }
    let mut mo: u32 = 1;
    while mo < m
        invariant
            1 <= mo <= m,
            m <= 12,
            y <= 10001,
            sum == days_before_year(y as int) + days_before_month(y as int, mo as int),
            sum <= 366 * 10000 + 31 * (mo - 1),
        decreases m - mo,
    {
        sum = sum + crate::timestamp::month_length(y, mo) as u64;
        mo += 1;
    }
    sum + d as u64 - 1
}

/// The executable weekday, zero standing for Monday.
pub fn weekday_x(y: u32, m: u32, d: u32) -> (r: u32)
    requires
        1 <= y <= 10001,
        1 <= m <= 12,
        1 <= d <= 31,
    ensures
        r == weekday(y as int, m as int, d as int),
        r <= 6,
{
    (day_number_x(y, m, d) % 7) as u32
}

/// The one-based week of the month a day falls in, weeks cut at Mondays
/// and the first of the month opening week one.
pub open spec fn spec_week_of_month(y: int, m: int, d: int) -> int {
    (d + weekday(y, m, 1) - 1) / 7 + 1
}

pub fn week_of_month(year: u32, month: u32, day: u32) -> (r: u32)
    requires
        1 <= year <= 10000,
        1 <= month <= 12,
        1 <= day <= 31,
    ensures
        r == spec_week_of_month(year as int, month as int, day as int),
{
    let first_weekday = weekday_x(year, month, 1);
    (day + first_weekday - 1) / 7 + 1
}

/// Days from a date to the first of the next month.
pub open spec fn spec_days_until_next_month(t: Timestamp) -> int {
    if t.month == 12 {
        day_number(t.year + 1, 1, 1) - day_number(t.year as int, t.month as int, t.day as int)
    } else {
        day_number(t.year as int, t.month as int + 1, 1) - day_number(
            t.year as int,
            t.month as int,
            t.day as int,
        )
    }
}

pub fn days_until_next_month(t: &Timestamp) -> (r: u64)
    requires
        t.valid(),
    ensures
        r == spec_days_until_next_month(*t),
        r <= 31,
    {
    let here = day_number_x(t.year, t.month, t.day);
    let there = if t.month == 12 {
        day_number_x(t.year + 1, 1, 1)
    } else {
        day_number_x(t.year, t.month + 1, 1)
    };
    proof {
        lemma_next_month_gap(t.year as int, t.month as int, t.day as int);
    }
    there - here
}

/// The first of the next month stands at most a month, and at least a day,
/// past any valid day of a month.
proof fn lemma_next_month_gap(y: int, m: int, d: int)
    requires
        1 <= y <= 9999,
        1 <= m <= 12,
        1 <= d <= days_in_month(y, m),
    ensures
        m < 12 ==> {
            &&& day_number(y, m + 1, 1) - day_number(y, m, d) == days_in_month(y, m) - d + 1
            &&& 1 <= day_number(y, m + 1, 1) - day_number(y, m, d) <= 31
        },
        m == 12 ==> {
            &&& day_number(y + 1, 1, 1) - day_number(y, m, d) == days_in_month(y, m) - d + 1
            &&& 1 <= day_number(y + 1, 1, 1) - day_number(y, m, d) <= 31
        },
{
    if m < 12 {
        assert(days_before_month(y, m + 1) == days_before_month(y, m) + days_in_month(y, m));
    } else {
        assert(days_before_year(y + 1) == days_before_year(y) + days_in_year(y));
        lemma_year_days_sum(y);
    }
}

/// A year's days are its twelve months' days.
proof fn lemma_year_days_sum(y: int)
    ensures
        days_before_month(y, 13) == days_in_year(y),
{
    reveal_with_fuel(days_before_month, 14);
    if is_leap_year(y) {
        assert(days_before_month(y, 13) == 366);
    } else {
        assert(days_before_month(y, 13) == 365);
    }
}

/// The one-based number of the most recent weekend (cut at Saturdays) of a
/// day's month, or zero when no Saturday has passed yet.
pub open spec fn spec_weekend_number(t: Timestamp) -> int {
    let first_sat = 1 + (5 - weekday(t.year as int, t.month as int, 1) + 7) % 7;
    if t.day < first_sat {
        0
    } else {
        (t.day - first_sat) / 7 + 1
    }
}

pub fn weekend_number_or_last(t: &Timestamp) -> (r: u32)
    requires
        t.valid(),
    ensures
        r == spec_weekend_number(*t),
{
    let fw = weekday_x(t.year, t.month, 1);
    let first_sat = 1 + (5 + 7 - fw) % 7;
    if t.day < first_sat {
        0
    } else {
        (t.day - first_sat) / 7 + 1
    }
}

// ---------------------------------------------------------------------------
// Cache partitioning of the events pages
// ---------------------------------------------------------------------------
/// The logical cache name of a cycle's events page.
pub open spec fn timeout_constant(variant: ThingsToDoCycle) -> Seq<char> {
    match variant {
        ThingsToDoCycle::Today => "time-out-nyc-today"@,
        ThingsToDoCycle::Week => "time-out-nyc-week"@,
        ThingsToDoCycle::Weekend => "time-out-nyc-weekend"@,
        ThingsToDoCycle::Month => "time-out-nyc-month"@,
    }
}

pub fn timeout_variant_cache_constant(variant: ThingsToDoCycle) -> (r: String)
    ensures
        r@ == timeout_constant(variant),
{
    match variant {
        ThingsToDoCycle::Today => String::from_str("time-out-nyc-today"),
        ThingsToDoCycle::Week => String::from_str("time-out-nyc-week"),
        ThingsToDoCycle::Weekend => String::from_str("time-out-nyc-weekend"),
        ThingsToDoCycle::Month => String::from_str("time-out-nyc-month"),
    }
}

/// Which issue instant and lifetime a cycle's page is stored under: a page
/// scraped for an already-passed slot (day of month, week, weekend) is
/// issued now; a current one is issued at its article time. A day page
/// lives one day, a week page seven, a weekend page the stock lifetime,
/// and a month page to the first of the next month.
pub open spec fn timeout_key_choice(
    variant: ThingsToDoCycle,
    article_time: Timestamp,
    now: Timestamp,
) -> (Timestamp, Option<u64>) {
    match variant {
        ThingsToDoCycle::Today => {
            let issued = if article_time.day < now.day {
                now
            } else {
                article_time
            };
            (issued, Some(1u64))
        },
        ThingsToDoCycle::Week => {
            let aw = spec_week_of_month(
                article_time.year as int,
                article_time.month as int,
                article_time.day as int,
            );
            let cw = spec_week_of_month(now.year as int, now.month as int, now.day as int);
            let issued = if aw < cw {
                now
            } else {
                article_time
            };
            (issued, Some(7u64))
        },
        ThingsToDoCycle::Weekend => {
            let aw = spec_weekend_number(article_time);
            let cw = spec_weekend_number(now);
            let issued = if aw < cw {
                now
            } else {
                article_time
            };
            (issued, None)
        },
        ThingsToDoCycle::Month => {
            if article_time.month < now.day {
                (now, Some(spec_days_until_next_month(now) as u64))
            } else {
                (article_time, Some(spec_days_until_next_month(article_time) as u64))
            }
        },
    }
}

/// The storage key a cycle's events page is cached under.
pub fn timeout_variants_storage_key(
    variant: ThingsToDoCycle,
    article_time: Timestamp,
    now: Timestamp,
) -> (k: StorageKey)
    requires
        article_time.valid(),
        now.valid(),
        article_time.year <= 9899,
        now.year <= 9899,
    ensures
        ({
            let choice = timeout_key_choice(variant, article_time, now);
            k@ == spec_new_key(timeout_constant(variant), choice.0, choice.1)
        }),
        k.wf(),
{
    let constant = timeout_variant_cache_constant(variant);
    let (issued_at, expires_in): (Timestamp, Option<u64>) = match variant {
        ThingsToDoCycle::Today => {
            let issued = if article_time.day < now.day {
                now
            } else {
                article_time
            };
            (issued, Some(1u64))
        },
        ThingsToDoCycle::Week => {
            let aw = week_of_month(article_time.year, article_time.month, article_time.day);
            let cw = week_of_month(now.year, now.month, now.day);
            let issued = if aw < cw {
                now
            } else {
                article_time
            };
            (issued, Some(7u64))
        },
        ThingsToDoCycle::Weekend => {
            let aw = weekend_number_or_last(&article_time);
            let cw = weekend_number_or_last(&now);
            let issued = if aw < cw {
                now
            } else {
                article_time
            };
            (issued, None)
        },
        ThingsToDoCycle::Month => {
            if article_time.month < now.day {
                (now, Some(days_until_next_month(&now)))
            } else {
                (article_time, Some(days_until_next_month(&article_time)))
            }
        },
    };
    StorageKey::new(constant.as_str(), issued_at, expires_in)
}

} // verus!
