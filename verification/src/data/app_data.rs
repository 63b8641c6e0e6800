use vstd::prelude::*;
use vstd::string::*;

use chrono::{Datelike, NaiveDate, NaiveDateTime, Timelike};

use crate::domain::SLOTS_PER_DAY;
use crate::text::{concat3, concat4};

verus! {

/// The projects whose resumes and tasks ship with the application.
#[derive(Debug, Clone, Copy, PartialEq, Eq, Structural)]
pub enum DemoData {
    PlatformReliability,
    ProductLaunch,
}

/// The project loaded when none is chosen.
pub fn default_demo_data() -> (d: DemoData)
    ensures
        d == DemoData::PlatformReliability,
{
    DemoData::PlatformReliability
}

/// Every available project, in catalog order.
pub fn available_demo_data() -> (all: &'static [DemoData])
    ensures
        all@ == seq![DemoData::PlatformReliability, DemoData::ProductLaunch],
{
    let all: &'static [DemoData] = &[DemoData::PlatformReliability, DemoData::ProductLaunch];
    assert(all@ =~= seq![DemoData::PlatformReliability, DemoData::ProductLaunch]);
    all
}

impl DemoData {
    /// The project's identifier, as used in URLs and data paths.
    pub open spec fn spec_id(self) -> Seq<char> {
        match self {
            DemoData::PlatformReliability => "platform-reliability"@,
            DemoData::ProductLaunch => "product-launch"@,
        }
    }

    pub fn id(self) -> (id: &'static str)
        ensures
            id@ == self.spec_id(),
    {
        match self {
            DemoData::PlatformReliability => "platform-reliability",
            DemoData::ProductLaunch => "product-launch",
        }
    }

    pub fn default_demo_data() -> (d: Self)
        ensures
            d == DemoData::PlatformReliability,
    {
        default_demo_data()
    }

    pub fn available_demo_data() -> (all: &'static [Self])
        ensures
            all@ == seq![DemoData::PlatformReliability, DemoData::ProductLaunch],
    {
        available_demo_data()
    }
}

/// A character's code with ASCII upper-case letters folded to lower case.
pub open spec fn ascii_folded(c: char) -> u32 {
    if 65 <= (c as u32) <= 90 {
        (c as u32 + 32) as u32
    } else {
        c as u32
    }
}

/// Equal lengths and equal characters up to ASCII case.
pub open spec fn eq_ignore_ascii_case(a: Seq<char>, b: Seq<char>) -> bool {
    a.len() == b.len() && forall|i: int| 0 <= i < a.len() ==> ascii_folded(#[trigger] a[i]) == ascii_folded(b[i])
}

fn fold_ascii(c: char) -> (code: u32)
    ensures
        code == ascii_folded(c),
{
    let code = c as u32;
    if 65 <= code && code <= 90 {
        code + 32
    } else {
        code
    }
}

/// Whether two strings are equal when ASCII letters are compared without case.
pub fn str_eq_ignore_ascii_case(a: &str, b: &str) -> (eq: bool)
    ensures
        eq == eq_ignore_ascii_case(a@, b@),
{
    let n = a.unicode_len();
    if n != b.unicode_len() {
        return false;
    }
    let mut i: usize = 0;
    while i < n
        invariant
            n == a@.len(),
            n == b@.len(),
            i <= n,
            forall|k: int| 0 <= k < i ==> ascii_folded(#[trigger] a@[k]) == ascii_folded(b@[k]),
        decreases n - i,
    {
        if fold_ascii(a.get_char(i)) != fold_ascii(b.get_char(i)) {
            return false;
        }
        i = i + 1;
    }
    true
}

/// The project whose identifier matches `value`, ignoring ASCII case.
pub open spec fn project_named(value: Seq<char>) -> Option<DemoData> {
    if eq_ignore_ascii_case(DemoData::PlatformReliability.spec_id(), value) {
        Some(DemoData::PlatformReliability)
    } else if eq_ignore_ascii_case(DemoData::ProductLaunch.spec_id(), value) {
        Some(DemoData::ProductLaunch)
    } else {
        None
    }
}

/// Finds the available project whose identifier equals `value` up to ASCII
/// case, in catalog order.
pub fn parse_project(value: &str) -> (project: Option<DemoData>)
    ensures
        project == project_named(value@),
{
    let all = available_demo_data();
    let mut i: usize = 0;
    while i < all.len()
        invariant
            all@ == seq![DemoData::PlatformReliability, DemoData::ProductLaunch],
            i <= 2,
            forall|k: int| 0 <= k < i ==> !eq_ignore_ascii_case((#[trigger] all@[k]).spec_id(), value@),
        decreases 2 - i,
    {
        let project = all[i];
        if str_eq_ignore_ascii_case(project.id(), value) {
            return Some(project);
        }
        i = i + 1;
    }
    None
}

impl std::str::FromStr for DemoData {
    type Err = ();

    fn from_str(value: &str) -> (r: Result<Self, Self::Err>)
        ensures
            match project_named(value@) {
                Some(project) => r == Ok::<DemoData, ()>(project),
                None => r == Err::<DemoData, ()>(()),
            },
    {
        match parse_project(value) {
            Some(project) => Ok(project),
            None => Err(()),
        }
    }
}

/// A project's own identifier always reads back as that project, whatever
/// the ASCII case it is written in.
pub proof fn lemma_project_id_round_trip(project: DemoData, value: Seq<char>)
    requires
        eq_ignore_ascii_case(project.spec_id(), value),
    ensures
        project_named(value) == Some(project),
{
    reveal_strlit("platform-reliability");
    reveal_strlit("product-launch");
    if project == DemoData::ProductLaunch {
        assert(!eq_ignore_ascii_case(DemoData::PlatformReliability.spec_id(), value));
    }
}

/// The date and clock time chrono reads from `value` in the
/// `%Y-%m-%dT%H:%M:%S` format: the day number counted from 1 January of year 1
/// (day 1), the hour and the minute; or chrono's parse error message.
pub uninterp spec fn parsed_timestamp(value: Seq<char>) -> Result<(i32, u32, u32), Seq<char>>;

/// A leap year of the proleptic Gregorian calendar (year 0 is one).
pub open spec fn is_leap_year(year: int) -> bool {
    year % 4 == 0 && (year % 100 != 0 || year % 400 == 0)
}

/// The number of days of a month, 1 to 12.
pub open spec fn month_length(year: int, month: int) -> int {
    if month == 2 {
        if is_leap_year(year) { 29 } else { 28 }
    } else if month == 4 || month == 6 || month == 9 || month == 11 {
        30
    } else {
        31
    }
}

/// The days of a year before the first of a month.
pub open spec fn days_before_month(year: int, month: int) -> int
    decreases month,
{
    if month <= 1 {
        0
    } else {
        days_before_month(year, month - 1) + month_length(year, month - 1)
    }
}

/// A date chrono can hold: a real day of a real month, in a year from
/// -262143 to 262142.
pub open spec fn is_calendar_date(year: int, month: int, day: int) -> bool {
    &&& -262143 <= year <= 262142
    &&& 1 <= month <= 12
    &&& 1 <= day <= month_length(year, month)
}

/// The day number of a date, counted from 1 January of year 1 (day 1): the
/// date's day of the year plus 365 days for each earlier year since year 1,
/// and one more for each earlier leap year.
pub open spec fn days_from_ce(year: int, month: int, day: int) -> int {
    let before = year - 1;
    days_before_month(year, month) + day + 365 * before + before / 4 - before / 100 + before / 400
}

/// `NaiveDateTime::parse_from_str(value, "%Y-%m-%dT%H:%M:%S")` of chrono,
/// read back as the date's `num_days_from_ce` and the time's hour and minute;
/// a parse error is returned as its message. chrono documents the hour as
/// below 24 and the minute as below 60.
#[verifier::external_body]
fn parse_timestamp(value: &str) -> (r: Result<(i32, u32, u32), String>)
    ensures
        match r {
            Ok(fields) => parsed_timestamp(value@) == Ok::<(i32, u32, u32), Seq<char>>(fields),
            Err(message) => parsed_timestamp(value@) == Err::<(i32, u32, u32), Seq<char>>(message@),
        },
        r matches Ok((_, hour, minute)) ==> hour < 24 && minute < 60,
{
    match NaiveDateTime::parse_from_str(value, "%Y-%m-%dT%H:%M:%S") {
        Ok(date_time) => Ok((
            date_time.date().num_days_from_ce(),
            date_time.time().hour(),
            date_time.time().minute(),
        )),
        Err(error) => Err(error.to_string()),
    }
}

/// `NaiveDate::from_ymd_opt(year, month, day)` of chrono, read back as its
/// `num_days_from_ce`. chrono gives `None` for a day that does not exist,
/// an invalid month or day, or a year out of its range, and otherwise the
/// proleptic Gregorian day number.
#[verifier::external_body]
fn day_number(year: i32, month: u32, day: u32) -> (r: Option<i32>)
    ensures
        r is Some <==> is_calendar_date(year as int, month as int, day as int),
        r matches Some(n) ==> n == days_from_ce(year as int, month as int, day as int),
{
    NaiveDate::from_ymd_opt(year, month, day).map(|date| date.num_days_from_ce())
}

/// Minutes per slot.
pub const SLOT_MINUTES: i64 = 30;

/// The slot a clock time falls on, `days` after the first horizon day: the
/// time must lie on the half-hour grid between 09:00 and 18:00 of one of the
/// five days.
pub open spec fn work_week_slot(days: int, hour: int, minute: int) -> Option<int> {
    let work_minute = hour * 60 + minute - 9 * 60;
    if 0 <= days < 5 && 0 <= work_minute <= 9 * 60 && work_minute % 30 == 0 {
        Some(days * 18 + work_minute / 30)
    } else {
        None
    }
}

/// The slot of a day offset and clock time on the work-week grid.
pub fn slot_in_work_week(days: i64, hour: u32, minute: u32) -> (r: Option<usize>)
    requires
        hour < 24,
        minute < 60,
    ensures
        r matches Some(slot) ==> work_week_slot(days as int, hour as int, minute as int) == Some(slot as int),
        r is None ==> work_week_slot(days as int, hour as int, minute as int) is None,
{
    let minute_of_day: i64 = (hour * 60 + minute) as i64;
    let work_minute = minute_of_day - 9 * 60;
    if !(0 <= days && days < 5) || !(0 <= work_minute && work_minute <= 9 * 60) || work_minute
        % SLOT_MINUTES != 0 {
        return None;
    }
    let slot = days * (SLOTS_PER_DAY as i64) + work_minute / SLOT_MINUTES;
    Some(slot as usize)
}

/// The message for a timestamp chrono could not read.
pub open spec fn invalid_timestamp_message(value: Seq<char>, error: Seq<char>) -> Seq<char> {
    "invalid calendar timestamp "@ + value + ": "@ + error
}

/// The message for a timestamp off the work-week grid.
pub open spec fn off_grid_message(value: Seq<char>) -> Seq<char> {
    "timestamp "@ + value + " is outside the half-hour work-week grid"@
}

/// What `to_slot` gives for `value`: the slot of the timestamp chrono reads,
/// counted from Monday 21 September 2026, 09:00.
pub open spec fn timestamp_slot(value: Seq<char>) -> Result<int, Seq<char>> {
    match parsed_timestamp(value) {
        Err(error) => Err(invalid_timestamp_message(value, error)),
        Ok((day, hour, minute)) => {
            let days = day - days_from_ce(2026, 9, 21);
            match work_week_slot(days, hour as int, minute as int) {
                Some(slot) => Ok(slot),
                None => Err(off_grid_message(value)),
            }
        },
    }
}

/// Maps a `YYYY-MM-DDTHH:MM:SS` timestamp to its half-hour slot in the work
/// week that starts on Monday 21 September 2026 at 09:00. Seconds are read
/// but play no part.
pub fn to_slot(value: &str) -> (r: Result<usize, String>)
    ensures
        match r {
            Ok(slot) => timestamp_slot(value@) == Ok::<int, Seq<char>>(slot as int),
            Err(message) => timestamp_slot(value@) == Err::<int, Seq<char>>(message@),
        },
{
    let (day, hour, minute) = match parse_timestamp(value) {
        Ok(fields) => fields,
        Err(error) => return Err(concat4("invalid calendar timestamp ", value, ": ", error.as_str())),
    };
    let horizon_day = match day_number(2026, 9, 21) {
        Some(horizon_day) => horizon_day,
        None => return Err(concat3("timestamp ", value, " precedes the horizon")),
    };
    let days: i64 = day as i64 - horizon_day as i64;
    match slot_in_work_week(days, hour, minute) {
        Some(slot) => Ok(slot),
        None => Err(concat3("timestamp ", value, " is outside the half-hour work-week grid")),
    }
}

} // verus!

verus! {

/// Every slot a timestamp maps to lies in the horizon, `0..=90`, and the
/// slot of a day's 09:00 is the day's first slot.
pub proof fn lemma_slots_within_horizon(value: Seq<char>)
    ensures
        timestamp_slot(value) matches Ok(slot) ==> 0 <= slot <= 90,
        forall|days: int| 0 <= days < 5 ==> #[trigger] work_week_slot(days, 9, 0) == Some(days * 18),
{
}

} // verus!
