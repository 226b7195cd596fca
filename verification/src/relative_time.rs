//! How long ago things happened, in the words and forms the panels use.
use vstd::prelude::*;

verus! {

/// How long ago something happened, rounded the way the task panel shows it.
#[derive(PartialEq, Eq, Structural, Clone, Copy, Debug)]
pub enum RelativeTime {
    JustNow,
    MinutesAgo(i64),
    HoursAgo(i64),
    Yesterday,
    DayBeforeYesterday,
    DaysAgo(i64),
    OneWeekAgo,
    WeeksAgo(i64),
    MonthsAgo(i64),
    YearsAgo(i64),
}

/// The relative time shown for a task created `secs` whole seconds ago (negative when it
/// lies in the future). Minutes, hours and days are whole units; a month is 30 days and a
/// year 365.
pub open spec fn relative_time_of(secs: int) -> RelativeTime {
    let minutes = secs / 60;
    let hours = secs / 3600;
    let days = secs / 86400;
    if secs < 60 {
        RelativeTime::JustNow
    } else if minutes < 60 {
        RelativeTime::MinutesAgo(minutes as i64)
    } else if hours < 24 {
        RelativeTime::HoursAgo(hours as i64)
    } else if days == 1 {
        RelativeTime::Yesterday
    } else if days == 2 {
        RelativeTime::DayBeforeYesterday
    } else if days < 7 {
        RelativeTime::DaysAgo(days as i64)
    } else if days < 30 {
        if days / 7 == 1 {
            RelativeTime::OneWeekAgo
        } else {
            RelativeTime::WeeksAgo((days / 7) as i64)
        }
    } else if days < 365 {
        RelativeTime::MonthsAgo((days / 30) as i64)
    } else {
        RelativeTime::YearsAgo((days / 365) as i64)
    }
}

/// The relative time shown for a task created `elapsed_secs` whole seconds ago.
pub fn format_relative_time(elapsed_secs: i64) -> (r: RelativeTime)
    ensures
        r == relative_time_of(elapsed_secs as int),
{
    if elapsed_secs < 60 {
        return RelativeTime::JustNow;
    }
    let minutes = elapsed_secs / 60;
    let hours = elapsed_secs / 3600;
    let days = elapsed_secs / 86400;
    if minutes < 60 {
        RelativeTime::MinutesAgo(minutes)
    } else if hours < 24 {
        RelativeTime::HoursAgo(hours)
    } else if days == 1 {
        RelativeTime::Yesterday
    } else if days == 2 {
        RelativeTime::DayBeforeYesterday
    } else if days < 7 {
        RelativeTime::DaysAgo(days)
    } else if days < 30 {
        let weeks = days / 7;
        if weeks == 1 {
            RelativeTime::OneWeekAgo
        } else {
            RelativeTime::WeeksAgo(weeks)
        }
    } else if days < 365 {
        RelativeTime::MonthsAgo(days / 30)
    } else {
        RelativeTime::YearsAgo(days / 365)
    }
}

/// Translation key and count of a relative time.
pub fn relative_time_key(t: RelativeTime) -> (r: (&'static str, Option<i64>))
    ensures
        r.1 == (match t {
            RelativeTime::MinutesAgo(n) | RelativeTime::HoursAgo(n) | RelativeTime::DaysAgo(n)
            | RelativeTime::WeeksAgo(n) | RelativeTime::MonthsAgo(n) | RelativeTime::YearsAgo(
                n,
            ) => Some(n),
            _ => None,
        }),
        r.0@ == (match t {
            RelativeTime::JustNow => "task_panel.time.just_now"@,
            RelativeTime::MinutesAgo(_) => "task_panel.time.minutes_ago"@,
            RelativeTime::HoursAgo(_) => "task_panel.time.hours_ago"@,
            RelativeTime::Yesterday => "task_panel.time.yesterday"@,
            RelativeTime::DayBeforeYesterday => "task_panel.time.day_before_yesterday"@,
            RelativeTime::DaysAgo(_) => "task_panel.time.days_ago"@,
            RelativeTime::OneWeekAgo => "task_panel.time.one_week_ago"@,
            RelativeTime::WeeksAgo(_) => "task_panel.time.weeks_ago"@,
            RelativeTime::MonthsAgo(_) => "task_panel.time.months_ago"@,
            RelativeTime::YearsAgo(_) => "task_panel.time.years_ago"@,
        }),
{
    match t {
        RelativeTime::JustNow => ("task_panel.time.just_now", None),
        RelativeTime::MinutesAgo(n) => ("task_panel.time.minutes_ago", Some(n)),
        RelativeTime::HoursAgo(n) => ("task_panel.time.hours_ago", Some(n)),
        RelativeTime::Yesterday => ("task_panel.time.yesterday", None),
        RelativeTime::DayBeforeYesterday => ("task_panel.time.day_before_yesterday", None),
        RelativeTime::DaysAgo(n) => ("task_panel.time.days_ago", Some(n)),
        RelativeTime::OneWeekAgo => ("task_panel.time.one_week_ago", None),
        RelativeTime::WeeksAgo(n) => ("task_panel.time.weeks_ago", Some(n)),
        RelativeTime::MonthsAgo(n) => ("task_panel.time.months_ago", Some(n)),
        RelativeTime::YearsAgo(n) => ("task_panel.time.years_ago", Some(n)),
    }
}

/// Which day group of the timeline a task falls in.
#[derive(PartialEq, Eq, Structural, Clone, Copy, Debug)]
pub enum DayGroup {
    Today,
    Yesterday,
    Older,
    /// After today (the timeline shows such tasks in no group).
    Future,
}

/// The timeline group of local day `day` when today is `today`.
pub open spec fn day_group_of(day: int, today: int) -> DayGroup {
    if day == today {
        DayGroup::Today
    } else if day == today - 1 {
        DayGroup::Yesterday
    } else if day < today - 1 {
        DayGroup::Older
    } else {
        DayGroup::Future
    }
}

/// The timeline group of a task created on local day `day` when today is `today`
/// (days counted from a common epoch).
pub fn day_group(day: i64, today: i64) -> (r: DayGroup)
    ensures
        r == day_group_of(day as int, today as int),
{
    if day == today {
        DayGroup::Today
    } else if today > i64::MIN && day == today - 1 {
        DayGroup::Yesterday
    } else if today > i64::MIN && day < today - 1 {
        DayGroup::Older
    } else {
        DayGroup::Future
    }
}

} // verus!

verus! {

// ---------------------------------------------------------------------------
// Elapsed time of a running session
// ---------------------------------------------------------------------------

/// `n` in decimal with at least two digits (`{:02}`).
pub open spec fn two_digits(n: nat) -> Seq<char> {
    if n < 10 {
        "0"@ + crate::text::decimal(n)
    } else {
        crate::text::decimal(n)
    }
}

/// The elapsed time `HH:MM:SS` shown while a session runs, for `secs` seconds since it was
/// last active (a time in the future counts as none).
pub open spec fn elapsed_text(secs: int) -> Seq<char> {
    let t: nat = if secs < 0 {
        0
    } else {
        secs as nat
    };
    two_digits(t / 3600) + ":"@ + two_digits((t % 3600) / 60) + ":"@ + two_digits(t % 60)
}

fn two_digit_string(n: u64) -> (r: String)
    ensures
        r@ == two_digits(n as nat),
{
    let d = crate::text::decimal_string_u64(n);
    if n < 10 {
        crate::text::concat2("0", d.as_str())
    } else {
        d
    }
}

/// The elapsed time `HH:MM:SS` of a running session, `elapsed_secs` seconds after it was
/// last active (a negative value shows `00:00:00`).
pub fn elapsed_label(elapsed_secs: i64) -> (r: String)
    ensures
        r@ == elapsed_text(elapsed_secs as int),
{
    let t: u64 = if elapsed_secs < 0 {
        0
    } else {
        elapsed_secs as u64
    };
    let h = two_digit_string(t / 3600);
    let m = two_digit_string((t % 3600) / 60);
    let s = two_digit_string(t % 60);
    let a = crate::text::concat3(h.as_str(), ":", m.as_str());
    crate::text::concat3(a.as_str(), ":", s.as_str())
}

} // verus!

verus! {

// ---------------------------------------------------------------------------
// Laws
// ---------------------------------------------------------------------------

/// How long ago something happened, by ranges of elapsed seconds: under a minute is
/// "just now"; then whole minutes (1 to 59), whole hours (1 to 23), yesterday, the day
/// before, whole days (3 to 6), one week (7 to 13 days), whole weeks (2 to 4), whole
/// 30-day months (1 to 12) and whole 365-day years.
pub proof fn lemma_relative_time_ranges(secs: int)
    ensures
        secs < 60 ==> relative_time_of(secs) == RelativeTime::JustNow,
        60 <= secs < 3600 ==> relative_time_of(secs) == RelativeTime::MinutesAgo((secs / 60) as i64)
            && 1 <= secs / 60 < 60,
        3600 <= secs < 86400 ==> relative_time_of(secs) == RelativeTime::HoursAgo((secs / 3600) as i64)
            && 1 <= secs / 3600 < 24,
        86400 <= secs < 2 * 86400 ==> relative_time_of(secs) == RelativeTime::Yesterday,
        2 * 86400 <= secs < 3 * 86400 ==> relative_time_of(secs) == RelativeTime::DayBeforeYesterday,
        3 * 86400 <= secs < 7 * 86400 ==> relative_time_of(secs) == RelativeTime::DaysAgo(
            (secs / 86400) as i64,
        ) && 3 <= secs / 86400 < 7,
        7 * 86400 <= secs < 14 * 86400 ==> relative_time_of(secs) == RelativeTime::OneWeekAgo,
        14 * 86400 <= secs < 30 * 86400 ==> relative_time_of(secs) == RelativeTime::WeeksAgo(
            (secs / 86400 / 7) as i64,
        ) && 2 <= secs / 86400 / 7 <= 4,
        30 * 86400 <= secs < 365 * 86400 ==> relative_time_of(secs) == RelativeTime::MonthsAgo(
            (secs / 86400 / 30) as i64,
        ) && 1 <= secs / 86400 / 30 <= 12,
        365 * 86400 <= secs <= i64::MAX ==> relative_time_of(secs) == RelativeTime::YearsAgo(
            (secs / 86400 / 365) as i64,
        ) && secs / 86400 / 365 >= 1,
{
}

} // verus!
