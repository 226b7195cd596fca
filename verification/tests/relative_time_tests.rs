use agentx::relative_time::{day_group, elapsed_label, format_relative_time, relative_time_key, DayGroup, RelativeTime};

#[test]
fn relative_times_at_each_boundary() {
    assert_eq!(format_relative_time(-5), RelativeTime::JustNow);
    assert_eq!(format_relative_time(59), RelativeTime::JustNow);
    assert_eq!(format_relative_time(60), RelativeTime::MinutesAgo(1));
    assert_eq!(format_relative_time(3599), RelativeTime::MinutesAgo(59));
    assert_eq!(format_relative_time(3600), RelativeTime::HoursAgo(1));
    assert_eq!(format_relative_time(86399), RelativeTime::HoursAgo(23));
    assert_eq!(format_relative_time(86400), RelativeTime::Yesterday);
    assert_eq!(format_relative_time(2 * 86400), RelativeTime::DayBeforeYesterday);
    assert_eq!(format_relative_time(3 * 86400), RelativeTime::DaysAgo(3));
    assert_eq!(format_relative_time(7 * 86400), RelativeTime::OneWeekAgo);
    assert_eq!(format_relative_time(13 * 86400), RelativeTime::OneWeekAgo);
    assert_eq!(format_relative_time(14 * 86400), RelativeTime::WeeksAgo(2));
    assert_eq!(format_relative_time(29 * 86400), RelativeTime::WeeksAgo(4));
    assert_eq!(format_relative_time(30 * 86400), RelativeTime::MonthsAgo(1));
    assert_eq!(format_relative_time(364 * 86400), RelativeTime::MonthsAgo(12));
    assert_eq!(format_relative_time(365 * 86400), RelativeTime::YearsAgo(1));
    assert_eq!(format_relative_time(800 * 86400), RelativeTime::YearsAgo(2));
}

#[test]
fn relative_time_keys() {
    assert_eq!(relative_time_key(RelativeTime::JustNow), ("task_panel.time.just_now", None));
    assert_eq!(relative_time_key(RelativeTime::MinutesAgo(5)), ("task_panel.time.minutes_ago", Some(5)));
    assert_eq!(relative_time_key(RelativeTime::OneWeekAgo), ("task_panel.time.one_week_ago", None));
    assert_eq!(relative_time_key(RelativeTime::YearsAgo(3)), ("task_panel.time.years_ago", Some(3)));
}

#[test]
fn day_groups() {
    assert_eq!(day_group(100, 100), DayGroup::Today);
    assert_eq!(day_group(99, 100), DayGroup::Yesterday);
    assert_eq!(day_group(10, 100), DayGroup::Older);
    assert_eq!(day_group(101, 100), DayGroup::Future);
    assert_eq!(day_group(i64::MAX, i64::MIN), DayGroup::Future);
}

#[test]
fn elapsed_labels_of_running_sessions() {
    assert_eq!(elapsed_label(0), "00:00:00");
    assert_eq!(elapsed_label(-30), "00:00:00");
    assert_eq!(elapsed_label(59), "00:00:59");
    assert_eq!(elapsed_label(3661), "01:01:01");
    assert_eq!(elapsed_label(36000 + 600 + 7), "10:10:07");
    assert_eq!(elapsed_label(100 * 3600), "100:00:00");
}
