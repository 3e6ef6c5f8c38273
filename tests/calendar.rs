use timelog::calendar::{decimal, deserialize, report_week, serialize, to_hours, to_week_days, ReportWeek, REPORT_START_DAY, UNIX_EPOCH_DAY};
use timelog::model::{Date, EntryKind};

fn day(y: i32, m: u32, d: u32) -> Date {
    let nd = chrono::NaiveDate::from_ymd_opt(y, m, d).unwrap();
    Date { days_from_ce: chrono::Datelike::num_days_from_ce(&nd) }
}

#[test]
fn constants_name_the_right_days() {
    assert_eq!(day(2019, 9, 2).days_from_ce, REPORT_START_DAY);
    assert_eq!(day(1970, 1, 1).days_from_ce, UNIX_EPOCH_DAY);
}

#[test]
fn week_days_run_monday_to_sunday() {
    let days = to_week_days(2020, 1).unwrap();
    assert_eq!(days.len(), 7);
    assert_eq!(days[0], day(2019, 12, 30));
    assert_eq!(days[6], day(2020, 1, 5));
    for k in 1..7 {
        assert_eq!(days[k].days_from_ce, days[0].days_from_ce + k as i32);
    }
}

#[test]
fn missing_week_has_no_days() {
    assert_eq!(to_week_days(2019, 53), None);
    assert_eq!(to_week_days(2019, 0), None);
    assert!(to_week_days(2020, 53).is_some());
}

#[test]
fn report_numbers() {
    assert_eq!(report_week(day(2019, 9, 2)), ReportWeek { number: 1, year: 1 });
    assert_eq!(report_week(day(2019, 9, 9)), ReportWeek { number: 2, year: 1 });
    assert_eq!(report_week(day(2020, 8, 31)), ReportWeek { number: 53, year: 2 });
    assert_eq!(report_week(day(2019, 8, 26)), ReportWeek { number: 0, year: 1 });
    assert_eq!(report_week(day(2019, 8, 19)), ReportWeek { number: -1, year: 1 });
}

#[test]
fn hours_labels() {
    assert_eq!(to_hours(60), "1 Stunde");
    assert_eq!(to_hours(119), "1 Stunde");
    assert_eq!(to_hours(120), "2 Stunden");
    assert_eq!(to_hours(59), "0 Stunden");
    assert_eq!(to_hours(-150), "-2 Stunden");
    assert_eq!(to_hours(i64::MIN), format!("{} Stunden", i64::MIN / 60));
}

#[test]
fn dates_serialize_as_epoch_seconds() {
    assert_eq!(serialize(&day(1970, 1, 1)), 0);
    assert_eq!(serialize(&day(1970, 1, 2)), 86_400);
    assert_eq!(serialize(&day(2019, 9, 2)), 1_567_382_400);
    assert_eq!(serialize(&day(1969, 12, 31)), -86_400);
}

#[test]
fn dates_deserialize_from_epoch_millis() {
    assert_eq!(deserialize(0), Some(day(1970, 1, 1)));
    assert_eq!(deserialize(1_567_382_400_000), Some(day(2019, 9, 2)));
    assert_eq!(deserialize(86_399_999), Some(day(1970, 1, 1)));
    assert_eq!(deserialize(-86_399_999), Some(day(1970, 1, 1)));
    assert_eq!(deserialize(-86_400_000), Some(day(1969, 12, 31)));
    assert_eq!(deserialize(i64::MIN), None);
    assert_eq!(deserialize(i64::MAX), None);
}

#[test]
fn entry_kind_labels() {
    assert_eq!(EntryKind::Work.to_sql(), "work");
    assert_eq!(EntryKind::Training.to_sql(), "training");
    assert_eq!(EntryKind::School.to_sql(), "school");
    for k in [EntryKind::Work, EntryKind::Training, EntryKind::School] {
        assert_eq!(EntryKind::from_sql(k.to_sql()), Some(k));
    }
    assert_eq!(EntryKind::from_sql("Work"), None);
    assert_eq!(EntryKind::from_sql(""), None);
}

#[test]
fn extreme_years_have_no_weeks() {
    assert_eq!(to_week_days(i32::MIN, 1), None);
    assert_eq!(to_week_days(i32::MAX, 52), None);
    assert_eq!(to_week_days(300_000, 10), None);
}

#[test]
fn weeks_near_the_ends_of_the_calendar() {
    let first = to_week_days(-262142, 1).unwrap();
    assert_eq!(first[6].days_from_ce, first[0].days_from_ce + 6);
    assert!(to_week_days(262141, 52).is_some());
}

#[test]
fn decimal_text_of_integers() {
    assert_eq!(decimal(0), "0");
    assert_eq!(decimal(7), "7");
    assert_eq!(decimal(1234), "1234");
    assert_eq!(decimal(-1234), "-1234");
    assert_eq!(decimal(i64::MAX), i64::MAX.to_string());
    assert_eq!(decimal(i64::MIN), i64::MIN.to_string());
}
