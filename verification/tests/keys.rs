use papertrail_archive::bucket::{
    bucket_key, file_names, floor_to_hour, hourly_keys, local_hour_to_utc, requested_keys,
};

#[test]
fn key_pads_month_day_and_hour() {
    assert_eq!(bucket_key(2024, 1, 5, 7), "2024-01-05-07");
    assert_eq!(bucket_key(2024, 12, 31, 23), "2024-12-31-23");
    assert_eq!(bucket_key(2024, 10, 10, 0), "2024-10-10-00");
}

#[test]
fn key_writes_years_of_any_size() {
    assert_eq!(bucket_key(987, 6, 5, 4), "987-06-05-04");
    assert_eq!(bucket_key(-44, 3, 15, 12), "-44-03-15-12");
    assert_eq!(bucket_key(12345, 1, 1, 1), "12345-01-01-01");
    assert_eq!(bucket_key(0, 1, 1, 0), "0-01-01-00");
    assert_eq!(bucket_key(i32::MIN, 1, 1, 0), "-2147483648-01-01-00");
}

#[test]
fn floor_goes_down_to_the_hour() {
    assert_eq!(floor_to_hour(0), Some(0));
    assert_eq!(floor_to_hour(3599), Some(0));
    assert_eq!(floor_to_hour(3600), Some(3600));
    assert_eq!(floor_to_hour(7201), Some(7200));
    assert_eq!(floor_to_hour(-1), Some(-3600));
    assert_eq!(floor_to_hour(-3600), Some(-3600));
    assert_eq!(floor_to_hour(-3601), Some(-7200));
    assert_eq!(floor_to_hour(i64::MIN), None);
    assert_eq!(floor_to_hour(i64::MAX), Some(i64::MAX - i64::MAX % 3600));
}

#[test]
fn local_hour_is_cut_before_it_becomes_an_instant() {
    // 10:45 on the first day of 2024 on a clock five and a half hours ahead
    // of UTC: the hour begins at 10:00 there, which is 04:30 in UTC.
    let clock = 1704067200 + 10 * 3600 + 45 * 60;
    assert_eq!(local_hour_to_utc(clock, 19800), Some(1704067200 + 4 * 3600 + 30 * 60));
    let end = 1704067200 + 10 * 3600 + 50 * 60;
    let start_utc = local_hour_to_utc(clock, 19800).unwrap();
    let end_utc = local_hour_to_utc(end, 19800).unwrap();
    assert_eq!(file_names(Some(start_utc), Some(end_utc)), Some(vec![String::from("2024-01-01-04")]));
    // On a clock that shows UTC the hour is the hour of UTC.
    assert_eq!(local_hour_to_utc(clock, 0), Some(1704067200 + 10 * 3600));
    // Behind UTC.
    assert_eq!(local_hour_to_utc(3599, -18000), Some(18000));
    assert_eq!(local_hour_to_utc(-1, 3600), Some(-7200));
    assert_eq!(local_hour_to_utc(i64::MIN, 0), None);
    assert_eq!(local_hour_to_utc(i64::MIN, -3600), Some(i64::MIN + 1808));
    assert_eq!(local_hour_to_utc(i64::MAX, -1), Some(i64::MAX - 1806));
    assert_eq!(local_hour_to_utc(i64::MAX, i32::MIN), None);
    assert_eq!(local_hour_to_utc(i64::MAX, i32::MAX), Some(i64::MAX - i64::MAX % 3600 - 2147483647));
}

#[test]
fn window_gives_one_key_per_hour_both_ends_included() {
    // 1431648000 is 2015-05-15 00:00:00 UTC.
    let keys = hourly_keys(1431648000, 1431648000 + 2 * 3600);
    assert_eq!(keys, vec!["2015-05-15-00", "2015-05-15-01", "2015-05-15-02"]);
    let keys = hourly_keys(1431648000, 1431648000 + 2 * 3600 - 1);
    assert_eq!(keys, vec!["2015-05-15-00", "2015-05-15-01"]);
}

#[test]
fn window_steps_by_the_hour_from_its_start() {
    // A start at half past, as a clock half an hour off UTC gives it.
    let keys = hourly_keys(1431648000 + 1800, 1431648000 + 2 * 3600 + 1800);
    assert_eq!(keys, vec!["2015-05-15-00", "2015-05-15-01", "2015-05-15-02"]);
    assert_eq!(hourly_keys(1431648000 + 1800, 1431648000 + 3600), vec!["2015-05-15-00"]);
}

#[test]
fn window_within_one_hour_gives_that_hour() {
    assert_eq!(hourly_keys(1431648000 + 5, 1431648000 + 6), vec!["2015-05-15-00"]);
    assert_eq!(hourly_keys(1431648000, 1431648000), vec!["2015-05-15-00"]);
}

#[test]
fn window_that_ends_before_it_starts_is_empty() {
    assert!(hourly_keys(1431648000 + 3600, 1431648000 + 3599).is_empty());
    assert!(hourly_keys(1431648000 + 1800, 1431648000 + 900).is_empty());
}

#[test]
fn window_crosses_midnight_and_the_epoch() {
    assert_eq!(
        hourly_keys(-7200, 3600),
        vec!["1969-12-31-22", "1969-12-31-23", "1970-01-01-00", "1970-01-01-01"]
    );
    // 951782400 is 2000-02-29 00:00:00 UTC.
    assert_eq!(
        hourly_keys(951782400 - 3600, 951782400 + 86400),
        {
            let mut want = vec![String::from("2000-02-28-23")];
            for h in 0..24 {
                want.push(format!("2000-02-29-{:02}", h));
            }
            want.push(String::from("2000-03-01-00"));
            want
        }
    );
}

#[test]
fn window_outside_the_calendar_is_empty() {
    assert!(hourly_keys(i64::MIN, i64::MIN + 10).is_empty());
    assert!(hourly_keys(i64::MAX - 10, i64::MAX).is_empty());
}

#[test]
fn file_names_need_both_ends() {
    assert_eq!(file_names(None, None), None);
    assert_eq!(file_names(Some(0), None), None);
    assert_eq!(file_names(None, Some(0)), None);
    assert_eq!(file_names(Some(0), Some(3600)), Some(vec![
        String::from("1970-01-01-00"),
        String::from("1970-01-01-01"),
    ]));
}

#[test]
fn listed_keys_are_used_without_a_window() {
    let listed = vec![String::from("2024-01-01-00"), String::from("2024-01-01-00")];
    assert_eq!(requested_keys(listed.clone(), None, None), listed);
    assert_eq!(requested_keys(listed.clone(), Some(5), None), listed);
    assert_eq!(requested_keys(listed, Some(0), Some(0)), vec!["1970-01-01-00"]);
    assert!(requested_keys(Vec::new(), None, None).is_empty());
}
