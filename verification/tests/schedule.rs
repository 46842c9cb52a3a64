use roobot::icon_updater::state::{ScheduleError, ScheduleSerde, ServerState, Timestamp};

const NEW_YEAR_2024: i64 = 1_704_067_200;

fn secs(secs: i64) -> Timestamp {
    Timestamp { secs, nanos: 0 }
}

#[test]
fn valid_expression_is_kept_as_written() {
    let schedule = ScheduleSerde::from_str("0 30 9,12,15 1,15 May-Aug Mon,Wed,Fri 2018/2").unwrap();
    assert_eq!(schedule.as_str(), "0 30 9,12,15 1,15 May-Aug Mon,Wed,Fri 2018/2");
    assert_eq!(schedule.clone(), schedule);
}

#[test]
fn invalid_expression_is_refused() {
    assert_eq!(ScheduleSerde::from_str("every hour").err(), Some(ScheduleError::Invalid));
    assert_eq!(ScheduleSerde::from_str("").err(), Some(ScheduleError::Invalid));
    assert_eq!(ScheduleSerde::from_str("0 0 25 * * *").err(), Some(ScheduleError::Invalid));
}

#[test]
fn next_n_counts_occurrences_from_zero() {
    let hourly = ScheduleSerde::from_str("0 0 * * * *").unwrap();
    let now = secs(NEW_YEAR_2024 + 36_930);
    assert_eq!(hourly.next_n(now, 0), Some(secs(NEW_YEAR_2024 + 11 * 3600)));
    assert_eq!(hourly.next_n(now, 1), Some(secs(NEW_YEAR_2024 + 12 * 3600)));
    assert_eq!(hourly.next_n(now, 2), Some(secs(NEW_YEAR_2024 + 13 * 3600)));
    assert_eq!(hourly.next_n(now, 24), Some(secs(NEW_YEAR_2024 + 35 * 3600)));
}

#[test]
fn occurrence_at_the_start_itself_counts() {
    let hourly = ScheduleSerde::from_str("0 0 * * * *").unwrap();
    let on_the_hour = secs(NEW_YEAR_2024 + 3600);
    assert_eq!(hourly.next_n(on_the_hour, 0), Some(on_the_hour));
    assert_eq!(hourly.next_n(on_the_hour, 1), Some(secs(NEW_YEAR_2024 + 7200)));
    let just_before = Timestamp { secs: NEW_YEAR_2024 + 3599, nanos: 999_999_999 };
    assert_eq!(hourly.next_n(just_before, 0), Some(on_the_hour));
    let just_after = Timestamp { secs: NEW_YEAR_2024 + 3600, nanos: 1 };
    assert_eq!(hourly.next_n(just_after, 0), Some(secs(NEW_YEAR_2024 + 7200)));
    assert_eq!(hourly.next_n(secs(0), 0), Some(secs(0)));
}

#[test]
fn schedule_that_has_run_out_yields_nothing() {
    // midnight before the last day of 2024, and never again
    let once = ScheduleSerde::from_str("0 0 0 31 12 * 2024").unwrap();
    let last_day = NEW_YEAR_2024 + 365 * 86_400;
    assert_eq!(once.next_n(secs(NEW_YEAR_2024), 0), Some(secs(last_day)));
    assert_eq!(once.next_n(secs(NEW_YEAR_2024), 1), None);
    assert_eq!(once.next_n(secs(last_day), 0), Some(secs(last_day)));
    assert_eq!(once.next_n(secs(last_day), 1), None);
    assert_eq!(once.next_n(Timestamp { secs: last_day, nanos: 1 }, 0), None);
}

#[test]
fn instants_outside_the_calendar_yield_nothing() {
    let hourly = ScheduleSerde::from_str("0 0 * * * *").unwrap();
    assert_eq!(hourly.next_n(secs(8_000_000_000_001), 0), None);
    assert_eq!(hourly.next_n(secs(-8_000_000_000_001), 0), None);
    assert_eq!(hourly.next_n(secs(i64::MAX), 0), None);
    assert_eq!(hourly.next_n(secs(i64::MIN), 0), None);
    assert_eq!(hourly.next_n(Timestamp { secs: NEW_YEAR_2024, nanos: 1_000_000_000 }, 0), None);
    // the furthest instants that are asked about are answered
    let _ = hourly.next_n(secs(-8_000_000_000_000), 0);
    assert_eq!(hourly.next_n(Timestamp { secs: 8_000_000_000_000, nanos: 999_999_999 }, 0), None);
}

#[test]
fn timestamps_order_by_seconds_then_nanoseconds() {
    let a = Timestamp { secs: 5, nanos: 999_999_999 };
    let b = Timestamp { secs: 6, nanos: 0 };
    assert!(b.is_after(&a));
    assert!(!a.is_after(&b));
    assert!(!a.is_after(&a));
    assert_eq!(a.total_nanos(), 5_999_999_999);
    assert_eq!(Timestamp { secs: -1, nanos: 1 }.total_nanos(), -999_999_999);
    assert_eq!(Timestamp::epoch(), Timestamp { secs: 0, nanos: 0 });
    assert_eq!(
        Timestamp { secs: i64::MIN, nanos: 0 }.total_nanos(),
        i64::MIN as i128 * 1_000_000_000
    );
}

#[test]
fn untouched_server_has_an_empty_queue_and_the_epoch() {
    let state = ServerState::default();
    assert_eq!(state.next_update, Timestamp::epoch());
    assert!(state.queue.is_empty());
    assert_eq!(state.clone(), state);
}

#[test]
fn occurrences_ascend_with_their_position() {
    let schedule = ScheduleSerde::from_str("0 15,45 */3 * * *").unwrap();
    let now = Timestamp { secs: NEW_YEAR_2024 + 1000, nanos: 5 };
    let mut last = now;
    for n in 0..40 {
        let at = schedule.next_n(now, n).unwrap();
        assert!(at.is_after(&last));
        last = at;
    }
    assert_eq!(schedule.next_n(now, 0), Some(secs(NEW_YEAR_2024 + 45 * 60)));
    assert_eq!(schedule.next_n(now, 1), Some(secs(NEW_YEAR_2024 + 3 * 3600 + 15 * 60)));
}

#[test]
fn only_a_later_whole_second_is_taken_as_an_occurrence() {
    let start = Timestamp { secs: 100, nanos: 7 };
    assert_eq!(ScheduleSerde::take_occurrence(start, Some((101, 0))), Some(secs(101)));
    assert_eq!(ScheduleSerde::take_occurrence(start, Some((5000, 0))), Some(secs(5000)));
    assert_eq!(ScheduleSerde::take_occurrence(start, Some((100, 0))), None);
    assert_eq!(ScheduleSerde::take_occurrence(start, Some((99, 0))), None);
    assert_eq!(ScheduleSerde::take_occurrence(start, Some((101, 1))), None);
    assert_eq!(ScheduleSerde::take_occurrence(start, None), None);
}
