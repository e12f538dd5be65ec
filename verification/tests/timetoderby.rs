use derby_bout::timetoderby::countdown;
use derby_bout::timetoderby::hour_of_day;
use derby_bout::timetoderby::start_at;
use derby_bout::timetoderby::start_at_time;
use derby_bout::timetoderby::time_to_derby;
use derby_bout::timetoderby::TimeAMPM;
use derby_bout::timetoderby::TimeError;
use derby_bout::timetoderby::TimeType;
use derby_bout::timetoderby::DAY_NANOS;

const SEC: u64 = 1_000_000_000;

#[test]
fn form_states_how_the_start_is_given() {
    assert_eq!(TimeType::from_form(b"1"), Some(TimeType::StartAt));
    assert_eq!(TimeType::from_form(b"2"), Some(TimeType::TimeToDerby));
    assert_eq!(TimeType::from_form(b""), None);
    assert_eq!(TimeType::from_form(b"3"), None);
    assert_eq!(TimeType::from_form(b"12"), None);
}

#[test]
fn form_states_the_half_of_the_day() {
    assert_eq!(TimeAMPM::from_form(b"AM"), Some(TimeAMPM::AM));
    assert_eq!(TimeAMPM::from_form(b"PM"), Some(TimeAMPM::PM));
    assert_eq!(TimeAMPM::from_form(b""), Some(TimeAMPM::Unstated));
    assert_eq!(TimeAMPM::from_form(b"am"), None);
    assert_eq!(TimeAMPM::from_form(b"A"), None);
    assert_eq!(TimeAMPM::from_form(b"AMM"), None);
    assert_eq!(TimeAMPM::from_form(b"PN"), None);
}

#[test]
fn hours_mean_what_their_half_says() {
    assert_eq!(hour_of_day(0, TimeAMPM::Unstated), Some(0));
    assert_eq!(hour_of_day(13, TimeAMPM::Unstated), Some(13));
    assert_eq!(hour_of_day(23, TimeAMPM::Unstated), Some(23));
    assert_eq!(hour_of_day(0, TimeAMPM::AM), Some(0));
    assert_eq!(hour_of_day(11, TimeAMPM::AM), Some(11));
    assert_eq!(hour_of_day(12, TimeAMPM::AM), Some(0));
    assert_eq!(hour_of_day(13, TimeAMPM::AM), None);
    assert_eq!(hour_of_day(23, TimeAMPM::AM), None);
    assert_eq!(hour_of_day(0, TimeAMPM::PM), Some(12));
    assert_eq!(hour_of_day(1, TimeAMPM::PM), Some(13));
    assert_eq!(hour_of_day(11, TimeAMPM::PM), Some(23));
    assert_eq!(hour_of_day(12, TimeAMPM::PM), Some(12));
    assert_eq!(hour_of_day(18, TimeAMPM::PM), Some(12));
}

#[test]
fn time_to_come_is_the_gap() {
    assert_eq!(start_at(7, 30, TimeAMPM::PM, true, 3600, 0), Ok(3600 * SEC));
    assert_eq!(start_at(7, 30, TimeAMPM::PM, true, 59, 999_999_999), Ok(60 * SEC - 1));
    assert_eq!(start_at(7, 30, TimeAMPM::PM, true, 0, 1), Ok(1));
}

#[test]
fn time_that_has_passed_comes_tomorrow() {
    assert_eq!(start_at(7, 30, TimeAMPM::Unstated, false, 0, 0), Ok(DAY_NANOS));
    assert_eq!(start_at(7, 30, TimeAMPM::Unstated, false, -3600, 0), Ok(DAY_NANOS - 3600 * SEC));
    assert_eq!(
        start_at(7, 30, TimeAMPM::Unstated, false, -3600, -500_000_000),
        Ok(DAY_NANOS - 3600 * SEC - 500_000_000)
    );
    assert_eq!(start_at(0, 0, TimeAMPM::Unstated, false, -86_399, -999_999_999), Ok(1));
}

#[test]
fn time_of_less_than_nothing_is_refused() {
    assert_eq!(
        start_at(0, 0, TimeAMPM::Unstated, false, -86_400, -500_000_000),
        Err(TimeError::NegativeDuration)
    );
    assert_eq!(start_at(0, 0, TimeAMPM::Unstated, true, -1, 0), Err(TimeError::NegativeDuration));
    assert_eq!(start_at(0, 0, TimeAMPM::Unstated, true, 0, -1), Err(TimeError::NegativeDuration));
}

#[test]
fn time_beyond_what_fits_is_capped() {
    assert_eq!(start_at(0, 0, TimeAMPM::Unstated, true, i64::MAX, 0), Ok(u64::MAX));
    assert_eq!(
        start_at(0, 0, TimeAMPM::Unstated, true, i64::MIN, 0),
        Err(TimeError::NegativeDuration)
    );
}

#[test]
fn bad_hours_and_minutes_are_refused_in_order() {
    assert_eq!(start_at(24, 0, TimeAMPM::Unstated, true, 1, 0), Err(TimeError::BadHours));
    assert_eq!(start_at(24, 60, TimeAMPM::Unstated, true, 1, 0), Err(TimeError::BadHours));
    assert_eq!(start_at(23, 60, TimeAMPM::Unstated, true, 1, 0), Err(TimeError::BadMinutes));
    assert_eq!(start_at(13, 60, TimeAMPM::AM, true, 1, 0), Err(TimeError::BadMinutes));
    assert_eq!(start_at(13, 59, TimeAMPM::AM, true, 1, 0), Err(TimeError::BadHours));
    assert_eq!(start_at(13, 59, TimeAMPM::AM, false, -1, 0), Err(TimeError::BadHours));
}

#[test]
fn start_at_time_refuses_whatever_the_time_is() {
    assert_eq!(start_at_time(24, 0, TimeAMPM::Unstated), Err(TimeError::BadHours));
    assert_eq!(start_at_time(255, 0, TimeAMPM::PM), Err(TimeError::BadHours));
    assert_eq!(start_at_time(0, 60, TimeAMPM::Unstated), Err(TimeError::BadMinutes));
    assert_eq!(start_at_time(13, 0, TimeAMPM::AM), Err(TimeError::BadHours));
}

#[test]
fn start_at_time_is_within_a_day() {
    for hour in 0..24u8 {
        for minute in [0u8, 1, 30, 59] {
            let wait = start_at_time(hour, minute, TimeAMPM::Unstated).unwrap();
            assert!(wait <= DAY_NANOS);
        }
    }
}

#[test]
fn start_at_time_tells_hours_apart() {
    let mut waits = Vec::new();
    for hour in 0..24u8 {
        waits.push(start_at_time(hour, 0, TimeAMPM::Unstated).unwrap());
    }
    let tolerance = 5 * SEC;
    let mut apart = 0;
    for hour in 1..24usize {
        let step = if waits[hour] >= waits[hour - 1] {
            waits[hour] - waits[hour - 1]
        } else {
            waits[hour - 1] - waits[hour]
        };
        if step + tolerance >= 3600 * SEC && step <= 3600 * SEC + tolerance {
            apart += 1;
        } else {
            assert!(step + tolerance >= 23 * 3600 * SEC);
        }
    }
    assert!(apart >= 22);
}

#[test]
fn stated_time_is_counted_in_nanoseconds() {
    assert_eq!(time_to_derby(0, 0, 0), 0);
    assert_eq!(time_to_derby(0, 0, 1), SEC);
    assert_eq!(time_to_derby(1, 2, 3), 3723 * SEC);
    assert_eq!(time_to_derby(255, 255, 255), (255 * 3600 + 255 * 60 + 255) * SEC);
}

#[test]
fn countdown_takes_a_time_from_now_as_it_is() {
    assert_eq!(
        countdown(TimeType::TimeToDerby, Some(99), Some(99), TimeAMPM::AM, Some(1), Some(30), None),
        Ok(5400 * SEC)
    );
    assert_eq!(
        countdown(TimeType::TimeToDerby, None, None, TimeAMPM::Unstated, None, None, None),
        Ok(0)
    );
}

#[test]
fn countdown_takes_a_time_of_day_as_start_at_time_does() {
    assert_eq!(
        countdown(TimeType::StartAt, Some(24), Some(0), TimeAMPM::Unstated, Some(1), None, None),
        Err(TimeError::BadHours)
    );
    assert_eq!(
        countdown(TimeType::StartAt, Some(7), Some(60), TimeAMPM::PM, None, None, None),
        Err(TimeError::BadMinutes)
    );
    let wait =
        countdown(TimeType::StartAt, None, None, TimeAMPM::Unstated, Some(9), None, None).unwrap();
    assert!(wait <= DAY_NANOS);
    let other = start_at_time(0, 0, TimeAMPM::Unstated).unwrap();
    let apart = if wait >= other { wait - other } else { other - wait };
    assert!(apart <= 5 * SEC || apart + 5 * SEC >= DAY_NANOS);
}
