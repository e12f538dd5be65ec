//! When a bout begins: how the start is stated, and how long it is from now
//! until a stated time of day.

use vstd::prelude::*;

verus! {

/// The nanoseconds of a day.
pub const DAY_NANOS: u64 = 86_400_000_000_000;

/// How the start of a bout is stated.
#[derive(Clone, Copy, PartialEq, Eq, Structural, Debug)]
pub enum TimeType {
    /// As the time from now until the bout.
    TimeToDerby,
    /// As the time of day at which the bout starts.
    StartAt,
}

/// The half of the day that a stated hour lies in.
#[derive(Clone, Copy, PartialEq, Eq, Structural, Debug)]
pub enum TimeAMPM {
    AM,
    PM,
    /// Not stated: the hour counts from midnight.
    Unstated,
}

/// Why a stated time of day is refused.
#[derive(Clone, Copy, PartialEq, Eq, Structural, Debug)]
pub enum TimeError {
    BadHours,
    BadMinutes,
    /// The time until the start came out as less than nothing.
    NegativeDuration,
}

impl TimeType {
    /// How the start is stated, as a form states it: `1` for a time of day,
    /// `2` for a time from now.
    pub open spec fn spec_from_form(value: Seq<u8>) -> Option<TimeType> {
        if value == seq![0x31u8] {
            Some(TimeType::StartAt)
        } else if value == seq![0x32u8] {
            Some(TimeType::TimeToDerby)
        } else {
            None
        }
    }

    /// Reads how the start is stated from a form's value; none for any
    /// value but `1` and `2`.
    pub fn from_form(value: &[u8]) -> (stated: Option<TimeType>)
        ensures
            stated == Self::spec_from_form(value@),
    {
        if value.len() == 1 && value[0] == 0x31 {
            assert(value@ =~= seq![0x31u8]);
            Some(TimeType::StartAt)
        } else if value.len() == 1 && value[0] == 0x32 {
            assert(value@ =~= seq![0x32u8]);
            Some(TimeType::TimeToDerby)
        } else {
            assert(value@ != seq![0x31u8] && value@ != seq![0x32u8]) by {
                if value@.len() == 1 {
                    assert(seq![0x31u8][0] == 0x31u8);
                    assert(seq![0x32u8][0] == 0x32u8);
                }
            }
            None
        }
    }
}

impl TimeAMPM {
    /// The half of the day, as a form states it: `AM`, `PM`, or nothing.
    pub open spec fn spec_from_form(value: Seq<u8>) -> Option<TimeAMPM> {
        if value == seq![0x41u8, 0x4du8] {
            Some(TimeAMPM::AM)
        } else if value == seq![0x50u8, 0x4du8] {
            Some(TimeAMPM::PM)
        } else if value.len() == 0 {
            Some(TimeAMPM::Unstated)
        } else {
            None
        }
    }

    /// Reads the half of the day from a form's value; none for any value
    /// but `AM`, `PM` and the empty one.
    pub fn from_form(value: &[u8]) -> (stated: Option<TimeAMPM>)
        ensures
            stated == Self::spec_from_form(value@),
    {
        if value.len() == 0 {
            assert(seq![0x41u8, 0x4du8].len() == 2 && seq![0x50u8, 0x4du8].len() == 2);
            Some(TimeAMPM::Unstated)
        } else if value.len() == 2 && value[0] == 0x41 && value[1] == 0x4d {
            assert(value@ =~= seq![0x41u8, 0x4du8]);
            Some(TimeAMPM::AM)
        } else if value.len() == 2 && value[0] == 0x50 && value[1] == 0x4d {
            assert(value@ =~= seq![0x50u8, 0x4du8]);
            assert(seq![0x41u8, 0x4du8][0] == 0x41u8);
            Some(TimeAMPM::PM)
        } else {
            assert(value@ != seq![0x41u8, 0x4du8] && value@ != seq![0x50u8, 0x4du8]) by {
                if value@.len() == 2 {
                    assert(seq![0x41u8, 0x4du8][0] == 0x41u8 && seq![0x41u8, 0x4du8][1] == 0x4du8);
                    assert(seq![0x50u8, 0x4du8][0] == 0x50u8 && seq![0x50u8, 0x4du8][1] == 0x4du8);
                }
            }
            None
        }
    }
}

/// The nanoseconds of a time stated in hours, minutes and seconds.
pub open spec fn stated_nanos(hours: u8, minutes: u8, seconds: u8) -> nat {
    ((hours as nat * 3600 + minutes as nat * 60 + seconds as nat) * 1_000_000_000) as nat
}

/// A part of a stated time, which is nothing where it is not stated.
pub open spec fn stated(part: Option<u8>) -> u8 {
    match part {
        Some(value) => value,
        None => 0u8,
    }
}

/// The hour of the day, counted from midnight, that a stated hour and half
/// of the day mean. Before noon an hour below twelve is itself and twelve is
/// midnight; after noon an hour below twelve is twelve later and every other
/// hour is noon. Before noon no hour above twelve means anything.
pub open spec fn real_hours(at_hrs: u8, at_ampm: TimeAMPM) -> Option<u8> {
    match at_ampm {
        TimeAMPM::Unstated => Some(at_hrs),
        TimeAMPM::AM => if at_hrs < 12 {
            Some(at_hrs)
        } else if at_hrs == 12 {
            Some(0u8)
        } else {
            None
        },
        TimeAMPM::PM => if at_hrs < 12 {
            Some((at_hrs + 12) as u8)
        } else {
            Some(12u8)
        },
    }
}

/// The time from now until the stated time of day, in nanoseconds, from
/// what the calendar says of now: whether now is before the stated time, and
/// the gap from now to the stated time on this day, as whole seconds and
/// nanoseconds beside them. A time that has passed today comes again
/// tomorrow.
pub open spec fn wait_nanos(before: bool, seconds: i64, nanos: i32) -> int {
    let gap = seconds * 1_000_000_000 + nanos;
    if before {
        gap
    } else {
        gap + DAY_NANOS
    }
}

/// What `start_at` returns.
pub open spec fn start_at_result(
    at_hrs: u8,
    at_mins: u8,
    at_ampm: TimeAMPM,
    before: bool,
    seconds: i64,
    nanos: i32,
) -> Result<u64, TimeError> {
    if at_hrs >= 24 {
        Err(TimeError::BadHours)
    } else if at_mins >= 60 {
        Err(TimeError::BadMinutes)
    } else if real_hours(at_hrs, at_ampm) is None {
        Err(TimeError::BadHours)
    } else if wait_nanos(before, seconds, nanos) < 0 {
        Err(TimeError::NegativeDuration)
    } else if wait_nanos(before, seconds, nanos) > u64::MAX {
        Ok(u64::MAX)
    } else {
        Ok(wait_nanos(before, seconds, nanos) as u64)
    }
}

/// `chrono::Local::now`, `NaiveTime::from_hms_opt` and
/// `NaiveTime::signed_duration_since`: whether the local time of day now is
/// before `hour:minute:00`, and the gap from now to that time as
/// `TimeDelta::num_seconds` and `TimeDelta::subsec_nanos` give it. The gap
/// depends on the time at which it is read; of every reading this holds: the
/// nanoseconds are less than a second, a time that is still to come is more
/// than nothing and less than a day away, and a time that has passed is no
/// more than a day and a leap second back.
#[verifier::external_body]
fn gap_to_local_time(hour: u32, minute: u32) -> (gap: (bool, i64, i32))
    requires
        hour < 24,
        minute < 60,
    ensures
        -1_000_000_000 < gap.2 < 1_000_000_000,
        gap.0 ==> 0 < gap.1 * 1_000_000_000 + gap.2 <= 86_340_000_000_000,
        !gap.0 ==> -86_401_000_000_000 < gap.1 * 1_000_000_000 + gap.2 <= 0,
{
    let now = chrono::Local::now().time();
    let when = chrono::NaiveTime::from_hms_opt(hour, minute, 0).unwrap();
    let gap = when.signed_duration_since(now);
    (now < when, gap.num_seconds(), gap.subsec_nanos())
}

/// The hour of the day that a stated hour and half of the day mean.
pub fn hour_of_day(at_hrs: u8, at_ampm: TimeAMPM) -> (hour: Option<u8>)
    requires
        at_hrs < 24,
    ensures
        hour == real_hours(at_hrs, at_ampm),
        hour is Some ==> hour->0 < 24,
{
    match at_ampm {
        TimeAMPM::Unstated => Some(at_hrs),
        TimeAMPM::AM => if at_hrs < 12 {
            Some(at_hrs)
        } else if at_hrs == 12 {
            Some(0)
        } else {
            None
        },
        TimeAMPM::PM => if at_hrs < 12 {
            Some(at_hrs + 12)
        } else {
            Some(12)
        },
    }
}

/// The time in nanoseconds from now until the time of day stated by
/// `at_hrs`, `at_mins` and `at_ampm`, given what the calendar says of now:
/// whether now is before that time, and the gap from now to it on this day.
/// An hour of 24 or more, a minute of 60 or more and an hour that means
/// nothing in its half of the day are refused, in this order.
pub fn start_at(
    at_hrs: u8,
    at_mins: u8,
    at_ampm: TimeAMPM,
    before: bool,
    seconds: i64,
    nanos: i32,
) -> (wait: Result<u64, TimeError>)
    ensures
        wait == start_at_result(at_hrs, at_mins, at_ampm, before, seconds, nanos),
{
    if at_hrs >= 24 {
        return Err(TimeError::BadHours);
    }
    if at_mins >= 60 {
        return Err(TimeError::BadMinutes);
    }
    if hour_of_day(at_hrs, at_ampm).is_none() {
        return Err(TimeError::BadHours);
    }
    let gap: i128 = seconds as i128 * 1_000_000_000 + nanos as i128;
    let wait: i128 = if before {
        gap
    } else {
        gap + DAY_NANOS as i128
    };
    if wait < 0 {
        Err(TimeError::NegativeDuration)
    } else if wait > u64::MAX as i128 {
        Ok(u64::MAX)
    } else {
        Ok(wait as u64)
    }
}

/// The time in nanoseconds from now until the time of day stated by
/// `at_hrs`, `at_mins` and `at_ampm`, which comes today or, where it has
/// passed, tomorrow. What is refused is refused whatever the time is now;
/// what is accepted gives a time of no more than a day, as `start_at` gives
/// it for what the calendar says of now.
pub fn start_at_time(at_hrs: u8, at_mins: u8, at_ampm: TimeAMPM) -> (wait: Result<u64, TimeError>)
    ensures
        at_hrs >= 24 ==> wait == Err::<u64, TimeError>(TimeError::BadHours),
        at_hrs < 24 && at_mins >= 60 ==> wait == Err::<u64, TimeError>(TimeError::BadMinutes),
        at_hrs < 24 && at_mins < 60 && real_hours(at_hrs, at_ampm) is None ==> wait == Err::<
            u64,
            TimeError,
        >(TimeError::BadHours),
        at_hrs < 24 && at_mins < 60 && real_hours(at_hrs, at_ampm) is Some ==> (wait == Err::<
            u64,
            TimeError,
        >(TimeError::NegativeDuration) || (wait is Ok && wait->Ok_0 <= DAY_NANOS)),
        exists|before: bool, seconds: i64, nanos: i32|
            wait == start_at_result(at_hrs, at_mins, at_ampm, before, seconds, nanos),
{
    if at_hrs >= 24 {
        assert(start_at_result(at_hrs, at_mins, at_ampm, true, 0, 0) == Err::<u64, TimeError>(
            TimeError::BadHours,
        ));
        return Err(TimeError::BadHours);
    }
    if at_mins >= 60 {
        assert(start_at_result(at_hrs, at_mins, at_ampm, true, 0, 0) == Err::<u64, TimeError>(
            TimeError::BadMinutes,
        ));
        return Err(TimeError::BadMinutes);
    }
    match hour_of_day(at_hrs, at_ampm) {
        None => {
            assert(start_at_result(at_hrs, at_mins, at_ampm, true, 0, 0) == Err::<
                u64,
                TimeError,
            >(TimeError::BadHours));
            Err(TimeError::BadHours)
        },
        Some(hour) => {
            let (before, seconds, nanos) = gap_to_local_time(hour as u32, at_mins as u32);
            start_at(at_hrs, at_mins, at_ampm, before, seconds, nanos)
        },
    }
}

/// The time in nanoseconds of `hours`, `minutes` and `seconds` together.
pub fn time_to_derby(hours: u8, minutes: u8, seconds: u8) -> (wait: u64)
    ensures
        wait == stated_nanos(hours, minutes, seconds),
{
    (hours as u64 * 3600 + minutes as u64 * 60 + seconds as u64) * 1_000_000_000
}

/// The time in nanoseconds from now until the bout, as a form states it:
/// as a time from now, in hours, minutes and seconds, or as a time of day.
/// A part that is not stated counts as nothing. A time from now is always
/// accepted; a time of day is taken as `start_at_time` takes it.
pub fn countdown(
    timetype: TimeType,
    at_hrs: Option<u8>,
    at_mins: Option<u8>,
    at_ampm: TimeAMPM,
    ttd_hrs: Option<u8>,
    ttd_mins: Option<u8>,
    ttd_secs: Option<u8>,
) -> (wait: Result<u64, TimeError>)
    ensures
        timetype == TimeType::TimeToDerby ==> wait == Ok::<u64, TimeError>(
            stated_nanos(stated(ttd_hrs), stated(ttd_mins), stated(ttd_secs)) as u64,
        ),
        timetype == TimeType::StartAt ==> exists|before: bool, seconds: i64, nanos: i32|
            wait == start_at_result(
                stated(at_hrs),
                stated(at_mins),
                at_ampm,
                before,
                seconds,
                nanos,
            ),
{
    match timetype {
        TimeType::TimeToDerby => Ok(
            time_to_derby(
                ttd_hrs.unwrap_or(0),
                ttd_mins.unwrap_or(0),
                ttd_secs.unwrap_or(0),
            ),
        ),
        TimeType::StartAt => {
            let hours = at_hrs.unwrap_or(0);
            let minutes = at_mins.unwrap_or(0);
            assert(hours == stated(at_hrs) && minutes == stated(at_mins));
            start_at_time(hours, minutes, at_ampm)
        },
    }
}

} // verus!
