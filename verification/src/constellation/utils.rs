//! The three clocks of the instances: the express epoch counts days since
//! the last 7th of a month, the typical epoch weeks since 2023-05-01, and
//! the slow epoch months since January 2023.

use crate::text::str_eq;
use crate::update2::model::Timestamp;
use chrono::{Datelike, TimeZone};
use vstd::prelude::*;

verus! {

pub const SECONDS_PER_WEEK: i64 = 604800;

/// 2023-05-01T00:00:00Z, where the weekly epochs begin, in seconds since 1970.
pub const BASE_WEEKLY_EPOCH: i64 = 1682899200;

/// How many points an instance takes in one epoch.
pub const MAX_POINTS: u32 = 1024;

/// The year, month and day (UTC) that `chrono` gives for a time in seconds
/// since 1970; nothing for a time that it cannot hold.
pub uninterp spec fn civil_of(seconds: i64) -> Option<(i32, u32, u32)>;

/// The seconds since 1970 that `chrono` gives for midnight (UTC) of a date;
/// nothing for a date that does not exist.
pub uninterp spec fn midnight_seconds(year: i32, month: u32, day: u32) -> Option<i64>;

/// `chrono::DateTime::from_timestamp`, read through `Datelike`: the year,
/// the month, which is between 1 and 12, and the day, between 1 and 31.
#[verifier::external_body]
fn civil_date(seconds: i64) -> (date: Option<(i32, u32, u32)>)
    ensures
        date == civil_of(seconds),
        date matches Some((_, month, day)) ==> 1 <= month <= 12 && 1 <= day <= 31,
{
    chrono::DateTime::from_timestamp(seconds, 0).map(|d| (d.year(), d.month(), d.day()))
}

/// `chrono::Utc.with_ymd_and_hms` at 0:00:00, as a timestamp.
#[verifier::external_body]
fn midnight_of(year: i32, month: u32, day: u32) -> (seconds: Option<i64>)
    ensures
        seconds == midnight_seconds(year, month, day),
{
    chrono::Utc.with_ymd_and_hms(year, month, day, 0, 0, 0).single().map(|d| d.timestamp())
}

/// Division that rounds towards zero.
pub open spec fn truncated(a: int, b: int) -> int {
    if a >= 0 {
        a / b
    } else {
        -((-a) / b)
    }
}

/// The whole seconds from the second `earlier` to the time `later`, rounded
/// towards zero.
pub open spec fn whole_seconds(later: Timestamp, earlier: i64) -> int {
    let seconds = later.seconds - earlier;
    if seconds < 0 && later.nanos > 0 {
        seconds + 1
    } else {
        seconds
    }
}

/// The whole days from the second `earlier` to the time `later`, rounded
/// towards zero.
pub open spec fn whole_days(later: Timestamp, earlier: i64) -> int {
    truncated(whole_seconds(later, earlier), 86400)
}

fn days_between(later: Timestamp, earlier: i64) -> (days: i64)
    ensures
        days == whole_days(later, earlier),
{
    let raw: i128 = later.seconds as i128 - earlier as i128;
    let seconds: i128 = if raw < 0 && later.nanos > 0 {
        raw + 1
    } else {
        raw
    };
    if seconds >= 0 {
        (seconds / 86400) as i64
    } else {
        (-((-seconds) / 86400)) as i64
    }
}

/// The year and month of the most recent 7th of a month, seen from a date.
pub open spec fn express_start(year: i32, month: u32, day: u32) -> (int, int) {
    if day < 7 {
        if month == 1 {
            (year - 1, 12)
        } else {
            (year as int, month - 1)
        }
    } else {
        (year as int, month as int)
    }
}

/// The express epoch of a time: the whole days since midnight of the most
/// recent 7th of a month.
pub open spec fn express_epoch(now: Timestamp) -> Option<i64> {
    match civil_of(now.seconds) {
        None => None,
        Some((year, month, day)) => {
            let (y, m) = express_start(year, month, day);
            if y < i32::MIN {
                None
            } else {
                match midnight_seconds(y as i32, m as u32, 7) {
                    None => None,
                    Some(start) => Some(whole_days(now, start) as i64),
                }
            }
        },
    }
}

/// The number of the express epoch that `current_time` lies in: the days
/// since the most recent 7th of a month. Nothing for a time that the
/// calendar cannot hold.
pub fn calculate_epoch_express(current_time: Timestamp) -> (epoch: Option<i64>)
    ensures
        epoch == express_epoch(current_time),
{
    let (year, month, day) = match civil_date(current_time.seconds) {
        Some(date) => date,
        None => {
            return None;
        },
    };
    let (y, m): (i32, u32) = if day < 7 {
        if month == 1 {
            if year == i32::MIN {
                return None;
            }
            (year - 1, 12)
        } else {
            (year, month - 1)
        }
    } else {
        (year, month)
    };
    match midnight_of(y, m, 7) {
        Some(start) => Some(days_between(current_time, start)),
        None => None,
    }
}

/// The midnight that follows a time; nothing where it is out of range.
pub open spec fn next_midnight(seconds: i64) -> Option<i64> {
    let next = ((seconds as int) / 86400 + 1) * 86400;
    if next <= i64::MAX {
        Some(next as i64)
    } else {
        None
    }
}

/// When the express epoch after that of `current_time` begins: at midnight
/// (UTC) of the next day.
pub fn next_epoch_time_express(current_time: Timestamp) -> (next: Option<Timestamp>)
    ensures
        next == match next_midnight(current_time.seconds) {
            Some(seconds) => Some(Timestamp { seconds, nanos: 0 }),
            None => None,
        },
{
    let s = current_time.seconds;
    let day: i64 = if s >= 0 {
        s / 86400
    } else {
        let before: i64 = -(s + 1);
        let back: i64 = before / 86400;
        assert((s as int) / 86400 == -back - 1) by (nonlinear_arith)
            requires
                s < 0,
                before == -(s + 1),
                back == before / 86400,
        ;
        -back - 1
    };
    assert(day == (s as int) / 86400);
    if day >= 106751991167300 {
        return None;
    }
    Some(Timestamp { seconds: (day + 1) * 86400, nanos: 0 })
}

/// The typical epoch of a time: the whole weeks since the beginning of the
/// weekly epochs, rounded towards zero.
pub open spec fn typical_epoch(now: Timestamp) -> int {
    truncated(whole_days(now, BASE_WEEKLY_EPOCH), 7)
}

/// The number of the typical epoch that `current_time` lies in.
pub fn calculate_epoch_typical(current_time: Timestamp) -> (epoch: i64)
    ensures
        epoch == typical_epoch(current_time),
{
    let days = days_between(current_time, BASE_WEEKLY_EPOCH);
    if days >= 0 {
        days / 7
    } else {
        -((-days) / 7)
    }
}

/// When the typical epoch after that of a time begins: a whole number of
/// weeks after the beginning of the weekly epochs; nothing where that is
/// out of range.
pub open spec fn typical_next(now: Timestamp) -> Option<Timestamp> {
    let seconds = BASE_WEEKLY_EPOCH + (typical_epoch(now) + 1) * SECONDS_PER_WEEK;
    if seconds <= i64::MAX {
        Some(Timestamp { seconds: seconds as i64, nanos: 0 })
    } else {
        None
    }
}

/// When the typical epoch after that of `current_time` begins.
pub fn next_epoch_time_typical(current_time: Timestamp) -> (next: Option<Timestamp>)
    ensures
        next == typical_next(current_time),
{
    let next_epoch: i128 = calculate_epoch_typical(current_time) as i128 + 1;
    let seconds: i128 = BASE_WEEKLY_EPOCH as i128 + next_epoch * (SECONDS_PER_WEEK as i128);
    if seconds > i64::MAX as i128 {
        return None;
    }
    assert(seconds >= i64::MIN) by (nonlinear_arith)
        requires
            seconds == 1682899200 + next_epoch * 604800,
            next_epoch == typical_epoch(current_time) + 1,
            typical_epoch(current_time) == truncated(whole_days(current_time, 1682899200), 7),
            whole_days(current_time, 1682899200) == truncated(
                whole_seconds(current_time, 1682899200),
                86400,
            ),
            whole_seconds(current_time, 1682899200) >= i64::MIN - 1682899200,
    ;
    Some(Timestamp { seconds: seconds as i64, nanos: 0 })
}

/// The slow epoch of a time: the months since January 2023.
pub open spec fn slow_epoch(now: Timestamp) -> Option<i64> {
    match civil_of(now.seconds) {
        None => None,
        Some((year, month, _)) => Some(((year - 2023) * 12 + (month - 1)) as i64),
    }
}

/// The number of the slow epoch that `current_time` lies in.
pub fn calculate_epoch_slow(current_time: Timestamp) -> (epoch: Option<i64>)
    ensures
        epoch == slow_epoch(current_time),
{
    match civil_date(current_time.seconds) {
        Some((year, month, _)) => Some((year as i64 - 2023) * 12 + (month as i64 - 1)),
        None => None,
    }
}

/// When the slow epoch after that of a time begins: at midnight of the
/// first day of the next month.
pub open spec fn slow_next(now: Timestamp) -> Option<Timestamp> {
    match civil_of(now.seconds) {
        None => None,
        Some((year, month, _)) => {
            let (y, m) = if month == 12 {
                (year + 1, 1int)
            } else {
                (year as int, month + 1)
            };
            if y > i32::MAX {
                None
            } else {
                match midnight_seconds(y as i32, m as u32, 1) {
                    Some(seconds) => Some(Timestamp { seconds, nanos: 0 }),
                    None => None,
                }
            }
        },
    }
}

/// When the slow epoch after that of `current_time` begins.
pub fn next_epoch_time_slow(current_time: Timestamp) -> (next: Option<Timestamp>)
    ensures
        next == slow_next(current_time),
{
    let (year, month, _) = match civil_date(current_time.seconds) {
        Some(date) => date,
        None => {
            return None;
        },
    };
    let (y, m): (i32, u32) = if month == 12 {
        if year == i32::MAX {
            return None;
        }
        (year + 1, 1)
    } else {
        (year, month + 1)
    };
    match midnight_of(y, m, 1) {
        Some(seconds) => Some(Timestamp { seconds, nanos: 0 }),
        None => None,
    }
}

/// The clock of an instance at one time.
#[derive(Clone, Copy, Debug, PartialEq, Eq, Structural)]
pub struct EpochInfo {
    pub current_epoch: i64,
    pub next_epoch_time: Timestamp,
    pub max_points: u32,
}

/// The clock of the instance of a speed at one time; nothing for a speed
/// that is none of "express", "typical" and "slow", nor for a time that the
/// calendar cannot hold.
pub open spec fn epoch_info_of(speed: Seq<char>, now: Timestamp) -> Option<EpochInfo> {
    if speed == "express"@ {
        match (express_epoch(now), next_midnight(now.seconds)) {
            (Some(epoch), Some(seconds)) => Some(
                EpochInfo {
                    current_epoch: epoch,
                    next_epoch_time: Timestamp { seconds, nanos: 0 },
                    max_points: MAX_POINTS,
                },
            ),
            _ => None,
        }
    } else if speed == "typical"@ {
        match typical_next(now) {
            Some(next) => Some(
                EpochInfo {
                    current_epoch: typical_epoch(now) as i64,
                    next_epoch_time: next,
                    max_points: MAX_POINTS,
                },
            ),
            None => None,
        }
    } else if speed == "slow"@ {
        match (slow_epoch(now), slow_next(now)) {
            (Some(epoch), Some(next)) => Some(
                EpochInfo { current_epoch: epoch, next_epoch_time: next, max_points: MAX_POINTS },
            ),
            _ => None,
        }
    } else {
        None
    }
}

/// The clock of the instance of a speed at the time `now`.
pub fn epoch_info(speed: &str, now: Timestamp) -> (info: Option<EpochInfo>)
    ensures
        info == epoch_info_of(speed@, now),
{
    if str_eq(speed, "express") {
        match (calculate_epoch_express(now), next_epoch_time_express(now)) {
            (Some(epoch), Some(next)) => Some(
                EpochInfo { current_epoch: epoch, next_epoch_time: next, max_points: MAX_POINTS },
            ),
            _ => None,
        }
    } else if str_eq(speed, "typical") {
        match next_epoch_time_typical(now) {
            Some(next) => Some(
                EpochInfo {
                    current_epoch: calculate_epoch_typical(now),
                    next_epoch_time: next,
                    max_points: MAX_POINTS,
                },
            ),
            None => None,
        }
    } else if str_eq(speed, "slow") {
        match (calculate_epoch_slow(now), next_epoch_time_slow(now)) {
            (Some(epoch), Some(next)) => Some(
                EpochInfo { current_epoch: epoch, next_epoch_time: next, max_points: MAX_POINTS },
            ),
            _ => None,
        }
    } else {
        None
    }
}

} // verus!
