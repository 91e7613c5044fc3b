//! Decomposition of a duration in seconds into days, hours and minutes,
//! and into mandays (one manday is an eight-hour workday).

use vstd::prelude::*;
use vstd::arithmetic::div_mod::{lemma_div_denominator, lemma_fundamental_div_mod};

verus! {

/// Whole days of a duration: `floor(seconds / 86400)`.
pub open spec fn spec_days(s: int) -> int {
    s / 86400
}

/// Hours left over after the whole days: `floor(seconds / 3600) - days * 24`.
pub open spec fn spec_hours(s: int) -> int {
    s / 3600 - spec_days(s) * 24
}

/// Minutes left over after days and hours; seconds that do not fill a whole
/// minute are dropped.
pub open spec fn spec_minutes(s: int) -> int {
    s / 60 - spec_days(s) * 1440 - spec_hours(s) * 60
}

/// A duration split into days, hours and minutes, minutes truncated.
#[derive(Clone, Copy, PartialEq, Eq, Structural, Debug)]
pub struct Dhm {
    pub days: u64,
    pub hours: u64,
    pub minutes: u64,
}

proof fn lemma_hours_range(s: int)
    requires
        s >= 0,
    ensures
        0 <= spec_hours(s) < 24,
        spec_days(s) * 24 <= s / 3600,
{
    lemma_div_denominator(s, 3600, 24);
    lemma_fundamental_div_mod(s / 3600, 24);
    assert(spec_days(s) == (s / 3600) / 24);
    assert(s / 3600 == 24 * ((s / 3600) / 24) + (s / 3600) % 24);
}

proof fn lemma_minutes_range(s: int)
    requires
        s >= 0,
    ensures
        0 <= spec_minutes(s) < 60,
        spec_minutes(s) == (s / 60) % 60,
        spec_days(s) * 1440 + spec_hours(s) * 60 == 60 * (s / 3600),
{
    lemma_hours_range(s);
    lemma_div_denominator(s, 60, 60);
    lemma_fundamental_div_mod(s / 60, 60);
    assert(s / 3600 == (s / 60) / 60);
    assert(s / 60 == 60 * ((s / 60) / 60) + (s / 60) % 60);
    assert(spec_days(s) * 1440 + spec_hours(s) * 60 == 60 * (s / 3600)) by {
        assert(spec_hours(s) == s / 3600 - spec_days(s) * 24);
    }
}

/// Splits a duration into days, hours and minutes by the truncating rules:
/// days are whole 86400-second blocks, hours whole 3600-second blocks of the
/// rest, minutes whole 60-second blocks of what remains.
pub fn decompose(seconds: u64) -> (r: Dhm)
    ensures
        r.days == spec_days(seconds as int),
        r.hours == spec_hours(seconds as int),
        r.minutes == spec_minutes(seconds as int),
{
    proof {
        lemma_hours_range(seconds as int);
        lemma_minutes_range(seconds as int);
    }
    let days = seconds / 86400;
    let hours = seconds / 3600 - days * 24;
    let minutes = seconds / 60 - days * 1440 - hours * 60;
    Dhm { days, hours, minutes }
}

/// The displayed triple accounts for all of the duration but the dropped
/// seconds: `days*86400 + hours*3600 + minutes*60` is at most `s` and misses
/// it by less than a minute.
pub proof fn lemma_decompose_bounds(s: int)
    requires
        s >= 0,
    ensures
        spec_days(s) * 86400 + spec_hours(s) * 3600 + spec_minutes(s) * 60 <= s,
        s < spec_days(s) * 86400 + spec_hours(s) * 3600 + spec_minutes(s) * 60 + 60,
{
    lemma_minutes_range(s);
    lemma_fundamental_div_mod(s, 60);
    assert(spec_days(s) * 86400 + spec_hours(s) * 3600 + spec_minutes(s) * 60 == 60 * (s / 60));
}

/// Mandays: the duration measured in eight-hour workdays. `days` is the
/// whole mandays; `hours` the whole eight-hour-day hours of the rest; what
/// remains is `minutes` whole minutes plus `extra_seconds` seconds, kept so
/// that the rendering can show the fractional minute exactly.
#[derive(Clone, Copy, PartialEq, Eq, Structural, Debug)]
pub struct Mandays {
    pub days: u64,
    pub hours: u64,
    pub minutes: u64,
    pub extra_seconds: u64,
}

pub open spec fn spec_manday_days(s: int) -> int {
    s / 28800
}

pub open spec fn spec_manday_hours(s: int) -> int {
    (s % 28800) / 3600
}

pub open spec fn spec_manday_minutes(s: int) -> int {
    ((s % 28800) % 3600) / 60
}

pub open spec fn spec_manday_extra_seconds(s: int) -> int {
    ((s % 28800) % 3600) % 60
}

/// Splits a duration into mandays. The whole mandays and the whole hours
/// are truncations of the real manday value and of its fractional part
/// times eight; the minutes value is the rest, `minutes + extra_seconds/60`,
/// which is not truncated further.
pub fn mandays(seconds: u64) -> (r: Mandays)
    ensures
        r.days == spec_manday_days(seconds as int),
        r.hours == spec_manday_hours(seconds as int),
        r.minutes == spec_manday_minutes(seconds as int),
        r.extra_seconds == spec_manday_extra_seconds(seconds as int),
        r.extra_seconds < 60,
{
    let days = seconds / 28800;
    let rem = seconds % 28800;
    let hours = rem / 3600;
    let rem2 = rem % 3600;
    Mandays { days, hours, minutes: rem2 / 60, extra_seconds: rem2 % 60 }
}

} // verus!
