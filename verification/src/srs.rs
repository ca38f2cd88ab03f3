use vstd::prelude::*;

verus! {

/// The SuperMemo-2 scheduler.
pub struct Sm2Engine;

/// The recall grade (0..=5) that a solve attempt earns.
pub open spec fn spec_quality(success: bool, hints_used: int, time_taken_ms: int) -> u8 {
    if !success {
        if hints_used >= 2 { 0 } else { 1 }
    } else if hints_used == 0 {
        if time_taken_ms < 6000 { 5 } else if time_taken_ms < 20000 { 4 } else { 3 }
    } else if hints_used == 1 {
        3
    } else {
        2
    }
}

/// The repetition number and interval (in days) that follow a review of
/// grade `quality`.  `scaled_interval` is the previous interval multiplied by
/// the new easiness factor and rounded; it is only consulted from the third
/// successful repetition on.
pub open spec fn spec_schedule(
    current_interval_days: int,
    current_reps: int,
    quality: int,
    scaled_interval: int,
) -> (int, int) {
    if quality < 3 {
        (0, 1)
    } else if current_reps == 0 {
        (1, 1)
    } else if current_reps == 1 {
        (2, 3)
    } else {
        let grown = current_interval_days + 1;
        (current_reps + 1, if scaled_interval >= grown { scaled_interval } else { grown })
    }
}

/// An interval of three weeks or more counts as mastered.
pub open spec fn spec_is_mastered(interval_days: int) -> bool {
    interval_days >= 21
}

/// What is required so that the next repetition number and interval fit in `i32`.
pub open spec fn schedule_fits(current_interval_days: i32, current_reps: i32, quality: u8) -> bool {
    (quality >= 3 && current_reps != 0 && current_reps != 1) ==> (current_reps < i32::MAX
        && current_interval_days < i32::MAX)
}

/// The integer part of an SM-2 review outcome.
pub struct ScheduleStep {
    pub new_interval_days: i32,
    pub new_repetition_number: i32,
    pub is_mastered: bool,
}

impl Sm2Engine {
    /// Grades a solve attempt: failures score 0 or 1, solves score 2 to 5
    /// depending on the hints used and, without hints, on the time taken.
    pub fn calculate_quality(success: bool, hints_used: i32, time_taken_ms: i64) -> (q: u8)
        ensures
            q == spec_quality(success, hints_used as int, time_taken_ms as int),
            q <= 5,
            !success ==> q < 3,
    {
        if !success {
            if hints_used >= 2 {
                return 0;
            } else {
                return 1;
            }
        }
        if hints_used == 0 {
            if time_taken_ms < 6000 {
                5
            } else if time_taken_ms < 20000 {
                4
            } else {
                3
            }
        } else if hints_used == 1 {
            3
        } else {
            2
        }
    }

    /// The repetition number, interval and mastery flag after a review of
    /// grade `quality`: a failed review (grade below 3) resets the streak to
    /// a one-day interval, the first two successes give intervals of 1 and 3
    /// days, and later successes take the scaled interval, but always at
    /// least one day more than before.
    pub fn schedule_repetition(
        current_interval_days: i32,
        current_reps: i32,
        quality: u8,
        scaled_interval: i32,
    ) -> (r: ScheduleStep)
        requires
            schedule_fits(current_interval_days, current_reps, quality),
        ensures
            (r.new_repetition_number as int, r.new_interval_days as int) == spec_schedule(
                current_interval_days as int,
                current_reps as int,
                quality as int,
                scaled_interval as int,
            ),
            r.is_mastered == spec_is_mastered(r.new_interval_days as int),
    {
        let (new_reps, new_interval): (i32, i32) = if quality < 3 {
            (0, 1)
        } else if current_reps == 0 {
            (1, 1)
        } else if current_reps == 1 {
            (2, 3)
        } else {
            let grown: i32 = current_interval_days + 1;
            let safe_days: i32 = if scaled_interval >= grown { scaled_interval } else { grown };
            (current_reps + 1, safe_days)
        };
        ScheduleStep {
            new_interval_days: new_interval,
            new_repetition_number: new_reps,
            is_mastered: new_interval >= 21,
        }
    }
}

/// A failed attempt, whatever hints and time it took, resets the streak:
/// repetition number 0, next review in one day, not mastered.
pub proof fn law_failure_resets_streak(
    hints_used: int,
    time_taken_ms: int,
    current_interval_days: int,
    current_reps: int,
    scaled_interval: int,
)
    ensures
        ({
            let q = spec_quality(false, hints_used, time_taken_ms);
            let (reps, interval) = spec_schedule(current_interval_days, current_reps, q as int, scaled_interval);
            reps == 0 && interval == 1 && !spec_is_mastered(interval)
        }),
{
}

/// A successful attempt with at most one hint never resets the streak: the
/// repetition number advances by exactly one.  (A solve that needed two or
/// more hints grades 2 and resets it like a failure.)
pub proof fn law_success_advances_streak(
    hints_used: int,
    time_taken_ms: int,
    current_interval_days: int,
    current_reps: int,
    scaled_interval: int,
)
    requires
        0 <= hints_used <= 1,
    ensures
        ({
            let q = spec_quality(true, hints_used, time_taken_ms);
            let (reps, interval) = spec_schedule(current_interval_days, current_reps, q as int, scaled_interval);
            reps == current_reps + 1
        }),
{
}

/// From the third successful repetition on, the interval always grows by at
/// least one day, whatever the easiness factor does.
pub proof fn law_interval_grows_on_success(
    current_interval_days: int,
    current_reps: int,
    quality: int,
    scaled_interval: int,
)
    requires
        quality >= 3,
        current_reps >= 2,
    ensures
        spec_schedule(current_interval_days, current_reps, quality, scaled_interval).1
            > current_interval_days,
{
}

/// Every interval that the schedule hands out is at least one day, as long
/// as the previous interval was not negative.
pub proof fn law_interval_at_least_one_day(
    current_interval_days: int,
    current_reps: int,
    quality: int,
    scaled_interval: int,
)
    requires
        current_interval_days >= 0,
    ensures
        spec_schedule(current_interval_days, current_reps, quality, scaled_interval).1 >= 1,
{
}

/// From the third repetition on, every passing grade (3, 4 or 5) gives the
/// same schedule: one more repetition, and an interval that is the larger of
/// the scaled interval and one day more than before.  In particular the new
/// interval is never shorter than the scaled interval.
pub proof fn law_passing_grades_take_scaled_interval(
    current_interval_days: int,
    current_reps: int,
    quality: int,
    other_quality: int,
    scaled_interval: int,
)
    requires
        3 <= quality <= 5,
        3 <= other_quality <= 5,
        current_reps >= 2,
    ensures
        spec_schedule(current_interval_days, current_reps, quality, scaled_interval) == (
            current_reps + 1,
            if scaled_interval > current_interval_days + 1 { scaled_interval } else { current_interval_days + 1 },
        ),
        spec_schedule(current_interval_days, current_reps, quality, scaled_interval).1 >= scaled_interval,
        spec_schedule(current_interval_days, current_reps, quality, scaled_interval)
            == spec_schedule(current_interval_days, current_reps, other_quality, scaled_interval),
{
}

/// A solve that needed exactly one hint grades 3 whatever the time taken,
/// and a solve with hints never grades above a hintless solve of the same
/// time.
pub proof fn law_one_hint_grades_three(time_taken_ms: int, hints_used: int)
    requires
        hints_used >= 0,
    ensures
        spec_quality(true, 1, time_taken_ms) == 3,
        spec_quality(true, hints_used, time_taken_ms) <= spec_quality(true, 0, time_taken_ms),
        hints_used >= 1 ==> spec_quality(true, hints_used, time_taken_ms) <= 3,
{
}

} // verus!
