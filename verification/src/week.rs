//! The week being filled.
//!
//! Calendar days are day numbers: day 1 is the first day of the common era in
//! the proleptic Gregorian calendar, a Monday, and each later day adds one.
//! ISO weeks run Monday through Sunday, so the Monday of a day's week is the
//! latest day at or before it whose weekday index is zero. The planner fills
//! the five weekdays of the target week, Monday through Friday, one daily
//! allocation each, and gives up on the whole week at the first failing day.

use vstd::prelude::*;

use crate::allocate::AllocationError;
use crate::allocate::MAX_ENTRY_MINUTES;
use crate::allocate::Selector;
use crate::allocate::allocate_day;
use crate::allocate::sum_minutes;
use crate::tasks::Task;

verus! {

/// Days past the Monday of `day`'s week: 0 for Monday through 6 for Sunday.
pub open spec fn spec_weekday_index(day: int) -> int {
    (day - 1) % 7
}

/// The Monday of the ISO week that `day` falls in.
pub open spec fn spec_monday_of_week(day: int) -> int {
    day - spec_weekday_index(day)
}

/// The Monday of the ISO week that `day` falls in.
pub fn monday_of_week(day: i64) -> (r: i64)
    requires
        1 <= day,
    ensures
        r == spec_monday_of_week(day as int),
        spec_weekday_index(r as int) == 0,
        r <= day < r + 7,
{
    let w = (day - 1) % 7;
    proof {
        vstd::arithmetic::div_mod::lemma_fundamental_div_mod(day - 1, 7);
        vstd::arithmetic::div_mod::lemma_mod_multiples_basic((day - 1) as int / 7, 7);
    }
    day - w
}

/// The Monday the plan starts on: the Monday of the current ISO week, or of
/// the next one when the run fills the coming week instead.
pub fn first_day_of_target_week(today: i64, next_week: bool) -> (r: i64)
    requires
        1 <= today <= i64::MAX - 7,
    ensures
        next_week ==> r == spec_monday_of_week(today + 7),
        !next_week ==> r == spec_monday_of_week(today as int),
        spec_weekday_index(r as int) == 0,
        r <= today + 7,
{
    let base: i64 = if next_week {
        today + 7
    } else {
        today
    };
    monday_of_week(base)
}

/// The boundary for fetching candidate tasks: the day before the target
/// week's Monday. Issues whose status changed on or after it are still shown,
/// beside everything not yet done.
pub fn done_tasks_from(first_day: i64) -> (r: i64)
    requires
        i64::MIN + 1 <= first_day,
    ensures
        r == first_day - 1,
{
    first_day - 1
}

/// One day's allocation: a calendar day and its (task index, duration)
/// entries, each index naming a task of the candidate list the plan was made
/// from.
#[derive(Debug)]
pub struct DayPlan {
    pub date: i64,
    pub entries: Vec<(usize, u64)>,
}

/// A day plan is well formed against a candidate list of `n_tasks` tasks:
/// every entry names a candidate and carries a usable duration.
pub open spec fn day_plan_wf(p: DayPlan, n_tasks: int) -> bool {
    forall|i: int|
        0 <= i < p.entries@.len() ==> ((#[trigger] p.entries@[i]).0 < n_tasks && 1
            <= p.entries@[i].1 <= MAX_ENTRY_MINUTES)
}

/// Plans the five weekdays starting at `first_day`, one daily allocation
/// each, in order; the first failing day aborts the whole plan.
pub fn plan_week<S: Selector>(
    first_day: i64,
    candidates: &Vec<Task>,
    target_per_day: u64,
    default_duration: Option<u64>,
    selector: &mut S,
) -> (r: Result<Vec<DayPlan>, AllocationError>)
    requires
        1 <= first_day <= i64::MAX - 5,
        default_duration matches Some(d) ==> 1 <= d <= MAX_ENTRY_MINUTES,
    ensures
        r == Err::<Vec<DayPlan>, AllocationError>(AllocationError::NoCandidates) <==> (
        candidates@.len() == 0 && target_per_day > 0),
        r == Err::<Vec<DayPlan>, AllocationError>(AllocationError::MissingDefaultDuration)
            ==> default_duration is None && candidates@.len() > 0 && target_per_day > 0,
        candidates@.len() > 0 && default_duration is Some ==> r is Ok,
        target_per_day == 0 ==> r is Ok,
        r matches Ok(plans) ==> {
            &&& plans@.len() == 5
            &&& (forall|i: int| 0 <= i < 5 ==> (#[trigger] plans@[i]).date == first_day + i)
            &&& (forall|i: int|
                0 <= i < 5 ==> sum_minutes((#[trigger] plans@[i]).entries@) >= target_per_day)
            &&& (forall|i: int|
                0 <= i < 5 ==> day_plan_wf(#[trigger] plans@[i], candidates@.len() as int))
        },
{
    let mut plans: Vec<DayPlan> = Vec::new();
    let mut d: usize = 0;
    while d < 5
        invariant
            d <= 5,
            plans@.len() == d,
            1 <= first_day <= i64::MAX - 5,
            default_duration matches Some(dd) ==> 1 <= dd <= MAX_ENTRY_MINUTES,
            d > 0 ==> !(candidates@.len() == 0 && target_per_day > 0),
            forall|i: int| 0 <= i < d ==> (#[trigger] plans@[i]).date == first_day + i,
            forall|i: int|
                0 <= i < d ==> sum_minutes((#[trigger] plans@[i]).entries@) >= target_per_day,
            forall|i: int|
                0 <= i < d ==> day_plan_wf(#[trigger] plans@[i], candidates@.len() as int),
        decreases 5 - d,
    {
        match allocate_day(candidates, target_per_day, default_duration, selector) {
            Err(e) => {
                return Err(e);
            },
            Ok(entries) => {
                plans.push(DayPlan { date: first_day + d as i64, entries });
            },
        }
        d += 1;
    }
    Ok(plans)
}

} // verus!
