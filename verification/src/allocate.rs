//! Daily work allocation.
//!
//! One day is filled by repeatedly picking a task and a duration until the
//! running sum of durations reaches the daily target. Picking is a capability
//! handed in from outside: one selector asks the user, one draws at random,
//! and a scripted one stands in for either under test. A task may be picked
//! more than once in a day — each pick becomes its own worklog entry.

use vstd::prelude::*;

use crate::tasks::Task;

verus! {

/// Why a day could not be allocated.
#[derive(Debug, PartialEq, Eq, Structural, Clone, Copy)]
pub enum AllocationError {
    /// There are no candidate tasks while the daily target is positive.
    NoCandidates,
    /// The selector supplies no duration and no default duration is
    /// configured.
    MissingDefaultDuration,
}

/// Longest duration, in minutes, that one entry may carry: any more would
/// not fit the tracker's seconds field.
pub const MAX_ENTRY_MINUTES: u64 = u64::MAX / 60;

/// Picks tasks and durations for the daily allocator.
///
/// A duration is at least one minute — a zero entry would never move the day
/// toward its target — and small enough that its seconds fit the tracker's
/// field.
pub trait Selector {
    /// Picks one task out of `n` candidates.
    fn pick_task(&mut self, n: usize) -> (r: usize)
        requires
            1 <= n,
        ensures
            r < n,
    ;

    /// Picks how long was worked, in minutes, when no default duration is
    /// configured; `None` if this selector cannot supply one.
    fn pick_duration(&mut self) -> (r: Option<u64>)
        ensures
            r matches Some(d) ==> 1 <= d <= MAX_ENTRY_MINUTES,
    ;
}

/// Minutes still missing before a target is met by a running sum.
pub open spec fn remaining_minutes(target: u64, sum: int) -> int {
    if sum >= target {
        0
    } else {
        target - sum
    }
}

/// Minutes in an allocation, summed over its (task index, duration) entries.
pub open spec fn sum_minutes(entries: Seq<(usize, u64)>) -> int
    decreases entries.len(),
{
    if entries.len() == 0 {
        0
    } else {
        sum_minutes(entries.drop_last()) + entries.last().1
    }
}

/// Fills one day: picks a task and a duration, over and over, until the sum
/// of durations is no longer below `target`. Every entry names a candidate by
/// index; a positive target with no candidates is an error, not a hang. With
/// a default duration configured every entry carries it; without one the
/// selector is asked, and an allocation without any source of durations is an
/// error.
pub fn allocate_day<S: Selector>(
    candidates: &Vec<Task>,
    target: u64,
    default_duration: Option<u64>,
    selector: &mut S,
) -> (r: Result<Vec<(usize, u64)>, AllocationError>)
    requires
        default_duration matches Some(d) ==> 1 <= d <= MAX_ENTRY_MINUTES,
    ensures
        r == Err::<Vec<(usize, u64)>, AllocationError>(AllocationError::NoCandidates) <==> (
        candidates@.len() == 0 && target > 0),
        r == Err::<Vec<(usize, u64)>, AllocationError>(AllocationError::MissingDefaultDuration)
            ==> default_duration is None && candidates@.len() > 0 && target > 0,
        candidates@.len() > 0 && default_duration is Some ==> r is Ok,
        target == 0 ==> r is Ok,
        r matches Ok(entries) ==> {
            &&& sum_minutes(entries@) >= target
            &&& forall|i: int|
                0 <= i < entries@.len() ==> (#[trigger] entries@[i]).0 < candidates@.len()
            &&& forall|i: int|
                0 <= i < entries@.len() ==> 1 <= (#[trigger] entries@[i]).1 <= MAX_ENTRY_MINUTES
            &&& forall|i: int|
                0 <= i < entries@.len() ==> sum_minutes(entries@.take(i)) < target
            &&& (default_duration matches Some(d) ==> forall|i: int|
                0 <= i < entries@.len() ==> (#[trigger] entries@[i]).1 == d)
        },
{
    let n = candidates.len();
    if n == 0 {
        if target > 0 {
            return Err(AllocationError::NoCandidates);
        } else {
            return Ok(Vec::new());
        }
    }
    let mut entries: Vec<(usize, u64)> = Vec::new();
    let mut sum: u128 = 0;
    while sum < target as u128
        invariant
            1 <= n,
            n == candidates@.len(),
            default_duration matches Some(d) ==> 1 <= d <= MAX_ENTRY_MINUTES,
            sum == sum_minutes(entries@),
            forall|i: int|
                0 <= i < entries@.len() ==> (#[trigger] entries@[i]).0 < candidates@.len(),
            forall|i: int|
                0 <= i < entries@.len() ==> 1 <= (#[trigger] entries@[i]).1 <= MAX_ENTRY_MINUTES,
            forall|i: int|
                0 <= i < entries@.len() ==> sum_minutes(entries@.take(i)) < target,
            default_duration matches Some(d) ==> forall|i: int|
                0 <= i < entries@.len() ==> (#[trigger] entries@[i]).1 == d,
        decreases remaining_minutes(target, sum as int),
    {
        let idx = selector.pick_task(n);
        let d: u64 = match default_duration {
            Some(d) => d,
            None => match selector.pick_duration() {
                Some(d) => d,
                None => {
                    return Err(AllocationError::MissingDefaultDuration);
                },
            },
        };
        proof {
            let e = entries@;
            let x = (idx, d);
            assert(e.push(x).drop_last() =~= e);
            assert(e.push(x).last() == x);
            assert forall|i: int| 0 <= i < e.push(x).len() implies sum_minutes(
                #[trigger] e.push(x).take(i),
            ) < target by {
                assert(e.push(x).take(i) =~= e.take(i));
            }
        }
        entries.push((idx, d));
        sum = sum + d as u128;
    }
    Ok(entries)
}

/// Relies on rand::thread_rng and rand::Rng::gen_range over `0..n`: the drawn
/// value lies below `n`, and the range is non-empty, so the call does not
/// panic.
#[verifier::external_body]
fn random_index(n: usize) -> (r: usize)
    requires
        1 <= n,
    ensures
        r < n,
{
    rand::Rng::gen_range(&mut rand::thread_rng(), 0..n)
}

/// Picks tasks at random and supplies no duration: random picking is for
/// unattended runs, which must bring a configured default duration.
pub struct RandomSelector {
}

impl Selector for RandomSelector {
    fn pick_task(&mut self, n: usize) -> (r: usize) {
        random_index(n)
    }

    fn pick_duration(&mut self) -> (r: Option<u64>) {
        None
    }
}

/// Replays a fixed script of picks, for exercising the allocator without a
/// terminal: task picks out of `tasks` (an out-of-range or exhausted script
/// falls back to the first candidate), durations out of `durations` (an
/// exhausted or out-of-bounds script supplies none).
pub struct ScriptedSelector {
    pub tasks: Vec<usize>,
    pub durations: Vec<u64>,
    pub next_task: usize,
    pub next_duration: usize,
}

impl Selector for ScriptedSelector {
    fn pick_task(&mut self, n: usize) -> (r: usize) {
        if self.next_task < self.tasks.len() {
            let pick = self.tasks[self.next_task];
            self.next_task = self.next_task + 1;
            if pick < n {
                pick
            } else {
                0
            }
        } else {
            0
        }
    }

    fn pick_duration(&mut self) -> (r: Option<u64>) {
        if self.next_duration < self.durations.len() {
            let d = self.durations[self.next_duration];
            self.next_duration = self.next_duration + 1;
            if 1 <= d && d <= MAX_ENTRY_MINUTES {
                Some(d)
            } else {
                None
            }
        } else {
            None
        }
    }
}

impl ScriptedSelector {
    /// A selector that will replay the given picks from their start.
    pub fn new(tasks: Vec<usize>, durations: Vec<u64>) -> (r: ScriptedSelector)
        ensures
            r.tasks == tasks,
            r.durations == durations,
            r.next_task == 0,
            r.next_duration == 0,
    {
        ScriptedSelector { tasks, durations, next_task: 0, next_duration: 0 }
    }
}

} // verus!
