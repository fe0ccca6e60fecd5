//! Turning the week plan into the worklog entries to upload.
//!
//! The plan is fully materialized before anything touches the network:
//! preparation resolves every entry's attributes and fixes every request's
//! fields, in plan order, and the first entry that fails to resolve aborts
//! the whole batch. A dry run then dispatches none of the prepared entries;
//! a real run dispatches all of them, in order.

use vstd::prelude::*;

use crate::attributes::ResolutionError;
use crate::attributes::WorkAttribute;
use crate::attributes::duplicate_attributes;
use crate::attributes::resolve_attributes;
use crate::attributes::spec_resolve_attributes;
use crate::tasks::Task;
use crate::week::DayPlan;
use crate::week::day_plan_wf;

verus! {

/// One create-worklog request, ready to send: who worked, on which day, on
/// which task, for how many seconds, with which attributes.
#[derive(Debug)]
pub struct PreparedWorklog {
    pub worker: String,
    pub date: i64,
    pub task_key: String,
    pub time_spent_seconds: u64,
    pub attributes: Vec<WorkAttribute>,
}

/// The attributes one task's worklog entry carries: a static task's
/// pre-resolved list as it stands, an issue's templates resolved against its
/// fields.
pub open spec fn spec_attributes_for(
    task: Task,
    dynamic_templates: Seq<WorkAttribute>,
    static_templates: Seq<WorkAttribute>,
) -> Result<Seq<WorkAttribute>, ResolutionError> {
    match task {
        Task::Static(s) => Ok(s.attributes@),
        Task::FromQuery(i) => spec_resolve_attributes(i.fields@, dynamic_templates, static_templates),
    }
}

/// The week plan flattened to (date, entry) pairs, plan order kept.
pub open spec fn spec_week_entries(plans: Seq<DayPlan>) -> Seq<(i64, (usize, u64))>
    decreases plans.len(),
{
    if plans.len() == 0 {
        Seq::empty()
    } else {
        spec_week_entries(plans.drop_last()) + plans.last().entries@.map_values(
            |e: (usize, u64)| (plans.last().date, e),
        )
    }
}

/// What the prepared worklog at a flattened entry must hold.
pub open spec fn prepared_matches(
    w: PreparedWorklog,
    fe: (i64, (usize, u64)),
    tasks: Seq<Task>,
    worker: String,
    dynamic_templates: Seq<WorkAttribute>,
    static_templates: Seq<WorkAttribute>,
) -> bool {
    &&& w.worker == worker
    &&& w.date == fe.0
    &&& w.task_key == tasks[fe.1.0 as int].spec_key()
    &&& w.time_spent_seconds == fe.1.1 * 60
    &&& spec_attributes_for(tasks[fe.1.0 as int], dynamic_templates, static_templates) == Ok::<
        Seq<WorkAttribute>,
        ResolutionError,
    >(w.attributes@)
}

/// Flattening one more day appends that day's entries, dated with its date.
proof fn lemma_week_entries_take_step(plans: Seq<DayPlan>, p: int)
    requires
        0 <= p < plans.len(),
    ensures
        spec_week_entries(plans.take(p + 1)) == spec_week_entries(plans.take(p))
            + plans[p].entries@.map_values(|e: (usize, u64)| (plans[p].date, e)),
{
    assert(plans.take(p + 1).drop_last() =~= plans.take(p));
    assert(plans.take(p + 1).last() == plans[p]);
    assert(plans.take(p + 1).last().entries@.map_values(
        |e: (usize, u64)| (plans.take(p + 1).last().date, e),
    ) =~= plans[p].entries@.map_values(|e: (usize, u64)| (plans[p].date, e)));
}

/// A flattened prefix of the plan is a prefix of the flattened plan.
proof fn lemma_week_entries_prefix(plans: Seq<DayPlan>, m: int)
    requires
        0 <= m <= plans.len(),
    ensures
        spec_week_entries(plans.take(m)).len() <= spec_week_entries(plans).len(),
        forall|j: int|
            0 <= j < spec_week_entries(plans.take(m)).len() ==> spec_week_entries(plans.take(m))[j]
                == spec_week_entries(plans)[j],
    decreases plans.len() - m,
{
    if m == plans.len() {
        assert(plans.take(m) =~= plans);
    } else {
        lemma_week_entries_take_step(plans, m);
        lemma_week_entries_prefix(plans, m + 1);
    }
}

/// Prepares the whole week's worklog entries, in plan order: for each entry
/// the worker, the day, the task's key, the duration in seconds, and the
/// task's resolved attributes. The first entry whose attributes fail to
/// resolve aborts the batch with that failure, and nothing is prepared.
pub fn prepare_worklogs(
    tasks: &Vec<Task>,
    plans: &Vec<DayPlan>,
    worker: &String,
    dynamic_templates: &Vec<WorkAttribute>,
    static_templates: &Vec<WorkAttribute>,
) -> (r: Result<Vec<PreparedWorklog>, ResolutionError>)
    requires
        forall|p: int|
            0 <= p < plans@.len() ==> day_plan_wf(#[trigger] plans@[p], tasks@.len() as int),
    ensures
        r matches Ok(v) ==> {
            &&& v@.len() == spec_week_entries(plans@).len()
            &&& (forall|j: int|
                0 <= j < v@.len() ==> prepared_matches(
                    #[trigger] v@[j],
                    spec_week_entries(plans@)[j],
                    tasks@,
                    *worker,
                    dynamic_templates@,
                    static_templates@,
                ))
        },
        r matches Err(e) ==> (exists|j: int|
            {
                &&& 0 <= j < spec_week_entries(plans@).len()
                &&& spec_attributes_for(
                    tasks@[(#[trigger] spec_week_entries(plans@)[j]).1.0 as int],
                    dynamic_templates@,
                    static_templates@,
                ) == Err::<Seq<WorkAttribute>, ResolutionError>(e)
                &&& forall|t: int|
                    0 <= t < j ==> spec_attributes_for(
                        tasks@[(#[trigger] spec_week_entries(plans@)[t]).1.0 as int],
                        dynamic_templates@,
                        static_templates@,
                    ) is Ok
            }),
{
    let mut out: Vec<PreparedWorklog> = Vec::new();
    let np = plans.len();
    let mut p: usize = 0;
    while p < np
        invariant
            p <= np,
            np == plans@.len(),
            forall|q: int|
                0 <= q < plans@.len() ==> day_plan_wf(#[trigger] plans@[q], tasks@.len() as int),
            out@.len() == spec_week_entries(plans@.take(p as int)).len(),
            forall|j: int|
                0 <= j < out@.len() ==> prepared_matches(
                    #[trigger] out@[j],
                    spec_week_entries(plans@.take(p as int))[j],
                    tasks@,
                    *worker,
                    dynamic_templates@,
                    static_templates@,
                ),
            forall|j: int|
                0 <= j < out@.len() ==> spec_attributes_for(
                    tasks@[(#[trigger] spec_week_entries(plans@.take(p as int))[j]).1.0 as int],
                    dynamic_templates@,
                    static_templates@,
                ) is Ok,
        decreases np - p,
    {
        let plan = &plans[p];
        let ghost flat_p = spec_week_entries(plans@.take(p as int));
        let ne = plan.entries.len();
        let mut k: usize = 0;
        while k < ne
            invariant
                p < np,
                np == plans@.len(),
                k <= ne,
                ne == plans@[p as int].entries@.len(),
                plan == plans@[p as int],
                flat_p == spec_week_entries(plans@.take(p as int)),
                forall|q: int|
                    0 <= q < plans@.len() ==> day_plan_wf(
                        #[trigger] plans@[q],
                        tasks@.len() as int,
                    ),
                out@.len() == flat_p.len() + k,
                forall|j: int|
                    0 <= j < flat_p.len() ==> prepared_matches(
                        #[trigger] out@[j],
                        flat_p[j],
                        tasks@,
                        *worker,
                        dynamic_templates@,
                        static_templates@,
                    ),
                forall|j: int|
                    0 <= j < flat_p.len() ==> spec_attributes_for(
                        tasks@[(#[trigger] flat_p[j]).1.0 as int],
                        dynamic_templates@,
                        static_templates@,
                    ) is Ok,
                forall|t: int|
                    0 <= t < k ==> prepared_matches(
                        #[trigger] out@[flat_p.len() + t],
                        (plans@[p as int].date, plans@[p as int].entries@[t]),
                        tasks@,
                        *worker,
                        dynamic_templates@,
                        static_templates@,
                    ),
                forall|t: int|
                    0 <= t < k ==> spec_attributes_for(
                        tasks@[(#[trigger] plans@[p as int].entries@[t]).0 as int],
                        dynamic_templates@,
                        static_templates@,
                    ) is Ok,
            decreases ne - k,
        {
            let e = plan.entries[k];
            proof {
                assert(day_plan_wf(plans@[p as int], tasks@.len() as int));
                assert(plans@[p as int].entries@[k as int].0 < tasks@.len());
            }
            let idx = e.0;
            let dur = e.1;
            let task = &tasks[idx];
            let attrs = match task {
                Task::Static(s) => duplicate_attributes(&s.attributes),
                Task::FromQuery(i) => {
                    match resolve_attributes(&i.fields, dynamic_templates, static_templates) {
                        Ok(a) => a,
                        Err(err) => {
                            proof {
                                lemma_week_entries_take_step(plans@, p as int);
                                lemma_week_entries_prefix(plans@, p as int + 1);
                                let flat = spec_week_entries(plans@);
                                let fj = flat_p.len() as int + k;
                                assert(spec_week_entries(plans@.take(p as int + 1))[fj]
                                    == (plans@[p as int].date, plans@[p as int].entries@[k as int]));
                                assert(flat[fj] == (
                                    plans@[p as int].date,
                                    plans@[p as int].entries@[k as int],
                                ));
                                assert(spec_attributes_for(
                                    tasks@[flat[fj].1.0 as int],
                                    dynamic_templates@,
                                    static_templates@,
                                ) == Err::<Seq<WorkAttribute>, ResolutionError>(err));
                                assert forall|t: int| 0 <= t < fj implies spec_attributes_for(
                                    tasks@[(#[trigger] flat[t]).1.0 as int],
                                    dynamic_templates@,
                                    static_templates@,
                                ) is Ok by {
                                    if t < flat_p.len() {
                                        assert(flat[t] == flat_p[t]);
                                    } else {
                                        assert(spec_week_entries(plans@.take(p as int + 1))[t] == (
                                            plans@[p as int].date,
                                            plans@[p as int].entries@[t - flat_p.len()],
                                        ));
                                        assert(flat[t] == (
                                            plans@[p as int].date,
                                            plans@[p as int].entries@[t - flat_p.len()],
                                        ));
                                    }
                                }
                            }
                            return Err(err);
                        },
                    }
                },
            };
            proof {
                assert(dur <= crate::allocate::MAX_ENTRY_MINUTES);
                assert(dur as int * 60 <= u64::MAX) by {
                    vstd::arithmetic::div_mod::lemma_fundamental_div_mod(u64::MAX as int, 60);
                }
            }
            let seconds = dur * 60;
            out.push(
                PreparedWorklog {
                    worker: worker.clone(),
                    date: plan.date,
                    task_key: task.key(),
                    time_spent_seconds: seconds,
                    attributes: attrs,
                },
            );
            k += 1;
        }
        proof {
            lemma_week_entries_take_step(plans@, p as int);
            assert(spec_week_entries(plans@.take(p as int + 1)).len() == flat_p.len() + ne);
            assert forall|j: int|
                0 <= j < out@.len() implies prepared_matches(
                #[trigger] out@[j],
                spec_week_entries(plans@.take(p as int + 1))[j],
                tasks@,
                *worker,
                dynamic_templates@,
                static_templates@,
            ) by {
                if j >= flat_p.len() {
                    let t = j - flat_p.len();
                    assert(spec_week_entries(plans@.take(p as int + 1))[j] == (
                        plans@[p as int].date,
                        plans@[p as int].entries@[t],
                    ));
                    assert(prepared_matches(
                        out@[flat_p.len() + t],
                        (plans@[p as int].date, plans@[p as int].entries@[t]),
                        tasks@,
                        *worker,
                        dynamic_templates@,
                        static_templates@,
                    ));
                }
            }
            assert forall|j: int| 0 <= j < out@.len() implies spec_attributes_for(
                tasks@[(#[trigger] spec_week_entries(plans@.take(p as int + 1))[j]).1.0 as int],
                dynamic_templates@,
                static_templates@,
            ) is Ok by {
                if j >= flat_p.len() {
                    let t = j - flat_p.len();
                    assert(spec_week_entries(plans@.take(p as int + 1))[j] == (
                        plans@[p as int].date,
                        plans@[p as int].entries@[t],
                    ));
                    assert(spec_attributes_for(
                        tasks@[(plans@[p as int].entries@[t]).0 as int],
                        dynamic_templates@,
                        static_templates@,
                    ) is Ok);
                }
            }
        }
        p += 1;
    }
    proof {
        assert(plans@.take(np as int) =~= plans@);
    }
    Ok(out)
}

/// The prepared entries a run actually dispatches: all of them, in order —
/// or none at all in a dry run, which rehearses everything but must not
/// touch the tracker.
pub fn worklogs_to_dispatch(prepared: Vec<PreparedWorklog>, dry_run: bool) -> (r: Vec<
    PreparedWorklog,
>)
    ensures
        dry_run ==> r@.len() == 0,
        !dry_run ==> r@ == prepared@,
{
    if dry_run {
        Vec::new()
    } else {
        prepared
    }
}

} // verus!
