//! The tasks that time can be logged against.
//!
//! A task comes from one of two origins: an issue fetched from the tracker,
//! carrying its raw field data, or a static task written down in the
//! configuration, carrying a fixed, pre-resolved attribute list. A task's
//! identity is its key; tasks are read-only once assembled.

use vstd::prelude::*;

use crate::attributes::WorkAttribute;
use crate::json::JsonValue;
use crate::json::lookup_field;
use crate::json::spec_lookup;
use vstd::string::StringExecFns;

verus! {

/// A task written down in the configuration, with its attributes already
/// resolved.
#[derive(Debug)]
pub struct StaticTask {
    pub key: String,
    pub description: String,
    pub attributes: Vec<WorkAttribute>,
}

/// An issue fetched from the tracker: its key and its raw field data.
#[derive(Debug)]
pub struct Issue {
    pub key: String,
    pub fields: Vec<(String, JsonValue)>,
}

/// A task by origin: fetched from the tracker, or written down in the
/// configuration.
#[derive(Debug)]
pub enum Task {
    Static(StaticTask),
    FromQuery(Issue),
}

impl Task {
    /// The task's identity.
    pub open spec fn spec_key(self) -> String {
        match self {
            Task::Static(s) => s.key,
            Task::FromQuery(i) => i.key,
        }
    }

    /// The key under which worked time is logged.
    pub fn key(&self) -> (r: String)
        ensures
            r == self.spec_key(),
    {
        match self {
            Task::Static(s) => s.key.clone(),
            Task::FromQuery(i) => i.key.clone(),
        }
    }

    /// The line shown when picking a task: its key and its
    /// description, or for a tracker issue the string under its "summary"
    /// field — nothing, if that field is missing or not a string.
    pub open spec fn spec_display_label(self) -> Option<Seq<char>> {
        match self {
            Task::Static(s) => Some(s.key@ + " - "@ + s.description@),
            Task::FromQuery(i) => match spec_lookup(i.fields@, "summary"@) {
                Some(JsonValue::Str(s)) => Some(i.key@ + " - "@ + s@),
                _ => None,
            },
        }
    }

    /// Builds the display line.
    pub fn display_label(&self) -> (r: Option<String>)
        ensures
            match r {
                Some(s) => self.spec_display_label() == Some(s@),
                None => self.spec_display_label() is None,
            },
    {
        match self {
            Task::Static(st) => {
                let mut out = st.key.clone();
                out.append(" - ");
                out.append(st.description.as_str());
                Some(out)
            },
            Task::FromQuery(issue) => match lookup_field(&issue.fields, "summary") {
                Some(v) => match v {
                    JsonValue::Str(s) => {
                        let mut out = issue.key.clone();
                        out.append(" - ");
                        out.append(s.as_str());
                        Some(out)
                    },
                    _ => None,
                },
                None => None,
            },
        }
    }
}

/// Puts the fetched issues and then the configured static tasks into one
/// candidate list, keeping both orders: issues first, static tasks after.
pub fn assemble_tasks(issues: Vec<Issue>, static_tasks: Vec<StaticTask>) -> (r: Vec<Task>)
    ensures
        r@.len() == issues@.len() + static_tasks@.len(),
        forall|i: int|
            0 <= i < issues@.len() ==> r@[i] == Task::FromQuery(issues@[i]),
        forall|j: int|
            0 <= j < static_tasks@.len() ==> r@[issues@.len() + j] == Task::Static(
                static_tasks@[j],
            ),
{
    let ghost gi = issues@;
    let ghost gs = static_tasks@;
    let mut issues = issues;
    let mut static_tasks = static_tasks;
    let mut out: Vec<Task> = Vec::new();
    while issues.len() > 0
        invariant
            out@.len() + issues@.len() == gi.len(),
            issues@ =~= gi.skip(out@.len() as int),
            forall|i: int| 0 <= i < out@.len() ==> out@[i] == Task::FromQuery(gi[i]),
        decreases issues.len(),
    {
        let x = issues.remove(0);
        proof {
            assert(gi.skip(out@.len() as int)[0] == gi[out@.len() as int]);
            assert(gi.skip(out@.len() as int).remove(0) =~= gi.skip(out@.len() as int + 1));
        }
        out.push(Task::FromQuery(x));
    }
    while static_tasks.len() > 0
        invariant
            static_tasks@.len() <= gs.len(),
            out@.len() == gi.len() + (gs.len() - static_tasks@.len()),
            static_tasks@ =~= gs.skip(gs.len() - static_tasks@.len()),
            forall|i: int| 0 <= i < gi.len() ==> out@[i] == Task::FromQuery(gi[i]),
            forall|j: int|
                0 <= j < gs.len() - static_tasks@.len() ==> out@[gi.len() + j] == Task::Static(
                    gs[j],
                ),
        decreases static_tasks.len(),
    {
        let ghost done = gs.len() - static_tasks@.len();
        let x = static_tasks.remove(0);
        proof {
            assert(gs.skip(done)[0] == gs[done]);
            assert(gs.skip(done).remove(0) =~= gs.skip(done + 1));
        }
        out.push(Task::Static(x));
    }
    out
}

} // verus!
