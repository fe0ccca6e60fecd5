//! The submission step.
//!
//! After upload the week can be submitted for approval to the approver
//! named in the configuration. Without one this is a user-configuration
//! error, not a crash; otherwise exactly one submit-for-approval request is
//! issued, whose approval period starts two days before the week's Monday —
//! the tracker anchors the period on the preceding Saturday.

use vstd::prelude::*;

verus! {

/// Why the week could not be submitted.
#[derive(Debug, PartialEq, Eq, Structural, Clone, Copy)]
pub enum SubmissionError {
    /// The configuration names nobody to submit the week to.
    NoReviewerConfigured,
}

/// The one submit-for-approval request of a run.
#[derive(Debug)]
pub struct SubmissionRequest {
    pub worker: String,
    pub reviewer: String,
    /// First day of the approval period: the Saturday before the week's
    /// Monday.
    pub period_start: i64,
}

/// Decides the submission step: the request to issue, or the configuration
/// error when the configuration names nobody to submit to.
pub fn submission_request(
    reviewer: &Option<String>,
    worker: &String,
    week_start: i64,
) -> (r: Result<SubmissionRequest, SubmissionError>)
    requires
        i64::MIN + 2 <= week_start,
    ensures
        reviewer is None <==> r == Err::<SubmissionRequest, SubmissionError>(
            SubmissionError::NoReviewerConfigured,
        ),
        r matches Ok(req) ==> {
            &&& reviewer matches Some(rev) && req.reviewer == rev
            &&& req.worker == worker
            &&& req.period_start == week_start - 2
        },
{
    match reviewer {
        None => Err(SubmissionError::NoReviewerConfigured),
        Some(rev) => Ok(
            SubmissionRequest {
                worker: worker.clone(),
                reviewer: rev.clone(),
                period_start: week_start - 2,
            },
        ),
    }
}

} // verus!
