//! The run's configuration as plain values.
//!
//! The configuration file itself — where it lives, how it is parsed — is
//! outside the library; what arrives here is the record it holds. The init
//! flow's data contract is the record it produces.

use vstd::prelude::*;

use crate::attributes::WorkAttribute;
use crate::tasks::StaticTask;

verus! {

/// Daily time target, in minutes, used when the configuration names none:
/// the equivalent of an eight-hour day.
pub const DEFAULT_DAILY_TARGET_MINUTES: u64 = 480;

/// Everything a fill run reads from configuration.
#[derive(Debug)]
pub struct Config {
    /// Base URL of the tracker, kept as text.
    pub api_endpoint: String,
    /// Account identifier work is logged for.
    pub worker: String,
    /// Account identifier the week is submitted to, if submission is wanted.
    pub reviewer: Option<String>,
    pub daily_target_time_spent_minutes: Option<u64>,
    pub default_time_spent_minutes: Option<u64>,
    pub static_tasks: Vec<StaticTask>,
    pub static_attributes: Vec<WorkAttribute>,
    pub dynamic_attributes: Vec<WorkAttribute>,
}

/// The record the init flow persists: endpoint, worker and approver
/// identifiers as resolved, the chosen daily target, and everything else
/// left empty for hand editing.
pub fn initial_config(
    api_endpoint: String,
    worker: String,
    reviewer: Option<String>,
    daily_target_minutes: u64,
) -> (c: Config)
    ensures
        c.api_endpoint == api_endpoint,
        c.worker == worker,
        c.reviewer == reviewer,
        c.daily_target_time_spent_minutes == Some(daily_target_minutes),
        c.default_time_spent_minutes is None,
        c.static_tasks@.len() == 0,
        c.static_attributes@.len() == 0,
        c.dynamic_attributes@.len() == 0,
{
    Config {
        api_endpoint,
        worker,
        reviewer,
        daily_target_time_spent_minutes: Some(daily_target_minutes),
        default_time_spent_minutes: None,
        static_tasks: Vec::new(),
        static_attributes: Vec::new(),
        dynamic_attributes: Vec::new(),
    }
}

/// The daily target a run plans with: the configured minutes, or the
/// eight-hour default.
pub fn effective_daily_target(c: &Config) -> (r: u64)
    ensures
        r == (match c.daily_target_time_spent_minutes {
            Some(m) => m,
            None => DEFAULT_DAILY_TARGET_MINUTES,
        }),
{
    match c.daily_target_time_spent_minutes {
        Some(m) => m,
        None => DEFAULT_DAILY_TARGET_MINUTES,
    }
}

} // verus!
