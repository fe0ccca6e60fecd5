//! Verified core of a weekly timesheet filler.
//!
//! The library plans one work week of worklog entries against an issue
//! tracker: it resolves per-task worklog attributes out of issue field data,
//! allocates tasks and durations to each weekday until a daily time target is
//! met, prepares the worklog entries to upload, and decides the submission
//! step. Network calls, terminal prompts and the configuration file live
//! outside the library and exchange plain values with it.

pub mod allocate;
pub mod attributes;
pub mod config;
pub mod json;
pub mod tasks;
pub mod upload;
pub mod submit;
pub mod week;

