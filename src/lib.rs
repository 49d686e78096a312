//! Rule matching and enforcement of out-of-memory protection values
//! (`oom_score_adj`) for running processes.

pub mod process_snapshot;
pub mod glob_pattern;
pub mod rule;
pub mod enforce;
pub mod rule_set;
