//! A directory-wide document validator: which files are checked, against which
//! rules, in what order, and how the verdicts decide the outcome of a run.
pub mod plan;
pub mod protocol;
pub mod run;
pub mod rules;
pub mod selector;
