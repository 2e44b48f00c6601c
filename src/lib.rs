//! Differential testing of generated regex circuits: the specification model,
//! the reference oracle, random sampling, test-case rendering and the
//! comparator that folds toolchain verdicts into a report.

pub mod code;
pub mod db;
pub mod literal;
pub mod oracle;
pub mod repetition;
pub mod tester;
pub mod sampler;
