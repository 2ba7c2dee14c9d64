//! Accuracy accounting for language detectors.
//!
//! A detector is run over labelled text samples, one language at a time. Every
//! outcome is tallied by the length class of the sample, by whether the
//! detector called its answer reliable, and by which wrong language it named.
//! All figures are kept as exact counts and exact ratios.

pub mod size;
pub mod lang;
pub mod ratio;
pub mod tally;
pub mod wrong;
pub mod counter;
pub mod report;
pub mod detect;
pub mod benchmark;
