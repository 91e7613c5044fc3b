//! Library for summarising logged work time per project.
//!
//! The library parses the fixed GraphQL response shape of a user-timelog
//! query into records, filters them by an inclusive date range, accumulates
//! per-project and grand totals, and renders the report text.

pub mod date;
pub mod digits;
pub mod duration;
pub mod timelog;
pub mod response;
pub mod report;
