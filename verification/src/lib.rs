//! Verified rendering of a repository-history analysis into JSON and text reports.
pub mod number;
pub mod chars;
pub mod json;
pub mod analysis;
pub mod report;
pub mod report_properties;
