//! The analysis bundle that reports are rendered from.
//!
//! Every number here describes files and change activity, never people.
//! Metrics that are ratios (coupling strength, confidence, hotspot score,
//! ownership shares) are held exactly, as fractions.
use vstd::prelude::*;
use crate::number::Fraction;

verus! {

/// Per-file churn and touch statistics.
#[derive(Debug)]
pub struct FileStat {
    pub path: String,
    /// Number of commits that touched this file.
    pub commits: u64,
    /// Total lines added across history.
    pub added: u64,
    /// Total lines removed across history.
    pub removed: u64,
    /// Total churn (added + removed, binaries count as 1 each touch).
    pub churn: u64,
    /// Distinct author identities that touched this file.
    pub authors: u64,
    /// First (oldest) timestamp the file was touched.
    pub first_seen: i64,
    /// Last (newest) timestamp the file was touched.
    pub last_seen: i64,
}

/// A co-change relationship between two files.
#[derive(Debug)]
pub struct CoChange {
    pub a: String,
    pub b: String,
    /// Commits in which both files changed together.
    pub together: u64,
    /// Commits touching `a`.
    pub count_a: u64,
    /// Commits touching `b`.
    pub count_b: u64,
    /// Jaccard-like coupling strength in [0, 1].
    pub strength: Fraction,
    /// Probability that one file changes when the other, more frequently
    /// changed one does.
    pub confidence: Fraction,
}

/// A file that is both high-churn and frequently changed.
#[derive(Debug)]
pub struct Hotspot {
    pub path: String,
    pub churn: u64,
    pub commits: u64,
    /// Normalized score in [0, 1].
    pub score: Fraction,
}

/// How change activity on one file is spread across author identities.
#[derive(Debug)]
pub struct Ownership {
    pub path: String,
    /// Distinct author identities.
    pub authors: u64,
    /// Share of commits from the single most active identity.
    pub top_share: Fraction,
    /// The same share as a percentage, exactly as the analysis computed it
    /// (its product with 100 in binary floating point, which may differ
    /// from one hundred times the exact share).
    pub top_share_percent: Fraction,
    /// Normalized Herfindahl–Hirschman index of commit shares in [0, 1].
    pub concentration: Fraction,
    /// Anonymized label for the most active identity (e.g. "author#1").
    pub top_identity_label: String,
}

/// A burst of commits separated from its neighbours by a large time gap.
#[derive(Debug)]
pub struct TemporalCluster {
    pub index: usize,
    pub start: i64,
    pub end: i64,
    pub commits: u64,
    /// Distinct files touched during the cluster.
    pub files_touched: u64,
    /// Total churn during the cluster.
    pub churn: u64,
}

/// Repository-wide totals.
#[derive(Debug)]
pub struct Summary {
    pub commits: u64,
    pub files: u64,
    pub authors: u64,
    pub total_churn: u64,
    pub first_commit: i64,
    pub last_commit: i64,
    /// Span in whole days between first and last commit.
    pub span_days: i64,
}

/// The complete analysis bundle.
#[derive(Debug)]
pub struct Analysis {
    pub file_stats: Vec<FileStat>,
    pub co_changes: Vec<CoChange>,
    pub hotspots: Vec<Hotspot>,
    pub ownership: Vec<Ownership>,
    pub clusters: Vec<TemporalCluster>,
    pub summary: Summary,
}

} // verus!
