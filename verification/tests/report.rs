use repohelix_report::analysis::{
    Analysis, CoChange, FileStat, Hotspot, Ownership, Summary, TemporalCluster,
};
use repohelix_report::number::Fraction;
use repohelix_report::report::{render, to_json, to_text, truncate, Format};

fn one() -> Fraction {
    Fraction { num: 1, den: 1 }
}

/// The analysis of a history of one commit ("h1" by Ada <ada@x> at t=1000)
/// that changed `a.rs` by +3 -1.
fn single_commit_analysis() -> Analysis {
    Analysis {
        file_stats: vec![FileStat {
            path: "a.rs".to_string(),
            commits: 1,
            added: 3,
            removed: 1,
            churn: 4,
            authors: 1,
            first_seen: 1000,
            last_seen: 1000,
        }],
        co_changes: vec![],
        hotspots: vec![Hotspot {
            path: "a.rs".to_string(),
            churn: 4,
            commits: 1,
            score: one(),
        }],
        ownership: vec![Ownership {
            path: "a.rs".to_string(),
            authors: 1,
            top_share: one(),
            top_share_percent: Fraction { num: 100, den: 1 },
            concentration: one(),
            top_identity_label: "author#1".to_string(),
        }],
        clusters: vec![TemporalCluster {
            index: 0,
            start: 1000,
            end: 1000,
            commits: 1,
            files_touched: 1,
            churn: 4,
        }],
        summary: Summary {
            commits: 1,
            files: 1,
            authors: 1,
            total_churn: 4,
            first_commit: 1000,
            last_commit: 1000,
            span_days: 0,
        },
    }
}

#[test]
fn json_contains_schema_and_disclaimer() {
    let a = single_commit_analysis();
    let j = to_json(&a, false);
    assert!(j.contains("repohelix/analysis/v1"));
    assert!(j.contains("not"));
    assert!(j.contains("\"summary\""));
}

#[test]
fn json_is_valid_roundtrippable_structure() {
    let a = single_commit_analysis();
    let j = to_json(&a, true);
    // Pretty output should be balanced and contain nested arrays.
    assert_eq!(j.matches('{').count(), j.matches('}').count());
    assert_eq!(j.matches('[').count(), j.matches(']').count());
}

#[test]
fn text_report_has_sections() {
    let a = single_commit_analysis();
    let t = to_text(&a);
    assert!(t.contains("Summary"));
    assert!(t.contains("Top hotspots"));
    assert!(t.contains("Ownership concentration"));
    assert!(t.contains("not people"));
}

#[test]
fn truncate_short_and_long() {
    assert_eq!(truncate("abc", 5), "abc");
    assert_eq!(truncate("abcdefgh", 4), "…fgh");
}

const SINGLE_COMMIT_COMPACT: &str = "{\"schema\":\"repohelix/analysis/v1\",\"disclaimer\":\"Metrics describe file and change activity only. They are not measures of individual productivity or personnel judgments.\",\"summary\":{\"commits\":1,\"files\":1,\"authors\":1,\"total_churn\":4,\"first_commit\":1000,\"last_commit\":1000,\"span_days\":0},\"files\":[{\"path\":\"a.rs\",\"commits\":1,\"added\":3,\"removed\":1,\"churn\":4,\"authors\":1,\"first_seen\":1000,\"last_seen\":1000}],\"cochanges\":[],\"hotspots\":[{\"path\":\"a.rs\",\"churn\":4,\"commits\":1,\"score\":1.0}],\"ownership\":[{\"path\":\"a.rs\",\"authors\":1,\"top_share\":1.0,\"concentration\":1.0,\"top_identity_label\":\"author#1\"}],\"clusters\":[{\"index\":0,\"start\":1000,\"end\":1000,\"commits\":1,\"files_touched\":1,\"churn\":4}]}";

#[test]
fn compact_json_of_single_commit_is_exact() {
    assert_eq!(to_json(&single_commit_analysis(), false), SINGLE_COMMIT_COMPACT);
}

#[test]
fn pretty_json_of_single_commit_is_exact() {
    let expected = "{\n  \"schema\": \"repohelix/analysis/v1\",\n  \"disclaimer\": \"Metrics describe file and change activity only. They are not measures of individual productivity or personnel judgments.\",\n  \"summary\": {\n    \"commits\": 1,\n    \"files\": 1,\n    \"authors\": 1,\n    \"total_churn\": 4,\n    \"first_commit\": 1000,\n    \"last_commit\": 1000,\n    \"span_days\": 0\n  },\n  \"files\": [\n    {\n      \"path\": \"a.rs\",\n      \"commits\": 1,\n      \"added\": 3,\n      \"removed\": 1,\n      \"churn\": 4,\n      \"authors\": 1,\n      \"first_seen\": 1000,\n      \"last_seen\": 1000\n    }\n  ],\n  \"cochanges\": [],\n  \"hotspots\": [\n    {\n      \"path\": \"a.rs\",\n      \"churn\": 4,\n      \"commits\": 1,\n      \"score\": 1.0\n    }\n  ],\n  \"ownership\": [\n    {\n      \"path\": \"a.rs\",\n      \"authors\": 1,\n      \"top_share\": 1.0,\n      \"concentration\": 1.0,\n      \"top_identity_label\": \"author#1\"\n    }\n  ],\n  \"clusters\": [\n    {\n      \"index\": 0,\n      \"start\": 1000,\n      \"end\": 1000,\n      \"commits\": 1,\n      \"files_touched\": 1,\n      \"churn\": 4\n    }\n  ]\n}";
    assert_eq!(to_json(&single_commit_analysis(), true), expected);
}

#[test]
fn text_report_of_single_commit_is_exact() {
    let expected = "repohelix — Git history analysis\n================================\n\nSummary\n  commits ......... 1\n  files ........... 1\n  authors ......... 1\n  total churn ..... 4\n  span (days) ..... 0\n\nTop hotspots (churn x frequency)\n  path                                       churn commits   score\n  a.rs                                           4       1   1.000\n\nStrongest temporal coupling (co-change)\n    str  conf file A                     file B                    \n\nOwnership concentration (bus-factor risk)\n  path                                     authors    top%  concentr.\n  a.rs                                           1    100%      1.000\n\nTemporal clusters (development sessions)\n    idx  commits   files   churn\n      0        1       1       4\n\nNote: these metrics describe code and change activity, not people.\n";
    assert_eq!(to_text(&single_commit_analysis()), expected);
}

#[test]
fn render_dispatches_on_format() {
    let a = single_commit_analysis();
    assert_eq!(render(&a, Format::Json, false), SINGLE_COMMIT_COMPACT);
    assert_eq!(render(&a, Format::Json, true), to_json(&a, true));
    assert_eq!(render(&a, Format::Text, true), to_text(&a));
    assert_eq!(render(&a, Format::Text, false), to_text(&a));
}

#[test]
fn output_is_deterministic() {
    let a1 = single_commit_analysis();
    let a2 = single_commit_analysis();
    assert_eq!(to_json(&a1, true), to_json(&a2, true));
    assert_eq!(to_text(&a1), to_text(&a2));
}

#[test]
fn truncate_edge_cases() {
    // Exactly at the limit: unchanged.
    assert_eq!(truncate("abcd", 4), "abcd");
    // A zero limit still marks the elision.
    assert_eq!(truncate("abc", 0), "…");
    // A limit of one keeps only the marker.
    assert_eq!(truncate("abc", 1), "…");
    // Characters, not bytes, are counted.
    assert_eq!(truncate("héllo", 5), "héllo");
    assert_eq!(truncate("héllo wörld", 4), "…rld");
    assert_eq!(truncate("", 0), "");
}

fn coupling(a: &str, b: &str, strength: Fraction, confidence: Fraction) -> CoChange {
    CoChange {
        a: a.to_string(),
        b: b.to_string(),
        together: 2,
        count_a: 3,
        count_b: 4,
        strength,
        confidence,
    }
}

fn empty_analysis() -> Analysis {
    Analysis {
        file_stats: vec![],
        co_changes: vec![],
        hotspots: vec![],
        ownership: vec![],
        clusters: vec![],
        summary: Summary {
            commits: 0,
            files: 0,
            authors: 0,
            total_churn: 0,
            first_commit: 0,
            last_commit: 0,
            span_days: 0,
        },
    }
}

#[test]
fn fractions_render_exactly_in_json() {
    let mut a = empty_analysis();
    a.co_changes = vec![
        coupling("x", "y", Fraction { num: 2, den: 5 }, Fraction { num: 2, den: 3 }),
        coupling("x", "z", Fraction { num: 1, den: 0 }, Fraction { num: 0, den: 0 }),
        coupling("x", "w", Fraction { num: 1, den: 16 }, Fraction { num: 5, den: 2_000_000 }),
    ];
    let j = to_json(&a, false);
    assert!(j.contains("\"strength\":0.4,\"confidence\":0.666667}"));
    // Values that are not finite are written as null.
    assert!(j.contains("\"strength\":null,\"confidence\":null}"));
    // 1/16 = 0.0625 exactly; 5/2000000 = 0.0000025 rounds half to even.
    assert!(j.contains("\"strength\":0.0625,\"confidence\":0.000002}"));
    assert!(j.contains("\"cochanges\":[{\"a\":\"x\",\"b\":\"y\",\"together\":2,\"count_a\":3,\"count_b\":4,"));
}

#[test]
fn fractions_render_with_fixed_places_in_text() {
    let mut a = empty_analysis();
    a.co_changes = vec![
        // 1/8 = 0.125 rounds half to even at two places; 3/8 = 0.375 rounds up.
        coupling("x", "y", Fraction { num: 1, den: 8 }, Fraction { num: 3, den: 8 }),
        coupling("p", "q", Fraction { num: 1, den: 0 }, Fraction { num: 0, den: 0 }),
    ];
    a.ownership = vec![Ownership {
        path: "lib.rs".to_string(),
        authors: 3,
        top_share: Fraction { num: 5, den: 8 },
        top_share_percent: Fraction { num: 125, den: 2 },
        concentration: Fraction { num: 1, den: 3 },
        top_identity_label: "author#2".to_string(),
    }];
    let t = to_text(&a);
    assert!(t.contains("\n   0.12  0.38 x                          y                         \n"));
    assert!(t.contains("\n    inf   NaN p                          q                         \n"));
    // 62.5% rounds half to even.
    assert!(t.contains("\n  lib.rs                                         3     62%      0.333\n"));
}

#[test]
fn json_strings_are_escaped() {
    let mut a = empty_analysis();
    a.file_stats = vec![FileStat {
        path: "we\"ird\\pa\nth\t\u{1}é".to_string(),
        commits: 1,
        added: 0,
        removed: 0,
        churn: 1,
        authors: 1,
        first_seen: -5,
        last_seen: i64::MIN,
    }];
    let j = to_json(&a, false);
    assert!(j.contains("\"path\":\"we\\\"ird\\\\pa\\nth\\t\\u0001é\""));
    assert!(j.contains("\"first_seen\":-5,\"last_seen\":-9223372036854775808}"));
}

#[test]
fn counts_beyond_i64_wrap_as_in_a_signed_cast() {
    let mut a = empty_analysis();
    a.summary.commits = u64::MAX;
    a.summary.files = 1u64 << 63;
    let j = to_json(&a, false);
    assert!(j.contains("\"commits\":-1,\"files\":-9223372036854775808,"));
    // The text report prints the unsigned counts.
    let t = to_text(&a);
    assert!(t.contains("  commits ......... 18446744073709551615\n"));
}

#[test]
fn sections_show_at_most_fifteen_rows() {
    let mut a = empty_analysis();
    let mut clusters = Vec::new();
    for i in 0..20usize {
        clusters.push(TemporalCluster {
            index: i,
            start: 0,
            end: 0,
            commits: 1,
            files_touched: 1,
            churn: 1,
        });
    }
    a.clusters = clusters;
    let t = to_text(&a);
    assert!(t.contains("\n     14        1       1       1\n"));
    assert!(!t.contains("\n     15        1       1       1\n"));
    // The JSON report keeps every cluster.
    let j = to_json(&a, false);
    assert!(j.contains("{\"index\":19,"));
}

#[test]
fn long_paths_are_truncated_in_text_tables() {
    let mut a = empty_analysis();
    let long = "src/very/deeply/nested/module/with/a/long/name.rs";
    a.hotspots = vec![Hotspot {
        path: long.to_string(),
        churn: 10,
        commits: 2,
        score: Fraction { num: 7337, den: 10000 },
    }];
    let t = to_text(&a);
    let shown = truncate(long, 40);
    assert_eq!(shown.chars().count(), 40);
    assert!(shown.starts_with('…'));
    assert!(t.contains(&format!("\n  {}      10       2   0.734\n", shown)));
    // JSON keeps the whole path.
    assert!(to_json(&a, false).contains(long));
}

#[test]
fn empty_containers_render_compactly_in_pretty_json() {
    let j = to_json(&empty_analysis(), true);
    assert!(j.contains("  \"files\": [],\n"));
    assert!(j.ends_with("  \"clusters\": []\n}"));
}

#[test]
fn text_report_line_count_follows_shown_rows() {
    // 23 fixed lines plus one row per shown entry (at most fifteen per table).
    let t = to_text(&single_commit_analysis());
    assert_eq!(t.matches('\n').count(), 23 + 1 + 0 + 1 + 1);
    let mut a = empty_analysis();
    assert_eq!(to_text(&a).matches('\n').count(), 23);
    a.clusters = (0..20usize)
        .map(|i| TemporalCluster {
            index: i,
            start: 0,
            end: 0,
            commits: 0,
            files_touched: 0,
            churn: 0,
        })
        .collect();
    assert_eq!(to_text(&a).matches('\n').count(), 23 + 15);
}

#[test]
fn path_cells_fill_their_columns() {
    for path in ["", "a.rs", "exactly-forty-characters-long-path-xxxxx", "a/much/longer/path/that/does/not/fit/in/forty/chars.rs"] {
        let mut a = empty_analysis();
        a.hotspots = vec![Hotspot {
            path: path.to_string(),
            churn: 1,
            commits: 1,
            score: Fraction { num: 1, den: 2 },
        }];
        let t = to_text(&a);
        let row = t.lines().find(|l| l.ends_with("0.500")).unwrap();
        // margin (2) + path column (40) + three right-aligned columns of 7 with separators.
        assert_eq!(row.chars().count(), 2 + 40 + 3 * 8);
    }
}

/// Drops JSON whitespace that stands outside string literals.
fn strip_layout_outside_strings(text: &str) -> String {
    let mut out = String::new();
    let mut in_string = false;
    let mut escaped = false;
    for c in text.chars() {
        if in_string {
            out.push(c);
            if escaped {
                escaped = false;
            } else if c == '\\' {
                escaped = true;
            } else if c == '"' {
                in_string = false;
            }
        } else if !matches!(c, ' ' | '\t' | '\n' | '\r') {
            out.push(c);
            if c == '"' {
                in_string = true;
            }
        }
    }
    out
}

#[test]
fn pretty_and_compact_reports_encode_the_same_json() {
    let a = single_commit_analysis();
    assert_eq!(strip_layout_outside_strings(&to_json(&a, true)), to_json(&a, false));
    let mut b = empty_analysis();
    b.co_changes = vec![coupling("src/a b.rs", "x\"y\\z", Fraction { num: 1, den: 3 }, Fraction { num: 2, den: 3 })];
    assert_eq!(strip_layout_outside_strings(&to_json(&b, true)), to_json(&b, false));
}

#[test]
fn top_share_cell_shows_the_computed_percentage() {
    // The share 0.025 as a binary double is slightly above 1/40, while its
    // floating-point product with 100 is exactly 2.5, which rounds to 2.
    let mut a = empty_analysis();
    a.ownership = vec![Ownership {
        path: "x.rs".to_string(),
        authors: 2,
        top_share: Fraction { num: 3602879701896397, den: 1u64 << 57 },
        top_share_percent: Fraction { num: 5, den: 2 },
        concentration: Fraction { num: 0, den: 1 },
        top_identity_label: "author#1".to_string(),
    }];
    let t = to_text(&a);
    assert!(t.contains("\n  x.rs                                           2      2%      0.000\n"));
    // The JSON report carries the share itself.
    assert!(to_json(&a, false).contains("\"top_share\":0.025,"));
}

#[test]
fn json_report_declares_it_is_not_a_personnel_judgment() {
    let analysis = single_commit_analysis();
    let json = to_json(&analysis, false);
    assert!(json.contains("not"));
    assert!(json.contains("personnel judgments") || json.contains("not measures"));
}
