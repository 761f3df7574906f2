# repohelix_report

Verified rendering of a Git-history analysis into the two `repohelix`
reports: a JSON document (`schema: repohelix/analysis/v1`, pretty or compact)
and a terminal text report. Every metric describes files and change activity,
never people, and both reports say so.

## Layout

- `src/analysis.rs` — the analysis bundle: per-file statistics, co-change
  pairs, hotspots, ownership concentration, temporal clusters and totals.
  Ratio metrics are held exactly, as fractions (`number::Fraction`); the
  ownership table's percentage is held as computed (`top_share_percent`).
- `src/number.rs` — decimal rendering of integers and fractions (rounded half
  to even), padding helpers.
- `src/json.rs` — a JSON value tree with insertion-ordered objects, its
  compact and pretty (two-space) serializations, string escaping, and
  proofs that the output is balanced and that pretty and compact text encode
  the same JSON (equal once whitespace outside string literals is dropped).
- `src/report.rs` — the report itself: `build_json`, `to_json`, `to_text`,
  `truncate`, `render`, each with a contract giving the exact output.
- `src/report_properties.rs` — proved properties of the reports: balanced
  JSON structure, the schema and disclaimer in every JSON report, the closing
  reminder and the exact line count of the text report, truncated cells that
  fill their columns, pretty and compact reports that encode the same JSON,
  reports that depend on the analysis's content alone.
- `src/chars.rs` — facts about character sequences used by the proofs.
- `app/` — the command-line program around the library.

## Number formats

- JSON: fractions are written with up to six fractional digits, rounded half
  to even, trailing zeros dropped but at least one kept (`1.0`, `0.75`,
  `0.666667`); a fraction with a zero denominator is not finite and is
  written `null`.
- Text report: fixed places as in the table headings (`score` and
  `concentr.` with three, `str`/`conf` with two, `top%` with none), rounded
  half to even; a zero denominator prints `inf`, or `NaN` for `0/0`.
