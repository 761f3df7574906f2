//! Properties of the reports: balanced JSON structure, the schema and the
//! disclaimer in every JSON report, the reminder and the exact number of
//! lines of the text report, how truncated cells fit their columns, the
//! agreement of the pretty and the compact JSON report, that reports depend
//! on the analysis's content alone, that every JSON key, summary label and
//! table column shows the field it names, and which line of the text report
//! holds which summary field, table title, header and row.
use vstd::prelude::*;
use crate::analysis::{Analysis, CoChange, FileStat, Hotspot, Ownership, Summary, TemporalCluster};
use crate::chars::{joined, lemma_joined_concat, lemma_lines_of_joined, lemma_one_line, lines_of, balanced, bracket_free, contains, count_char, bare_text, lemma_bracket_free_chars, lemma_contains_extend, lemma_contains_middle, lemma_contains_trans, lemma_count_absent, lemma_count_concat, lemma_count_push, lemma_single_line_concat, single_line};
use crate::json::{element_of, first_member_from, length_of, member_of, pretty_and_compact_agree, strip_json_layout, compact_members, compact_text, deeper, escape, lemma_compact_balanced, lemma_compact_members_grow, lemma_escape_identity, lemma_plain_items_all, lemma_plain_members_all, lemma_pretty_balanced, lemma_pretty_members_grow, plain_json, pretty_members, pretty_text, quoted, JsonValue};
use crate::number::{dec, fixed_text, int_text, lemma_dec_bare, lemma_fixed_bare, lemma_int_text_bare, pad_left, pad_right, repeat};
use crate::report::{analysis_json, cluster_header, cluster_json, cluster_row, cluster_rows, cluster_section, cochange_json, coupling_header, coupling_row, coupling_rows, coupling_section, disclaimer, file_json, hotspot_header, hotspot_json, hotspot_row, hotspot_rows, hotspot_section, line, margin, ownership_header, ownership_json, ownership_row, ownership_rows, ownership_section, people_note, report_text, schema_id, shown, summary_json, summary_text, text_report, title_text, truncated, Format};

verus! {

// ----- properties of the reports -----

proof fn lemma_disclaimer_plain()
    ensures
        bracket_free(disclaimer()),
        bracket_free(schema_id()),
{
    reveal_strlit("Metrics describe file and change activity only. They are not measures of individual productivity or personnel judgments.");
    reveal_strlit("repohelix/analysis/v1");
    lemma_bracket_free_chars(disclaimer());
    lemma_bracket_free_chars(schema_id());
}

proof fn lemma_summary_json_plain(s: Summary)
    ensures
        plain_json(summary_json(s)),
{
    reveal_strlit("commits");
    lemma_bracket_free_chars("commits"@);
    reveal_strlit("files");
    lemma_bracket_free_chars("files"@);
    reveal_strlit("authors");
    lemma_bracket_free_chars("authors"@);
    reveal_strlit("total_churn");
    lemma_bracket_free_chars("total_churn"@);
    reveal_strlit("first_commit");
    lemma_bracket_free_chars("first_commit"@);
    reveal_strlit("last_commit");
    lemma_bracket_free_chars("last_commit"@);
    reveal_strlit("span_days");
    lemma_bracket_free_chars("span_days"@);
    let members = match summary_json(s) {
        JsonValue::Object(m) => m,
        _ => seq![],
    };
    lemma_plain_members_all(members, members.len());
}

proof fn lemma_file_json_plain(f: FileStat)
    requires
        bracket_free(f.path@),
    ensures
        plain_json(file_json(f)),
{
    reveal_strlit("path");
    lemma_bracket_free_chars("path"@);
    reveal_strlit("commits");
    lemma_bracket_free_chars("commits"@);
    reveal_strlit("added");
    lemma_bracket_free_chars("added"@);
    reveal_strlit("removed");
    lemma_bracket_free_chars("removed"@);
    reveal_strlit("churn");
    lemma_bracket_free_chars("churn"@);
    reveal_strlit("authors");
    lemma_bracket_free_chars("authors"@);
    reveal_strlit("first_seen");
    lemma_bracket_free_chars("first_seen"@);
    reveal_strlit("last_seen");
    lemma_bracket_free_chars("last_seen"@);
    let members = match file_json(f) {
        JsonValue::Object(m) => m,
        _ => seq![],
    };
    lemma_plain_members_all(members, members.len());
}

proof fn lemma_cochange_json_plain(c: CoChange)
    requires
        bracket_free(c.a@),
        bracket_free(c.b@),
    ensures
        plain_json(cochange_json(c)),
{
    reveal_strlit("a");
    lemma_bracket_free_chars("a"@);
    reveal_strlit("b");
    lemma_bracket_free_chars("b"@);
    reveal_strlit("together");
    lemma_bracket_free_chars("together"@);
    reveal_strlit("count_a");
    lemma_bracket_free_chars("count_a"@);
    reveal_strlit("count_b");
    lemma_bracket_free_chars("count_b"@);
    reveal_strlit("strength");
    lemma_bracket_free_chars("strength"@);
    reveal_strlit("confidence");
    lemma_bracket_free_chars("confidence"@);
    let members = match cochange_json(c) {
        JsonValue::Object(m) => m,
        _ => seq![],
    };
    lemma_plain_members_all(members, members.len());
}

proof fn lemma_hotspot_json_plain(h: Hotspot)
    requires
        bracket_free(h.path@),
    ensures
        plain_json(hotspot_json(h)),
{
    reveal_strlit("path");
    lemma_bracket_free_chars("path"@);
    reveal_strlit("churn");
    lemma_bracket_free_chars("churn"@);
    reveal_strlit("commits");
    lemma_bracket_free_chars("commits"@);
    reveal_strlit("score");
    lemma_bracket_free_chars("score"@);
    let members = match hotspot_json(h) {
        JsonValue::Object(m) => m,
        _ => seq![],
    };
    lemma_plain_members_all(members, members.len());
}

proof fn lemma_ownership_json_plain(o: Ownership)
    requires
        bracket_free(o.path@),
        bracket_free(o.top_identity_label@),
    ensures
        plain_json(ownership_json(o)),
{
    reveal_strlit("path");
    lemma_bracket_free_chars("path"@);
    reveal_strlit("authors");
    lemma_bracket_free_chars("authors"@);
    reveal_strlit("top_share");
    lemma_bracket_free_chars("top_share"@);
    reveal_strlit("concentration");
    lemma_bracket_free_chars("concentration"@);
    reveal_strlit("top_identity_label");
    lemma_bracket_free_chars("top_identity_label"@);
    let members = match ownership_json(o) {
        JsonValue::Object(m) => m,
        _ => seq![],
    };
    lemma_plain_members_all(members, members.len());
}

proof fn lemma_cluster_json_plain(c: TemporalCluster)
    ensures
        plain_json(cluster_json(c)),
{
    reveal_strlit("index");
    lemma_bracket_free_chars("index"@);
    reveal_strlit("start");
    lemma_bracket_free_chars("start"@);
    reveal_strlit("end");
    lemma_bracket_free_chars("end"@);
    reveal_strlit("commits");
    lemma_bracket_free_chars("commits"@);
    reveal_strlit("files_touched");
    lemma_bracket_free_chars("files_touched"@);
    reveal_strlit("churn");
    lemma_bracket_free_chars("churn"@);
    let members = match cluster_json(c) {
        JsonValue::Object(m) => m,
        _ => seq![],
    };
    lemma_plain_members_all(members, members.len());
}

/// The analysis's own strings (file paths, co-changed file names and
/// identity labels) hold none of `{`, `}`, `[`, `]`.
pub open spec fn plain_analysis(a: Analysis) -> bool {
    &&& forall|i: int| 0 <= i < a.file_stats@.len() ==> bracket_free(#[trigger] a.file_stats@[i].path@)
    &&& forall|i: int|
        0 <= i < a.co_changes@.len() ==> bracket_free(#[trigger] a.co_changes@[i].a@) && bracket_free(
            a.co_changes@[i].b@,
        )
    &&& forall|i: int| 0 <= i < a.hotspots@.len() ==> bracket_free(#[trigger] a.hotspots@[i].path@)
    &&& forall|i: int|
        0 <= i < a.ownership@.len() ==> bracket_free(#[trigger] a.ownership@[i].path@) && bracket_free(
            a.ownership@[i].top_identity_label@,
        )
}

proof fn lemma_analysis_json_plain(a: Analysis)
    requires
        plain_analysis(a),
    ensures
        plain_json(analysis_json(a)),
{
    lemma_disclaimer_plain();
    lemma_summary_json_plain(a.summary);
    let files = a.file_stats@.map_values(|f: FileStat| file_json(f));
    assert forall|k: int| 0 <= k < files.len() implies plain_json(#[trigger] files[k]) by {
        lemma_file_json_plain(a.file_stats@[k]);
    }
    lemma_plain_items_all(files, files.len());
    let cochanges = a.co_changes@.map_values(|c: CoChange| cochange_json(c));
    assert forall|k: int| 0 <= k < cochanges.len() implies plain_json(#[trigger] cochanges[k]) by {
        lemma_cochange_json_plain(a.co_changes@[k]);
    }
    lemma_plain_items_all(cochanges, cochanges.len());
    let hotspots = a.hotspots@.map_values(|h: Hotspot| hotspot_json(h));
    assert forall|k: int| 0 <= k < hotspots.len() implies plain_json(#[trigger] hotspots[k]) by {
        lemma_hotspot_json_plain(a.hotspots@[k]);
    }
    lemma_plain_items_all(hotspots, hotspots.len());
    let ownership = a.ownership@.map_values(|o: Ownership| ownership_json(o));
    assert forall|k: int| 0 <= k < ownership.len() implies plain_json(#[trigger] ownership[k]) by {
        lemma_ownership_json_plain(a.ownership@[k]);
    }
    lemma_plain_items_all(ownership, ownership.len());
    let clusters = a.clusters@.map_values(|c: TemporalCluster| cluster_json(c));
    assert forall|k: int| 0 <= k < clusters.len() implies plain_json(#[trigger] clusters[k]) by {
        lemma_cluster_json_plain(a.clusters@[k]);
    }
    lemma_plain_items_all(clusters, clusters.len());
    reveal_strlit("schema");
    lemma_bracket_free_chars("schema"@);
    reveal_strlit("disclaimer");
    lemma_bracket_free_chars("disclaimer"@);
    reveal_strlit("summary");
    lemma_bracket_free_chars("summary"@);
    reveal_strlit("files");
    lemma_bracket_free_chars("files"@);
    reveal_strlit("cochanges");
    lemma_bracket_free_chars("cochanges"@);
    reveal_strlit("hotspots");
    lemma_bracket_free_chars("hotspots"@);
    reveal_strlit("ownership");
    lemma_bracket_free_chars("ownership"@);
    reveal_strlit("clusters");
    lemma_bracket_free_chars("clusters"@);
    let members = match analysis_json(a) {
        JsonValue::Object(m) => m,
        _ => seq![],
    };
    lemma_plain_members_all(members, members.len());
}

/// The JSON report, pretty or compact, opens as many braces and brackets as it
/// closes, whenever the analysis's own strings hold no such characters.
pub proof fn json_report_is_balanced(a: Analysis, pretty: bool)
    requires
        plain_analysis(a),
    ensures
        balanced(report_text(a, Format::Json, pretty)),
{
    lemma_analysis_json_plain(a);
    if pretty {
        lemma_bracket_free_chars(seq![]);
        lemma_pretty_balanced(analysis_json(a), seq![]);
    } else {
        lemma_compact_balanced(analysis_json(a));
    }
}

/// A JSON string literal of text that needs no escapes contains that text.
proof fn lemma_quoted_contains(s: Seq<char>)
    requires
        escape(s) == s,
    ensures
        contains(quoted(s), s),
{
    lemma_contains_middle(seq!['"'], s, seq!['"']);
}

proof fn lemma_report_literals_unescaped()
    ensures
        escape(disclaimer()) == disclaimer(),
        escape(schema_id()) == schema_id(),
{
    reveal_strlit("Metrics describe file and change activity only. They are not measures of individual productivity or personnel judgments.");
    reveal_strlit("repohelix/analysis/v1");
    lemma_escape_identity(disclaimer());
    lemma_escape_identity(schema_id());
}

/// The members of the report's top-level object.
pub open spec fn report_members(a: Analysis) -> Seq<(Seq<char>, JsonValue)> {
    match analysis_json(a) {
        JsonValue::Object(m) => m,
        _ => seq![],
    }
}

proof fn lemma_first_members(a: Analysis)
    ensures
        report_members(a).len() == 8,
        report_members(a)[0] == ("schema"@, JsonValue::Str(schema_id())),
        report_members(a)[1] == ("disclaimer"@, JsonValue::Str(disclaimer())),
{
}

proof fn lemma_compact_object_contains(m: Seq<(Seq<char>, JsonValue)>, part: Seq<char>)
    requires
        contains(compact_members(m, m.len()), part),
    ensures
        contains(compact_text(JsonValue::Object(m)), part),
{
    let all = compact_members(m, m.len());
    lemma_contains_extend(seq!['{'], all, part, seq!['}']);
    assert(seq!['{'] + all + seq!['}'] =~= compact_text(JsonValue::Object(m)));
}

proof fn lemma_compact_first_two(m: Seq<(Seq<char>, JsonValue)>)
    requires
        m.len() >= 2,
        m[0] == ("schema"@, JsonValue::Str(schema_id())),
        m[1] == ("disclaimer"@, JsonValue::Str(disclaimer())),
    ensures
        contains(compact_members(m, 1), quoted(schema_id())),
        contains(compact_members(m, 2), quoted(disclaimer())),
{
    let first = compact_members(m, 1);
    let second = compact_members(m, 2);
    assert(first == quoted(m[0].0) + seq![':'] + compact_text(m[0].1));
    assert(compact_text(m[0].1) == quoted(schema_id()));
    assert(second == first + seq![','] + quoted(m[1].0) + seq![':'] + compact_text(m[1].1));
    assert(compact_text(m[1].1) == quoted(disclaimer()));
    lemma_contains_middle(quoted("schema"@) + seq![':'], quoted(schema_id()), seq![]);
    assert(quoted("schema"@) + seq![':'] + quoted(schema_id()) + seq![] =~= first);
    lemma_contains_middle(first + seq![','] + quoted("disclaimer"@) + seq![':'], quoted(disclaimer()), seq![]);
    assert(first + seq![','] + quoted("disclaimer"@) + seq![':'] + quoted(disclaimer()) + seq![] =~= second);
}

proof fn lemma_compact_carries(m: Seq<(Seq<char>, JsonValue)>)
    requires
        m.len() == 8,
        m[0] == ("schema"@, JsonValue::Str(schema_id())),
        m[1] == ("disclaimer"@, JsonValue::Str(disclaimer())),
    ensures
        contains(compact_text(JsonValue::Object(m)), quoted(schema_id())),
        contains(compact_text(JsonValue::Object(m)), quoted(disclaimer())),
{
    lemma_compact_first_two(m);
    lemma_compact_members_grow(m, 1, 8, quoted(schema_id()));
    lemma_compact_members_grow(m, 2, 8, quoted(disclaimer()));
    lemma_compact_object_contains(m, quoted(schema_id()));
    lemma_compact_object_contains(m, quoted(disclaimer()));
}

proof fn lemma_pretty_object_contains(m: Seq<(Seq<char>, JsonValue)>, part: Seq<char>)
    requires
        m.len() >= 1,
        contains(pretty_members(m, m.len(), deeper(seq![])), part),
    ensures
        contains(pretty_text(JsonValue::Object(m), seq![]), part),
{
    let all = pretty_members(m, m.len(), deeper(seq![]));
    let tail = seq!['\n'] + Seq::<char>::empty() + seq!['}'];
    lemma_contains_extend(seq!['{', '\n'], all, part, tail);
    assert(seq!['{', '\n'] + all + tail =~= pretty_text(JsonValue::Object(m), seq![]));
}

proof fn lemma_pretty_first_two(m: Seq<(Seq<char>, JsonValue)>)
    requires
        m.len() >= 2,
        m[0] == ("schema"@, JsonValue::Str(schema_id())),
        m[1] == ("disclaimer"@, JsonValue::Str(disclaimer())),
    ensures
        contains(pretty_members(m, 1, deeper(seq![])), quoted(schema_id())),
        contains(pretty_members(m, 2, deeper(seq![])), quoted(disclaimer())),
{
    let ind = deeper(seq![]);
    let first = pretty_members(m, 1, ind);
    let second = pretty_members(m, 2, ind);
    assert(first == ind + quoted(m[0].0) + seq![':', ' '] + pretty_text(m[0].1, ind));
    assert(pretty_text(m[0].1, ind) == quoted(schema_id()));
    assert(second == first + seq![',', '\n'] + ind + quoted(m[1].0) + seq![':', ' '] + pretty_text(m[1].1, ind));
    assert(pretty_text(m[1].1, ind) == quoted(disclaimer()));
    lemma_contains_middle(ind + quoted("schema"@) + seq![':', ' '], quoted(schema_id()), seq![]);
    assert(ind + quoted("schema"@) + seq![':', ' '] + quoted(schema_id()) + seq![] =~= first);
    lemma_contains_middle(first + seq![',', '\n'] + ind + quoted("disclaimer"@) + seq![':', ' '], quoted(disclaimer()), seq![]);
    assert(first + seq![',', '\n'] + ind + quoted("disclaimer"@) + seq![':', ' '] + quoted(disclaimer()) + seq![] =~= second);
}

proof fn lemma_pretty_carries(m: Seq<(Seq<char>, JsonValue)>)
    requires
        m.len() == 8,
        m[0] == ("schema"@, JsonValue::Str(schema_id())),
        m[1] == ("disclaimer"@, JsonValue::Str(disclaimer())),
    ensures
        contains(pretty_text(JsonValue::Object(m), seq![]), quoted(schema_id())),
        contains(pretty_text(JsonValue::Object(m), seq![]), quoted(disclaimer())),
{
    lemma_pretty_first_two(m);
    lemma_pretty_members_grow(m, 1, 8, deeper(seq![]), quoted(schema_id()));
    lemma_pretty_members_grow(m, 2, 8, deeper(seq![]), quoted(disclaimer()));
    lemma_pretty_object_contains(m, quoted(schema_id()));
    lemma_pretty_object_contains(m, quoted(disclaimer()));
}

/// Every JSON report, pretty or compact, carries the schema identifier and the
/// reminder that its metrics are not measures of people.
pub proof fn json_report_carries_schema_and_disclaimer(a: Analysis, pretty: bool)
    ensures
        contains(report_text(a, Format::Json, pretty), schema_id()),
        contains(report_text(a, Format::Json, pretty), disclaimer()),
{
    let m = report_members(a);
    lemma_first_members(a);
    assert(analysis_json(a) == JsonValue::Object(m));
    let text = report_text(a, Format::Json, pretty);
    lemma_report_literals_unescaped();
    lemma_quoted_contains(schema_id());
    lemma_quoted_contains(disclaimer());
    if pretty {
        lemma_pretty_carries(m);
    } else {
        lemma_compact_carries(m);
    }
    lemma_contains_trans(text, quoted(schema_id()), schema_id());
    lemma_contains_trans(text, quoted(disclaimer()), disclaimer());
}

/// Every text report ends with the reminder that its metrics describe code
/// and change activity, not people.
pub proof fn text_report_carries_people_note(a: Analysis)
    ensures
        contains(report_text(a, Format::Text, true), people_note()),
        contains(report_text(a, Format::Text, false), people_note()),
{
    let before = title_text() + summary_text(a.summary) + hotspot_section(a.hotspots@)
        + coupling_section(a.co_changes@) + ownership_section(a.ownership@) + cluster_section(
        a.clusters@,
    );
    lemma_contains_middle(before, people_note(), seq!['\n']);
    assert(before + people_note() + seq!['\n'] =~= text_report(a));
}

/// Truncation never yields more than `max` characters (one, for a zero
/// limit), leaves text that fits unchanged, and otherwise keeps the end of
/// the text behind a leading `…`.
pub proof fn truncation_keeps_the_end(s: Seq<char>, max: nat)
    ensures
        truncated(s, max).len() <= if max == 0 {
            1
        } else {
            max
        },
        s.len() <= max ==> truncated(s, max) == s,
        s.len() > max ==> {
            let t = truncated(s, max);
            &&& t.len() == if max == 0 {
                1
            } else {
                max
            }
            &&& t[0] == '…'
            &&& t.subrange(1, t.len() as int) == s.subrange(s.len() - (t.len() - 1), s.len() as int)
        },
{
    if s.len() > max {
        let t = truncated(s, max);
        let keep: nat = if max == 0 {
            0
        } else {
            (max - 1) as nat
        };
        assert(t.subrange(1, t.len() as int) =~= s.subrange(s.len() - keep, s.len() as int));
    }
}

/// A path cell of a text table (a truncated, left-aligned path) is exactly as
/// wide as its column, so the columns after it stay aligned.
pub proof fn path_cell_fills_its_column(path: Seq<char>, width: nat)
    requires
        width >= 1,
    ensures
        pad_right(truncated(path, width), width).len() == width,
{
    truncation_keeps_the_end(path, width);
}

// ----- the shape of the text report -----

/// The strings the text report shows (hotspot and ownership paths, the files
/// of each co-change pair) hold no line break.
pub open spec fn single_line_analysis(a: Analysis) -> bool {
    &&& forall|i: int| 0 <= i < a.hotspots@.len() ==> single_line(#[trigger] a.hotspots@[i].path@)
    &&& forall|i: int|
        0 <= i < a.co_changes@.len() ==> single_line(#[trigger] a.co_changes@[i].a@) && single_line(
            a.co_changes@[i].b@,
        )
    &&& forall|i: int| 0 <= i < a.ownership@.len() ==> single_line(#[trigger] a.ownership@[i].path@)
}

proof fn lemma_bare_text_single_line(s: Seq<char>)
    requires
        bare_text(s),
    ensures
        single_line(s),
{
    assert forall|i: int| 0 <= i < s.len() implies #[trigger] s[i] != '\n' by {}
}

proof fn lemma_line_count_one(s: Seq<char>)
    requires
        single_line(s),
    ensures
        count_char(line(s), '\n') == 1,
{
    lemma_count_absent(s, '\n');
    lemma_count_push(s, '\n', '\n');
    assert(line(s) =~= s.push('\n'));
}

proof fn lemma_pad_single_line(s: Seq<char>, width: nat)
    requires
        single_line(s),
    ensures
        single_line(pad_left(s, width)),
        single_line(pad_right(s, width)),
{
    if s.len() < width {
        let r = repeat(' ', (width - s.len()) as nat);
        assert(single_line(r));
        lemma_single_line_concat(r, s);
        lemma_single_line_concat(s, r);
    }
}

proof fn lemma_truncated_single_line(s: Seq<char>, max: nat)
    requires
        single_line(s),
    ensures
        single_line(truncated(s, max)),
{
    if s.len() > max {
        let keep: nat = if max == 0 {
            0
        } else {
            (max - 1) as nat
        };
        let tail = s.subrange(s.len() - keep, s.len() as int);
        assert(single_line(tail));
        lemma_single_line_concat(seq!['…'], tail);
    }
}

proof fn lemma_count_cell(n: nat, width: nat)
    ensures
        single_line(pad_left(dec(n), width)),
{
    lemma_dec_bare(n);
    lemma_bare_text_single_line(dec(n));
    lemma_pad_single_line(dec(n), width);
}

proof fn lemma_fixed_cell(num: nat, den: nat, places: nat, width: nat)
    ensures
        single_line(pad_left(fixed_text(num, den, places), width)),
{
    lemma_fixed_bare(num, den, places);
    lemma_bare_text_single_line(fixed_text(num, den, places));
    lemma_pad_single_line(fixed_text(num, den, places), width);
}

proof fn lemma_path_cell(path: Seq<char>, width: nat)
    requires
        single_line(path),
    ensures
        single_line(pad_right(truncated(path, width), width)),
{
    lemma_truncated_single_line(path, width);
    lemma_pad_single_line(truncated(path, width), width);
}

proof fn lemma_gap()
    ensures
        single_line(seq![' ']),
        single_line(margin()),
        single_line(seq!['%', ' ']),
{
}

proof fn lemma_hotspot_row_lines(h: Hotspot)
    requires
        single_line(h.path@),
    ensures
        count_char(hotspot_row(h), '\n') == 1,
{
    lemma_gap();
    let c1 = margin();
    let c2 = pad_right(truncated(h.path@, 40), 40);
    let c3 = pad_left(dec(h.churn as nat), 7);
    let c4 = pad_left(dec(h.commits as nat), 7);
    let c5 = pad_left(fixed_text(h.score.num as nat, h.score.den as nat, 3), 7);
    lemma_path_cell(h.path@, 40);
    lemma_count_cell(h.churn as nat, 7);
    lemma_count_cell(h.commits as nat, 7);
    lemma_fixed_cell(h.score.num as nat, h.score.den as nat, 3, 7);
    let sp = seq![' '];
    lemma_single_line_concat(c1, c2);
    lemma_single_line_concat(c1 + c2, sp);
    lemma_single_line_concat(c1 + c2 + sp, c3);
    lemma_single_line_concat(c1 + c2 + sp + c3, sp);
    lemma_single_line_concat(c1 + c2 + sp + c3 + sp, c4);
    lemma_single_line_concat(c1 + c2 + sp + c3 + sp + c4, sp);
    lemma_single_line_concat(c1 + c2 + sp + c3 + sp + c4 + sp, c5);
    lemma_line_count_one(c1 + c2 + sp + c3 + sp + c4 + sp + c5);
}

proof fn lemma_coupling_row_lines(c: CoChange)
    requires
        single_line(c.a@),
        single_line(c.b@),
    ensures
        count_char(coupling_row(c), '\n') == 1,
{
    lemma_gap();
    let c1 = margin();
    let c2 = pad_left(fixed_text(c.strength.num as nat, c.strength.den as nat, 2), 5);
    let c3 = pad_left(fixed_text(c.confidence.num as nat, c.confidence.den as nat, 2), 5);
    let c4 = pad_right(truncated(c.a@, 26), 26);
    let c5 = pad_right(truncated(c.b@, 26), 26);
    lemma_fixed_cell(c.strength.num as nat, c.strength.den as nat, 2, 5);
    lemma_fixed_cell(c.confidence.num as nat, c.confidence.den as nat, 2, 5);
    lemma_path_cell(c.a@, 26);
    lemma_path_cell(c.b@, 26);
    let sp = seq![' '];
    lemma_single_line_concat(c1, c2);
    lemma_single_line_concat(c1 + c2, sp);
    lemma_single_line_concat(c1 + c2 + sp, c3);
    lemma_single_line_concat(c1 + c2 + sp + c3, sp);
    lemma_single_line_concat(c1 + c2 + sp + c3 + sp, c4);
    lemma_single_line_concat(c1 + c2 + sp + c3 + sp + c4, sp);
    lemma_single_line_concat(c1 + c2 + sp + c3 + sp + c4 + sp, c5);
    lemma_line_count_one(c1 + c2 + sp + c3 + sp + c4 + sp + c5);
}

proof fn lemma_ownership_row_lines(o: Ownership)
    requires
        single_line(o.path@),
    ensures
        count_char(ownership_row(o), '\n') == 1,
{
    lemma_gap();
    let c1 = margin();
    let c2 = pad_right(truncated(o.path@, 40), 40);
    let c3 = pad_left(dec(o.authors as nat), 7);
    let c4 = pad_left(fixed_text(o.top_share_percent.num as nat, o.top_share_percent.den as nat, 0), 6);
    let c5 = pad_left(fixed_text(o.concentration.num as nat, o.concentration.den as nat, 3), 10);
    lemma_path_cell(o.path@, 40);
    lemma_count_cell(o.authors as nat, 7);
    lemma_fixed_cell(o.top_share_percent.num as nat, o.top_share_percent.den as nat, 0, 6);
    lemma_fixed_cell(o.concentration.num as nat, o.concentration.den as nat, 3, 10);
    let sp = seq![' '];
    let pc = seq!['%', ' '];
    lemma_single_line_concat(c1, c2);
    lemma_single_line_concat(c1 + c2, sp);
    lemma_single_line_concat(c1 + c2 + sp, c3);
    lemma_single_line_concat(c1 + c2 + sp + c3, sp);
    lemma_single_line_concat(c1 + c2 + sp + c3 + sp, c4);
    lemma_single_line_concat(c1 + c2 + sp + c3 + sp + c4, pc);
    lemma_single_line_concat(c1 + c2 + sp + c3 + sp + c4 + pc, c5);
    lemma_line_count_one(c1 + c2 + sp + c3 + sp + c4 + pc + c5);
}

proof fn lemma_cluster_row_lines(c: TemporalCluster)
    ensures
        count_char(cluster_row(c), '\n') == 1,
{
    lemma_gap();
    let c1 = margin();
    let c2 = pad_left(dec(c.index as nat), 5);
    let c3 = pad_left(dec(c.commits as nat), 8);
    let c4 = pad_left(dec(c.files_touched as nat), 7);
    let c5 = pad_left(dec(c.churn as nat), 7);
    lemma_count_cell(c.index as nat, 5);
    lemma_count_cell(c.commits as nat, 8);
    lemma_count_cell(c.files_touched as nat, 7);
    lemma_count_cell(c.churn as nat, 7);
    let sp = seq![' '];
    lemma_single_line_concat(c1, c2);
    lemma_single_line_concat(c1 + c2, sp);
    lemma_single_line_concat(c1 + c2 + sp, c3);
    lemma_single_line_concat(c1 + c2 + sp + c3, sp);
    lemma_single_line_concat(c1 + c2 + sp + c3 + sp, c4);
    lemma_single_line_concat(c1 + c2 + sp + c3 + sp + c4, sp);
    lemma_single_line_concat(c1 + c2 + sp + c3 + sp + c4 + sp, c5);
    lemma_line_count_one(c1 + c2 + sp + c3 + sp + c4 + sp + c5);
}

proof fn lemma_hotspot_rows_lines(hs: Seq<Hotspot>, n: nat)
    requires
        n <= hs.len(),
        forall|i: int| 0 <= i < n ==> single_line((#[trigger] hs[i]).path@),
    ensures
        count_char(hotspot_rows(hs, n), '\n') == n,
    decreases n,
{
    if n > 0 {
        lemma_hotspot_rows_lines(hs, (n - 1) as nat);
        lemma_hotspot_row_lines(hs[n - 1]);
        lemma_count_concat(hotspot_rows(hs, (n - 1) as nat), hotspot_row(hs[n - 1]), '\n');
    }
}

proof fn lemma_coupling_rows_lines(cs: Seq<CoChange>, n: nat)
    requires
        n <= cs.len(),
        forall|i: int| 0 <= i < n ==> single_line((#[trigger] cs[i]).a@) && single_line(cs[i].b@),
    ensures
        count_char(coupling_rows(cs, n), '\n') == n,
    decreases n,
{
    if n > 0 {
        lemma_coupling_rows_lines(cs, (n - 1) as nat);
        lemma_coupling_row_lines(cs[n - 1]);
        lemma_count_concat(coupling_rows(cs, (n - 1) as nat), coupling_row(cs[n - 1]), '\n');
    }
}

proof fn lemma_ownership_rows_lines(os: Seq<Ownership>, n: nat)
    requires
        n <= os.len(),
        forall|i: int| 0 <= i < n ==> single_line((#[trigger] os[i]).path@),
    ensures
        count_char(ownership_rows(os, n), '\n') == n,
    decreases n,
{
    if n > 0 {
        lemma_ownership_rows_lines(os, (n - 1) as nat);
        lemma_ownership_row_lines(os[n - 1]);
        lemma_count_concat(ownership_rows(os, (n - 1) as nat), ownership_row(os[n - 1]), '\n');
    }
}

proof fn lemma_cluster_rows_lines(cs: Seq<TemporalCluster>, n: nat)
    requires
        n <= cs.len(),
    ensures
        count_char(cluster_rows(cs, n), '\n') == n,
    decreases n,
{
    if n > 0 {
        lemma_cluster_rows_lines(cs, (n - 1) as nat);
        lemma_cluster_row_lines(cs[n - 1]);
        lemma_count_concat(cluster_rows(cs, (n - 1) as nat), cluster_row(cs[n - 1]), '\n');
    }
}

proof fn lemma_headers_lines()
    ensures
        count_char(hotspot_header(), '\n') == 1,
        count_char(coupling_header(), '\n') == 1,
        count_char(ownership_header(), '\n') == 1,
        count_char(cluster_header(), '\n') == 1,
{
    reveal_strlit("path");
    reveal_strlit("churn");
    reveal_strlit("commits");
    reveal_strlit("score");
    reveal_strlit("str");
    reveal_strlit("conf");
    reveal_strlit("file A");
    reveal_strlit("file B");
    reveal_strlit("authors");
    reveal_strlit("top%");
    reveal_strlit("concentr.");
    reveal_strlit("idx");
    reveal_strlit("files");
    lemma_gap();
    let sp = seq![' '];
    let m = margin();
    // hotspots
    lemma_pad_single_line("path"@, 40);
    lemma_pad_single_line("churn"@, 7);
    lemma_pad_single_line("commits"@, 7);
    lemma_pad_single_line("score"@, 7);
    let (a1, a2, a3, a4) = (pad_right("path"@, 40), pad_left("churn"@, 7), pad_left("commits"@, 7), pad_left("score"@, 7));
    lemma_single_line_concat(m, a1);
    lemma_single_line_concat(m + a1, sp);
    lemma_single_line_concat(m + a1 + sp, a2);
    lemma_single_line_concat(m + a1 + sp + a2, sp);
    lemma_single_line_concat(m + a1 + sp + a2 + sp, a3);
    lemma_single_line_concat(m + a1 + sp + a2 + sp + a3, sp);
    lemma_single_line_concat(m + a1 + sp + a2 + sp + a3 + sp, a4);
    lemma_line_count_one(m + a1 + sp + a2 + sp + a3 + sp + a4);
    // coupling
    lemma_pad_single_line("str"@, 5);
    lemma_pad_single_line("conf"@, 5);
    lemma_pad_single_line("file A"@, 26);
    lemma_pad_single_line("file B"@, 26);
    let (b1, b2, b3, b4) = (pad_left("str"@, 5), pad_left("conf"@, 5), pad_right("file A"@, 26), pad_right("file B"@, 26));
    lemma_single_line_concat(m, b1);
    lemma_single_line_concat(m + b1, sp);
    lemma_single_line_concat(m + b1 + sp, b2);
    lemma_single_line_concat(m + b1 + sp + b2, sp);
    lemma_single_line_concat(m + b1 + sp + b2 + sp, b3);
    lemma_single_line_concat(m + b1 + sp + b2 + sp + b3, sp);
    lemma_single_line_concat(m + b1 + sp + b2 + sp + b3 + sp, b4);
    lemma_line_count_one(m + b1 + sp + b2 + sp + b3 + sp + b4);
    // ownership
    lemma_pad_single_line("authors"@, 7);
    lemma_pad_single_line("top%"@, 7);
    lemma_pad_single_line("concentr."@, 10);
    let (c1, c2, c3, c4) = (pad_right("path"@, 40), pad_left("authors"@, 7), pad_left("top%"@, 7), pad_left("concentr."@, 10));
    lemma_single_line_concat(m, c1);
    lemma_single_line_concat(m + c1, sp);
    lemma_single_line_concat(m + c1 + sp, c2);
    lemma_single_line_concat(m + c1 + sp + c2, sp);
    lemma_single_line_concat(m + c1 + sp + c2 + sp, c3);
    lemma_single_line_concat(m + c1 + sp + c2 + sp + c3, sp);
    lemma_single_line_concat(m + c1 + sp + c2 + sp + c3 + sp, c4);
    lemma_line_count_one(m + c1 + sp + c2 + sp + c3 + sp + c4);
    // clusters
    lemma_pad_single_line("idx"@, 5);
    lemma_pad_single_line("commits"@, 8);
    lemma_pad_single_line("files"@, 7);
    let (d1, d2, d3, d4) = (pad_left("idx"@, 5), pad_left("commits"@, 8), pad_left("files"@, 7), pad_left("churn"@, 7));
    lemma_single_line_concat(m, d1);
    lemma_single_line_concat(m + d1, sp);
    lemma_single_line_concat(m + d1 + sp, d2);
    lemma_single_line_concat(m + d1 + sp + d2, sp);
    lemma_single_line_concat(m + d1 + sp + d2 + sp, d3);
    lemma_single_line_concat(m + d1 + sp + d2 + sp + d3, sp);
    lemma_single_line_concat(m + d1 + sp + d2 + sp + d3 + sp, d4);
    lemma_line_count_one(m + d1 + sp + d2 + sp + d3 + sp + d4);
}

proof fn lemma_blank_line()
    ensures
        count_char(line(seq![]), '\n') == 1,
{
    lemma_line_count_one(seq![]);
}

/// A section: its title line, its header line, its rows and a blank line.
proof fn lemma_section_lines(title: Seq<char>, header: Seq<char>, rows: Seq<char>, n: nat)
    requires
        single_line(title),
        count_char(header, '\n') == 1,
        count_char(rows, '\n') == n,
    ensures
        count_char(line(title) + header + rows + line(seq![]), '\n') == n + 3,
{
    lemma_line_count_one(title);
    lemma_blank_line();
    lemma_count_concat(line(title), header, '\n');
    lemma_count_concat(line(title) + header, rows, '\n');
    lemma_count_concat(line(title) + header + rows, line(seq![]), '\n');
}

proof fn lemma_title_lines()
    ensures
        count_char(title_text(), '\n') == 3,
{
    reveal_strlit("repohelix — Git history analysis");
    reveal_strlit("================================");
    lemma_line_count_one("repohelix — Git history analysis"@);
    lemma_line_count_one("================================"@);
    lemma_blank_line();
    lemma_count_concat(line("repohelix — Git history analysis"@), line("================================"@), '\n');
    lemma_count_concat(line("repohelix — Git history analysis"@) + line("================================"@), line(seq![]), '\n');
}

proof fn lemma_summary_line(label: Seq<char>, value: Seq<char>)
    requires
        single_line(label),
        bare_text(value),
    ensures
        count_char(line(label + value), '\n') == 1,
{
    lemma_bare_text_single_line(value);
    lemma_single_line_concat(label, value);
    lemma_line_count_one(label + value);
}

proof fn lemma_summary_lines(s: Summary)
    ensures
        count_char(summary_text(s), '\n') == 7,
{
    reveal_strlit("Summary");
    reveal_strlit("  commits ......... ");
    reveal_strlit("  files ........... ");
    reveal_strlit("  authors ......... ");
    reveal_strlit("  total churn ..... ");
    reveal_strlit("  span (days) ..... ");
    lemma_dec_bare(s.commits as nat);
    lemma_dec_bare(s.files as nat);
    lemma_dec_bare(s.authors as nat);
    lemma_dec_bare(s.total_churn as nat);
    lemma_int_text_bare(s.span_days as int);
    let l0 = line("Summary"@);
    let l1 = line("  commits ......... "@ + dec(s.commits as nat));
    let l2 = line("  files ........... "@ + dec(s.files as nat));
    let l3 = line("  authors ......... "@ + dec(s.authors as nat));
    let l4 = line("  total churn ..... "@ + dec(s.total_churn as nat));
    let l5 = line("  span (days) ..... "@ + int_text(s.span_days as int));
    let l6 = line(seq![]);
    lemma_line_count_one("Summary"@);
    lemma_summary_line("  commits ......... "@, dec(s.commits as nat));
    lemma_summary_line("  files ........... "@, dec(s.files as nat));
    lemma_summary_line("  authors ......... "@, dec(s.authors as nat));
    lemma_summary_line("  total churn ..... "@, dec(s.total_churn as nat));
    lemma_summary_line("  span (days) ..... "@, int_text(s.span_days as int));
    lemma_blank_line();
    lemma_count_concat(l0, l1, '\n');
    lemma_count_concat(l0 + l1, l2, '\n');
    lemma_count_concat(l0 + l1 + l2, l3, '\n');
    lemma_count_concat(l0 + l1 + l2 + l3, l4, '\n');
    lemma_count_concat(l0 + l1 + l2 + l3 + l4, l5, '\n');
    lemma_count_concat(l0 + l1 + l2 + l3 + l4 + l5, l6, '\n');
}

/// Every line of the text report is one of: the title block (three lines),
/// the summary (seven), four tables each with a title, a header, one row per
/// shown entry (at most fifteen) and a blank line, and the closing note.
/// So, when the shown paths hold no line break, the report has exactly
/// `23 + min(15, hotspots) + min(15, pairs) + min(15, files) + min(15, clusters)` lines.
#[verifier::rlimit(80)]
pub proof fn text_report_line_count(a: Analysis)
    requires
        single_line_analysis(a),
    ensures
        count_char(text_report(a), '\n') == 23 + (if a.hotspots@.len() < 15 { a.hotspots@.len() } else { 15 })
            + (if a.co_changes@.len() < 15 { a.co_changes@.len() } else { 15 })
            + (if a.ownership@.len() < 15 { a.ownership@.len() } else { 15 })
            + (if a.clusters@.len() < 15 { a.clusters@.len() } else { 15 }),
{
    reveal_strlit("Top hotspots (churn x frequency)");
    reveal_strlit("Strongest temporal coupling (co-change)");
    reveal_strlit("Ownership concentration (bus-factor risk)");
    reveal_strlit("Temporal clusters (development sessions)");
    reveal_strlit("Note: these metrics describe code and change activity, not people.");
    lemma_headers_lines();
    lemma_title_lines();
    lemma_summary_lines(a.summary);
    let (hs, cs, os, ks) = (a.hotspots@, a.co_changes@, a.ownership@, a.clusters@);
    lemma_hotspot_rows_lines(hs, shown(hs.len()));
    lemma_coupling_rows_lines(cs, shown(cs.len()));
    lemma_ownership_rows_lines(os, shown(os.len()));
    lemma_cluster_rows_lines(ks, shown(ks.len()));
    lemma_section_lines("Top hotspots (churn x frequency)"@, hotspot_header(), hotspot_rows(hs, shown(hs.len())), shown(hs.len()));
    lemma_section_lines("Strongest temporal coupling (co-change)"@, coupling_header(), coupling_rows(cs, shown(cs.len())), shown(cs.len()));
    lemma_section_lines("Ownership concentration (bus-factor risk)"@, ownership_header(), ownership_rows(os, shown(os.len())), shown(os.len()));
    lemma_section_lines("Temporal clusters (development sessions)"@, cluster_header(), cluster_rows(ks, shown(ks.len())), shown(ks.len()));
    lemma_line_count_one(people_note());
    let p1 = title_text();
    let p2 = summary_text(a.summary);
    let p3 = hotspot_section(hs);
    let p4 = coupling_section(cs);
    let p5 = ownership_section(os);
    let p6 = cluster_section(ks);
    let p7 = line(people_note());
    lemma_count_concat(p1, p2, '\n');
    lemma_count_concat(p1 + p2, p3, '\n');
    lemma_count_concat(p1 + p2 + p3, p4, '\n');
    lemma_count_concat(p1 + p2 + p3 + p4, p5, '\n');
    lemma_count_concat(p1 + p2 + p3 + p4 + p5, p6, '\n');
    lemma_count_concat(p1 + p2 + p3 + p4 + p5 + p6, p7, '\n');
}

/// The pretty and the compact JSON report of an analysis encode the same JSON
/// text: dropping the whitespace that stands outside string literals from the
/// pretty report gives the compact one.
pub proof fn pretty_and_compact_reports_agree(a: Analysis)
    ensures
        strip_json_layout(report_text(a, Format::Json, true)) == report_text(a, Format::Json, false),
{
    pretty_and_compact_agree(analysis_json(a));
}

// ----- reports depend on the analysis's content alone -----

pub open spec fn same_file(x: FileStat, y: FileStat) -> bool {
    x.path@ == y.path@ && x.commits == y.commits && x.added == y.added && x.removed == y.removed && x.churn == y.churn && x.authors == y.authors && x.first_seen == y.first_seen && x.last_seen == y.last_seen
}

pub open spec fn same_cochange(x: CoChange, y: CoChange) -> bool {
    x.a@ == y.a@ && x.b@ == y.b@ && x.together == y.together && x.count_a == y.count_a && x.count_b == y.count_b && x.strength == y.strength && x.confidence == y.confidence
}

pub open spec fn same_hotspot(x: Hotspot, y: Hotspot) -> bool {
    x.path@ == y.path@ && x.churn == y.churn && x.commits == y.commits && x.score == y.score
}

pub open spec fn same_ownership(x: Ownership, y: Ownership) -> bool {
    x.path@ == y.path@ && x.authors == y.authors && x.top_share == y.top_share && x.top_share_percent == y.top_share_percent && x.concentration == y.concentration && x.top_identity_label@ == y.top_identity_label@
}

pub open spec fn same_cluster(x: TemporalCluster, y: TemporalCluster) -> bool {
    x == y
}

/// Two analyses hold the same content: the same entries in the same order,
/// with equal numbers and equal text.
pub open spec fn same_content(a1: Analysis, a2: Analysis) -> bool {
    &&& a1.summary == a2.summary
    &&& a1.file_stats@.len() == a2.file_stats@.len()
    &&& forall|i: int| 0 <= i < a1.file_stats@.len() ==> same_file(#[trigger] a1.file_stats@[i], a2.file_stats@[i])
    &&& a1.co_changes@.len() == a2.co_changes@.len()
    &&& forall|i: int| 0 <= i < a1.co_changes@.len() ==> same_cochange(#[trigger] a1.co_changes@[i], a2.co_changes@[i])
    &&& a1.hotspots@.len() == a2.hotspots@.len()
    &&& forall|i: int| 0 <= i < a1.hotspots@.len() ==> same_hotspot(#[trigger] a1.hotspots@[i], a2.hotspots@[i])
    &&& a1.ownership@.len() == a2.ownership@.len()
    &&& forall|i: int| 0 <= i < a1.ownership@.len() ==> same_ownership(#[trigger] a1.ownership@[i], a2.ownership@[i])
    &&& a1.clusters@.len() == a2.clusters@.len()
    &&& forall|i: int| 0 <= i < a1.clusters@.len() ==> same_cluster(#[trigger] a1.clusters@[i], a2.clusters@[i])
}

proof fn lemma_hotspot_rows_same(s1: Seq<Hotspot>, s2: Seq<Hotspot>, n: nat)
    requires
        s1.len() == s2.len(),
        forall|i: int| 0 <= i < s1.len() ==> same_hotspot(#[trigger] s1[i], s2[i]),
    ensures
        hotspot_rows(s1, n) == hotspot_rows(s2, n),
    decreases n,
{
    if n > 0 && n <= s1.len() {
        lemma_hotspot_rows_same(s1, s2, (n - 1) as nat);
        assert(same_hotspot(s1[n - 1], s2[n - 1]));
        assert(hotspot_row(s1[n - 1]) == hotspot_row(s2[n - 1]));
    }
}

proof fn lemma_coupling_rows_same(s1: Seq<CoChange>, s2: Seq<CoChange>, n: nat)
    requires
        s1.len() == s2.len(),
        forall|i: int| 0 <= i < s1.len() ==> same_cochange(#[trigger] s1[i], s2[i]),
    ensures
        coupling_rows(s1, n) == coupling_rows(s2, n),
    decreases n,
{
    if n > 0 && n <= s1.len() {
        lemma_coupling_rows_same(s1, s2, (n - 1) as nat);
        assert(same_cochange(s1[n - 1], s2[n - 1]));
        assert(coupling_row(s1[n - 1]) == coupling_row(s2[n - 1]));
    }
}

proof fn lemma_ownership_rows_same(s1: Seq<Ownership>, s2: Seq<Ownership>, n: nat)
    requires
        s1.len() == s2.len(),
        forall|i: int| 0 <= i < s1.len() ==> same_ownership(#[trigger] s1[i], s2[i]),
    ensures
        ownership_rows(s1, n) == ownership_rows(s2, n),
    decreases n,
{
    if n > 0 && n <= s1.len() {
        lemma_ownership_rows_same(s1, s2, (n - 1) as nat);
        assert(same_ownership(s1[n - 1], s2[n - 1]));
        assert(ownership_row(s1[n - 1]) == ownership_row(s2[n - 1]));
    }
}

proof fn lemma_cluster_rows_same(s1: Seq<TemporalCluster>, s2: Seq<TemporalCluster>, n: nat)
    requires
        s1.len() == s2.len(),
        forall|i: int| 0 <= i < s1.len() ==> same_cluster(#[trigger] s1[i], s2[i]),
    ensures
        cluster_rows(s1, n) == cluster_rows(s2, n),
    decreases n,
{
    if n > 0 && n <= s1.len() {
        lemma_cluster_rows_same(s1, s2, (n - 1) as nat);
        assert(same_cluster(s1[n - 1], s2[n - 1]));
        assert(cluster_row(s1[n - 1]) == cluster_row(s2[n - 1]));
    }
}

/// Reports are a function of the analysis's content: two analyses with the
/// same content give byte-identical JSON reports (pretty and compact) and
/// byte-identical text reports.
pub proof fn reports_depend_on_content_only(a1: Analysis, a2: Analysis)
    requires
        same_content(a1, a2),
    ensures
        report_text(a1, Format::Json, true) == report_text(a2, Format::Json, true),
        report_text(a1, Format::Json, false) == report_text(a2, Format::Json, false),
        report_text(a1, Format::Text, true) == report_text(a2, Format::Text, true),
{
    let f1 = a1.file_stats@.map_values(|f: FileStat| file_json(f));
    let f2 = a2.file_stats@.map_values(|f: FileStat| file_json(f));
    assert forall|i: int| 0 <= i < f1.len() implies #[trigger] f1[i] == f2[i] by {
        assert(same_file(a1.file_stats@[i], a2.file_stats@[i]));
    }
    assert(f1 =~= f2);
    let c1 = a1.co_changes@.map_values(|c: CoChange| cochange_json(c));
    let c2 = a2.co_changes@.map_values(|c: CoChange| cochange_json(c));
    assert forall|i: int| 0 <= i < c1.len() implies #[trigger] c1[i] == c2[i] by {
        assert(same_cochange(a1.co_changes@[i], a2.co_changes@[i]));
    }
    assert(c1 =~= c2);
    let h1 = a1.hotspots@.map_values(|h: Hotspot| hotspot_json(h));
    let h2 = a2.hotspots@.map_values(|h: Hotspot| hotspot_json(h));
    assert forall|i: int| 0 <= i < h1.len() implies #[trigger] h1[i] == h2[i] by {
        assert(same_hotspot(a1.hotspots@[i], a2.hotspots@[i]));
    }
    assert(h1 =~= h2);
    let o1 = a1.ownership@.map_values(|o: Ownership| ownership_json(o));
    let o2 = a2.ownership@.map_values(|o: Ownership| ownership_json(o));
    assert forall|i: int| 0 <= i < o1.len() implies #[trigger] o1[i] == o2[i] by {
        assert(same_ownership(a1.ownership@[i], a2.ownership@[i]));
    }
    assert(o1 =~= o2);
    let k1 = a1.clusters@.map_values(|c: TemporalCluster| cluster_json(c));
    let k2 = a2.clusters@.map_values(|c: TemporalCluster| cluster_json(c));
    assert forall|i: int| 0 <= i < k1.len() implies #[trigger] k1[i] == k2[i] by {
        assert(same_cluster(a1.clusters@[i], a2.clusters@[i]));
    }
    assert(k1 =~= k2);
    assert(analysis_json(a1) == analysis_json(a2));
    lemma_hotspot_rows_same(a1.hotspots@, a2.hotspots@, shown(a1.hotspots@.len()));
    lemma_coupling_rows_same(a1.co_changes@, a2.co_changes@, shown(a1.co_changes@.len()));
    lemma_ownership_rows_same(a1.ownership@, a2.ownership@, shown(a1.ownership@.len()));
    lemma_cluster_rows_same(a1.clusters@, a2.clusters@, shown(a1.clusters@.len()));
    assert(text_report(a1) == text_report(a2));
}

// ----- each column shows the field its header names -----

proof fn lemma_pad_left_len(s: Seq<char>, width: nat)
    requires
        s.len() <= width,
    ensures
        pad_left(s, width).len() == width,
{
}

/// In the cluster table, each column of a row holds the field that the header
/// names at the same position, whenever the numbers fit their columns.
pub proof fn cluster_columns_show_their_fields(c: TemporalCluster)
    requires
        dec(c.index as nat).len() <= 5,
        dec(c.commits as nat).len() <= 8,
        dec(c.files_touched as nat).len() <= 7,
        dec(c.churn as nat).len() <= 7,
    ensures
        cluster_header().subrange(2, 7) == pad_left("idx"@, 5),
        cluster_row(c).subrange(2, 7) == pad_left(dec(c.index as nat), 5),
        cluster_header().subrange(8, 16) == pad_left("commits"@, 8),
        cluster_row(c).subrange(8, 16) == pad_left(dec(c.commits as nat), 8),
        cluster_header().subrange(17, 24) == pad_left("files"@, 7),
        cluster_row(c).subrange(17, 24) == pad_left(dec(c.files_touched as nat), 7),
        cluster_header().subrange(25, 32) == pad_left("churn"@, 7),
        cluster_row(c).subrange(25, 32) == pad_left(dec(c.churn as nat), 7),
{
    reveal_strlit("idx");
    reveal_strlit("commits");
    reveal_strlit("files");
    reveal_strlit("churn");
    let sp = seq![' '];
    let (h1, h2, h3, h4) = (pad_left("idx"@, 5), pad_left("commits"@, 8), pad_left("files"@, 7), pad_left("churn"@, 7));
    let (r1, r2, r3, r4) = (
        pad_left(dec(c.index as nat), 5),
        pad_left(dec(c.commits as nat), 8),
        pad_left(dec(c.files_touched as nat), 7),
        pad_left(dec(c.churn as nat), 7),
    );
    lemma_pad_left_len(dec(c.index as nat), 5);
    lemma_pad_left_len(dec(c.commits as nat), 8);
    lemma_pad_left_len(dec(c.files_touched as nat), 7);
    lemma_pad_left_len(dec(c.churn as nat), 7);
    let h = cluster_header();
    let r = cluster_row(c);
    assert(h == margin() + h1 + sp + h2 + sp + h3 + sp + h4 + seq!['\n']);
    assert(r == margin() + r1 + sp + r2 + sp + r3 + sp + r4 + seq!['\n']);
    assert(h.subrange(2, 7) =~= h1);
    assert(h.subrange(8, 16) =~= h2);
    assert(h.subrange(17, 24) =~= h3);
    assert(h.subrange(25, 32) =~= h4);
    assert(r.subrange(2, 7) =~= r1);
    assert(r.subrange(8, 16) =~= r2);
    assert(r.subrange(17, 24) =~= r3);
    assert(r.subrange(25, 32) =~= r4);
}

/// In the hotspot table, each column of a row holds the field that the header
/// names at the same position, whenever the numbers fit their columns.
pub proof fn hotspot_columns_show_their_fields(h: Hotspot)
    requires
        dec(h.churn as nat).len() <= 7,
        dec(h.commits as nat).len() <= 7,
        fixed_text(h.score.num as nat, h.score.den as nat, 3).len() <= 7,
    ensures
        hotspot_header().subrange(2, 42) == pad_right("path"@, 40),
        hotspot_row(h).subrange(2, 42) == pad_right(truncated(h.path@, 40), 40),
        hotspot_header().subrange(43, 50) == pad_left("churn"@, 7),
        hotspot_row(h).subrange(43, 50) == pad_left(dec(h.churn as nat), 7),
        hotspot_header().subrange(51, 58) == pad_left("commits"@, 7),
        hotspot_row(h).subrange(51, 58) == pad_left(dec(h.commits as nat), 7),
        hotspot_header().subrange(59, 66) == pad_left("score"@, 7),
        hotspot_row(h).subrange(59, 66) == pad_left(fixed_text(h.score.num as nat, h.score.den as nat, 3), 7),
{
    reveal_strlit("path");
    reveal_strlit("churn");
    reveal_strlit("commits");
    reveal_strlit("score");
    let sp = seq![' '];
    let (h1, h2, h3, h4) = (pad_right("path"@, 40), pad_left("churn"@, 7), pad_left("commits"@, 7), pad_left("score"@, 7));
    let score = fixed_text(h.score.num as nat, h.score.den as nat, 3);
    let (r1, r2, r3, r4) = (
        pad_right(truncated(h.path@, 40), 40),
        pad_left(dec(h.churn as nat), 7),
        pad_left(dec(h.commits as nat), 7),
        pad_left(score, 7),
    );
    path_cell_fills_its_column(h.path@, 40);
    lemma_pad_left_len(dec(h.churn as nat), 7);
    lemma_pad_left_len(dec(h.commits as nat), 7);
    lemma_pad_left_len(score, 7);
    let hd = hotspot_header();
    let r = hotspot_row(h);
    assert(hd == margin() + h1 + sp + h2 + sp + h3 + sp + h4 + seq!['\n']);
    assert(r == margin() + r1 + sp + r2 + sp + r3 + sp + r4 + seq!['\n']);
    assert(hd.subrange(2, 42) =~= h1);
    assert(hd.subrange(43, 50) =~= h2);
    assert(hd.subrange(51, 58) =~= h3);
    assert(hd.subrange(59, 66) =~= h4);
    assert(r.subrange(2, 42) =~= r1);
    assert(r.subrange(43, 50) =~= r2);
    assert(r.subrange(51, 58) =~= r3);
    assert(r.subrange(59, 66) =~= r4);
}

/// In the coupling table, each column of a row holds the field that the header
/// names at the same position, whenever the ratios fit their columns.
pub proof fn coupling_columns_show_their_fields(c: CoChange)
    requires
        fixed_text(c.strength.num as nat, c.strength.den as nat, 2).len() <= 5,
        fixed_text(c.confidence.num as nat, c.confidence.den as nat, 2).len() <= 5,
    ensures
        coupling_header().subrange(2, 7) == pad_left("str"@, 5),
        coupling_row(c).subrange(2, 7) == pad_left(fixed_text(c.strength.num as nat, c.strength.den as nat, 2), 5),
        coupling_header().subrange(8, 13) == pad_left("conf"@, 5),
        coupling_row(c).subrange(8, 13) == pad_left(fixed_text(c.confidence.num as nat, c.confidence.den as nat, 2), 5),
        coupling_header().subrange(14, 40) == pad_right("file A"@, 26),
        coupling_row(c).subrange(14, 40) == pad_right(truncated(c.a@, 26), 26),
        coupling_header().subrange(41, 67) == pad_right("file B"@, 26),
        coupling_row(c).subrange(41, 67) == pad_right(truncated(c.b@, 26), 26),
{
    reveal_strlit("str");
    reveal_strlit("conf");
    reveal_strlit("file A");
    reveal_strlit("file B");
    let sp = seq![' '];
    let (h1, h2, h3, h4) = (pad_left("str"@, 5), pad_left("conf"@, 5), pad_right("file A"@, 26), pad_right("file B"@, 26));
    let st = fixed_text(c.strength.num as nat, c.strength.den as nat, 2);
    let cf = fixed_text(c.confidence.num as nat, c.confidence.den as nat, 2);
    let (r1, r2, r3, r4) = (pad_left(st, 5), pad_left(cf, 5), pad_right(truncated(c.a@, 26), 26), pad_right(truncated(c.b@, 26), 26));
    lemma_pad_left_len(st, 5);
    lemma_pad_left_len(cf, 5);
    path_cell_fills_its_column(c.a@, 26);
    path_cell_fills_its_column(c.b@, 26);
    let hd = coupling_header();
    let r = coupling_row(c);
    assert(hd == margin() + h1 + sp + h2 + sp + h3 + sp + h4 + seq!['\n']);
    assert(r == margin() + r1 + sp + r2 + sp + r3 + sp + r4 + seq!['\n']);
    assert(hd.subrange(2, 7) =~= h1);
    assert(hd.subrange(8, 13) =~= h2);
    assert(hd.subrange(14, 40) =~= h3);
    assert(hd.subrange(41, 67) =~= h4);
    assert(r.subrange(2, 7) =~= r1);
    assert(r.subrange(8, 13) =~= r2);
    assert(r.subrange(14, 40) =~= r3);
    assert(r.subrange(41, 67) =~= r4);
}

/// In the ownership table, each column of a row holds the field that the
/// header names at the same position, whenever the numbers fit their columns.
pub proof fn ownership_columns_show_their_fields(o: Ownership)
    requires
        dec(o.authors as nat).len() <= 7,
        fixed_text(o.top_share_percent.num as nat, o.top_share_percent.den as nat, 0).len() <= 6,
        fixed_text(o.concentration.num as nat, o.concentration.den as nat, 3).len() <= 10,
    ensures
        ownership_header().subrange(2, 42) == pad_right("path"@, 40),
        ownership_row(o).subrange(2, 42) == pad_right(truncated(o.path@, 40), 40),
        ownership_header().subrange(43, 50) == pad_left("authors"@, 7),
        ownership_row(o).subrange(43, 50) == pad_left(dec(o.authors as nat), 7),
        ownership_header().subrange(51, 58) == pad_left("top%"@, 7),
        ownership_row(o).subrange(51, 58) == pad_left(
            fixed_text(o.top_share_percent.num as nat, o.top_share_percent.den as nat, 0),
            6,
        ) + seq!['%'],
        ownership_header().subrange(59, 69) == pad_left("concentr."@, 10),
        ownership_row(o).subrange(59, 69) == pad_left(fixed_text(o.concentration.num as nat, o.concentration.den as nat, 3), 10),
{
    reveal_strlit("path");
    reveal_strlit("authors");
    reveal_strlit("top%");
    reveal_strlit("concentr.");
    let sp = seq![' '];
    let (h1, h2, h3, h4) = (pad_right("path"@, 40), pad_left("authors"@, 7), pad_left("top%"@, 7), pad_left("concentr."@, 10));
    let pc = fixed_text(o.top_share_percent.num as nat, o.top_share_percent.den as nat, 0);
    let cc = fixed_text(o.concentration.num as nat, o.concentration.den as nat, 3);
    let (r1, r2, r3, r4) = (pad_right(truncated(o.path@, 40), 40), pad_left(dec(o.authors as nat), 7), pad_left(pc, 6), pad_left(cc, 10));
    path_cell_fills_its_column(o.path@, 40);
    lemma_pad_left_len(dec(o.authors as nat), 7);
    lemma_pad_left_len(pc, 6);
    lemma_pad_left_len(cc, 10);
    let hd = ownership_header();
    let r = ownership_row(o);
    assert(hd == margin() + h1 + sp + h2 + sp + h3 + sp + h4 + seq!['\n']);
    assert(r == margin() + r1 + sp + r2 + sp + r3 + seq!['%', ' '] + r4 + seq!['\n']);
    assert(hd.subrange(2, 42) =~= h1);
    assert(hd.subrange(43, 50) =~= h2);
    assert(hd.subrange(51, 58) =~= h3);
    assert(hd.subrange(59, 69) =~= h4);
    assert(r.subrange(2, 42) =~= r1);
    assert(r.subrange(43, 50) =~= r2);
    assert(r.subrange(51, 58) =~= r3 + seq!['%']);
    assert(r.subrange(59, 69) =~= r4);
}

// ----- each summary line shows the field its label names -----

proof fn lemma_line_after(pre: Seq<char>, prev: Seq<char>, cur: Seq<char>, post: Seq<char>)
    ensures
        contains(pre + line(prev) + line(cur) + post, seq!['\n'] + cur + seq!['\n']),
{
    lemma_contains_middle(pre + prev, seq!['\n'] + cur + seq!['\n'], post);
    assert(pre + prev + (seq!['\n'] + cur + seq!['\n']) + post =~= pre + line(prev) + line(cur) + post);
}

proof fn lemma_summary_block_lines(s: Summary)
    ensures
        contains(summary_text(s), seq!['\n'] + "  commits ......... "@ + dec(s.commits as nat) + seq!['\n']),
        contains(summary_text(s), seq!['\n'] + "  files ........... "@ + dec(s.files as nat) + seq!['\n']),
        contains(summary_text(s), seq!['\n'] + "  authors ......... "@ + dec(s.authors as nat) + seq!['\n']),
        contains(summary_text(s), seq!['\n'] + "  total churn ..... "@ + dec(s.total_churn as nat) + seq!['\n']),
        contains(summary_text(s), seq!['\n'] + "  span (days) ..... "@ + int_text(s.span_days as int) + seq!['\n']),
{
    let l0 = "Summary"@;
    let l1 = "  commits ......... "@ + dec(s.commits as nat);
    let l2 = "  files ........... "@ + dec(s.files as nat);
    let l3 = "  authors ......... "@ + dec(s.authors as nat);
    let l4 = "  total churn ..... "@ + dec(s.total_churn as nat);
    let l5 = "  span (days) ..... "@ + int_text(s.span_days as int);
    let l6 = line(seq![]);
    let t = summary_text(s);
    assert(t == line(l0) + line(l1) + line(l2) + line(l3) + line(l4) + line(l5) + l6);
    lemma_line_after(seq![], l0, l1, line(l2) + line(l3) + line(l4) + line(l5) + l6);
    assert(seq![] + line(l0) + line(l1) + (line(l2) + line(l3) + line(l4) + line(l5) + l6) =~= t);
    lemma_line_after(line(l0), l1, l2, line(l3) + line(l4) + line(l5) + l6);
    assert(line(l0) + line(l1) + line(l2) + (line(l3) + line(l4) + line(l5) + l6) =~= t);
    lemma_line_after(line(l0) + line(l1), l2, l3, line(l4) + line(l5) + l6);
    assert(line(l0) + line(l1) + line(l2) + line(l3) + (line(l4) + line(l5) + l6) =~= t);
    lemma_line_after(line(l0) + line(l1) + line(l2), l3, l4, line(l5) + l6);
    assert(line(l0) + line(l1) + line(l2) + line(l3) + line(l4) + (line(l5) + l6) =~= t);
    lemma_line_after(line(l0) + line(l1) + line(l2) + line(l3), l4, l5, l6);
    assert(seq!['\n'] + "  commits ......... "@ + dec(s.commits as nat) + seq!['\n'] =~= seq!['\n'] + l1 + seq!['\n']);
    assert(seq!['\n'] + "  files ........... "@ + dec(s.files as nat) + seq!['\n'] =~= seq!['\n'] + l2 + seq!['\n']);
    assert(seq!['\n'] + "  authors ......... "@ + dec(s.authors as nat) + seq!['\n'] =~= seq!['\n'] + l3 + seq!['\n']);
    assert(seq!['\n'] + "  total churn ..... "@ + dec(s.total_churn as nat) + seq!['\n'] =~= seq!['\n'] + l4 + seq!['\n']);
    assert(seq!['\n'] + "  span (days) ..... "@ + int_text(s.span_days as int) + seq!['\n'] =~= seq!['\n'] + l5 + seq!['\n']);
}

proof fn lemma_summary_in_report(a: Analysis, part: Seq<char>)
    requires
        contains(summary_text(a.summary), part),
    ensures
        contains(text_report(a), part),
{
    let rest = hotspot_section(a.hotspots@) + coupling_section(a.co_changes@) + ownership_section(a.ownership@)
        + cluster_section(a.clusters@) + line(people_note());
    lemma_contains_extend(title_text(), summary_text(a.summary), part, rest);
    assert(title_text() + summary_text(a.summary) + rest =~= text_report(a));
}

/// Each summary line of the text report, a whole line of its own, holds its
/// label followed by the field that the label names.
pub proof fn summary_lines_show_their_fields(a: Analysis)
    ensures
        contains(text_report(a), seq!['\n'] + "  commits ......... "@ + dec(a.summary.commits as nat) + seq!['\n']),
        contains(text_report(a), seq!['\n'] + "  files ........... "@ + dec(a.summary.files as nat) + seq!['\n']),
        contains(text_report(a), seq!['\n'] + "  authors ......... "@ + dec(a.summary.authors as nat) + seq!['\n']),
        contains(text_report(a), seq!['\n'] + "  total churn ..... "@ + dec(a.summary.total_churn as nat) + seq!['\n']),
        contains(text_report(a), seq!['\n'] + "  span (days) ..... "@ + int_text(a.summary.span_days as int) + seq!['\n']),
{
    let s = a.summary;
    lemma_summary_block_lines(s);
    lemma_summary_in_report(a, seq!['\n'] + "  commits ......... "@ + dec(s.commits as nat) + seq!['\n']);
    lemma_summary_in_report(a, seq!['\n'] + "  files ........... "@ + dec(s.files as nat) + seq!['\n']);
    lemma_summary_in_report(a, seq!['\n'] + "  authors ......... "@ + dec(s.authors as nat) + seq!['\n']);
    lemma_summary_in_report(a, seq!['\n'] + "  total churn ..... "@ + dec(s.total_churn as nat) + seq!['\n']);
    lemma_summary_in_report(a, seq!['\n'] + "  span (days) ..... "@ + int_text(s.span_days as int) + seq!['\n']);
}

// ----- each JSON member carries the field its key names -----

proof fn lemma_summary_members(s: Summary)
    ensures
        member_of(Some(summary_json(s)), "commits"@) == Some(JsonValue::Int((s.commits as i64) as int)),
        member_of(Some(summary_json(s)), "files"@) == Some(JsonValue::Int((s.files as i64) as int)),
        member_of(Some(summary_json(s)), "authors"@) == Some(JsonValue::Int((s.authors as i64) as int)),
        member_of(Some(summary_json(s)), "total_churn"@) == Some(JsonValue::Int((s.total_churn as i64) as int)),
        member_of(Some(summary_json(s)), "first_commit"@) == Some(JsonValue::Int(s.first_commit as int)),
        member_of(Some(summary_json(s)), "last_commit"@) == Some(JsonValue::Int(s.last_commit as int)),
        member_of(Some(summary_json(s)), "span_days"@) == Some(JsonValue::Int(s.span_days as int)),
{
    reveal_strlit("commits");
    reveal_strlit("files");
    reveal_strlit("authors");
    reveal_strlit("total_churn");
    reveal_strlit("first_commit");
    reveal_strlit("last_commit");
    reveal_strlit("span_days");
    let m = match summary_json(s) {
        JsonValue::Object(m) => m,
        _ => seq![],
    };
    assert(m.len() == 7);
    assert(m[0].0 == "commits"@);
    assert(m[1].0 == "files"@);
    assert(m[2].0 == "authors"@);
    assert(m[3].0 == "total_churn"@);
    assert(m[4].0 == "first_commit"@);
    assert(m[5].0 == "last_commit"@);
    assert(m[6].0 == "span_days"@);
    assert("commits"@[0] != "authors"@[0]);
    assert("total_churn"@[0] != "last_commit"@[0]);
    reveal_with_fuel(first_member_from, 8);
}

proof fn lemma_file_members(f: FileStat)
    ensures
        member_of(Some(file_json(f)), "path"@) == Some(JsonValue::Str(f.path@)),
        member_of(Some(file_json(f)), "commits"@) == Some(JsonValue::Int((f.commits as i64) as int)),
        member_of(Some(file_json(f)), "added"@) == Some(JsonValue::Int((f.added as i64) as int)),
        member_of(Some(file_json(f)), "removed"@) == Some(JsonValue::Int((f.removed as i64) as int)),
        member_of(Some(file_json(f)), "churn"@) == Some(JsonValue::Int((f.churn as i64) as int)),
        member_of(Some(file_json(f)), "authors"@) == Some(JsonValue::Int((f.authors as i64) as int)),
        member_of(Some(file_json(f)), "first_seen"@) == Some(JsonValue::Int(f.first_seen as int)),
        member_of(Some(file_json(f)), "last_seen"@) == Some(JsonValue::Int(f.last_seen as int)),
{
    reveal_strlit("path");
    reveal_strlit("commits");
    reveal_strlit("added");
    reveal_strlit("removed");
    reveal_strlit("churn");
    reveal_strlit("authors");
    reveal_strlit("first_seen");
    reveal_strlit("last_seen");
    let m = match file_json(f) {
        JsonValue::Object(m) => m,
        _ => seq![],
    };
    assert(m.len() == 8);
    assert(m[0].0 == "path"@);
    assert(m[1].0 == "commits"@);
    assert(m[2].0 == "added"@);
    assert(m[3].0 == "removed"@);
    assert(m[4].0 == "churn"@);
    assert(m[5].0 == "authors"@);
    assert(m[6].0 == "first_seen"@);
    assert(m[7].0 == "last_seen"@);
    assert("commits"@[0] != "removed"@[0]);
    assert("commits"@[0] != "authors"@[0]);
    assert("added"@[0] != "churn"@[0]);
    assert("removed"@[0] != "authors"@[0]);
    reveal_with_fuel(first_member_from, 9);
}

proof fn lemma_cochange_members(c: CoChange)
    ensures
        member_of(Some(cochange_json(c)), "a"@) == Some(JsonValue::Str(c.a@)),
        member_of(Some(cochange_json(c)), "b"@) == Some(JsonValue::Str(c.b@)),
        member_of(Some(cochange_json(c)), "together"@) == Some(JsonValue::Int((c.together as i64) as int)),
        member_of(Some(cochange_json(c)), "count_a"@) == Some(JsonValue::Int((c.count_a as i64) as int)),
        member_of(Some(cochange_json(c)), "count_b"@) == Some(JsonValue::Int((c.count_b as i64) as int)),
        member_of(Some(cochange_json(c)), "strength"@) == Some(JsonValue::Frac(c.strength.num as nat, c.strength.den as nat)),
        member_of(Some(cochange_json(c)), "confidence"@) == Some(JsonValue::Frac(c.confidence.num as nat, c.confidence.den as nat)),
{
    reveal_strlit("a");
    reveal_strlit("b");
    reveal_strlit("together");
    reveal_strlit("count_a");
    reveal_strlit("count_b");
    reveal_strlit("strength");
    reveal_strlit("confidence");
    let m = match cochange_json(c) {
        JsonValue::Object(m) => m,
        _ => seq![],
    };
    assert(m.len() == 7);
    assert(m[0].0 == "a"@);
    assert(m[1].0 == "b"@);
    assert(m[2].0 == "together"@);
    assert(m[3].0 == "count_a"@);
    assert(m[4].0 == "count_b"@);
    assert(m[5].0 == "strength"@);
    assert(m[6].0 == "confidence"@);
    assert("a"@[0] != "b"@[0]);
    assert("together"@[0] != "strength"@[0]);
    assert("count_a"@[6] != "count_b"@[6]);
    reveal_with_fuel(first_member_from, 8);
}

proof fn lemma_hotspot_members(h: Hotspot)
    ensures
        member_of(Some(hotspot_json(h)), "path"@) == Some(JsonValue::Str(h.path@)),
        member_of(Some(hotspot_json(h)), "churn"@) == Some(JsonValue::Int((h.churn as i64) as int)),
        member_of(Some(hotspot_json(h)), "commits"@) == Some(JsonValue::Int((h.commits as i64) as int)),
        member_of(Some(hotspot_json(h)), "score"@) == Some(JsonValue::Frac(h.score.num as nat, h.score.den as nat)),
{
    reveal_strlit("path");
    reveal_strlit("churn");
    reveal_strlit("commits");
    reveal_strlit("score");
    let m = match hotspot_json(h) {
        JsonValue::Object(m) => m,
        _ => seq![],
    };
    assert(m.len() == 4);
    assert(m[0].0 == "path"@);
    assert(m[1].0 == "churn"@);
    assert(m[2].0 == "commits"@);
    assert(m[3].0 == "score"@);
    assert("churn"@[0] != "score"@[0]);
    reveal_with_fuel(first_member_from, 5);
}

proof fn lemma_ownership_members(o: Ownership)
    ensures
        member_of(Some(ownership_json(o)), "path"@) == Some(JsonValue::Str(o.path@)),
        member_of(Some(ownership_json(o)), "authors"@) == Some(JsonValue::Int((o.authors as i64) as int)),
        member_of(Some(ownership_json(o)), "top_share"@) == Some(JsonValue::Frac(o.top_share.num as nat, o.top_share.den as nat)),
        member_of(Some(ownership_json(o)), "concentration"@) == Some(JsonValue::Frac(o.concentration.num as nat, o.concentration.den as nat)),
        member_of(Some(ownership_json(o)), "top_identity_label"@) == Some(JsonValue::Str(o.top_identity_label@)),
{
    reveal_strlit("path");
    reveal_strlit("authors");
    reveal_strlit("top_share");
    reveal_strlit("concentration");
    reveal_strlit("top_identity_label");
    let m = match ownership_json(o) {
        JsonValue::Object(m) => m,
        _ => seq![],
    };
    assert(m.len() == 5);
    assert(m[0].0 == "path"@);
    assert(m[1].0 == "authors"@);
    assert(m[2].0 == "top_share"@);
    assert(m[3].0 == "concentration"@);
    assert(m[4].0 == "top_identity_label"@);
    reveal_with_fuel(first_member_from, 6);
}

proof fn lemma_cluster_members(c: TemporalCluster)
    ensures
        member_of(Some(cluster_json(c)), "index"@) == Some(JsonValue::Int((c.index as i64) as int)),
        member_of(Some(cluster_json(c)), "start"@) == Some(JsonValue::Int(c.start as int)),
        member_of(Some(cluster_json(c)), "end"@) == Some(JsonValue::Int(c.end as int)),
        member_of(Some(cluster_json(c)), "commits"@) == Some(JsonValue::Int((c.commits as i64) as int)),
        member_of(Some(cluster_json(c)), "files_touched"@) == Some(JsonValue::Int((c.files_touched as i64) as int)),
        member_of(Some(cluster_json(c)), "churn"@) == Some(JsonValue::Int((c.churn as i64) as int)),
{
    reveal_strlit("index");
    reveal_strlit("start");
    reveal_strlit("end");
    reveal_strlit("commits");
    reveal_strlit("files_touched");
    reveal_strlit("churn");
    let m = match cluster_json(c) {
        JsonValue::Object(m) => m,
        _ => seq![],
    };
    assert(m.len() == 6);
    assert(m[0].0 == "index"@);
    assert(m[1].0 == "start"@);
    assert(m[2].0 == "end"@);
    assert(m[3].0 == "commits"@);
    assert(m[4].0 == "files_touched"@);
    assert(m[5].0 == "churn"@);
    assert("index"@[0] != "start"@[0]);
    assert("index"@[0] != "churn"@[0]);
    assert("start"@[0] != "churn"@[0]);
    reveal_with_fuel(first_member_from, 7);
}

proof fn lemma_report_members(a: Analysis)
    ensures
        member_of(Some(analysis_json(a)), "schema"@) == Some(JsonValue::Str(schema_id())),
        member_of(Some(analysis_json(a)), "disclaimer"@) == Some(JsonValue::Str(disclaimer())),
        member_of(Some(analysis_json(a)), "summary"@) == Some(summary_json(a.summary)),
        length_of(member_of(Some(analysis_json(a)), "files"@)) == Some(a.file_stats@.len()),
        forall|i: int| 0 <= i < a.file_stats@.len() ==> #[trigger] element_of(member_of(Some(analysis_json(a)), "files"@), i) == Some(file_json(a.file_stats@[i])),
        length_of(member_of(Some(analysis_json(a)), "cochanges"@)) == Some(a.co_changes@.len()),
        forall|i: int| 0 <= i < a.co_changes@.len() ==> #[trigger] element_of(member_of(Some(analysis_json(a)), "cochanges"@), i) == Some(cochange_json(a.co_changes@[i])),
        length_of(member_of(Some(analysis_json(a)), "hotspots"@)) == Some(a.hotspots@.len()),
        forall|i: int| 0 <= i < a.hotspots@.len() ==> #[trigger] element_of(member_of(Some(analysis_json(a)), "hotspots"@), i) == Some(hotspot_json(a.hotspots@[i])),
        length_of(member_of(Some(analysis_json(a)), "ownership"@)) == Some(a.ownership@.len()),
        forall|i: int| 0 <= i < a.ownership@.len() ==> #[trigger] element_of(member_of(Some(analysis_json(a)), "ownership"@), i) == Some(ownership_json(a.ownership@[i])),
        length_of(member_of(Some(analysis_json(a)), "clusters"@)) == Some(a.clusters@.len()),
        forall|i: int| 0 <= i < a.clusters@.len() ==> #[trigger] element_of(member_of(Some(analysis_json(a)), "clusters"@), i) == Some(cluster_json(a.clusters@[i])),
{
    reveal_strlit("schema");
    reveal_strlit("disclaimer");
    reveal_strlit("summary");
    reveal_strlit("files");
    reveal_strlit("cochanges");
    reveal_strlit("hotspots");
    reveal_strlit("ownership");
    reveal_strlit("clusters");
    let m = match analysis_json(a) {
        JsonValue::Object(m) => m,
        _ => seq![],
    };
    assert(m.len() == 8);
    assert(m[0].0 == "schema"@);
    assert(m[1].0 == "disclaimer"@);
    assert(m[2].0 == "summary"@);
    assert(m[3].0 == "files"@);
    assert(m[4].0 == "cochanges"@);
    assert(m[5].0 == "hotspots"@);
    assert(m[6].0 == "ownership"@);
    assert(m[7].0 == "clusters"@);
    assert("cochanges"@[0] != "ownership"@[0]);
    assert("hotspots"@[0] != "clusters"@[0]);
    reveal_with_fuel(first_member_from, 9);
}

/// What a reader of the JSON report finds under `key` at its top level.
pub open spec fn report_member(a: Analysis, key: Seq<char>) -> Option<JsonValue> {
    member_of(Some(analysis_json(a)), key)
}

/// What a reader of the JSON report finds at index `i` of the list under `key`.
pub open spec fn report_entry(a: Analysis, key: Seq<char>, i: int) -> Option<JsonValue> {
    element_of(report_member(a, key), i)
}

/// The JSON report names its schema and carries the disclaimer, and each of
/// its five lists has one element per entry of the analysis list it is named
/// after.
pub proof fn json_report_lists_match_the_analysis(a: Analysis)
    ensures
        report_member(a, "schema"@) == Some(JsonValue::Str(schema_id())),
        report_member(a, "disclaimer"@) == Some(JsonValue::Str(disclaimer())),
        length_of(report_member(a, "files"@)) == Some(a.file_stats@.len()),
        length_of(report_member(a, "cochanges"@)) == Some(a.co_changes@.len()),
        length_of(report_member(a, "hotspots"@)) == Some(a.hotspots@.len()),
        length_of(report_member(a, "ownership"@)) == Some(a.ownership@.len()),
        length_of(report_member(a, "clusters"@)) == Some(a.clusters@.len()),
{
    lemma_report_members(a);
}

/// The JSON report's summary object holds, under each key, the field of the
/// analysis summary that the key names: counts as the report writes them
/// (`as i64`), times and the span as they are.
pub proof fn json_summary_carries_its_fields(a: Analysis)
    ensures
        member_of(report_member(a, "summary"@), "commits"@) == Some(JsonValue::Int((a.summary.commits as i64) as int)),
        member_of(report_member(a, "summary"@), "files"@) == Some(JsonValue::Int((a.summary.files as i64) as int)),
        member_of(report_member(a, "summary"@), "authors"@) == Some(JsonValue::Int((a.summary.authors as i64) as int)),
        member_of(report_member(a, "summary"@), "total_churn"@) == Some(JsonValue::Int((a.summary.total_churn as i64) as int)),
        member_of(report_member(a, "summary"@), "first_commit"@) == Some(JsonValue::Int(a.summary.first_commit as int)),
        member_of(report_member(a, "summary"@), "last_commit"@) == Some(JsonValue::Int(a.summary.last_commit as int)),
        member_of(report_member(a, "summary"@), "span_days"@) == Some(JsonValue::Int(a.summary.span_days as int)),
{
    lemma_report_members(a);
    lemma_summary_members(a.summary);
}

/// Each element of the JSON report's "files" list holds, under each key, the
/// field that the key names of the file statistic at the same index.
pub proof fn json_files_carry_their_fields(a: Analysis, i: int)
    requires
        0 <= i < a.file_stats@.len(),
    ensures
        member_of(report_entry(a, "files"@, i), "path"@) == Some(JsonValue::Str(a.file_stats@[i].path@)),
        member_of(report_entry(a, "files"@, i), "commits"@) == Some(JsonValue::Int((a.file_stats@[i].commits as i64) as int)),
        member_of(report_entry(a, "files"@, i), "added"@) == Some(JsonValue::Int((a.file_stats@[i].added as i64) as int)),
        member_of(report_entry(a, "files"@, i), "removed"@) == Some(JsonValue::Int((a.file_stats@[i].removed as i64) as int)),
        member_of(report_entry(a, "files"@, i), "churn"@) == Some(JsonValue::Int((a.file_stats@[i].churn as i64) as int)),
        member_of(report_entry(a, "files"@, i), "authors"@) == Some(JsonValue::Int((a.file_stats@[i].authors as i64) as int)),
        member_of(report_entry(a, "files"@, i), "first_seen"@) == Some(JsonValue::Int(a.file_stats@[i].first_seen as int)),
        member_of(report_entry(a, "files"@, i), "last_seen"@) == Some(JsonValue::Int(a.file_stats@[i].last_seen as int)),
{
    lemma_report_members(a);
    lemma_file_members(a.file_stats@[i]);
}

/// Each element of the JSON report's "cochanges" list holds, under each key, the
/// field that the key names of the co-change pair at the same index.
pub proof fn json_cochanges_carry_their_fields(a: Analysis, i: int)
    requires
        0 <= i < a.co_changes@.len(),
    ensures
        member_of(report_entry(a, "cochanges"@, i), "a"@) == Some(JsonValue::Str(a.co_changes@[i].a@)),
        member_of(report_entry(a, "cochanges"@, i), "b"@) == Some(JsonValue::Str(a.co_changes@[i].b@)),
        member_of(report_entry(a, "cochanges"@, i), "together"@) == Some(JsonValue::Int((a.co_changes@[i].together as i64) as int)),
        member_of(report_entry(a, "cochanges"@, i), "count_a"@) == Some(JsonValue::Int((a.co_changes@[i].count_a as i64) as int)),
        member_of(report_entry(a, "cochanges"@, i), "count_b"@) == Some(JsonValue::Int((a.co_changes@[i].count_b as i64) as int)),
        member_of(report_entry(a, "cochanges"@, i), "strength"@) == Some(JsonValue::Frac(a.co_changes@[i].strength.num as nat, a.co_changes@[i].strength.den as nat)),
        member_of(report_entry(a, "cochanges"@, i), "confidence"@) == Some(JsonValue::Frac(a.co_changes@[i].confidence.num as nat, a.co_changes@[i].confidence.den as nat)),
{
    lemma_report_members(a);
    lemma_cochange_members(a.co_changes@[i]);
}

/// Each element of the JSON report's "hotspots" list holds, under each key, the
/// field that the key names of the hotspot at the same index.
pub proof fn json_hotspots_carry_their_fields(a: Analysis, i: int)
    requires
        0 <= i < a.hotspots@.len(),
    ensures
        member_of(report_entry(a, "hotspots"@, i), "path"@) == Some(JsonValue::Str(a.hotspots@[i].path@)),
        member_of(report_entry(a, "hotspots"@, i), "churn"@) == Some(JsonValue::Int((a.hotspots@[i].churn as i64) as int)),
        member_of(report_entry(a, "hotspots"@, i), "commits"@) == Some(JsonValue::Int((a.hotspots@[i].commits as i64) as int)),
        member_of(report_entry(a, "hotspots"@, i), "score"@) == Some(JsonValue::Frac(a.hotspots@[i].score.num as nat, a.hotspots@[i].score.den as nat)),
{
    lemma_report_members(a);
    lemma_hotspot_members(a.hotspots@[i]);
}

/// Each element of the JSON report's "ownership" list holds, under each key, the
/// field that the key names of the ownership entry at the same index.
pub proof fn json_ownership_carry_their_fields(a: Analysis, i: int)
    requires
        0 <= i < a.ownership@.len(),
    ensures
        member_of(report_entry(a, "ownership"@, i), "path"@) == Some(JsonValue::Str(a.ownership@[i].path@)),
        member_of(report_entry(a, "ownership"@, i), "authors"@) == Some(JsonValue::Int((a.ownership@[i].authors as i64) as int)),
        member_of(report_entry(a, "ownership"@, i), "top_share"@) == Some(JsonValue::Frac(a.ownership@[i].top_share.num as nat, a.ownership@[i].top_share.den as nat)),
        member_of(report_entry(a, "ownership"@, i), "concentration"@) == Some(JsonValue::Frac(a.ownership@[i].concentration.num as nat, a.ownership@[i].concentration.den as nat)),
        member_of(report_entry(a, "ownership"@, i), "top_identity_label"@) == Some(JsonValue::Str(a.ownership@[i].top_identity_label@)),
{
    lemma_report_members(a);
    lemma_ownership_members(a.ownership@[i]);
}

/// Each element of the JSON report's "clusters" list holds, under each key, the
/// field that the key names of the cluster at the same index.
pub proof fn json_clusters_carry_their_fields(a: Analysis, i: int)
    requires
        0 <= i < a.clusters@.len(),
    ensures
        member_of(report_entry(a, "clusters"@, i), "index"@) == Some(JsonValue::Int((a.clusters@[i].index as i64) as int)),
        member_of(report_entry(a, "clusters"@, i), "start"@) == Some(JsonValue::Int(a.clusters@[i].start as int)),
        member_of(report_entry(a, "clusters"@, i), "end"@) == Some(JsonValue::Int(a.clusters@[i].end as int)),
        member_of(report_entry(a, "clusters"@, i), "commits"@) == Some(JsonValue::Int((a.clusters@[i].commits as i64) as int)),
        member_of(report_entry(a, "clusters"@, i), "files_touched"@) == Some(JsonValue::Int((a.clusters@[i].files_touched as i64) as int)),
        member_of(report_entry(a, "clusters"@, i), "churn"@) == Some(JsonValue::Int((a.clusters@[i].churn as i64) as int)),
{
    lemma_report_members(a);
    lemma_cluster_members(a.clusters@[i]);
}

// ----- the text report, line by line -----

/// The row texts of the first `n` entries, without their line breaks.
spec fn hotspot_lines(hs: Seq<Hotspot>, n: nat) -> Seq<Seq<char>> {
    Seq::new(n, |i: int| hotspot_row(hs[i]).drop_last())
}

proof fn lemma_hotspot_rows_joined(hs: Seq<Hotspot>, n: nat)
    requires
        n <= hs.len(),
        forall|i: int| 0 <= i < n ==> single_line((#[trigger] hs[i]).path@),
    ensures
        hotspot_rows(hs, n) == joined(hotspot_lines(hs, n)),
        forall|i: int| 0 <= i < n ==> single_line(#[trigger] hotspot_lines(hs, n)[i]),
    decreases n,
{
    if n > 0 {
        lemma_hotspot_rows_joined(hs, (n - 1) as nat);
        let r = hotspot_row(hs[n - 1]);
        lemma_hotspot_row_lines(hs[n - 1]);
        assert(r == r.drop_last() + seq!['\n']);
        lemma_one_line(r.drop_last());
        assert(hotspot_lines(hs, n).drop_last() =~= hotspot_lines(hs, (n - 1) as nat));
        assert(hotspot_lines(hs, n).last() == r.drop_last());
        assert(joined(hotspot_lines(hs, n)) =~= hotspot_rows(hs, n));
        assert forall|i: int| 0 <= i < n implies single_line(#[trigger] hotspot_lines(hs, n)[i]) by {
            if i < n - 1 {
                assert(hotspot_lines(hs, n)[i] == hotspot_lines(hs, (n - 1) as nat)[i]);
            }
        }
    } else {
        assert(hotspot_lines(hs, n) =~= Seq::<Seq<char>>::empty());
    }
}

/// The row texts of the first `n` entries, without their line breaks.
spec fn coupling_lines(cs: Seq<CoChange>, n: nat) -> Seq<Seq<char>> {
    Seq::new(n, |i: int| coupling_row(cs[i]).drop_last())
}

proof fn lemma_coupling_rows_joined(cs: Seq<CoChange>, n: nat)
    requires
        n <= cs.len(),
        forall|i: int| 0 <= i < n ==> single_line((#[trigger] cs[i]).a@) && single_line(cs[i].b@),
    ensures
        coupling_rows(cs, n) == joined(coupling_lines(cs, n)),
        forall|i: int| 0 <= i < n ==> single_line(#[trigger] coupling_lines(cs, n)[i]),
    decreases n,
{
    if n > 0 {
        lemma_coupling_rows_joined(cs, (n - 1) as nat);
        let r = coupling_row(cs[n - 1]);
        lemma_coupling_row_lines(cs[n - 1]);
        assert(r == r.drop_last() + seq!['\n']);
        lemma_one_line(r.drop_last());
        assert(coupling_lines(cs, n).drop_last() =~= coupling_lines(cs, (n - 1) as nat));
        assert(coupling_lines(cs, n).last() == r.drop_last());
        assert(joined(coupling_lines(cs, n)) =~= coupling_rows(cs, n));
        assert forall|i: int| 0 <= i < n implies single_line(#[trigger] coupling_lines(cs, n)[i]) by {
            if i < n - 1 {
                assert(coupling_lines(cs, n)[i] == coupling_lines(cs, (n - 1) as nat)[i]);
            }
        }
    } else {
        assert(coupling_lines(cs, n) =~= Seq::<Seq<char>>::empty());
    }
}

/// The row texts of the first `n` entries, without their line breaks.
spec fn ownership_lines(os: Seq<Ownership>, n: nat) -> Seq<Seq<char>> {
    Seq::new(n, |i: int| ownership_row(os[i]).drop_last())
}

proof fn lemma_ownership_rows_joined(os: Seq<Ownership>, n: nat)
    requires
        n <= os.len(),
        forall|i: int| 0 <= i < n ==> single_line((#[trigger] os[i]).path@),
    ensures
        ownership_rows(os, n) == joined(ownership_lines(os, n)),
        forall|i: int| 0 <= i < n ==> single_line(#[trigger] ownership_lines(os, n)[i]),
    decreases n,
{
    if n > 0 {
        lemma_ownership_rows_joined(os, (n - 1) as nat);
        let r = ownership_row(os[n - 1]);
        lemma_ownership_row_lines(os[n - 1]);
        assert(r == r.drop_last() + seq!['\n']);
        lemma_one_line(r.drop_last());
        assert(ownership_lines(os, n).drop_last() =~= ownership_lines(os, (n - 1) as nat));
        assert(ownership_lines(os, n).last() == r.drop_last());
        assert(joined(ownership_lines(os, n)) =~= ownership_rows(os, n));
        assert forall|i: int| 0 <= i < n implies single_line(#[trigger] ownership_lines(os, n)[i]) by {
            if i < n - 1 {
                assert(ownership_lines(os, n)[i] == ownership_lines(os, (n - 1) as nat)[i]);
            }
        }
    } else {
        assert(ownership_lines(os, n) =~= Seq::<Seq<char>>::empty());
    }
}

/// The row texts of the first `n` entries, without their line breaks.
spec fn cluster_lines(cs: Seq<TemporalCluster>, n: nat) -> Seq<Seq<char>> {
    Seq::new(n, |i: int| cluster_row(cs[i]).drop_last())
}

proof fn lemma_cluster_rows_joined(cs: Seq<TemporalCluster>, n: nat)
    requires
        n <= cs.len(),
    ensures
        cluster_rows(cs, n) == joined(cluster_lines(cs, n)),
        forall|i: int| 0 <= i < n ==> single_line(#[trigger] cluster_lines(cs, n)[i]),
    decreases n,
{
    if n > 0 {
        lemma_cluster_rows_joined(cs, (n - 1) as nat);
        let r = cluster_row(cs[n - 1]);
        lemma_cluster_row_lines(cs[n - 1]);
        assert(r == r.drop_last() + seq!['\n']);
        lemma_one_line(r.drop_last());
        assert(cluster_lines(cs, n).drop_last() =~= cluster_lines(cs, (n - 1) as nat));
        assert(cluster_lines(cs, n).last() == r.drop_last());
        assert(joined(cluster_lines(cs, n)) =~= cluster_rows(cs, n));
        assert forall|i: int| 0 <= i < n implies single_line(#[trigger] cluster_lines(cs, n)[i]) by {
            if i < n - 1 {
                assert(cluster_lines(cs, n)[i] == cluster_lines(cs, (n - 1) as nat)[i]);
            }
        }
    } else {
        assert(cluster_lines(cs, n) =~= Seq::<Seq<char>>::empty());
    }
}

/// A section as whole lines: its title, its header, its rows and a blank line.
proof fn lemma_section_joined(title: Seq<char>, header: Seq<char>, rows: Seq<Seq<char>>)
    ensures
        line(title) + line(header) + joined(rows) + line(seq![]) == joined(seq![title, header] + rows + seq![seq![]]),
{
    let top = seq![title, header];
    let empty = Seq::<Seq<char>>::empty();
    assert(joined(empty) == Seq::<char>::empty());
    assert(seq![title].drop_last() =~= empty);
    assert(joined(seq![title]) == joined(empty) + title + seq!['\n']);
    assert(joined(seq![title]) =~= line(title));
    assert(top.drop_last() =~= seq![title]);
    assert(joined(top) == joined(seq![title]) + header + seq!['\n']);
    assert(joined(top) =~= line(title) + line(header));
    let blank = seq![Seq::<char>::empty()];
    assert(blank.drop_last() =~= empty);
    assert(joined(blank) == joined(empty) + Seq::<char>::empty() + seq!['\n']);
    assert(joined(blank) =~= line(seq![]));
    lemma_joined_concat(top, rows);
    lemma_joined_concat(top + rows, seq![seq![]]);
    assert(line(title) + line(header) + joined(rows) + line(seq![]) =~= joined(top) + joined(rows) + joined(seq![seq![]]));
}

/// Every line of `ls` is a whole line.
spec fn all_single_line(ls: Seq<Seq<char>>) -> bool {
    forall|i: int| 0 <= i < ls.len() ==> single_line(#[trigger] ls[i])
}

proof fn lemma_all_single_line_concat(l1: Seq<Seq<char>>, l2: Seq<Seq<char>>)
    requires
        all_single_line(l1),
        all_single_line(l2),
    ensures
        all_single_line(l1 + l2),
{
    assert forall|i: int| 0 <= i < (l1 + l2).len() implies single_line(#[trigger] (l1 + l2)[i]) by {
        if i < l1.len() {
            assert((l1 + l2)[i] == l1[i]);
        } else {
            assert((l1 + l2)[i] == l2[i - l1.len()]);
        }
    }
}

proof fn lemma_joined_push(ls: Seq<Seq<char>>, x: Seq<char>)
    ensures
        joined(ls.push(x)) == joined(ls) + line(x),
{
    assert(ls.push(x).drop_last() =~= ls);
    assert(joined(ls) + x + seq!['\n'] =~= joined(ls) + line(x));
}

/// The text of a header line, without its line break.
proof fn lemma_header_line(header: Seq<char>)
    requires
        count_char(header, '\n') == 1,
        header.len() >= 1,
        header.last() == '\n',
    ensures
        header == line(header.drop_last()),
        single_line(header.drop_last()),
{
    assert(header =~= header.drop_last() + seq!['\n']);
    lemma_one_line(header.drop_last());
}

spec fn title_lines() -> Seq<Seq<char>> {
    seq!["repohelix — Git history analysis"@, "================================"@, seq![]]
}

spec fn summary_lines(s: Summary) -> Seq<Seq<char>> {
    seq![
        "Summary"@,
        "  commits ......... "@ + dec(s.commits as nat),
        "  files ........... "@ + dec(s.files as nat),
        "  authors ......... "@ + dec(s.authors as nat),
        "  total churn ..... "@ + dec(s.total_churn as nat),
        "  span (days) ..... "@ + int_text(s.span_days as int),
        seq![],
    ]
}

proof fn lemma_title_joined()
    ensures
        title_text() == joined(title_lines()),
        all_single_line(title_lines()),
        title_lines().len() == 3,
        title_lines()[0] == "repohelix — Git history analysis"@,
        title_lines()[1] == "================================"@,
        title_lines()[2] == Seq::<char>::empty(),
{
    reveal_strlit("repohelix — Git history analysis");
    reveal_strlit("================================");
    let (t1, t2) = ("repohelix — Git history analysis"@, "================================"@);
    let e = Seq::<Seq<char>>::empty();
    lemma_joined_push(e, t1);
    lemma_joined_push(e.push(t1), t2);
    lemma_joined_push(e.push(t1).push(t2), seq![]);
    assert(e.push(t1).push(t2).push(seq![]) =~= title_lines());
    assert(joined(e) == Seq::<char>::empty());
    assert(title_text() =~= joined(title_lines()));
    lemma_line_count_one(t1);
    lemma_line_count_one(t2);
}

proof fn lemma_summary_joined(s: Summary)
    ensures
        summary_text(s) == joined(summary_lines(s)),
        all_single_line(summary_lines(s)),
        summary_lines(s).len() == 7,
        summary_lines(s)[0] == "Summary"@,
        summary_lines(s)[1] == "  commits ......... "@ + dec(s.commits as nat),
        summary_lines(s)[2] == "  files ........... "@ + dec(s.files as nat),
        summary_lines(s)[3] == "  authors ......... "@ + dec(s.authors as nat),
        summary_lines(s)[4] == "  total churn ..... "@ + dec(s.total_churn as nat),
        summary_lines(s)[5] == "  span (days) ..... "@ + int_text(s.span_days as int),
        summary_lines(s)[6] == Seq::<char>::empty(),
{
    reveal_strlit("Summary");
    reveal_strlit("  commits ......... ");
    reveal_strlit("  files ........... ");
    reveal_strlit("  authors ......... ");
    reveal_strlit("  total churn ..... ");
    reveal_strlit("  span (days) ..... ");
    let ls = summary_lines(s);
    let e = Seq::<Seq<char>>::empty();
    assert(joined(e) == Seq::<char>::empty());
    lemma_joined_push(e, ls[0]);
    lemma_joined_push(e.push(ls[0]), ls[1]);
    lemma_joined_push(e.push(ls[0]).push(ls[1]), ls[2]);
    lemma_joined_push(e.push(ls[0]).push(ls[1]).push(ls[2]), ls[3]);
    lemma_joined_push(e.push(ls[0]).push(ls[1]).push(ls[2]).push(ls[3]), ls[4]);
    lemma_joined_push(e.push(ls[0]).push(ls[1]).push(ls[2]).push(ls[3]).push(ls[4]), ls[5]);
    lemma_joined_push(e.push(ls[0]).push(ls[1]).push(ls[2]).push(ls[3]).push(ls[4]).push(ls[5]), ls[6]);
    assert(e.push(ls[0]).push(ls[1]).push(ls[2]).push(ls[3]).push(ls[4]).push(ls[5]).push(ls[6]) =~= ls);
    assert(summary_text(s) =~= joined(ls));
    lemma_dec_bare(s.commits as nat);
    lemma_dec_bare(s.files as nat);
    lemma_dec_bare(s.authors as nat);
    lemma_dec_bare(s.total_churn as nat);
    lemma_int_text_bare(s.span_days as int);
    lemma_line_count_one("Summary"@);
    lemma_summary_line("  commits ......... "@, dec(s.commits as nat));
    lemma_summary_line("  files ........... "@, dec(s.files as nat));
    lemma_summary_line("  authors ......... "@, dec(s.authors as nat));
    lemma_summary_line("  total churn ..... "@, dec(s.total_churn as nat));
    lemma_summary_line("  span (days) ..... "@, int_text(s.span_days as int));
    lemma_one_line(ls[1]);
    lemma_one_line(ls[2]);
    lemma_one_line(ls[3]);
    lemma_one_line(ls[4]);
    lemma_one_line(ls[5]);
    assert(single_line(ls[6]));
}

spec fn hotspot_section_lines(hs: Seq<Hotspot>) -> Seq<Seq<char>> {
    seq!["Top hotspots (churn x frequency)"@, hotspot_header().drop_last()] + hotspot_lines(hs, shown(hs.len())) + seq![seq![]]
}

proof fn lemma_hotspot_section_joined(hs: Seq<Hotspot>)
    requires
        forall|i: int| 0 <= i < hs.len() ==> single_line((#[trigger] hs[i]).path@),
    ensures
        hotspot_section(hs) == joined(hotspot_section_lines(hs)),
        all_single_line(hotspot_section_lines(hs)),
{
    reveal_strlit("Top hotspots (churn x frequency)");
    let n = shown(hs.len());
    lemma_hotspot_rows_joined(hs, n);
    lemma_headers_lines();
    lemma_header_line(hotspot_header());
    lemma_section_joined("Top hotspots (churn x frequency)"@, hotspot_header().drop_last(), hotspot_lines(hs, n));
    lemma_line_count_one("Top hotspots (churn x frequency)"@);
    let top = seq!["Top hotspots (churn x frequency)"@, hotspot_header().drop_last()];
    assert(all_single_line(top)) by {
        assert forall|i: int| 0 <= i < top.len() implies single_line(#[trigger] top[i]) by {
            if i == 0 {
                assert(top[i] == "Top hotspots (churn x frequency)"@);
            } else {
                assert(top[i] == hotspot_header().drop_last());
            }
        }
    }
    let rows = hotspot_lines(hs, n);
    assert(all_single_line(rows));
    let blank = seq![Seq::<char>::empty()];
    assert(all_single_line(blank)) by {
        assert forall|i: int| 0 <= i < blank.len() implies single_line(#[trigger] blank[i]) by {
            assert(blank[i] =~= Seq::<char>::empty());
        }
    }
    lemma_all_single_line_concat(top, rows);
    lemma_all_single_line_concat(top + rows, blank);
}

spec fn coupling_section_lines(cs: Seq<CoChange>) -> Seq<Seq<char>> {
    seq!["Strongest temporal coupling (co-change)"@, coupling_header().drop_last()] + coupling_lines(cs, shown(cs.len())) + seq![seq![]]
}

proof fn lemma_coupling_section_joined(cs: Seq<CoChange>)
    requires
        forall|i: int| 0 <= i < cs.len() ==> single_line((#[trigger] cs[i]).a@) && single_line(cs[i].b@),
    ensures
        coupling_section(cs) == joined(coupling_section_lines(cs)),
        all_single_line(coupling_section_lines(cs)),
{
    reveal_strlit("Strongest temporal coupling (co-change)");
    let n = shown(cs.len());
    lemma_coupling_rows_joined(cs, n);
    lemma_headers_lines();
    lemma_header_line(coupling_header());
    lemma_section_joined("Strongest temporal coupling (co-change)"@, coupling_header().drop_last(), coupling_lines(cs, n));
    lemma_line_count_one("Strongest temporal coupling (co-change)"@);
    let top = seq!["Strongest temporal coupling (co-change)"@, coupling_header().drop_last()];
    assert(all_single_line(top)) by {
        assert forall|i: int| 0 <= i < top.len() implies single_line(#[trigger] top[i]) by {
            if i == 0 {
                assert(top[i] == "Strongest temporal coupling (co-change)"@);
            } else {
                assert(top[i] == coupling_header().drop_last());
            }
        }
    }
    let rows = coupling_lines(cs, n);
    assert(all_single_line(rows));
    let blank = seq![Seq::<char>::empty()];
    assert(all_single_line(blank)) by {
        assert forall|i: int| 0 <= i < blank.len() implies single_line(#[trigger] blank[i]) by {
            assert(blank[i] =~= Seq::<char>::empty());
        }
    }
    lemma_all_single_line_concat(top, rows);
    lemma_all_single_line_concat(top + rows, blank);
}

spec fn ownership_section_lines(os: Seq<Ownership>) -> Seq<Seq<char>> {
    seq!["Ownership concentration (bus-factor risk)"@, ownership_header().drop_last()] + ownership_lines(os, shown(os.len())) + seq![seq![]]
}

proof fn lemma_ownership_section_joined(os: Seq<Ownership>)
    requires
        forall|i: int| 0 <= i < os.len() ==> single_line((#[trigger] os[i]).path@),
    ensures
        ownership_section(os) == joined(ownership_section_lines(os)),
        all_single_line(ownership_section_lines(os)),
{
    reveal_strlit("Ownership concentration (bus-factor risk)");
    let n = shown(os.len());
    lemma_ownership_rows_joined(os, n);
    lemma_headers_lines();
    lemma_header_line(ownership_header());
    lemma_section_joined("Ownership concentration (bus-factor risk)"@, ownership_header().drop_last(), ownership_lines(os, n));
    lemma_line_count_one("Ownership concentration (bus-factor risk)"@);
    let top = seq!["Ownership concentration (bus-factor risk)"@, ownership_header().drop_last()];
    assert(all_single_line(top)) by {
        assert forall|i: int| 0 <= i < top.len() implies single_line(#[trigger] top[i]) by {
            if i == 0 {
                assert(top[i] == "Ownership concentration (bus-factor risk)"@);
            } else {
                assert(top[i] == ownership_header().drop_last());
            }
        }
    }
    let rows = ownership_lines(os, n);
    assert(all_single_line(rows));
    let blank = seq![Seq::<char>::empty()];
    assert(all_single_line(blank)) by {
        assert forall|i: int| 0 <= i < blank.len() implies single_line(#[trigger] blank[i]) by {
            assert(blank[i] =~= Seq::<char>::empty());
        }
    }
    lemma_all_single_line_concat(top, rows);
    lemma_all_single_line_concat(top + rows, blank);
}

spec fn cluster_section_lines(cs: Seq<TemporalCluster>) -> Seq<Seq<char>> {
    seq!["Temporal clusters (development sessions)"@, cluster_header().drop_last()] + cluster_lines(cs, shown(cs.len())) + seq![seq![]]
}

proof fn lemma_cluster_section_joined(cs: Seq<TemporalCluster>)
    ensures
        cluster_section(cs) == joined(cluster_section_lines(cs)),
        all_single_line(cluster_section_lines(cs)),
{
    reveal_strlit("Temporal clusters (development sessions)");
    let n = shown(cs.len());
    lemma_cluster_rows_joined(cs, n);
    lemma_headers_lines();
    lemma_header_line(cluster_header());
    lemma_section_joined("Temporal clusters (development sessions)"@, cluster_header().drop_last(), cluster_lines(cs, n));
    lemma_line_count_one("Temporal clusters (development sessions)"@);
    let top = seq!["Temporal clusters (development sessions)"@, cluster_header().drop_last()];
    assert(all_single_line(top)) by {
        assert forall|i: int| 0 <= i < top.len() implies single_line(#[trigger] top[i]) by {
            if i == 0 {
                assert(top[i] == "Temporal clusters (development sessions)"@);
            } else {
                assert(top[i] == cluster_header().drop_last());
            }
        }
    }
    let rows = cluster_lines(cs, n);
    assert(all_single_line(rows));
    let blank = seq![Seq::<char>::empty()];
    assert(all_single_line(blank)) by {
        assert forall|i: int| 0 <= i < blank.len() implies single_line(#[trigger] blank[i]) by {
            assert(blank[i] =~= Seq::<char>::empty());
        }
    }
    lemma_all_single_line_concat(top, rows);
    lemma_all_single_line_concat(top + rows, blank);
}

spec fn report_lines(a: Analysis) -> Seq<Seq<char>> {
    title_lines() + summary_lines(a.summary) + hotspot_section_lines(a.hotspots@) + coupling_section_lines(
        a.co_changes@,
    ) + ownership_section_lines(a.ownership@) + cluster_section_lines(a.clusters@) + seq![people_note()]
}

proof fn lemma_joined_seven(
    l1: Seq<Seq<char>>,
    l2: Seq<Seq<char>>,
    l3: Seq<Seq<char>>,
    l4: Seq<Seq<char>>,
    l5: Seq<Seq<char>>,
    l6: Seq<Seq<char>>,
    l7: Seq<Seq<char>>,
)
    requires
        all_single_line(l1),
        all_single_line(l2),
        all_single_line(l3),
        all_single_line(l4),
        all_single_line(l5),
        all_single_line(l6),
        all_single_line(l7),
    ensures
        lines_of(joined(l1) + joined(l2) + joined(l3) + joined(l4) + joined(l5) + joined(l6) + joined(l7))
            == (l1 + l2 + l3 + l4 + l5 + l6 + l7).push(seq![]),
{
    lemma_joined_concat(l1, l2);
    lemma_joined_concat(l1 + l2, l3);
    lemma_joined_concat(l1 + l2 + l3, l4);
    lemma_joined_concat(l1 + l2 + l3 + l4, l5);
    lemma_joined_concat(l1 + l2 + l3 + l4 + l5, l6);
    lemma_joined_concat(l1 + l2 + l3 + l4 + l5 + l6, l7);
    lemma_all_single_line_concat(l1, l2);
    lemma_all_single_line_concat(l1 + l2, l3);
    lemma_all_single_line_concat(l1 + l2 + l3, l4);
    lemma_all_single_line_concat(l1 + l2 + l3 + l4, l5);
    lemma_all_single_line_concat(l1 + l2 + l3 + l4 + l5, l6);
    lemma_all_single_line_concat(l1 + l2 + l3 + l4 + l5 + l6, l7);
    lemma_lines_of_joined(l1 + l2 + l3 + l4 + l5 + l6 + l7);
}

proof fn lemma_note_joined()
    ensures
        line(people_note()) == joined(seq![people_note()]),
        all_single_line(seq![people_note()]),
{
    let l7 = seq![people_note()];
    reveal_strlit("Note: these metrics describe code and change activity, not people.");
    lemma_line_count_one(people_note());
    assert(all_single_line(l7)) by {
        assert forall|i: int| 0 <= i < l7.len() implies single_line(#[trigger] l7[i]) by {
            assert(l7[i] == people_note());
        }
    }
    let e = Seq::<Seq<char>>::empty();
    lemma_joined_push(e, people_note());
    assert(e.push(people_note()) =~= l7);
    assert(joined(e) == Seq::<char>::empty());
    assert(joined(l7) =~= line(people_note()));
}

#[verifier::rlimit(80)]
proof fn lemma_report_joined(a: Analysis)
    requires
        single_line_analysis(a),
    ensures
        lines_of(text_report(a)) == report_lines(a).push(seq![]),
{
    let (hs, cs, os, ks) = (a.hotspots@, a.co_changes@, a.ownership@, a.clusters@);
    assert forall|i: int| 0 <= i < hs.len() implies single_line((#[trigger] hs[i]).path@) by {
        assert(single_line(a.hotspots@[i].path@));
    }
    assert forall|i: int| 0 <= i < cs.len() implies single_line((#[trigger] cs[i]).a@) && single_line(cs[i].b@) by {
        assert(single_line(a.co_changes@[i].a@));
    }
    assert forall|i: int| 0 <= i < os.len() implies single_line((#[trigger] os[i]).path@) by {
        assert(single_line(a.ownership@[i].path@));
    }
    lemma_title_joined();
    lemma_summary_joined(a.summary);
    lemma_hotspot_section_joined(hs);
    lemma_coupling_section_joined(cs);
    lemma_ownership_section_joined(os);
    lemma_cluster_section_joined(ks);
    lemma_note_joined();
    lemma_joined_seven(
        title_lines(),
        summary_lines(a.summary),
        hotspot_section_lines(hs),
        coupling_section_lines(cs),
        ownership_section_lines(os),
        cluster_section_lines(ks),
        seq![people_note()],
    );
}

proof fn lemma_seven_parts(
    l1: Seq<Seq<char>>,
    l2: Seq<Seq<char>>,
    l3: Seq<Seq<char>>,
    l4: Seq<Seq<char>>,
    l5: Seq<Seq<char>>,
    l6: Seq<Seq<char>>,
    l7: Seq<Seq<char>>,
)
    ensures
        ({
            let ls = l1 + l2 + l3 + l4 + l5 + l6 + l7;
            let (n1, n2, n3, n4, n5, n6) = (l1.len() as int, l2.len() as int, l3.len() as int, l4.len() as int, l5.len() as int, l6.len() as int);
            &&& ls.len() == n1 + n2 + n3 + n4 + n5 + n6 + l7.len()
            &&& forall|i: int| 0 <= i < n1 ==> ls[i] == #[trigger] l1[i]
            &&& forall|i: int| 0 <= i < n2 ==> ls[n1 + i] == #[trigger] l2[i]
            &&& forall|i: int| 0 <= i < n3 ==> ls[n1 + n2 + i] == #[trigger] l3[i]
            &&& forall|i: int| 0 <= i < n4 ==> ls[n1 + n2 + n3 + i] == #[trigger] l4[i]
            &&& forall|i: int| 0 <= i < n5 ==> ls[n1 + n2 + n3 + n4 + i] == #[trigger] l5[i]
            &&& forall|i: int| 0 <= i < n6 ==> ls[n1 + n2 + n3 + n4 + n5 + i] == #[trigger] l6[i]
            &&& forall|i: int| 0 <= i < l7.len() ==> ls[n1 + n2 + n3 + n4 + n5 + n6 + i] == #[trigger] l7[i]
        }),
{
    let p2 = l1 + l2;
    let p3 = p2 + l3;
    let p4 = p3 + l4;
    let p5 = p4 + l5;
    let p6 = p5 + l6;
    let ls = p6 + l7;
    let (n1, n2, n3, n4, n5, n6) = (l1.len() as int, l2.len() as int, l3.len() as int, l4.len() as int, l5.len() as int, l6.len() as int);
    assert forall|i: int| 0 <= i < n1 implies ls[i] == #[trigger] l1[i] by {
        assert(ls[i] == p6[i] && p6[i] == p5[i] && p5[i] == p4[i] && p4[i] == p3[i] && p3[i] == p2[i]);
    }
    assert forall|i: int| 0 <= i < n2 implies ls[n1 + i] == #[trigger] l2[i] by {
        let j = n1 + i;
        assert(ls[j] == p6[j] && p6[j] == p5[j] && p5[j] == p4[j] && p4[j] == p3[j] && p3[j] == p2[j]);
    }
    assert forall|i: int| 0 <= i < n3 implies ls[n1 + n2 + i] == #[trigger] l3[i] by {
        let j = n1 + n2 + i;
        assert(ls[j] == p6[j] && p6[j] == p5[j] && p5[j] == p4[j] && p4[j] == p3[j]);
    }
    assert forall|i: int| 0 <= i < n4 implies ls[n1 + n2 + n3 + i] == #[trigger] l4[i] by {
        let j = n1 + n2 + n3 + i;
        assert(ls[j] == p6[j] && p6[j] == p5[j] && p5[j] == p4[j]);
    }
    assert forall|i: int| 0 <= i < n5 implies ls[n1 + n2 + n3 + n4 + i] == #[trigger] l5[i] by {
        let j = n1 + n2 + n3 + n4 + i;
        assert(ls[j] == p6[j] && p6[j] == p5[j]);
    }
    assert forall|i: int| 0 <= i < n6 implies ls[n1 + n2 + n3 + n4 + n5 + i] == #[trigger] l6[i] by {
        let j = n1 + n2 + n3 + n4 + n5 + i;
        assert(ls[j] == p6[j]);
    }
}

/// The lines of each section: title, header, rows in list order, blank.
proof fn lemma_section_line_facts(a: Analysis)
    ensures
        hotspot_section_lines(a.hotspots@).len() == shown(a.hotspots@.len()) + 3,
        coupling_section_lines(a.co_changes@).len() == shown(a.co_changes@.len()) + 3,
        ownership_section_lines(a.ownership@).len() == shown(a.ownership@.len()) + 3,
        cluster_section_lines(a.clusters@).len() == shown(a.clusters@.len()) + 3,
        line(hotspot_section_lines(a.hotspots@)[1]) == hotspot_header(),
        line(coupling_section_lines(a.co_changes@)[1]) == coupling_header(),
        line(ownership_section_lines(a.ownership@)[1]) == ownership_header(),
        line(cluster_section_lines(a.clusters@)[1]) == cluster_header(),
        forall|i: int| 0 <= i < shown(a.hotspots@.len()) ==> line(hotspot_section_lines(a.hotspots@)[2 + i]) == hotspot_row(#[trigger] a.hotspots@[i]),
        forall|i: int| 0 <= i < shown(a.co_changes@.len()) ==> line(coupling_section_lines(a.co_changes@)[2 + i]) == coupling_row(#[trigger] a.co_changes@[i]),
        forall|i: int| 0 <= i < shown(a.ownership@.len()) ==> line(ownership_section_lines(a.ownership@)[2 + i]) == ownership_row(#[trigger] a.ownership@[i]),
        forall|i: int| 0 <= i < shown(a.clusters@.len()) ==> line(cluster_section_lines(a.clusters@)[2 + i]) == cluster_row(#[trigger] a.clusters@[i]),
        hotspot_section_lines(a.hotspots@)[0] == "Top hotspots (churn x frequency)"@,
        coupling_section_lines(a.co_changes@)[0] == "Strongest temporal coupling (co-change)"@,
        ownership_section_lines(a.ownership@)[0] == "Ownership concentration (bus-factor risk)"@,
        cluster_section_lines(a.clusters@)[0] == "Temporal clusters (development sessions)"@,
        hotspot_section_lines(a.hotspots@)[shown(a.hotspots@.len()) + 2int] == Seq::<char>::empty(),
        coupling_section_lines(a.co_changes@)[shown(a.co_changes@.len()) + 2int] == Seq::<char>::empty(),
        ownership_section_lines(a.ownership@)[shown(a.ownership@.len()) + 2int] == Seq::<char>::empty(),
        cluster_section_lines(a.clusters@)[shown(a.clusters@.len()) + 2int] == Seq::<char>::empty(),
{
    let (hs, cs, os, ks) = (a.hotspots@, a.co_changes@, a.ownership@, a.clusters@);
    assert(hotspot_header() =~= line(hotspot_header().drop_last()));
    assert(coupling_header() =~= line(coupling_header().drop_last()));
    assert(ownership_header() =~= line(ownership_header().drop_last()));
    assert(cluster_header() =~= line(cluster_header().drop_last()));
    assert forall|i: int| 0 <= i < shown(hs.len()) implies line(hotspot_section_lines(hs)[2 + i]) == hotspot_row(#[trigger] hs[i]) by {
        assert(hotspot_section_lines(hs)[2 + i] == hotspot_lines(hs, shown(hs.len()))[i]);
        assert(hotspot_row(hs[i]) =~= line(hotspot_row(hs[i]).drop_last()));
    }
    assert forall|i: int| 0 <= i < shown(cs.len()) implies line(coupling_section_lines(cs)[2 + i]) == coupling_row(#[trigger] cs[i]) by {
        assert(coupling_section_lines(cs)[2 + i] == coupling_lines(cs, shown(cs.len()))[i]);
        assert(coupling_row(cs[i]) =~= line(coupling_row(cs[i]).drop_last()));
    }
    assert forall|i: int| 0 <= i < shown(os.len()) implies line(ownership_section_lines(os)[2 + i]) == ownership_row(#[trigger] os[i]) by {
        assert(ownership_section_lines(os)[2 + i] == ownership_lines(os, shown(os.len()))[i]);
        assert(ownership_row(os[i]) =~= line(ownership_row(os[i]).drop_last()));
    }
    assert forall|i: int| 0 <= i < shown(ks.len()) implies line(cluster_section_lines(ks)[2 + i]) == cluster_row(#[trigger] ks[i]) by {
        assert(cluster_section_lines(ks)[2 + i] == cluster_lines(ks, shown(ks.len()))[i]);
        assert(cluster_row(ks[i]) =~= line(cluster_row(ks[i]).drop_last()));
    }
}

/// The text report opens with its title block, then the summary: its heading
/// and one line per summary field, its label then its value, then a blank
/// line. In all it has 24 lines beyond the shown table rows (at most fifteen
/// per table), the last one empty after the final line break. This holds
/// whenever the shown paths hold no line break.
#[verifier::rlimit(80)]
pub proof fn text_report_opening_lines(a: Analysis)
    requires
        single_line_analysis(a),
    ensures
        ({
            let ls = lines_of(text_report(a));
            let s = a.summary;
            &&& ls.len() == 24 + (if a.hotspots@.len() < 15 { a.hotspots@.len() as int } else { 15 }) + (if a.co_changes@.len()
                < 15 { a.co_changes@.len() as int } else { 15 }) + (if a.ownership@.len() < 15 { a.ownership@.len() as int } else { 15 })
                + (if a.clusters@.len() < 15 { a.clusters@.len() as int } else { 15 })
            &&& ls[0] == "repohelix — Git history analysis"@
            &&& ls[1] == "================================"@
            &&& ls[2] == Seq::<char>::empty()
            &&& ls[3] == "Summary"@
            &&& ls[4] == "  commits ......... "@ + dec(s.commits as nat)
            &&& ls[5] == "  files ........... "@ + dec(s.files as nat)
            &&& ls[6] == "  authors ......... "@ + dec(s.authors as nat)
            &&& ls[7] == "  total churn ..... "@ + dec(s.total_churn as nat)
            &&& ls[8] == "  span (days) ..... "@ + int_text(s.span_days as int)
            &&& ls[9] == Seq::<char>::empty()
        }),
{
    let (hs, cs, os, ks) = (a.hotspots@, a.co_changes@, a.ownership@, a.clusters@);
    let (l1, l2, l3, l4, l5, l6) = (
        title_lines(),
        summary_lines(a.summary),
        hotspot_section_lines(hs),
        coupling_section_lines(cs),
        ownership_section_lines(os),
        cluster_section_lines(ks),
    );
    let l7 = seq![people_note()];
    let r = report_lines(a);
    lemma_report_joined(a);
    lemma_seven_parts(l1, l2, l3, l4, l5, l6, l7);
    lemma_section_line_facts(a);
    lemma_title_joined();
    lemma_summary_joined(a.summary);
    assert(r == l1 + l2 + l3 + l4 + l5 + l6 + l7);
    assert(r[0] == l1[0] && r[1] == l1[1] && r[2] == l1[2]);
    assert(r[3int + 0] == l2[0]);
    assert(r[3int + 1] == l2[1]);
    assert(r[3int + 2] == l2[2]);
    assert(r[3int + 3] == l2[3]);
    assert(r[3int + 4] == l2[4]);
    assert(r[3int + 5] == l2[5]);
    assert(r[3int + 6] == l2[6]);
}

/// The table lines of the text report, as `ls` lists them.
spec fn table_lines_hold(ls: Seq<Seq<char>>, a: Analysis) -> bool {
    let h = if a.hotspots@.len() < 15 { a.hotspots@.len() as int } else { 15 };
    let c = if a.co_changes@.len() < 15 { a.co_changes@.len() as int } else { 15 };
    let o = if a.ownership@.len() < 15 { a.ownership@.len() as int } else { 15 };
    let k = if a.clusters@.len() < 15 { a.clusters@.len() as int } else { 15 };
    &&& ls[10] == "Top hotspots (churn x frequency)"@
    &&& line(ls[11]) == hotspot_header()
    &&& (forall|i: int| 0 <= i < h ==> line(ls[12 + i]) == hotspot_row(#[trigger] a.hotspots@[i]))
    &&& ls[12 + h] == Seq::<char>::empty()
    &&& ls[13 + h] == "Strongest temporal coupling (co-change)"@
    &&& line(ls[14 + h]) == coupling_header()
    &&& (forall|i: int| 0 <= i < c ==> line(ls[15 + h + i]) == coupling_row(#[trigger] a.co_changes@[i]))
    &&& ls[15 + h + c] == Seq::<char>::empty()
    &&& ls[16 + h + c] == "Ownership concentration (bus-factor risk)"@
    &&& line(ls[17 + h + c]) == ownership_header()
    &&& (forall|i: int| 0 <= i < o ==> line(ls[18 + h + c + i]) == ownership_row(#[trigger] a.ownership@[i]))
    &&& ls[18 + h + c + o] == Seq::<char>::empty()
    &&& ls[19 + h + c + o] == "Temporal clusters (development sessions)"@
    &&& line(ls[20 + h + c + o]) == cluster_header()
    &&& (forall|i: int| 0 <= i < k ==> line(ls[21 + h + c + o + i]) == cluster_row(#[trigger] a.clusters@[i]))
    &&& ls[21 + h + c + o + k] == Seq::<char>::empty()
    &&& ls[22 + h + c + o + k] == people_note()
}

proof fn lemma_table_lines_push(ls: Seq<Seq<char>>, x: Seq<char>, a: Analysis)
    requires
        table_lines_hold(ls, a),
        ls.len() == 23 + shown(a.hotspots@.len()) + shown(a.co_changes@.len()) + shown(a.ownership@.len())
            + shown(a.clusters@.len()),
    ensures
        table_lines_hold(ls.push(x), a),
{
    let ls2 = ls.push(x);
    assert forall|j: int| 0 <= j < ls.len() implies #[trigger] ls2[j] == ls[j] by {}
    let h = shown(a.hotspots@.len()) as int;
    let c = shown(a.co_changes@.len()) as int;
    let o = shown(a.ownership@.len()) as int;
    assert forall|i: int| 0 <= i < h implies line(ls2[12 + i]) == hotspot_row(#[trigger] a.hotspots@[i]) by {
        assert(ls2[12 + i] == ls[12 + i]);
    }
    assert forall|i: int| 0 <= i < c implies line(ls2[15 + h + i]) == coupling_row(#[trigger] a.co_changes@[i]) by {
        assert(ls2[15 + h + i] == ls[15 + h + i]);
    }
    assert forall|i: int| 0 <= i < o implies line(ls2[18 + h + c + i]) == ownership_row(#[trigger] a.ownership@[i]) by {
        assert(ls2[18 + h + c + i] == ls[18 + h + c + i]);
    }
    assert forall|i: int| 0 <= i < shown(a.clusters@.len()) implies line(ls2[21 + h + c + o + i]) == cluster_row(#[trigger] a.clusters@[i]) by {
        assert(ls2[21 + h + c + o + i] == ls[21 + h + c + o + i]);
    }
}

#[verifier::rlimit(80)]
proof fn lemma_table_lines(a: Analysis)
    ensures
        table_lines_hold(report_lines(a), a),
        report_lines(a).len() == 23 + shown(a.hotspots@.len()) + shown(a.co_changes@.len()) + shown(a.ownership@.len())
            + shown(a.clusters@.len()),
{
    let (hs, cs, os, ks) = (a.hotspots@, a.co_changes@, a.ownership@, a.clusters@);
    let (l1, l2, l3, l4, l5, l6) = (
        title_lines(),
        summary_lines(a.summary),
        hotspot_section_lines(hs),
        coupling_section_lines(cs),
        ownership_section_lines(os),
        cluster_section_lines(ks),
    );
    let l7 = seq![people_note()];
    let r = report_lines(a);
    lemma_seven_parts(l1, l2, l3, l4, l5, l6, l7);
    lemma_section_line_facts(a);
    let h = shown(hs.len()) as int;
    let c = shown(cs.len()) as int;
    let o = shown(os.len()) as int;
    let k = shown(ks.len()) as int;
    assert(r == l1 + l2 + l3 + l4 + l5 + l6 + l7);
    assert(r[10int + 0] == l3[0]);
    assert(r[10int + 1] == l3[1]);
    assert(r[10 + (h + 2)] == l3[h + 2]);
    assert(r[10 + (h + 3) + 0] == l4[0]);
    assert(r[10 + (h + 3) + 1] == l4[1]);
    assert(r[10 + (h + 3) + (c + 2)] == l4[c + 2]);
    assert(r[10 + (h + 3) + (c + 3) + 0] == l5[0]);
    assert(r[10 + (h + 3) + (c + 3) + 1] == l5[1]);
    assert(r[10 + (h + 3) + (c + 3) + (o + 2)] == l5[o + 2]);
    assert(r[10 + (h + 3) + (c + 3) + (o + 3) + 0] == l6[0]);
    assert(r[10 + (h + 3) + (c + 3) + (o + 3) + 1] == l6[1]);
    assert(r[10 + (h + 3) + (c + 3) + (o + 3) + (k + 2)] == l6[k + 2]);
    assert(r[10 + (h + 3) + (c + 3) + (o + 3) + (k + 3) + 0] == l7[0]);
    let ls = r;
    assert forall|i: int| 0 <= i < h implies line(ls[12 + i]) == hotspot_row(#[trigger] hs[i]) by {
        assert(r[10 + (2 + i)] == l3[2 + i]);
    }
    assert forall|i: int| 0 <= i < c implies line(ls[15 + h + i]) == coupling_row(#[trigger] cs[i]) by {
        assert(r[10 + (h + 3) + (2 + i)] == l4[2 + i]);
    }
    assert forall|i: int| 0 <= i < o implies line(ls[18 + h + c + i]) == ownership_row(#[trigger] os[i]) by {
        assert(r[10 + (h + 3) + (c + 3) + (2 + i)] == l5[2 + i]);
    }
    assert forall|i: int| 0 <= i < k implies line(ls[21 + h + c + o + i]) == cluster_row(#[trigger] ks[i]) by {
        assert(r[10 + (h + 3) + (c + 3) + (o + 3) + (2 + i)] == l6[2 + i]);
    }
}

/// After the summary come the four tables, each as its title line, its
/// header line, one row per shown entry (the first entries of the analysis
/// list, at most fifteen, in their order) and a blank line, and then the
/// closing note. This holds whenever the shown paths hold no line break.
#[verifier::rlimit(80)]
pub proof fn text_report_table_lines(a: Analysis)
    requires
        single_line_analysis(a),
    ensures
        ({
            let ls = lines_of(text_report(a));
            let h = if a.hotspots@.len() < 15 { a.hotspots@.len() as int } else { 15 };
            let c = if a.co_changes@.len() < 15 { a.co_changes@.len() as int } else { 15 };
            let o = if a.ownership@.len() < 15 { a.ownership@.len() as int } else { 15 };
            let k = if a.clusters@.len() < 15 { a.clusters@.len() as int } else { 15 };
            &&& ls[10] == "Top hotspots (churn x frequency)"@
            &&& line(ls[11]) == hotspot_header()
            &&& (forall|i: int| 0 <= i < h ==> line(ls[12 + i]) == hotspot_row(#[trigger] a.hotspots@[i]))
            &&& ls[12 + h] == Seq::<char>::empty()
            &&& ls[13 + h] == "Strongest temporal coupling (co-change)"@
            &&& line(ls[14 + h]) == coupling_header()
            &&& (forall|i: int| 0 <= i < c ==> line(ls[15 + h + i]) == coupling_row(#[trigger] a.co_changes@[i]))
            &&& ls[15 + h + c] == Seq::<char>::empty()
            &&& ls[16 + h + c] == "Ownership concentration (bus-factor risk)"@
            &&& line(ls[17 + h + c]) == ownership_header()
            &&& (forall|i: int| 0 <= i < o ==> line(ls[18 + h + c + i]) == ownership_row(#[trigger] a.ownership@[i]))
            &&& ls[18 + h + c + o] == Seq::<char>::empty()
            &&& ls[19 + h + c + o] == "Temporal clusters (development sessions)"@
            &&& line(ls[20 + h + c + o]) == cluster_header()
            &&& (forall|i: int| 0 <= i < k ==> line(ls[21 + h + c + o + i]) == cluster_row(#[trigger] a.clusters@[i]))
            &&& ls[21 + h + c + o + k] == Seq::<char>::empty()
            &&& ls[22 + h + c + o + k] == people_note()
        }),
{
    lemma_report_joined(a);
    lemma_table_lines(a);
    lemma_table_lines_push(report_lines(a), seq![], a);
    assert(table_lines_hold(lines_of(text_report(a)), a));
}

} // verus!
