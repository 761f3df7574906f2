//! Rendering of an [`Analysis`] into JSON and human-readable text reports.
use vstd::prelude::*;
use vstd::string::*;
use crate::analysis::{Analysis, CoChange, FileStat, Hotspot, Ownership, Summary, TemporalCluster};
use crate::number::{dec, fixed_text, int_text, pad_left, pad_right, push_char, push_fixed, push_i64, push_pad_left, push_pad_right, push_u64};
use crate::json::{compact_text, items_view, lemma_items_view, pairs_view, pretty_text, Json, JsonValue};

verus! {

/// The schema identifier carried by every JSON report.
pub open spec fn schema_id() -> Seq<char> {
    "repohelix/analysis/v1"@
}

/// The reminder, carried by every JSON report, that the metrics are not about people.
pub open spec fn disclaimer() -> Seq<char> {
    "Metrics describe file and change activity only. They are not measures of individual productivity or personnel judgments."@
}

/// The JSON form of an unsigned count, as the report writes it (`as i64`).
pub open spec fn count_json(n: u64) -> JsonValue {
    JsonValue::Int((n as i64) as int)
}

pub open spec fn summary_json(s: Summary) -> JsonValue {
    JsonValue::Object(
        seq![
            ("commits"@, count_json(s.commits)),
            ("files"@, count_json(s.files)),
            ("authors"@, count_json(s.authors)),
            ("total_churn"@, count_json(s.total_churn)),
            ("first_commit"@, JsonValue::Int(s.first_commit as int)),
            ("last_commit"@, JsonValue::Int(s.last_commit as int)),
            ("span_days"@, JsonValue::Int(s.span_days as int)),
        ],
    )
}

pub open spec fn file_json(f: FileStat) -> JsonValue {
    JsonValue::Object(
        seq![
            ("path"@, JsonValue::Str(f.path@)),
            ("commits"@, count_json(f.commits)),
            ("added"@, count_json(f.added)),
            ("removed"@, count_json(f.removed)),
            ("churn"@, count_json(f.churn)),
            ("authors"@, count_json(f.authors)),
            ("first_seen"@, JsonValue::Int(f.first_seen as int)),
            ("last_seen"@, JsonValue::Int(f.last_seen as int)),
        ],
    )
}

pub open spec fn cochange_json(c: CoChange) -> JsonValue {
    JsonValue::Object(
        seq![
            ("a"@, JsonValue::Str(c.a@)),
            ("b"@, JsonValue::Str(c.b@)),
            ("together"@, count_json(c.together)),
            ("count_a"@, count_json(c.count_a)),
            ("count_b"@, count_json(c.count_b)),
            ("strength"@, JsonValue::Frac(c.strength.num as nat, c.strength.den as nat)),
            ("confidence"@, JsonValue::Frac(c.confidence.num as nat, c.confidence.den as nat)),
        ],
    )
}

pub open spec fn hotspot_json(h: Hotspot) -> JsonValue {
    JsonValue::Object(
        seq![
            ("path"@, JsonValue::Str(h.path@)),
            ("churn"@, count_json(h.churn)),
            ("commits"@, count_json(h.commits)),
            ("score"@, JsonValue::Frac(h.score.num as nat, h.score.den as nat)),
        ],
    )
}

pub open spec fn ownership_json(o: Ownership) -> JsonValue {
    JsonValue::Object(
        seq![
            ("path"@, JsonValue::Str(o.path@)),
            ("authors"@, count_json(o.authors)),
            ("top_share"@, JsonValue::Frac(o.top_share.num as nat, o.top_share.den as nat)),
            ("concentration"@, JsonValue::Frac(o.concentration.num as nat, o.concentration.den as nat)),
            ("top_identity_label"@, JsonValue::Str(o.top_identity_label@)),
        ],
    )
}

pub open spec fn cluster_json(c: TemporalCluster) -> JsonValue {
    JsonValue::Object(
        seq![
            ("index"@, JsonValue::Int((c.index as i64) as int)),
            ("start"@, JsonValue::Int(c.start as int)),
            ("end"@, JsonValue::Int(c.end as int)),
            ("commits"@, count_json(c.commits)),
            ("files_touched"@, count_json(c.files_touched)),
            ("churn"@, count_json(c.churn)),
        ],
    )
}

/// The JSON tree of a whole analysis: schema, disclaimer, summary, then the
/// five metric lists in their given order.
pub open spec fn analysis_json(a: Analysis) -> JsonValue {
    JsonValue::Object(
        seq![
            ("schema"@, JsonValue::Str(schema_id())),
            ("disclaimer"@, JsonValue::Str(disclaimer())),
            ("summary"@, summary_json(a.summary)),
            ("files"@, JsonValue::Array(a.file_stats@.map_values(|f: FileStat| file_json(f)))),
            ("cochanges"@, JsonValue::Array(a.co_changes@.map_values(|c: CoChange| cochange_json(c)))),
            ("hotspots"@, JsonValue::Array(a.hotspots@.map_values(|h: Hotspot| hotspot_json(h)))),
            ("ownership"@, JsonValue::Array(a.ownership@.map_values(|o: Ownership| ownership_json(o)))),
            ("clusters"@, JsonValue::Array(a.clusters@.map_values(|c: TemporalCluster| cluster_json(c)))),
        ],
    )
}

fn summary_to_json(s: &Summary) -> (j: Json)
    ensures
        j@ == summary_json(*s),
{
    let pairs = vec![
        ("commits", Json::Int(s.commits as i64)),
        ("files", Json::Int(s.files as i64)),
        ("authors", Json::Int(s.authors as i64)),
        ("total_churn", Json::Int(s.total_churn as i64)),
        ("first_commit", Json::Int(s.first_commit)),
        ("last_commit", Json::Int(s.last_commit)),
        ("span_days", Json::Int(s.span_days)),
    ];
    let j = Json::obj(pairs);
    assert(pairs_view(pairs@) =~= match summary_json(*s) {
        JsonValue::Object(m) => m,
        _ => seq![],
    });
    j
}

fn file_to_json(f: &FileStat) -> (j: Json)
    ensures
        j@ == file_json(*f),
{
    let pairs = vec![
        ("path", Json::str(f.path.as_str())),
        ("commits", Json::Int(f.commits as i64)),
        ("added", Json::Int(f.added as i64)),
        ("removed", Json::Int(f.removed as i64)),
        ("churn", Json::Int(f.churn as i64)),
        ("authors", Json::Int(f.authors as i64)),
        ("first_seen", Json::Int(f.first_seen)),
        ("last_seen", Json::Int(f.last_seen)),
    ];
    let j = Json::obj(pairs);
    assert(pairs_view(pairs@) =~= match file_json(*f) {
        JsonValue::Object(m) => m,
        _ => seq![],
    });
    j
}

fn cochange_to_json(c: &CoChange) -> (j: Json)
    ensures
        j@ == cochange_json(*c),
{
    let pairs = vec![
        ("a", Json::str(c.a.as_str())),
        ("b", Json::str(c.b.as_str())),
        ("together", Json::Int(c.together as i64)),
        ("count_a", Json::Int(c.count_a as i64)),
        ("count_b", Json::Int(c.count_b as i64)),
        ("strength", Json::Frac(c.strength)),
        ("confidence", Json::Frac(c.confidence)),
    ];
    let j = Json::obj(pairs);
    assert(pairs_view(pairs@) =~= match cochange_json(*c) {
        JsonValue::Object(m) => m,
        _ => seq![],
    });
    j
}

fn hotspot_to_json(h: &Hotspot) -> (j: Json)
    ensures
        j@ == hotspot_json(*h),
{
    let pairs = vec![
        ("path", Json::str(h.path.as_str())),
        ("churn", Json::Int(h.churn as i64)),
        ("commits", Json::Int(h.commits as i64)),
        ("score", Json::Frac(h.score)),
    ];
    let j = Json::obj(pairs);
    assert(pairs_view(pairs@) =~= match hotspot_json(*h) {
        JsonValue::Object(m) => m,
        _ => seq![],
    });
    j
}

fn ownership_to_json(o: &Ownership) -> (j: Json)
    ensures
        j@ == ownership_json(*o),
{
    let pairs = vec![
        ("path", Json::str(o.path.as_str())),
        ("authors", Json::Int(o.authors as i64)),
        ("top_share", Json::Frac(o.top_share)),
        ("concentration", Json::Frac(o.concentration)),
        ("top_identity_label", Json::str(o.top_identity_label.as_str())),
    ];
    let j = Json::obj(pairs);
    assert(pairs_view(pairs@) =~= match ownership_json(*o) {
        JsonValue::Object(m) => m,
        _ => seq![],
    });
    j
}

fn cluster_to_json(c: &TemporalCluster) -> (j: Json)
    ensures
        j@ == cluster_json(*c),
{
    let pairs = vec![
        ("index", Json::Int(c.index as i64)),
        ("start", Json::Int(c.start)),
        ("end", Json::Int(c.end)),
        ("commits", Json::Int(c.commits as i64)),
        ("files_touched", Json::Int(c.files_touched as i64)),
        ("churn", Json::Int(c.churn as i64)),
    ];
    let j = Json::obj(pairs);
    assert(pairs_view(pairs@) =~= match cluster_json(*c) {
        JsonValue::Object(m) => m,
        _ => seq![],
    });
    j
}

/// Builds the JSON value tree of an analysis.
pub fn build_json(a: &Analysis) -> (j: Json)
    ensures
        j@ == analysis_json(*a),
{
    let summary = summary_to_json(&a.summary);

    let mut files: Vec<Json> = Vec::new();
    let mut i: usize = 0;
    while i < a.file_stats.len()
        invariant
            i <= a.file_stats@.len(),
            files@.len() == i,
            forall|k: int| 0 <= k < i ==> (#[trigger] files@[k])@ == file_json(a.file_stats@[k]),
        decreases a.file_stats@.len() - i,
    {
        files.push(file_to_json(&a.file_stats[i]));
        i = i + 1;
    }
    proof {
        lemma_items_view(files@, files@.len());
        assert(items_view(files@, files@.len()) =~= a.file_stats@.map_values(|f: FileStat| file_json(f)));
    }

    let mut cochanges: Vec<Json> = Vec::new();
    let mut i: usize = 0;
    while i < a.co_changes.len()
        invariant
            i <= a.co_changes@.len(),
            cochanges@.len() == i,
            forall|k: int| 0 <= k < i ==> (#[trigger] cochanges@[k])@ == cochange_json(a.co_changes@[k]),
        decreases a.co_changes@.len() - i,
    {
        cochanges.push(cochange_to_json(&a.co_changes[i]));
        i = i + 1;
    }
    proof {
        lemma_items_view(cochanges@, cochanges@.len());
        assert(items_view(cochanges@, cochanges@.len()) =~= a.co_changes@.map_values(|c: CoChange| cochange_json(c)));
    }

    let mut hotspots: Vec<Json> = Vec::new();
    let mut i: usize = 0;
    while i < a.hotspots.len()
        invariant
            i <= a.hotspots@.len(),
            hotspots@.len() == i,
            forall|k: int| 0 <= k < i ==> (#[trigger] hotspots@[k])@ == hotspot_json(a.hotspots@[k]),
        decreases a.hotspots@.len() - i,
    {
        hotspots.push(hotspot_to_json(&a.hotspots[i]));
        i = i + 1;
    }
    proof {
        lemma_items_view(hotspots@, hotspots@.len());
        assert(items_view(hotspots@, hotspots@.len()) =~= a.hotspots@.map_values(|h: Hotspot| hotspot_json(h)));
    }

    let mut ownership: Vec<Json> = Vec::new();
    let mut i: usize = 0;
    while i < a.ownership.len()
        invariant
            i <= a.ownership@.len(),
            ownership@.len() == i,
            forall|k: int| 0 <= k < i ==> (#[trigger] ownership@[k])@ == ownership_json(a.ownership@[k]),
        decreases a.ownership@.len() - i,
    {
        ownership.push(ownership_to_json(&a.ownership[i]));
        i = i + 1;
    }
    proof {
        lemma_items_view(ownership@, ownership@.len());
        assert(items_view(ownership@, ownership@.len()) =~= a.ownership@.map_values(|o: Ownership| ownership_json(o)));
    }

    let mut clusters: Vec<Json> = Vec::new();
    let mut i: usize = 0;
    while i < a.clusters.len()
        invariant
            i <= a.clusters@.len(),
            clusters@.len() == i,
            forall|k: int| 0 <= k < i ==> (#[trigger] clusters@[k])@ == cluster_json(a.clusters@[k]),
        decreases a.clusters@.len() - i,
    {
        clusters.push(cluster_to_json(&a.clusters[i]));
        i = i + 1;
    }
    proof {
        lemma_items_view(clusters@, clusters@.len());
        assert(items_view(clusters@, clusters@.len()) =~= a.clusters@.map_values(|c: TemporalCluster| cluster_json(c)));
    }

    let files = Json::Array(files);
    let cochanges = Json::Array(cochanges);
    let hotspots = Json::Array(hotspots);
    let ownership = Json::Array(ownership);
    let clusters = Json::Array(clusters);
    let pairs = vec![
        ("schema", Json::str("repohelix/analysis/v1")),
        (
            "disclaimer",
            Json::str(
                "Metrics describe file and change activity only. They are not measures of individual productivity or personnel judgments.",
            ),
        ),
        ("summary", summary),
        ("files", files),
        ("cochanges", cochanges),
        ("hotspots", hotspots),
        ("ownership", ownership),
        ("clusters", clusters),
    ];
    let j = Json::obj(pairs);
    assert(pairs_view(pairs@) =~= match analysis_json(*a) {
        JsonValue::Object(m) => m,
        _ => seq![],
    });
    j
}

/// Renders the analysis as JSON text: pretty (two-space indentation) or compact.
pub fn to_json(analysis: &Analysis, pretty: bool) -> (text: String)
    ensures
        text@ == (if pretty {
            pretty_text(analysis_json(*analysis), seq![])
        } else {
            compact_text(analysis_json(*analysis))
        }),
{
    let root = build_json(analysis);
    if pretty {
        root.to_pretty()
    } else {
        root.to_compact()
    }
}

// ----- text report -----

/// `s` shortened to at most `max` characters (at least one): if it is longer,
/// its last `max - 1` characters after a leading ellipsis.
pub open spec fn truncated(s: Seq<char>, max: nat) -> Seq<char> {
    if s.len() <= max {
        s
    } else {
        let keep: nat = if max == 0 {
            0
        } else {
            (max - 1) as nat
        };
        seq!['…'] + s.subrange(s.len() - keep, s.len() as int)
    }
}

/// Shortens `s` to `max` characters, keeping its end behind a leading `…`.
pub fn truncate(s: &str, max: usize) -> (t: String)
    ensures
        t@ == truncated(s@, max as nat),
{
    let count = s.unicode_len();
    if count <= max {
        String::from_str(s)
    } else {
        let keep = if max == 0 {
            0
        } else {
            max - 1
        };
        let tail = s.substring_char(count - keep, count);
        let mut out = String::new();
        push_char(&mut out, '…');
        out.append(tail);
        assert(out@ =~= truncated(s@, max as nat));
        out
    }
}

/// A line of the text report: `s` and a newline.
pub open spec fn line(s: Seq<char>) -> Seq<char> {
    s + seq!['\n']
}

/// Two spaces, the indentation of table lines.
pub open spec fn margin() -> Seq<char> {
    seq![' ', ' ']
}

/// Number of rows a section shows for a list of `n` entries.
pub open spec fn shown(n: nat) -> nat {
    if n < 15 {
        n
    } else {
        15
    }
}

pub open spec fn title_text() -> Seq<char> {
    line("repohelix — Git history analysis"@) + line("================================"@) + line(seq![])
}

pub open spec fn summary_text(s: Summary) -> Seq<char> {
    line("Summary"@) + line("  commits ......... "@ + dec(s.commits as nat)) + line(
        "  files ........... "@ + dec(s.files as nat),
    ) + line("  authors ......... "@ + dec(s.authors as nat)) + line(
        "  total churn ..... "@ + dec(s.total_churn as nat),
    ) + line("  span (days) ..... "@ + int_text(s.span_days as int)) + line(seq![])
}

pub open spec fn hotspot_header() -> Seq<char> {
    line(
        margin() + pad_right("path"@, 40) + seq![' '] + pad_left("churn"@, 7) + seq![' '] + pad_left(
            "commits"@,
            7,
        ) + seq![' '] + pad_left("score"@, 7),
    )
}

pub open spec fn coupling_header() -> Seq<char> {
    line(
        margin() + pad_left("str"@, 5) + seq![' '] + pad_left("conf"@, 5) + seq![' '] + pad_right(
            "file A"@,
            26,
        ) + seq![' '] + pad_right("file B"@, 26),
    )
}

pub open spec fn ownership_header() -> Seq<char> {
    line(
        margin() + pad_right("path"@, 40) + seq![' '] + pad_left("authors"@, 7) + seq![' '] + pad_left(
            "top%"@,
            7,
        ) + seq![' '] + pad_left("concentr."@, 10),
    )
}

pub open spec fn cluster_header() -> Seq<char> {
    line(
        margin() + pad_left("idx"@, 5) + seq![' '] + pad_left("commits"@, 8) + seq![' '] + pad_left(
            "files"@,
            7,
        ) + seq![' '] + pad_left("churn"@, 7),
    )
}

pub open spec fn hotspot_row(h: Hotspot) -> Seq<char> {
    line(
        margin() + pad_right(truncated(h.path@, 40), 40) + seq![' '] + pad_left(dec(h.churn as nat), 7)
            + seq![' '] + pad_left(dec(h.commits as nat), 7) + seq![' '] + pad_left(
            fixed_text(h.score.num as nat, h.score.den as nat, 3),
            7,
        ),
    )
}

pub open spec fn hotspot_rows(hs: Seq<Hotspot>, n: nat) -> Seq<char>
    decreases n,
{
    if n == 0 || n > hs.len() {
        seq![]
    } else {
        hotspot_rows(hs, (n - 1) as nat) + hotspot_row(hs[n - 1])
    }
}

pub open spec fn hotspot_section(hs: Seq<Hotspot>) -> Seq<char> {
    line("Top hotspots (churn x frequency)"@) + hotspot_header() + hotspot_rows(hs, shown(hs.len())) + line(seq![])
}

pub open spec fn coupling_row(c: CoChange) -> Seq<char> {
    line(
        margin() + pad_left(fixed_text(c.strength.num as nat, c.strength.den as nat, 2), 5) + seq![' ']
            + pad_left(fixed_text(c.confidence.num as nat, c.confidence.den as nat, 2), 5) + seq![' ']
            + pad_right(truncated(c.a@, 26), 26) + seq![' '] + pad_right(truncated(c.b@, 26), 26),
    )
}

pub open spec fn coupling_rows(cs: Seq<CoChange>, n: nat) -> Seq<char>
    decreases n,
{
    if n == 0 || n > cs.len() {
        seq![]
    } else {
        coupling_rows(cs, (n - 1) as nat) + coupling_row(cs[n - 1])
    }
}

pub open spec fn coupling_section(cs: Seq<CoChange>) -> Seq<char> {
    line("Strongest temporal coupling (co-change)"@) + coupling_header() + coupling_rows(cs, shown(cs.len())) + line(seq![])
}

pub open spec fn ownership_row(o: Ownership) -> Seq<char> {
    line(
        margin() + pad_right(truncated(o.path@, 40), 40) + seq![' '] + pad_left(dec(o.authors as nat), 7)
            + seq![' '] + pad_left(fixed_text(o.top_share_percent.num as nat, o.top_share_percent.den as nat, 0), 6)
            + seq!['%', ' '] + pad_left(
            fixed_text(o.concentration.num as nat, o.concentration.den as nat, 3),
            10,
        ),
    )
}

pub open spec fn ownership_rows(os: Seq<Ownership>, n: nat) -> Seq<char>
    decreases n,
{
    if n == 0 || n > os.len() {
        seq![]
    } else {
        ownership_rows(os, (n - 1) as nat) + ownership_row(os[n - 1])
    }
}

pub open spec fn ownership_section(os: Seq<Ownership>) -> Seq<char> {
    line("Ownership concentration (bus-factor risk)"@) + ownership_header() + ownership_rows(os, shown(os.len())) + line(seq![])
}

pub open spec fn cluster_row(c: TemporalCluster) -> Seq<char> {
    line(
        margin() + pad_left(dec(c.index as nat), 5) + seq![' '] + pad_left(dec(c.commits as nat), 8)
            + seq![' '] + pad_left(dec(c.files_touched as nat), 7) + seq![' '] + pad_left(
            dec(c.churn as nat),
            7,
        ),
    )
}

pub open spec fn cluster_rows(cs: Seq<TemporalCluster>, n: nat) -> Seq<char>
    decreases n,
{
    if n == 0 || n > cs.len() {
        seq![]
    } else {
        cluster_rows(cs, (n - 1) as nat) + cluster_row(cs[n - 1])
    }
}

pub open spec fn cluster_section(cs: Seq<TemporalCluster>) -> Seq<char> {
    line("Temporal clusters (development sessions)"@) + cluster_header() + cluster_rows(cs, shown(cs.len())) + line(seq![])
}

/// The closing reminder of the text report.
pub open spec fn people_note() -> Seq<char> {
    "Note: these metrics describe code and change activity, not people."@
}

/// The whole text report: title, summary, then four tables of at most fifteen
/// rows each (hotspots, coupling, ownership, clusters), then the reminder.
pub open spec fn text_report(a: Analysis) -> Seq<char> {
    title_text() + summary_text(a.summary) + hotspot_section(a.hotspots@) + coupling_section(
        a.co_changes@,
    ) + ownership_section(a.ownership@) + cluster_section(a.clusters@) + line(people_note())
}

fn push_line_end(out: &mut String)
    ensures
        final(out)@ == old(out)@ + seq!['\n'],
{
    push_char(out, '\n');
}

fn push_text_line(out: &mut String, s: &str)
    ensures
        final(out)@ == old(out)@ + line(s@),
{
    out.append(s);
    push_line_end(out);
    assert(out@ =~= old(out)@ + line(s@));
}

fn push_empty_line(out: &mut String)
    ensures
        final(out)@ == old(out)@ + line(seq![]),
{
    push_line_end(out);
    assert(out@ =~= old(out)@ + line(seq![]));
}

fn push_margin(out: &mut String)
    ensures
        final(out)@ == old(out)@ + margin(),
{
    push_char(out, ' ');
    push_char(out, ' ');
    assert(out@ =~= old(out)@ + margin());
}

fn push_count_cell(out: &mut String, n: u64, width: usize)
    ensures
        final(out)@ == old(out)@ + pad_left(dec(n as nat), width as nat),
{
    let mut cell = String::new();
    push_u64(&mut cell, n);
    assert(cell@ =~= dec(n as nat));
    push_pad_left(out, cell.as_str(), width);
}

fn push_fixed_cell(out: &mut String, num: u128, den: u64, places: u32, width: usize)
    requires
        places <= 6,
        num <= 100 * (u64::MAX as int),
    ensures
        final(out)@ == old(out)@ + pad_left(fixed_text(num as nat, den as nat, places as nat), width as nat),
{
    let mut cell = String::new();
    push_fixed(&mut cell, num, den, places);
    assert(cell@ =~= fixed_text(num as nat, den as nat, places as nat));
    push_pad_left(out, cell.as_str(), width);
}

fn push_path_cell(out: &mut String, path: &str, width: usize)
    ensures
        final(out)@ == old(out)@ + pad_right(truncated(path@, width as nat), width as nat),
{
    let t = truncate(path, width);
    push_pad_right(out, t.as_str(), width);
}

#[verifier::rlimit(50)]
fn push_hotspot_row(out: &mut String, h: &Hotspot)
    ensures
        final(out)@ == old(out)@ + hotspot_row(*h),
{
    push_margin(out);
    push_path_cell(out, h.path.as_str(), 40);
    push_char(out, ' ');
    push_count_cell(out, h.churn, 7);
    push_char(out, ' ');
    push_count_cell(out, h.commits, 7);
    push_char(out, ' ');
    push_fixed_cell(out, h.score.num as u128, h.score.den, 3, 7);
    push_line_end(out);
    assert(out@ =~= old(out)@ + hotspot_row(*h));
}

#[verifier::rlimit(50)]
fn push_coupling_row(out: &mut String, c: &CoChange)
    ensures
        final(out)@ == old(out)@ + coupling_row(*c),
{
    push_margin(out);
    push_fixed_cell(out, c.strength.num as u128, c.strength.den, 2, 5);
    push_char(out, ' ');
    push_fixed_cell(out, c.confidence.num as u128, c.confidence.den, 2, 5);
    push_char(out, ' ');
    push_path_cell(out, c.a.as_str(), 26);
    push_char(out, ' ');
    push_path_cell(out, c.b.as_str(), 26);
    push_line_end(out);
    assert(out@ =~= old(out)@ + coupling_row(*c));
}

#[verifier::rlimit(50)]
fn push_ownership_row(out: &mut String, o: &Ownership)
    ensures
        final(out)@ == old(out)@ + ownership_row(*o),
{
    push_margin(out);
    push_path_cell(out, o.path.as_str(), 40);
    push_char(out, ' ');
    push_count_cell(out, o.authors, 7);
    push_char(out, ' ');
    push_fixed_cell(out, o.top_share_percent.num as u128, o.top_share_percent.den, 0, 6);
    push_char(out, '%');
    push_char(out, ' ');
    push_fixed_cell(out, o.concentration.num as u128, o.concentration.den, 3, 10);
    push_line_end(out);
    assert(out@ =~= old(out)@ + ownership_row(*o));
}

#[verifier::rlimit(50)]
fn push_cluster_row(out: &mut String, c: &TemporalCluster)
    ensures
        final(out)@ == old(out)@ + cluster_row(*c),
{
    push_margin(out);
    push_count_cell(out, c.index as u64, 5);
    push_char(out, ' ');
    push_count_cell(out, c.commits, 8);
    push_char(out, ' ');
    push_count_cell(out, c.files_touched, 7);
    push_char(out, ' ');
    push_count_cell(out, c.churn, 7);
    push_line_end(out);
    assert(out@ =~= old(out)@ + cluster_row(*c));
}

#[verifier::rlimit(50)]
fn push_summary(out: &mut String, s: &Summary)
    ensures
        final(out)@ == old(out)@ + summary_text(*s),
{
    push_text_line(out, "Summary");
    out.append("  commits ......... ");
    push_u64(out, s.commits);
    push_line_end(out);
    out.append("  files ........... ");
    push_u64(out, s.files);
    push_line_end(out);
    out.append("  authors ......... ");
    push_u64(out, s.authors);
    push_line_end(out);
    out.append("  total churn ..... ");
    push_u64(out, s.total_churn);
    push_line_end(out);
    out.append("  span (days) ..... ");
    push_i64(out, s.span_days);
    push_line_end(out);
    push_empty_line(out);
    assert(out@ =~= old(out)@ + summary_text(*s));
}

fn push_hotspot_header(out: &mut String)
    ensures
        final(out)@ == old(out)@ + hotspot_header(),
{
    push_margin(out);
    push_pad_right(out, "path", 40);
    push_char(out, ' ');
    push_pad_left(out, "churn", 7);
    push_char(out, ' ');
    push_pad_left(out, "commits", 7);
    push_char(out, ' ');
    push_pad_left(out, "score", 7);
    push_line_end(out);
    assert(out@ =~= old(out)@ + hotspot_header());
}

fn push_coupling_header(out: &mut String)
    ensures
        final(out)@ == old(out)@ + coupling_header(),
{
    push_margin(out);
    push_pad_left(out, "str", 5);
    push_char(out, ' ');
    push_pad_left(out, "conf", 5);
    push_char(out, ' ');
    push_pad_right(out, "file A", 26);
    push_char(out, ' ');
    push_pad_right(out, "file B", 26);
    push_line_end(out);
    assert(out@ =~= old(out)@ + coupling_header());
}

fn push_ownership_header(out: &mut String)
    ensures
        final(out)@ == old(out)@ + ownership_header(),
{
    push_margin(out);
    push_pad_right(out, "path", 40);
    push_char(out, ' ');
    push_pad_left(out, "authors", 7);
    push_char(out, ' ');
    push_pad_left(out, "top%", 7);
    push_char(out, ' ');
    push_pad_left(out, "concentr.", 10);
    push_line_end(out);
    assert(out@ =~= old(out)@ + ownership_header());
}

fn push_cluster_header(out: &mut String)
    ensures
        final(out)@ == old(out)@ + cluster_header(),
{
    push_margin(out);
    push_pad_left(out, "idx", 5);
    push_char(out, ' ');
    push_pad_left(out, "commits", 8);
    push_char(out, ' ');
    push_pad_left(out, "files", 7);
    push_char(out, ' ');
    push_pad_left(out, "churn", 7);
    push_line_end(out);
    assert(out@ =~= old(out)@ + cluster_header());
}

fn push_hotspot_section(out: &mut String, hs: &Vec<Hotspot>)
    ensures
        final(out)@ == old(out)@ + hotspot_section(hs@),
{
    push_text_line(out, "Top hotspots (churn x frequency)");
    push_hotspot_header(out);
    let ghost rows_start = out@;
    let n = if hs.len() < 15 { hs.len() } else { 15 };
    let mut i: usize = 0;
    while i < n
        invariant
            i <= n == shown(hs@.len()),
            out@ == rows_start + hotspot_rows(hs@, i as nat),
        decreases n - i,
    {
        push_hotspot_row(out, &hs[i]);
        i = i + 1;
        assert(out@ =~= rows_start + hotspot_rows(hs@, i as nat));
    }
    push_empty_line(out);
    assert(out@ =~= old(out)@ + hotspot_section(hs@));
}

fn push_coupling_section(out: &mut String, cs: &Vec<CoChange>)
    ensures
        final(out)@ == old(out)@ + coupling_section(cs@),
{
    push_text_line(out, "Strongest temporal coupling (co-change)");
    push_coupling_header(out);
    let ghost rows_start = out@;
    let n = if cs.len() < 15 { cs.len() } else { 15 };
    let mut i: usize = 0;
    while i < n
        invariant
            i <= n == shown(cs@.len()),
            out@ == rows_start + coupling_rows(cs@, i as nat),
        decreases n - i,
    {
        push_coupling_row(out, &cs[i]);
        i = i + 1;
        assert(out@ =~= rows_start + coupling_rows(cs@, i as nat));
    }
    push_empty_line(out);
    assert(out@ =~= old(out)@ + coupling_section(cs@));
}

fn push_ownership_section(out: &mut String, os: &Vec<Ownership>)
    ensures
        final(out)@ == old(out)@ + ownership_section(os@),
{
    push_text_line(out, "Ownership concentration (bus-factor risk)");
    push_ownership_header(out);
    let ghost rows_start = out@;
    let n = if os.len() < 15 { os.len() } else { 15 };
    let mut i: usize = 0;
    while i < n
        invariant
            i <= n == shown(os@.len()),
            out@ == rows_start + ownership_rows(os@, i as nat),
        decreases n - i,
    {
        push_ownership_row(out, &os[i]);
        i = i + 1;
        assert(out@ =~= rows_start + ownership_rows(os@, i as nat));
    }
    push_empty_line(out);
    assert(out@ =~= old(out)@ + ownership_section(os@));
}

fn push_cluster_section(out: &mut String, cs: &Vec<TemporalCluster>)
    ensures
        final(out)@ == old(out)@ + cluster_section(cs@),
{
    push_text_line(out, "Temporal clusters (development sessions)");
    push_cluster_header(out);
    let ghost rows_start = out@;
    let n = if cs.len() < 15 { cs.len() } else { 15 };
    let mut i: usize = 0;
    while i < n
        invariant
            i <= n == shown(cs@.len()),
            out@ == rows_start + cluster_rows(cs@, i as nat),
        decreases n - i,
    {
        push_cluster_row(out, &cs[i]);
        i = i + 1;
        assert(out@ =~= rows_start + cluster_rows(cs@, i as nat));
    }
    push_empty_line(out);
    assert(out@ =~= old(out)@ + cluster_section(cs@));
}

/// Renders a compact, human-readable text report.
#[verifier::rlimit(50)]
pub fn to_text(analysis: &Analysis) -> (text: String)
    ensures
        text@ == text_report(*analysis),
{
    let mut out = String::new();
    push_text_line(&mut out, "repohelix — Git history analysis");
    push_text_line(&mut out, "================================");
    push_empty_line(&mut out);
    push_summary(&mut out, &analysis.summary);
    push_hotspot_section(&mut out, &analysis.hotspots);
    push_coupling_section(&mut out, &analysis.co_changes);
    push_ownership_section(&mut out, &analysis.ownership);
    push_cluster_section(&mut out, &analysis.clusters);
    push_text_line(&mut out, "Note: these metrics describe code and change activity, not people.");
    assert(out@ =~= text_report(*analysis));
    out
}

/// The two report formats.
#[derive(Clone, Copy, Debug, PartialEq, Eq)]
pub enum Format {
    Json,
    Text,
}

/// The report text for an analysis in the chosen format.
pub open spec fn report_text(a: Analysis, format: Format, pretty: bool) -> Seq<char> {
    match format {
        Format::Json => if pretty {
            pretty_text(analysis_json(a), seq![])
        } else {
            compact_text(analysis_json(a))
        },
        Format::Text => text_report(a),
    }
}

/// Renders the analysis in the chosen format; `pretty` applies to JSON only.
pub fn render(analysis: &Analysis, format: Format, pretty: bool) -> (text: String)
    ensures
        text@ == report_text(*analysis, format, pretty),
{
    match format {
        Format::Json => to_json(analysis, pretty),
        Format::Text => to_text(analysis),
    }
}

} // verus!
