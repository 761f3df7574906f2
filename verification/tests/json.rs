use repohelix_report::json::Json;
use repohelix_report::number::Fraction;

fn sample() -> Json {
    Json::obj(vec![
        ("name", Json::str("helix")),
        ("ok", Json::Bool(true)),
        ("missing", Json::Null),
        ("off", Json::Bool(false)),
        ("n", Json::Int(-42)),
        ("ratio", Json::Frac(Fraction { num: 3, den: 4 })),
        (
            "list",
            Json::Array(vec![
                Json::Int(1),
                Json::Array(vec![]),
                Json::obj(vec![]),
                Json::obj(vec![("k", Json::str("v"))]),
            ]),
        ),
    ])
}

#[test]
fn compact_form_has_no_layout() {
    assert_eq!(
        sample().to_compact(),
        "{\"name\":\"helix\",\"ok\":true,\"missing\":null,\"off\":false,\"n\":-42,\"ratio\":0.75,\"list\":[1,[],{},{\"k\":\"v\"}]}"
    );
}

#[test]
fn pretty_form_indents_by_two_spaces() {
    assert_eq!(
        sample().to_pretty(),
        "{\n  \"name\": \"helix\",\n  \"ok\": true,\n  \"missing\": null,\n  \"off\": false,\n  \"n\": -42,\n  \"ratio\": 0.75,\n  \"list\": [\n    1,\n    [],\n    {},\n    {\n      \"k\": \"v\"\n    }\n  ]\n}"
    );
}

/// Drops JSON whitespace that stands outside string literals.
fn strip_layout_outside_strings(text: &str) -> String {
    let mut out = String::new();
    let mut in_string = false;
    let mut escaped = false;
    for c in text.chars() {
        if in_string {
            out.push(c);
            if escaped {
                escaped = false;
            } else if c == '\\' {
                escaped = true;
            } else if c == '"' {
                in_string = false;
            }
        } else if !matches!(c, ' ' | '\t' | '\n' | '\r') {
            out.push(c);
            if c == '"' {
                in_string = true;
            }
        }
    }
    out
}

#[test]
fn pretty_without_layout_is_compact() {
    let j = sample();
    assert_eq!(strip_layout_outside_strings(&j.to_pretty()), j.to_compact());
}

#[test]
fn pretty_and_compact_agree_with_spaces_and_escapes_in_strings() {
    let j = Json::obj(vec![
        ("a key with spaces", Json::str("text with spaces, \"quotes\" and a \\ backslash")),
        ("lines", Json::Array(vec![Json::str("two\nlines\tand tab"), Json::str(" \r ")])),
    ]);
    let pretty = j.to_pretty();
    assert_ne!(pretty, j.to_compact());
    assert_eq!(strip_layout_outside_strings(&pretty), j.to_compact());
}

#[test]
fn scalars_serialize_alike_in_both_forms() {
    for j in [
        Json::Null,
        Json::Bool(true),
        Json::Int(i64::MAX),
        Json::Frac(Fraction { num: 1, den: 3 }),
        Json::str("tab\there"),
    ] {
        assert_eq!(j.to_pretty(), j.to_compact());
    }
    assert_eq!(Json::Int(i64::MAX).to_compact(), "9223372036854775807");
    assert_eq!(Json::Frac(Fraction { num: 1, den: 3 }).to_compact(), "0.333333");
    assert_eq!(Json::Frac(Fraction { num: 7, den: 2 }).to_compact(), "3.5");
    assert_eq!(Json::Frac(Fraction { num: 0, den: 5 }).to_compact(), "0.0");
    assert_eq!(Json::str("tab\there").to_compact(), "\"tab\\there\"");
}

#[test]
fn escapes_cover_quotes_backslashes_and_controls() {
    let j = Json::str("\"\\\u{8}\u{c}\n\r\t\u{1f}\u{7f}ü");
    assert_eq!(j.to_compact(), "\"\\\"\\\\\\b\\f\\n\\r\\t\\u001f\u{7f}ü\"");
}

#[test]
fn brackets_inside_strings_are_not_escaped() {
    // Balance holds only for strings without brackets: these are written as is.
    let j = Json::obj(vec![("p", Json::str("a{b[c"))]);
    let text = j.to_compact();
    assert_eq!(text, "{\"p\":\"a{b[c\"}");
    assert_ne!(text.matches('{').count(), text.matches('}').count());
}
