//! A JSON value tree with insertion-ordered objects, and its compact and
//! pretty serializations.
use vstd::prelude::*;
use vstd::string::*;
use crate::chars::{lemma_contains_middle, bare_text, is_json_space, contains, lemma_contains_extend, balanced, bracket_free, is_bracket, lemma_balanced_concat, lemma_balanced_wrap, lemma_bracket_free_balanced, lemma_bracket_free_chars, lemma_bracket_free_concat, lemma_bracket_free_last};
use crate::number::{lemma_int_text_bare, lemma_json_number_bare, lemma_int_text_bracket_free, lemma_json_number_bracket_free, digit_char, int_text, json_number_text, push_char, push_i64, push_json_number, Fraction};

verus! {

/// A JSON value. Object members keep the order in which they were inserted,
/// so serialization is stable for a given tree.
#[derive(Debug)]
pub enum Json {
    Null,
    Bool(bool),
    /// Integers are kept apart from fractions so they print exactly.
    Int(i64),
    /// A non-integral metric, held exactly as a fraction.
    Frac(Fraction),
    Str(String),
    Array(Vec<Json>),
    Object(Vec<(String, Json)>),
}

/// The mathematical content of a [`Json`] tree.
pub enum JsonValue {
    Null,
    Bool(bool),
    Int(int),
    Frac(nat, nat),
    Str(Seq<char>),
    Array(Seq<JsonValue>),
    Object(Seq<(Seq<char>, JsonValue)>),
}

/// The content of a tree.
pub open spec fn json_view(j: Json) -> JsonValue
    decreases j, 0nat,
{
    match j {
        Json::Null => JsonValue::Null,
        Json::Bool(b) => JsonValue::Bool(b),
        Json::Int(n) => JsonValue::Int(n as int),
        Json::Frac(f) => JsonValue::Frac(f.num as nat, f.den as nat),
        Json::Str(s) => JsonValue::Str(s@),
        Json::Array(items) => JsonValue::Array(items_view(items@, items@.len())),
        Json::Object(members) => JsonValue::Object(members_view(members@, members@.len())),
    }
}

/// The contents of the first `n` items.
pub open spec fn items_view(items: Seq<Json>, n: nat) -> Seq<JsonValue>
    decreases items, n,
{
    if n == 0 || n > items.len() {
        seq![]
    } else {
        items_view(items, (n - 1) as nat).push(json_view(items[n - 1]))
    }
}

/// The contents of the first `n` members.
pub open spec fn members_view(members: Seq<(String, Json)>, n: nat) -> Seq<(Seq<char>, JsonValue)>
    decreases members, n,
{
    if n == 0 || n > members.len() {
        seq![]
    } else {
        members_view(members, (n - 1) as nat).push((members[n - 1].0@, json_view(members[n - 1].1)))
    }
}

impl View for Json {
    type V = JsonValue;

    open spec fn view(&self) -> JsonValue {
        json_view(*self)
    }
}

pub proof fn lemma_items_view(items: Seq<Json>, n: nat)
    requires
        n <= items.len(),
    ensures
        items_view(items, n).len() == n,
        forall|k: int| 0 <= k < n ==> #[trigger] items_view(items, n)[k] == json_view(items[k]),
    decreases n,
{
    if n > 0 {
        lemma_items_view(items, (n - 1) as nat);
    }
}

pub proof fn lemma_members_view(members: Seq<(String, Json)>, n: nat)
    requires
        n <= members.len(),
    ensures
        members_view(members, n).len() == n,
        forall|k: int|
            0 <= k < n ==> #[trigger] members_view(members, n)[k] == (
                members[k].0@,
                json_view(members[k].1),
            ),
    decreases n,
{
    if n > 0 {
        lemma_members_view(members, (n - 1) as nat);
    }
}

// ----- reading a value back -----

/// The value of the first member named `key` among `members`, from index `i` on.
pub open spec fn first_member_from(members: Seq<(Seq<char>, JsonValue)>, key: Seq<char>, i: int) -> Option<JsonValue>
    decreases members.len() - i,
{
    if i < 0 || i >= members.len() {
        None
    } else if members[i].0 == key {
        Some(members[i].1)
    } else {
        first_member_from(members, key, i + 1)
    }
}

/// What a reader finds under `key` in an object: the value of its first
/// member of that name; `None` where there is no value, no object or no such
/// member.
pub open spec fn member_of(v: Option<JsonValue>, key: Seq<char>) -> Option<JsonValue> {
    match v {
        Some(JsonValue::Object(members)) => first_member_from(members, key, 0),
        _ => None,
    }
}

/// The element at index `i` of an array; `None` where there is no value, no
/// array or no such element.
pub open spec fn element_of(v: Option<JsonValue>, i: int) -> Option<JsonValue> {
    match v {
        Some(JsonValue::Array(items)) => if 0 <= i < items.len() {
            Some(items[i])
        } else {
            None
        },
        _ => None,
    }
}

/// The number of elements of an array; `None` where there is no array.
pub open spec fn length_of(v: Option<JsonValue>) -> Option<nat> {
    match v {
        Some(JsonValue::Array(items)) => Some(items.len()),
        _ => None,
    }
}

// ----- string escaping -----

/// Lower-case hexadecimal digit for a value below sixteen.
pub open spec fn hex_char(d: nat) -> char {
    if d < 10 {
        digit_char(d)
    } else {
        (87 + d) as char
    }
}

/// The JSON escape of one character.
pub open spec fn escape_char(c: char) -> Seq<char> {
    if c == '"' {
        seq!['\\', '"']
    } else if c == '\\' {
        seq!['\\', '\\']
    } else if c == '\n' {
        seq!['\\', 'n']
    } else if c == '\r' {
        seq!['\\', 'r']
    } else if c == '\t' {
        seq!['\\', 't']
    } else if c == '\x08' {
        seq!['\\', 'b']
    } else if c == '\x0c' {
        seq!['\\', 'f']
    } else if (c as nat) < 32 {
        seq!['\\', 'u', '0', '0', hex_char((c as nat) / 16), hex_char((c as nat) % 16)]
    } else {
        seq![c]
    }
}

/// The JSON escape of a character sequence.
pub open spec fn escape(s: Seq<char>) -> Seq<char>
    decreases s.len(),
{
    if s.len() == 0 {
        seq![]
    } else {
        escape(s.drop_last()) + escape_char(s.last())
    }
}

/// A JSON string literal: the escaped text between double quotes.
pub open spec fn quoted(s: Seq<char>) -> Seq<char> {
    seq!['"'] + escape(s) + seq!['"']
}

fn hex(d: u32) -> (c: char)
    requires
        d < 16,
    ensures
        c == hex_char(d as nat),
{
    if d < 10 {
        ((48u8 + d as u8) as char)
    } else {
        ((87u8 + d as u8) as char)
    }
}

fn push_escaped_char(out: &mut String, c: char)
    ensures
        final(out)@ == old(out)@ + escape_char(c),
{
    if c == '"' {
        push_char(out, '\\');
        push_char(out, '"');
    } else if c == '\\' {
        push_char(out, '\\');
        push_char(out, '\\');
    } else if c == '\n' {
        push_char(out, '\\');
        push_char(out, 'n');
    } else if c == '\r' {
        push_char(out, '\\');
        push_char(out, 'r');
    } else if c == '\t' {
        push_char(out, '\\');
        push_char(out, 't');
    } else if c == '\x08' {
        push_char(out, '\\');
        push_char(out, 'b');
    } else if c == '\x0c' {
        push_char(out, '\\');
        push_char(out, 'f');
    } else if (c as u32) < 32 {
        let v = c as u32;
        push_char(out, '\\');
        push_char(out, 'u');
        push_char(out, '0');
        push_char(out, '0');
        push_char(out, hex(v / 16));
        push_char(out, hex(v % 16));
    } else {
        push_char(out, c);
    }
    assert(out@ =~= old(out)@ + escape_char(c));
}

/// Appends `s` as a quoted, escaped JSON string literal.
pub fn push_quoted(out: &mut String, s: &str)
    ensures
        final(out)@ == old(out)@ + quoted(s@),
{
    push_char(out, '"');
    let n = s.unicode_len();
    let mut i: usize = 0;
    while i < n
        invariant
            i <= n == s@.len(),
            out@ == old(out)@ + seq!['"'] + escape(s@.subrange(0, i as int)),
        decreases n - i,
    {
        let c = s.get_char(i);
        push_escaped_char(out, c);
        assert(s@.subrange(0, i + 1).drop_last() =~= s@.subrange(0, i as int));
        i = i + 1;
        assert(out@ =~= old(out)@ + seq!['"'] + escape(s@.subrange(0, i as int)));
    }
    push_char(out, '"');
    assert(s@.subrange(0, n as int) =~= s@);
    assert(out@ =~= old(out)@ + quoted(s@));
}

// ----- compact serialization -----

/// Compact JSON text: no insignificant whitespace.
pub open spec fn compact_text(v: JsonValue) -> Seq<char>
    decreases v, 0nat,
{
    match v {
        JsonValue::Null => "null"@,
        JsonValue::Bool(b) => if b {
            "true"@
        } else {
            "false"@
        },
        JsonValue::Int(n) => int_text(n),
        JsonValue::Frac(n, d) => json_number_text(n, d),
        JsonValue::Str(s) => quoted(s),
        JsonValue::Array(items) => seq!['['] + compact_items(items, items.len()) + seq![']'],
        JsonValue::Object(members) => seq!['{'] + compact_members(members, members.len()) + seq![
            '}',
        ],
    }
}

/// The first `n` items, comma separated.
pub open spec fn compact_items(items: Seq<JsonValue>, n: nat) -> Seq<char>
    decreases items, n,
{
    if n == 0 || n > items.len() {
        seq![]
    } else if n == 1 {
        compact_text(items[0])
    } else {
        compact_items(items, (n - 1) as nat) + seq![','] + compact_text(items[n - 1])
    }
}

/// The first `n` members as `"key":value`, comma separated.
pub open spec fn compact_members(members: Seq<(Seq<char>, JsonValue)>, n: nat) -> Seq<char>
    decreases members, n,
{
    if n == 0 || n > members.len() {
        seq![]
    } else if n == 1 {
        quoted(members[0].0) + seq![':'] + compact_text(members[0].1)
    } else {
        compact_members(members, (n - 1) as nat) + seq![','] + quoted(members[n - 1].0) + seq![':']
            + compact_text(members[n - 1].1)
    }
}

// ----- pretty serialization -----

/// The indentation one level deeper than `ind`.
pub open spec fn deeper(ind: Seq<char>) -> Seq<char> {
    ind + seq![' ', ' ']
}

/// Pretty JSON text for a value whose enclosing line is indented by `ind`:
/// each item and member on its own line, two more spaces per level,
/// `": "` between key and value, and `[]` / `{}` for empty containers.
pub open spec fn pretty_text(v: JsonValue, ind: Seq<char>) -> Seq<char>
    decreases v, 0nat,
{
    match v {
        JsonValue::Array(items) => if items.len() == 0 {
            seq!['[', ']']
        } else {
            seq!['[', '\n'] + pretty_items(items, items.len(), deeper(ind)) + seq!['\n'] + ind
                + seq![']']
        },
        JsonValue::Object(members) => if members.len() == 0 {
            seq!['{', '}']
        } else {
            seq!['{', '\n'] + pretty_members(members, members.len(), deeper(ind)) + seq!['\n']
                + ind + seq!['}']
        },
        JsonValue::Null => "null"@,
        JsonValue::Bool(b) => if b {
            "true"@
        } else {
            "false"@
        },
        JsonValue::Int(n) => int_text(n),
        JsonValue::Frac(n, d) => json_number_text(n, d),
        JsonValue::Str(s) => quoted(s),
    }
}

/// The first `n` items, one per line at indentation `ind`, comma separated.
pub open spec fn pretty_items(items: Seq<JsonValue>, n: nat, ind: Seq<char>) -> Seq<char>
    decreases items, n,
{
    if n == 0 || n > items.len() {
        seq![]
    } else if n == 1 {
        ind + pretty_text(items[0], ind)
    } else {
        pretty_items(items, (n - 1) as nat, ind) + seq![',', '\n'] + ind + pretty_text(
            items[n - 1],
            ind,
        )
    }
}

/// The first `n` members as `"key": value`, one per line at indentation `ind`.
pub open spec fn pretty_members(members: Seq<(Seq<char>, JsonValue)>, n: nat, ind: Seq<char>) -> Seq<
    char,
>
    decreases members, n,
{
    if n == 0 || n > members.len() {
        seq![]
    } else if n == 1 {
        ind + quoted(members[0].0) + seq![':', ' '] + pretty_text(members[0].1, ind)
    } else {
        pretty_members(members, (n - 1) as nat, ind) + seq![',', '\n'] + ind + quoted(
            members[n - 1].0,
        ) + seq![':', ' '] + pretty_text(members[n - 1].1, ind)
    }
}

/// The content of an ordered list of key/value pairs.
pub open spec fn pairs_view(pairs: Seq<(&str, Json)>) -> Seq<(Seq<char>, JsonValue)> {
    Seq::new(pairs.len(), |i: int| (pairs[i].0@, pairs[i].1@))
}

impl Json {
    /// A string value.
    pub fn str(s: &str) -> (j: Json)
        ensures
            j@ == JsonValue::Str(s@),
    {
        Json::Str(String::from_str(s))
    }

    /// Builds an object from an ordered list of key/value pairs.
    pub fn obj(pairs: Vec<(&str, Json)>) -> (j: Json)
        ensures
            j@ == JsonValue::Object(pairs_view(pairs@)),
    {
        let ghost all = pairs@;
        let mut rest = pairs;
        let mut members: Vec<(String, Json)> = Vec::new();
        while rest.len() > 0
            invariant
                members@.len() + rest@.len() == all.len(),
                rest@ == all.subrange(members@.len() as int, all.len() as int),
                forall|k: int|
                    0 <= k < members@.len() ==> (#[trigger] members@[k]).0@ == all[k].0@
                        && members@[k].1 == all[k].1,
            decreases rest@.len(),
        {
            let (key, value) = rest.remove(0);
            members.push((String::from_str(key), value));
        }
        proof {
            lemma_members_view(members@, members@.len());
        }
        let j = Json::Object(members);
        assert(j@ == JsonValue::Object(members_view(members@, members@.len())));
        assert(members_view(members@, members@.len()) =~= pairs_view(all));
        j
    }

    /// Serializes to compact JSON text (no insignificant whitespace).
    pub fn to_compact(&self) -> (text: String)
        ensures
            text@ == compact_text(self@),
    {
        let mut out = String::new();
        self.write_compact(&mut out);
        assert(out@ =~= compact_text(self@));
        out
    }

    /// Serializes to pretty JSON text with two-space indentation.
    pub fn to_pretty(&self) -> (text: String)
        ensures
            text@ == pretty_text(self@, seq![]),
    {
        let mut out = String::new();
        proof {
            reveal_strlit("");
        }
        self.write_pretty(&mut out, "");
        assert(out@ =~= pretty_text(self@, seq![]));
        out
    }

    fn write_pretty(&self, out: &mut String, ind: &str)
        ensures
            final(out)@ == old(out)@ + pretty_text(self@, ind@),
        decreases self,
    {
        match self {
            Json::Array(items) => {
                if items.len() == 0 {
                    push_char(out, '[');
                    push_char(out, ']');
                    assert(out@ =~= old(out)@ + pretty_text(self@, ind@));
                    return;
                }
                let ghost vs = items_view(items@, items@.len());
                proof {
                    lemma_items_view(items@, items@.len());
                }
                let mut inner = String::from_str(ind);
                push_char(&mut inner, ' ');
                push_char(&mut inner, ' ');
                assert(inner@ =~= deeper(ind@));
                push_char(out, '[');
                push_char(out, '\n');
                let n = items.len();
                let mut i: usize = 0;
                while i < n
                    invariant
                        i <= n == items@.len() == vs.len(),
                        vs == items_view(items@, items@.len()),
                        *self == Json::Array(*items),
                        inner@ == deeper(ind@),
                        forall|k: int| 0 <= k < n ==> #[trigger] vs[k] == json_view(items@[k]),
                        out@ == old(out)@ + seq!['[', '\n'] + pretty_items(vs, i as nat, inner@),
                    decreases n - i,
                {
                    if i > 0 {
                        push_char(out, ',');
                        push_char(out, '\n');
                    }
                    out.append(inner.as_str());
                    assert(decreases_to!(*self => self->Array_0));
                    assert(decreases_to!(*items => items[i as int]));
                    items[i].write_pretty(out, inner.as_str());
                    assert(vs[i as int] == items@[i as int]@);
                    i = i + 1;
                    assert(out@ =~= old(out)@ + seq!['[', '\n'] + pretty_items(vs, i as nat, inner@));
                }
                push_char(out, '\n');
                out.append(ind);
                push_char(out, ']');
                assert(out@ =~= old(out)@ + pretty_text(self@, ind@));
            },
            Json::Object(members) => {
                if members.len() == 0 {
                    push_char(out, '{');
                    push_char(out, '}');
                    assert(out@ =~= old(out)@ + pretty_text(self@, ind@));
                    return;
                }
                let ghost ms = members_view(members@, members@.len());
                proof {
                    lemma_members_view(members@, members@.len());
                }
                let mut inner = String::from_str(ind);
                push_char(&mut inner, ' ');
                push_char(&mut inner, ' ');
                assert(inner@ =~= deeper(ind@));
                push_char(out, '{');
                push_char(out, '\n');
                let n = members.len();
                let mut i: usize = 0;
                while i < n
                    invariant
                        i <= n == members@.len() == ms.len(),
                        ms == members_view(members@, members@.len()),
                        *self == Json::Object(*members),
                        inner@ == deeper(ind@),
                        forall|k: int|
                            0 <= k < n ==> #[trigger] ms[k] == (
                                members@[k].0@,
                                json_view(members@[k].1),
                            ),
                        out@ == old(out)@ + seq!['{', '\n'] + pretty_members(ms, i as nat, inner@),
                    decreases n - i,
                {
                    if i > 0 {
                        push_char(out, ',');
                        push_char(out, '\n');
                    }
                    out.append(inner.as_str());
                    push_quoted(out, members[i].0.as_str());
                    push_char(out, ':');
                    push_char(out, ' ');
                    assert(decreases_to!(*self => self->Object_0));
                    assert(decreases_to!(*members => members[i as int]));
                    assert(decreases_to!(members[i as int] => members[i as int].1));
                    members[i].1.write_pretty(out, inner.as_str());
                    assert(ms[i as int] == (members@[i as int].0@, members@[i as int].1@));
                    i = i + 1;
                    assert(out@ =~= old(out)@ + seq!['{', '\n'] + pretty_members(ms, i as nat, inner@));
                }
                push_char(out, '\n');
                out.append(ind);
                push_char(out, '}');
                assert(out@ =~= old(out)@ + pretty_text(self@, ind@));
            },
            _ => {
                self.write_compact(out);
            },
        }
    }

    fn write_compact(&self, out: &mut String)
        ensures
            final(out)@ == old(out)@ + compact_text(self@),
        decreases self,
    {
        match self {
            Json::Null => {
                out.append("null");
            },
            Json::Bool(b) => {
                if *b {
                    out.append("true");
                } else {
                    out.append("false");
                }
            },
            Json::Int(n) => {
                push_i64(out, *n);
            },
            Json::Frac(f) => {
                push_json_number(out, *f);
            },
            Json::Str(s) => {
                push_quoted(out, s.as_str());
            },
            Json::Array(items) => {
                let ghost vs = items_view(items@, items@.len());
                proof {
                    lemma_items_view(items@, items@.len());
                }
                push_char(out, '[');
                let n = items.len();
                let mut i: usize = 0;
                while i < n
                    invariant
                        i <= n == items@.len() == vs.len(),
                        vs == items_view(items@, items@.len()),
                        *self == Json::Array(*items),
                        forall|k: int| 0 <= k < n ==> #[trigger] vs[k] == json_view(items@[k]),
                        out@ == old(out)@ + seq!['['] + compact_items(vs, i as nat),
                    decreases n - i,
                {
                    if i > 0 {
                        push_char(out, ',');
                    }
                    assert(decreases_to!(*self => self->Array_0));
                    assert(decreases_to!(*items => items[i as int]));
                    items[i].write_compact(out);
                    assert(vs[i as int] == items@[i as int]@);
                    i = i + 1;
                    assert(out@ =~= old(out)@ + seq!['['] + compact_items(vs, i as nat));
                }
                push_char(out, ']');
                assert(out@ =~= old(out)@ + compact_text(self@));
            },
            Json::Object(members) => {
                let ghost ms = members_view(members@, members@.len());
                proof {
                    lemma_members_view(members@, members@.len());
                }
                push_char(out, '{');
                let n = members.len();
                let mut i: usize = 0;
                while i < n
                    invariant
                        i <= n == members@.len() == ms.len(),
                        ms == members_view(members@, members@.len()),
                        *self == Json::Object(*members),
                        forall|k: int|
                            0 <= k < n ==> #[trigger] ms[k] == (
                                members@[k].0@,
                                json_view(members@[k].1),
                            ),
                        out@ == old(out)@ + seq!['{'] + compact_members(ms, i as nat),
                    decreases n - i,
                {
                    if i > 0 {
                        push_char(out, ',');
                    }
                    push_quoted(out, members[i].0.as_str());
                    push_char(out, ':');
                    assert(decreases_to!(*self => self->Object_0));
                    assert(decreases_to!(*members => members[i as int]));
                    assert(decreases_to!(members[i as int] => members[i as int].1));
                    members[i].1.write_compact(out);
                    assert(ms[i as int] == (members@[i as int].0@, members@[i as int].1@));
                    i = i + 1;
                    assert(out@ =~= old(out)@ + seq!['{'] + compact_members(ms, i as nat));
                }
                push_char(out, '}');
                assert(out@ =~= old(out)@ + compact_text(self@));
            },
        }
    }
}

// ----- structure of the serialized text -----

/// Every string in the value (keys included) is free of `{`, `}`, `[` and `]`.
pub open spec fn plain_json(v: JsonValue) -> bool
    decreases v, 0nat,
{
    match v {
        JsonValue::Str(s) => bracket_free(s),
        JsonValue::Array(items) => plain_items(items, items.len()),
        JsonValue::Object(members) => plain_members(members, members.len()),
        _ => true,
    }
}

pub open spec fn plain_items(items: Seq<JsonValue>, n: nat) -> bool
    decreases items, n,
{
    if n == 0 || n > items.len() {
        true
    } else {
        plain_items(items, (n - 1) as nat) && plain_json(items[n - 1])
    }
}

pub open spec fn plain_members(members: Seq<(Seq<char>, JsonValue)>, n: nat) -> bool
    decreases members, n,
{
    if n == 0 || n > members.len() {
        true
    } else {
        plain_members(members, (n - 1) as nat) && bracket_free(members[n - 1].0) && plain_json(
            members[n - 1].1,
        )
    }
}

proof fn lemma_escape_char_bracket_free(c: char)
    requires
        !is_bracket(c),
    ensures
        bracket_free(escape_char(c)),
{
    let e = escape_char(c);
    assert forall|i: int| 0 <= i < e.len() implies !is_bracket(#[trigger] e[i]) by {}
    lemma_bracket_free_chars(e);
}

/// Escaping adds no structure characters.
pub proof fn lemma_escape_bracket_free(s: Seq<char>)
    requires
        bracket_free(s),
    ensures
        bracket_free(escape(s)),
    decreases s.len(),
{
    if s.len() == 0 {
        lemma_bracket_free_chars(escape(s));
    } else {
        lemma_bracket_free_last(s);
        lemma_escape_bracket_free(s.drop_last());
        lemma_escape_char_bracket_free(s.last());
        lemma_bracket_free_concat(escape(s.drop_last()), escape_char(s.last()));
    }
}

pub proof fn lemma_quoted_bracket_free(s: Seq<char>)
    requires
        bracket_free(s),
    ensures
        bracket_free(quoted(s)),
{
    lemma_escape_bracket_free(s);
    lemma_bracket_free_chars(seq!['"']);
    lemma_bracket_free_concat(seq!['"'], escape(s));
    lemma_bracket_free_concat(seq!['"'] + escape(s), seq!['"']);
}

proof fn lemma_scalar_balanced(v: JsonValue)
    requires
        plain_json(v),
        !(v is Array),
        !(v is Object),
    ensures
        balanced(compact_text(v)),
        compact_text(v) == pretty_text(v, seq![]),
{
    match v {
        JsonValue::Null => {
            reveal_strlit("null");
            lemma_bracket_free_chars("null"@);
        },
        JsonValue::Bool(b) => {
            reveal_strlit("true");
            reveal_strlit("false");
            lemma_bracket_free_chars("true"@);
            lemma_bracket_free_chars("false"@);
        },
        JsonValue::Int(n) => {
            lemma_int_text_bracket_free(n);
        },
        JsonValue::Frac(n, d) => {
            lemma_json_number_bracket_free(n, d);
        },
        JsonValue::Str(s) => {
            lemma_quoted_bracket_free(s);
        },
        _ => {},
    }
}

/// Compact JSON text of a value whose strings hold no brackets opens as many
/// braces and brackets as it closes.
pub proof fn lemma_compact_balanced(v: JsonValue)
    requires
        plain_json(v),
    ensures
        balanced(compact_text(v)),
    decreases v, 0nat,
{
    match v {
        JsonValue::Array(items) => {
            lemma_compact_items_balanced(items, items.len());
            lemma_balanced_wrap('[', compact_items(items, items.len()), ']');
        },
        JsonValue::Object(members) => {
            lemma_compact_members_balanced(members, members.len());
            lemma_balanced_wrap('{', compact_members(members, members.len()), '}');
        },
        _ => {
            lemma_scalar_balanced(v);
        },
    }
}

proof fn lemma_compact_items_balanced(items: Seq<JsonValue>, n: nat)
    requires
        plain_items(items, n),
    ensures
        balanced(compact_items(items, n)),
    decreases items, n,
{
    if n == 0 || n > items.len() {
        lemma_bracket_free_chars(seq![]);
    } else if n == 1 {
        lemma_compact_balanced(items[0]);
    } else {
        lemma_compact_items_balanced(items, (n - 1) as nat);
        lemma_compact_balanced(items[n - 1]);
        lemma_bracket_free_chars(seq![',']);
        lemma_balanced_concat(compact_items(items, (n - 1) as nat), seq![',']);
        lemma_balanced_concat(compact_items(items, (n - 1) as nat) + seq![','], compact_text(items[n - 1]));
    }
}

proof fn lemma_compact_member_balanced(key: Seq<char>, value: JsonValue)
    requires
        bracket_free(key),
        balanced(compact_text(value)),
    ensures
        balanced(quoted(key) + seq![':'] + compact_text(value)),
{
    lemma_quoted_bracket_free(key);
    lemma_bracket_free_chars(seq![':']);
    lemma_bracket_free_concat(quoted(key), seq![':']);
    lemma_balanced_concat(quoted(key) + seq![':'], compact_text(value));
}

proof fn lemma_compact_members_balanced(members: Seq<(Seq<char>, JsonValue)>, n: nat)
    requires
        plain_members(members, n),
    ensures
        balanced(compact_members(members, n)),
    decreases members, n,
{
    if n == 0 || n > members.len() {
        lemma_bracket_free_chars(seq![]);
    } else if n == 1 {
        lemma_compact_balanced(members[0].1);
        lemma_compact_member_balanced(members[0].0, members[0].1);
    } else {
        let prev = compact_members(members, (n - 1) as nat);
        let (k, v) = members[n - 1];
        lemma_compact_members_balanced(members, (n - 1) as nat);
        lemma_compact_balanced(v);
        lemma_compact_member_balanced(k, v);
        lemma_bracket_free_chars(seq![',']);
        lemma_balanced_concat(prev, seq![',']);
        lemma_balanced_concat(prev + seq![','], quoted(k) + seq![':'] + compact_text(v));
        assert(compact_members(members, n) =~= (prev + seq![',']) + (quoted(k) + seq![':'] + compact_text(v)));
    }
}

proof fn lemma_deeper_bracket_free(ind: Seq<char>)
    requires
        bracket_free(ind),
    ensures
        bracket_free(deeper(ind)),
{
    lemma_bracket_free_chars(seq![' ', ' ']);
    lemma_bracket_free_concat(ind, seq![' ', ' ']);
}

/// `open` + newline + `body` + newline + `ind` + `close` is balanced.
proof fn lemma_pretty_wrap(open: char, body: Seq<char>, ind: Seq<char>, close: char)
    requires
        balanced(body),
        bracket_free(ind),
        (open == '{' && close == '}') || (open == '[' && close == ']'),
    ensures
        balanced(seq![open, '\n'] + body + seq!['\n'] + ind + seq![close]),
{
    lemma_bracket_free_chars(seq!['\n']);
    lemma_bracket_free_concat(seq!['\n'], ind);
    lemma_bracket_free_balanced(seq!['\n'] + ind);
    lemma_bracket_free_balanced(seq!['\n']);
    lemma_balanced_concat(seq!['\n'], body);
    lemma_balanced_concat(seq!['\n'] + body, seq!['\n'] + ind);
    let inner = seq!['\n'] + body + (seq!['\n'] + ind);
    lemma_balanced_wrap(open, inner, close);
    assert(seq![open, '\n'] + body + seq!['\n'] + ind + seq![close] =~= seq![open] + inner + seq![close]);
}

/// Pretty JSON text of a value whose strings hold no brackets opens as many
/// braces and brackets as it closes.
pub proof fn lemma_pretty_balanced(v: JsonValue, ind: Seq<char>)
    requires
        plain_json(v),
        bracket_free(ind),
    ensures
        balanced(pretty_text(v, ind)),
    decreases v, 0nat,
{
    match v {
        JsonValue::Array(items) => {
            if items.len() == 0 {
                lemma_bracket_free_chars(seq![]);
                lemma_balanced_wrap('[', seq![], ']');
                assert(seq!['['] + Seq::<char>::empty() + seq![']'] =~= seq!['[', ']']);
            } else {
                lemma_deeper_bracket_free(ind);
                lemma_pretty_items_balanced(items, items.len(), deeper(ind));
                lemma_pretty_wrap('[', pretty_items(items, items.len(), deeper(ind)), ind, ']');
            }
        },
        JsonValue::Object(members) => {
            if members.len() == 0 {
                lemma_bracket_free_chars(seq![]);
                lemma_balanced_wrap('{', seq![], '}');
                assert(seq!['{'] + Seq::<char>::empty() + seq!['}'] =~= seq!['{', '}']);
            } else {
                lemma_deeper_bracket_free(ind);
                lemma_pretty_members_balanced(members, members.len(), deeper(ind));
                lemma_pretty_wrap('{', pretty_members(members, members.len(), deeper(ind)), ind, '}');
            }
        },
        _ => {
            lemma_scalar_balanced(v);
        },
    }
}

proof fn lemma_pretty_items_balanced(items: Seq<JsonValue>, n: nat, ind: Seq<char>)
    requires
        plain_items(items, n),
        bracket_free(ind),
    ensures
        balanced(pretty_items(items, n, ind)),
    decreases items, n,
{
    lemma_bracket_free_balanced(ind);
    if n == 0 || n > items.len() {
        lemma_bracket_free_chars(seq![]);
    } else if n == 1 {
        lemma_pretty_balanced(items[0], ind);
        lemma_balanced_concat(ind, pretty_text(items[0], ind));
    } else {
        let prev = pretty_items(items, (n - 1) as nat, ind);
        lemma_pretty_items_balanced(items, (n - 1) as nat, ind);
        lemma_pretty_balanced(items[n - 1], ind);
        lemma_bracket_free_chars(seq![',', '\n']);
        lemma_balanced_concat(prev, seq![',', '\n']);
        lemma_balanced_concat(prev + seq![',', '\n'], ind);
        lemma_balanced_concat(prev + seq![',', '\n'] + ind, pretty_text(items[n - 1], ind));
    }
}

proof fn lemma_pretty_member_balanced(key: Seq<char>, value: JsonValue, ind: Seq<char>)
    requires
        bracket_free(key),
        bracket_free(ind),
        balanced(pretty_text(value, ind)),
    ensures
        balanced(ind + quoted(key) + seq![':', ' '] + pretty_text(value, ind)),
{
    lemma_quoted_bracket_free(key);
    lemma_bracket_free_chars(seq![':', ' ']);
    lemma_bracket_free_concat(ind, quoted(key));
    lemma_bracket_free_concat(ind + quoted(key), seq![':', ' ']);
    lemma_balanced_concat(ind + quoted(key) + seq![':', ' '], pretty_text(value, ind));
}

proof fn lemma_pretty_members_balanced(members: Seq<(Seq<char>, JsonValue)>, n: nat, ind: Seq<char>)
    requires
        plain_members(members, n),
        bracket_free(ind),
    ensures
        balanced(pretty_members(members, n, ind)),
    decreases members, n,
{
    if n == 0 || n > members.len() {
        lemma_bracket_free_chars(seq![]);
    } else if n == 1 {
        lemma_pretty_balanced(members[0].1, ind);
        lemma_pretty_member_balanced(members[0].0, members[0].1, ind);
    } else {
        let prev = pretty_members(members, (n - 1) as nat, ind);
        let (k, v) = members[n - 1];
        lemma_pretty_members_balanced(members, (n - 1) as nat, ind);
        lemma_pretty_balanced(v, ind);
        lemma_pretty_member_balanced(k, v, ind);
        lemma_bracket_free_chars(seq![',', '\n']);
        lemma_balanced_concat(prev, seq![',', '\n']);
        lemma_balanced_concat(prev + seq![',', '\n'], ind + quoted(k) + seq![':', ' '] + pretty_text(v, ind));
        assert(pretty_members(members, n, ind) =~= (prev + seq![',', '\n']) + (ind + quoted(k) + seq![':', ' '] + pretty_text(v, ind)));
    }
}

/// Items each of whose strings are bracket free form plain items.
pub proof fn lemma_plain_items_all(items: Seq<JsonValue>, n: nat)
    requires
        n <= items.len(),
        forall|k: int| 0 <= k < n ==> plain_json(#[trigger] items[k]),
    ensures
        plain_items(items, n),
    decreases n,
{
    if n > 0 {
        lemma_plain_items_all(items, (n - 1) as nat);
    }
}

/// Members with bracket-free keys and plain values are plain members.
pub proof fn lemma_plain_members_all(members: Seq<(Seq<char>, JsonValue)>, n: nat)
    requires
        n <= members.len(),
        forall|k: int|
            0 <= k < n ==> bracket_free(#[trigger] members[k].0) && plain_json(members[k].1),
    ensures
        plain_members(members, n),
    decreases n,
{
    if n > 0 {
        lemma_plain_members_all(members, (n - 1) as nat);
    }
}

/// Whether `c` needs an escape sequence inside a JSON string.
pub open spec fn needs_escape(c: char) -> bool {
    c == '"' || c == '\\' || (c as nat) < 32
}

/// Text without characters that need escaping is written as it is.
pub proof fn lemma_escape_identity(s: Seq<char>)
    requires
        forall|i: int| 0 <= i < s.len() ==> !needs_escape(#[trigger] s[i]),
    ensures
        escape(s) == s,
    decreases s.len(),
{
    if s.len() > 0 {
        lemma_escape_identity(s.drop_last());
        assert(s.drop_last().push(s.last()) =~= s);
    }
}

// ----- a reader decodes what was written -----

/// The value of a lower-case hexadecimal digit character.
pub open spec fn hex_value(c: char) -> nat {
    if '0' <= c && c <= '9' {
        ((c as int) - 48) as nat
    } else {
        ((c as int) - 87) as nat
    }
}

/// The character that one escape letter after a backslash stands for.
pub open spec fn escaped_letter(e: char) -> char {
    if e == 'n' {
        '\n'
    } else if e == 'r' {
        '\r'
    } else if e == 't' {
        '\t'
    } else if e == 'b' {
        '\x08'
    } else if e == 'f' {
        '\x0c'
    } else {
        e
    }
}

/// What a JSON reader decodes from the body of a string literal: escape
/// sequences become the characters they stand for, other characters stay.
pub open spec fn unescape(s: Seq<char>) -> Seq<char>
    decreases s.len(),
{
    if s.len() == 0 {
        seq![]
    } else if s[0] == '\\' && s.len() >= 6 && s[1] == 'u' {
        let v = hex_value(s[2]) * 4096 + hex_value(s[3]) * 256 + hex_value(s[4]) * 16 + hex_value(s[5]);
        seq![v as char] + unescape(s.subrange(6, s.len() as int))
    } else if s[0] == '\\' && s.len() >= 2 {
        seq![escaped_letter(s[1])] + unescape(s.subrange(2, s.len() as int))
    } else {
        seq![s[0]] + unescape(s.subrange(1, s.len() as int))
    }
}

proof fn lemma_escape_concat(a: Seq<char>, b: Seq<char>)
    ensures
        escape(a + b) == escape(a) + escape(b),
    decreases b.len(),
{
    if b.len() == 0 {
        assert(a + b =~= a);
        assert(escape(a) + escape(b) =~= escape(a));
    } else {
        lemma_escape_concat(a, b.drop_last());
        assert((a + b).drop_last() =~= a + b.drop_last());
        assert((a + b).last() == b.last());
        assert(escape(a) + escape(b.drop_last()) + escape_char(b.last()) =~= escape(a) + (escape(b.drop_last())
            + escape_char(b.last())));
    }
}

proof fn lemma_hex_value(d: nat)
    requires
        d < 16,
    ensures
        hex_value(hex_char(d)) == d,
{
}

proof fn lemma_unescape_char(c: char, rest: Seq<char>)
    ensures
        unescape(escape_char(c) + rest) == seq![c] + unescape(rest),
{
    let e = escape_char(c);
    let s = e + rest;
    if e.len() == 2 {
        assert(s.subrange(2, s.len() as int) =~= rest);
        assert(s[0] == '\\');
    } else if e.len() == 6 {
        let n = c as nat;
        lemma_hex_value(n / 16);
        lemma_hex_value(n % 16);
        assert(s.subrange(6, s.len() as int) =~= rest);
        assert(hex_value('0') == 0);
        assert(hex_value(s[2]) * 4096 + hex_value(s[3]) * 256 + hex_value(s[4]) * 16 + hex_value(s[5]) == n);
        assert((n as char) == c);
    } else {
        assert(s.subrange(1, s.len() as int) =~= rest);
    }
}

/// A reader of a JSON string literal that this library wrote gets back the
/// text it was written from, character for character.
pub proof fn escaped_text_reads_back(s: Seq<char>)
    ensures
        unescape(escape(s)) == s,
    decreases s.len(),
{
    if s.len() > 0 {
        let head = seq![s[0]];
        let tail = s.drop_first();
        escaped_text_reads_back(tail);
        lemma_escape_concat(head, tail);
        assert(head + tail =~= s);
        assert(head.drop_last() =~= Seq::<char>::empty());
        assert(head.last() == s[0]);
        assert(escape(head) =~= escape(Seq::<char>::empty()) + escape_char(s[0]));
        assert(escape(Seq::<char>::empty()) + escape_char(s[0]) =~= escape_char(s[0]));
        lemma_unescape_char(s[0], escape(tail));
        assert(seq![s[0]] + tail =~= s);
    }
}

/// What the first `k` members contain, all `n >= k` members contain.
pub proof fn lemma_compact_members_grow(members: Seq<(Seq<char>, JsonValue)>, k: nat, n: nat, part: Seq<char>)
    requires
        1 <= k <= n <= members.len(),
        contains(compact_members(members, k), part),
    ensures
        contains(compact_members(members, n), part),
    decreases n,
{
    if n > k {
        lemma_compact_members_grow(members, k, (n - 1) as nat, part);
        let prev = compact_members(members, (n - 1) as nat);
        let rest = seq![','] + quoted(members[n - 1].0) + seq![':'] + compact_text(members[n - 1].1);
        lemma_contains_extend(seq![], prev, part, rest);
        assert(seq![] + prev + rest =~= compact_members(members, n));
    }
}

/// What the first `k` members contain, all `n >= k` members contain.
pub proof fn lemma_pretty_members_grow(
    members: Seq<(Seq<char>, JsonValue)>,
    k: nat,
    n: nat,
    ind: Seq<char>,
    part: Seq<char>,
)
    requires
        1 <= k <= n <= members.len(),
        contains(pretty_members(members, k, ind), part),
    ensures
        contains(pretty_members(members, n, ind), part),
    decreases n,
{
    if n > k {
        lemma_pretty_members_grow(members, k, (n - 1) as nat, ind, part);
        let prev = pretty_members(members, (n - 1) as nat, ind);
        let rest = seq![',', '\n'] + ind + quoted(members[n - 1].0) + seq![':', ' '] + pretty_text(
            members[n - 1].1,
            ind,
        );
        lemma_contains_extend(seq![], prev, part, rest);
        assert(seq![] + prev + rest =~= pretty_members(members, n, ind));
    }
}

// ----- each member shows in the text -----

proof fn lemma_compact_members_prefix(members: Seq<(Seq<char>, JsonValue)>, n: nat)
    requires
        1 <= n <= members.len(),
    ensures
        compact_members(members, 1).len() <= compact_members(members, n).len(),
        compact_members(members, n).subrange(0, compact_members(members, 1).len() as int) == compact_members(members, 1),
    decreases n,
{
    if n > 1 {
        lemma_compact_members_prefix(members, (n - 1) as nat);
        let prev = compact_members(members, (n - 1) as nat);
        let rest = seq![','] + quoted(members[n - 1].0) + seq![':'] + compact_text(members[n - 1].1);
        assert(compact_members(members, n) =~= prev + rest);
        assert((prev + rest).subrange(0, compact_members(members, 1).len() as int) =~= prev.subrange(0, compact_members(members, 1).len() as int));
    }
}

proof fn lemma_pretty_members_prefix(members: Seq<(Seq<char>, JsonValue)>, n: nat, ind: Seq<char>)
    requires
        1 <= n <= members.len(),
    ensures
        pretty_members(members, 1, ind).len() <= pretty_members(members, n, ind).len(),
        pretty_members(members, n, ind).subrange(0, pretty_members(members, 1, ind).len() as int) == pretty_members(members, 1, ind),
    decreases n,
{
    if n > 1 {
        lemma_pretty_members_prefix(members, (n - 1) as nat, ind);
        let prev = pretty_members(members, (n - 1) as nat, ind);
        let rest = seq![',', '\n'] + ind + quoted(members[n - 1].0) + seq![':', ' '] + pretty_text(members[n - 1].1, ind);
        assert(pretty_members(members, n, ind) =~= prev + rest);
        assert((prev + rest).subrange(0, pretty_members(members, 1, ind).len() as int) =~= prev.subrange(0, pretty_members(members, 1, ind).len() as int));
    }
}

proof fn lemma_prefix_wrap(open: Seq<char>, all: Seq<char>, first: Seq<char>, close: Seq<char>)
    requires
        first.len() <= all.len(),
        all.subrange(0, first.len() as int) == first,
    ensures
        (open + all + close).subrange(0, (open.len() + first.len()) as int) == open + first,
{
    let t = open + all + close;
    assert forall|j: int| 0 <= j < open.len() + first.len() implies #[trigger] t.subrange(0, (open.len() + first.len()) as int)[j] == (open + first)[j] by {
        if j >= open.len() {
            assert(all.subrange(0, first.len() as int)[j - open.len()] == all[j - open.len()]);
        }
    }
    assert(t.subrange(0, (open.len() + first.len()) as int) =~= open + first);
}

#[verifier::rlimit(50)]
proof fn lemma_compact_member_shown(members: Seq<(Seq<char>, JsonValue)>, i: int)
    requires
        0 <= i < members.len(),
    ensures
        contains(
            compact_text(JsonValue::Object(members)),
            (if i == 0 { seq!['{'] } else { seq![','] }) + quoted(members[i].0) + seq![':'] + compact_text(members[i].1),
        ),
{
    let n = members.len();
    let key = quoted(members[i].0);
    let part = (if i == 0 { seq!['{'] } else { seq![','] }) + key + seq![':'] + compact_text(members[i].1);
    let all = compact_members(members, n);
    let text = compact_text(JsonValue::Object(members));
    assert(text == seq!['{'] + all + seq!['}']);
    if i == 0 {
        lemma_compact_members_prefix(members, n);
        let first = compact_members(members, 1);
        assert(first == key + seq![':'] + compact_text(members[0].1));
        assert(part =~= seq!['{'] + first);
        lemma_prefix_wrap(seq!['{'], all, first, seq!['}']);
        assert(text.subrange(0, 0 + part.len() as int) == part);
    } else {
        let k = (i + 1) as nat;
        let prev = compact_members(members, i as nat);
        assert(compact_members(members, k) =~= prev + part);
        lemma_contains_middle(prev, part, seq![]);
        assert(prev + part + seq![] =~= prev + part);
        lemma_compact_members_grow(members, k, n, part);
        lemma_contains_extend(seq!['{'], all, part, seq!['}']);
    }
}

#[verifier::rlimit(50)]
proof fn lemma_pretty_member_shown(members: Seq<(Seq<char>, JsonValue)>, i: int, ind: Seq<char>)
    requires
        0 <= i < members.len(),
    ensures
        contains(
            pretty_text(JsonValue::Object(members), ind),
            (if i == 0 { seq!['{', '\n'] } else { seq![',', '\n'] }) + ind + seq![' ', ' '] + quoted(members[i].0) + seq![
                ':',
                ' ',
            ] + pretty_text(members[i].1, ind + seq![' ', ' ']),
        ),
{
    let n = members.len();
    let d = deeper(ind);
    let key = quoted(members[i].0);
    let part = (if i == 0 { seq!['{', '\n'] } else { seq![',', '\n'] }) + ind + seq![' ', ' '] + key + seq![':', ' ']
        + pretty_text(members[i].1, d);
    let all = pretty_members(members, n, d);
    let close = seq!['\n'] + ind + seq!['}'];
    let text = pretty_text(JsonValue::Object(members), ind);
    assert(text =~= seq!['{', '\n'] + all + close);
    if i == 0 {
        lemma_pretty_members_prefix(members, n, d);
        let first = pretty_members(members, 1, d);
        assert(first == d + key + seq![':', ' '] + pretty_text(members[0].1, d));
        assert(part =~= seq!['{', '\n'] + first);
        lemma_prefix_wrap(seq!['{', '\n'], all, first, close);
        assert(text.subrange(0, 0 + part.len() as int) == part);
    } else {
        let k = (i + 1) as nat;
        let prev = pretty_members(members, i as nat, d);
        assert(pretty_members(members, k, d) =~= prev + part);
        lemma_contains_middle(prev, part, seq![]);
        assert(prev + part + seq![] =~= prev + part);
        lemma_pretty_members_grow(members, k, n, d, part);
        lemma_contains_extend(seq!['{', '\n'], all, part, close);
    }
}

/// In compact JSON text, each member of an object shows as its quoted key, a
/// colon and its value's text, right after the opening brace (the first
/// member) or after a comma (the others). In pretty text at indentation
/// `ind`, each member starts a line of its own, indented two spaces deeper,
/// with its quoted key, a colon, a space and its value's pretty text.
pub proof fn object_text_shows_each_member(members: Seq<(Seq<char>, JsonValue)>, i: int, ind: Seq<char>)
    requires
        0 <= i < members.len(),
    ensures
        contains(
            compact_text(JsonValue::Object(members)),
            (if i == 0 { seq!['{'] } else { seq![','] }) + quoted(members[i].0) + seq![':'] + compact_text(members[i].1),
        ),
        contains(
            pretty_text(JsonValue::Object(members), ind),
            (if i == 0 { seq!['{', '\n'] } else { seq![',', '\n'] }) + ind + seq![' ', ' '] + quoted(members[i].0) + seq![
                ':',
                ' ',
            ] + pretty_text(members[i].1, ind + seq![' ', ' ']),
        ),
{
    lemma_compact_member_shown(members, i);
    lemma_pretty_member_shown(members, i, ind);
}

// ----- pretty and compact text agree -----

/// Where a left-to-right reading of JSON text stands.
pub enum ScanState {
    /// Between tokens.
    Outside,
    /// Inside a string literal.
    InString,
    /// Right after a backslash inside a string literal.
    Escaped,
}

/// The reading state after the character `c`.
pub open spec fn next_state(c: char, st: ScanState) -> ScanState {
    match st {
        ScanState::Outside => if c == '"' {
            ScanState::InString
        } else {
            ScanState::Outside
        },
        ScanState::InString => if c == '\\' {
            ScanState::Escaped
        } else if c == '"' {
            ScanState::Outside
        } else {
            ScanState::InString
        },
        ScanState::Escaped => ScanState::InString,
    }
}

/// What is left of `s`, read from state `st`, once the JSON whitespace that
/// stands outside string literals is dropped.
pub open spec fn scan_kept(s: Seq<char>, st: ScanState) -> Seq<char>
    decreases s.len(),
{
    if s.len() == 0 {
        seq![]
    } else {
        let c = s[0];
        let head: Seq<char> = if st == ScanState::Outside && is_json_space(c) {
            seq![]
        } else {
            seq![c]
        };
        head + scan_kept(s.drop_first(), next_state(c, st))
    }
}

/// The reading state after all of `s`, read from state `st`.
pub open spec fn scan_end(s: Seq<char>, st: ScanState) -> ScanState
    decreases s.len(),
{
    if s.len() == 0 {
        st
    } else {
        scan_end(s.drop_first(), next_state(s[0], st))
    }
}

/// JSON text without the whitespace that stands outside string literals.
pub open spec fn strip_json_layout(s: Seq<char>) -> Seq<char> {
    scan_kept(s, ScanState::Outside)
}

/// Read from outside any string, `s` leaves `t` and ends outside any string.
pub open spec fn reads_as(s: Seq<char>, t: Seq<char>) -> bool {
    scan_kept(s, ScanState::Outside) == t && scan_end(s, ScanState::Outside) == ScanState::Outside
}

/// Read from inside a string literal, `s` is kept whole and ends inside it.
pub open spec fn string_body(s: Seq<char>) -> bool {
    scan_kept(s, ScanState::InString) == s && scan_end(s, ScanState::InString) == ScanState::InString
}

/// Reading `a + b` is reading `a`, then `b` from where `a` left off.
pub proof fn lemma_scan_concat(a: Seq<char>, b: Seq<char>, st: ScanState)
    ensures
        scan_kept(a + b, st) == scan_kept(a, st) + scan_kept(b, scan_end(a, st)),
        scan_end(a + b, st) == scan_end(b, scan_end(a, st)),
    decreases a.len(),
{
    if a.len() == 0 {
        assert(a + b =~= b);
        assert(scan_kept(a, st) + scan_kept(b, st) =~= scan_kept(b, st));
    } else {
        let c = a[0];
        lemma_scan_concat(a.drop_first(), b, next_state(c, st));
        assert((a + b)[0] == c);
        assert((a + b).drop_first() =~= a.drop_first() + b);
        let head: Seq<char> = if st == ScanState::Outside && is_json_space(c) {
            seq![]
        } else {
            seq![c]
        };
        assert(scan_kept(a + b, st) =~= head + (scan_kept(a.drop_first(), next_state(c, st)) + scan_kept(
            b,
            scan_end(a.drop_first(), next_state(c, st)),
        )));
    }
}

proof fn lemma_reads_as_concat(a: Seq<char>, ta: Seq<char>, b: Seq<char>, tb: Seq<char>)
    requires
        reads_as(a, ta),
        reads_as(b, tb),
    ensures
        reads_as(a + b, ta + tb),
{
    lemma_scan_concat(a, b, ScanState::Outside);
}

proof fn lemma_string_body_concat(a: Seq<char>, b: Seq<char>)
    requires
        string_body(a),
        string_body(b),
    ensures
        string_body(a + b),
{
    lemma_scan_concat(a, b, ScanState::InString);
}

/// Text without whitespace and quotes reads as itself.
proof fn lemma_bare_reads_as(s: Seq<char>)
    requires
        bare_text(s),
    ensures
        reads_as(s, s),
    decreases s.len(),
{
    if s.len() > 0 {
        let rest = s.drop_first();
        assert(bare_text(rest)) by {
            assert forall|i: int| 0 <= i < rest.len() implies !is_json_space(#[trigger] rest[i]) && rest[i] != '"' by {
                assert(rest[i] == s[i + 1]);
            }
        }
        lemma_bare_reads_as(rest);
        assert(!is_json_space(s[0]) && s[0] != '"');
        assert(next_state(s[0], ScanState::Outside) == ScanState::Outside);
        assert(scan_kept(s, ScanState::Outside) == seq![s[0]] + scan_kept(rest, ScanState::Outside));
        assert(seq![s[0]] + rest =~= s);
    } else {
        assert(s =~= Seq::<char>::empty());
    }
}

/// Indentation (spaces only) reads as nothing.
proof fn lemma_indent_reads_as(ind: Seq<char>)
    requires
        forall|i: int| 0 <= i < ind.len() ==> #[trigger] ind[i] == ' ',
    ensures
        reads_as(ind, seq![]),
    decreases ind.len(),
{
    if ind.len() > 0 {
        let rest = ind.drop_first();
        assert forall|i: int| 0 <= i < rest.len() implies #[trigger] rest[i] == ' ' by {
            assert(rest[i] == ind[i + 1]);
        }
        lemma_indent_reads_as(rest);
        assert(is_json_space(ind[0]));
        assert(Seq::<char>::empty() + scan_kept(rest, ScanState::Outside) =~= seq![]);
    }
}

proof fn lemma_punctuation_reads_as()
    ensures
        reads_as(seq!['[', '\n'], seq!['[']),
        reads_as(seq!['{', '\n'], seq!['{']),
        reads_as(seq!['\n'], seq![]),
        reads_as(seq![']'], seq![']']),
        reads_as(seq!['}'], seq!['}']),
        reads_as(seq![',', '\n'], seq![',']),
        reads_as(seq![':', ' '], seq![':']),
        reads_as(seq!['[', ']'], seq!['[', ']']),
        reads_as(seq!['{', '}'], seq!['{', '}']),
{
    reveal_with_fuel(scan_kept, 3);
    reveal_with_fuel(scan_end, 3);
    assert(seq!['[', '\n'].drop_first() =~= seq!['\n']);
    assert(seq!['{', '\n'].drop_first() =~= seq!['\n']);
    assert(seq![',', '\n'].drop_first() =~= seq!['\n']);
    assert(seq![':', ' '].drop_first() =~= seq![' ']);
    assert(seq!['[', ']'].drop_first() =~= seq![']']);
    assert(seq!['{', '}'].drop_first() =~= seq!['}']);
    assert(seq!['\n'].drop_first() =~= Seq::<char>::empty());
    assert(seq![' '].drop_first() =~= Seq::<char>::empty());
    assert(seq![']'].drop_first() =~= Seq::<char>::empty());
    assert(seq!['}'].drop_first() =~= Seq::<char>::empty());
    assert(seq!['['] + (Seq::<char>::empty() + Seq::<char>::empty()) =~= seq!['[']);
    assert(seq!['{'] + (Seq::<char>::empty() + Seq::<char>::empty()) =~= seq!['{']);
    assert(seq![','] + (Seq::<char>::empty() + Seq::<char>::empty()) =~= seq![',']);
    assert(seq![':'] + (Seq::<char>::empty() + Seq::<char>::empty()) =~= seq![':']);
    assert(Seq::<char>::empty() + Seq::<char>::empty() =~= Seq::<char>::empty());
    assert(seq![']'] + Seq::<char>::empty() =~= seq![']']);
    assert(seq!['}'] + Seq::<char>::empty() =~= seq!['}']);
    assert(seq!['['] + (seq![']'] + Seq::<char>::empty()) =~= seq!['[', ']']);
    assert(seq!['{'] + (seq!['}'] + Seq::<char>::empty()) =~= seq!['{', '}']);
}

/// The escape of one character stays inside the string literal.
proof fn lemma_escape_char_string_body(c: char)
    ensures
        string_body(escape_char(c)),
{
    let e = escape_char(c);
    reveal_with_fuel(scan_kept, 7);
    reveal_with_fuel(scan_end, 7);
    if e.len() == 2 {
        assert(e.drop_first() =~= seq![e[1]]);
        assert(seq![e[1]].drop_first() =~= Seq::<char>::empty());
        assert(seq![e[0]] + (seq![e[1]] + Seq::<char>::empty()) =~= e);
    } else if e.len() == 6 {
        let e1 = e.drop_first();
        let e2 = e1.drop_first();
        let e3 = e2.drop_first();
        let e4 = e3.drop_first();
        let e5 = e4.drop_first();
        assert(e1 =~= seq![e[1], e[2], e[3], e[4], e[5]]);
        assert(e2 =~= seq![e[2], e[3], e[4], e[5]]);
        assert(e3 =~= seq![e[3], e[4], e[5]]);
        assert(e4 =~= seq![e[4], e[5]]);
        assert(e5 =~= seq![e[5]]);
        assert(e5.drop_first() =~= Seq::<char>::empty());
        assert(seq![e[0]] + (seq![e[1]] + (seq![e[2]] + (seq![e[3]] + (seq![e[4]] + (seq![e[5]]
            + Seq::<char>::empty()))))) =~= e);
    } else {
        assert(e =~= seq![c]);
        assert(e.drop_first() =~= Seq::<char>::empty());
        assert(seq![c] + Seq::<char>::empty() =~= e);
    }
}

/// Escaped text stays inside the string literal and is kept whole.
proof fn lemma_escape_string_body(s: Seq<char>)
    ensures
        string_body(escape(s)),
    decreases s.len(),
{
    if s.len() == 0 {
        assert(escape(s) =~= Seq::<char>::empty());
    } else {
        lemma_escape_string_body(s.drop_last());
        lemma_escape_char_string_body(s.last());
        lemma_string_body_concat(escape(s.drop_last()), escape_char(s.last()));
    }
}

/// A string literal reads as itself, whatever it holds.
proof fn lemma_quoted_reads_as(s: Seq<char>)
    ensures
        reads_as(quoted(s), quoted(s)),
{
    let body = escape(s);
    lemma_escape_string_body(s);
    reveal_with_fuel(scan_kept, 2);
    reveal_with_fuel(scan_end, 2);
    assert(seq!['"'].drop_first() =~= Seq::<char>::empty());
    assert(scan_kept(seq!['"'], ScanState::Outside) =~= seq!['"']);
    assert(scan_kept(seq!['"'], ScanState::InString) =~= seq!['"']);
    lemma_scan_concat(seq!['"'], body, ScanState::Outside);
    lemma_scan_concat(seq!['"'] + body, seq!['"'], ScanState::Outside);
}

proof fn lemma_scalar_reads_as(v: JsonValue)
    requires
        !(v is Array),
        !(v is Object),
    ensures
        reads_as(compact_text(v), compact_text(v)),
        forall|ind: Seq<char>| pretty_text(v, ind) == compact_text(v),
{
    match v {
        JsonValue::Null => {
            reveal_strlit("null");
            lemma_bare_reads_as("null"@);
        },
        JsonValue::Bool(b) => {
            reveal_strlit("true");
            reveal_strlit("false");
            lemma_bare_reads_as("true"@);
            lemma_bare_reads_as("false"@);
        },
        JsonValue::Int(n) => {
            lemma_int_text_bare(n);
            lemma_bare_reads_as(int_text(n));
        },
        JsonValue::Frac(n, d) => {
            lemma_json_number_bare(n, d);
            lemma_bare_reads_as(json_number_text(n, d));
        },
        JsonValue::Str(s) => {
            lemma_quoted_reads_as(s);
        },
        _ => {},
    }
}

/// Indentation is made of spaces only.
pub open spec fn is_indent(ind: Seq<char>) -> bool {
    forall|i: int| 0 <= i < ind.len() ==> #[trigger] ind[i] == ' '
}

proof fn lemma_deeper_indent(ind: Seq<char>)
    requires
        is_indent(ind),
    ensures
        is_indent(deeper(ind)),
{
    assert forall|i: int| 0 <= i < deeper(ind).len() implies #[trigger] deeper(ind)[i] == ' ' by {
        if i < ind.len() {
            assert(deeper(ind)[i] == ind[i]);
        }
    }
}

/// Pretty JSON text, read with the whitespace outside string literals dropped,
/// is the compact text of the same value, whatever the strings hold.
pub proof fn lemma_pretty_reads_as_compact(v: JsonValue, ind: Seq<char>)
    requires
        is_indent(ind),
    ensures
        reads_as(pretty_text(v, ind), compact_text(v)),
    decreases v, 0nat,
{
    lemma_punctuation_reads_as();
    match v {
        JsonValue::Array(items) => {
            if items.len() == 0 {
                assert(compact_text(v) =~= seq!['[', ']']);
            } else {
                let inner = deeper(ind);
                lemma_deeper_indent(ind);
                lemma_indent_reads_as(ind);
                lemma_pretty_items_reads_as(items, items.len(), inner);
                let body = pretty_items(items, items.len(), inner);
                let c = compact_items(items, items.len());
                lemma_reads_as_concat(seq!['[', '\n'], seq!['['], body, c);
                lemma_reads_as_concat(seq!['[', '\n'] + body, seq!['['] + c, seq!['\n'], seq![]);
                lemma_reads_as_concat(seq!['[', '\n'] + body + seq!['\n'], seq!['['] + c + seq![], ind, seq![]);
                lemma_reads_as_concat(
                    seq!['[', '\n'] + body + seq!['\n'] + ind,
                    seq!['['] + c + seq![] + seq![],
                    seq![']'],
                    seq![']'],
                );
                assert(seq!['['] + c + Seq::<char>::empty() + Seq::<char>::empty() + seq![']'] =~= compact_text(v));
            }
        },
        JsonValue::Object(members) => {
            if members.len() == 0 {
                assert(compact_text(v) =~= seq!['{', '}']);
            } else {
                let inner = deeper(ind);
                lemma_deeper_indent(ind);
                lemma_indent_reads_as(ind);
                lemma_pretty_members_reads_as(members, members.len(), inner);
                let body = pretty_members(members, members.len(), inner);
                let c = compact_members(members, members.len());
                lemma_reads_as_concat(seq!['{', '\n'], seq!['{'], body, c);
                lemma_reads_as_concat(seq!['{', '\n'] + body, seq!['{'] + c, seq!['\n'], seq![]);
                lemma_reads_as_concat(seq!['{', '\n'] + body + seq!['\n'], seq!['{'] + c + seq![], ind, seq![]);
                lemma_reads_as_concat(
                    seq!['{', '\n'] + body + seq!['\n'] + ind,
                    seq!['{'] + c + seq![] + seq![],
                    seq!['}'],
                    seq!['}'],
                );
                assert(seq!['{'] + c + Seq::<char>::empty() + Seq::<char>::empty() + seq!['}'] =~= compact_text(v));
            }
        },
        _ => {
            lemma_scalar_reads_as(v);
        },
    }
}

proof fn lemma_pretty_items_reads_as(items: Seq<JsonValue>, n: nat, ind: Seq<char>)
    requires
        is_indent(ind),
    ensures
        reads_as(pretty_items(items, n, ind), compact_items(items, n)),
    decreases items, n,
{
    lemma_indent_reads_as(ind);
    if n == 0 || n > items.len() {
        reveal_with_fuel(scan_kept, 1);
        reveal_with_fuel(scan_end, 1);
    } else {
        let item = pretty_text(items[n - 1], ind);
        lemma_pretty_reads_as_compact(items[n - 1], ind);
        lemma_reads_as_concat(ind, seq![], item, compact_text(items[n - 1]));
        assert(Seq::<char>::empty() + compact_text(items[n - 1]) =~= compact_text(items[n - 1]));
        if n > 1 {
            let prev = pretty_items(items, (n - 1) as nat, ind);
            let cprev = compact_items(items, (n - 1) as nat);
            lemma_pretty_items_reads_as(items, (n - 1) as nat, ind);
            lemma_punctuation_reads_as();
            lemma_reads_as_concat(prev, cprev, seq![',', '\n'], seq![',']);
            lemma_reads_as_concat(prev + seq![',', '\n'], cprev + seq![','], ind + item, compact_text(items[n - 1]));
            assert(prev + seq![',', '\n'] + (ind + item) =~= pretty_items(items, n, ind));
        }
    }
}

proof fn lemma_separated_reads_as(prev: Seq<char>, cprev: Seq<char>, next: Seq<char>, cnext: Seq<char>)
    requires
        reads_as(prev, cprev),
        reads_as(next, cnext),
    ensures
        reads_as(prev + seq![',', '\n'] + next, cprev + seq![','] + cnext),
{
    lemma_punctuation_reads_as();
    lemma_reads_as_concat(prev, cprev, seq![',', '\n'], seq![',']);
    lemma_reads_as_concat(prev + seq![',', '\n'], cprev + seq![','], next, cnext);
}

proof fn lemma_member_reads_as(k: Seq<char>, v: JsonValue, ind: Seq<char>)
    requires
        is_indent(ind),
        reads_as(pretty_text(v, ind), compact_text(v)),
    ensures
        reads_as(ind + quoted(k) + seq![':', ' '] + pretty_text(v, ind), quoted(k) + seq![':'] + compact_text(v)),
{
    lemma_indent_reads_as(ind);
    lemma_quoted_reads_as(k);
    lemma_punctuation_reads_as();
    lemma_reads_as_concat(ind, seq![], quoted(k), quoted(k));
    assert(Seq::<char>::empty() + quoted(k) =~= quoted(k));
    lemma_reads_as_concat(ind + quoted(k), quoted(k), seq![':', ' '], seq![':']);
    lemma_reads_as_concat(ind + quoted(k) + seq![':', ' '], quoted(k) + seq![':'], pretty_text(v, ind), compact_text(v));
}

proof fn lemma_pretty_members_reads_as(members: Seq<(Seq<char>, JsonValue)>, n: nat, ind: Seq<char>)
    requires
        is_indent(ind),
    ensures
        reads_as(pretty_members(members, n, ind), compact_members(members, n)),
    decreases members, n,
{
    if n == 0 || n > members.len() {
        reveal_with_fuel(scan_kept, 1);
        reveal_with_fuel(scan_end, 1);
    } else {
        let (k, v) = members[n - 1];
        let member = ind + quoted(k) + seq![':', ' '] + pretty_text(v, ind);
        lemma_pretty_reads_as_compact(v, ind);
        lemma_member_reads_as(k, v, ind);
        if n > 1 {
            let prev = pretty_members(members, (n - 1) as nat, ind);
            let cprev = compact_members(members, (n - 1) as nat);
            lemma_pretty_members_reads_as(members, (n - 1) as nat, ind);
            lemma_separated_reads_as(prev, cprev, member, quoted(k) + seq![':'] + compact_text(v));
            assert(pretty_members(members, n, ind) =~= prev + seq![',', '\n'] + member);
            assert(compact_members(members, n) =~= cprev + seq![','] + (quoted(k) + seq![':'] + compact_text(v)));
        }
    }
}

/// The pretty and the compact serialization encode the same JSON text:
/// dropping the whitespace that stands outside string literals from the pretty
/// form gives the compact form.
pub proof fn pretty_and_compact_agree(v: JsonValue)
    ensures
        strip_json_layout(pretty_text(v, seq![])) == compact_text(v),
{
    lemma_pretty_reads_as_compact(v, seq![]);
}

} // verus!
