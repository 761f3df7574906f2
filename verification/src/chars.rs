//! Facts about character sequences used to state properties of the reports:
//! character counts, bracket-free text, containment and lines.
use vstd::prelude::*;

verus! {

/// Number of occurrences of `c` in `s`.
pub open spec fn count_char(s: Seq<char>, c: char) -> nat
    decreases s.len(),
{
    if s.len() == 0 {
        0
    } else {
        count_char(s.drop_last(), c) + if s.last() == c {
            1nat
        } else {
            0nat
        }
    }
}

/// `s` holds none of the JSON structure characters `{`, `}`, `[`, `]`.
pub open spec fn bracket_free(s: Seq<char>) -> bool {
    &&& count_char(s, '{') == 0
    &&& count_char(s, '}') == 0
    &&& count_char(s, '[') == 0
    &&& count_char(s, ']') == 0
}

/// `s` opens as many braces as it closes, and as many brackets.
pub open spec fn balanced(s: Seq<char>) -> bool {
    &&& count_char(s, '{') == count_char(s, '}')
    &&& count_char(s, '[') == count_char(s, ']')
}

/// `part` occurs in `text` as a contiguous run of characters.
pub open spec fn contains(text: Seq<char>, part: Seq<char>) -> bool {
    exists|i: int| 0 <= i <= text.len() - part.len() && #[trigger] text.subrange(i, i + part.len()) == part
}

/// Whether `c` is one of `{`, `}`, `[`, `]`.
pub open spec fn is_bracket(c: char) -> bool {
    c == '{' || c == '}' || c == '[' || c == ']'
}

pub proof fn lemma_count_push(s: Seq<char>, x: char, c: char)
    ensures
        count_char(s.push(x), c) == count_char(s, c) + if x == c {
            1nat
        } else {
            0nat
        },
{
    assert(s.push(x).drop_last() =~= s);
}

/// Counting distributes over concatenation.
pub proof fn lemma_count_concat(a: Seq<char>, b: Seq<char>, c: char)
    ensures
        count_char(a + b, c) == count_char(a, c) + count_char(b, c),
    decreases b.len(),
{
    if b.len() == 0 {
        assert(a + b =~= a);
    } else {
        lemma_count_concat(a, b.drop_last(), c);
        assert((a + b).drop_last() =~= a + b.drop_last());
    }
}

/// A sequence with no bracket character is bracket free.
pub proof fn lemma_bracket_free_chars(s: Seq<char>)
    requires
        forall|i: int| 0 <= i < s.len() ==> !is_bracket(#[trigger] s[i]),
    ensures
        bracket_free(s),
    decreases s.len(),
{
    if s.len() > 0 {
        lemma_bracket_free_chars(s.drop_last());
    }
}

/// The characters of a bracket-free sequence are no brackets.
pub proof fn lemma_bracket_free_last(s: Seq<char>)
    requires
        s.len() > 0,
        bracket_free(s),
    ensures
        !is_bracket(s.last()),
        bracket_free(s.drop_last()),
{
}

pub proof fn lemma_bracket_free_concat(a: Seq<char>, b: Seq<char>)
    ensures
        bracket_free(a + b) <==> bracket_free(a) && bracket_free(b),
{
    lemma_count_concat(a, b, '{');
    lemma_count_concat(a, b, '}');
    lemma_count_concat(a, b, '[');
    lemma_count_concat(a, b, ']');
}

/// Concatenating balanced text keeps it balanced.
pub proof fn lemma_balanced_concat(a: Seq<char>, b: Seq<char>)
    requires
        balanced(a),
        balanced(b),
    ensures
        balanced(a + b),
{
    lemma_count_concat(a, b, '{');
    lemma_count_concat(a, b, '}');
    lemma_count_concat(a, b, '[');
    lemma_count_concat(a, b, ']');
}

/// Balanced text between a matching pair of delimiters stays balanced.
pub proof fn lemma_balanced_wrap(open: char, body: Seq<char>, close: char)
    requires
        balanced(body),
        (open == '{' && close == '}') || (open == '[' && close == ']'),
    ensures
        balanced(seq![open] + body + seq![close]),
{
    lemma_count_concat(seq![open], body, '{');
    lemma_count_concat(seq![open], body, '}');
    lemma_count_concat(seq![open], body, '[');
    lemma_count_concat(seq![open], body, ']');
    lemma_count_concat(seq![open] + body, seq![close], '{');
    lemma_count_concat(seq![open] + body, seq![close], '}');
    lemma_count_concat(seq![open] + body, seq![close], '[');
    lemma_count_concat(seq![open] + body, seq![close], ']');
    reveal_with_fuel(count_char, 2);
}

/// `part` occurs in `a + part + b`.
pub proof fn lemma_contains_middle(a: Seq<char>, part: Seq<char>, b: Seq<char>)
    ensures
        contains(a + part + b, part),
{
    let text = a + part + b;
    assert(text.subrange(a.len() as int, (a.len() + part.len()) as int) =~= part);
}

/// Containment survives extension on either side.
pub proof fn lemma_contains_extend(x: Seq<char>, text: Seq<char>, part: Seq<char>, y: Seq<char>)
    requires
        contains(text, part),
    ensures
        contains(x + text + y, part),
{
    let i = choose|i: int| 0 <= i <= text.len() - part.len() && #[trigger] text.subrange(i, i + part.len()) == part;
    let whole = x + text + y;
    assert(whole.subrange(x.len() + i, x.len() + i + part.len()) =~= text.subrange(i, i + part.len()));
}

pub proof fn lemma_bracket_free_push(s: Seq<char>, x: char)
    requires
        bracket_free(s),
        !is_bracket(x),
    ensures
        bracket_free(s.push(x)),
{
    lemma_count_push(s, x, '{');
    lemma_count_push(s, x, '}');
    lemma_count_push(s, x, '[');
    lemma_count_push(s, x, ']');
}

/// Bracket-free text is balanced.
pub proof fn lemma_bracket_free_balanced(s: Seq<char>)
    requires
        bracket_free(s),
    ensures
        balanced(s),
{
}

/// Containment is transitive.
pub proof fn lemma_contains_trans(text: Seq<char>, mid: Seq<char>, part: Seq<char>)
    requires
        contains(text, mid),
        contains(mid, part),
    ensures
        contains(text, part),
{
    let i = choose|i: int| 0 <= i <= text.len() - mid.len() && #[trigger] text.subrange(i, i + mid.len()) == mid;
    let j = choose|j: int| 0 <= j <= mid.len() - part.len() && #[trigger] mid.subrange(j, j + part.len()) == part;
    assert(text.subrange(i + j, i + j + part.len()) =~= mid.subrange(j, j + part.len()));
}

/// Whether `c` is JSON whitespace (space, tab, line feed, carriage return).
pub open spec fn is_json_space(c: char) -> bool {
    c == ' ' || c == '\t' || c == '\n' || c == '\r'
}

/// `s` holds no JSON whitespace and no double quote: it is kept as it is
/// wherever it stands outside a string literal.
pub open spec fn bare_text(s: Seq<char>) -> bool {
    forall|i: int| 0 <= i < s.len() ==> !is_json_space(#[trigger] s[i]) && s[i] != '"'
}

pub proof fn lemma_bare_text_concat(a: Seq<char>, b: Seq<char>)
    requires
        bare_text(a),
        bare_text(b),
    ensures
        bare_text(a + b),
{
    assert forall|i: int| 0 <= i < (a + b).len() implies !is_json_space(#[trigger] (a + b)[i]) && (a + b)[i] != '"' by {
        if i < a.len() {
            assert((a + b)[i] == a[i]);
        } else {
            assert((a + b)[i] == b[i - a.len()]);
        }
    }
}

/// `s` holds no line break.
pub open spec fn single_line(s: Seq<char>) -> bool {
    forall|i: int| 0 <= i < s.len() ==> #[trigger] s[i] != '\n'
}

pub proof fn lemma_single_line_concat(a: Seq<char>, b: Seq<char>)
    requires
        single_line(a),
        single_line(b),
    ensures
        single_line(a + b),
{
    assert forall|i: int| 0 <= i < (a + b).len() implies #[trigger] (a + b)[i] != '\n' by {
        if i < a.len() {
            assert((a + b)[i] == a[i]);
        } else {
            assert((a + b)[i] == b[i - a.len()]);
        }
    }
}

/// A character that does not occur is counted zero times.
pub proof fn lemma_count_absent(s: Seq<char>, c: char)
    requires
        forall|i: int| 0 <= i < s.len() ==> #[trigger] s[i] != c,
    ensures
        count_char(s, c) == 0,
    decreases s.len(),
{
    if s.len() > 0 {
        lemma_count_absent(s.drop_last(), c);
    }
}

// ----- lines -----

/// The lines of `s`: the runs of characters between line breaks, the last
/// one being what follows the final line break (empty when `s` ends a line).
pub open spec fn lines_of(s: Seq<char>) -> Seq<Seq<char>>
    decreases s.len(),
{
    if s.len() == 0 {
        seq![seq![]]
    } else if s.last() == '\n' {
        lines_of(s.drop_last()).push(seq![])
    } else {
        let ls = lines_of(s.drop_last());
        ls.update(ls.len() - 1, ls.last().push(s.last()))
    }
}

/// The text made of the lines `ls`, each followed by a line break.
pub open spec fn joined(ls: Seq<Seq<char>>) -> Seq<char>
    decreases ls.len(),
{
    if ls.len() == 0 {
        seq![]
    } else {
        joined(ls.drop_last()) + ls.last() + seq!['\n']
    }
}

proof fn lemma_lines_of_nonempty(s: Seq<char>)
    ensures
        lines_of(s).len() >= 1,
    decreases s.len(),
{
    if s.len() > 0 {
        lemma_lines_of_nonempty(s.drop_last());
    }
}

/// Appending text without a line break extends the last line.
proof fn lemma_lines_of_extend(a: Seq<char>, x: Seq<char>)
    requires
        single_line(x),
    ensures
        lines_of(a + x) == lines_of(a).update(lines_of(a).len() - 1, lines_of(a).last() + x),
    decreases x.len(),
{
    lemma_lines_of_nonempty(a);
    if x.len() == 0 {
        assert(a + x =~= a);
        assert(lines_of(a).last() + x =~= lines_of(a).last());
        assert(lines_of(a).update(lines_of(a).len() - 1, lines_of(a).last()) =~= lines_of(a));
    } else {
        let y = x.drop_last();
        assert(single_line(y)) by {
            assert forall|i: int| 0 <= i < y.len() implies #[trigger] y[i] != '\n' by {
                assert(y[i] == x[i]);
            }
        }
        lemma_lines_of_extend(a, y);
        lemma_lines_of_nonempty(a + y);
        assert((a + x).drop_last() =~= a + y);
        assert((a + x).last() == x.last());
        assert(x.last() == x[x.len() - 1]);
        assert(x.last() != '\n');
        let n = lines_of(a).len();
        let ls2 = lines_of(a + y);
        assert(ls2.len() == n);
        assert(ls2.last() == lines_of(a).last() + y);
        assert((lines_of(a).last() + y).push(x.last()) =~= lines_of(a).last() + x);
        assert(lines_of(a + x) == ls2.update(n - 1, ls2.last().push(x.last())));
        assert(lines_of(a + x) =~= lines_of(a).update(lines_of(a).len() - 1, lines_of(a).last() + x));
    }
}

/// The lines of a text made of whole lines are those lines, then an empty one.
pub proof fn lemma_lines_of_joined(ls: Seq<Seq<char>>)
    requires
        forall|i: int| 0 <= i < ls.len() ==> single_line(#[trigger] ls[i]),
    ensures
        lines_of(joined(ls)) == ls.push(seq![]),
    decreases ls.len(),
{
    if ls.len() == 0 {
        assert(lines_of(joined(ls)) =~= ls.push(seq![]));
    } else {
        let init = ls.drop_last();
        lemma_lines_of_joined(init);
        let x = ls.last();
        assert(single_line(x)) by {
            assert(x == ls[ls.len() - 1]);
        }
        lemma_lines_of_extend(joined(init), x);
        let body = joined(init) + x;
        assert((body + seq!['\n']).drop_last() =~= body);
        assert(joined(ls) == body + seq!['\n']);
        assert(init.push(seq![]).update(init.len() as int, seq![] + x) =~= ls);
        assert(lines_of(joined(ls)) =~= ls.push(seq![]));
    }
}

/// Joining distributes over concatenation of line lists.
pub proof fn lemma_joined_concat(l1: Seq<Seq<char>>, l2: Seq<Seq<char>>)
    ensures
        joined(l1 + l2) == joined(l1) + joined(l2),
    decreases l2.len(),
{
    if l2.len() == 0 {
        assert(l1 + l2 =~= l1);
        assert(joined(l1) + joined(l2) =~= joined(l1));
    } else {
        lemma_joined_concat(l1, l2.drop_last());
        assert((l1 + l2).drop_last() =~= l1 + l2.drop_last());
        assert((l1 + l2).last() == l2.last());
        assert(joined(l1) + joined(l2.drop_last()) + l2.last() + seq!['\n'] =~= joined(l1) + (joined(l2.drop_last())
            + l2.last() + seq!['\n']));
    }
}

/// A text with a single line break, at its end, is one whole line.
pub proof fn lemma_one_line(x: Seq<char>)
    requires
        count_char(x + seq!['\n'], '\n') == 1,
    ensures
        single_line(x),
{
    lemma_count_concat(x, seq!['\n'], '\n');
    assert(count_char(seq!['\n'], '\n') == 1) by {
        assert(seq!['\n'].drop_last() =~= Seq::<char>::empty());
    }
    lemma_count_zero(x, '\n');
}

proof fn lemma_count_zero(s: Seq<char>, c: char)
    requires
        count_char(s, c) == 0,
    ensures
        forall|i: int| 0 <= i < s.len() ==> #[trigger] s[i] != c,
    decreases s.len(),
{
    if s.len() > 0 {
        lemma_count_zero(s.drop_last(), c);
        assert forall|i: int| 0 <= i < s.len() implies #[trigger] s[i] != c by {
            if i < s.len() - 1 {
                assert(s[i] == s.drop_last()[i]);
            }
        }
    }
}

} // verus!
