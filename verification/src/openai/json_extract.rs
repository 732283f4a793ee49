//! Locating the JSON value inside a model's output.
//!
//! A model that was asked for JSON may still wrap it in a markdown code fence
//! or put stray characters in front. [`extract_top_level_json_value`] finds the
//! first position at which a complete value stands and cuts it out.

use vstd::prelude::*;

use crate::text::{chars_of, match_at, occurs_at, opt_view, starts_with, string_of};

verus! {

// ── Where a value ends ───────────────────────────────────────────────────────

/// Where a position stands relative to the string literals in front of it.
#[derive(Clone, Copy, PartialEq, Eq, Structural)]
pub enum Quote {
    Outside,
    Inside,
    /// Inside a literal, right after a backslash.
    Escaped,
}

/// The quote state after reading `c` in state `q`.
pub open spec fn quote_next(q: Quote, c: char) -> Quote {
    match q {
        Quote::Outside => if c == '"' {
            Quote::Inside
        } else {
            Quote::Outside
        },
        Quote::Escaped => Quote::Inside,
        Quote::Inside => if c == '\\' {
            Quote::Escaped
        } else if c == '"' {
            Quote::Outside
        } else {
            Quote::Inside
        },
    }
}

/// The quote state in front of position `i`, reading from `start`.
pub open spec fn quote_at(s: Seq<char>, start: int, i: int) -> Quote
    decreases i - start,
{
    if i <= start {
        Quote::Outside
    } else {
        quote_next(quote_at(s, start, i - 1), s[i - 1])
    }
}

/// How many brackets stand open in front of position `i`, counting from `start`
/// and not counting those inside string literals.
pub open spec fn open_brackets(s: Seq<char>, start: int, i: int, open: char, close: char) -> int
    decreases i - start,
{
    if i <= start {
        0
    } else {
        let before = open_brackets(s, start, i - 1, open, close);
        if quote_at(s, start, i - 1) != Quote::Outside {
            before
        } else if s[i - 1] == open {
            before + 1
        } else if s[i - 1] == close {
            before - 1
        } else {
            before
        }
    }
}

/// The bracket that opens at `start` is closed by the character in front of `e`.
pub open spec fn closes_at(s: Seq<char>, start: int, e: int, open: char, close: char) -> bool {
    &&& start < e <= s.len()
    &&& open_brackets(s, start, e, open, close) == 0
    &&& forall|k: int| start < k < e ==> #[trigger] open_brackets(s, start, k, open, close) != 0
}

/// The string literal that begins at `start` ends in front of `e`.
pub open spec fn quoted_until(s: Seq<char>, start: int, e: int) -> bool {
    &&& start < e <= s.len()
    &&& quote_at(s, start, e) == Quote::Outside
    &&& forall|k: int| start < k < e ==> #[trigger] quote_at(s, start, k) != Quote::Outside
}

/// The characters that a number is made of.
pub open spec fn is_number_char(c: char) -> bool {
    '0' <= c <= '9' || c == '.' || c == 'e' || c == 'E' || c == '+' || c == '-'
}

/// `s[start..e]` is a maximal run of number characters.
pub open spec fn number_run(s: Seq<char>, start: int, e: int) -> bool {
    &&& start < e <= s.len()
    &&& forall|k: int| start <= k < e ==> is_number_char(#[trigger] s[k])
    &&& e < s.len() ==> !is_number_char(s[e])
}

/// A complete JSON value stands in `s` at `start` and ends in front of `e`.
pub open spec fn value_at(s: Seq<char>, start: int, e: int) -> bool {
    &&& 0 <= start < s.len()
    &&& {
        let c = s[start];
        if c == '{' {
            closes_at(s, start, e, '{', '}')
        } else if c == '[' {
            closes_at(s, start, e, '[', ']')
        } else if c == '"' {
            quoted_until(s, start, e)
        } else if c == 't' {
            e == start + 4 && occurs_at(s, "true"@, start)
        } else if c == 'f' {
            e == start + 5 && occurs_at(s, "false"@, start)
        } else if c == 'n' {
            e == start + 4 && occurs_at(s, "null"@, start)
        } else if c == '-' {
            start + 1 < s.len() && '0' <= s[start + 1] <= '9' && number_run(s, start, e)
        } else {
            '0' <= c <= '9' && number_run(s, start, e)
        }
    }
}

/// At most one value stands at a position.
pub proof fn lemma_value_end_unique(s: Seq<char>, start: int, e1: int, e2: int)
    requires
        value_at(s, start, e1),
        value_at(s, start, e2),
    ensures
        e1 == e2,
{
    let c = s[start];
    if c == '{' || c == '[' {
        let close = if c == '{' {
            '}'
        } else {
            ']'
        };
        assert(open_brackets(s, start, e1, c, close) == 0);
        assert(open_brackets(s, start, e2, c, close) == 0);
    } else if c == '"' {
        assert(quote_at(s, start, e1) == Quote::Outside);
        assert(quote_at(s, start, e2) == Quote::Outside);
    } else if c != 't' && c != 'f' && c != 'n' {
        if e1 < e2 {
            assert(is_number_char(s[e1]));
        } else if e2 < e1 {
            assert(is_number_char(s[e2]));
        }
    }
}

fn quote_step(q: Quote, c: char) -> (r: Quote)
    ensures
        r == quote_next(q, c),
{
    match q {
        Quote::Outside => if c == '"' {
            Quote::Inside
        } else {
            Quote::Outside
        },
        Quote::Escaped => Quote::Inside,
        Quote::Inside => if c == '\\' {
            Quote::Escaped
        } else if c == '"' {
            Quote::Outside
        } else {
            Quote::Inside
        },
    }
}

/// The end of the bracketed value that begins at `start`.
fn bracket_end(cs: &Vec<char>, start: usize, open: char, close: char) -> (r: Option<usize>)
    requires
        start < cs@.len(),
        cs@[start as int] == open,
        open != '"',
        close != '"',
        open != close,
    ensures
        match r {
            Some(e) => closes_at(cs@, start as int, e as int, open, close),
            None => forall|e: int| !closes_at(cs@, start as int, e, open, close),
        },
{
    let mut depth: usize = 0;
    let mut quote = Quote::Outside;
    let mut i: usize = start;
    while i < cs.len()
        invariant
            start <= i <= cs@.len(),
            start < cs@.len(),
            cs@[start as int] == open,
            open != '"',
            close != '"',
            open != close,
            quote == quote_at(cs@, start as int, i as int),
            depth == open_brackets(cs@, start as int, i as int, open, close),
            depth <= i - start,
            i > start ==> depth > 0,
            forall|k: int|
                start < k <= i ==> #[trigger] open_brackets(cs@, start as int, k, open, close) != 0,
        decreases cs@.len() - i,
    {
        let c = cs[i];
        if quote == Quote::Outside {
            if c == open {
                depth += 1;
            } else if c == close {
                depth -= 1;
                if depth == 0 {
                    proof {
                        assert(open_brackets(cs@, start as int, i + 1, open, close) == 0);
                    }
                    return Some(i + 1);
                }
            }
        }
        quote = quote_step(quote, c);
        i += 1;
    }
    None
}

/// The end of the string literal that begins at `start`.
fn string_end(cs: &Vec<char>, start: usize) -> (r: Option<usize>)
    requires
        start < cs@.len(),
        cs@[start as int] == '"',
    ensures
        match r {
            Some(e) => quoted_until(cs@, start as int, e as int),
            None => forall|e: int| !quoted_until(cs@, start as int, e),
        },
{
    let n: usize = cs.len();
    let mut quote = Quote::Inside;
    let mut i: usize = start + 1;
    proof {
        assert(quote_at(cs@, start as int, start as int) == Quote::Outside);
        assert(quote_at(cs@, start as int, start + 1) == Quote::Inside);
    }
    while i < n
        invariant
            n == cs@.len(),
            start < i <= n,
            quote == quote_at(cs@, start as int, i as int),
            quote != Quote::Outside,
            forall|k: int|
                start < k <= i ==> #[trigger] quote_at(cs@, start as int, k) != Quote::Outside,
        decreases cs@.len() - i,
    {
        quote = quote_step(quote, cs[i]);
        i += 1;
        proof {
            assert(quote == quote_at(cs@, start as int, i as int));
        }
        if quote == Quote::Outside {
            return Some(i);
        }
    }
    None
}

fn char_is_number(c: char) -> (r: bool)
    ensures
        r == is_number_char(c),
{
    ('0' <= c && c <= '9') || c == '.' || c == 'e' || c == 'E' || c == '+' || c == '-'
}

/// The end of the run of number characters that begins at `start`.
fn number_end(cs: &Vec<char>, start: usize) -> (e: usize)
    requires
        start < cs@.len(),
        is_number_char(cs@[start as int]),
    ensures
        number_run(cs@, start as int, e as int),
{
    let n: usize = cs.len();
    let mut e: usize = start + 1;
    while e < n && char_is_number(cs[e])
        invariant
            n == cs@.len(),
            start < e <= n,
            forall|k: int| start <= k < e ==> is_number_char(#[trigger] cs@[k]),
        decreases cs@.len() - e,
    {
        e += 1;
    }
    e
}

/// The end of the complete value at `start`, if one stands there.
fn value_end(cs: &Vec<char>, start: usize) -> (r: Option<usize>)
    requires
        start < cs@.len(),
    ensures
        match r {
            Some(e) => value_at(cs@, start as int, e as int) && start < e <= cs@.len(),
            None => forall|e: int| !value_at(cs@, start as int, e),
        },
{
    let n: usize = cs.len();
    let c = cs[start];
    proof {
        reveal_strlit("true");
        reveal_strlit("false");
        reveal_strlit("null");
    }
    if c == '{' {
        bracket_end(cs, start, '{', '}')
    } else if c == '[' {
        bracket_end(cs, start, '[', ']')
    } else if c == '"' {
        string_end(cs, start)
    } else if c == 't' {
        if match_at(cs, &chars_of("true"), start) {
            Some(start + 4)
        } else {
            None
        }
    } else if c == 'f' {
        if match_at(cs, &chars_of("false"), start) {
            Some(start + 5)
        } else {
            None
        }
    } else if c == 'n' {
        if match_at(cs, &chars_of("null"), start) {
            Some(start + 4)
        } else {
            None
        }
    } else if c == '-' {
        // A lone `-` (such as a list bullet) is no number.
        if start + 1 < n && '0' <= cs[start + 1] && cs[start + 1] <= '9' {
            Some(number_end(cs, start))
        } else {
            None
        }
    } else if '0' <= c && c <= '9' {
        Some(number_end(cs, start))
    } else {
        None
    }
}

/// The text of the complete JSON value at `start`, if one stands there.
pub fn try_extract_at(cs: &Vec<char>, start: usize) -> (r: Option<String>)
    requires
        start < cs@.len(),
    ensures
        match r {
            Some(t) => exists|e: int| #[trigger]
                value_at(cs@, start as int, e) && start < e <= cs@.len() && t@ == cs@.subrange(
                    start as int,
                    e,
                ),
            None => forall|e: int| !value_at(cs@, start as int, e),
        },
{
    match value_end(cs, start) {
        Some(e) => Some(string_of(cs, start, e)),
        None => None,
    }
}

// ── Finding the value in a model's output ────────────────────────────────────

/// Space, tab, line feed, form feed and carriage return.
pub open spec fn is_ascii_white(c: char) -> bool {
    c == ' ' || c == '\t' || c == '\n' || c == '\u{c}' || c == '\r'
}

/// `s` without its leading ASCII whitespace.
pub open spec fn skip_ascii_white(s: Seq<char>) -> Seq<char>
    decreases s.len(),
{
    if s.len() > 0 && is_ascii_white(s[0]) {
        skip_ascii_white(s.subrange(1, s.len() as int))
    } else {
        s
    }
}

/// `s` without a leading code-fence header: the backticks, an optional `json`
/// tag and the whitespace around them. A text without such a header is kept.
pub open spec fn strip_fence(s: Seq<char>) -> Seq<char> {
    let t = skip_ascii_white(s);
    if starts_with(t, "```"@) {
        let a = t.subrange(3, t.len() as int);
        skip_ascii_white(
            if starts_with(a, "json"@) {
                a.subrange(4, a.len() as int)
            } else {
                a
            },
        )
    } else {
        s
    }
}

/// `v` is the first complete JSON value in the text, after the fence header.
pub open spec fn first_value(text: Seq<char>, v: Seq<char>) -> bool {
    let b = strip_fence(text);
    exists|start: int, e: int|
        {
            &&& #[trigger] value_at(b, start, e)
            &&& start < e <= b.len()
            &&& v == b.subrange(start, e)
            &&& forall|k: int, e2: int| k < start ==> !#[trigger] value_at(b, k, e2)
        }
}

/// No complete JSON value stands anywhere in the text, after the fence header.
pub open spec fn no_value(text: Seq<char>) -> bool {
    forall|k: int, e: int| !#[trigger] value_at(strip_fence(text), k, e)
}

/// What extraction gives on a text.
pub open spec fn extracted(text: Seq<char>) -> Option<Seq<char>> {
    if exists|v: Seq<char>| first_value(text, v) {
        Some(choose|v: Seq<char>| first_value(text, v))
    } else {
        None
    }
}

/// There is at most one first value.
pub proof fn lemma_first_value_unique(text: Seq<char>, v: Seq<char>, w: Seq<char>)
    requires
        first_value(text, v),
        first_value(text, w),
    ensures
        v == w,
{
    let b = strip_fence(text);
    let (s1, e1) = choose|start: int, e: int|
        {
            &&& #[trigger] value_at(b, start, e)
            &&& start < e <= b.len()
            &&& v == b.subrange(start, e)
            &&& forall|k: int, e2: int| k < start ==> !#[trigger] value_at(b, k, e2)
        };
    let (s2, e2) = choose|start: int, e: int|
        {
            &&& #[trigger] value_at(b, start, e)
            &&& start < e <= b.len()
            &&& w == b.subrange(start, e)
            &&& forall|k: int, e2: int| k < start ==> !#[trigger] value_at(b, k, e2)
        };
    assert(s1 == s2);
    lemma_value_end_unique(b, s1, e1, e2);
}

proof fn lemma_extracted(text: Seq<char>, r: Option<Seq<char>>)
    requires
        match r {
            Some(v) => first_value(text, v),
            None => no_value(text),
        },
    ensures
        extracted(text) == r,
{
    match r {
        Some(v) => {
            lemma_first_value_unique(text, v, extracted(text)->0);
        },
        None => {
            assert forall|v: Seq<char>| !first_value(text, v) by {}
        },
    }
}

fn skip_white_from(cs: &Vec<char>, from: usize) -> (r: usize)
    requires
        from <= cs@.len(),
    ensures
        from <= r <= cs@.len(),
        cs@.subrange(r as int, cs@.len() as int) == skip_ascii_white(
            cs@.subrange(from as int, cs@.len() as int),
        ),
{
    let mut i: usize = from;
    while i < cs.len() && (cs[i] == ' ' || cs[i] == '\t' || cs[i] == '\n' || cs[i] == '\u{c}'
        || cs[i] == '\r')
        invariant
            from <= i <= cs@.len(),
            skip_ascii_white(cs@.subrange(i as int, cs@.len() as int)) == skip_ascii_white(
                cs@.subrange(from as int, cs@.len() as int),
            ),
        decreases cs@.len() - i,
    {
        proof {
            let t = cs@.subrange(i as int, cs@.len() as int);
            assert(t.subrange(1, t.len() as int) =~= cs@.subrange(i + 1, cs@.len() as int));
        }
        i += 1;
    }
    i
}

proof fn lemma_occurs_in_tail(s: Seq<char>, from: int, pat: Seq<char>)
    requires
        0 <= from <= s.len(),
    ensures
        starts_with(s.subrange(from, s.len() as int), pat) == occurs_at(s, pat, from),
{
    let t = s.subrange(from, s.len() as int);
    if from + pat.len() <= s.len() {
        assert(t.subrange(0, pat.len() as int) =~= s.subrange(from, from + pat.len()));
    }
}

/// The position at which the text after the fence header begins.
fn body_start(cs: &Vec<char>) -> (r: usize)
    ensures
        r <= cs@.len(),
        cs@.subrange(r as int, cs@.len() as int) == strip_fence(cs@),
{
    proof {
        reveal_strlit("```");
        reveal_strlit("json");
        assert(cs@.subrange(0, cs@.len() as int) =~= cs@);
    }
    let t = skip_white_from(cs, 0);
    let len: usize = cs.len();
    let ghost n = len as int;
    proof {
        lemma_occurs_in_tail(cs@, t as int, "```"@);
    }
    if match_at(cs, &chars_of("```"), t) {
        proof {
            let ts = cs@.subrange(t as int, n);
            assert(ts.subrange(3, ts.len() as int) =~= cs@.subrange(t + 3, n));
            lemma_occurs_in_tail(cs@, t + 3, "json"@);
        }
        if match_at(cs, &chars_of("json"), t + 3) {
            proof {
                let a = cs@.subrange(t + 3, n);
                assert(a.subrange(4, a.len() as int) =~= cs@.subrange(t + 7, n));
            }
            skip_white_from(cs, t + 7)
        } else {
            skip_white_from(cs, t + 3)
        }
    } else {
        0
    }
}

/// The first complete JSON value in `text`, after an optional markdown fence
/// header; `None` when no position holds one.
///
/// An object or array runs to its matching bracket (brackets inside string
/// literals do not count), a string to its closing quote, a number over the
/// whole run of number characters, and `true`, `false` and `null` stand for
/// themselves.
pub fn extract_top_level_json_value(text: &str) -> (r: Option<String>)
    ensures
        match r {
            Some(v) => first_value(text@, v@),
            None => no_value(text@),
        },
        opt_view(r) == extracted(text@),
{
    let all = chars_of(text);
    let from = body_start(&all);
    let body = chars_of(string_of(&all, from, all.len()).as_str());
    let ghost b = strip_fence(text@);
    let mut start: usize = 0;
    while start < body.len()
        invariant
            body@ == b,
            b == strip_fence(text@),
            start <= body@.len(),
            forall|k: int, e: int| k < start ==> !#[trigger] value_at(b, k, e),
        decreases body@.len() - start,
    {
        match value_end(&body, start) {
            Some(e) => {
                proof {
                    assert(value_at(b, start as int, e as int));
                }
                let v = string_of(&body, start, e);
                proof {
                    lemma_extracted(text@, Some(v@));
                }
                return Some(v);
            },
            None => {},
        }
        start += 1;
    }
    proof {
        lemma_extracted(text@, None);
    }
    None
}

// ── Where JSON begins ────────────────────────────────────────────────────────

/// The characters with which a JSON value can begin.
pub open spec fn begins_json(c: char) -> bool {
    c == '{' || c == '[' || c == '"' || c == 't' || c == 'f' || c == 'n' || c == '-' || '0' <= c
        <= '9'
}

/// The first position from `i` on at which a JSON value can begin.
pub open spec fn json_begin(s: Seq<char>, i: int) -> Option<int>
    decreases s.len() - i,
{
    if i < 0 || i >= s.len() {
        None
    } else if begins_json(s[i]) {
        Some(i)
    } else {
        json_begin(s, i + 1)
    }
}

/// The text from the first character on with which a JSON value can begin, after
/// an optional code-fence header.
pub open spec fn json_text(s: Seq<char>) -> Option<Seq<char>> {
    let b = strip_fence(s);
    match json_begin(b, 0) {
        Some(i) => Some(b.subrange(i, b.len() as int)),
        None => None,
    }
}

/// The position at which JSON begins in a text, after an optional code-fence
/// header.
pub fn json_start(cs: &Vec<char>) -> (r: Option<usize>)
    ensures
        match r {
            Some(i) => i < cs@.len() && json_text(cs@) == Some(
                cs@.subrange(i as int, cs@.len() as int),
            ),
            None => json_text(cs@) is None,
        },
{
    let from = body_start(cs);
    let ghost b = strip_fence(cs@);
    let mut i: usize = from;
    while i < cs.len()
        invariant
            from <= i <= cs@.len(),
            b == strip_fence(cs@),
            b == cs@.subrange(from as int, cs@.len() as int),
            json_begin(b, 0) == json_begin(b, i - from),
        decreases cs@.len() - i,
    {
        let c = cs[i];
        if c == '{' || c == '[' || c == '"' || c == 't' || c == 'f' || c == 'n' || c == '-' || ('0'
            <= c && c <= '9') {
            proof {
                assert(b.subrange(i - from, b.len() as int) =~= cs@.subrange(
                    i as int,
                    cs@.len() as int,
                ));
            }
            return Some(i);
        }
        i += 1;
    }
    None
}

proof fn lemma_json_begin(s: Seq<char>, from: int, more: Seq<char>)
    requires
        0 <= from,
        json_begin(s, from) is Some,
    ensures
        from <= json_begin(s, from)->0 < s.len(),
        begins_json(s[json_begin(s, from)->0]),
        json_begin(s + more, from) == json_begin(s, from),
    decreases s.len() - from,
{
    assert((s + more)[from] == s[from]);
    if !begins_json(s[from]) {
        lemma_json_begin(s, from + 1, more);
    }
}

proof fn lemma_skip_white(s: Seq<char>, more: Seq<char>) -> (off: int)
    ensures
        0 <= off <= s.len(),
        skip_ascii_white(s) == s.subrange(off, s.len() as int),
        forall|k: int| 0 <= k < off ==> is_ascii_white(#[trigger] s[k]),
        off < s.len() ==> skip_ascii_white(s + more) == skip_ascii_white(s) + more,
    decreases s.len(),
{
    if s.len() > 0 && is_ascii_white(s[0]) {
        let t = s.subrange(1, s.len() as int);
        let off = lemma_skip_white(t, more);
        assert(s.subrange(off + 1, s.len() as int) =~= t.subrange(off, t.len() as int));
        assert((s + more).subrange(1, (s + more).len() as int) =~= t + more);
        assert forall|k: int| 0 <= k < off + 1 implies is_ascii_white(#[trigger] s[k]) by {
            if k > 0 {
                assert(s[k] == t[k - 1]);
            }
        }
        off + 1
    } else {
        assert(s.subrange(0, s.len() as int) =~= s);
        if s.len() > 0 {
            assert((s + more)[0] == s[0]);
        }
        0
    }
}

proof fn lemma_prefix_grows(s: Seq<char>, more: Seq<char>, pat: Seq<char>)
    ensures
        starts_with(s, pat) ==> starts_with(s + more, pat),
        starts_with(s + more, pat) && s.len() >= pat.len() ==> starts_with(s, pat),
        starts_with(s + more, pat) && s.len() < pat.len() ==> forall|k: int|
            0 <= k < s.len() ==> #[trigger] s[k] == pat[k],
{
    if s.len() >= pat.len() {
        assert((s + more).subrange(0, pat.len() as int) =~= s.subrange(0, pat.len() as int));
    } else if starts_with(s + more, pat) {
        assert forall|k: int| 0 <= k < s.len() implies #[trigger] s[k] == pat[k] by {
            assert((s + more).subrange(0, pat.len() as int)[k] == s[k]);
        }
    }
}

/// A fence header is recognized in whatever pieces it arrives: where JSON begins
/// in a text, it begins there in every longer one.
pub proof fn law_json_text_grows(s: Seq<char>, more: Seq<char>)
    requires
        json_text(s) is Some,
    ensures
        json_text(s + more) == Some(json_text(s)->0 + more),
{
    reveal_strlit("```");
    reveal_strlit("json");
    let b = strip_fence(s);
    lemma_json_begin(b, 0, more);
    let i = json_begin(b, 0)->0;
    lemma_strip_grows(s, more);
    assert((b + more).subrange(i, (b + more).len() as int) =~= b.subrange(i, b.len() as int) + more);
}

proof fn lemma_strip_grows(s: Seq<char>, more: Seq<char>)
    requires
        json_begin(strip_fence(s), 0) is Some,
    ensures
        strip_fence(s + more) == strip_fence(s) + more,
{
    reveal_strlit("```");
    reveal_strlit("json");
    let fence = "```"@;
    let tag = "json"@;
    let b = strip_fence(s);
    lemma_json_begin(b, 0, more);
    let i = json_begin(b, 0)->0;
    let off = lemma_skip_white(s, more);
    let t = skip_ascii_white(s);
    lemma_prefix_grows(t, more, fence);
    if starts_with(t, fence) {
        let a = t.subrange(3, t.len() as int);
        assert((t + more).subrange(3, (t + more).len() as int) =~= a + more);
        lemma_prefix_grows(a, more, tag);
        if starts_with(a, tag) {
            let c = a.subrange(4, a.len() as int);
            assert((a + more).subrange(4, (a + more).len() as int) =~= c + more);
            let o = lemma_skip_white(c, more);
        } else {
            let o = lemma_skip_white(a, more);
            if starts_with(a + more, tag) {
                assert(b[i] == a[o + i]);
                assert(a[o + i] == tag[o + i]);
            }
        }
    } else {
        assert(s[i] == b[i]);
        if off <= i {
            assert(t[i - off] == s[i]);
        }
        if starts_with(t + more, fence) {
            assert(t[i - off] == fence[i - off]);
        }
    }
}

// ── Laws ─────────────────────────────────────────────────────────────────────

proof fn lemma_quote_shift(s: Seq<char>, t: Seq<char>, off: int, start: int, i: int)
    requires
        0 <= start,
        0 <= off,
        forall|k: int| start <= k < i ==> #[trigger] t[k] == s[k + off],
    ensures
        quote_at(t, start, i) == quote_at(s, start + off, i + off),
    decreases i - start,
{
    if i > start {
        lemma_quote_shift(s, t, off, start, i - 1);
        assert(t[i - 1] == s[i - 1 + off]);
    }
}

proof fn lemma_brackets_shift(
    s: Seq<char>,
    t: Seq<char>,
    off: int,
    start: int,
    i: int,
    open: char,
    close: char,
)
    requires
        0 <= start,
        0 <= off,
        forall|k: int| start <= k < i ==> #[trigger] t[k] == s[k + off],
    ensures
        open_brackets(t, start, i, open, close) == open_brackets(
            s,
            start + off,
            i + off,
            open,
            close,
        ),
    decreases i - start,
{
    if i > start {
        lemma_brackets_shift(s, t, off, start, i - 1, open, close);
        lemma_quote_shift(s, t, off, start, i - 1);
        assert(t[i - 1] == s[i - 1 + off]);
    }
}

/// A value stays a value where its characters stand, whatever surrounds them
/// (for a number: where no number character follows).
pub proof fn lemma_value_moves(s: Seq<char>, start: int, e: int, t: Seq<char>, at: int)
    requires
        value_at(s, start, e),
        0 <= at,
        at + (e - start) <= t.len(),
        t.subrange(at, at + (e - start)) == s.subrange(start, e),
        start < e <= s.len(),
        s[start] == '-' || '0' <= s[start] <= '9' ==> (at + (e - start) == t.len()
            || !is_number_char(t[at + (e - start)])),
    ensures
        value_at(t, at, at + (e - start)),
{
    let n = e - start;
    let mid = s.subrange(start, e);
    assert forall|k: int| 0 <= k < n implies #[trigger] mid[k] == s[k + start] && mid[k] == t[k
        + at] by {
        assert(t.subrange(at, at + n)[k] == t[k + at]);
    }
    let c = s[start];
    assert(mid[0] == s[0 + start] && mid[0] == t[0 + at]);
    if c == '{' || c == '[' {
        let close = if c == '{' {
            '}'
        } else {
            ']'
        };
        lemma_brackets_shift(s, mid, start, 0, n, c, close);
        lemma_brackets_shift(t, mid, at, 0, n, c, close);
        assert forall|k: int| at < k < at + n implies #[trigger] open_brackets(t, at, k, c, close)
            != 0 by {
            lemma_brackets_shift(s, mid, start, 0, k - at, c, close);
            lemma_brackets_shift(t, mid, at, 0, k - at, c, close);
            assert(open_brackets(s, start, k - at + start, c, close) != 0);
        }
    } else if c == '"' {
        lemma_quote_shift(s, mid, start, 0, n);
        lemma_quote_shift(t, mid, at, 0, n);
        assert forall|k: int| at < k < at + n implies #[trigger] quote_at(t, at, k)
            != Quote::Outside by {
            lemma_quote_shift(s, mid, start, 0, k - at);
            lemma_quote_shift(t, mid, at, 0, k - at);
            assert(quote_at(s, start, k - at + start) != Quote::Outside);
        }
    } else if c == 't' || c == 'f' || c == 'n' {
        reveal_strlit("true");
        reveal_strlit("false");
        reveal_strlit("null");
    } else {
        assert(number_run(s, start, e));
        assert forall|k: int| at <= k < at + n implies is_number_char(#[trigger] t[k]) by {
            assert(mid[k - at] == t[k - at + at]);
            assert(is_number_char(s[k - at + start]));
        }
        if c == '-' {
            assert('0' <= s[start + 1] <= '9');
            if n == 1 {
                assert(is_number_char(s[start + 1]));
            }
            assert(mid[1] == t[1 + at]);
        }
    }
}

/// What was extracted once is extracted whole a second time.
pub proof fn law_extract_idempotent(text: Seq<char>, v: Seq<char>)
    requires
        first_value(text, v),
    ensures
        first_value(v, v),
{
    let b = strip_fence(text);
    let (start, e) = choose|start: int, e: int|
        {
            &&& #[trigger] value_at(b, start, e)
            &&& start < e <= b.len()
            &&& v == b.subrange(start, e)
            &&& forall|k: int, e2: int| k < start ==> !#[trigger] value_at(b, k, e2)
        };
    assert(v.subrange(0, v.len() as int) =~= v);
    lemma_value_moves(b, start, e, v, 0);
    assert(v[0] == b[start]);
    reveal_strlit("```");
    if starts_with(v, "```"@) {
        assert(v.subrange(0, 3)[0] == '`');
    }
    assert(strip_fence(v) == v);
    assert(value_at(strip_fence(v), 0, v.len() as int));
}

/// An object, array or string inside a fence comes out as it was, whatever
/// follows it.
pub proof fn law_fenced_value_extracted(v: Seq<char>, suffix: Seq<char>)
    requires
        value_at(v, 0, v.len() as int),
        v[0] == '{' || v[0] == '[' || v[0] == '"',
    ensures
        first_value("```json\n"@ + v + suffix, v),
        first_value("```\n"@ + v + suffix, v),
        first_value(v + suffix, v),
{
    lemma_fenced("```json\n"@, v, suffix);
    lemma_fenced("```\n"@, v, suffix);
    lemma_fenced(""@, v, suffix);
    reveal_strlit("");
    assert(""@ + v =~= v);
}

proof fn lemma_fenced(fence: Seq<char>, v: Seq<char>, suffix: Seq<char>)
    requires
        value_at(v, 0, v.len() as int),
        v[0] == '{' || v[0] == '[' || v[0] == '"',
        fence == "```json\n"@ || fence == "```\n"@ || fence == ""@,
    ensures
        first_value(fence + v + suffix, v),
{
    let text = fence + v + suffix;
    let b = v + suffix;
    let n = v.len() as int;
    reveal_strlit("```json\n");
    reveal_strlit("```\n");
    reveal_strlit("```");
    reveal_strlit("json");
    reveal_strlit("");
    assert(v.subrange(0, n) =~= v);
    assert(b.subrange(0, n) =~= v);
    lemma_value_moves(v, 0, n, b, 0);
    assert(skip_ascii_white(b) == b) by {
        assert(b[0] == v[0]);
    }
    if fence == ""@ {
        assert(text =~= b);
        if starts_with(b, "```"@) {
            assert(b.subrange(0, 3)[0] == '`');
        }
    } else {
        assert(text[0] == '`');
        assert(skip_ascii_white(text) == text);
        assert(text.subrange(0, 3) =~= "```"@);
        let a = text.subrange(3, text.len() as int);
        if fence == "```json\n"@ {
            assert(a.subrange(0, 4) =~= "json"@);
            let l = a.subrange(4, a.len() as int);
            assert(l[0] == '\n');
            assert(l.subrange(1, l.len() as int) =~= b);
            assert(skip_ascii_white(l) == skip_ascii_white(b));
        } else {
            assert(a[0] == '\n');
            if starts_with(a, "json"@) {
                assert(a.subrange(0, 4)[0] == 'j');
            }
            assert(a.subrange(1, a.len() as int) =~= b);
            assert(skip_ascii_white(a) == skip_ascii_white(b));
        }
    }
    assert(strip_fence(text) == b);
    assert(value_at(b, 0, n));
}

/// Inside a string literal, characters other than quotes and backslashes change nothing.
proof fn lemma_inside_run(s: Seq<char>, i: int, j: int, open: char, close: char)
    requires
        0 <= i <= j <= s.len(),
        quote_at(s, 0, i) == Quote::Inside,
        forall|k: int| i <= k < j ==> #[trigger] s[k] != '"' && s[k] != '\\',
    ensures
        quote_at(s, 0, j) == Quote::Inside,
        open_brackets(s, 0, j, open, close) == open_brackets(s, 0, i, open, close),
        forall|k: int| i <= k <= j ==> #[trigger] quote_at(s, 0, k) == Quote::Inside,
        forall|k: int|
            i <= k <= j ==> #[trigger] open_brackets(s, 0, k, open, close) == open_brackets(
                s,
                0,
                i,
                open,
                close,
            ),
    decreases j - i,
{
    if i < j {
        lemma_inside_run(s, i, j - 1, open, close);
        assert(s[j - 1] != '"');
        assert(quote_at(s, 0, j) == quote_next(quote_at(s, 0, j - 1), s[j - 1]));
    }
}

/// A text in quotes is a value whole, whatever brackets and escaped characters stand in
/// it, and it is extracted as it is from whatever follows it.
pub proof fn law_quoted_text_is_extracted(
    a: Seq<char>,
    escaped: char,
    b: Seq<char>,
    suffix: Seq<char>,
    text: &str,
    r: Option<String>,
)
    requires
        forall|k: int| 0 <= k < a.len() ==> #[trigger] a[k] != '"' && a[k] != '\\',
        forall|k: int| 0 <= k < b.len() ==> #[trigger] b[k] != '"' && b[k] != '\\',
        text@ == seq!['"'] + a + seq!['\\', escaped] + b + seq!['"'] + suffix,
        call_ensures(extract_top_level_json_value, (text,), r),
    ensures
        r matches Some(v) && v@ == seq!['"'] + a + seq!['\\', escaped] + b + seq!['"'],
{
    let v = seq!['"'] + a + seq!['\\', escaped] + b + seq!['"'];
    let n = a.len() as int;
    let m = b.len() as int;
    assert(v[0] == '"');
    assert(quote_at(v, 0, 0) == Quote::Outside);
    assert(quote_at(v, 0, 1) == quote_next(quote_at(v, 0, 0), v[0]));
    assert forall|k: int| 1 <= k < 1 + n implies #[trigger] v[k] != '"' && v[k] != '\\' by {
        assert(v[k] == a[k - 1]);
    }
    lemma_inside_run(v, 1, 1 + n, '{', '}');
    assert(v[1 + n] == '\\');
    assert(v[2 + n] == escaped);
    assert(quote_at(v, 0, 2 + n) == quote_next(quote_at(v, 0, 1 + n), v[1 + n]));
    assert(quote_at(v, 0, 3 + n) == quote_next(quote_at(v, 0, 2 + n), v[2 + n]));
    assert forall|k: int| 3 + n <= k < 3 + n + m implies #[trigger] v[k] != '"' && v[k]
        != '\\' by {
        assert(v[k] == b[k - 3 - n]);
    }
    lemma_inside_run(v, 3 + n, 3 + n + m, '{', '}');
    assert(v[3 + n + m] == '"');
    assert(quote_at(v, 0, 4 + n + m) == quote_next(quote_at(v, 0, 3 + n + m), v[3 + n + m]));
    assert forall|k: int| 0 < k < v.len() implies #[trigger] quote_at(v, 0, k)
        != Quote::Outside by {
        if k == 2 + n {
        } else if k <= 1 + n {
            assert(quote_at(v, 0, k) == Quote::Inside);
        } else {
            assert(quote_at(v, 0, k) == Quote::Inside);
        }
    }
    assert(value_at(v, 0, v.len() as int));
    law_fenced_value_extracted(v, suffix);
    assert(text@ =~= v + suffix);
    lemma_first_value_unique(text@, v, r->0@);
}

/// An object whose only brackets of its kind stand in a string is extracted whole: the
/// brackets in the string neither open nor close it.
pub proof fn law_brackets_in_strings_do_not_count(
    before: Seq<char>,
    inside: Seq<char>,
    after: Seq<char>,
    suffix: Seq<char>,
    text: &str,
    r: Option<String>,
)
    requires
        forall|k: int|
            0 <= k < before.len() ==> #[trigger] before[k] != '"' && before[k] != '{' && before[k]
                != '}',
        forall|k: int|
            0 <= k < after.len() ==> #[trigger] after[k] != '"' && after[k] != '{' && after[k]
                != '}',
        forall|k: int| 0 <= k < inside.len() ==> #[trigger] inside[k] != '"' && inside[k] != '\\',
        text@ == seq!['{'] + before + seq!['"'] + inside + seq!['"'] + after + seq!['}'] + suffix,
        call_ensures(extract_top_level_json_value, (text,), r),
    ensures
        r matches Some(v) && v@ == seq!['{'] + before + seq!['"'] + inside + seq!['"'] + after
            + seq!['}'],
{
    let v = seq!['{'] + before + seq!['"'] + inside + seq!['"'] + after + seq!['}'];
    let i = 1 + before.len() as int;
    let j = i + 1 + inside.len() as int;
    let e = j + 1 + after.len() as int;
    assert(v[0] == '{');
    assert(open_brackets(v, 0, 0, '{', '}') == 0);
    assert(quote_at(v, 0, 0) == Quote::Outside);
    assert(quote_at(v, 0, 1) == quote_next(quote_at(v, 0, 0), v[0]));
    assert(open_brackets(v, 0, 1, '{', '}') == 1);
    assert forall|k: int| 1 <= k < i implies #[trigger] v[k] != '"' && v[k] != '{' && v[k]
        != '}' by {
        assert(v[k] == before[k - 1]);
    }
    lemma_outside_run(v, 1, i);
    assert(v[i] == '"');
    assert(quote_at(v, 0, i) == Quote::Outside);
    assert(open_brackets(v, 0, i, '{', '}') == 1);
    assert(quote_at(v, 0, i + 1) == quote_next(quote_at(v, 0, i), v[i]));
    assert(open_brackets(v, 0, i + 1, '{', '}') == 1);
    assert forall|k: int| i + 1 <= k < j implies #[trigger] v[k] != '"' && v[k] != '\\' by {
        assert(v[k] == inside[k - i - 1]);
    }
    lemma_inside_run(v, i + 1, j, '{', '}');
    assert(v[j] == '"');
    assert(quote_at(v, 0, j + 1) == quote_next(quote_at(v, 0, j), v[j]));
    assert(open_brackets(v, 0, j + 1, '{', '}') == 1);
    assert forall|k: int| j + 1 <= k < e implies #[trigger] v[k] != '"' && v[k] != '{' && v[k]
        != '}' by {
        assert(v[k] == after[k - j - 1]);
    }
    lemma_outside_run(v, j + 1, e);
    assert(v[e] == '}');
    assert(v.len() == e + 1);
    assert(quote_at(v, 0, e) == Quote::Outside);
    assert(open_brackets(v, 0, e, '{', '}') == 1);
    assert(open_brackets(v, 0, e + 1, '{', '}') == 0);
    assert(value_at(v, 0, v.len() as int));
    law_fenced_value_extracted(v, suffix);
    assert(text@ =~= v + suffix);
    lemma_first_value_unique(text@, v, r->0@);
}

/// Outside of string literals, characters other than quotes and braces change nothing.
proof fn lemma_outside_run(s: Seq<char>, i: int, j: int)
    requires
        0 <= i <= j <= s.len(),
        quote_at(s, 0, i) == Quote::Outside,
        open_brackets(s, 0, i, '{', '}') == 1,
        forall|k: int| i <= k < j ==> #[trigger] s[k] != '"' && s[k] != '{' && s[k] != '}',
    ensures
        forall|k: int| i <= k <= j ==> #[trigger] quote_at(s, 0, k) == Quote::Outside,
        forall|k: int| i <= k <= j ==> #[trigger] open_brackets(s, 0, k, '{', '}') == 1,
    decreases j - i,
{
    if i < j {
        lemma_outside_run(s, i, j - 1);
        assert(s[j - 1] != '"');
        assert(quote_at(s, 0, j - 1) == Quote::Outside);
        assert(open_brackets(s, 0, j - 1, '{', '}') == 1);
        assert(quote_at(s, 0, j) == quote_next(quote_at(s, 0, j - 1), s[j - 1]));
        assert(open_brackets(s, 0, j, '{', '}') == 1);
    }
}

/// The words `true`, `false` and `null` and runs of digits are values by themselves.
pub proof fn law_words_and_numbers_are_values(digits: Seq<char>)
    requires
        digits.len() > 0,
        forall|k: int| 0 <= k < digits.len() ==> '0' <= #[trigger] digits[k] <= '9',
    ensures
        value_at("true"@, 0, 4),
        value_at("false"@, 0, 5),
        value_at("null"@, 0, 4),
        value_at(digits, 0, digits.len() as int),
        value_at(seq!['-'] + digits, 0, digits.len() as int + 1),
        !value_at(seq!['-'], 0, 1),
{
    reveal_strlit("true");
    reveal_strlit("false");
    reveal_strlit("null");
    assert("true"@.subrange(0, 4) =~= "true"@);
    assert("false"@.subrange(0, 5) =~= "false"@);
    assert("null"@.subrange(0, 4) =~= "null"@);
    assert("true"@[0] == 't');
    assert("false"@[0] == 'f');
    assert("null"@[0] == 'n');
    assert('0' <= digits[0] <= '9');
    let m = seq!['-'] + digits;
    assert(m[1] == digits[0]);
    assert forall|k: int| 0 <= k < m.len() implies is_number_char(#[trigger] m[k]) by {
        if k > 0 {
            assert(m[k] == digits[k - 1]);
        }
    }
}

/// Where only JSON is wanted, what stands in front of it is dropped: a text from an
/// opening bracket or quote on is shown as it is, also behind a code-fence header or
/// behind other characters that begin no value; a text in which nothing begins a value
/// is not shown.
pub proof fn law_only_json_is_shown(before: Seq<char>, s: Seq<char>)
    requires
        s.len() > 0,
        s[0] == '{' || s[0] == '[' || s[0] == '"',
        before.len() > 0 ==> !is_ascii_white(before[0]) && before[0] != '`',
        forall|i: int|
            0 <= i < before.len() ==> {
                let c = #[trigger] before[i];
                c != '{' && c != '[' && c != '"' && c != 't' && c != 'f' && c != 'n' && c != '-'
                    && !('0' <= c <= '9')
            },
    ensures
        json_text(s) == Some(s),
        json_text("```json\n"@ + s) == Some(s),
        json_text("```\n"@ + s) == Some(s),
        json_text(before + s) == Some(s),
        json_text(before) is None,
{
    lemma_json_text_behind_fence(s);
    reveal_strlit("```");
    let t = before + s;
    assert(skip_ascii_white(s) == s);
    if starts_with(s, "```"@) {
        assert(s.subrange(0, 3)[0] == '`');
    }
    assert(json_begin(s, 0) == Some(0int));
    assert(s.subrange(0, s.len() as int) =~= s);
    if before.len() > 0 {
        assert(t[0] == before[0]);
        assert(skip_ascii_white(t) == t);
        assert(skip_ascii_white(before) == before);
        if starts_with(t, "```"@) {
            assert(t.subrange(0, 3)[0] == '`');
        }
        if starts_with(before, "```"@) {
            assert(before.subrange(0, 3)[0] == '`');
        }
    } else {
        assert(t =~= s);
        assert(before =~= Seq::empty());
        if starts_with(before, "```"@) {
            assert("```"@.len() == 3);
        }
    }
    assert(strip_fence(t) == t);
    assert(strip_fence(before) == before);
    lemma_begin_behind(before, s, 0);
    assert(t.subrange(before.len() as int, t.len() as int) =~= s);
}

proof fn lemma_begin_behind(before: Seq<char>, s: Seq<char>, i: int)
    requires
        0 <= i <= before.len(),
        s.len() > 0,
        begins_json(s[0]),
        forall|k: int| 0 <= k < before.len() ==> !begins_json(#[trigger] before[k]),
    ensures
        json_begin(before + s, i) == Some(before.len() as int),
        json_begin(before, i) is None,
    decreases before.len() - i,
{
    let t = before + s;
    if i < before.len() {
        assert(t[i] == before[i]);
        lemma_begin_behind(before, s, i + 1);
    } else {
        assert(t[i] == s[0]);
    }
}

proof fn lemma_json_text_behind_fence(s: Seq<char>)
    requires
        s.len() > 0,
        s[0] == '{' || s[0] == '[' || s[0] == '"',
    ensures
        json_text("```json\n"@ + s) == Some(s),
        json_text("```\n"@ + s) == Some(s),
{
    reveal_strlit("```json\n");
    reveal_strlit("```\n");
    reveal_strlit("```");
    reveal_strlit("json");
    assert(skip_ascii_white(s) == s);
    assert(s.subrange(0, s.len() as int) =~= s);
    let t = "```json\n"@ + s;
    assert(t[0] == '`');
    assert(skip_ascii_white(t) == t);
    assert(t.subrange(0, 3) =~= "```"@);
    let a = t.subrange(3, t.len() as int);
    assert(a.subrange(0, 4) =~= "json"@);
    let l = a.subrange(4, a.len() as int);
    assert(l[0] == '\n');
    assert(l.subrange(1, l.len() as int) =~= s);
    assert(skip_ascii_white(l) == skip_ascii_white(s));
    let u = "```\n"@ + s;
    assert(u[0] == '`');
    assert(skip_ascii_white(u) == u);
    assert(u.subrange(0, 3) =~= "```"@);
    let b = u.subrange(3, u.len() as int);
    assert(b[0] == '\n');
    if starts_with(b, "json"@) {
        assert(b.subrange(0, 4)[0] == 'j');
    }
    assert(b.subrange(1, b.len() as int) =~= s);
    assert(skip_ascii_white(b) == skip_ascii_white(s));
}

} // verus!
