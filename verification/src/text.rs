//! Character-level text utilities shared by the other modules.
//!
//! Every function works on the view of a string, its sequence of `char`s.

use vstd::prelude::*;
use vstd::std_specs::iter::IteratorSpec;
use vstd::string::StringExecFns;

verus! {

broadcast use vstd::string::group_string_axioms;

/// `String::push` appends one character to the end of the string.
pub assume_specification[ String::push ](s: &mut String, c: char)
    ensures
        final(s)@ == old(s)@.push(c),
;

// ── Views of containers ──────────────────────────────────────────────────────

/// The views of the elements of a sequence, in order.
pub open spec fn views<T: View>(s: Seq<T>) -> Seq<T::V> {
    Seq::new(s.len(), |i: int| s[i]@)
}

/// The view of an optional value.
pub open spec fn opt_view<T: View>(o: Option<T>) -> Option<T::V> {
    match o {
        Some(v) => Some(v@),
        None => None,
    }
}

/// The views of the elements of an optional vector.
pub open spec fn opt_views<T: View>(o: Option<Vec<T>>) -> Option<Seq<T::V>> {
    match o {
        Some(v) => Some(views(v@)),
        None => None,
    }
}

/// Appending an element appends its view.
pub proof fn lemma_views_push<T: View>(s: Seq<T>, x: T)
    ensures
        views(s.push(x)) == views(s).push(x@),
{
    assert(views(s.push(x)) =~= views(s).push(x@));
}

/// Concatenation commutes with taking views.
pub proof fn lemma_views_add<T: View>(a: Seq<T>, b: Seq<T>)
    ensures
        views(a + b) == views(a) + views(b),
{
    assert(views(a + b) =~= views(a) + views(b));
}

// ── Conversion between strings and character vectors ─────────────────────────

/// The characters of `s`, in order.
pub fn chars_of(s: &str) -> (r: Vec<char>)
    ensures
        r@ == s@,
{
    let mut out: Vec<char> = Vec::new();
    let mut it = s.chars();
    loop
        invariant
            out@ + it.remaining() == s@,
            it.decrease() is Some,
        ensures
            out@ == s@,
        decreases it.decrease()->0,
    {
        match it.next() {
            Some(c) => {
                out.push(c);
                proof {
                    assert(out@ + it.remaining() =~= s@);
                }
            },
            None => {
                proof {
                    assert(out@ =~= s@);
                }
                break;
            },
        }
    }
    out
}

/// The string whose characters are `cs[from..to]`.
pub fn string_of(cs: &Vec<char>, from: usize, to: usize) -> (r: String)
    requires
        from <= to <= cs@.len(),
    ensures
        r@ == cs@.subrange(from as int, to as int),
{
    let mut out = String::new();
    let mut i: usize = from;
    while i < to
        invariant
            from <= i <= to <= cs@.len(),
            out@ == cs@.subrange(from as int, i as int),
        decreases to - i,
    {
        out.push(cs[i]);
        i += 1;
        proof {
            assert(out@ =~= cs@.subrange(from as int, i as int));
        }
    }
    proof {
        assert(out@ =~= cs@.subrange(from as int, to as int));
    }
    out
}

/// Concatenation of two texts.
pub fn join2(a: &str, b: &str) -> (r: String)
    ensures
        r@ == a@ + b@,
{
    let mut out = String::new();
    out.append(a);
    out.append(b);
    proof {
        assert(out@ =~= a@ + b@);
    }
    out
}

/// Concatenation of three texts.
pub fn join3(a: &str, b: &str, c: &str) -> (r: String)
    ensures
        r@ == a@ + b@ + c@,
{
    let mut out = join2(a, b);
    out.append(c);
    out
}

/// Concatenation of five texts.
pub fn join5(a: &str, b: &str, c: &str, d: &str, e: &str) -> (r: String)
    ensures
        r@ == a@ + b@ + c@ + d@ + e@,
{
    let mut out = join3(a, b, c);
    out.append(d);
    out.append(e);
    out
}

/// A copy of an optional text.
pub fn copy_opt_text(o: &Option<String>) -> (r: Option<String>)
    ensures
        opt_view(r) == opt_view(*o),
        r is Some == o is Some,
{
    match o {
        Some(s) => Some(s.clone()),
        None => None,
    }
}

/// A copy of a vector of texts.
pub fn copy_texts(v: &Vec<String>) -> (r: Vec<String>)
    ensures
        views(r@) == views(v@),
{
    let mut out: Vec<String> = Vec::new();
    let mut i: usize = 0;
    while i < v.len()
        invariant
            i <= v@.len(),
            out@.len() == i,
            forall|k: int| 0 <= k < i ==> (#[trigger] out@[k])@ == v@[k]@,
        decreases v@.len() - i,
    {
        out.push(v[i].clone());
        i += 1;
    }
    proof {
        assert(views(out@) =~= views(v@));
    }
    out
}

/// How a text is shown by the `{:?}` format.
pub uninterp spec fn debug_text(s: Seq<char>) -> Seq<char>;

/// Calls `format!` with `{:?}` on a text, which quotes and escapes it. The result
/// is determined by the text.
#[verifier::external_body]
pub(crate) fn text_debug(s: &str) -> (r: String)
    ensures
        r@ == debug_text(s@),
{
    format!("{:?}", s)
}

// ── Comparison and search ────────────────────────────────────────────────────

/// Whether two character vectors are equal.
pub fn chars_eq(a: &Vec<char>, b: &Vec<char>) -> (r: bool)
    ensures
        r == (a@ == b@),
{
    if a.len() != b.len() {
        return false;
    }
    let mut i: usize = 0;
    while i < a.len()
        invariant
            i <= a@.len(),
            a@.len() == b@.len(),
            forall|j: int| 0 <= j < i ==> a@[j] == b@[j],
        decreases a@.len() - i,
    {
        if a[i] != b[i] {
            return false;
        }
        i += 1;
    }
    proof {
        assert(a@ =~= b@);
    }
    true
}

/// Whether two texts are equal.
pub fn text_eq(a: &str, b: &str) -> (r: bool)
    ensures
        r == (a@ == b@),
{
    chars_eq(&chars_of(a), &chars_of(b))
}

/// `pat` stands in `hay` at position `i`.
pub open spec fn occurs_at<T>(hay: Seq<T>, pat: Seq<T>, i: int) -> bool {
    &&& 0 <= i
    &&& i + pat.len() <= hay.len()
    &&& hay.subrange(i, i + pat.len()) == pat
}

/// `pat` stands somewhere in `hay`.
pub open spec fn contains<T>(hay: Seq<T>, pat: Seq<T>) -> bool {
    exists|i: int| occurs_at(hay, pat, i)
}

/// Whether `pat` stands in `hay` at position `i`.
pub fn match_at(hay: &Vec<char>, pat: &Vec<char>, i: usize) -> (r: bool)
    ensures
        r == occurs_at(hay@, pat@, i as int),
{
    if i > hay.len() || pat.len() > hay.len() - i {
        return false;
    }
    let n: usize = hay.len();
    let mut k: usize = 0;
    while k < pat.len()
        invariant
            k <= pat@.len(),
            n == hay@.len(),
            i + pat@.len() <= n,
            forall|j: int| 0 <= j < k ==> hay@[i + j] == pat@[j],
        decreases pat@.len() - k,
    {
        if hay[i + k] != pat[k] {
            proof {
                assert(hay@.subrange(i as int, i + pat@.len())[k as int] != pat@[k as int]);
            }
            return false;
        }
        k += 1;
    }
    proof {
        assert(hay@.subrange(i as int, i + pat@.len()) =~= pat@);
    }
    true
}

/// The least position at or after `from` at which `pat` stands in `hay`.
pub fn find_from(hay: &Vec<char>, pat: &Vec<char>, from: usize) -> (r: Option<usize>)
    ensures
        match r {
            Some(i) => {
                &&& from <= i
                &&& occurs_at(hay@, pat@, i as int)
                &&& forall|j: int| from <= j < i ==> !occurs_at(hay@, pat@, j)
            },
            None => forall|j: int| from <= j ==> !occurs_at(hay@, pat@, j),
        },
{
    let mut i: usize = from;
    while i <= hay.len() && pat.len() <= hay.len() - i
        invariant
            from <= i,
            i <= hay@.len() + 1 || i == from,
            forall|j: int| from <= j < i ==> !occurs_at(hay@, pat@, j),
        decreases hay@.len() + 1 - i,
    {
        if match_at(hay, pat, i) {
            return Some(i);
        }
        if i == hay.len() {
            return None;
        }
        i += 1;
    }
    None
}

/// Whether `hay` holds `pat`.
pub fn text_contains(hay: &str, pat: &str) -> (r: bool)
    ensures
        r == contains(hay@, pat@),
{
    let h = chars_of(hay);
    let p = chars_of(pat);
    let found = find_from(&h, &p, 0);
    proof {
        match found {
            Some(i) => {
                assert(occurs_at(hay@, pat@, i as int));
            },
            None => {},
        }
    }
    found.is_some()
}

/// `pat` is a prefix of `hay`.
pub open spec fn starts_with<T>(hay: Seq<T>, pat: Seq<T>) -> bool {
    occurs_at(hay, pat, 0)
}

/// `pat` is a suffix of `hay`.
pub open spec fn ends_with<T>(hay: Seq<T>, pat: Seq<T>) -> bool {
    occurs_at(hay, pat, hay.len() - pat.len())
}

/// Whether `hay` begins with `pat`.
pub fn text_starts_with(hay: &str, pat: &str) -> (r: bool)
    ensures
        r == starts_with(hay@, pat@),
{
    match_at(&chars_of(hay), &chars_of(pat), 0)
}

/// Whether `hay` ends with `pat`.
pub fn text_ends_with(hay: &str, pat: &str) -> (r: bool)
    ensures
        r == ends_with(hay@, pat@),
{
    let h = chars_of(hay);
    let p = chars_of(pat);
    if p.len() > h.len() {
        return false;
    }
    match_at(&h, &p, h.len() - p.len())
}

// ── Whitespace ───────────────────────────────────────────────────────────────

/// The characters with the Unicode `White_Space` property.
pub open spec fn is_white(c: char) -> bool {
    ||| '\u{9}' <= c <= '\u{d}'
    ||| c == ' '
    ||| c == '\u{85}'
    ||| c == '\u{a0}'
    ||| c == '\u{1680}'
    ||| '\u{2000}' <= c <= '\u{200a}'
    ||| c == '\u{2028}'
    ||| c == '\u{2029}'
    ||| c == '\u{202f}'
    ||| c == '\u{205f}'
    ||| c == '\u{3000}'
}

/// Whether `c` has the Unicode `White_Space` property.
pub fn char_is_white(c: char) -> (r: bool)
    ensures
        r == is_white(c),
{
    ('\u{9}' <= c && c <= '\u{d}') || c == ' ' || c == '\u{85}' || c == '\u{a0}' || c == '\u{1680}'
        || ('\u{2000}' <= c && c <= '\u{200a}') || c == '\u{2028}' || c == '\u{2029}' || c
        == '\u{202f}' || c == '\u{205f}' || c == '\u{3000}'
}

/// `s` without its leading whitespace.
pub open spec fn trim_start(s: Seq<char>) -> Seq<char>
    decreases s.len(),
{
    if s.len() > 0 && is_white(s[0]) {
        trim_start(s.subrange(1, s.len() as int))
    } else {
        s
    }
}

/// `s` without its trailing whitespace.
pub open spec fn trim_end(s: Seq<char>) -> Seq<char>
    decreases s.len(),
{
    if s.len() > 0 && is_white(s[s.len() - 1]) {
        trim_end(s.subrange(0, s.len() - 1))
    } else {
        s
    }
}

/// `s` without leading and trailing whitespace.
pub open spec fn trim(s: Seq<char>) -> Seq<char> {
    trim_end(trim_start(s))
}

/// `s` without leading and trailing whitespace.
pub fn text_trim(s: &str) -> (r: String)
    ensures
        r@ == trim(s@),
{
    let cs = chars_of(s);
    let mut from: usize = 0;
    proof {
        assert(cs@.subrange(0, cs@.len() as int) =~= cs@);
    }
    while from < cs.len() && char_is_white(cs[from])
        invariant
            from <= cs@.len(),
            trim_start(cs@.subrange(from as int, cs@.len() as int)) == trim_start(s@),
        decreases cs@.len() - from,
    {
        proof {
            let t = cs@.subrange(from as int, cs@.len() as int);
            assert(t.subrange(1, t.len() as int) =~= cs@.subrange(from + 1, cs@.len() as int));
        }
        from += 1;
    }
    let mut to: usize = cs.len();
    while to > from && char_is_white(cs[to - 1])
        invariant
            from <= to <= cs@.len(),
            trim_end(cs@.subrange(from as int, to as int)) == trim(s@),
        decreases to - from,
    {
        proof {
            let t = cs@.subrange(from as int, to as int);
            assert(t.subrange(0, t.len() - 1) =~= cs@.subrange(from as int, to - 1));
        }
        to -= 1;
    }
    string_of(&cs, from, to)
}

/// A text that neither begins nor ends with whitespace is kept by trimming.
pub proof fn lemma_trim_plain(s: Seq<char>)
    requires
        s.len() > 0 ==> !is_white(s[0]) && !is_white(s[s.len() - 1]),
    ensures
        trim(s) == s,
{
}

// ── Decimal numbers ──────────────────────────────────────────────────────────

/// The character of a decimal digit.
pub open spec fn digit_char(d: nat) -> char {
    if d == 0 {
        '0'
    } else if d == 1 {
        '1'
    } else if d == 2 {
        '2'
    } else if d == 3 {
        '3'
    } else if d == 4 {
        '4'
    } else if d == 5 {
        '5'
    } else if d == 6 {
        '6'
    } else if d == 7 {
        '7'
    } else if d == 8 {
        '8'
    } else {
        '9'
    }
}

/// The decimal digits of `n`, without leading zeros.
pub open spec fn decimal(n: nat) -> Seq<char>
    decreases n,
{
    if n < 10 {
        seq![digit_char(n)]
    } else {
        decimal(n / 10).push(digit_char(n % 10))
    }
}

/// The decimal digits of an integer, with `-` in front of a negative one.
pub open spec fn decimal_int(n: int) -> Seq<char> {
    if n < 0 {
        seq!['-'] + decimal((-n) as nat)
    } else {
        decimal(n as nat)
    }
}

fn digit_to_char(d: u64) -> (c: char)
    requires
        d < 10,
    ensures
        c == digit_char(d as nat),
{
    if d == 0 {
        '0'
    } else if d == 1 {
        '1'
    } else if d == 2 {
        '2'
    } else if d == 3 {
        '3'
    } else if d == 4 {
        '4'
    } else if d == 5 {
        '5'
    } else if d == 6 {
        '6'
    } else if d == 7 {
        '7'
    } else if d == 8 {
        '8'
    } else {
        '9'
    }
}

/// Decimal rendering of an unsigned integer.
pub fn u64_text(n: u64) -> (r: String)
    ensures
        r@ == decimal(n as nat),
    decreases n,
{
    if n < 10 {
        let mut out = String::new();
        out.push(digit_to_char(n));
        proof {
            assert(out@ =~= decimal(n as nat));
        }
        out
    } else {
        let mut out = u64_text(n / 10);
        out.push(digit_to_char(n % 10));
        out
    }
}

/// Decimal rendering of a signed integer.
pub fn i64_text(n: i64) -> (r: String)
    ensures
        r@ == decimal_int(n as int),
{
    if n >= 0 {
        u64_text(n as u64)
    } else {
        let magnitude: u64 = if n == i64::MIN {
            9223372036854775808u64
        } else {
            (-n) as u64
        };
        let digits = u64_text(magnitude);
        let r = join2("-", digits.as_str());
        proof {
            reveal_strlit("-");
            assert("-"@ =~= seq!['-']);
        }
        r
    }
}

/// The value of a decimal digit.
pub open spec fn digit_value(c: char) -> Option<nat> {
    if '0' <= c <= '9' {
        Some((c as nat - '0' as nat) as nat)
    } else {
        None
    }
}

/// The value of a non-empty run of decimal digits.
pub open spec fn digits_value(s: Seq<char>) -> Option<nat>
    decreases s.len(),
{
    if s.len() == 0 {
        None
    } else if s.len() == 1 {
        digit_value(s[0])
    } else {
        match (digits_value(s.subrange(0, s.len() - 1)), digit_value(s[s.len() - 1])) {
            (Some(v), Some(d)) => Some(10 * v + d),
            _ => None,
        }
    }
}

/// The value of an unsigned decimal number: digits, with an optional leading `+`.
pub open spec fn unsigned_value(s: Seq<char>) -> Option<nat> {
    if s.len() > 0 && s[0] == '+' {
        digits_value(s.subrange(1, s.len() as int))
    } else {
        digits_value(s)
    }
}

proof fn lemma_digits_prefix(s: Seq<char>, n: int)
    requires
        1 <= n <= s.len(),
        digits_value(s.subrange(0, n)) is None,
    ensures
        digits_value(s) is None,
    decreases s.len() - n,
{
    if n == s.len() {
        assert(s.subrange(0, n) =~= s);
    } else {
        let t = s.subrange(0, n + 1);
        assert(t.subrange(0, t.len() - 1) =~= s.subrange(0, n));
        lemma_digits_prefix(s, n + 1);
    }
}

proof fn lemma_digits_grow(s: Seq<char>, n: int, bound: nat)
    requires
        1 <= n <= s.len(),
        digits_value(s.subrange(0, n)) matches Some(v) && v > bound,
    ensures
        digits_value(s) matches Some(v) ==> v > bound,
    decreases s.len() - n,
{
    if n == s.len() {
        assert(s.subrange(0, n) =~= s);
    } else {
        let t = s.subrange(0, n + 1);
        assert(t.subrange(0, t.len() - 1) =~= s.subrange(0, n));
        if digits_value(t) is None {
            lemma_digits_prefix(s, n + 1);
        } else {
            lemma_digits_grow(s, n + 1, bound);
        }
    }
}

/// The value of `cs[from..]` as a run of decimal digits that fits in 64 bits.
pub fn parse_digits(cs: &Vec<char>, from: usize) -> (r: Option<u64>)
    requires
        from <= cs@.len(),
    ensures
        r == match digits_value(cs@.subrange(from as int, cs@.len() as int)) {
            Some(v) if v <= u64::MAX => Some(v as u64),
            _ => None,
        },
{
    let ghost s = cs@.subrange(from as int, cs@.len() as int);
    if from == cs.len() {
        return None;
    }
    let mut value: u64 = 0;
    let mut i: usize = from;
    while i < cs.len()
        invariant
            from <= i <= cs@.len(),
            from < cs@.len(),
            s == cs@.subrange(from as int, cs@.len() as int),
            i == from ==> value == 0,
            i > from ==> digits_value(s.subrange(0, i - from)) == Some(value as nat),
        decreases cs@.len() - i,
    {
        let c = cs[i];
        let ghost n = i + 1 - from;
        let ghost t = s.subrange(0, n);
        proof {
            assert(t.subrange(0, t.len() - 1) =~= s.subrange(0, i - from));
            assert(t[t.len() - 1] == c);
        }
        if c < '0' || c > '9' {
            proof {
                lemma_digits_prefix(s, n);
            }
            return None;
        }
        let d: u64 = (c as u32 - '0' as u32) as u64;
        if value > u64::MAX / 10 || value * 10 > u64::MAX - d {
            proof {
                assert(digits_value(t) matches Some(v) && v > u64::MAX);
                lemma_digits_grow(s, n, u64::MAX as nat);
            }
            return None;
        }
        value = value * 10 + d;
        i += 1;
    }
    proof {
        assert(s.subrange(0, cs@.len() - from) =~= s);
    }
    Some(value)
}

/// The value of an unsigned decimal text, with an optional leading `+`, when it
/// does not exceed `max`.
pub fn parse_unsigned(text: &str, max: u64) -> (r: Option<u64>)
    ensures
        r == match unsigned_value(text@) {
            Some(v) if v <= max => Some(v as u64),
            _ => None,
        },
{
    let cs = chars_of(text);
    let from: usize = if cs.len() > 0 && cs[0] == '+' {
        1
    } else {
        0
    };
    proof {
        assert(cs@.subrange(0, cs@.len() as int) =~= cs@);
    }
    match parse_digits(&cs, from) {
        Some(v) => if v <= max {
            Some(v)
        } else {
            None
        },
        None => None,
    }
}

/// Reading back a decimal rendering gives the number.
pub proof fn law_decimal_round_trip(n: nat)
    ensures
        digits_value(decimal(n)) == Some(n),
        decimal(n).len() >= 1,
        unsigned_value(decimal(n)) == Some(n),
    decreases n,
{
    if n >= 10 {
        law_decimal_round_trip(n / 10);
        let s = decimal(n);
        assert(s.subrange(0, s.len() - 1) =~= decimal(n / 10));
    }
    lemma_decimal_ends(n);
}

/// A decimal rendering begins and ends with a digit.
pub proof fn lemma_decimal_ends(n: nat)
    ensures
        decimal(n).len() >= 1,
        '0' <= decimal(n)[0] <= '9',
        '0' <= decimal(n)[decimal(n).len() - 1] <= '9',
    decreases n,
{
    if n >= 10 {
        lemma_decimal_ends(n / 10);
    }
}

// ── Laws ─────────────────────────────────────────────────────────────────────

/// A number is written by its digits, the highest first: a digit by itself, and a
/// further digit behind those of the number before it.
pub proof fn law_numbers_are_written_in_digits(n: nat, d: nat)
    requires
        d < 10,
    ensures
        decimal(d) == seq!["0123456789"@[d as int]],
        n > 0 ==> decimal(10 * n + d) == decimal(n).push("0123456789"@[d as int]),
{
    reveal_strlit("0123456789");
    let digits = "0123456789"@;
    assert(digits[0] == '0' && digits[1] == '1' && digits[2] == '2' && digits[3] == '3'
        && digits[4] == '4' && digits[5] == '5' && digits[6] == '6' && digits[7] == '7'
        && digits[8] == '8' && digits[9] == '9');
    assert(digit_char(d) == digits[d as int]);
    if n > 0 {
        assert((10 * n + d) / 10 == n);
        assert((10 * n + d) % 10 == d);
    }
}

/// The views of elements are those elements' views, at their places.
pub proof fn law_views_are_elementwise<T: View>(s: Seq<T>, i: int, o: Option<T>)
    ensures
        views(s).len() == s.len(),
        0 <= i < s.len() ==> views(s)[i] == s[i]@,
        opt_view(o) is Some == o is Some,
        o matches Some(x) ==> opt_view(o) == Some(x@),
{
}

/// Trimming takes whitespace off both ends of a text that has none there itself.
pub proof fn law_trim_takes_whitespace_off(text: Seq<char>, c: char)
    requires
        c == ' ' || c == '\t' || c == '\n' || c == '\r',
    ensures
        trim(seq![c] + text) == trim(text),
        text.len() > 0 && !is_white(text[0]) && !is_white(text[text.len() - 1]) ==> trim(
            text + seq![c],
        ) == text && trim(text) == text,
{
    let t = seq![c] + text;
    assert(t.subrange(1, t.len() as int) =~= text);
    if text.len() > 0 && !is_white(text[0]) && !is_white(text[text.len() - 1]) {
        let u = text + seq![c];
        assert(u[0] == text[0]);
        assert(u.subrange(0, u.len() - 1) =~= text);
        assert(trim_end(text) == text);
        assert(trim_end(u) == trim_end(text));
    }
}

/// A number is read from its digits, also behind a plus sign, as long as it is no
/// greater than what is asked for.
pub proof fn law_numbers_are_read_from_digits(
    n: u64,
    max: u64,
    text: &str,
    signed: &str,
    r: Option<u64>,
    s: Option<u64>,
)
    requires
        text@ == decimal(n as nat),
        signed@ == seq!['+'] + decimal(n as nat),
        call_ensures(parse_unsigned, (text, max), r),
        call_ensures(parse_unsigned, (signed, max), s),
    ensures
        n <= max ==> r == Some(n) && s == Some(n),
        n > max ==> r is None && s is None,
{
    law_decimal_round_trip(n as nat);
    lemma_decimal_ends(n as nat);
    let t = seq!['+'] + decimal(n as nat);
    assert(t.subrange(1, t.len() as int) =~= decimal(n as nat));
}

/// Texts are compared, searched and joined character by character.
pub proof fn law_texts_are_compared(
    a: &str,
    b: &str,
    same: bool,
    within: bool,
    first: bool,
    last: bool,
    both: String,
)
    requires
        call_ensures(text_eq, (a, b), same),
        call_ensures(text_contains, (a, b), within),
        call_ensures(text_starts_with, (a, b), first),
        call_ensures(text_ends_with, (a, b), last),
        call_ensures(join2, (a, b), both),
    ensures
        same == (a@ == b@),
        forall|x: Seq<char>, y: Seq<char>| a@ == #[trigger] (x + b@ + y) ==> within,
        forall|y: Seq<char>| a@ == #[trigger] (b@ + y) ==> first,
        forall|x: Seq<char>| a@ == #[trigger] (x + b@) ==> last,
        first ==> a@.subrange(0, b@.len() as int) == b@,
        last ==> a@.subrange(a@.len() - b@.len(), a@.len() as int) == b@,
        both@ == a@ + b@,
{
    assert forall|x: Seq<char>, y: Seq<char>| a@ == #[trigger] (x + b@ + y) implies within by {
        assert(a@.subrange(x.len() as int, x.len() as int + b@.len()) =~= b@);
        assert(occurs_at(a@, b@, x.len() as int));
    }
    assert forall|y: Seq<char>| a@ == #[trigger] (b@ + y) implies first by {
        assert(a@.subrange(0, b@.len() as int) =~= b@);
    }
    assert forall|x: Seq<char>| a@ == #[trigger] (x + b@) implies last by {
        assert(a@.subrange(a@.len() - b@.len(), a@.len() as int) =~= b@);
    }
}

/// A text in which anything but digits stands behind an optional plus sign is no number,
/// nor is one without digits.
pub proof fn law_other_texts_are_no_numbers(text: &str, max: u64, r: Option<u64>, i: int)
    requires
        call_ensures(parse_unsigned, (text, max), r),
        text@.len() == 0 || text@ == seq!['+'] || (0 <= i < text@.len() && !('0' <= text@[i]
            <= '9') && !(i == 0 && text@[0] == '+')),
    ensures
        r is None,
{
    let t = text@;
    if t.len() > 0 && t != seq!['+'] {
        if t[0] == '+' {
            let rest = t.subrange(1, t.len() as int);
            assert(rest[i - 1] == t[i]);
            lemma_no_digits(rest, i - 1);
        } else {
            lemma_no_digits(t, i);
        }
    } else if t == seq!['+'] {
        assert(t.subrange(1, 1) =~= Seq::empty());
    }
}

proof fn lemma_no_digits(s: Seq<char>, i: int)
    requires
        0 <= i < s.len(),
        !('0' <= s[i] <= '9'),
    ensures
        digits_value(s) is None,
    decreases s.len(),
{
    if s.len() > 1 && i < s.len() - 1 {
        let init = s.subrange(0, s.len() - 1);
        assert(init[i] == s[i]);
        lemma_no_digits(init, i);
    }
}

} // verus!
