//! Image sources: web addresses, `data:` URIs, base64 texts and files.
//!
//! [`load_image`] tells what a source is. What can be decoded without I/O is
//! decoded at once; for a web address or a file it says what to read.

use vstd::prelude::*;
use vstd::utf8::{encode_utf8, is_ascii_chars, is_ascii_chars_encode_utf8};

use crate::header::{header_text, header_text_of};
use crate::text::{
    chars_of, contains, decimal, find_from, join2, join5, occurs_at, parse_unsigned, starts_with,
    string_of, text_contains, text_starts_with, text_trim, trim, u64_text, unsigned_value,
};

verus! {

// ── Base64 ───────────────────────────────────────────────────────────────────

/// The value of a character of the standard base64 alphabet.
pub open spec fn sextet(c: u8) -> Option<u8> {
    if 65 <= c <= 90 {
        Some((c - 65) as u8)
    } else if 97 <= c <= 122 {
        Some((c - 97 + 26) as u8)
    } else if 48 <= c <= 57 {
        Some((c - 48 + 52) as u8)
    } else if c == 43 {
        Some(62u8)
    } else if c == 47 {
        Some(63u8)
    } else {
        None
    }
}

/// The character of a six-bit value.
pub open spec fn alphabet(v: u8) -> u8 {
    if v < 26 {
        (v + 65) as u8
    } else if v < 52 {
        (v - 26 + 97) as u8
    } else if v < 62 {
        (v - 52 + 48) as u8
    } else if v == 62 {
        43
    } else {
        47
    }
}

/// Padding and ASCII whitespace carry no bits.
pub open spec fn is_filler(c: u8) -> bool {
    c == 61 || c == 32 || c == 9 || c == 10 || c == 12 || c == 13
}

/// The six-bit values of a text, without filler; `None` when another character
/// stands in it.
pub open spec fn sextets(s: Seq<u8>) -> Option<Seq<u8>>
    decreases s.len(),
{
    if s.len() == 0 {
        Some(Seq::empty())
    } else {
        match sextets(s.drop_last()) {
            None => None,
            Some(vs) => if is_filler(s.last()) {
                Some(vs)
            } else {
                match sextet(s.last()) {
                    Some(v) => Some(vs.push(v)),
                    None => None,
                }
            },
        }
    }
}

/// The `k`-th byte of the bit string that six-bit values make up.
pub open spec fn packed_byte(vs: Seq<u8>, k: int) -> u8 {
    let q = 4 * (k / 3);
    if k % 3 == 0 {
        (vs[q] * 4 + vs[q + 1] / 16) as u8
    } else if k % 3 == 1 {
        ((vs[q + 1] % 16) * 16 + vs[q + 2] / 4) as u8
    } else {
        ((vs[q + 2] % 4) * 64 + vs[q + 3]) as u8
    }
}

/// The whole bytes of the bit string that six-bit values make up.
pub open spec fn packed(vs: Seq<u8>) -> Seq<u8> {
    Seq::new((vs.len() * 6 / 8) as nat, |k: int| packed_byte(vs, k))
}

/// The first byte of `s` that is neither filler nor in the alphabet.
pub open spec fn first_invalid(s: Seq<u8>, c: u8) -> bool {
    exists|i: int|
        0 <= i < s.len() && s[i] == c && !is_filler(c) && sextet(c) is None && #[trigger] sextets(
            s.subrange(0, i),
        ) is Some
}

/// How a character is shown by the `{:?}` format.
pub uninterp spec fn char_debug_text(c: char) -> Seq<char>;

/// Calls `format!` with `{:?}` on a character. The text is determined by the
/// character.
#[verifier::external_body]
fn char_debug(c: char) -> (r: String)
    ensures
        r@ == char_debug_text(c),
{
    format!("{:?}", c)
}

fn sextet_of(c: u8) -> (r: Option<u8>)
    ensures
        r == sextet(c),
        r matches Some(v) ==> v < 64,
{
    if 65 <= c && c <= 90 {
        Some(c - 65)
    } else if 97 <= c && c <= 122 {
        Some(c - 97 + 26)
    } else if 48 <= c && c <= 57 {
        Some(c - 48 + 52)
    } else if c == 43 {
        Some(62)
    } else if c == 47 {
        Some(63)
    } else {
        None
    }
}

proof fn lemma_sextets_small(s: Seq<u8>)
    ensures
        sextets(s) matches Some(vs) ==> vs.len() <= s.len() && forall|i: int|
            0 <= i < vs.len() ==> #[trigger] vs[i] < 64,
    decreases s.len(),
{
    if s.len() > 0 {
        lemma_sextets_small(s.drop_last());
    }
}

proof fn lemma_sextets_bad(s: Seq<u8>, i: int)
    requires
        0 <= i < s.len(),
        !is_filler(s[i]),
        sextet(s[i]) is None,
    ensures
        sextets(s) is None,
    decreases s.len(),
{
    if i < s.len() - 1 {
        lemma_sextets_bad(s.drop_last(), i);
    }
}

proof fn lemma_packed_grows(vs: Seq<u8>, v: u8)
    requires
        forall|i: int| 0 <= i < vs.len() ==> #[trigger] vs[i] < 64,
        v < 64,
    ensures
        packed(vs.push(v)) == if vs.len() % 4 == 0 {
            packed(vs)
        } else {
            packed(vs).push(packed_byte(vs.push(v), packed(vs).len() as int))
        },
{
    let ws = vs.push(v);
    assert forall|k: int| 0 <= k < packed(vs).len() implies packed_byte(vs, k) == packed_byte(
        ws,
        k,
    ) by {
        let q = 4 * (k / 3);
        assert(k < vs.len() * 6 / 8);
        if k % 3 == 0 {
            assert(q + 1 < vs.len());
        } else if k % 3 == 1 {
            assert(q + 2 < vs.len());
        } else {
            assert(q + 3 < vs.len());
        }
    }
    if vs.len() % 4 == 0 {
        assert(packed(ws) =~= packed(vs));
    } else {
        assert(packed(ws) =~= packed(vs).push(packed_byte(ws, packed(vs).len() as int)));
    }
}

/// What decoding a text gives: the bytes, or the message of its rejection.
pub open spec fn base64_result(s: Seq<u8>, r: Result<Seq<u8>, Seq<char>>) -> bool {
    match sextets(s) {
        Some(vs) => if packed(vs).len() == 0 {
            r == Err::<Seq<u8>, Seq<char>>("empty base64 payload"@)
        } else {
            r == Ok::<Seq<u8>, Seq<char>>(packed(vs))
        },
        None => exists|c: u8| #[trigger]
            first_invalid(s, c) && r == Err::<Seq<u8>, Seq<char>>(
                "invalid base64 char "@ + char_debug_text(c as char),
            ),
    }
}

/// The views of a decoding result.
pub open spec fn bytes_result(r: Result<Vec<u8>, String>) -> Result<Seq<u8>, Seq<char>> {
    match r {
        Ok(v) => Ok(v@),
        Err(m) => Err(m@),
    }
}

/// Decodes a text of the standard base64 alphabet. Whitespace and padding are
/// skipped; bits that do not make up a whole byte are dropped. A text that
/// yields no byte is rejected, and so is the first character outside the
/// alphabet.
pub fn base64_decode(input: &str) -> (r: Result<Vec<u8>, String>)
    ensures
        base64_result(encode_utf8(input@), bytes_result(r)),
{
    let bytes = input.as_bytes();
    let ghost all = bytes@;
    let mut out: Vec<u8> = Vec::new();
    let mut phase: u8 = 0;
    let mut carry: u8 = 0;
    let ghost mut vs: Seq<u8> = Seq::empty();
    let mut i: usize = 0;
    proof {
        assert(all.subrange(0, 0) =~= Seq::<u8>::empty());
        assert(packed(vs) =~= Seq::<u8>::empty());
    }
    while i < bytes.len()
        invariant
            bytes@ == all,
            all == encode_utf8(input@),
            i <= all.len(),
            sextets(all.subrange(0, i as int)) == Some(vs),
            forall|k: int| 0 <= k < vs.len() ==> #[trigger] vs[k] < 64,
            out@ == packed(vs),
            phase == vs.len() % 4,
            phase == 1 ==> carry == vs.last(),
            phase == 2 ==> carry == vs.last() % 16,
            phase == 3 ==> carry == vs.last() % 4,
        decreases all.len() - i,
    {
        let c: u8 = bytes[i];
        let ghost prefix = all.subrange(0, i + 1);
        proof {
            assert(prefix.drop_last() =~= all.subrange(0, i as int));
            assert(prefix.last() == c);
        }
        if c == 61 || c == 32 || c == 9 || c == 10 || c == 12 || c == 13 {
            i += 1;
            continue;
        }
        match sextet_of(c) {
            None => {
                proof {
                    lemma_sextets_bad(all, i as int);
                    assert(first_invalid(all, c));
                }
                return Err(join2("invalid base64 char ", char_debug(c as char).as_str()));
            },
            Some(v) => {
                proof {
                    lemma_packed_grows(vs, v);
                }
                let ghost ws = vs.push(v);
                if phase == 0 {
                    carry = v;
                    phase = 1;
                } else if phase == 1 {
                    out.push(carry * 4 + v / 16);
                    carry = v % 16;
                    phase = 2;
                } else if phase == 2 {
                    out.push(carry * 16 + v / 4);
                    carry = v % 4;
                    phase = 3;
                } else {
                    out.push(carry * 64 + v);
                    carry = 0;
                    phase = 0;
                }
                proof {
                    let n = vs.len() as int;
                    let k = packed(vs).len() as int;
                    if n % 4 == 1 {
                        assert(k % 3 == 0 && 4 * (k / 3) == n - 1);
                    } else if n % 4 == 2 {
                        assert(k % 3 == 1 && 4 * (k / 3) == n - 2);
                    } else if n % 4 == 3 {
                        assert(k % 3 == 2 && 4 * (k / 3) == n - 3);
                    }
                    vs = ws;
                }
            },
        }
        i += 1;
    }
    proof {
        assert(all.subrange(0, i as int) =~= all);
    }
    if out.len() == 0 {
        return Err("empty base64 payload".to_owned());
    }
    Ok(out)
}

/// The base64 text of a byte sequence, padded to whole groups of four.
pub open spec fn encoded(d: Seq<u8>) -> Seq<char>
    decreases d.len(),
{
    if d.len() == 0 {
        Seq::empty()
    } else if d.len() == 1 {
        seq![
            alphabet((d[0] / 4) as u8) as char,
            alphabet(((d[0] % 4) * 16) as u8) as char,
            '=',
            '=',
        ]
    } else if d.len() == 2 {
        seq![
            alphabet((d[0] / 4) as u8) as char,
            alphabet(((d[0] % 4) * 16 + d[1] / 16) as u8) as char,
            alphabet(((d[1] % 16) * 4) as u8) as char,
            '=',
        ]
    } else {
        seq![
            alphabet((d[0] / 4) as u8) as char,
            alphabet(((d[0] % 4) * 16 + d[1] / 16) as u8) as char,
            alphabet(((d[1] % 16) * 4 + d[2] / 64) as u8) as char,
            alphabet((d[2] % 64) as u8) as char,
        ] + encoded(d.subrange(3, d.len() as int))
    }
}

fn alphabet_char(v: u8) -> (r: char)
    requires
        v < 64,
    ensures
        r == alphabet(v) as char,
{
    if v < 26 {
        (v + 65) as char
    } else if v < 52 {
        (v - 26 + 97) as char
    } else if v < 62 {
        (v - 52 + 48) as char
    } else if v == 62 {
        '+'
    } else {
        '/'
    }
}

/// The base64 text of `data`.
pub fn base64_encode(data: &[u8]) -> (r: String)
    ensures
        r@ == encoded(data@),
{
    let n: usize = data.len();
    let mut out = String::new();
    let mut i: usize = 0;
    proof {
        assert(data@.subrange(0, n as int) =~= data@);
        assert(out@ + encoded(data@) =~= encoded(data@));
    }
    while n - i >= 3
        invariant
            i <= n,
            n == data@.len(),
            out@ + encoded(data@.subrange(i as int, n as int)) == encoded(data@),
        decreases n - i,
    {
        let (a, b, c): (u8, u8, u8) = (data[i], data[i + 1], data[i + 2]);
        let ghost before = out@;
        out.push(alphabet_char(a / 4));
        out.push(alphabet_char((a % 4) * 16 + b / 16));
        out.push(alphabet_char((b % 16) * 4 + c / 64));
        out.push(alphabet_char(c % 64));
        proof {
            let d = data@.subrange(i as int, n as int);
            let rest = d.subrange(3, d.len() as int);
            assert(rest =~= data@.subrange(i + 3, n as int));
            assert(out@ + encoded(rest) =~= before + encoded(d));
        }
        i += 3;
    }
    let ghost before = out@;
    let ghost d = data@.subrange(i as int, n as int);
    if n - i == 1 {
        let a: u8 = data[i];
        out.push(alphabet_char(a / 4));
        out.push(alphabet_char((a % 4) * 16));
        out.push('=');
        out.push('=');
    } else if n - i == 2 {
        let (a, b): (u8, u8) = (data[i], data[i + 1]);
        out.push(alphabet_char(a / 4));
        out.push(alphabet_char((a % 4) * 16 + b / 16));
        out.push(alphabet_char((b % 16) * 4));
        out.push('=');
    }
    proof {
        assert(out@ =~= before + encoded(d));
    }
    out
}

// ── Round trip ───────────────────────────────────────────────────────────────

/// The bytes of a text of ASCII characters.
spec fn ascii_bytes(s: Seq<char>) -> Seq<u8> {
    Seq::new(s.len(), |i: int| s[i] as u8)
}

/// The six-bit values of the base64 text of `d`.
spec fn values(d: Seq<u8>) -> Seq<u8>
    decreases d.len(),
{
    if d.len() == 0 {
        Seq::empty()
    } else if d.len() == 1 {
        seq![(d[0] / 4) as u8, ((d[0] % 4) * 16) as u8]
    } else if d.len() == 2 {
        seq![
            (d[0] / 4) as u8,
            ((d[0] % 4) * 16 + d[1] / 16) as u8,
            ((d[1] % 16) * 4) as u8,
        ]
    } else {
        seq![
            (d[0] / 4) as u8,
            ((d[0] % 4) * 16 + d[1] / 16) as u8,
            ((d[1] % 16) * 4 + d[2] / 64) as u8,
            (d[2] % 64) as u8,
        ] + values(d.subrange(3, d.len() as int))
    }
}

proof fn lemma_alphabet(v: u8)
    requires
        v < 64,
    ensures
        sextet(alphabet(v)) == Some(v),
        !is_filler(alphabet(v)),
        '\0' <= alphabet(v) as char <= '\u{7f}',
        (alphabet(v) as char) as u8 == alphabet(v),
{
}

proof fn lemma_sextets_concat(a: Seq<u8>, b: Seq<u8>)
    requires
        sextets(a) is Some,
        sextets(b) is Some,
    ensures
        sextets(a + b) == Some(sextets(a)->0 + sextets(b)->0),
    decreases b.len(),
{
    if b.len() == 0 {
        assert(a + b =~= a);
        assert(sextets(a)->0 + Seq::<u8>::empty() =~= sextets(a)->0);
    } else {
        let init = b.drop_last();
        assert((a + b).drop_last() =~= a + init);
        assert((a + b).last() == b.last());
        lemma_sextets_concat(a, init);
        if !is_filler(b.last()) {
            assert(sextets(a)->0 + sextets(b)->0 =~= (sextets(a)->0 + sextets(init)->0).push(
                sextet(b.last())->0,
            ));
        }
    }
}

proof fn lemma_sextets_four(a: u8, b: u8, c: u8, d: u8)
    requires
        sextet(a) is Some,
        !is_filler(a),
        sextet(b) is Some,
        !is_filler(b),
        sextet(c) is Some && !is_filler(c) || c == 61,
        sextet(d) is Some && !is_filler(d) || d == 61,
        c == 61 ==> d == 61,
    ensures
        sextets(seq![a, b, c, d]) == Some(
            if c == 61 {
                seq![sextet(a)->0, sextet(b)->0]
            } else if d == 61 {
                seq![sextet(a)->0, sextet(b)->0, sextet(c)->0]
            } else {
                seq![sextet(a)->0, sextet(b)->0, sextet(c)->0, sextet(d)->0]
            },
        ),
{
    reveal_with_fuel(sextets, 5);
    let s = seq![a, b, c, d];
    let s3 = s.drop_last();
    let s2 = s3.drop_last();
    let s1 = s2.drop_last();
    assert(s1.drop_last() =~= Seq::<u8>::empty());
    assert(s1.last() == a && s2.last() == b && s3.last() == c && s.last() == d);
    assert(sextets(s1) == Some(Seq::<u8>::empty().push(sextet(a)->0)));
    assert(sextets(s2) == Some(Seq::<u8>::empty().push(sextet(a)->0).push(sextet(b)->0)));
}

proof fn lemma_encoded_values(d: Seq<u8>)
    ensures
        sextets(ascii_bytes(encoded(d))) == Some(values(d)),
        is_ascii_chars(encoded(d)),
    decreases d.len(),
{
    let e = encoded(d);
    if d.len() == 0 {
        assert(ascii_bytes(e) =~= Seq::<u8>::empty());
    } else {
        let v0 = (d[0] / 4) as u8;
        let v1 = ((d[0] % 4) * 16 + if d.len() > 1 {
            (d[1] / 16) as int
        } else {
            0
        }) as u8;
        lemma_alphabet(v0);
        lemma_alphabet(v1);
        if d.len() == 1 {
            lemma_sextets_four(alphabet(v0), alphabet(v1), 61, 61);
            assert(ascii_bytes(e) =~= seq![alphabet(v0), alphabet(v1), 61u8, 61u8]);
            assert(values(d) =~= seq![v0, v1]);
        } else {
            let v2 = ((d[1] % 16) * 4 + if d.len() > 2 {
                (d[2] / 64) as int
            } else {
                0
            }) as u8;
            lemma_alphabet(v2);
            if d.len() == 2 {
                lemma_sextets_four(alphabet(v0), alphabet(v1), alphabet(v2), 61);
                assert(ascii_bytes(e) =~= seq![alphabet(v0), alphabet(v1), alphabet(v2), 61u8]);
                assert(values(d) =~= seq![v0, v1, v2]);
            } else {
                let v3 = (d[2] % 64) as u8;
                lemma_alphabet(v3);
                lemma_sextets_four(alphabet(v0), alphabet(v1), alphabet(v2), alphabet(v3));
                let rest = d.subrange(3, d.len() as int);
                lemma_encoded_values(rest);
                let head = seq![alphabet(v0), alphabet(v1), alphabet(v2), alphabet(v3)];
                assert(ascii_bytes(e) =~= head + ascii_bytes(encoded(rest)));
                lemma_sextets_concat(head, ascii_bytes(encoded(rest)));
                assert(values(d) =~= seq![v0, v1, v2, v3] + values(rest));
                assert forall|i: int| 0 <= i < e.len() implies '\0' <= #[trigger] e[i]
                    <= '\u{7f}' by {
                    if i >= 4 {
                        assert(e[i] == encoded(rest)[i - 4]);
                    }
                }
            }
        }
    }
}

proof fn lemma_group(a: int, b: int, c: int)
    requires
        0 <= a < 256,
        0 <= b < 256,
        0 <= c < 256,
    ensures
        (a / 4) * 4 + ((a % 4) * 16 + b / 16) / 16 == a,
        (((a % 4) * 16 + b / 16) % 16) * 16 + ((b % 16) * 4 + c / 64) / 4 == b,
        (((b % 16) * 4 + c / 64) % 4) * 64 + c % 64 == c,
{
}

proof fn lemma_packed_shift(head: Seq<u8>, ws: Seq<u8>, k: int)
    requires
        head.len() == 4,
        3 <= k < 3 + ws.len() * 6 / 8,
    ensures
        packed_byte(head + ws, k) == packed_byte(ws, k - 3),
{
    let vs = head + ws;
    let j = k - 3;
    assert(k / 3 == j / 3 + 1);
    assert(k % 3 == j % 3);
    let q = 4 * (j / 3);
    if j % 3 == 0 {
        assert(vs[q + 4] == ws[q] && vs[q + 5] == ws[q + 1]);
    } else if j % 3 == 1 {
        assert(vs[q + 5] == ws[q + 1] && vs[q + 6] == ws[q + 2]);
    } else {
        assert(vs[q + 6] == ws[q + 2] && vs[q + 7] == ws[q + 3]);
    }
}

proof fn lemma_packed_values(d: Seq<u8>)
    ensures
        packed(values(d)) == d,
        values(d).len() == (d.len() * 8 + 5) / 6,
    decreases d.len(),
{
    let vs = values(d);
    if d.len() == 0 {
        assert(packed(vs) =~= d);
    } else if d.len() == 1 {
        lemma_group(d[0] as int, 0, 0);
        assert(packed_byte(vs, 0) == d[0]);
        assert(packed(vs) =~= d);
    } else if d.len() == 2 {
        lemma_group(d[0] as int, d[1] as int, 0);
        assert(packed_byte(vs, 0) == d[0]);
        assert(packed_byte(vs, 1) == d[1]);
        assert(packed(vs) =~= d);
    } else {
        let rest = d.subrange(3, d.len() as int);
        lemma_packed_values(rest);
        let ws = values(rest);
        let head = vs.subrange(0, 4);
        assert(vs =~= head + ws);
        lemma_group(d[0] as int, d[1] as int, d[2] as int);
        assert(packed_byte(vs, 0) == d[0]);
        assert(packed_byte(vs, 1) == d[1]);
        assert(packed_byte(vs, 2) == d[2]);
        assert(packed(vs).len() == d.len());
        assert forall|k: int| 0 <= k < d.len() implies packed(vs)[k] == #[trigger] d[k] by {
            if k >= 3 {
                assert(packed(ws)[k - 3] == rest[k - 3]);
                lemma_packed_shift(head, ws, k);
            }
        }
        assert(packed(vs) =~= d);
    }
}

/// A text without filler.
pub open spec fn without_filler(s: Seq<u8>) -> Seq<u8>
    decreases s.len(),
{
    if s.len() == 0 {
        Seq::empty()
    } else if is_filler(s.last()) {
        without_filler(s.drop_last())
    } else {
        without_filler(s.drop_last()).push(s.last())
    }
}

proof fn lemma_filler_carries_nothing(s: Seq<u8>)
    ensures
        sextets(without_filler(s)) == sextets(s),
    decreases s.len(),
{
    if s.len() > 0 {
        let init = without_filler(s.drop_last());
        lemma_filler_carries_nothing(s.drop_last());
        if !is_filler(s.last()) {
            assert(init.push(s.last()).drop_last() =~= init);
            assert(init.push(s.last()).last() == s.last());
        }
    }
}

/// Decoding what was encoded gives the bytes back, also with its padding dropped
/// and with padding or whitespace put in anywhere.
pub proof fn law_base64_round_trip(d: Seq<u8>, text: Seq<u8>)
    requires
        d.len() > 0,
        without_filler(text) == without_filler(encode_utf8(encoded(d))),
    ensures
        base64_result(text, Ok(d)),
{
    lemma_encoded_values(d);
    lemma_packed_values(d);
    is_ascii_chars_encode_utf8(encoded(d));
    assert(encode_utf8(encoded(d)) =~= ascii_bytes(encoded(d)));
    lemma_filler_carries_nothing(text);
    lemma_filler_carries_nothing(encode_utf8(encoded(d)));
}

// ── Sources ──────────────────────────────────────────────────────────────────

/// The greatest image that is accepted from the web, in bytes.
pub const HTTP_MAX_BYTES: usize = 52_428_800;

/// The time that a fetch may take by default, in seconds.
pub const DEFAULT_HTTP_TIMEOUT: u64 = 10;

/// What a source text is.
#[derive(Clone, Copy, Debug, PartialEq, Eq, Structural)]
pub enum SourceKind {
    Url,
    DataUri,
    File,
    Base64,
}

/// What a trimmed source is: a web address, a `data:` URI, a file (by its look,
/// or because such a file exists), or else base64.
pub open spec fn source_kind(s: Seq<char>, is_file: bool) -> SourceKind {
    if starts_with(s, "https://"@) || starts_with(s, "http://"@) {
        SourceKind::Url
    } else if starts_with(s, "data:"@) {
        SourceKind::DataUri
    } else if starts_with(s, "/"@) || starts_with(s, "./"@) || starts_with(s, "~/"@) || is_file {
        SourceKind::File
    } else {
        SourceKind::Base64
    }
}

fn kind_of(s: &str, is_file: bool) -> (r: SourceKind)
    ensures
        r == source_kind(s@, is_file),
{
    if text_starts_with(s, "https://") || text_starts_with(s, "http://") {
        SourceKind::Url
    } else if text_starts_with(s, "data:") {
        SourceKind::DataUri
    } else if text_starts_with(s, "/") || text_starts_with(s, "./") || text_starts_with(s, "~/")
        || is_file {
        SourceKind::File
    } else {
        SourceKind::Base64
    }
}

/// A one-word label of the kind of a source.
pub fn detect_kind(s: &str, is_file: bool) -> (r: &'static str)
    ensures
        r@ == match source_kind(trim(s@), is_file) {
            SourceKind::Url => "url"@,
            SourceKind::DataUri => "data_uri"@,
            SourceKind::File => "file"@,
            SourceKind::Base64 => "base64"@,
        },
{
    match kind_of(text_trim(s).as_str(), is_file) {
        SourceKind::Url => "url",
        SourceKind::DataUri => "data_uri",
        SourceKind::File => "file",
        SourceKind::Base64 => "base64",
    }
}

/// What is to be done to load an image.
#[derive(Debug)]
pub enum ImageStep {
    /// Fetch this web address.
    Fetch(String),
    /// Read this file.
    ReadFile(String),
    /// Read the file of this name in the home directory; without a home
    /// directory, the source as it stands.
    ReadHomeFile { relative: String, literal: String },
    /// The source held the image, or cannot be loaded.
    Decoded(Result<Vec<u8>, String>),
}

/// What decoding an inline payload gives, with a prefix and a suffix around the
/// message of a rejection.
pub open spec fn wrapped_base64(
    payload: Seq<char>,
    before: Seq<char>,
    after: Seq<char>,
    r: Result<Seq<u8>, Seq<char>>,
) -> bool {
    match r {
        Ok(b) => base64_result(encode_utf8(payload), Ok(b)),
        Err(m) => exists|e: Seq<char>| #[trigger]
            base64_result(encode_utf8(payload), Err(e)) && m == before + e + after,
    }
}

/// What a `data:` URI gives, from the text behind `data:`.
pub open spec fn data_uri_result(rest: Seq<char>, r: Result<Seq<u8>, Seq<char>>) -> bool {
    if !contains(rest, ","@) {
        r == Err::<Seq<u8>, Seq<char>>("malformed data URI (no comma)"@)
    } else {
        exists|comma: int|
            {
                &&& #[trigger] occurs_at(rest, ","@, comma)
                &&& forall|j: int| 0 <= j < comma ==> !occurs_at(rest, ","@, j)
                &&& if !contains(rest.subrange(0, comma), "base64"@) {
                    r == Err::<Seq<u8>, Seq<char>>("only base64 data URIs are supported"@)
                } else {
                    wrapped_base64(
                        rest.subrange(comma + 1, rest.len() as int),
                        "data URI base64 decode: "@,
                        ""@,
                        r,
                    )
                }
            }
    }
}

fn wrap_error(r: Result<Vec<u8>, String>, before: &str, after: &str) -> (w: Result<Vec<u8>, String>)
    ensures
        match (r, w) {
            (Ok(a), Ok(b)) => a == b,
            (Err(e), Err(m)) => m@ == before@ + e@ + after@,
            _ => false,
        },
{
    match r {
        Ok(b) => Ok(b),
        Err(e) => {
            let head = join2(before, e.as_str());
            Err(join2(head.as_str(), after))
        },
    }
}

fn decode_data_uri(rest: &str) -> (r: Result<Vec<u8>, String>)
    ensures
        data_uri_result(rest@, bytes_result(r)),
{
    let cs = chars_of(rest);
    let n: usize = cs.len();
    let comma_text = chars_of(",");
    proof {
        reveal_strlit(",");
    }
    match find_from(&cs, &comma_text, 0) {
        None => Err("malformed data URI (no comma)".to_owned()),
        Some(comma) => {
            proof {
                assert(occurs_at(rest@, ","@, comma as int));
            }
            let meta = string_of(&cs, 0, comma);
            let payload = string_of(&cs, comma + 1, n);
            if !text_contains(meta.as_str(), "base64") {
                return Err("only base64 data URIs are supported".to_owned());
            }
            let decoded = base64_decode(payload.as_str());
            let ghost inner = bytes_result(decoded);
            let r = wrap_error(decoded, "data URI base64 decode: ", "");
            proof {
                match inner {
                    Err(e) => {
                        assert(base64_result(encode_utf8(payload@), Err(e)));
                    },
                    Ok(_) => {},
                }
            }
            r
        },
    }
}

/// The steps that load an image from a trimmed source.
pub open spec fn image_step(s: Seq<char>, is_file: bool, step: ImageStep) -> bool {
    match source_kind(s, is_file) {
        SourceKind::Url => step matches ImageStep::Fetch(u) && u@ == s,
        SourceKind::DataUri => step matches ImageStep::Decoded(r) && data_uri_result(
            s.subrange("data:"@.len() as int, s.len() as int),
            bytes_result(r),
        ),
        SourceKind::File => if starts_with(s, "~/"@) {
            step matches ImageStep::ReadHomeFile { relative, literal } && literal@ == s
                && relative@ == s.subrange(2, s.len() as int)
        } else {
            step matches ImageStep::ReadFile(p) && p@ == s
        },
        SourceKind::Base64 => step matches ImageStep::Decoded(r) && wrapped_base64(
            s,
            "base64 decode: "@,
            " (not a data URI or readable path)"@,
            bytes_result(r),
        ),
    }
}

/// What loading an image from `source` takes. `is_file` says whether the trimmed
/// source names an existing file.
pub fn load_image(source: &str, is_file: bool) -> (r: ImageStep)
    ensures
        image_step(trim(source@), is_file, r),
{
    let s = text_trim(source);
    let cs = chars_of(s.as_str());
    match kind_of(s.as_str(), is_file) {
        SourceKind::Url => ImageStep::Fetch(s),
        SourceKind::DataUri => {
            let from = chars_of("data:").len();
            let rest = string_of(&cs, from, cs.len());
            ImageStep::Decoded(decode_data_uri(rest.as_str()))
        },
        SourceKind::File => {
            proof {
                reveal_strlit("~/");
            }
            if text_starts_with(s.as_str(), "~/") {
                ImageStep::ReadHomeFile { relative: string_of(&cs, 2, cs.len()), literal: s }
            } else {
                ImageStep::ReadFile(s)
            }
        },
        SourceKind::Base64 => {
            let decoded = base64_decode(s.as_str());
            let ghost inner = bytes_result(decoded);
            let r = wrap_error(decoded, "base64 decode: ", " (not a data URI or readable path)");
            proof {
                match inner {
                    Err(e) => {
                        assert(base64_result(encode_utf8(s@), Err(e)));
                    },
                    Ok(_) => {},
                }
            }
            ImageStep::Decoded(r)
        },
    }
}

/// The length that a `Content-Length` header announces; zero where it cannot be
/// read.
pub open spec fn announced_length(header: Seq<u8>) -> nat {
    match header_text_of(header) {
        Some(t) => match unsigned_value(t) {
            Some(v) if v <= usize::MAX => v,
            _ => 0,
        },
        None => 0,
    }
}

/// Refuses a response that announces more than [`HTTP_MAX_BYTES`].
pub fn check_content_length(header: Option<&[u8]>) -> (r: Result<(), String>)
    ensures
        match (header, r) {
            (Some(h), Err(m)) => announced_length(h@) > HTTP_MAX_BYTES && m@
                == "image response too large: Content-Length "@ + decimal(announced_length(h@))
                + " > "@ + decimal(HTTP_MAX_BYTES as nat) + " bytes"@,
            (Some(h), Ok(_)) => announced_length(h@) <= HTTP_MAX_BYTES,
            (None, Ok(_)) => true,
            (None, Err(_)) => false,
        },
{
    match header {
        None => Ok(()),
        Some(h) => {
            let len: u64 = match header_text(h) {
                Some(t) => match parse_unsigned(t.as_str(), usize::MAX as u64) {
                    Some(v) => v,
                    None => 0,
                },
                None => 0,
            };
            if len > HTTP_MAX_BYTES as u64 {
                Err(
                    join5(
                        "image response too large: Content-Length ",
                        u64_text(len).as_str(),
                        " > ",
                        u64_text(HTTP_MAX_BYTES as u64).as_str(),
                        " bytes",
                    ),
                )
            } else {
                Ok(())
            }
        },
    }
}

// ── Laws ─────────────────────────────────────────────────────────────────────

/// The character of a six-bit value stands at its place among the letters, digits and
/// two signs of the standard alphabet.
proof fn lemma_letters(v: u8)
    requires
        v < 64,
    ensures
        alphabet(v) as char == "ABCDEFGHIJKLMNOPQRSTUVWXYZabcdefghijklmnopqrstuvwxyz0123456789+/"@[v as int],
{
    let letters = "ABCDEFGHIJKLMNOPQRSTUVWXYZabcdefghijklmnopqrstuvwxyz0123456789+/"@;
    reveal_strlit("ABCDEFGHIJKLMNOPQRSTUVWXYZabcdefghijklmnopqrstuvwxyz0123456789+/");
    assert(letters[0] == 'A');
    assert(letters[1] == 'B');
    assert(letters[2] == 'C');
    assert(letters[3] == 'D');
    assert(letters[4] == 'E');
    assert(letters[5] == 'F');
    assert(letters[6] == 'G');
    assert(letters[7] == 'H');
    assert(letters[8] == 'I');
    assert(letters[9] == 'J');
    assert(letters[10] == 'K');
    assert(letters[11] == 'L');
    assert(letters[12] == 'M');
    assert(letters[13] == 'N');
    assert(letters[14] == 'O');
    assert(letters[15] == 'P');
    assert(letters[16] == 'Q');
    assert(letters[17] == 'R');
    assert(letters[18] == 'S');
    assert(letters[19] == 'T');
    assert(letters[20] == 'U');
    assert(letters[21] == 'V');
    assert(letters[22] == 'W');
    assert(letters[23] == 'X');
    assert(letters[24] == 'Y');
    assert(letters[25] == 'Z');
    assert(letters[26] == 'a');
    assert(letters[27] == 'b');
    assert(letters[28] == 'c');
    assert(letters[29] == 'd');
    assert(letters[30] == 'e');
    assert(letters[31] == 'f');
    assert(letters[32] == 'g');
    assert(letters[33] == 'h');
    assert(letters[34] == 'i');
    assert(letters[35] == 'j');
    assert(letters[36] == 'k');
    assert(letters[37] == 'l');
    assert(letters[38] == 'm');
    assert(letters[39] == 'n');
    assert(letters[40] == 'o');
    assert(letters[41] == 'p');
    assert(letters[42] == 'q');
    assert(letters[43] == 'r');
    assert(letters[44] == 's');
    assert(letters[45] == 't');
    assert(letters[46] == 'u');
    assert(letters[47] == 'v');
    assert(letters[48] == 'w');
    assert(letters[49] == 'x');
    assert(letters[50] == 'y');
    assert(letters[51] == 'z');
    assert(letters[52] == '0');
    assert(letters[53] == '1');
    assert(letters[54] == '2');
    assert(letters[55] == '3');
    assert(letters[56] == '4');
    assert(letters[57] == '5');
    assert(letters[58] == '6');
    assert(letters[59] == '7');
    assert(letters[60] == '8');
    assert(letters[61] == '9');
    assert(letters[62] == '+');
    assert(letters[63] == '/');
}

/// Three bytes are encoded as four characters of the standard alphabet, each for six of
/// their bits, the highest first; what follows is encoded behind them.
pub proof fn law_three_bytes_are_four_characters(data: &[u8], r: String)
    requires
        call_ensures(base64_encode, (data,), r),
        data@.len() >= 3,
    ensures
        ({
            let letters = "ABCDEFGHIJKLMNOPQRSTUVWXYZabcdefghijklmnopqrstuvwxyz0123456789+/"@;
            let d = data@;
            &&& r@.len() >= 4
            &&& r@[0] == letters[d[0] as int / 4]
            &&& r@[1] == letters[(d[0] % 4) * 16 + d[1] / 16]
            &&& r@[2] == letters[(d[1] % 16) * 4 + d[2] / 64]
            &&& r@[3] == letters[d[2] as int % 64]
            &&& r@.subrange(4, r@.len() as int) == encoded(d.subrange(3, d.len() as int))
        }),
{
    let d = data@;
    lemma_letters((d[0] / 4) as u8);
    lemma_letters(((d[0] % 4) * 16 + d[1] / 16) as u8);
    lemma_letters(((d[1] % 16) * 4 + d[2] / 64) as u8);
    lemma_letters((d[2] % 64) as u8);
    assert(r@.subrange(4, r@.len() as int) =~= encoded(d.subrange(3, d.len() as int)));
}

/// Decoding the text of an encoding gives its bytes back.
pub proof fn law_encoded_bytes_are_decoded(
    data: &[u8],
    text: String,
    given: &str,
    r: Result<Vec<u8>, String>,
)
    requires
        data@.len() > 0,
        call_ensures(base64_encode, (data,), text),
        given@ == text@,
        call_ensures(base64_decode, (given,), r),
    ensures
        r matches Ok(b) && b@ == data@,
{
    law_base64_round_trip(data@, encode_utf8(text@));
}

/// The last bytes are padded: one byte makes two characters and two signs of equality,
/// two bytes make three and one.
pub proof fn law_last_bytes_are_padded(data: &[u8], r: String)
    requires
        call_ensures(base64_encode, (data,), r),
        data@.len() < 3,
    ensures
        ({
            let letters = "ABCDEFGHIJKLMNOPQRSTUVWXYZabcdefghijklmnopqrstuvwxyz0123456789+/"@;
            let d = data@;
            &&& d.len() == 0 ==> r@.len() == 0
            &&& d.len() == 1 ==> r@.len() == 4 && r@[0] == letters[d[0] as int / 4] && r@[1]
                == letters[(d[0] as int % 4) * 16] && r@[2] == '=' && r@[3] == '='
            &&& d.len() == 2 ==> r@.len() == 4 && r@[0] == letters[d[0] as int / 4] && r@[1]
                == letters[(d[0] as int % 4) * 16 + d[1] as int / 16] && r@[2] == letters[(
            d[1] as int % 16) * 4] && r@[3] == '='
        }),
{
    let d = data@;
    if d.len() > 0 {
        lemma_letters((d[0] / 4) as u8);
        lemma_letters(((d[0] % 4) * 16) as u8);
        if d.len() == 2 {
            lemma_letters(((d[0] % 4) * 16 + d[1] / 16) as u8);
            lemma_letters(((d[1] % 16) * 4) as u8);
        }
    }
}

/// A web address is fetched as it is, a file is read, one below `~/` in the home
/// directory, and a text that is neither is decoded. Whitespace around a source does
/// not count.
pub proof fn law_source_tells_how_to_load(
    source: &str,
    is_file: bool,
    step: ImageStep,
    kind: &'static str,
)
    requires
        call_ensures(load_image, (source, is_file), step),
        call_ensures(detect_kind, (source, is_file), kind),
    ensures
        ({
            let s = trim(source@);
            let url = starts_with(s, "https://"@) || starts_with(s, "http://"@);
            let data = !url && starts_with(s, "data:"@);
            let home = starts_with(s, "~/"@);
            let file = !url && !data && (starts_with(s, "/"@) || starts_with(s, "./"@) || home
                || is_file);
            &&& url ==> kind@ == "url"@ && (step matches ImageStep::Fetch(u) && u@ == s)
            &&& data ==> kind@ == "data_uri"@ && step is Decoded
            &&& file && home ==> kind@ == "file"@ && (step matches ImageStep::ReadHomeFile {
                relative,
                literal,
            } && literal@ == s && "~/"@ + relative@ == s)
            &&& file && !home ==> kind@ == "file"@ && (step matches ImageStep::ReadFile(p) && p@
                == s)
            &&& !url && !data && !file ==> kind@ == "base64"@ && step is Decoded
        }),
{
    let s = trim(source@);
    if starts_with(s, "~/"@) {
        reveal_strlit("~/");
        assert("~/"@.len() == 2);
        assert("~/"@ + s.subrange(2, s.len() as int) =~= s);
    }
}

/// An image that is encoded in a source by itself is decoded to its bytes.
pub proof fn law_inline_images_are_decoded(
    d: Seq<u8>,
    source: &str,
    step: ImageStep,
)
    requires
        d.len() > 0,
        call_ensures(load_image, (source, false), step),
        trim(source@) == encoded(d),
        source_kind(trim(source@), false) == SourceKind::Base64,
    ensures
        step matches ImageStep::Decoded(Ok(b)) && b@ == d,
{
    law_base64_round_trip(d, encode_utf8(encoded(d)));
}

/// The image of a `data:` address is what its text behind the first comma encodes, if
/// the part before says `base64`.
pub proof fn law_data_addresses_are_decoded(
    d: Seq<u8>,
    head: Seq<char>,
    source: &str,
    is_file: bool,
    step: ImageStep,
)
    requires
        d.len() > 0,
        call_ensures(load_image, (source, is_file), step),
        trim(source@) == "data:"@ + head + ","@ + encoded(d),
        contains(head, "base64"@),
        forall|i: int| 0 <= i < head.len() ==> #[trigger] head[i] != ',',
    ensures
        step matches ImageStep::Decoded(Ok(b)) && b@ == d,
{
    reveal_strlit("data:");
    reveal_strlit("https://");
    reveal_strlit("http://");
    reveal_strlit(",");
    let s = trim(source@);
    assert("data:"@.len() == 5);
    assert("https://"@.len() == 8);
    assert("http://"@.len() == 7);
    assert(","@.len() == 1);
    assert(s[0] == 'd');
    assert(s.subrange(0, 5) =~= "data:"@);
    assert(starts_with(s, "data:"@));
    assert(!starts_with(s, "https://"@)) by {
        if starts_with(s, "https://"@) {
            assert(s.subrange(0, 8)[0] == "https://"@[0]);
        }
    }
    assert(!starts_with(s, "http://"@)) by {
        if starts_with(s, "http://"@) {
            assert(s.subrange(0, 7)[0] == "http://"@[0]);
        }
    }
    let rest = s.subrange(5, s.len() as int);
    assert(rest =~= head + ","@ + encoded(d));
    let n = head.len() as int;
    assert(rest.subrange(n, n + 1) =~= ","@);
    assert(occurs_at(rest, ","@, n));
    assert forall|j: int| occurs_at(rest, ","@, j) implies j >= n by {
        assert(rest.subrange(j, j + 1)[0] == ',');
        if j < n {
            assert(rest[j] == head[j]);
        }
    }
    assert(rest.subrange(0, n) =~= head);
    assert(rest.subrange(n + 1, rest.len() as int) =~= encoded(d));
    law_base64_round_trip(d, encode_utf8(encoded(d)));
}

/// A response that announces more than fifty mebibytes is refused, one that announces
/// no more is not.
pub proof fn law_large_images_are_refused(header: &[u8], n: usize, r: Result<(), String>)
    requires
        call_ensures(check_content_length, (Some(header),), r),
        header_text_of(header@) == Some(decimal(n as nat)),
    ensures
        r is Err == (n > 50 * 1024 * 1024),
{
    crate::text::law_decimal_round_trip(n as nat);
}

/// A `data:` address without a comma is refused as malformed.
pub proof fn law_other_data_addresses_are_refused(
    rest: Seq<char>,
    source: &str,
    is_file: bool,
    step: ImageStep,
)
    requires
        call_ensures(load_image, (source, is_file), step),
        trim(source@) == "data:"@ + rest,
        forall|i: int| 0 <= i < rest.len() ==> #[trigger] rest[i] != ',',
    ensures
        step matches ImageStep::Decoded(Err(m)) && m@ == "malformed data URI (no comma)"@,
{
    reveal_strlit("data:");
    reveal_strlit("https://");
    reveal_strlit("http://");
    reveal_strlit(",");
    let s = trim(source@);
    assert("data:"@.len() == 5);
    assert("https://"@.len() == 8);
    assert("http://"@.len() == 7);
    assert(","@.len() == 1);
    assert(s[0] == 'd');
    assert(s.subrange(0, 5) =~= "data:"@);
    assert(starts_with(s, "data:"@));
    assert(!starts_with(s, "https://"@)) by {
        if starts_with(s, "https://"@) {
            assert(s.subrange(0, 8)[0] == "https://"@[0]);
        }
    }
    assert(!starts_with(s, "http://"@)) by {
        if starts_with(s, "http://"@) {
            assert(s.subrange(0, 7)[0] == "http://"@[0]);
        }
    }
    assert(s.subrange(5, s.len() as int) =~= rest);
    assert(!contains(rest, ","@)) by {
        if contains(rest, ","@) {
            let i = choose|i: int| occurs_at(rest, ","@, i);
            assert(rest.subrange(i, i + 1)[0] == ',');
            assert(rest[i] == ',');
        }
    }
}

/// A character outside the alphabet is refused, whatever stands around it.
pub proof fn law_other_characters_are_refused(
    input: &str,
    r: Result<Vec<u8>, String>,
    i: int,
)
    requires
        call_ensures(base64_decode, (input,), r),
        0 <= i < encode_utf8(input@).len(),
        ({
            let c = encode_utf8(input@)[i];
            !(65 <= c <= 90 || 97 <= c <= 122 || 48 <= c <= 57 || c == 43 || c == 47 || c == 61
                || c == 32 || 9 <= c <= 13)
        }),
    ensures
        r is Err,
{
    lemma_invalid_byte(encode_utf8(input@), i);
}

proof fn lemma_invalid_byte(s: Seq<u8>, i: int)
    requires
        0 <= i < s.len(),
        !is_filler(s[i]),
        sextet(s[i]) is None,
    ensures
        sextets(s) is None,
    decreases s.len(),
{
    if i < s.len() - 1 {
        assert(s.drop_last()[i] == s[i]);
        lemma_invalid_byte(s.drop_last(), i);
    }
}

/// Padding and ASCII whitespace may stand anywhere in a base64 text without a change of
/// what it says.
pub proof fn law_filler_is_skipped(
    a: Seq<u8>,
    c: u8,
    b: Seq<u8>,
    with_filler: &str,
    without: &str,
    r: Result<Vec<u8>, String>,
    q: Result<Vec<u8>, String>,
)
    requires
        c == '=' as u8 || c == ' ' as u8 || c == '\t' as u8 || c == '\n' as u8 || c == '\r' as u8,
        encode_utf8(with_filler@) == a + seq![c] + b,
        encode_utf8(without@) == a + b,
        call_ensures(base64_decode, (with_filler,), r),
        call_ensures(base64_decode, (without,), q),
    ensures
        r is Ok == q is Ok,
        r matches Ok(x) ==> x@ == q->Ok_0@,
{
    lemma_filler_inside(a, c, b);
}

proof fn lemma_filler_inside(a: Seq<u8>, c: u8, b: Seq<u8>)
    requires
        is_filler(c),
    ensures
        sextets(a + seq![c] + b) == sextets(a + b),
    decreases b.len(),
{
    let s = a + seq![c] + b;
    if b.len() == 0 {
        assert(s.drop_last() =~= a);
        assert(a + b =~= a);
    } else {
        lemma_filler_inside(a, c, b.drop_last());
        assert(s.drop_last() =~= a + seq![c] + b.drop_last());
        assert((a + b).drop_last() =~= a + b.drop_last());
        assert(s.last() == (a + b).last());
    }
}

/// An image may have fifty mebibytes, and fetching it may take ten seconds.
pub proof fn law_fetch_limits()
    ensures
        HTTP_MAX_BYTES == 50 * 1024 * 1024,
        DEFAULT_HTTP_TIMEOUT == 10,
{
}

} // verus!
