//! Gating and logging of JSON request bodies.

use vstd::prelude::*;
use vstd::slice::slice_subrange;

use crate::header::{opt_bytes, opt_header_text, opt_header_text_of};
use crate::text::{
    chars_of, ends_with, starts_with, string_of, text_ends_with, text_eq,
    text_starts_with, text_trim, trim,
};

verus! {

/// How many bytes of a rejected body a log record may show.
pub const SNIPPET_LIMIT: usize = 2048;

/// What `String::from_utf8_lossy` makes of a byte sequence.
pub uninterp spec fn lossy_text(bytes: Seq<u8>) -> Seq<char>;

/// Calls `String::from_utf8_lossy`, which reads bytes as UTF-8 and puts U+FFFD
/// in place of what is not valid. The text is determined by the bytes; ASCII
/// bytes read as themselves.
#[verifier::external_body]
fn from_utf8_lossy(bytes: &[u8]) -> (r: String)
    ensures
        r@ == lossy_text(bytes@),
        (forall|i: int| 0 <= i < bytes@.len() ==> #[trigger] bytes@[i] < 128) ==> r@ == Seq::new(
            bytes@.len(),
            |i: int| bytes@[i] as char,
        ),
{
    String::from_utf8_lossy(bytes).into_owned()
}

/// The bytes of a body that a log record shows.
pub open spec fn snippet_bytes(body: Seq<u8>) -> Seq<u8> {
    if body.len() <= SNIPPET_LIMIT {
        body
    } else {
        body.subrange(0, SNIPPET_LIMIT as int)
    }
}

/// The start of a rejected body, as text for a log record.
pub fn body_snippet(body: &[u8]) -> (r: String)
    ensures
        r@ == lossy_text(snippet_bytes(body@)),
        (forall|i: int| 0 <= i < snippet_bytes(body@).len() ==> #[trigger] snippet_bytes(body@)[i]
            < 128) ==> r@ == Seq::new(
            snippet_bytes(body@).len(),
            |i: int| snippet_bytes(body@)[i] as char,
        ),
{
    if body.len() <= SNIPPET_LIMIT {
        from_utf8_lossy(body)
    } else {
        from_utf8_lossy(slice_subrange(body, 0, SNIPPET_LIMIT))
    }
}

/// The part of a content type in front of its parameters, trimmed.
pub open spec fn media_type(content_type: Seq<char>) -> Seq<char> {
    trim(before_semicolon(content_type))
}

/// The text in front of the first `;`.
pub open spec fn before_semicolon(s: Seq<char>) -> Seq<char>
    decreases s.len(),
{
    if s.len() == 0 || s[0] == ';' {
        Seq::empty()
    } else {
        seq![s[0]] + before_semicolon(s.subrange(1, s.len() as int))
    }
}

/// A media type of JSON: `application/json` or `application/<anything>+json`.
pub open spec fn is_json_media_type(m: Seq<char>) -> bool {
    &&& starts_with(m, "application/"@)
    &&& {
        let subtype = m.subrange("application/"@.len() as int, m.len() as int);
        subtype == "json"@ || ends_with(subtype, "+json"@)
    }
}

fn take_before_semicolon(s: &str) -> (r: String)
    ensures
        r@ == before_semicolon(s@),
{
    let cs = chars_of(s);
    let mut i: usize = 0;
    proof {
        assert(cs@.subrange(0, cs@.len() as int) =~= cs@);
        assert(Seq::<char>::empty() + before_semicolon(s@) =~= before_semicolon(s@));
        assert(cs@.subrange(0, 0) =~= Seq::<char>::empty());
    }
    while i < cs.len() && cs[i] != ';'
        invariant
            i <= cs@.len(),
            cs@ == s@,
            cs@.subrange(0, i as int) + before_semicolon(cs@.subrange(i as int, cs@.len() as int))
                == before_semicolon(s@),
        decreases cs@.len() - i,
    {
        proof {
            let rest = cs@.subrange(i as int, cs@.len() as int);
            let next = rest.subrange(1, rest.len() as int);
            assert(next =~= cs@.subrange(i + 1, cs@.len() as int));
            assert(cs@.subrange(0, i + 1) + before_semicolon(next) =~= cs@.subrange(0, i as int) + (
            seq![rest[0]] + before_semicolon(next)));
        }
        i += 1;
    }
    proof {
        assert(cs@.subrange(0, i as int) + Seq::<char>::empty() =~= cs@.subrange(0, i as int));
    }
    string_of(&cs, 0, i)
}

/// Whether a `Content-Type` header value names a JSON media type.
pub fn is_json_content_type(content_type: Option<&[u8]>) -> (r: bool)
    ensures
        r == match opt_header_text_of(opt_bytes(content_type)) {
            Some(t) => is_json_media_type(media_type(t)),
            None => false,
        },
{
    match opt_header_text(content_type) {
        None => false,
        Some(t) => {
            let head = take_before_semicolon(t.as_str());
            let m = text_trim(head.as_str());
            if !text_starts_with(m.as_str(), "application/") {
                return false;
            }
            let cs = chars_of(m.as_str());
            let p = chars_of("application/");
            let subtype = string_of(&cs, p.len(), cs.len());
            text_eq(subtype.as_str(), "json") || text_ends_with(subtype.as_str(), "+json")
        },
    }
}

// ── Laws ─────────────────────────────────────────────────────────────────────

/// A body is shown up to its first two kibibytes, and whole when it is no longer.
pub proof fn law_snippet_is_the_start(body: &[u8], r: String)
    requires
        call_ensures(body_snippet, (body,), r),
    ensures
        body@.len() <= 2048 ==> r@ == lossy_text(body@),
        body@.len() > 2048 ==> r@ == lossy_text(body@.subrange(0, 2048)),
{
}

/// A content type of JSON is `application/json` or one of its kin that ends in `+json`,
/// whatever parameters follow; a missing one is not.
pub proof fn law_json_bodies_are_recognised(
    bytes: Option<&[u8]>,
    subtype: Seq<char>,
    parameters: Seq<char>,
    r: bool,
)
    requires
        call_ensures(is_json_content_type, (bytes,), r),
        forall|i: int| 0 <= i < subtype.len() ==> #[trigger] subtype[i] != ';',
    ensures
        bytes is None ==> !r,
        opt_header_text_of(opt_bytes(bytes)) == Some(
            "application/"@ + subtype + seq![';'] + parameters,
        ) && trim("application/"@ + subtype) == "application/"@ + subtype ==> r == (subtype
            == "json"@ || ends_with(subtype, "+json"@)),
{
    let head = "application/"@ + subtype;
    let whole = head + seq![';'] + parameters;
    reveal_strlit("application/");
    assert("application/"@.len() == 12);
    let slash = "application/"@;
    assert forall|i: int| 0 <= i < head.len() implies #[trigger] head[i] != ';' by {
        if i < 12 {
            assert(head[i] == slash[i]);
            assert(slash[0] == 'a' && slash[1] == 'p' && slash[2] == 'p' && slash[3] == 'l'
                && slash[4] == 'i' && slash[5] == 'c' && slash[6] == 'a' && slash[7] == 't'
                && slash[8] == 'i' && slash[9] == 'o' && slash[10] == 'n' && slash[11] == '/');
        } else {
            assert(head[i] == subtype[i - 12]);
        }
    }
    lemma_before_semicolon(head, parameters);
    assert(head.subrange(0, 12) =~= slash);
    assert(head.subrange(12, head.len() as int) =~= subtype);
}

proof fn lemma_before_semicolon(head: Seq<char>, rest: Seq<char>)
    requires
        forall|i: int| 0 <= i < head.len() ==> #[trigger] head[i] != ';',
    ensures
        before_semicolon(head + seq![';'] + rest) == head,
    decreases head.len(),
{
    let s = head + seq![';'] + rest;
    if head.len() == 0 {
        assert(s[0] == ';');
        assert(head =~= Seq::empty());
    } else {
        let tail = head.subrange(1, head.len() as int);
        assert forall|i: int| 0 <= i < tail.len() implies #[trigger] tail[i] != ';' by {
            assert(tail[i] == head[i + 1]);
        }
        lemma_before_semicolon(tail, rest);
        assert(s.subrange(1, s.len() as int) =~= tail + seq![';'] + rest);
        assert(s[0] == head[0]);
        assert(seq![s[0]] + tail =~= head);
    }
}

} // verus!
