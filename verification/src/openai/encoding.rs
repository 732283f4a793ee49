//! Encoding of texts by a model's tokenizer.
//!
//! A tokenizer is put together from parts, as its file says, and with some parts it
//! panics on some texts. What its parts are is read first, and only a tokenizer
//! all of whose parts are known to hold on every text is asked to encode one.

use vstd::prelude::*;
use vstd::utf8::encode_utf8;

use crate::image_io::{base64_decode, packed, sextets};
use crate::json::{
    get, get_str, get_str2, json_of_text, lemma_array_view, number_value, parse_json, Json, JsonV,
};
use crate::text::{char_is_white, chars_of, is_white, text_eq, views};

verus! {

// ── Reading a tokenizer ──────────────────────────────────────────────────────

/// The greatest length and the stride to which a tokenizer truncates, if it does.
pub uninterp spec fn truncation_of(t: tokenizers::Tokenizer) -> Option<(nat, nat)>;

/// Calls `Tokenizer::get_truncation` and takes the greatest length and the stride.
#[verifier::external_body]
fn truncation(t: &tokenizers::Tokenizer) -> (r: Option<(usize, usize)>)
    ensures
        match r {
            Some((max, stride)) => truncation_of(*t) == Some((max as nat, stride as nat)),
            None => truncation_of(*t) is None,
        },
{
    t.get_truncation().map(|p| (p.max_length, p.stride))
}

/// How a tokenizer pads what it encodes, if it does: the length that it pads to,
/// unless that is the longest encoding, and of what that length is made a multiple.
pub uninterp spec fn padding_of(t: tokenizers::Tokenizer) -> Option<(Option<usize>, Option<usize>)>;

/// Calls `Tokenizer::get_padding` and takes the length and the multiple.
#[verifier::external_body]
fn padding(t: &tokenizers::Tokenizer) -> (r: Option<(Option<usize>, Option<usize>)>)
    ensures
        r == padding_of(*t),
{
    match t.get_padding() {
        None => None,
        Some(p) => match p.strategy {
            tokenizers::PaddingStrategy::BatchLongest => Some((None, p.pad_to_multiple_of)),
            tokenizers::PaddingStrategy::Fixed(n) => Some((Some(n), p.pad_to_multiple_of)),
        },
    }
}

/// The kinds of models that tokenizers have.
#[derive(Clone, Copy, Debug, PartialEq, Eq, Structural)]
pub enum ModelKind {
    Bpe,
    WordPiece,
    WordLevel,
    Unigram,
}

/// The model of a tokenizer.
#[derive(Clone, Copy, Debug, PartialEq, Eq, Structural)]
pub struct TokenModel {
    pub kind: ModelKind,
    /// Whether it is set up to encode at random.
    pub random: bool,
}

/// The model of a tokenizer.
pub uninterp spec fn model_of(t: tokenizers::Tokenizer) -> TokenModel;

/// Calls `Tokenizer::get_model`, tells its variants apart, and takes whether merges
/// are dropped or segmentations drawn at random.
#[verifier::external_body]
fn model(t: &tokenizers::Tokenizer) -> (r: TokenModel)
    ensures
        r == model_of(*t),
{
    let (kind, random) = match t.get_model() {
        tokenizers::ModelWrapper::BPE(m) => (ModelKind::Bpe, m.dropout.is_some()),
        tokenizers::ModelWrapper::WordPiece(_) => (ModelKind::WordPiece, false),
        tokenizers::ModelWrapper::WordLevel(_) => (ModelKind::WordLevel, false),
        tokenizers::ModelWrapper::Unigram(m) => (ModelKind::Unigram, m.alpha.is_some()),
    };
    TokenModel { kind, random }
}

/// The normalizer of a tokenizer, as its file writes it; `null` where there is none.
pub uninterp spec fn normalizer_of(t: tokenizers::Tokenizer) -> Seq<char>;

/// Calls `Tokenizer::get_normalizer` and writes it as JSON. The text is determined
/// by the tokenizer.
#[verifier::external_body]
fn normalizer_text(t: &tokenizers::Tokenizer) -> (r: String)
    ensures
        r@ == normalizer_of(*t),
{
    serde_json::to_string(&t.get_normalizer()).unwrap_or_default()
}

/// The pre-tokenizer of a tokenizer, as its file writes it; `null` where there is
/// none.
pub uninterp spec fn pre_tokenizer_of(t: tokenizers::Tokenizer) -> Seq<char>;

/// Calls `Tokenizer::get_pre_tokenizer` and writes it as JSON. The text is
/// determined by the tokenizer.
#[verifier::external_body]
fn pre_tokenizer_text(t: &tokenizers::Tokenizer) -> (r: String)
    ensures
        r@ == pre_tokenizer_of(*t),
{
    serde_json::to_string(&t.get_pre_tokenizer()).unwrap_or_default()
}

/// The post-processor of a tokenizer, as its file writes it; `null` where there is
/// none.
pub uninterp spec fn post_processor_of(t: tokenizers::Tokenizer) -> Seq<char>;

/// Calls `Tokenizer::get_post_processor` and writes it as JSON, which puts the
/// special tokens of a template in order. The text is determined by the tokenizer.
#[verifier::external_body]
fn post_processor_text(t: &tokenizers::Tokenizer) -> (r: String)
    ensures
        r@ == post_processor_of(*t),
{
    serde_json::to_string(&t.get_post_processor()).unwrap_or_default()
}

/// The added tokens of a tokenizer, as its file writes them.
pub uninterp spec fn added_tokens_of(t: tokenizers::Tokenizer) -> Seq<char>;

/// Calls `Tokenizer::get_added_vocabulary` and writes it as JSON: a list of the
/// added tokens in the order of their ids. The text is determined by the
/// tokenizer.
#[verifier::external_body]
fn added_tokens_text(t: &tokenizers::Tokenizer) -> (r: String)
    ensures
        r@ == added_tokens_of(*t),
{
    serde_json::to_string(t.get_added_vocabulary()).unwrap_or_default()
}

// ── Parts ────────────────────────────────────────────────────────────────────

/// A part is of this type.
pub open spec fn is_type(part: JsonV, name: Seq<char>) -> bool {
    get_str(part, "type"@) == Some(name)
}

fn has_type(part: &Json, name: &str) -> (r: bool)
    ensures
        r == is_type(part@, name@),
{
    match part.get_str("type") {
        Some(s) => text_eq(s, name),
        None => false,
    }
}

/// What stands behind a backslash makes a pattern look back at what it has matched
/// or move where its match starts.
pub open spec fn is_reference(c: char) -> bool {
    '0' <= c <= '9' || c == 'K' || c == 'k' || c == 'G' || c == 'g'
}

/// What stands behind `(?` opens a group, a flag or a look-around.
pub open spec fn opens_group(c: char) -> bool {
    c == ':' || c == '=' || c == '!' || c == '<' || c == '>' || c == 'i' || c == 'm' || c == 's'
}

/// A pattern does not refer to its own match at this place.
pub open spec fn plain_at(pattern: Seq<char>, i: int) -> bool {
    &&& pattern[i] == '\\' && i + 1 < pattern.len() ==> !is_reference(pattern[i + 1])
    &&& pattern[i] == '(' && i + 1 < pattern.len() ==> pattern[i + 1] != '*'
    &&& pattern[i] == '(' && i + 2 < pattern.len() && pattern[i + 1] == '?' ==> opens_group(
        pattern[i + 2],
    )
}

/// A pattern that does not refer to its own match: its matches stand one behind
/// the other, and looking for them holds on every text.
pub open spec fn plain_pattern(pattern: Seq<char>) -> bool {
    forall|i: int| 0 <= i < pattern.len() ==> #[trigger] plain_at(pattern, i)
}

fn is_plain_pattern(pattern: &str) -> (r: bool)
    ensures
        r == plain_pattern(pattern@),
{
    let cs = chars_of(pattern);
    let n: usize = cs.len();
    let mut i: usize = 0;
    while i < n
        invariant
            i <= n,
            n == cs@.len(),
            cs@ == pattern@,
            forall|k: int| 0 <= k < i ==> #[trigger] plain_at(pattern@, k),
        decreases n - i,
    {
        let ghost here = plain_at(pattern@, i as int);
        if cs[i] == '\\' && n - i > 1 {
            let c = cs[i + 1];
            if ('0' <= c && c <= '9') || c == 'K' || c == 'k' || c == 'G' || c == 'g' {
                assert(!here);
                return false;
            }
        }
        if cs[i] == '(' && n - i > 1 {
            if cs[i + 1] == '*' {
                assert(!here);
                return false;
            }
            if cs[i + 1] == '?' && n - i > 2 {
                let c = cs[i + 2];
                if !(c == ':' || c == '=' || c == '!' || c == '<' || c == '>' || c == 'i' || c
                    == 'm' || c == 's') {
                    assert(!here);
                    return false;
                }
            }
        }
        i += 1;
    }
    true
}

/// A pattern that begins with a character of its own, so that no match is empty.
pub open spec fn begins_literally(pattern: Seq<char>) -> bool {
    &&& pattern.len() > 0
    &&& !is_operator(pattern[0])
    &&& pattern.len() > 1 ==> pattern[1] != '*' && pattern[1] != '?' && pattern[1] != '{'
    &&& forall|i: int| 0 <= i < pattern.len() ==> #[trigger] pattern[i] != '|'
}

/// A character that means more than itself in a pattern.
pub open spec fn is_operator(c: char) -> bool {
    c == '\\' || c == '(' || c == ')' || c == '[' || c == ']' || c == '.' || c == '^' || c == '$'
        || c == '*' || c == '+' || c == '?' || c == '{' || c == '}' || c == '|'
}

fn does_begin_literally(pattern: &str) -> (r: bool)
    ensures
        r == begins_literally(pattern@),
{
    let cs = chars_of(pattern);
    if cs.len() == 0 {
        return false;
    }
    let c = cs[0];
    if c == '\\' || c == '(' || c == ')' || c == '[' || c == ']' || c == '.' || c == '^' || c == '$'
        || c == '*' || c == '+' || c == '?' || c == '{' || c == '}' || c == '|' {
        return false;
    }
    if cs.len() > 1 && (cs[1] == '*' || cs[1] == '?' || cs[1] == '{') {
        return false;
    }
    let mut i: usize = 0;
    while i < cs.len()
        invariant
            i <= cs@.len(),
            cs@ == pattern@,
            forall|k: int| 0 <= k < i ==> #[trigger] pattern@[k] != '|',
        decreases cs@.len() - i,
    {
        if cs[i] == '|' {
            assert(pattern@[i as int] == '|');
            return false;
        }
        i += 1;
    }
    true
}

// ── Tables of characters ─────────────────────────────────────────────────────

/// The number that four bytes make up, the lowest first.
pub open spec fn word_at(d: Seq<u8>, i: int) -> u32 {
    (d[i] + 256 * d[i + 1] + 65536 * d[i + 2] + 16777216 * d[i + 3]) as u32
}

fn read_word(d: &Vec<u8>, i: usize) -> (r: u32)
    requires
        i + 4 <= d@.len(),
    ensures
        r == word_at(d@, i as int),
{
    let n: usize = d.len();
    assert(i + 4 <= n);
    let low: u32 = d[i] as u32 + 256 * (d[i + 1] as u32);
    let high: u32 = d[i + 2] as u32 + 256 * (d[i + 3] as u32);
    low + 65536 * high
}

/// How many units a table of characters has: the first word counts their bytes.
pub open spec fn table_units(d: Seq<u8>) -> int {
    (word_at(d, 0) / 4) as int
}

/// The unit to which a unit leads.
pub open spec fn leads_to(d: Seq<u8>, i: u32) -> u32 {
    let u = word_at(d, 4 + 4 * i);
    i ^ if u & 512 == 512 {
        (u >> 10) << 8
    } else {
        u >> 10
    }
}

/// A place at which a character of the replacement texts may begin.
pub open spec fn is_text_start(d: Seq<u8>, from: int, v: int) -> bool {
    from + v == d.len() || (from + v < d.len() && !(128 <= d[from + v] < 192))
}

/// Whether a unit is walked through: the first is, and so may be every unit but one
/// that holds a value.
pub open spec fn is_walked(d: Seq<u8>, i: u32) -> bool {
    i == 0 || word_at(d, 4 + 4 * i) & 0x8000_0000 == 0
}

/// A unit that is walked through leads into the table, and where it ends a text, to
/// a replacement.
pub open spec fn sound_unit(d: Seq<u8>, i: u32) -> bool {
    let n = table_units(d);
    is_walked(d, i) ==> {
        &&& leads_to(d, i) < n
        &&& (word_at(d, 4 + 4 * i) >> 8) & 1 == 1 ==> is_text_start(
            d,
            4 + 4 * n,
            (word_at(d, 4 + 4 * leads_to(d, i)) & 0x7fff_ffff) as int,
        )
    }
}

/// A table of characters that can be walked by any text: whole pages of sound
/// units.
pub open spec fn sound_table(d: Seq<u8>) -> bool {
    &&& d.len() >= 4
    &&& 0 < table_units(d)
    &&& table_units(d) % 256 == 0
    &&& 4 + 4 * table_units(d) <= d.len()
    &&& forall|i: u32| i < table_units(d) ==> #[trigger] sound_unit(d, i)
}

fn is_sound_table(d: &Vec<u8>) -> (r: bool)
    ensures
        r == sound_table(d@),
{
    if d.len() < 4 {
        return false;
    }
    let n: u32 = read_word(d, 0) / 4;
    if n == 0 || n % 256 != 0 || (d.len() - 4) / 4 < n as usize {
        return false;
    }
    let from: usize = 4 + 4 * (n as usize);
    let mut i: u32 = 0;
    while i < n
        invariant
            i <= n,
            n == table_units(d@),
            from == 4 + 4 * n,
            from <= d@.len(),
            forall|k: u32| k < i ==> #[trigger] sound_unit(d@, k),
        decreases n - i,
    {
        let u: u32 = read_word(d, 4 + 4 * (i as usize));
        let next: u32 = i ^ if u & 512 == 512 {
            (u >> 10) << 8
        } else {
            u >> 10
        };
        assert(next == leads_to(d@, i));
        let walked = i == 0 || u & 0x8000_0000 == 0;
        if walked && next >= n {
            assert(!sound_unit(d@, i));
            return false;
        }
        if walked && (u >> 8) & 1 == 1 {
            let v: u32 = read_word(d, 4 + 4 * (next as usize)) & 0x7fff_ffff;
            let rest: usize = d.len() - from;
            let good = v as usize == rest || ((v as usize) < rest && !(128 <= d[from + v as usize]
                && d[from + v as usize] < 192));
            if !good {
                assert(!sound_unit(d@, i));
                return false;
            }
        }
        i += 1;
    }
    true
}

/// The bytes that a base64 text stands for; `None` where it stands for none.
pub open spec fn bytes_of(text: Seq<char>) -> Option<Seq<u8>> {
    match sextets(encode_utf8(text)) {
        Some(vs) if packed(vs).len() > 0 => Some(packed(vs)),
        _ => None,
    }
}

/// A text stands for a table of characters that can be walked by any text.
pub open spec fn sound_charsmap(text: Seq<char>) -> bool {
    bytes_of(text) matches Some(d) && sound_table(d)
}

fn is_sound_charsmap(text: &str) -> (r: bool)
    ensures
        r == sound_charsmap(text@),
{
    match base64_decode(text) {
        Ok(d) => is_sound_table(&d),
        Err(_) => false,
    }
}

// ── Normalizers ──────────────────────────────────────────────────────────────

/// A normalizer that goes over a whole text by its positions.
pub open spec fn goes_over(part: JsonV) -> bool {
    ||| is_type(part, "NFC"@)
    ||| is_type(part, "NFD"@)
    ||| is_type(part, "NFKC"@)
    ||| is_type(part, "NFKD"@)
    ||| is_type(part, "Lowercase"@)
    ||| is_type(part, "Strip"@)
    ||| is_type(part, "StripAccents"@)
    ||| is_type(part, "Nmt"@)
    ||| is_type(part, "BertNormalizer"@)
    ||| is_type(part, "ByteLevel"@)
    ||| is_type(part, "Precompiled"@) && (get_str(part, "precompiled_charsmap"@) matches Some(s)
        && sound_charsmap(s))
}

fn does_go_over(part: &Json) -> (r: bool)
    ensures
        r == goes_over(part@),
{
    if has_type(part, "NFC") || has_type(part, "NFD") || has_type(part, "NFKC") || has_type(
        part,
        "NFKD",
    ) || has_type(part, "Lowercase") {
        return true;
    }
    if has_type(part, "Strip") || has_type(part, "StripAccents") || has_type(part, "Nmt")
        || has_type(part, "BertNormalizer") || has_type(part, "ByteLevel") {
        return true;
    }
    if has_type(part, "Precompiled") {
        match part.get_str("precompiled_charsmap") {
            Some(s) => if is_sound_charsmap(s) {
                return true;
            },
            None => {},
        }
    }
    false
}

/// How a replacement leaves a text. `None` where looking for what is replaced may
/// fail. One that may put something in front of a text without replacing anything
/// there leaves it loose.
pub open spec fn after_replacement(part: JsonV, loose: bool) -> Option<bool> {
    let adds = get_str(part, "content"@) != Some(""@);
    match get_str2(part, "pattern"@, "String"@) {
        Some(s) => Some(loose || (adds && s.len() == 0)),
        None => match get_str2(part, "pattern"@, "Regex"@) {
            Some(p) if plain_pattern(p) => Some(loose || (adds && !begins_literally(p))),
            _ => None,
        },
    }
}

fn replaced(part: &Json, loose: bool) -> (r: Option<bool>)
    ensures
        r == after_replacement(part@, loose),
{
    let adds = match part.get_str("content") {
        Some(s) => !text_eq(s, ""),
        None => true,
    };
    match part.get_str2("pattern", "String") {
        Some(s) => Some(loose || (adds && s.is_empty())),
        None => match part.get_str2("pattern", "Regex") {
            Some(p) => if is_plain_pattern(p) {
                Some(loose || (adds && !does_begin_literally(p)))
            } else {
                None
            },
            None => None,
        },
    }
}

/// How far sequences of parts may stand in one another. No text that is read nests
/// deeper.
pub const PART_DEPTH: usize = 128;

/// How a normalizer leaves a text that is `loose` or not: a text is loose when
/// something was put in front of it without a position of its own. `None` where the
/// normalizer may fail: no normalizer goes over a loose text.
pub open spec fn normalized(part: JsonV, loose: bool, depth: nat) -> Option<bool>
    decreases depth, 0nat,
{
    if part is Null {
        Some(loose)
    } else if goes_over(part) {
        if loose {
            None
        } else {
            Some(false)
        }
    } else if is_type(part, "Replace"@) {
        after_replacement(part, loose)
    } else if is_type(part, "Prepend"@) {
        match get_str(part, "prepend"@) {
            Some(s) => Some(loose || s.len() == 0),
            None => None,
        }
    } else if is_type(part, "Sequence"@) && depth > 0 {
        match get(part, "normalizers"@) {
            Some(JsonV::Array(ps)) => normalized_by_all(ps, loose, (depth - 1) as nat),
            _ => None,
        }
    } else {
        None
    }
}

/// How a sequence of normalizers leaves a text.
pub open spec fn normalized_by_all(ps: Seq<JsonV>, loose: bool, depth: nat) -> Option<bool>
    decreases depth, 1 + ps.len(),
{
    if ps.len() == 0 {
        Some(loose)
    } else {
        match normalized_by_all(ps.drop_last(), loose, depth) {
            Some(l) => normalized(ps.last(), l, depth),
            None => None,
        }
    }
}

fn try_normalizer(part: &Json, loose: bool, depth: usize) -> (r: Option<bool>)
    ensures
        r == normalized(part@, loose, depth as nat),
    decreases depth,
{
    match part {
        Json::Null => {
            return Some(loose);
        },
        _ => {},
    }
    if does_go_over(part) {
        return if loose {
            None
        } else {
            Some(false)
        };
    }
    if has_type(part, "Replace") {
        return replaced(part, loose);
    }
    if has_type(part, "Prepend") {
        return match part.get_str("prepend") {
            Some(s) => Some(loose || s.is_empty()),
            None => None,
        };
    }
    if !has_type(part, "Sequence") || depth == 0 {
        return None;
    }
    match part.get("normalizers") {
        Some(list) => match list {
            Json::Array(v) => {
                let ghost ps = views(v@);
                proof {
                    lemma_array_view(*v);
                    assert(ps.subrange(0, 0) =~= Seq::empty());
                }
                let mut state: Option<bool> = Some(loose);
                let mut i: usize = 0;
                while i < v.len()
                    invariant
                        i <= v@.len(),
                        ps == views(v@),
                        depth > 0,
                        state == normalized_by_all(
                            ps.subrange(0, i as int),
                            loose,
                            (depth - 1) as nat,
                        ),
                    decreases v@.len() - i,
                {
                    proof {
                        let next = ps.subrange(0, i + 1);
                        assert(next.drop_last() =~= ps.subrange(0, i as int));
                        assert(next.last() == v@[i as int]@);
                    }
                    state = match state {
                        Some(l) => try_normalizer(&v[i], l, depth - 1),
                        None => None,
                    };
                    i += 1;
                }
                assert(ps.subrange(0, i as int) =~= ps);
                state
            },
            _ => None,
        },
        None => None,
    }
}

// ── Pre-tokenizers ───────────────────────────────────────────────────────────

/// A pre-tokenizer by itself that splits every text, loose or not.
pub open spec fn splits(part: JsonV) -> bool {
    ||| is_type(part, "BertPreTokenizer"@)
    ||| is_type(part, "CharDelimiterSplit"@)
    ||| is_type(part, "Digits"@)
    ||| is_type(part, "Metaspace"@)
    ||| is_type(part, "Punctuation"@)
    ||| is_type(part, "UnicodeScripts"@)
    ||| is_type(part, "Whitespace"@)
    ||| is_type(part, "WhitespaceSplit"@)
    ||| is_type(part, "FixedLength"@) && get(part, "length"@) != Some(number_value(0))
    ||| is_type(part, "Split"@) && (get_str2(part, "pattern"@, "String"@) is Some || (get_str2(
        part,
        "pattern"@,
        "Regex"@,
    ) matches Some(s) && plain_pattern(s)))
}

fn does_split(part: &Json) -> (r: bool)
    ensures
        r == splits(part@),
{
    if has_type(part, "BertPreTokenizer") || has_type(part, "CharDelimiterSplit") || has_type(
        part,
        "Digits",
    ) || has_type(part, "Metaspace") {
        return true;
    }
    if has_type(part, "Punctuation") || has_type(part, "UnicodeScripts") || has_type(
        part,
        "Whitespace",
    ) || has_type(part, "WhitespaceSplit") {
        return true;
    }
    if has_type(part, "FixedLength") {
        let zero = match part.get("length") {
            Some(n) => n.is_number(0),
            None => false,
        };
        if !zero {
            return true;
        }
    }
    if has_type(part, "Split") {
        if part.get_str2("pattern", "String").is_some() {
            return true;
        }
        match part.get_str2("pattern", "Regex") {
            Some(s) => if is_plain_pattern(s) {
                return true;
            },
            None => {},
        }
    }
    false
}

/// A pre-tokenizer holds on every text that is `loose` or not. Only the byte-level
/// one goes over a text by its positions.
pub open spec fn pre_tokenized(part: JsonV, loose: bool, depth: nat) -> bool
    decreases depth,
{
    ||| part is Null
    ||| splits(part)
    ||| is_type(part, "ByteLevel"@) && !loose
    ||| is_type(part, "Sequence"@) && depth > 0 && (get(part, "pretokenizers"@) matches Some(
        JsonV::Array(ps),
    ) && forall|i: int|
        0 <= i < ps.len() ==> pre_tokenized(#[trigger] ps[i], loose, (depth - 1) as nat))
}

fn try_pre_tokenizer(part: &Json, loose: bool, depth: usize) -> (r: bool)
    ensures
        r == pre_tokenized(part@, loose, depth as nat),
    decreases depth,
{
    match part {
        Json::Null => {
            return true;
        },
        _ => {},
    }
    if does_split(part) || (has_type(part, "ByteLevel") && !loose) {
        return true;
    }
    if !has_type(part, "Sequence") || depth == 0 {
        return false;
    }
    match part.get("pretokenizers") {
        Some(list) => match list {
            Json::Array(v) => {
                let ghost ps = views(v@);
                proof {
                    lemma_array_view(*v);
                }
                let mut all = true;
                let mut i: usize = 0;
                while i < v.len()
                    invariant
                        i <= v@.len(),
                        ps == views(v@),
                        depth > 0,
                        all == (forall|k: int|
                            0 <= k < i ==> pre_tokenized(
                                #[trigger] ps[k],
                                loose,
                                (depth - 1) as nat,
                            )),
                    decreases v@.len() - i,
                {
                    assert(ps[i as int] == v@[i as int]@);
                    all = try_pre_tokenizer(&v[i], loose, depth - 1) && all;
                    i += 1;
                }
                proof {
                    assert(list@->Array_0 == ps);
                    if !all {
                        let k = choose|k: int|
                            0 <= k < i && !pre_tokenized(
                                #[trigger] ps[k],
                                loose,
                                (depth - 1) as nat,
                            );
                        assert(!pre_tokenized(ps[k], loose, (depth - 1) as nat));
                    }
                }
                all
            },
            _ => false,
        },
        None => false,
    }
}

// ── Post-processors ──────────────────────────────────────────────────────────

/// How many pieces of a template stand for an encoded text.
pub open spec fn text_pieces(pieces: Seq<JsonV>) -> nat
    decreases pieces.len(),
{
    if pieces.len() == 0 {
        0
    } else {
        text_pieces(pieces.drop_last()) + if get(pieces.last(), "Sequence"@) is Some {
            1nat
        } else {
            0nat
        }
    }
}

/// A template holds a second text.
pub open spec fn holds_second(pieces: Seq<JsonV>) -> bool {
    exists|i: int|
        0 <= i < pieces.len() && get_str2(#[trigger] pieces[i], "Sequence"@, "id"@) == Some("B"@)
}

/// How many encodings a template makes of `n`: it has a form for one and a form for
/// two. `None` where it may fail.
pub open spec fn templated(part: JsonV, n: nat) -> Option<nat> {
    if n == 1 {
        match get(part, "single"@) {
            Some(JsonV::Array(ps)) if !holds_second(ps) => Some(text_pieces(ps)),
            _ => None,
        }
    } else if n == 2 {
        match get(part, "pair"@) {
            Some(JsonV::Array(ps)) => Some(text_pieces(ps)),
            _ => None,
        }
    } else {
        None
    }
}

fn count_pieces(v: &Vec<Json>) -> (r: (usize, bool))
    ensures
        r.0 == text_pieces(views(v@)),
        r.1 == holds_second(views(v@)),
{
    let ghost ps = views(v@);
    let mut count: usize = 0;
    let mut second = false;
    let mut i: usize = 0;
    proof {
        assert(ps.subrange(0, 0) =~= Seq::empty());
    }
    while i < v.len()
        invariant
            i <= v@.len(),
            count <= i,
            ps == views(v@),
            count == text_pieces(ps.subrange(0, i as int)),
            second == (exists|k: int|
                0 <= k < i && get_str2(#[trigger] ps[k], "Sequence"@, "id"@) == Some("B"@)),
        decreases v@.len() - i,
    {
        proof {
            let next = ps.subrange(0, i + 1);
            assert(next.drop_last() =~= ps.subrange(0, i as int));
            assert(next.last() == ps[i as int]);
            assert(ps[i as int] == v@[i as int]@);
        }
        match v[i].get_str2("Sequence", "id") {
            Some(id) => if text_eq(id, "B") {
                second = true;
            },
            None => {},
        }
        if v[i].get("Sequence").is_some() {
            count += 1;
        }
        i += 1;
    }
    assert(ps.subrange(0, i as int) =~= ps);
    (count, second)
}

fn try_template(part: &Json, n: usize) -> (r: Option<usize>)
    ensures
        match r {
            Some(m) => templated(part@, n as nat) == Some(m as nat),
            None => templated(part@, n as nat) is None,
        },
{
    if n != 1 && n != 2 {
        return None;
    }
    let form = if n == 1 {
        part.get("single")
    } else {
        part.get("pair")
    };
    match form {
        Some(list) => match list {
            Json::Array(v) => {
                proof {
                    lemma_array_view(*v);
                }
                let (count, second) = count_pieces(v);
                if n == 1 && second {
                    None
                } else {
                    Some(count)
                }
            },
            _ => None,
        },
        None => None,
    }
}

/// How many encodings a post-processor makes of `n`. `None` where it may fail.
pub open spec fn processed(part: JsonV, n: nat, depth: nat) -> Option<nat>
    decreases depth, 0nat,
{
    if part is Null || is_type(part, "BertProcessing"@) || is_type(part, "ByteLevel"@) || is_type(
        part,
        "RobertaProcessing"@,
    ) {
        Some(n)
    } else if is_type(part, "TemplateProcessing"@) {
        templated(part, n)
    } else if is_type(part, "Sequence"@) && depth > 0 {
        match get(part, "processors"@) {
            Some(JsonV::Array(ps)) => processed_by_all(ps, n, (depth - 1) as nat),
            _ => None,
        }
    } else {
        None
    }
}

/// How many encodings a sequence of post-processors makes of `n`.
pub open spec fn processed_by_all(ps: Seq<JsonV>, n: nat, depth: nat) -> Option<nat>
    decreases depth, 1 + ps.len(),
{
    if ps.len() == 0 {
        Some(n)
    } else {
        match processed_by_all(ps.drop_last(), n, depth) {
            Some(m) => processed(ps.last(), m, depth),
            None => None,
        }
    }
}

/// A count, where there is one.
pub open spec fn opt_nat(n: Option<usize>) -> Option<nat> {
    match n {
        Some(m) => Some(m as nat),
        None => None,
    }
}

fn try_post_processor(part: &Json, n: usize, depth: usize) -> (r: Option<usize>)
    ensures
        opt_nat(r) == processed(part@, n as nat, depth as nat),
    decreases depth,
{
    match part {
        Json::Null => {
            return Some(n);
        },
        _ => {},
    }
    if has_type(part, "BertProcessing") || has_type(part, "ByteLevel") || has_type(
        part,
        "RobertaProcessing",
    ) {
        return Some(n);
    }
    if has_type(part, "TemplateProcessing") {
        return try_template(part, n);
    }
    if !has_type(part, "Sequence") || depth == 0 {
        return None;
    }
    match part.get("processors") {
        Some(list) => match list {
            Json::Array(v) => {
                let ghost ps = views(v@);
                proof {
                    lemma_array_view(*v);
                    assert(ps.subrange(0, 0) =~= Seq::empty());
                }
                let mut state: Option<usize> = Some(n);
                let mut i: usize = 0;
                while i < v.len()
                    invariant
                        i <= v@.len(),
                        ps == views(v@),
                        depth > 0,
                        opt_nat(state) == processed_by_all(
                            ps.subrange(0, i as int),
                            n as nat,
                            (depth - 1) as nat,
                        ),
                    decreases v@.len() - i,
                {
                    proof {
                        let next = ps.subrange(0, i + 1);
                        assert(next.drop_last() =~= ps.subrange(0, i as int));
                        assert(next.last() == v@[i as int]@);
                    }
                    state = match state {
                        Some(m) => try_post_processor(&v[i], m, depth - 1),
                        None => None,
                    };
                    i += 1;
                }
                assert(ps.subrange(0, i as int) =~= ps);
                state
            },
            _ => None,
        },
        None => None,
    }
}

// ── Added tokens ─────────────────────────────────────────────────────────────

/// The member `key` of a value is true.
pub open spec fn flag(v: JsonV, key: Seq<char>) -> bool {
    get(v, key) == Some(JsonV::Bool(true))
}

fn has_flag(v: &Json, key: &str) -> (r: bool)
    ensures
        r == flag(v@, key@),
{
    match v.get(key) {
        Some(m) => match m {
            Json::Bool(b) => *b,
            _ => false,
        },
        None => false,
    }
}

/// An added token takes in the whitespace on its left and may begin with
/// whitespace itself, also where it is `reshaped` by a normalizer.
pub open spec fn may_reach_back(token: JsonV, reshaped: bool) -> bool {
    let begins_plain = get_str(token, "content"@) matches Some(s) && s.len() > 0 && !is_white(s[0]);
    flag(token, "lstrip"@) && ((reshaped && flag(token, "normalized"@)) || !begins_plain)
}

fn can_reach_back(token: &Json, reshaped: bool) -> (r: bool)
    ensures
        r == may_reach_back(token@, reshaped),
{
    if !has_flag(token, "lstrip") {
        return false;
    }
    if reshaped && has_flag(token, "normalized") {
        return true;
    }
    match token.get_str("content") {
        Some(s) => {
            let cs = chars_of(s);
            cs.len() == 0 || char_is_white(cs[0])
        },
        None => true,
    }
}

/// Added tokens that never overlap: where one takes in the whitespace on its right,
/// none may reach back into that whitespace.
pub open spec fn apart(tokens: JsonV, reshaped: bool) -> bool {
    &&& tokens matches JsonV::Array(ts)
    &&& forall|i: int, j: int|
        0 <= i < ts.len() && 0 <= j < ts.len() ==> !(flag(#[trigger] ts[i], "rstrip"@)
            && may_reach_back(#[trigger] ts[j], reshaped))
}

fn are_apart(tokens: &Json, reshaped: bool) -> (r: bool)
    ensures
        r == apart(tokens@, reshaped),
{
    match tokens {
        Json::Array(v) => {
            let ghost ts = views(v@);
            proof {
                lemma_array_view(*v);
            }
            let mut right: Option<usize> = None;
            let mut back: Option<usize> = None;
            let mut i: usize = 0;
            while i < v.len()
                invariant
                    i <= v@.len(),
                    ts == views(v@),
                    match right {
                        Some(k) => k < i && flag(ts[k as int], "rstrip"@),
                        None => forall|k: int|
                            0 <= k < i ==> !flag(#[trigger] ts[k], "rstrip"@),
                    },
                    match back {
                        Some(k) => k < i && may_reach_back(ts[k as int], reshaped),
                        None => forall|k: int|
                            0 <= k < i ==> !may_reach_back(#[trigger] ts[k], reshaped),
                    },
                decreases v@.len() - i,
            {
                assert(ts[i as int] == v@[i as int]@);
                if has_flag(&v[i], "rstrip") {
                    right = Some(i);
                }
                if can_reach_back(&v[i], reshaped) {
                    back = Some(i);
                }
                i += 1;
            }
            right.is_none() || back.is_none()
        },
        _ => false,
    }
}

// ── Encoding ─────────────────────────────────────────────────────────────────

/// The greatest length to which a tokenizer may pad.
pub const MAX_PADDED: usize = 16_777_216;

/// A padding whose length fits in memory.
pub open spec fn sound_padding(p: Option<(Option<usize>, Option<usize>)>) -> bool {
    match p {
        Some((length, multiple)) => {
            &&& length matches Some(n) ==> n <= MAX_PADDED
            &&& multiple matches Some(n) ==> n <= MAX_PADDED
        },
        None => true,
    }
}

/// A truncation that leaves nothing, or more than its stride.
pub open spec fn sound_truncation(p: Option<(nat, nat)>) -> bool {
    p matches Some((max, stride)) ==> max == 0 || stride < max
}

/// A tokenizer that can encode every text: its truncation and padding are sound, it
/// does not draw segmentations at random, its added tokens stand apart, each of its
/// stages holds on what the stage before leaves, and what is cut off by truncation
/// is not multiplied.
pub open spec fn encodable(t: tokenizers::Tokenizer) -> bool {
    &&& sound_truncation(truncation_of(t))
    &&& sound_padding(padding_of(t))
    &&& !(model_of(t).kind == ModelKind::Unigram && model_of(t).random)
    &&& json_of_text(added_tokens_of(t)) matches Some(tokens)
    &&& json_of_text(normalizer_of(t)) matches Some(normalizer)
    &&& apart(tokens, !(normalizer is Null))
    &&& normalized(normalizer, false, PART_DEPTH as nat) matches Some(loose)
    &&& json_of_text(pre_tokenizer_of(t)) matches Some(pre_tokenizer)
    &&& pre_tokenized(pre_tokenizer, loose, PART_DEPTH as nat)
    &&& json_of_text(post_processor_of(t)) matches Some(post_processor)
    &&& processed(post_processor, 1, PART_DEPTH as nat) matches Some(n)
    &&& truncation_of(t) is Some ==> n <= 2
}

/// Whether a tokenizer can encode every text.
pub fn can_encode(t: &tokenizers::Tokenizer) -> (r: bool)
    ensures
        r == encodable(*t),
{
    let cut = truncation(t);
    match cut {
        Some((max, stride)) => if max != 0 && stride >= max {
            return false;
        },
        None => {},
    }
    match padding(t) {
        Some((length, multiple)) => {
            let long = match length {
                Some(n) => n > MAX_PADDED,
                None => false,
            };
            let coarse = match multiple {
                Some(n) => n > MAX_PADDED,
                None => false,
            };
            if long || coarse {
                return false;
            }
        },
        None => {},
    }
    let m = model(t);
    if m.kind == ModelKind::Unigram && m.random {
        return false;
    }
    let normalizer = match parse_json(normalizer_text(t).as_str()) {
        Some(j) => j,
        None => {
            return false;
        },
    };
    let reshaped = match &normalizer {
        Json::Null => false,
        _ => true,
    };
    match parse_json(added_tokens_text(t).as_str()) {
        Some(tokens) => if !are_apart(&tokens, reshaped) {
            return false;
        },
        None => {
            return false;
        },
    }
    let loose = match try_normalizer(&normalizer, false, PART_DEPTH) {
        Some(l) => l,
        None => {
            return false;
        },
    };
    match parse_json(pre_tokenizer_text(t).as_str()) {
        Some(j) => if !try_pre_tokenizer(&j, loose, PART_DEPTH) {
            return false;
        },
        None => {
            return false;
        },
    }
    match parse_json(post_processor_text(t).as_str()) {
        Some(j) => match try_post_processor(&j, 1, PART_DEPTH) {
            Some(n) => cut.is_none() || n <= 2,
            None => false,
        },
        None => false,
    }
}

/// The outcomes that encoding a text may have, without special tokens: the ids, or
/// `None` where it fails. A tokenizer that drops merges at random has several.
pub uninterp spec fn encodings(
    tokenizer: tokenizers::Tokenizer,
    text: Seq<char>,
) -> Set<Option<Seq<u32>>>;

/// The ids of an outcome.
pub open spec fn ids_view(ids: Option<Vec<u32>>) -> Option<Seq<u32>> {
    match ids {
        Some(v) => Some(v@),
        None => None,
    }
}

/// Calls `Tokenizer::encode` without special tokens and takes the ids. It is asked
/// only of a tokenizer none of whose parts panics on any text. The ids are one of
/// the outcomes that the tokenizer and the text allow; unless merges are dropped at
/// random, it is the only one.
#[verifier::external_body]
pub(crate) fn encode_ids(tokenizer: &tokenizers::Tokenizer, text: &str) -> (r: Option<Vec<u32>>)
    requires
        encodable(*tokenizer),
    ensures
        encodings(*tokenizer, text@).contains(ids_view(r)),
        !model_of(*tokenizer).random ==> forall|ids: Option<Seq<u32>>| #[trigger]
            encodings(*tokenizer, text@).contains(ids) ==> ids == ids_view(r),
{
    tokenizer.encode(text, false).ok().map(|e| e.get_ids().to_vec())
}

// ── Laws ─────────────────────────────────────────────────────────────────────

/// A tokenizer of common parts encodes every text: one without added tokens, whose
/// normalizer is a Unicode form, whose pre-tokenizer and post-processor are byte-level,
/// or which has none of these. One whose truncation leaves no room for its stride does
/// not.
pub proof fn law_common_tokenizers_encode(t: &tokenizers::Tokenizer, r: bool)
    requires
        call_ensures(can_encode, (t,), r),
    ensures
        ({
            let plain = |text: Seq<char>, kinds: Seq<Seq<char>>| match json_of_text(text) {
                Some(JsonV::Null) => true,
                Some(v) => get_str(v, "type"@) matches Some(k) && kinds.contains(k),
                None => false,
            };
            let forms = seq!["NFC"@, "NFD"@, "NFKC"@, "NFKD"@, "Lowercase"@];
            &&& truncation_of(*t) is None && padding_of(*t) is None && !model_of(*t).random
                && json_of_text(added_tokens_of(*t)) == Some(JsonV::Array(Seq::empty())) && plain(
                normalizer_of(*t),
                forms,
            ) && plain(pre_tokenizer_of(*t), seq!["ByteLevel"@]) && plain(
                post_processor_of(*t),
                seq!["ByteLevel"@],
            ) ==> r
            &&& (truncation_of(*t) matches Some((max, stride)) && 0 < max <= stride) ==> !r
        }),
{
    let forms = seq!["NFC"@, "NFD"@, "NFKC"@, "NFKD"@, "Lowercase"@];
    let byte_level = seq!["ByteLevel"@];
    assert forall|k: Seq<char>| forms.contains(k) implies k == "NFC"@ || k == "NFD"@ || k
        == "NFKC"@ || k == "NFKD"@ || k == "Lowercase"@ by {
        let i = choose|i: int| 0 <= i < forms.len() && forms[i] == k;
        assert(0 <= i < 5);
    }
    assert forall|k: Seq<char>| byte_level.contains(k) implies k == "ByteLevel"@ by {}
}

} // verus!
