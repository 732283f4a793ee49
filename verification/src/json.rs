//! JSON values as plain data.
//!
//! [`Json`] is the tree that the request and response logic reads and builds.
//! Parsing text into such a tree and writing one as text is done by
//! `serde_json`; everything that looks inside a tree is verified here.

use vstd::prelude::*;

use crate::text::{decimal, opt_view, text_eq, u64_text, views};

verus! {

/// `serde_json`'s own number type, carried as it is.
#[verifier::external_type_specification]
#[verifier::external_body]
pub struct ExNumber(serde_json::Number);

/// The text that a `serde_json::Number` is displayed as.
pub uninterp spec fn number_text(n: serde_json::Number) -> Seq<char>;

/// Calls `serde_json::Number::from` on an unsigned integer, which is displayed by
/// its decimal digits.
#[verifier::external_body]
fn number_from_u64(n: u64) -> (r: serde_json::Number)
    ensures
        number_text(r) == decimal(n as nat),
{
    serde_json::Number::from(n)
}

/// Calls `to_string` on a `serde_json::Number`, which gives the text that it is
/// displayed as.
#[verifier::external_body]
fn shown_number(n: &serde_json::Number) -> (r: String)
    ensures
        r@ == number_text(*n),
{
    n.to_string()
}

/// Calls `serde_json::Number::clone`, which gives the same number.
#[verifier::external_body]
fn copy_number(n: &serde_json::Number) -> (r: serde_json::Number)
    ensures
        number_text(r) == number_text(*n),
{
    n.clone()
}

/// A JSON value.
#[derive(Debug)]
pub enum Json {
    Null,
    Bool(bool),
    /// A number, as `serde_json` holds it.
    Number(serde_json::Number),
    Str(String),
    Array(Vec<Json>),
    /// The members of an object, in order.
    Object(Vec<JsonMember>),
}

/// One `key: value` pair of an object.
#[derive(Debug)]
pub struct JsonMember {
    pub key: String,
    pub value: Json,
}

/// The mathematical value of a [`Json`].
pub enum JsonV {
    Null,
    Bool(bool),
    /// A number, by the text that it is displayed as.
    Number(Seq<char>),
    Str(Seq<char>),
    Array(Seq<JsonV>),
    Object(Seq<(Seq<char>, JsonV)>),
}

/// The value that a tree stands for.
pub open spec fn json_view(j: Json) -> JsonV
    decreases j,
{
    match j {
        Json::Null => JsonV::Null,
        Json::Bool(b) => JsonV::Bool(b),
        Json::Number(n) => JsonV::Number(number_text(n)),
        Json::Str(s) => JsonV::Str(s@),
        Json::Array(v) => JsonV::Array(
            Seq::new(
                v@.len(),
                |i: int|
                    if 0 <= i < v@.len() {
                        json_view(v[i])
                    } else {
                        JsonV::Null
                    },
            ),
        ),
        Json::Object(v) => JsonV::Object(
            Seq::new(
                v@.len(),
                |i: int|
                    if 0 <= i < v@.len() {
                        (v[i].key@, json_view(v[i].value))
                    } else {
                        (Seq::<char>::empty(), JsonV::Null)
                    },
            ),
        ),
    }
}

impl View for Json {
    type V = JsonV;

    open spec fn view(&self) -> JsonV {
        json_view(*self)
    }
}

impl View for JsonMember {
    type V = (Seq<char>, JsonV);

    open spec fn view(&self) -> (Seq<char>, JsonV) {
        (self.key@, self.value@)
    }
}

/// An array's value is the sequence of its elements' values.
pub proof fn lemma_array_view(v: Vec<Json>)
    ensures
        Json::Array(v)@ == JsonV::Array(views(v@)),
{
    match Json::Array(v)@ {
        JsonV::Array(s) => {
            assert(s =~= views(v@));
        },
        _ => {},
    }
}

/// An object's value is the sequence of its members.
pub proof fn lemma_object_view(v: Vec<JsonMember>)
    ensures
        Json::Object(v)@ == JsonV::Object(views(v@)),
{
    match Json::Object(v)@ {
        JsonV::Object(s) => {
            assert(s =~= views(v@));
        },
        _ => {},
    }
}

// ── Looking inside ───────────────────────────────────────────────────────────

/// The value of the first member named `key`.
pub open spec fn member(ms: Seq<(Seq<char>, JsonV)>, key: Seq<char>) -> Option<JsonV>
    decreases ms.len(),
{
    if ms.len() == 0 {
        None
    } else if ms[0].0 == key {
        Some(ms[0].1)
    } else {
        member(ms.subrange(1, ms.len() as int), key)
    }
}

/// The member `key` of a value: present only in an object that has it.
pub open spec fn get(v: JsonV, key: Seq<char>) -> Option<JsonV> {
    match v {
        JsonV::Object(ms) => member(ms, key),
        _ => None,
    }
}

/// The text of a value that is a string.
pub open spec fn str_of(v: JsonV) -> Option<Seq<char>> {
    match v {
        JsonV::Str(s) => Some(s),
        _ => None,
    }
}

/// The text of the string member `key`.
pub open spec fn get_str(v: JsonV, key: Seq<char>) -> Option<Seq<char>> {
    match get(v, key) {
        Some(m) => str_of(m),
        None => None,
    }
}

/// The text of the string member `inner` of the member `outer`.
pub open spec fn get_str2(v: JsonV, outer: Seq<char>, inner: Seq<char>) -> Option<Seq<char>> {
    match get(v, outer) {
        Some(m) => get_str(m, inner),
        None => None,
    }
}

/// How many members a value has; none but an object has any.
pub open spec fn member_count(v: JsonV) -> nat {
    match v {
        JsonV::Object(ms) => ms.len(),
        _ => 0,
    }
}

/// A member that is added to an object is read back under its key, unless the
/// object had one of that key before; every other member stays as it was.
pub broadcast proof fn law_member_reads_back(j: JsonV, key: Seq<char>, value: JsonV, asked: Seq<char>)
    requires
        j is Object,
    ensures
        #[trigger] get(j.with(key, value), asked) == if get(j, asked) is None && asked == key {
            Some(value)
        } else {
            get(j, asked)
        },
        j.with(key, value) is Object,
{
    match j {
        JsonV::Object(ms) => {
            lemma_member_push(ms, (key, value), asked);
        },
        _ => {},
    }
}

proof fn lemma_member_push(ms: Seq<(Seq<char>, JsonV)>, m: (Seq<char>, JsonV), asked: Seq<char>)
    ensures
        member(ms.push(m), asked) == if member(ms, asked) is None && asked == m.0 {
            Some(m.1)
        } else {
            member(ms, asked)
        },
    decreases ms.len(),
{
    let all = ms.push(m);
    if ms.len() == 0 {
        assert(all.subrange(1, 1) =~= Seq::empty());
        assert(member(all.subrange(1, 1), asked) is None);
        assert(all[0] == m);
    } else {
        let rest = ms.subrange(1, ms.len() as int);
        lemma_member_push(rest, m, asked);
        assert(all.subrange(1, all.len() as int) =~= rest.push(m));
        assert(all[0] == ms[0]);
    }
}

impl Json {
    /// The member `key`, when this is an object that has it.
    pub fn get(&self, key: &str) -> (r: Option<&Json>)
        ensures
            match r {
                Some(j) => get(self@, key@) == Some(j@),
                None => get(self@, key@) is None,
            },
    {
        match self {
            Json::Object(ms) => {
                proof {
                    lemma_object_view(*ms);
                }
                let ghost all = views(ms@);
                let mut i: usize = 0;
                proof {
                    assert(all.subrange(0, all.len() as int) =~= all);
                }
                while i < ms.len()
                    invariant
                        i <= ms@.len(),
                        all == views(ms@),
                        self@ == JsonV::Object(all),
                        member(all, key@) == member(all.subrange(i as int, all.len() as int), key@),
                    decreases ms@.len() - i,
                {
                    let ghost rest = all.subrange(i as int, all.len() as int);
                    proof {
                        assert(rest[0] == ms@[i as int]@);
                        assert(rest.subrange(1, rest.len() as int) =~= all.subrange(
                            i + 1,
                            all.len() as int,
                        ));
                    }
                    if text_eq(ms[i].key.as_str(), key) {
                        return Some(&ms[i].value);
                    }
                    i += 1;
                }
                None
            },
            _ => None,
        }
    }

    /// The text, when this is a string.
    pub fn as_str(&self) -> (r: Option<&str>)
        ensures
            match r {
                Some(s) => str_of(self@) == Some(s@),
                None => str_of(self@) is None,
            },
    {
        match self {
            Json::Str(s) => Some(s.as_str()),
            _ => None,
        }
    }

    /// The text of the string member `key`.
    pub fn get_str(&self, key: &str) -> (r: Option<&str>)
        ensures
            match r {
                Some(s) => get_str(self@, key@) == Some(s@),
                None => get_str(self@, key@) is None,
            },
    {
        match self.get(key) {
            Some(m) => m.as_str(),
            None => None,
        }
    }

    /// The text of the string member `inner` of the member `outer`.
    pub fn get_str2(&self, outer: &str, inner: &str) -> (r: Option<&str>)
        ensures
            match r {
                Some(s) => get_str2(self@, outer@, inner@) == Some(s@),
                None => get_str2(self@, outer@, inner@) is None,
            },
    {
        match self.get(outer) {
            Some(m) => m.get_str(inner),
            None => None,
        }
    }

    /// Whether this is this unsigned integer.
    pub fn is_number(&self, n: u64) -> (r: bool)
        ensures
            r == (self@ == number_value(n as nat)),
    {
        match self {
            Json::Number(m) => text_eq(shown_number(m).as_str(), u64_text(n).as_str()),
            _ => false,
        }
    }

    /// Whether this is an object.
    pub fn is_object(&self) -> (r: bool)
        ensures
            r == (self@ is Object),
    {
        match self {
            Json::Object(_) => true,
            _ => false,
        }
    }

    /// A tree of the same value.
    pub fn duplicate(&self) -> (r: Json)
        ensures
            r@ == self@,
        decreases self,
    {
        match self {
            Json::Null => Json::Null,
            Json::Bool(b) => Json::Bool(*b),
            Json::Number(n) => Json::Number(copy_number(n)),
            Json::Str(s) => Json::Str(s.clone()),
            Json::Array(v) => {
                let mut out: Vec<Json> = Vec::new();
                let mut i: usize = 0;
                while i < v.len()
                    invariant
                        *self == Json::Array(*v),
                        i <= v@.len(),
                        out@.len() == i,
                        forall|k: int| 0 <= k < i ==> (#[trigger] out@[k])@ == v@[k]@,
                    decreases v@.len() - i,
                {
                    proof {
                        assert(decreases_to!(*self => self->Array_0));
                        assert(decreases_to!(*v => v[i as int]));
                    }
                    out.push(v[i].duplicate());
                    i += 1;
                }
                proof {
                    lemma_array_view(*v);
                    lemma_array_view(out);
                    assert(views(out@) =~= views(v@));
                }
                Json::Array(out)
            },
            Json::Object(v) => {
                let mut out: Vec<JsonMember> = Vec::new();
                let mut i: usize = 0;
                while i < v.len()
                    invariant
                        *self == Json::Object(*v),
                        i <= v@.len(),
                        out@.len() == i,
                        forall|k: int| 0 <= k < i ==> (#[trigger] out@[k])@ == v@[k]@,
                    decreases v@.len() - i,
                {
                    proof {
                        assert(decreases_to!(*self => self->Object_0));
                        assert(decreases_to!(*v => v[i as int]));
                    }
                    out.push(JsonMember { key: v[i].key.clone(), value: v[i].value.duplicate() });
                    i += 1;
                }
                proof {
                    lemma_object_view(*v);
                    lemma_object_view(out);
                    assert(views(out@) =~= views(v@));
                }
                Json::Object(out)
            },
        }
    }
}

// ── Building ─────────────────────────────────────────────────────────────────

impl JsonV {
    /// The object without members.
    pub open spec fn object() -> JsonV {
        JsonV::Object(Seq::empty())
    }

    /// This object with one more member at the end; any other value is kept.
    pub open spec fn with(self, key: Seq<char>, value: JsonV) -> JsonV {
        match self {
            JsonV::Object(ms) => JsonV::Object(ms.push((key, value))),
            other => other,
        }
    }
}

/// The number value of an unsigned integer.
pub open spec fn number_value(n: nat) -> JsonV {
    JsonV::Number(decimal(n))
}

/// An optional string: `null` when absent.
pub open spec fn opt_str_value(s: Option<Seq<char>>) -> JsonV {
    match s {
        Some(t) => JsonV::Str(t),
        None => JsonV::Null,
    }
}

/// An optional unsigned integer: `null` when absent.
pub open spec fn opt_number_value(n: Option<u64>) -> JsonV {
    match n {
        Some(v) => number_value(v as nat),
        None => JsonV::Null,
    }
}

impl Json {
    /// The object without members.
    pub fn object() -> (r: Json)
        ensures
            r@ == JsonV::object(),
    {
        let ms: Vec<JsonMember> = Vec::new();
        proof {
            lemma_object_view(ms);
            assert(views(ms@) =~= Seq::empty());
        }
        Json::Object(ms)
    }

    /// This object with one more member at the end; any other value is kept.
    pub fn with(self, key: &str, value: Json) -> (r: Json)
        ensures
            r@ == self@.with(key@, value@),
    {
        match self {
            Json::Object(ms) => {
                let mut ms = ms;
                proof {
                    lemma_object_view(ms);
                }
                let ghost old_ms = ms@;
                ms.push(JsonMember { key: key.to_owned(), value });
                proof {
                    lemma_object_view(ms);
                    assert(views(ms@) =~= views(old_ms).push((key@, value@)));
                }
                Json::Object(ms)
            },
            other => other,
        }
    }

    /// The array of the given elements.
    pub fn array(elements: Vec<Json>) -> (r: Json)
        ensures
            r@ == JsonV::Array(views(elements@)),
    {
        proof {
            lemma_array_view(elements);
        }
        Json::Array(elements)
    }

    /// A string value.
    pub fn string(text: &str) -> (r: Json)
        ensures
            r@ == JsonV::Str(text@),
    {
        Json::Str(text.to_owned())
    }

    /// An unsigned integer value.
    pub fn number(n: u64) -> (r: Json)
        ensures
            r@ == number_value(n as nat),
    {
        Json::Number(number_from_u64(n))
    }

    /// A string value, or `null`.
    pub fn opt_string(text: &Option<String>) -> (r: Json)
        ensures
            r@ == opt_str_value(opt_view(*text)),
    {
        match text {
            Some(t) => Json::string(t.as_str()),
            None => Json::Null,
        }
    }

    /// An unsigned integer value, or `null`.
    pub fn opt_number(n: Option<u64>) -> (r: Json)
        ensures
            r@ == opt_number_value(n),
    {
        match n {
            Some(v) => Json::number(v),
            None => Json::Null,
        }
    }
}

// ── Text ─────────────────────────────────────────────────────────────────────

/// `serde_json`'s own value type, carried between the calls below.
#[verifier::external_type_specification]
#[verifier::external_body]
pub struct ExValue(serde_json::Value);

/// What a `serde_json::Value` holds.
pub uninterp spec fn value_json(v: serde_json::Value) -> JsonV;

/// What `serde_json::from_str` reads from a text: `None` when the text is not
/// one JSON value.
pub uninterp spec fn json_of_text(text: Seq<char>) -> Option<JsonV>;

/// What a `serde_json::Value` holds that was built from a tree of this value.
pub uninterp spec fn value_built(j: JsonV) -> JsonV;

/// The compact text that `serde_json::to_string` writes for a value.
pub uninterp spec fn text_of_json(j: JsonV) -> Seq<char>;

/// Calls `serde_json::from_str`. The result is determined by the text: a value
/// holding what the text says, or nothing when the text is not one JSON value.
#[verifier::external_body]
fn value_from_text(text: &str) -> (r: Option<serde_json::Value>)
    ensures
        match r {
            Some(v) => json_of_text(text@) == Some(value_json(v)),
            None => json_of_text(text@) is None,
        },
{
    serde_json::from_str::<serde_json::Value>(text).ok()
}

/// Moves the contents of a `serde_json::Value` into a [`Json`] tree: each
/// variant becomes the variant of the same kind, a number stays as it is, and
/// elements and members keep the order in which `serde_json` hands them out.
#[verifier::external_body]
fn json_from_value(v: serde_json::Value) -> (r: Json)
    ensures
        r@ == value_json(v),
{
    match v {
        serde_json::Value::Null => Json::Null,
        serde_json::Value::Bool(b) => Json::Bool(b),
        serde_json::Value::Number(n) => Json::Number(n),
        serde_json::Value::String(s) => Json::Str(s),
        serde_json::Value::Array(a) => Json::Array(a.into_iter().map(json_from_value).collect()),
        serde_json::Value::Object(m) => Json::Object(
            m.into_iter().map(|(key, v)| JsonMember { key, value: json_from_value(v) }).collect(),
        ),
    }
}

/// Builds a `serde_json::Value` from a [`Json`] tree, variant for variant. What it
/// holds is determined by the tree's value, since numbers that are displayed alike
/// are the same. (`serde_json`'s map decides the order of members.)
#[verifier::external_body]
fn value_from_json(j: &Json) -> (r: serde_json::Value)
    ensures
        value_json(r) == value_built(j@),
{
    match j {
        Json::Null => serde_json::Value::Null,
        Json::Bool(b) => serde_json::Value::Bool(*b),
        Json::Number(n) => serde_json::Value::Number(n.clone()),
        Json::Str(s) => serde_json::Value::String(s.clone()),
        Json::Array(a) => serde_json::Value::Array(a.iter().map(value_from_json).collect()),
        Json::Object(m) => serde_json::Value::Object(
            m.iter().map(|m| (m.key.clone(), value_from_json(&m.value))).collect(),
        ),
    }
}

/// Calls `serde_json::to_string`, which cannot fail on a `Value`. The text is
/// determined by what the value holds.
#[verifier::external_body]
fn value_text(v: &serde_json::Value) -> (r: String)
    ensures
        r@ == text_of_json(value_json(*v)),
{
    serde_json::to_string(v).unwrap_or_default()
}

/// The value that a text says, when it is one JSON value.
pub fn parse_json(text: &str) -> (r: Option<Json>)
    ensures
        match r {
            Some(j) => json_of_text(text@) == Some(j@),
            None => json_of_text(text@) is None,
        },
{
    match value_from_text(text) {
        Some(v) => Some(json_from_value(v)),
        None => None,
    }
}

/// The compact text of a value.
pub fn render_json(j: &Json) -> (r: String)
    ensures
        r@ == text_of_json(value_built(j@)),
{
    value_text(&value_from_json(j))
}

// ── Laws ─────────────────────────────────────────────────────────────────────

/// A member is found by its key: the first of that key, and none where no member has
/// it. Only an object has members.
pub proof fn law_first_member_is_found(ms: Seq<(Seq<char>, JsonV)>, key: Seq<char>, i: int)
    requires
        0 <= i <= ms.len(),
        forall|k: int| 0 <= k < i ==> (#[trigger] ms[k]).0 != key,
        i < ms.len() ==> ms[i].0 == key,
    ensures
        i < ms.len() ==> get(JsonV::Object(ms), key) == Some(ms[i].1),
        i == ms.len() ==> get(JsonV::Object(ms), key) is None,
    decreases ms.len(),
{
    if ms.len() > 0 && i > 0 {
        let rest = ms.subrange(1, ms.len() as int);
        assert(ms[0].0 != key);
        assert forall|k: int| 0 <= k < i - 1 implies (#[trigger] rest[k]).0 != key by {
            assert(rest[k] == ms[k + 1]);
        }
        law_first_member_is_found(rest, key, i - 1);
    }
}

/// A text is read from a member that is a string, and from one that stands in another;
/// from anything else there is none.
pub proof fn law_member_texts_are_read(v: JsonV, outer: Seq<char>, inner: Seq<char>, s: Seq<char>)
    ensures
        get_str(v, outer) == Some(s) <==> get(v, outer) == Some(JsonV::Str(s)),
        get_str2(v, outer, inner) == Some(s) <==> (get(v, outer) matches Some(m) && get(m, inner)
            == Some(JsonV::Str(s))),
        !(v is Object) ==> get(v, outer) is None,
{
}

} // verus!
