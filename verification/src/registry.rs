//! Catalogue of model snapshots.

use vstd::prelude::*;

use crate::json::{Json, JsonV};
use crate::openai::errors::GenerationConfig;
use crate::text::{chars_of, opt_view, text_eq};

verus! {

// ── Order of ids ─────────────────────────────────────────────────────────────

/// `a` comes before `b` in the order of their characters.
pub open spec fn before(a: Seq<char>, b: Seq<char>) -> bool
    decreases a.len(),
{
    if b.len() == 0 {
        false
    } else if a.len() == 0 {
        true
    } else if a[0] != b[0] {
        a[0] < b[0]
    } else {
        before(a.subrange(1, a.len() as int), b.subrange(1, b.len() as int))
    }
}

fn comes_before(a: &str, b: &str) -> (r: bool)
    ensures
        r == before(a@, b@),
{
    let x = chars_of(a);
    let y = chars_of(b);
    let mut i: usize = 0;
    proof {
        assert(x@.subrange(0, x@.len() as int) =~= x@);
        assert(y@.subrange(0, y@.len() as int) =~= y@);
    }
    loop
        invariant
            i <= x@.len(),
            i <= y@.len(),
            x@ == a@,
            y@ == b@,
            before(a@, b@) == before(
                x@.subrange(i as int, x@.len() as int),
                y@.subrange(i as int, y@.len() as int),
            ),
        decreases x@.len() - i,
    {
        let ghost p = x@.subrange(i as int, x@.len() as int);
        let ghost q = y@.subrange(i as int, y@.len() as int);
        if i == y.len() {
            return false;
        }
        if i == x.len() {
            return true;
        }
        proof {
            assert(p[0] == x@[i as int] && q[0] == y@[i as int]);
            assert(p.subrange(1, p.len() as int) =~= x@.subrange(i + 1, x@.len() as int));
            assert(q.subrange(1, q.len() as int) =~= y@.subrange(i + 1, y@.len() as int));
        }
        if x[i] != y[i] {
            return x[i] < y[i];
        }
        i += 1;
    }
}

proof fn lemma_before_total(a: Seq<char>, b: Seq<char>)
    ensures
        before(a, b) || before(b, a) || a == b,
        !(before(a, b) && before(b, a)),
    decreases a.len(),
{
    if a.len() == 0 || b.len() == 0 {
        if a.len() == 0 && b.len() == 0 {
            assert(a =~= b);
        }
    } else {
        let a1 = a.subrange(1, a.len() as int);
        let b1 = b.subrange(1, b.len() as int);
        lemma_before_total(a1, b1);
        if a[0] == b[0] && a1 == b1 {
            assert(a =~= seq![a[0]] + a1);
            assert(b =~= seq![b[0]] + b1);
        }
    }
}

proof fn lemma_not_before_itself(a: Seq<char>)
    ensures
        !before(a, a),
    decreases a.len(),
{
    if a.len() > 0 {
        lemma_not_before_itself(a.subrange(1, a.len() as int));
    }
}

proof fn lemma_before_transitive(a: Seq<char>, b: Seq<char>, c: Seq<char>)
    requires
        before(a, b),
        before(b, c),
    ensures
        before(a, c),
    decreases a.len(),
{
    if a.len() > 0 && b.len() > 0 && c.len() > 0 && a[0] == b[0] && b[0] == c[0] {
        lemma_before_transitive(
            a.subrange(1, a.len() as int),
            b.subrange(1, b.len() as int),
            c.subrange(1, c.len() as int),
        );
    }
}

// ── Entries ──────────────────────────────────────────────────────────────────

/// A known model snapshot.
#[derive(Debug)]
pub struct ModelEntry {
    pub id: String,
    pub abs_path_str: String,
    /// The first architecture that the snapshot declares.
    pub arch: String,
    pub has_chat_template: bool,
    /// The source of the chat template.
    pub chat_template_src: Option<String>,
    pub has_tokenizer: bool,
    pub bos_token: Option<String>,
    pub eos_token: Option<String>,
    pub generation_defaults: Option<GenerationConfig>,
    /// Whether the template can render tools.
    pub tools_supported: bool,
}

/// What reading a snapshot gave. Everything but the configuration may be missing.
#[derive(Debug)]
pub struct SnapshotProbe {
    pub abs_path_str: String,
    /// The architectures that the configuration declares; `None` when there is no
    /// readable configuration.
    pub architectures: Option<Vec<String>>,
    /// The source of the chat template, where there is one.
    pub template_src: Option<String>,
    /// Whether that source is a template.
    pub template_compiles: bool,
    /// Whether that template renders a tool.
    pub template_renders_tools: bool,
    pub has_tokenizer: bool,
    pub bos_token: Option<String>,
    pub eos_token: Option<String>,
    pub generation_defaults: Option<GenerationConfig>,
}

/// Whether a snapshot has a usable template.
pub open spec fn has_template(p: SnapshotProbe) -> bool {
    p.template_src is Some && p.template_compiles
}

/// The entry `e` says of a snapshot what reading it gave.
pub open spec fn entry_matches(e: ModelEntry, id: Seq<char>, p: SnapshotProbe) -> bool {
    &&& e.id@ == id
    &&& e.abs_path_str == p.abs_path_str
    &&& e.arch@ == if p.architectures->0@.len() > 0 {
        p.architectures->0@[0]@
    } else {
        "unknown"@
    }
    &&& e.has_chat_template == has_template(p)
    &&& e.chat_template_src == p.template_src
    &&& e.has_tokenizer == p.has_tokenizer
    &&& e.bos_token == p.bos_token
    &&& e.eos_token == p.eos_token
    &&& e.generation_defaults == p.generation_defaults
    &&& e.tools_supported == (has_template(p) && p.template_renders_tools)
}

/// The entry of a snapshot: none when it has no readable configuration. A
/// template or tokenizer may be missing; without a template tools are not
/// supported.
pub fn entry_of(id: &str, p: SnapshotProbe) -> (r: Option<ModelEntry>)
    ensures
        match r {
            None => p.architectures is None,
            Some(e) => p.architectures is Some && entry_matches(e, id@, p),
        },
{
    match p.architectures {
        None => None,
        Some(names) => {
            let arch = if names.len() > 0 {
                names[0].clone()
            } else {
                "unknown".to_owned()
            };
            let has_chat_template = p.template_src.is_some() && p.template_compiles;
            Some(
                ModelEntry {
                    id: id.to_owned(),
                    abs_path_str: p.abs_path_str,
                    arch,
                    has_chat_template,
                    chat_template_src: p.template_src,
                    has_tokenizer: p.has_tokenizer,
                    bos_token: p.bos_token,
                    eos_token: p.eos_token,
                    generation_defaults: p.generation_defaults,
                    tools_supported: has_chat_template && p.template_renders_tools,
                },
            )
        },
    }
}

// ── Configuration ────────────────────────────────────────────────────────────

/// One entry of a registry file.
#[derive(Debug)]
pub struct RegistryConfigEntry {
    /// The id of the model; derived from the path when absent.
    pub id: Option<String>,
    pub path: String,
}

/// A registry file.
#[derive(Debug)]
pub struct RegistryConfig {
    pub models: Vec<RegistryConfigEntry>,
}

/// The tool with which a template is tried out.
pub open spec fn probe_tool_value() -> JsonV {
    JsonV::object().with("type"@, JsonV::Str("function"@)).with(
        "function"@,
        JsonV::object().with("name"@, JsonV::Str("probe"@)).with(
            "description"@,
            JsonV::Str("probe"@),
        ).with(
            "parameters"@,
            JsonV::object().with("type"@, JsonV::Str("object"@)).with(
                "properties"@,
                JsonV::object(),
            ),
        ),
    )
}

/// The tool with which a template is tried out.
pub fn probe_tool() -> (r: Json)
    ensures
        r@ == probe_tool_value(),
{
    let parameters = Json::object().with("type", Json::string("object")).with(
        "properties",
        Json::object(),
    );
    Json::object().with("type", Json::string("function")).with(
        "function",
        Json::object().with("name", Json::string("probe")).with(
            "description",
            Json::string("probe"),
        ).with("parameters", parameters),
    )
}

/// The id of a snapshot: the one given, else the name of its directory, else
/// `unknown`.
pub open spec fn snapshot_id(id: Option<Seq<char>>, dir_name: Option<Seq<char>>) -> Seq<char> {
    match (id, dir_name) {
        (Some(i), _) => i,
        (None, Some(n)) => n,
        (None, None) => "unknown"@,
    }
}

/// The id of a snapshot.
pub fn resolve_snapshot_id(id: &Option<String>, dir_name: &Option<String>) -> (r: String)
    ensures
        r@ == snapshot_id(opt_view(*id), opt_view(*dir_name)),
{
    match id {
        Some(i) => i.clone(),
        None => match dir_name {
            Some(n) => n.clone(),
            None => "unknown".to_owned(),
        },
    }
}

// ── The registry ─────────────────────────────────────────────────────────────

/// The snapshots of a registry, in the order of their ids.
#[derive(Debug)]
pub struct ModelRegistry {
    entries: Vec<ModelEntry>,
}

/// Ids stand in strictly ascending order, so none occurs twice.
pub open spec fn ordered(es: Seq<ModelEntry>) -> bool {
    forall|i: int, j: int|
        0 <= i < j < es.len() ==> before((#[trigger] es[i]).id@, (#[trigger] es[j]).id@)
}

impl View for ModelRegistry {
    type V = Seq<ModelEntry>;

    closed spec fn view(&self) -> Seq<ModelEntry> {
        self.entries@
    }
}

/// `e` is the entry of this id.
pub open spec fn holds(es: Seq<ModelEntry>, id: Seq<char>, e: ModelEntry) -> bool {
    exists|i: int| 0 <= i < es.len() && (#[trigger] es[i]) == e && e.id@ == id
}

/// There is no entry of this id.
pub open spec fn lacks(es: Seq<ModelEntry>, id: Seq<char>) -> bool {
    forall|i: int| 0 <= i < es.len() ==> (#[trigger] es[i]).id@ != id
}

/// The registry `after` is `es` with the entry `e` at position `at`, in place of
/// one of its id.
pub open spec fn inserted_at(
    es: Seq<ModelEntry>,
    e: ModelEntry,
    after: Seq<ModelEntry>,
    at: int,
) -> bool {
    &&& 0 <= at <= es.len()
    &&& forall|i: int| 0 <= i < at ==> before((#[trigger] es[i]).id@, e.id@)
    &&& if at < es.len() && es[at].id@ == e.id@ {
        after == es.update(at, e)
    } else {
        &&& at < es.len() ==> before(e.id@, es[at].id@)
        &&& after == es.insert(at, e)
    }
}

/// The registry `after` is `es` with the entry `e`, in place of one of its id.
pub open spec fn inserted(es: Seq<ModelEntry>, e: ModelEntry, after: Seq<ModelEntry>) -> bool {
    exists|at: int| inserted_at(es, e, after, at)
}

impl ModelRegistry {
    /// A registry without snapshots.
    pub fn new() -> (r: Self)
        ensures
            r@ == Seq::<ModelEntry>::empty(),
            ordered(r@),
    {
        let r = ModelRegistry { entries: Vec::new() };
        proof {
            assert(r.entries@ =~= Seq::empty());
        }
        r
    }

    /// Adds a snapshot, in place of one of the same id.
    pub fn insert(&mut self, e: ModelEntry)
        requires
            ordered(old(self)@),
        ensures
            inserted(old(self)@, e, final(self)@),
            ordered(final(self)@),
            holds(final(self)@, e.id@, e),
    {
        let ghost es = self.entries@;
        let mut at: usize = 0;
        while at < self.entries.len() && comes_before(
            self.entries[at].id.as_str(),
            e.id.as_str(),
        )
            invariant
                self.entries@ == es,
                at <= es.len(),
                forall|i: int| 0 <= i < at ==> before((#[trigger] es[i]).id@, e.id@),
            decreases es.len() - at,
        {
            at += 1;
        }
        let replace = at < self.entries.len() && text_eq(
            self.entries[at].id.as_str(),
            e.id.as_str(),
        );
        proof {
            if at < es.len() {
                lemma_before_total(es[at as int].id@, e.id@);
            }
        }
        if replace {
            let _ = self.entries.remove(at);
            self.entries.insert(at, e);
            proof {
                assert(self.entries@ =~= es.update(at as int, e));
                assert(inserted_at(es, e, self.entries@, at as int));
                assert forall|i: int, j: int| 0 <= i < j < self.entries@.len() implies before(
                    (#[trigger] self.entries@[i]).id@,
                    (#[trigger] self.entries@[j]).id@,
                ) by {
                    assert(before(es[i].id@, es[j].id@));
                }
                assert(self.entries@[at as int] == e);
            }
        } else {
            self.entries.insert(at, e);
            proof {
                assert(self.entries@ =~= es.insert(at as int, e));
                assert(inserted_at(es, e, self.entries@, at as int));
                assert forall|i: int, j: int| 0 <= i < j < self.entries@.len() implies before(
                    (#[trigger] self.entries@[i]).id@,
                    (#[trigger] self.entries@[j]).id@,
                ) by {
                    if j < at {
                        assert(before(es[i].id@, es[j].id@));
                    } else if j == at {
                        assert(before(es[i].id@, e.id@));
                    } else if i > at {
                        assert(before(es[i - 1].id@, es[j - 1].id@));
                    } else if i == at {
                        assert(before(e.id@, es[at as int].id@));
                        if j - 1 > at {
                            assert(before(es[at as int].id@, es[j - 1].id@));
                            lemma_before_transitive(e.id@, es[at as int].id@, es[j - 1].id@);
                        }
                    } else {
                        assert(before(es[i].id@, es[j - 1].id@));
                    }
                }
                assert(self.entries@[at as int] == e);
            }
        }
    }

    /// The snapshot of this id.
    pub fn get(&self, id: &str) -> (r: Option<&ModelEntry>)
        ensures
            match r {
                Some(e) => holds(self@, id@, *e),
                None => lacks(self@, id@),
            },
    {
        let mut i: usize = 0;
        while i < self.entries.len()
            invariant
                i <= self.entries@.len(),
                forall|k: int| 0 <= k < i ==> (#[trigger] self.entries@[k]).id@ != id@,
            decreases self.entries@.len() - i,
        {
            if text_eq(self.entries[i].id.as_str(), id) {
                proof {
                    assert(holds(self@, id@, self.entries@[i as int]));
                }
                return Some(&self.entries[i]);
            }
            i += 1;
        }
        None
    }

    /// All snapshots, in the order of their ids.
    pub fn list(&self) -> (r: &Vec<ModelEntry>)
        ensures
            r@ == self@,
    {
        &self.entries
    }
}

/// The ids of entries.
pub open spec fn ids_of(es: Seq<ModelEntry>) -> Seq<Seq<char>> {
    Seq::new(es.len(), |i: int| es[i].id@)
}

/// A snapshot that was read, with its id.
#[derive(Debug)]
pub struct Snapshot {
    pub id: String,
    pub probe: SnapshotProbe,
}

/// `id` belongs to a snapshot with a readable configuration.
pub open spec fn readable(ss: Seq<Snapshot>, id: Seq<char>) -> bool {
    exists|i: int|
        0 <= i < ss.len() && (#[trigger] ss[i]).id@ == id && ss[i].probe.architectures is Some
}

/// `e` is the entry of the last readable snapshot of its id.
pub open spec fn from_last(ss: Seq<Snapshot>, e: ModelEntry) -> bool {
    exists|i: int|
        {
            &&& 0 <= i < ss.len()
            &&& (#[trigger] ss[i]).id@ == e.id@
            &&& ss[i].probe.architectures is Some
            &&& entry_matches(e, e.id@, ss[i].probe)
            &&& forall|j: int|
                i < j < ss.len() && (#[trigger] ss[j]).id@ == e.id@
                    ==> ss[j].probe.architectures is None
        }
}

proof fn lemma_inserted_keeps(
    es: Seq<ModelEntry>,
    e: ModelEntry,
    after: Seq<ModelEntry>,
    other: Seq<char>,
)
    requires
        inserted(es, e, after),
        ordered(es),
    ensures
        forall|x: ModelEntry| other != e.id@ ==> (#[trigger] holds(after, other, x) == holds(
            es,
            other,
            x,
        )),
        forall|x: ModelEntry| #[trigger] holds(after, e.id@, x) ==> x == e,
{
    let at = choose|at: int| inserted_at(es, e, after, at);
    let replaced = at < es.len() && es[at].id@ == e.id@;
    assert forall|x: ModelEntry| other != e.id@ implies (#[trigger] holds(after, other, x) == holds(
        es,
        other,
        x,
    )) by {
        if holds(after, other, x) {
            let i = choose|i: int| 0 <= i < after.len() && (#[trigger] after[i]) == x;
            if replaced {
                assert(es[i] == x);
            } else if i < at {
                assert(es[i] == x);
            } else {
                assert(i != at);
                assert(es[i - 1] == x);
            }
        }
        if holds(es, other, x) {
            let i = choose|i: int| 0 <= i < es.len() && (#[trigger] es[i]) == x;
            if replaced {
                assert(after[i] == x);
            } else if i < at {
                assert(after[i] == x);
            } else {
                assert(after[i + 1] == x);
            }
        }
    }
    assert forall|x: ModelEntry| #[trigger] holds(after, e.id@, x) implies x == e by {
        let i = choose|i: int| 0 <= i < after.len() && (#[trigger] after[i]) == x;
        let source = if replaced || i < at {
            i
        } else {
            i - 1
        };
        if i != at {
            assert(es[source] == x);
            lemma_not_before_itself(e.id@);
            if source < at {
                assert(before(es[source].id@, e.id@));
            } else if replaced {
                assert(before(es[at].id@, es[source].id@));
            } else {
                assert(before(e.id@, es[at].id@));
                if source > at {
                    assert(before(es[at].id@, es[source].id@));
                    lemma_before_transitive(e.id@, es[at].id@, es[source].id@);
                }
            }
        }
    }
}

impl ModelRegistry {
    /// The registry of the snapshots that could be read. Those without a readable
    /// configuration are left out; of two with one id the later stays.
    pub fn from_snapshots(snapshots: Vec<Snapshot>) -> (r: Self)
        ensures
            registered(snapshots@, r@),
    {
        let ghost ss = snapshots@;
        let mut reg = ModelRegistry::new();
        let mut rest = snapshots;
        let n: usize = rest.len();
        let mut i: usize = 0;
        proof {
            assert(ss.subrange(0, n as int) =~= ss);
            assert(ss.subrange(0, 0) =~= Seq::empty());
        }
        while i < n
            invariant
                i <= n,
                n == ss.len(),
                rest@ =~= ss.subrange(i as int, n as int),
                ordered(reg@),
                forall|id: Seq<char>| #[trigger]
                    readable(ss.subrange(0, i as int), id) == !lacks(reg@, id),
                forall|k: int|
                    0 <= k < reg@.len() ==> from_last(ss.subrange(0, i as int), #[trigger] reg@[k]),
            decreases n - i,
        {
            let s = rest.remove(0);
            let ghost prev = ss.subrange(0, i as int);
            let ghost next = ss.subrange(0, i + 1);
            let ghost es = reg@;
            let ghost probe = s.probe;
            let ghost sid = s.id@;
            proof {
                assert(s == ss[i as int]);
                assert(next =~= prev.push(s));
            }
            match entry_of(s.id.as_str(), s.probe) {
                None => {
                    proof {
                        lemma_readable_push(prev, s);
                        assert forall|k: int| 0 <= k < reg@.len() implies from_last(
                            next,
                            #[trigger] reg@[k],
                        ) by {
                            lemma_from_last_push_unreadable(prev, s, reg@[k]);
                        }
                    }
                },
                Some(e) => {
                    reg.insert(e);
                    proof {
                        lemma_readable_push(prev, s);
                        assert forall|id: Seq<char>| #[trigger] readable(next, id) == !lacks(
                            reg@,
                            id,
                        ) by {
                            lemma_inserted_keeps(es, e, reg@, id);
                            lemma_holds_lacks(es, id);
                            lemma_holds_lacks(reg@, id);
                            if id == sid {
                                assert(holds(reg@, id, e));
                            } else {
                                assert(readable(next, id) == readable(prev, id));
                                if !lacks(es, id) {
                                    let x = choose|x: ModelEntry| holds(es, id, x);
                                    assert(holds(reg@, id, x));
                                }
                                if !lacks(reg@, id) {
                                    let x = choose|x: ModelEntry| holds(reg@, id, x);
                                    assert(holds(es, id, x));
                                }
                            }
                        }
                        assert forall|k: int| 0 <= k < reg@.len() implies from_last(
                            next,
                            #[trigger] reg@[k],
                        ) by {
                            let x = reg@[k];
                            lemma_inserted_keeps(es, e, reg@, x.id@);
                            assert(holds(reg@, x.id@, x));
                            if x.id@ == sid {
                                assert(x == e);
                                assert(next[i as int] == s);
                            } else {
                                assert(holds(es, x.id@, x));
                                let j = choose|j: int|
                                    0 <= j < es.len() && (#[trigger] es[j]) == x;
                                assert(from_last(prev, es[j]));
                                lemma_from_last_push_other(prev, s, x);
                            }
                        }
                    }
                },
            }
            i += 1;
        }
        reg
    }
}

proof fn lemma_holds_lacks(es: Seq<ModelEntry>, id: Seq<char>)
    ensures
        lacks(es, id) == !(exists|x: ModelEntry| holds(es, id, x)),
{
    if !lacks(es, id) {
        let i = choose|i: int| 0 <= i < es.len() && (#[trigger] es[i]).id@ == id;
        assert(holds(es, id, es[i]));
    }
}

proof fn lemma_readable_push(prev: Seq<Snapshot>, s: Snapshot)
    ensures
        forall|id: Seq<char>| #[trigger]
            readable(prev.push(s), id) == (readable(prev, id) || (s.id@ == id
                && s.probe.architectures is Some)),
{
    let next = prev.push(s);
    assert forall|id: Seq<char>| #[trigger] readable(next, id) == (readable(prev, id) || (s.id@ == id
        && s.probe.architectures is Some)) by {
        if readable(prev, id) {
            let i = choose|i: int|
                0 <= i < prev.len() && (#[trigger] prev[i]).id@ == id
                    && prev[i].probe.architectures is Some;
            assert(next[i] == prev[i]);
        }
        if s.id@ == id && s.probe.architectures is Some {
            assert(next[prev.len() as int] == s);
        }
        if readable(next, id) {
            let i = choose|i: int|
                0 <= i < next.len() && (#[trigger] next[i]).id@ == id
                    && next[i].probe.architectures is Some;
            if i < prev.len() {
                assert(prev[i] == next[i]);
            }
        }
    }
}

proof fn lemma_from_last_push_unreadable(prev: Seq<Snapshot>, s: Snapshot, e: ModelEntry)
    requires
        from_last(prev, e),
        s.probe.architectures is None,
    ensures
        from_last(prev.push(s), e),
{
    let next = prev.push(s);
    let i = choose|i: int|
        {
            &&& 0 <= i < prev.len()
            &&& (#[trigger] prev[i]).id@ == e.id@
            &&& prev[i].probe.architectures is Some
            &&& entry_matches(e, e.id@, prev[i].probe)
            &&& forall|j: int|
                i < j < prev.len() && (#[trigger] prev[j]).id@ == e.id@
                    ==> prev[j].probe.architectures is None
        };
    assert(next[i] == prev[i]);
    assert forall|j: int| i < j < next.len() && (#[trigger] next[j]).id@ == e.id@ implies next[j].probe.architectures is None by {
        if j < prev.len() {
            assert(next[j] == prev[j]);
        }
    }
}

proof fn lemma_from_last_push_other(prev: Seq<Snapshot>, s: Snapshot, e: ModelEntry)
    requires
        from_last(prev, e),
        s.id@ != e.id@,
    ensures
        from_last(prev.push(s), e),
{
    let next = prev.push(s);
    let i = choose|i: int|
        {
            &&& 0 <= i < prev.len()
            &&& (#[trigger] prev[i]).id@ == e.id@
            &&& prev[i].probe.architectures is Some
            &&& entry_matches(e, e.id@, prev[i].probe)
            &&& forall|j: int|
                i < j < prev.len() && (#[trigger] prev[j]).id@ == e.id@
                    ==> prev[j].probe.architectures is None
        };
    assert(next[i] == prev[i]);
    assert forall|j: int| i < j < next.len() && (#[trigger] next[j]).id@ == e.id@ implies next[j].probe.architectures is None by {
        if j < prev.len() {
            assert(next[j] == prev[j]);
        }
    }
}

/// An id occurs at most once in a registry, so that a lookup has one answer.
pub proof fn law_ids_are_unique(es: Seq<ModelEntry>, id: Seq<char>, x: ModelEntry, y: ModelEntry)
    requires
        ordered(es),
        holds(es, id, x),
        holds(es, id, y),
    ensures
        x == y,
{
    let i = choose|i: int| 0 <= i < es.len() && (#[trigger] es[i]) == x;
    let j = choose|j: int| 0 <= j < es.len() && (#[trigger] es[j]) == y;
    lemma_not_before_itself(id);
    if i < j {
        assert(before(es[i].id@, es[j].id@));
    } else if j < i {
        assert(before(es[j].id@, es[i].id@));
    }
}

/// Adding a snapshot leaves every other id as it was.
pub proof fn law_insert_changes_one_id(
    es: Seq<ModelEntry>,
    e: ModelEntry,
    after: Seq<ModelEntry>,
    other: Seq<char>,
    x: ModelEntry,
)
    requires
        ordered(es),
        inserted(es, e, after),
        other != e.id@,
    ensures
        holds(after, other, x) == holds(es, other, x),
{
    lemma_inserted_keeps(es, e, after, other);
}

// ── From a file or from paths ────────────────────────────────────────────────

/// What was found at the path of a configured snapshot.
#[derive(Debug)]
pub struct PathProbe {
    /// The name of the directory, where it has one.
    pub dir_name: Option<String>,
    pub probe: SnapshotProbe,
}

/// The snapshots of a registry file, with the ids that they get.
pub open spec fn configured(
    models: Seq<RegistryConfigEntry>,
    probes: Seq<PathProbe>,
    ss: Seq<Snapshot>,
) -> bool {
    &&& ss.len() == probes.len()
    &&& forall|i: int|
        0 <= i < ss.len() ==> {
            &&& (#[trigger] ss[i]).probe == probes[i].probe
            &&& ss[i].id@ == snapshot_id(
                if i < models.len() {
                    opt_view(models[i].id)
                } else {
                    None
                },
                opt_view(probes[i].dir_name),
            )
        }
}

fn identify(models: &Vec<RegistryConfigEntry>, probes: Vec<PathProbe>) -> (r: Vec<Snapshot>)
    ensures
        configured(models@, probes@, r@),
{
    let ghost all = probes@;
    let mut out: Vec<Snapshot> = Vec::new();
    let mut rest = probes;
    let n: usize = rest.len();
    let mut i: usize = 0;
    while i < n
        invariant
            i <= n,
            n == all.len(),
            rest@ =~= all.subrange(i as int, n as int),
            configured(models@, all.subrange(0, i as int), out@),
        decreases n - i,
    {
        let p = rest.remove(0);
        let given: &Option<String> = if i < models.len() {
            &models[i].id
        } else {
            &None
        };
        let id = resolve_snapshot_id(given, &p.dir_name);
        let ghost before = out@;
        out.push(Snapshot { id, probe: p.probe });
        proof {
            let next = all.subrange(0, i + 1);
            assert forall|k: int| 0 <= k < out@.len() implies ({
                &&& (#[trigger] out@[k]).probe == next[k].probe
                &&& out@[k].id@ == snapshot_id(
                    if k < models@.len() {
                        opt_view(models@[k].id)
                    } else {
                        None
                    },
                    opt_view(next[k].dir_name),
                )
            }) by {
                if k < i {
                    assert(out@[k] == before[k]);
                    assert(next[k] == all.subrange(0, i as int)[k]);
                }
            }
        }
        i += 1;
    }
    proof {
        assert(all.subrange(0, i as int) =~= all);
    }
    out
}

/// The registry `es` holds the readable ones of these snapshots, in the order of
/// their ids; of two with one id, the later.
pub open spec fn registered(ss: Seq<Snapshot>, es: Seq<ModelEntry>) -> bool {
    &&& ordered(es)
    &&& forall|id: Seq<char>| #[trigger] readable(ss, id) == !lacks(es, id)
    &&& forall|i: int| 0 <= i < es.len() ==> from_last(ss, #[trigger] es[i])
}

impl ModelRegistry {
    /// The registry of a registry file. `probes` holds what was found at the path
    /// of each entry, in order.
    pub fn from_config(cfg: &RegistryConfig, probes: Vec<PathProbe>) -> (r: Self)
        ensures
            exists|ss: Seq<Snapshot>| #[trigger]
                configured(cfg.models@, probes@, ss) && registered(ss, r@),
    {
        let ss = identify(&cfg.models, probes);
        proof {
            assert(configured(cfg.models@, probes@, ss@));
        }
        ModelRegistry::from_snapshots(ss)
    }

    /// The registry of snapshot paths, each under the name of its directory.
    pub fn from_paths(probes: Vec<PathProbe>) -> (r: Self)
        ensures
            exists|ss: Seq<Snapshot>| #[trigger]
                configured(Seq::empty(), probes@, ss) && registered(ss, r@),
    {
        let none: Vec<RegistryConfigEntry> = Vec::new();
        let ss = identify(&none, probes);
        proof {
            assert(none@ =~= Seq::empty());
            assert(configured(Seq::empty(), probes@, ss@));
        }
        ModelRegistry::from_snapshots(ss)
    }
}

// ── What a registry says ─────────────────────────────────────────────────────

/// The entry of a snapshot says what reading it gave: its path, its first architecture,
/// its template and whether that can be used and renders tools, its tokenizer, its
/// tokens and its sampling defaults. Only a snapshot without a readable configuration
/// has none.
pub proof fn law_entry_says_what_was_read(id: &str, p: SnapshotProbe, r: Option<ModelEntry>)
    requires
        call_ensures(entry_of, (id, p), r),
    ensures
        r is Some == p.architectures is Some,
        r matches Some(e) ==> {
            &&& e.id@ == id@
            &&& e.abs_path_str@ == p.abs_path_str@
            &&& p.architectures->0@.len() > 0 ==> e.arch@ == p.architectures->0@[0]@
            &&& p.architectures->0@.len() == 0 ==> e.arch@ == "unknown"@
            &&& e.has_chat_template == (p.template_src is Some && p.template_compiles)
            &&& e.chat_template_src == p.template_src
            &&& e.has_tokenizer == p.has_tokenizer
            &&& e.bos_token == p.bos_token
            &&& e.eos_token == p.eos_token
            &&& e.generation_defaults == p.generation_defaults
            &&& e.tools_supported == (p.template_src is Some && p.template_compiles
                && p.template_renders_tools)
        },
{
}

/// Ids are ordered by their first different character; a text comes before what it
/// begins.
pub proof fn law_ids_are_ordered_by_characters(
    common: Seq<char>,
    c: char,
    d: char,
    x: Seq<char>,
    y: Seq<char>,
)
    requires
        c < d,
    ensures
        before(common + seq![c] + x, common + seq![d] + y),
        !before(common + seq![d] + y, common + seq![c] + x),
        before(common, common + seq![c] + x),
        !before(common + seq![c] + x, common),
        !before(common, common),
    decreases common.len(),
{
    let a = common + seq![c] + x;
    let b = common + seq![d] + y;
    if common.len() == 0 {
        assert(a[0] == c);
        assert(b[0] == d);
    } else {
        let rest = common.subrange(1, common.len() as int);
        law_ids_are_ordered_by_characters(rest, c, d, x, y);
        assert(a.subrange(1, a.len() as int) =~= rest + seq![c] + x);
        assert(b.subrange(1, b.len() as int) =~= rest + seq![d] + y);
    }
}

/// A snapshot with a readable configuration is found under its id, as the last of that
/// id that was read; an id without such a snapshot is not found. The list is in the
/// order of the ids.
pub proof fn law_registry_finds_the_last_of_an_id(
    ss: Vec<Snapshot>,
    reg: ModelRegistry,
    id: &str,
    found: Option<&ModelEntry>,
    i: int,
)
    requires
        call_ensures(ModelRegistry::from_snapshots, (ss,), reg),
        call_ensures(ModelRegistry::get, (&reg, id), found),
        0 <= i < ss@.len(),
        ss@[i].id@ == id@,
        ss@[i].probe.architectures is Some,
        forall|j: int|
            i < j < ss@.len() && (#[trigger] ss@[j]).id@ == id@
                ==> ss@[j].probe.architectures is None,
    ensures
        found matches Some(e) && {
            &&& e.id@ == id@
            &&& e.abs_path_str@ == ss@[i].probe.abs_path_str@
            &&& e.chat_template_src == ss@[i].probe.template_src
            &&& e.has_tokenizer == ss@[i].probe.has_tokenizer
            &&& e.generation_defaults == ss@[i].probe.generation_defaults
        },
        forall|a: int, b: int|
            0 <= a < b < reg@.len() ==> before(
                (#[trigger] reg@[a]).id@,
                (#[trigger] reg@[b]).id@,
            ),
{
    assert(readable(ss@, id@));
    match found {
        Some(e) => {
            let k = choose|k: int| 0 <= k < reg@.len() && (#[trigger] reg@[k]) == *e;
            assert(from_last(ss@, reg@[k]));
            let n = choose|n: int|
                {
                    &&& 0 <= n < ss@.len()
                    &&& (#[trigger] ss@[n]).id@ == e.id@
                    &&& ss@[n].probe.architectures is Some
                    &&& entry_matches(*e, e.id@, ss@[n].probe)
                    &&& forall|j: int|
                        n < j < ss@.len() && (#[trigger] ss@[j]).id@ == e.id@
                            ==> ss@[j].probe.architectures is None
                };
            if n < i {
                assert(ss@[i].id@ == e.id@);
            } else if i < n {
                assert(ss@[n].id@ == id@);
            }
        },
        None => {},
    }
}

/// An id that no readable snapshot has is not found.
pub proof fn law_unknown_id_is_not_found(
    ss: Vec<Snapshot>,
    reg: ModelRegistry,
    id: &str,
    found: Option<&ModelEntry>,
)
    requires
        call_ensures(ModelRegistry::from_snapshots, (ss,), reg),
        call_ensures(ModelRegistry::get, (&reg, id), found),
        forall|i: int|
            0 <= i < ss@.len() && (#[trigger] ss@[i]).id@ == id@
                ==> ss@[i].probe.architectures is None,
    ensures
        found is None,
{
    assert(!readable(ss@, id@));
    match found {
        Some(e) => {
            let k = choose|k: int| 0 <= k < reg@.len() && (#[trigger] reg@[k]) == *e;
            assert(reg@[k].id@ == id@);
        },
        None => {},
    }
}

/// The id of a snapshot is the configured one, else the name of its directory, else
/// `unknown`.
pub proof fn law_snapshot_id_is_the_first_given(
    id: Option<String>,
    dir_name: Option<String>,
    r: String,
)
    requires
        call_ensures(resolve_snapshot_id, (&id, &dir_name), r),
    ensures
        id matches Some(i) ==> r@ == i@,
        id is None && dir_name is Some ==> r@ == dir_name->0@,
        id is None && dir_name is None ==> r@ == "unknown"@,
{
}

/// The snapshots of a registry file go by their configured ids, else by the names of
/// their directories; those of plain paths by the names of their directories. Each that
/// is readable is listed under its id.
pub proof fn law_configured_ids_are_listed(
    cfg: RegistryConfig,
    probes: Vec<PathProbe>,
    by_file: ModelRegistry,
    by_path: ModelRegistry,
    i: int,
    id: Seq<char>,
    name: Seq<char>,
)
    requires
        call_ensures(ModelRegistry::from_config, (&cfg, probes), by_file),
        call_ensures(ModelRegistry::from_paths, (probes,), by_path),
        0 <= i < probes@.len(),
        i < cfg.models@.len(),
        probes@[i].probe.architectures is Some,
        probes@[i].dir_name matches Some(n) ==> name == n@,
        probes@[i].dir_name is None ==> name == "unknown"@,
        cfg.models@[i].id matches Some(t) ==> id == t@,
        cfg.models@[i].id is None ==> id == name,
    ensures
        exists|k: int| 0 <= k < by_file@.len() && (#[trigger] by_file@[k]).id@ == id,
        exists|k: int| 0 <= k < by_path@.len() && (#[trigger] by_path@[k]).id@ == name,
{
    let ss = choose|ss: Seq<Snapshot>| #[trigger]
        configured(cfg.models@, probes@, ss) && registered(ss, by_file@);
    assert(ss[i].id@ == id);
    assert(readable(ss, id));
    assert(!lacks(by_file@, id));
    let ps = choose|ps: Seq<Snapshot>| #[trigger]
        configured(Seq::empty(), probes@, ps) && registered(ps, by_path@);
    assert(ps[i].id@ == name);
    assert(readable(ps, name));
    assert(!lacks(by_path@, name));
}

/// A snapshot that is added is found under its id, in place of one of that id; every
/// other id is found as before.
pub proof fn law_inserted_snapshot_is_found(reg: &mut ModelRegistry, e: ModelEntry, other: Seq<char>)
    requires
        ordered(old(reg)@),
        call_ensures(ModelRegistry::insert, (reg, e), ()),
    ensures
        exists|k: int| 0 <= k < final(reg)@.len() && (#[trigger] final(reg)@[k]) == e,
        other != e.id@ ==> lacks(final(reg)@, other) == lacks(old(reg)@, other),
{
    let k = choose|k: int| 0 <= k < final(reg)@.len() && (#[trigger] final(reg)@[k]) == e;
    if other != e.id@ {
        lemma_inserted_keeps(old(reg)@, e, final(reg)@, other);
        if !lacks(final(reg)@, other) {
            let i = choose|i: int| 0 <= i < final(reg)@.len() && (#[trigger] final(reg)@[i]).id@
                == other;
            assert(holds(final(reg)@, other, final(reg)@[i]));
            assert(holds(old(reg)@, other, final(reg)@[i]));
        }
        if !lacks(old(reg)@, other) {
            let i = choose|i: int| 0 <= i < old(reg)@.len() && (#[trigger] old(reg)@[i]).id@
                == other;
            assert(holds(old(reg)@, other, old(reg)@[i]));
            assert(holds(final(reg)@, other, old(reg)@[i]));
        }
    }
}

/// The tool with which a template is tried out is a function named `probe`, without
/// parameters.
pub proof fn law_probe_is_a_function(r: Json)
    requires
        call_ensures(probe_tool, (), r),
    ensures
        crate::json::get(r@, "type"@) == Some(JsonV::Str("function"@)),
        crate::json::get_str2(r@, "function"@, "name"@) == Some("probe"@),
        crate::json::get_str2(r@, "function"@, "description"@) == Some("probe"@),
        crate::json::get(r@, "function"@) matches Some(f) && crate::json::get_str2(
            f,
            "parameters"@,
            "type"@,
        ) == Some("object"@),
{
    broadcast use crate::json::law_member_reads_back;

    reveal_strlit("type");
    reveal_strlit("function");
    reveal_strlit("name");
    reveal_strlit("description");
    reveal_strlit("parameters");
    reveal_strlit("properties");
    assert("type"@.len() == 4);
    assert("function"@.len() == 8);
    assert("name"@.len() == 4);
    assert("description"@.len() == 11);
    assert("parameters"@.len() == 10);
    assert("properties"@.len() == 10);
    assert("type"@[0] != "name"@[0]);
    assert("parameters"@[1] != "properties"@[1]);
    let f = crate::json::get(r@, "function"@)->0;
    assert(crate::json::get(r@, "function"@) is Some);
    assert(crate::json::get(f, "name"@) is Some);
    let p = crate::json::get(f, "parameters"@)->0;
    assert(crate::json::get(f, "parameters"@) is Some);
    assert(crate::json::get(p, "type"@) is Some);
}

} // verus!
