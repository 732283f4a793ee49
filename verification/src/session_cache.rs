//! Registry of active conversation sessions.
//!
//! A turn of a conversation re-sends the whole history, so the prompt cache can
//! serve its prefix as long as the previous turn's slot has not been evicted.
//! The registry counts the live sessions so that every one of them gets a slot,
//! and forgets the least recently used one when it is full.

use vstd::prelude::*;

use crate::text::{text_eq, views};

verus! {

/// A session, identified by its model and by the client's session id.
#[derive(Debug, Clone, PartialEq, Eq, Hash)]
pub struct SessionKey {
    pub model_id: String,
    pub session_id: String,
}

/// The identity of a session.
pub struct KeyV {
    pub model_id: Seq<char>,
    pub session_id: Seq<char>,
}

impl View for SessionKey {
    type V = KeyV;

    open spec fn view(&self) -> KeyV {
        KeyV { model_id: self.model_id@, session_id: self.session_id@ }
    }
}

/// The record of one live session.
#[derive(Debug)]
struct SessionEntry {
    key: SessionKey,
    last_prompt_len: usize,
}

impl View for SessionEntry {
    type V = SessionV;

    closed spec fn view(&self) -> SessionV {
        SessionV { key: self.key@, prompt_len: self.last_prompt_len as nat }
    }
}

/// A live session with the prompt length of its last request.
pub struct SessionV {
    pub key: KeyV,
    pub prompt_len: nat,
}

/// The state of a registry: the sessions in the order of their last use, the
/// least recently used one first.
pub struct CacheV {
    pub sessions: Seq<SessionV>,
    pub max: nat,
}

/// A session is tracked at most once.
pub open spec fn distinct(s: Seq<SessionV>) -> bool {
    forall|i: int, j: int| 0 <= i < j < s.len() ==> (#[trigger] s[i]).key != (#[trigger] s[j]).key
}

/// `key` is tracked in `s`.
pub open spec fn tracked_in(s: Seq<SessionV>, key: KeyV) -> bool {
    exists|i: int| 0 <= i < s.len() && (#[trigger] s[i]).key == key
}

/// `s` without the session `key`.
pub open spec fn without(s: Seq<SessionV>, key: KeyV) -> Seq<SessionV> {
    s.filter(|e: SessionV| e.key != key)
}

impl CacheV {
    /// At least one session fits, no more than fit are tracked, none twice.
    pub open spec fn valid(self) -> bool {
        &&& self.max >= 1
        &&& self.sessions.len() <= self.max
        &&& distinct(self.sessions)
    }

    pub open spec fn holds(self, key: KeyV) -> bool {
        tracked_in(self.sessions, key)
    }

    /// The sessions that stay when `key` is used: all others, less the least
    /// recently used one when `key` is new and the registry is full.
    pub open spec fn kept(self, key: KeyV) -> Seq<SessionV> {
        if self.holds(key) {
            without(self.sessions, key)
        } else if self.sessions.len() >= self.max {
            self.sessions.subrange(1, self.sessions.len() as int)
        } else {
            self.sessions
        }
    }

    /// The state after a request of session `key`.
    pub open spec fn touched(self, key: KeyV, prompt_len: nat) -> CacheV {
        CacheV { sessions: self.kept(key).push(SessionV { key, prompt_len }), max: self.max }
    }

    /// The state without session `key`.
    pub open spec fn removed(self, key: KeyV) -> CacheV {
        CacheV { sessions: without(self.sessions, key), max: self.max }
    }

    /// The state without the sessions of a model.
    pub open spec fn removed_model(self, model_id: Seq<char>) -> CacheV {
        CacheV {
            sessions: self.sessions.filter(|e: SessionV| e.key.model_id != model_id),
            max: self.max,
        }
    }
}

/// Registry of active sessions, bounded in size.
#[derive(Debug)]
pub struct SessionCache {
    entries: Vec<SessionEntry>,
    max_sessions: usize,
}

impl View for SessionCache {
    type V = CacheV;

    closed spec fn view(&self) -> CacheV {
        CacheV { sessions: views(self.entries@), max: self.max_sessions as nat }
    }
}

fn same_key(a: &SessionKey, b: &SessionKey) -> (r: bool)
    ensures
        r == (a@ == b@),
{
    text_eq(a.model_id.as_str(), b.model_id.as_str()) && text_eq(
        a.session_id.as_str(),
        b.session_id.as_str(),
    )
}

proof fn lemma_without_one(s: Seq<SessionV>, i: int)
    requires
        distinct(s),
        0 <= i < s.len(),
    ensures
        without(s, s[i].key) == s.remove(i),
    decreases s.len(),
{
    let key = s[i].key;
    let keep = |e: SessionV| e.key != key;
    reveal(Seq::filter);
    let init = s.drop_last();
    assert(distinct(init)) by {
        assert forall|a: int, b: int| 0 <= a < b < init.len() implies (#[trigger] init[a]).key != (
        #[trigger] init[b]).key by {
            assert(init[a] == s[a] && init[b] == s[b]);
        }
    }
    if i == s.len() - 1 {
        lemma_without_none(init, key);
        assert(s.remove(i) =~= init);
    } else {
        lemma_without_one(init, i);
        assert(init[i] == s[i]);
        assert(keep(s.last()));
        assert(s.remove(i) =~= init.remove(i).push(s.last()));
    }
}

proof fn lemma_without_none(s: Seq<SessionV>, key: KeyV)
    requires
        !tracked_in(s, key),
    ensures
        without(s, key) == s,
    decreases s.len(),
{
    reveal(Seq::filter);
    if s.len() > 0 {
        let init = s.drop_last();
        if tracked_in(init, key) {
            let i = choose|i: int| 0 <= i < init.len() && (#[trigger] init[i]).key == key;
            assert(s[i].key == key);
        }
        lemma_without_none(init, key);
        assert(s[s.len() - 1].key != key);
        assert(init.push(s.last()) =~= s);
    }
}

proof fn lemma_views_remove(s: Seq<SessionEntry>, i: int)
    requires
        0 <= i < s.len(),
    ensures
        views(s.remove(i)) == views(s).remove(i),
{
    assert(views(s.remove(i)) =~= views(s).remove(i));
}

proof fn lemma_touched_valid(c: CacheV, key: KeyV, prompt_len: nat)
    requires
        c.valid(),
    ensures
        c.touched(key, prompt_len).valid(),
{
    let s = c.sessions;
    let kept = c.kept(key);
    if c.holds(key) {
        let i = choose|i: int| 0 <= i < s.len() && (#[trigger] s[i]).key == key;
        lemma_without_one(s, i);
        assert forall|k: int| 0 <= k < kept.len() implies (#[trigger] kept[k]).key != key by {
            assert(kept[k] == s[if k < i {
                k
            } else {
                k + 1
            }]);
        }
    } else {
        assert forall|k: int| 0 <= k < kept.len() implies (#[trigger] kept[k]).key != key by {
            if s.len() >= c.max {
                assert(kept[k] == s[k + 1]);
            }
        }
    }
}

impl SessionCache {
    /// An empty registry for at most `max_sessions` sessions, but for at least
    /// one.
    pub fn new(max_sessions: usize) -> (r: Self)
        ensures
            r@.sessions == Seq::<SessionV>::empty(),
            r@.max == if max_sessions == 0 {
                1
            } else {
                max_sessions as nat
            },
            r@.valid(),
    {
        let r = SessionCache {
            entries: Vec::new(),
            max_sessions: if max_sessions == 0 {
                1
            } else {
                max_sessions
            },
        };
        proof {
            assert(views(r.entries@) =~= Seq::<SessionV>::empty());
        }
        r
    }

    /// Number of tracked sessions.
    pub fn active_count(&self) -> (r: usize)
        ensures
            r == self@.sessions.len(),
    {
        self.entries.len()
    }

    fn position(&self, key: &SessionKey) -> (r: Option<usize>)
        ensures
            match r {
                Some(i) => i < self@.sessions.len() && self@.sessions[i as int].key == key@,
                None => !self@.holds(key@),
            },
    {
        let mut i: usize = 0;
        while i < self.entries.len()
            invariant
                i <= self.entries@.len(),
                forall|k: int| 0 <= k < i ==> (#[trigger] self@.sessions[k]).key != key@,
            decreases self.entries@.len() - i,
        {
            if same_key(&self.entries[i].key, key) {
                return Some(i);
            }
            i += 1;
        }
        None
    }

    /// Records a request of session `key`; whether the session was tracked
    /// already. A new session displaces the least recently used one when the
    /// registry is full.
    pub fn touch(&mut self, key: SessionKey, prompt_len: usize) -> (is_hit: bool)
        requires
            old(self)@.valid(),
        ensures
            is_hit == old(self)@.holds(key@),
            final(self)@ == old(self)@.touched(key@, prompt_len as nat),
            final(self)@.valid(),
    {
        let ghost before = self@;
        proof {
            lemma_touched_valid(before, key@, prompt_len as nat);
        }
        let found = self.position(&key);
        let is_hit = found.is_some();
        match found {
            Some(i) => {
                proof {
                    lemma_without_one(before.sessions, i as int);
                    lemma_views_remove(self.entries@, i as int);
                }
                let _ = self.entries.remove(i);
            },
            None => {
                if self.entries.len() >= self.max_sessions {
                    proof {
                        lemma_views_remove(self.entries@, 0);
                        assert(before.sessions.remove(0) =~= before.sessions.subrange(
                            1,
                            before.sessions.len() as int,
                        ));
                    }
                    let _ = self.entries.remove(0);
                }
            },
        }
        let ghost kept = self.entries@;
        self.entries.push(SessionEntry { key, last_prompt_len: prompt_len });
        proof {
            assert(views(self.entries@) =~= views(kept).push(
                SessionV { key: key@, prompt_len: prompt_len as nat },
            ));
        }
        is_hit
    }

    /// Forgets a session; does nothing when it is not tracked.
    pub fn remove(&mut self, key: &SessionKey)
        requires
            old(self)@.valid(),
        ensures
            final(self)@ == old(self)@.removed(key@),
            final(self)@.valid(),
    {
        let ghost before = self@;
        match self.position(key) {
            Some(i) => {
                proof {
                    lemma_without_one(before.sessions, i as int);
                    lemma_views_remove(self.entries@, i as int);
                }
                let _ = self.entries.remove(i);
            },
            None => {
                proof {
                    lemma_without_none(before.sessions, key@);
                }
            },
        }
    }

    /// Forgets the sessions of a model.
    pub fn remove_model(&mut self, model_id: &str)
        requires
            old(self)@.valid(),
        ensures
            final(self)@ == old(self)@.removed_model(model_id@),
            final(self)@.valid(),
    {
        let ghost before = self@.sessions;
        let ghost keep = |e: SessionV| e.key.model_id != model_id@;
        let ghost max = self@.max;
        let mut kept: Vec<SessionEntry> = Vec::new();
        let mut rest: Vec<SessionEntry> = Vec::new();
        std::mem::swap(&mut rest, &mut self.entries);
        let ghost all = rest@;
        proof {
            assert(before == views(all));
            assert(views(kept@) =~= before.subrange(0, 0).filter(keep)) by {
                reveal(Seq::filter);
            }
            assert(all.subrange(0, all.len() as int) =~= all);
        }
        let n: usize = rest.len();
        let mut i: usize = 0;
        while i < n
            invariant
                i <= n,
                n == all.len(),
                before == views(all),
                rest@ == all.subrange(i as int, n as int),
                keep == (|e: SessionV| e.key.model_id != model_id@),
                views(kept@) == before.subrange(0, i as int).filter(keep),
            decreases n - i,
        {
            let e = rest.remove(0);
            let ghost was = kept@;
            proof {
                assert(rest@ =~= all.subrange(i + 1, n as int));
                let next = before.subrange(0, i + 1);
                assert(next.drop_last() =~= before.subrange(0, i as int));
                assert(next.last() == e@);
                reveal(Seq::filter);
            }
            if !text_eq(e.key.model_id.as_str(), model_id) {
                kept.push(e);
                proof {
                    assert(views(kept@) =~= views(was).push(e@));
                }
            }
            i += 1;
        }
        self.entries = kept;
        proof {
            assert(before.subrange(0, n as int) =~= before);
            lemma_filter_distinct(before, keep);
        }
    }
}

proof fn lemma_filter_distinct(s: Seq<SessionV>, keep: spec_fn(SessionV) -> bool)
    requires
        distinct(s),
    ensures
        distinct(s.filter(keep)),
        s.filter(keep).len() <= s.len(),
        forall|k: KeyV| #[trigger] tracked_in(s.filter(keep), k) ==> tracked_in(s, k),
    decreases s.len(),
{
    reveal(Seq::filter);
    if s.len() > 0 {
        let init = s.drop_last();
        assert forall|a: int, b: int| 0 <= a < b < init.len() implies (#[trigger] init[a]).key != (
        #[trigger] init[b]).key by {
            assert(init[a] == s[a] && init[b] == s[b]);
        }
        lemma_filter_distinct(init, keep);
        let f = init.filter(keep);
        let last = s.last();
        assert(!tracked_in(init, last.key)) by {
            if tracked_in(init, last.key) {
                let i = choose|i: int| 0 <= i < init.len() && (#[trigger] init[i]).key == last.key;
                assert(s[i].key == s[s.len() - 1].key);
            }
        }
        assert(!tracked_in(f, last.key));
        assert forall|k: KeyV| #[trigger] tracked_in(s.filter(keep), k) implies tracked_in(s, k) by {
            let g = s.filter(keep);
            let i = choose|i: int| 0 <= i < g.len() && (#[trigger] g[i]).key == k;
            if i < f.len() {
                assert(f[i].key == k);
                assert(tracked_in(f, k));
                let j = choose|j: int| 0 <= j < init.len() && (#[trigger] init[j]).key == k;
                assert(s[j].key == k);
            } else {
                assert(s[s.len() - 1].key == k);
            }
        }
        assert forall|a: int, b: int|
            0 <= a < b < s.filter(keep).len() implies (#[trigger] s.filter(keep)[a]).key != (
        #[trigger] s.filter(keep)[b]).key by {
            let g = s.filter(keep);
            assert(g[a] == f[a]);
            if b == f.len() {
                assert(f[a].key != last.key);
            } else {
                assert(g[b] == f[b]);
            }
        }
    }
}

/// The number of prompt-cache slots for a request that belongs to a session: the
/// configured base and one slot per active session. A base of zero is a disabled
/// cache and stays disabled (`None`).
pub fn effective_prompt_cache_slots(base: usize, active_sessions: usize) -> (r: Option<usize>)
    requires
        base + active_sessions <= usize::MAX,
    ensures
        r == if base == 0 {
            None
        } else {
            Some((base + active_sessions) as usize)
        },
{
    if base == 0 {
        None
    } else {
        Some(base + active_sessions)
    }
}

// ── Laws ─────────────────────────────────────────────────────────────────────

/// A session that has just made a request is tracked, as the most recent one,
/// and is found on its next request.
pub proof fn law_touched_session_is_held(c: CacheV, key: KeyV, prompt_len: nat)
    requires
        c.valid(),
    ensures
        c.touched(key, prompt_len).holds(key),
        c.touched(key, prompt_len).sessions.last() == (SessionV { key, prompt_len }),
        c.touched(key, prompt_len).valid(),
{
    lemma_touched_valid(c, key, prompt_len);
    let s = c.touched(key, prompt_len).sessions;
    assert(s[s.len() - 1].key == key);
}

/// Only a new session in a full registry displaces another one, and the one it
/// displaces is the least recently used.
pub proof fn law_only_the_oldest_is_displaced(c: CacheV, key: KeyV, prompt_len: nat, other: KeyV)
    requires
        c.valid(),
        c.holds(other),
        !c.touched(key, prompt_len).holds(other),
    ensures
        !c.holds(key),
        c.sessions.len() == c.max,
        other == c.sessions[0].key,
{
    let s = c.sessions;
    let t = c.touched(key, prompt_len).sessions;
    let kept = c.kept(key);
    let i = choose|i: int| 0 <= i < s.len() && (#[trigger] s[i]).key == other;
    assert(t[t.len() - 1].key == key);
    if c.holds(key) {
        let k = choose|k: int| 0 <= k < s.len() && (#[trigger] s[k]).key == key;
        lemma_without_one(s, k);
        assert(i != k);
        let at = if i < k {
            i
        } else {
            i - 1
        };
        assert(t[at].key == other);
    } else if s.len() < c.max {
        assert(t[i].key == other);
    } else if i > 0 {
        assert(t[i - 1].key == other);
    }
}

/// A request of one session changes neither the identity nor the data of
/// another session that stays.
pub proof fn law_sessions_are_independent(c: CacheV, key: KeyV, prompt_len: nat, i: int)
    requires
        c.valid(),
        0 <= i < c.sessions.len(),
        c.sessions[i].key != key,
        c.touched(key, prompt_len).holds(c.sessions[i].key),
    ensures
        exists|j: int|
            0 <= j < c.touched(key, prompt_len).sessions.len() && c.touched(
                key,
                prompt_len,
            ).sessions[j] == c.sessions[i],
{
    let s = c.sessions;
    let t = c.touched(key, prompt_len).sessions;
    let kept = c.kept(key);
    if c.holds(key) {
        let k = choose|k: int| 0 <= k < s.len() && (#[trigger] s[k]).key == key;
        lemma_without_one(s, k);
        let at = if i < k {
            i
        } else {
            i - 1
        };
        assert(t[at] == s[i]);
    } else if s.len() < c.max {
        assert(t[i] == s[i]);
    } else if i > 0 {
        assert(t[i - 1] == s[i]);
    } else {
        let m = choose|m: int| 0 <= m < t.len() && (#[trigger] t[m]).key == s[0].key;
        if m < t.len() - 1 {
            assert(t[m] == s[m + 1]);
        }
    }
}

/// After a model's sessions have been removed, none of them is tracked, and
/// every session of another model still is.
pub proof fn law_remove_model_is_exact(c: CacheV, model_id: Seq<char>, key: KeyV)
    requires
        c.valid(),
    ensures
        c.removed_model(model_id).holds(key) == (c.holds(key) && key.model_id != model_id),
{
    let keep = |e: SessionV| e.key.model_id != model_id;
    lemma_filter_holds(c.sessions, keep, key);
}

proof fn lemma_filter_holds(s: Seq<SessionV>, keep: spec_fn(SessionV) -> bool, key: KeyV)
    requires
        forall|a: SessionV, b: SessionV| a.key == b.key ==> #[trigger] keep(a) == #[trigger] keep(b),
    ensures
        tracked_in(s.filter(keep), key) == (tracked_in(s, key) && keep(
            SessionV { key, prompt_len: 0 },
        )),
    decreases s.len(),
{
    reveal(Seq::filter);
    if s.len() > 0 {
        let init = s.drop_last();
        let last = s.last();
        let g = s.filter(keep);
        let f = init.filter(keep);
        let probe = SessionV { key, prompt_len: 0 };
        lemma_filter_holds(init, keep, key);
        if tracked_in(init, key) {
            let i = choose|i: int| 0 <= i < init.len() && (#[trigger] init[i]).key == key;
            assert(s[i].key == key);
        }
        if tracked_in(f, key) {
            let i = choose|i: int| 0 <= i < f.len() && (#[trigger] f[i]).key == key;
            assert(g[i].key == key);
        }
        if last.key == key {
            assert(s[s.len() - 1].key == key);
            assert(keep(last) == keep(probe));
            if keep(last) {
                assert(g[g.len() - 1].key == key);
            }
        }
        if tracked_in(s, key) && last.key != key {
            let i = choose|i: int| 0 <= i < s.len() && (#[trigger] s[i]).key == key;
            assert(init[i].key == key);
        }
        if tracked_in(g, key) {
            let i = choose|i: int| 0 <= i < g.len() && (#[trigger] g[i]).key == key;
            if i < f.len() {
                assert(f[i].key == key);
            }
        }
    }
}

/// Whatever the number of active sessions, a disabled prompt cache stays
/// disabled, and an enabled one never gets fewer slots than configured.
pub proof fn law_slots_never_below_base(base: usize, active: usize)
    requires
        base + active <= usize::MAX,
    ensures
        forall|r: Option<usize>|
            #![trigger call_ensures(effective_prompt_cache_slots, (base, active), r)]
            call_ensures(effective_prompt_cache_slots, (base, active), r) ==> match r {
                None => base == 0,
                Some(n) => base > 0 && n >= base && n - base == active,
            },
{
}

/// A request of a session that is tracked is a hit and leaves the number of sessions as
/// it is; a new session adds one, unless the registry is full. The latest request is the
/// last to be forgotten, and its prompt length is kept.
pub proof fn law_touch_tracks_the_request(
    cache: &mut SessionCache,
    key: SessionKey,
    prompt_len: usize,
    hit: bool,
)
    requires
        old(cache)@.valid(),
        call_ensures(SessionCache::touch, (cache, key, prompt_len), hit),
    ensures
        hit <==> exists|i: int|
            0 <= i < old(cache)@.sessions.len() && (#[trigger] old(cache)@.sessions[i]).key
                == key@,
        ({
            let before = old(cache)@.sessions;
            let after = final(cache)@.sessions;
            &&& after.len() == if hit || before.len() >= old(cache)@.max {
                before.len()
            } else {
                before.len() + 1
            }
            &&& after.last().key.model_id == key.model_id@
            &&& after.last().key.session_id == key.session_id@
            &&& after.last().prompt_len == prompt_len
            &&& final(cache)@.max == old(cache)@.max
            &&& !hit && before.len() < old(cache)@.max ==> after.drop_last() == before
        }),
{
    let c = old(cache)@;
    if c.holds(key@) {
        let k = choose|k: int| 0 <= k < c.sessions.len() && (#[trigger] c.sessions[k]).key == key@;
        lemma_without_one(c.sessions, k);
    }
    if !hit && c.sessions.len() < c.max {
        assert(final(cache)@.sessions.drop_last() =~= c.sessions);
    }
}

/// Forgetting a session forgets that session and no other.
pub proof fn law_remove_forgets_one_session(cache: &mut SessionCache, key: SessionKey, other: KeyV)
    requires
        old(cache)@.valid(),
        call_ensures(SessionCache::remove, (cache, &key), ()),
    ensures
        tracked_in(final(cache)@.sessions, other) == (tracked_in(old(cache)@.sessions, other)
            && !(other.model_id == key.model_id@ && other.session_id == key.session_id@)),
{
    let keep = |e: SessionV| e.key != key@;
    lemma_filter_holds(old(cache)@.sessions, keep, other);
}

/// A fresh registry tracks nothing and has room for at least one session.
pub proof fn law_registry_begins_empty(max_sessions: usize, c: SessionCache, n: usize)
    requires
        call_ensures(SessionCache::new, (max_sessions,), c),
        call_ensures(SessionCache::active_count, (&c,), n),
    ensures
        n == 0,
        c@.sessions.len() == 0,
        max_sessions > 0 ==> c@.max == max_sessions,
        max_sessions == 0 ==> c@.max == 1,
{
}

/// Forgetting a model's sessions forgets all of them and no others.
pub proof fn law_model_sessions_are_forgotten(cache: &mut SessionCache, model_id: &str, key: KeyV)
    requires
        old(cache)@.valid(),
        call_ensures(SessionCache::remove_model, (cache, model_id), ()),
    ensures
        tracked_in(final(cache)@.sessions, key) == (tracked_in(old(cache)@.sessions, key)
            && key.model_id != model_id@),
{
    law_remove_model_is_exact(old(cache)@, model_id@, key);
}

} // verus!
