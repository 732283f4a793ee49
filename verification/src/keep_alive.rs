//! Keep-alive policy of loaded models.
//!
//! A model is unloaded after a period without requests. The period is resolved
//! from the request, the environment, a command-line flag and a default, in this
//! order. While a generation runs it holds a [`DecodeLeaseGuard`], so that the
//! unload timer never tears down a model that is in use.

use std::sync::atomic::{AtomicUsize, Ordering};
use std::sync::Arc;
use std::time::Duration;

use vstd::prelude::*;

use crate::text::{
    chars_of, decimal, join2, join3, join5, law_decimal_round_trip, lemma_decimal_ends,
    lemma_trim_plain, opt_view, string_of, text_trim, trim, unsigned_value,
};

verus! {

// ── Durations ────────────────────────────────────────────────────────────────

/// The length of a `Duration`, in nanoseconds.
pub uninterp spec fn duration_nanos(d: Duration) -> nat;

/// `Duration::from_secs` makes a duration of whole seconds.
pub assume_specification[ Duration::from_secs ](secs: u64) -> (r: Duration)
    ensures
        duration_nanos(r) == secs as nat * 1_000_000_000,
;

/// `Duration::from_millis` makes a duration of whole milliseconds.
pub assume_specification[ Duration::from_millis ](millis: u64) -> (r: Duration)
    ensures
        duration_nanos(r) == millis as nat * 1_000_000,
;

/// `Duration::as_secs` gives the whole seconds of a duration.
pub assume_specification[ Duration::as_secs ](d: &Duration) -> (r: u64)
    ensures
        r == duration_nanos(*d) / 1_000_000_000,
;

// ── Policy ───────────────────────────────────────────────────────────────────

/// When a model is to be unloaded.
#[derive(Debug, Clone, Copy, PartialEq, Eq)]
pub enum KeepAlivePolicy {
    /// Never.
    Pin,
    /// As soon as the current response is finished.
    UnloadAfter,
    /// After this long without a request.
    Idle(Duration),
}

/// The value of a policy; an idle time in nanoseconds.
pub enum PolicyV {
    Pin,
    UnloadAfter,
    Idle(nat),
}

impl View for KeepAlivePolicy {
    type V = PolicyV;

    open spec fn view(&self) -> PolicyV {
        match self {
            KeepAlivePolicy::Pin => PolicyV::Pin,
            KeepAlivePolicy::UnloadAfter => PolicyV::UnloadAfter,
            KeepAlivePolicy::Idle(d) => PolicyV::Idle(duration_nanos(*d)),
        }
    }
}

/// The policy of an idle time in whole seconds.
pub open spec fn idle_secs(secs: nat) -> PolicyV {
    PolicyV::Idle(secs * 1_000_000_000)
}

impl KeepAlivePolicy {
    /// The idle time when nothing is configured: 15 minutes.
    pub const DEFAULT_TTL_SECS: u64 = 15 * 60;

    /// How long to wait before unloading; nothing for a pinned model, one
    /// millisecond where the model goes right after the response.
    pub fn ttl(self) -> (r: Option<Duration>)
        ensures
            match self {
                KeepAlivePolicy::Pin => r is None,
                KeepAlivePolicy::UnloadAfter => r matches Some(d) && duration_nanos(d) == 1_000_000,
                KeepAlivePolicy::Idle(d) => r == Some(d),
            },
    {
        match self {
            KeepAlivePolicy::Pin => None,
            KeepAlivePolicy::UnloadAfter => Some(Duration::from_millis(1)),
            KeepAlivePolicy::Idle(d) => Some(d),
        }
    }

    /// Whole seconds of idle time for a log record; zero for the other policies.
    pub fn ttl_secs_for_log(self) -> (r: u64)
        ensures
            r == match self@ {
                PolicyV::Idle(n) => n / 1_000_000_000,
                _ => 0,
            },
    {
        match self {
            KeepAlivePolicy::Pin | KeepAlivePolicy::UnloadAfter => 0,
            KeepAlivePolicy::Idle(d) => d.as_secs(),
        }
    }

    /// The first policy that is given, in the order request, environment, flag;
    /// else the default idle time.
    pub fn resolve(
        per_request: Option<KeepAlivePolicy>,
        env: Option<KeepAlivePolicy>,
        flag: Option<KeepAlivePolicy>,
    ) -> (r: KeepAlivePolicy)
        ensures
            match (per_request, env, flag) {
                (Some(p), _, _) => r == p,
                (None, Some(p), _) => r == p,
                (None, None, Some(p)) => r == p,
                (None, None, None) => r@ == idle_secs(KeepAlivePolicy::DEFAULT_TTL_SECS as nat),
            },
    {
        match per_request {
            Some(p) => p,
            None => match env {
                Some(p) => p,
                None => match flag {
                    Some(p) => p,
                    None => KeepAlivePolicy::Idle(
                        Duration::from_secs(KeepAlivePolicy::DEFAULT_TTL_SECS),
                    ),
                },
            },
        }
    }
}

// ── Duration texts ───────────────────────────────────────────────────────────

/// The message of the error with which `u64::from_str` rejects a text.
pub uninterp spec fn parse_error_text(text: Seq<char>) -> Seq<char>;

/// Calls `str::parse::<u64>`: an optional `+` and decimal digits, nothing else,
/// of a value that fits. The error's message is determined by the text.
#[verifier::external_body]
fn std_parse_u64(text: &str) -> (r: Result<u64, String>)
    ensures
        match r {
            Ok(v) => unsigned_value(text@) == Some(v as nat),
            Err(m) => !(unsigned_value(text@) matches Some(v) && v <= u64::MAX) && m@
                == parse_error_text(text@),
        },
{
    text.parse::<u64>().map_err(|e| e.to_string())
}

pub open spec fn is_ascii_letter(c: char) -> bool {
    'a' <= c <= 'z' || 'A' <= c <= 'Z'
}

/// The text behind an optional sign.
pub open spec fn unsigned_part(t: Seq<char>) -> Seq<char> {
    if t.len() > 0 && (t[0] == '-' || t[0] == '+') {
        t.subrange(1, t.len() as int)
    } else {
        t
    }
}

/// The unit of a duration text: its last character, when that is a letter.
pub open spec fn unit_of(body: Seq<char>) -> Option<char> {
    if body.len() > 0 && is_ascii_letter(body[body.len() - 1]) {
        Some(body[body.len() - 1])
    } else {
        None
    }
}

/// The part of a duration text in front of its unit.
pub open spec fn number_part(body: Seq<char>) -> Seq<char> {
    if unit_of(body) is Some {
        body.subrange(0, body.len() - 1)
    } else {
        body
    }
}

/// The seconds that a unit stands for.
pub open spec fn unit_secs(unit: Option<char>) -> Option<nat> {
    match unit {
        None => Some(1),
        Some('s') => Some(1),
        Some('m') => Some(60),
        Some('h') => Some(3600),
        Some(_) => None,
    }
}

/// `n` or the greatest 64-bit number, whichever is less.
pub open spec fn saturated(n: nat) -> nat {
    if n <= u64::MAX {
        n
    } else {
        u64::MAX as nat
    }
}

/// What a duration text says: a policy, or the message of its rejection.
pub open spec fn duration_spec(spec_text: Seq<char>) -> Result<PolicyV, Seq<char>> {
    let t = trim(spec_text);
    let body = unsigned_part(t);
    let num = number_part(body);
    let head = "duration spec '"@ + spec_text;
    if t.len() == 0 {
        Err("empty duration spec"@)
    } else if body.len() == 0 {
        Err(head + "' missing numeric body"@)
    } else if num.len() == 0 {
        Err(head + "' missing numeric value"@)
    } else {
        match unsigned_value(num) {
            Some(n) if n <= u64::MAX => match unit_secs(unit_of(body)) {
                None => Err(
                    head + "' has unknown unit '"@ + seq![unit_of(body)->0]
                        + "' (expected s | m | h)"@,
                ),
                Some(unit) => Ok(
                    if t[0] == '-' {
                        PolicyV::Pin
                    } else if n == 0 {
                        PolicyV::UnloadAfter
                    } else {
                        idle_secs(saturated(n * unit))
                    },
                ),
            },
            _ => Err(head + "' has invalid number '"@ + num + "': "@ + parse_error_text(num)),
        }
    }
}

fn saturating_secs(n: u64, unit: u64) -> (r: u64)
    ensures
        r == saturated(n as nat * unit as nat),
{
    match n.checked_mul(unit) {
        Some(v) => v,
        None => u64::MAX,
    }
}

/// Reads a duration such as `30`, `30s`, `15m` or `2h`. A bare number is seconds;
/// a negative number pins the model; zero unloads it after the response.
///
/// Rejected are an empty text, a missing or invalid number, and a unit other
/// than `s`, `m` and `h`.
pub fn parse_duration_spec(spec: &str) -> (r: Result<KeepAlivePolicy, String>)
    ensures
        match r {
            Ok(p) => duration_spec(spec@) == Ok::<PolicyV, Seq<char>>(p@),
            Err(m) => duration_spec(spec@) == Err::<PolicyV, Seq<char>>(m@),
        },
{
    let t = chars_of(text_trim(spec).as_str());
    let len: usize = t.len();
    if len == 0 {
        return Err("empty duration spec".to_owned());
    }
    let negative = t[0] == '-';
    let from: usize = if t[0] == '-' || t[0] == '+' {
        1
    } else {
        0
    };
    let ghost body = unsigned_part(t@);
    proof {
        assert(t@.subrange(from as int, len as int) =~= body);
    }
    if from == len {
        return Err(join3("duration spec '", spec, "' missing numeric body"));
    }
    let last = t[len - 1];
    let has_unit = ('a' <= last && last <= 'z') || ('A' <= last && last <= 'Z');
    let to: usize = if has_unit {
        len - 1
    } else {
        len
    };
    proof {
        assert(body[body.len() - 1] == last);
        assert(t@.subrange(from as int, to as int) =~= number_part(body));
    }
    if from == to {
        return Err(join3("duration spec '", spec, "' missing numeric value"));
    }
    let num = string_of(&t, from, to);
    match std_parse_u64(num.as_str()) {
        Err(e) => {
            let head = join5("duration spec '", spec, "' has invalid number '", num.as_str(), "': ");
            Err(join2(head.as_str(), e.as_str()))
        },
        Ok(n) => {
            let unit: u64 = if !has_unit || last == 's' {
                1
            } else if last == 'm' {
                60
            } else if last == 'h' {
                3600
            } else {
                let unit = string_of(&t, to, len);
                proof {
                    assert(unit@ =~= seq![last]);
                }
                return Err(
                    join5(
                        "duration spec '",
                        spec,
                        "' has unknown unit '",
                        unit.as_str(),
                        "' (expected s | m | h)",
                    ),
                );
            };
            if negative {
                Ok(KeepAlivePolicy::Pin)
            } else if n == 0 {
                Ok(KeepAlivePolicy::UnloadAfter)
            } else {
                Ok(KeepAlivePolicy::Idle(Duration::from_secs(saturating_secs(n, unit))))
            }
        },
    }
}

/// The policy of an optional environment setting: absent, or read as a duration.
pub fn policy_from_env(value: Option<String>) -> (r: Result<Option<KeepAlivePolicy>, String>)
    ensures
        match (value, r) {
            (None, Ok(p)) => p is None,
            (None, Err(_)) => false,
            (Some(s), Ok(Some(p))) => duration_spec(s@) == Ok::<PolicyV, Seq<char>>(p@),
            (Some(_), Ok(None)) => false,
            (Some(s), Err(m)) => duration_spec(s@) == Err::<PolicyV, Seq<char>>(m@),
        },
{
    match value {
        None => Ok(None),
        Some(s) => match parse_duration_spec(s.as_str()) {
            Ok(p) => Ok(Some(p)),
            Err(m) => Err(m),
        },
    }
}

/// The policy of a request's `keep_alive` field: a negative number pins, zero
/// unloads after the response, a positive number is an idle time in seconds.
pub open spec fn request_policy(field: Option<i64>) -> Option<PolicyV> {
    match field {
        None => None,
        Some(n) => Some(
            if n < 0 {
                PolicyV::Pin
            } else if n == 0 {
                PolicyV::UnloadAfter
            } else {
                idle_secs(n as nat)
            },
        ),
    }
}

/// The policy of a request's `keep_alive` field, if it has one.
pub fn policy_from_request_field(field: Option<i64>) -> (r: Option<KeepAlivePolicy>)
    ensures
        opt_view(r) == request_policy(field),
{
    match field {
        None => None,
        Some(n) => Some(
            if n < 0 {
                KeepAlivePolicy::Pin
            } else if n == 0 {
                KeepAlivePolicy::UnloadAfter
            } else {
                KeepAlivePolicy::Idle(Duration::from_secs(n as u64))
            },
        ),
    }
}

/// A number with a unit is read as that many units: zero unloads after the
/// response, any other number is an idle time, and a minus sign pins the model
/// whatever the number.
pub proof fn law_durations_read_back(n: nat, unit: Option<char>, secs: nat)
    requires
        n <= u64::MAX,
        unit_secs(unit) == Some(secs),
    ensures
        duration_spec(decimal(n) + unit_text(unit)) == Ok::<PolicyV, Seq<char>>(
            if n == 0 {
                PolicyV::UnloadAfter
            } else {
                idle_secs(saturated(n * secs))
            },
        ),
        duration_spec(seq!['-'] + decimal(n) + unit_text(unit)) == Ok::<PolicyV, Seq<char>>(
            PolicyV::Pin,
        ),
{
    let body = decimal(n) + unit_text(unit);
    law_decimal_round_trip(n);
    lemma_decimal_ends(n);
    assert(body[0] == decimal(n)[0]);
    match unit {
        None => {
            assert(body =~= decimal(n));
        },
        Some(c) => {
            assert(body.subrange(0, body.len() - 1) =~= decimal(n));
        },
    }
    assert(number_part(body) == decimal(n));
    lemma_trim_plain(body);
    let t = seq!['-'] + decimal(n) + unit_text(unit);
    assert(t.subrange(1, t.len() as int) =~= body);
    assert(t[t.len() - 1] == body[body.len() - 1]);
    lemma_trim_plain(t);
}

/// The text of an optional unit.
pub open spec fn unit_text(unit: Option<char>) -> Seq<char> {
    match unit {
        Some(c) => seq![c],
        None => seq![],
    }
}

// ── Decode lease ─────────────────────────────────────────────────────────────

/// Count of the generations that use a model.
pub type DecodeLease = Arc<AtomicUsize>;

/// Holds a model in use: counts up when acquired and down when dropped.
#[derive(Debug)]
pub struct DecodeLeaseGuard {
    lease: DecodeLease,
}

impl DecodeLeaseGuard {
    /// The counter that this guard holds.
    pub closed spec fn counter(&self) -> DecodeLease {
        self.lease
    }

    /// Counts one more use. The count is shared with other threads, so nothing
    /// is said of its value.
    pub fn acquire(lease: DecodeLease) -> (r: Self)
        ensures
            r.counter() == lease,
    {
        let _ = lease.fetch_add(1, Ordering::AcqRel);
        DecodeLeaseGuard { lease }
    }

    /// The count at this moment. It is shared with other threads, so nothing is
    /// said of its value.
    pub fn count(&self) -> (r: usize) {
        self.lease.load(Ordering::Acquire)
    }
}

/// Calls `AtomicUsize::fetch_sub` for one. The count is shared with other
/// threads, so nothing is said of its value; the call does not panic.
#[verifier::external_body]
fn count_down(lease: &AtomicUsize)
    opens_invariants none
    no_unwind
{
    let _ = lease.fetch_sub(1, Ordering::AcqRel);
}

impl Drop for DecodeLeaseGuard {
    fn drop(&mut self)
        opens_invariants none
        no_unwind
    {
        count_down(&self.lease);
    }
}

/// What happens to the leases of a model.
#[derive(Debug, Clone, Copy, PartialEq, Eq, Structural)]
pub enum LeaseEvent {
    Acquired,
    Dropped,
}

/// How many leases were acquired.
pub open spec fn acquired(events: Seq<LeaseEvent>) -> nat {
    events.filter(|e: LeaseEvent| e == LeaseEvent::Acquired).len()
}

/// How many leases were dropped.
pub open spec fn dropped(events: Seq<LeaseEvent>) -> nat {
    events.filter(|e: LeaseEvent| e == LeaseEvent::Dropped).len()
}

/// The count of leases when something has happened to them.
pub open spec fn after_lease_event(count: int, event: LeaseEvent) -> int {
    match event {
        LeaseEvent::Acquired => count + 1,
        LeaseEvent::Dropped => count - 1,
    }
}

/// The count of leases when all this has happened to them, from none on.
pub open spec fn lease_count(events: Seq<LeaseEvent>) -> int {
    events.fold_left(0int, |n: int, e: LeaseEvent| after_lease_event(n, e))
}

/// The leases of a model that are held. It is shared under a lock.
#[derive(Debug)]
pub struct LeaseCount {
    held: usize,
}

impl View for LeaseCount {
    type V = int;

    closed spec fn view(&self) -> int {
        self.held as int
    }
}

impl LeaseCount {
    /// No lease is held.
    pub fn new() -> (r: Self)
        ensures
            r@ == 0,
    {
        LeaseCount { held: 0 }
    }

    /// Counts one more lease.
    pub fn acquire(&mut self)
        requires
            old(self)@ < usize::MAX,
        ensures
            final(self)@ == after_lease_event(old(self)@, LeaseEvent::Acquired),
    {
        self.held = self.held + 1;
    }

    /// Counts one lease less.
    pub fn release(&mut self)
        requires
            old(self)@ > 0,
        ensures
            final(self)@ == after_lease_event(old(self)@, LeaseEvent::Dropped),
    {
        self.held = self.held - 1;
    }

    /// The leases that are held.
    pub fn count(&self) -> (r: usize)
        ensures
            r == self@,
    {
        self.held
    }
}

/// The count of leases is at every moment the number of those that were acquired
/// without those that were dropped, so that it is zero when all were dropped.
pub proof fn law_leases_balance(events: Seq<LeaseEvent>)
    ensures
        lease_count(events) == acquired(events) - dropped(events),
        lease_count(events) == 0 <==> acquired(events) == dropped(events),
    decreases events.len(),
{
    reveal(Seq::filter);
    if events.len() > 0 {
        law_leases_balance(events.drop_last());
    }
}

/// What the unload timer does when it fires.
#[derive(Debug, Clone, Copy, PartialEq, Eq, Structural)]
pub enum TimerAction {
    /// Unload the model.
    Unload,
    /// The model is in use: wait for one more idle time.
    Rearm,
}

/// A model is unloaded only while no generation uses it.
pub fn on_timer(lease_count: usize) -> (r: TimerAction)
    ensures
        (r == TimerAction::Unload) == (lease_count == 0),
{
    if lease_count > 0 {
        TimerAction::Rearm
    } else {
        TimerAction::Unload
    }
}

/// A response stream that holds the lease of the model it comes from.
pub struct GuardedStream<S, G = DecodeLeaseGuard> {
    inner: S,
    lease_guard: Option<G>,
}

impl<S, G> GuardedStream<S, G> {
    /// The wrapped stream.
    pub closed spec fn stream(&self) -> S {
        self.inner
    }

    /// The lease that is held until the stream is dropped.
    pub closed spec fn guard(&self) -> Option<G> {
        self.lease_guard
    }

    /// Wraps `inner` so that the guard is dropped with it.
    pub fn new(inner: S, guard: Option<G>) -> (r: Self)
        ensures
            r.stream() == inner,
            r.guard() == guard,
    {
        GuardedStream { inner, lease_guard: guard }
    }

    /// The wrapped stream, to read from it.
    pub fn inner_mut(&mut self) -> (r: &mut S)
        ensures
            *r == old(self).stream(),
            final(self).stream() == *final(r),
            final(self).guard() == old(self).guard(),
    {
        &mut self.inner
    }
}

// ── Laws ─────────────────────────────────────────────────────────────────────

/// A number of seconds, minutes or hours is read as an idle time of that length, as far
/// as it can be counted; zero of them unloads after the response, and a minus sign pins
/// the model. Without a unit the number counts seconds.
pub proof fn law_duration_texts_are_read(
    n: u64,
    text: &str,
    negative: bool,
    unit: Option<char>,
    r: Result<KeepAlivePolicy, String>,
)
    requires
        call_ensures(parse_duration_spec, (text,), r),
        unit is None || unit == Some('s') || unit == Some('m') || unit == Some('h'),
        text@ == (if negative {
            seq!['-']
        } else {
            Seq::empty()
        }) + decimal(n as nat) + (match unit {
            Some(c) => seq![c],
            None => Seq::empty(),
        }),
    ensures
        ({
            let secs: nat = n as nat * (match unit {
                Some('m') => 60nat,
                Some('h') => 3600nat,
                _ => 1nat,
            });
            &&& negative ==> (r matches Ok(p) && p is Pin)
            &&& !negative && n == 0 ==> (r matches Ok(p) && p is UnloadAfter)
            &&& !negative && n > 0 ==> (r matches Ok(KeepAlivePolicy::Idle(d)) && duration_nanos(d)
                == (if secs <= u64::MAX {
                secs
            } else {
                u64::MAX as nat
            }) * 1_000_000_000)
        }),
{
    let secs: nat = match unit {
        Some('m') => 60nat,
        Some('h') => 3600nat,
        _ => 1nat,
    };
    law_durations_read_back(n as nat, unit, secs);
    assert(Seq::<char>::empty() + decimal(n as nat) =~= decimal(n as nat));
    match unit {
        Some(c) => {
            assert(Seq::<char>::empty() + decimal(n as nat) + seq![c] =~= decimal(n as nat)
                + unit_text(unit));
        },
        None => {
            assert(Seq::<char>::empty() + decimal(n as nat) + Seq::<char>::empty() =~= decimal(
                n as nat,
            ) + unit_text(unit));
            assert(seq!['-'] + decimal(n as nat) + Seq::<char>::empty() =~= seq!['-'] + decimal(
                n as nat,
            ) + unit_text(unit));
        },
    }
}

/// A request's own number of seconds: less than zero pins, zero unloads after the
/// response, more is an idle time.
pub proof fn law_request_field_is_read(field: Option<i64>, r: Option<KeepAlivePolicy>)
    requires
        call_ensures(policy_from_request_field, (field,), r),
    ensures
        field is None ==> r is None,
        field matches Some(n) ==> {
            &&& n < 0 ==> (r matches Some(p) && p is Pin)
            &&& n == 0 ==> (r matches Some(p) && p is UnloadAfter)
            &&& n > 0 ==> (r matches Some(KeepAlivePolicy::Idle(d)) && duration_nanos(d) == n
                * 1_000_000_000)
        },
{
}

/// The policy is the request's, else the environment's, else the flag's, else fifteen
/// minutes of idle time. A pinned model never waits to be unloaded; one that goes after
/// its response waits a millisecond; an idle time is waited for.
pub proof fn law_policy_is_the_first_given(
    request: Option<KeepAlivePolicy>,
    env: Option<KeepAlivePolicy>,
    flag: Option<KeepAlivePolicy>,
    r: KeepAlivePolicy,
    ttl: Option<Duration>,
)
    requires
        call_ensures(KeepAlivePolicy::resolve, (request, env, flag), r),
        call_ensures(KeepAlivePolicy::ttl, (r,), ttl),
    ensures
        request matches Some(p) ==> r == p,
        request is None && env is Some ==> Some(r) == env,
        request is None && env is None && flag is Some ==> Some(r) == flag,
        request is None && env is None && flag is None ==> (r matches KeepAlivePolicy::Idle(d)
            && duration_nanos(d) == 900 * 1_000_000_000),
        r is Pin ==> ttl is None,
        r is UnloadAfter ==> (ttl matches Some(d) && duration_nanos(d) == 1_000_000),
        r matches KeepAlivePolicy::Idle(d) ==> ttl == Some(d),
{
}

/// The unload timer waits on while a lease is held and unloads when none is.
pub proof fn law_model_in_use_is_not_unloaded(held: LeaseCount, n: usize, action: TimerAction)
    requires
        call_ensures(LeaseCount::count, (&held,), n),
        call_ensures(on_timer, (n,), action),
    ensures
        held@ > 0 ==> action == TimerAction::Rearm,
        held@ == 0 ==> action == TimerAction::Unload,
{
}

/// The environment's policy is read like any duration text; without one there is none.
/// A log record shows whole seconds of idle time.
pub proof fn law_environment_policy_is_read(
    value: Option<String>,
    text: &str,
    parsed: Result<KeepAlivePolicy, String>,
    r: Result<Option<KeepAlivePolicy>, String>,
    p: KeepAlivePolicy,
    secs: u64,
)
    requires
        value matches Some(t) ==> text@ == t@,
        call_ensures(parse_duration_spec, (text,), parsed),
        call_ensures(policy_from_env, (value,), r),
        call_ensures(KeepAlivePolicy::ttl_secs_for_log, (p,), secs),
    ensures
        value is None ==> (r matches Ok(p) && p is None),
        value is Some ==> match parsed {
            Ok(q) => r matches Ok(Some(p)) && p@ == q@,
            Err(e) => r matches Err(m) && m@ == e@,
        },
        p matches KeepAlivePolicy::Idle(d) ==> secs == duration_nanos(d) / 1_000_000_000,
        !(p is Idle) ==> secs == 0,
{
}

/// Acquiring a lease counts one more, releasing it one less; none are held at first.
pub proof fn law_leases_are_counted(
    fresh: LeaseCount,
    a: &mut LeaseCount,
    b: &mut LeaseCount,
)
    requires
        call_ensures(LeaseCount::new, (), fresh),
        call_ensures(LeaseCount::acquire, (a,), ()),
        call_ensures(LeaseCount::release, (b,), ()),
    ensures
        fresh@ == 0,
        final(a)@ == old(a)@ + 1,
        final(b)@ == old(b)@ - 1,
{
}

/// A text that is no duration is rejected, and told why: an empty one, and one whose
/// number has a unit other than seconds, minutes and hours.
pub proof fn law_other_durations_are_rejected(
    n: u64,
    c: char,
    text: &str,
    r: Result<KeepAlivePolicy, String>,
    empty: &str,
    e: Result<KeepAlivePolicy, String>,
)
    requires
        call_ensures(parse_duration_spec, (text,), r),
        call_ensures(parse_duration_spec, (empty,), e),
        'a' <= c <= 'z' || 'A' <= c <= 'Z',
        c != 's' && c != 'm' && c != 'h',
        text@ == decimal(n as nat) + seq![c],
        empty@.len() == 0,
    ensures
        r matches Err(m) && m@ == "duration spec '"@ + text@ + "' has unknown unit '"@ + seq![c]
            + "' (expected s | m | h)"@,
        e matches Err(m) && m@ == "empty duration spec"@,
{
    let d = decimal(n as nat);
    law_decimal_round_trip(n as nat);
    lemma_decimal_ends(n as nat);
    assert(text@[0] == d[0]);
    assert(text@[text@.len() - 1] == c);
    lemma_trim_plain(text@);
    assert(text@.subrange(0, text@.len() - 1) =~= d);
    lemma_trim_plain(empty@);
}

} // verus!
