//! Transparent retry of a generation whose engine failed.
//!
//! At temperature zero a generation is deterministic. After a transient failure
//! the same request is issued again; the tokens that the client already has are
//! produced once more and skipped, and the stream goes on behind them. The loop
//! that runs the engine stands outside; [`ReplayState`] decides what to do with
//! each item of its stream.

use vstd::prelude::*;

use crate::engine::error::{migratable, EngineError, EngineErrorV};
use crate::engine::kv_quant::KvQuant;
use crate::engine::types::{
    copy_tools, GenerationRequest, GenerationToken, NormalizedResponseFormat, NormalizedTool,
    NormalizedToolChoice, RequestV, SamplingParams, TokenV,
};
use crate::text::{
    copy_opt_text, copy_texts, decimal, join2, join5, opt_view, opt_views, u64_text, views,
};

verus! {

// ── Classification ───────────────────────────────────────────────────────────

/// Whether a failed generation may be tried again.
#[derive(Debug, Clone, Copy, PartialEq, Eq, Structural)]
pub enum RetryClass {
    /// The failure is transient.
    Migratable,
    /// The failure would recur.
    Fatal,
}

/// Whether a generation that failed in this way may be tried again.
pub fn classify(err: &EngineError) -> (r: RetryClass)
    ensures
        (r == RetryClass::Migratable) == migratable(err@),
{
    if err.is_migratable() {
        RetryClass::Migratable
    } else {
        RetryClass::Fatal
    }
}

/// A request can be replayed when its decoding is deterministic (no positive
/// temperature, one choice) and not guided by a grammar.
pub open spec fn replayable(req: RequestV, n_choices_ok: bool) -> bool {
    &&& req.sampling.temperature.nan() || req.sampling.temperature.rank() <= 0
    &&& n_choices_ok
    &&& !req.has_constraint
}

/// Whether a request can be replayed. `n_choices_ok` is false when it asks for
/// more than one choice.
pub fn is_replayable(req: &GenerationRequest, n_choices_ok: bool) -> (r: bool)
    ensures
        r == replayable(req@, n_choices_ok),
{
    let t = req.sampling.temperature;
    let positive = !t.is_nan() && !t.is_at_most(crate::float32::F32 { bits: 0 });
    !positive && n_choices_ok && !req.has_constraint
}

/// How often a generation is tried again unless configured otherwise.
pub const DEFAULT_MAX_RETRIES: u32 = 2;

// ── The plan ─────────────────────────────────────────────────────────────────

/// What is needed to issue a request again.
#[derive(Debug)]
pub struct RequestPlan {
    pub model_id: String,
    pub original_prompt_tokens: Vec<u32>,
    pub original_max_tokens: u32,
    pub sampling: SamplingParams,
    pub stop: Vec<String>,
    pub stream: bool,
    pub system: Option<String>,
    pub session_id: Option<String>,
    pub effective_prompt_cache_slots: Option<usize>,
    pub tools: Option<Vec<NormalizedTool>>,
    pub tool_choice: Option<NormalizedToolChoice>,
    pub response_format: Option<NormalizedResponseFormat>,
    pub thinking_budget: Option<u32>,
    pub thinking_end_token_id: Option<u32>,
    pub enable_thinking: Option<bool>,
    pub prompt_think_open: bool,
    pub emit_tool_markers: bool,
    pub thinking_start_token: Option<String>,
    pub thinking_end_token: Option<String>,
    pub images: Vec<String>,
    pub audio_b64: Vec<String>,
    pub kv_quant_override: Option<KvQuant>,
    pub max_ctx_override: Option<i32>,
    pub image_max_tokens: Option<usize>,
}

impl View for RequestPlan {
    type V = RequestV;

    /// The request that the plan was made from, without its constraint.
    open spec fn view(&self) -> RequestV {
        RequestV {
            model_id: self.model_id@,
            prompt_tokens: self.original_prompt_tokens@,
            max_tokens: self.original_max_tokens,
            sampling: self.sampling@,
            stop: views(self.stop@),
            stream: self.stream,
            system: opt_view(self.system),
            session_id: opt_view(self.session_id),
            effective_prompt_cache_slots: self.effective_prompt_cache_slots,
            tools: opt_views(self.tools),
            tool_choice: opt_view(self.tool_choice),
            response_format: opt_view(self.response_format),
            has_constraint: false,
            thinking_budget: self.thinking_budget,
            thinking_end_token_id: self.thinking_end_token_id,
            enable_thinking: self.enable_thinking,
            prompt_think_open: self.prompt_think_open,
            emit_tool_markers: self.emit_tool_markers,
            thinking_start_token: opt_view(self.thinking_start_token),
            thinking_end_token: opt_view(self.thinking_end_token),
            kv_quant_override: self.kv_quant_override,
            max_ctx_override: self.max_ctx_override,
            images: views(self.images@),
            audio_b64: views(self.audio_b64@),
            image_max_tokens: self.image_max_tokens,
        }
    }
}

/// A request without its constraint.
pub open spec fn planned(req: RequestV) -> RequestV {
    RequestV { has_constraint: false, ..req }
}

/// The request that a plan issues again: at least one token is asked for.
pub open spec fn rebuilt(plan: RequestV) -> RequestV {
    RequestV {
        max_tokens: if plan.max_tokens == 0 {
            1
        } else {
            plan.max_tokens
        },
        ..plan
    }
}

fn copy_ids(v: &Vec<u32>) -> (r: Vec<u32>)
    ensures
        r@ == v@,
{
    let mut out: Vec<u32> = Vec::new();
    let mut i: usize = 0;
    while i < v.len()
        invariant
            i <= v@.len(),
            out@ == v@.subrange(0, i as int),
        decreases v@.len() - i,
    {
        out.push(v[i]);
        i += 1;
        proof {
            assert(out@ =~= v@.subrange(0, i as int));
        }
    }
    proof {
        assert(out@ =~= v@);
    }
    out
}

fn copy_opt_tools(o: &Option<Vec<NormalizedTool>>) -> (r: Option<Vec<NormalizedTool>>)
    ensures
        opt_views(r) == opt_views(*o),
{
    match o {
        Some(v) => Some(copy_tools(v)),
        None => None,
    }
}

fn copy_opt_choice(o: &Option<NormalizedToolChoice>) -> (r: Option<NormalizedToolChoice>)
    ensures
        opt_view(r) == opt_view(*o),
{
    match o {
        Some(v) => Some(v.duplicate()),
        None => None,
    }
}

fn copy_opt_format(o: &Option<NormalizedResponseFormat>) -> (r: Option<NormalizedResponseFormat>)
    ensures
        opt_view(r) == opt_view(*o),
{
    match o {
        Some(v) => Some(v.duplicate()),
        None => None,
    }
}

impl RequestPlan {
    /// The plan to issue `req` again. A constraint is not part of it.
    pub fn from_gen_req(req: &GenerationRequest) -> (r: Self)
        ensures
            r@ == planned(req@),
    {
        RequestPlan {
            model_id: req.model_id.clone(),
            original_prompt_tokens: copy_ids(&req.prompt_tokens),
            original_max_tokens: req.max_tokens,
            sampling: req.sampling.duplicate(),
            stop: copy_texts(&req.stop),
            stream: req.stream,
            system: copy_opt_text(&req.system),
            session_id: copy_opt_text(&req.session_id),
            effective_prompt_cache_slots: req.effective_prompt_cache_slots,
            tools: copy_opt_tools(&req.tools),
            tool_choice: copy_opt_choice(&req.tool_choice),
            response_format: copy_opt_format(&req.response_format),
            thinking_budget: req.thinking_budget,
            thinking_end_token_id: req.thinking_end_token_id,
            enable_thinking: req.enable_thinking,
            prompt_think_open: req.prompt_think_open,
            emit_tool_markers: req.emit_tool_markers,
            thinking_start_token: copy_opt_text(&req.thinking_start_token),
            thinking_end_token: copy_opt_text(&req.thinking_end_token),
            images: copy_texts(&req.images),
            audio_b64: copy_texts(&req.audio_b64),
            kv_quant_override: req.kv_quant_override,
            max_ctx_override: req.max_ctx_override,
            image_max_tokens: req.image_max_tokens,
        }
    }

    /// The request for another attempt: the original prompt and the original
    /// token budget, since the engine produces the delivered tokens once more.
    pub fn build_request(&self) -> (r: GenerationRequest)
        ensures
            r@ == rebuilt(self@),
    {
        GenerationRequest {
            model_id: self.model_id.clone(),
            prompt_tokens: copy_ids(&self.original_prompt_tokens),
            max_tokens: if self.original_max_tokens == 0 {
                1
            } else {
                self.original_max_tokens
            },
            sampling: self.sampling.duplicate(),
            stop: copy_texts(&self.stop),
            stream: self.stream,
            system: copy_opt_text(&self.system),
            session_id: copy_opt_text(&self.session_id),
            effective_prompt_cache_slots: self.effective_prompt_cache_slots,
            tools: copy_opt_tools(&self.tools),
            tool_choice: copy_opt_choice(&self.tool_choice),
            response_format: copy_opt_format(&self.response_format),
            has_constraint: false,
            thinking_budget: self.thinking_budget,
            thinking_end_token_id: self.thinking_end_token_id,
            enable_thinking: self.enable_thinking,
            prompt_think_open: self.prompt_think_open,
            emit_tool_markers: self.emit_tool_markers,
            thinking_start_token: copy_opt_text(&self.thinking_start_token),
            thinking_end_token: copy_opt_text(&self.thinking_end_token),
            kv_quant_override: self.kv_quant_override,
            max_ctx_override: self.max_ctx_override,
            images: copy_texts(&self.images),
            audio_b64: copy_texts(&self.audio_b64),
            image_max_tokens: self.image_max_tokens,
        }
    }
}

/// A replayable request that asks for at least one token is issued again exactly
/// as it was.
pub proof fn law_replay_reissues_the_request(req: RequestV, n_choices_ok: bool)
    requires
        replayable(req, n_choices_ok),
        req.max_tokens > 0,
    ensures
        rebuilt(planned(req)) == req,
{
}

// ── Replay ───────────────────────────────────────────────────────────────────

/// The progress of a generation over its attempts.
#[derive(Debug)]
pub struct ReplayState {
    delivered: Vec<u32>,
    attempts_remaining: u64,
    skipped: usize,
    skip_count: usize,
    root_error: Option<EngineError>,
}

pub struct ReplayV {
    /// The ids of the tokens that the client has.
    pub delivered: Seq<u32>,
    /// The attempts that are left, the running one included.
    pub attempts: nat,
    /// The tokens of this attempt that were skipped.
    pub skipped: nat,
    /// The tokens of this attempt that are to be skipped.
    pub skip_count: nat,
    /// The failure that led to this attempt.
    pub cause: Option<EngineErrorV>,
}

impl View for ReplayState {
    type V = ReplayV;

    closed spec fn view(&self) -> ReplayV {
        ReplayV {
            delivered: self.delivered@,
            attempts: self.attempts_remaining as nat,
            skipped: self.skipped as nat,
            skip_count: self.skip_count as nat,
            cause: opt_view(self.root_error),
        }
    }
}

impl ReplayV {
    /// An attempt is running; it skips no more than was delivered, and an attempt
    /// that skips anything was caused by a failure.
    pub open spec fn valid(self) -> bool {
        &&& self.attempts >= 1
        &&& self.skipped <= self.skip_count <= self.delivered.len()
        &&& self.skip_count > 0 ==> self.cause is Some
        &&& self.skipped < self.skip_count ==> self.skip_count == self.delivered.len()
    }
}

/// What is to be done after an item of the engine's stream.
#[derive(Debug)]
pub enum ReplayAction {
    /// The client has this token: read on.
    Skip,
    /// Send the token to the client and read on.
    Forward(GenerationToken),
    /// Issue the request again.
    Retry,
    /// Send the failure to the client and stop.
    Fail(EngineError),
    /// The generation is complete.
    Finish,
}

pub enum ActionV {
    Skip,
    Forward(TokenV),
    Retry,
    Fail(EngineErrorV),
    Finish,
}

impl View for ReplayAction {
    type V = ActionV;

    open spec fn view(&self) -> ActionV {
        match self {
            ReplayAction::Skip => ActionV::Skip,
            ReplayAction::Forward(t) => ActionV::Forward(t@),
            ReplayAction::Retry => ActionV::Retry,
            ReplayAction::Fail(e) => ActionV::Fail(e@),
            ReplayAction::Finish => ActionV::Finish,
        }
    }
}

/// The state before the first attempt.
pub open spec fn replay_start(max_retries: nat) -> ReplayV {
    ReplayV {
        delivered: Seq::empty(),
        attempts: max_retries + 1,
        skipped: 0,
        skip_count: 0,
        cause: None,
    }
}

/// The text of a divergence that no failure explains.
pub open spec fn divergence_text(position: nat, expected: u32, actual: u32) -> Seq<char> {
    "replay prefix divergence at "@ + decimal(position) + ": expected "@ + decimal(expected as nat)
        + " got "@ + decimal(actual as nat)
}

/// The failure that caused the attempt, or else one with the given text.
pub open spec fn cause_or(s: ReplayV, text: Seq<char>) -> EngineErrorV {
    match s.cause {
        Some(e) => e,
        None => EngineErrorV::Other(text),
    }
}

/// A token: skipped while the delivered ones are reproduced, forwarded behind
/// them. A token that differs from the delivered one ends the generation.
pub open spec fn after_token(s: ReplayV, t: TokenV) -> (ReplayV, ActionV) {
    if s.skipped < s.skip_count {
        let expected = s.delivered[s.skipped as int];
        if t.token_id != expected {
            (
                ReplayV { cause: None, ..s },
                ActionV::Fail(
                    cause_or(s, divergence_text(s.skipped, expected, t.token_id)),
                ),
            )
        } else {
            (ReplayV { skipped: s.skipped + 1, ..s }, ActionV::Skip)
        }
    } else {
        (ReplayV { delivered: s.delivered.push(t.token_id), ..s }, ActionV::Forward(t))
    }
}

/// A failure: another attempt when it is transient and one is left.
pub open spec fn after_error(s: ReplayV, e: EngineErrorV) -> (ReplayV, ActionV) {
    let left = (s.attempts - 1) as nat;
    if migratable(e) && left > 0 {
        (
            ReplayV {
                attempts: left,
                skipped: 0,
                skip_count: s.delivered.len(),
                cause: Some(e),
                ..s
            },
            ActionV::Retry,
        )
    } else {
        (ReplayV { attempts: left, ..s }, ActionV::Fail(e))
    }
}

/// The end of the engine's stream: complete when the delivered tokens were
/// reproduced.
pub open spec fn after_end(s: ReplayV) -> (ReplayV, ActionV) {
    if s.skipped < s.skip_count {
        (
            ReplayV { cause: None, ..s },
            ActionV::Fail(
                cause_or(s, "replay underrun: retry EOS before prefix reproduced"@),
            ),
        )
    } else {
        (s, ActionV::Finish)
    }
}

impl ReplayState {
    /// The state before the first attempt.
    pub fn new(max_retries: u32) -> (r: ReplayState)
        ensures
            r@ == replay_start(max_retries as nat),
            r@.valid(),
    {
        let r = ReplayState {
            delivered: Vec::new(),
            attempts_remaining: max_retries as u64 + 1,
            skipped: 0,
            skip_count: 0,
            root_error: None,
        };
        proof {
            assert(r.delivered@ =~= Seq::empty());
        }
        r
    }

    fn take_cause(&mut self, text: String) -> (r: EngineError)
        ensures
            r@ == cause_or(old(self)@, text@),
            final(self)@ == (ReplayV { cause: None, ..old(self)@ }),
    {
        match self.root_error.take() {
            Some(e) => e,
            None => EngineError::Other(text),
        }
    }

    /// What is to be done with an item of the engine's stream.
    pub fn on_item(&mut self, item: Result<GenerationToken, EngineError>) -> (r: ReplayAction)
        requires
            old(self)@.valid(),
        ensures
            match item {
                Ok(t) => (final(self)@, r@) == after_token(old(self)@, t@),
                Err(e) => (final(self)@, r@) == after_error(old(self)@, e@),
            },
            r is Skip || r is Forward || r is Retry ==> final(self)@.valid(),
    {
        match item {
            Ok(tok) => {
                if self.skipped < self.skip_count {
                    let expected: u32 = self.delivered[self.skipped];
                    if tok.token_id != expected {
                        let head = join5(
                            "replay prefix divergence at ",
                            u64_text(self.skipped as u64).as_str(),
                            ": expected ",
                            u64_text(expected as u64).as_str(),
                            " got ",
                        );
                        let text = join2(head.as_str(), u64_text(tok.token_id as u64).as_str());
                        return ReplayAction::Fail(self.take_cause(text));
                    }
                    self.skipped = self.skipped + 1;
                    ReplayAction::Skip
                } else {
                    self.delivered.push(tok.token_id);
                    ReplayAction::Forward(tok)
                }
            },
            Err(e) => {
                self.attempts_remaining = self.attempts_remaining - 1;
                match classify(&e) {
                    RetryClass::Fatal => ReplayAction::Fail(e),
                    RetryClass::Migratable => if self.attempts_remaining == 0 {
                        ReplayAction::Fail(e)
                    } else {
                        self.root_error = Some(e);
                        self.skip_count = self.delivered.len();
                        self.skipped = 0;
                        ReplayAction::Retry
                    },
                }
            },
        }
    }

    /// What is to be done when the engine's stream has ended.
    pub fn on_end(&mut self) -> (r: ReplayAction)
        ensures
            (final(self)@, r@) == after_end(old(self)@),
    {
        if self.skipped < self.skip_count {
            let text = "replay underrun: retry EOS before prefix reproduced".to_owned();
            ReplayAction::Fail(self.take_cause(text))
        } else {
            ReplayAction::Finish
        }
    }
}

// ── Laws ─────────────────────────────────────────────────────────────────────

/// A replay that fails to reproduce what was delivered reports the failure that
/// caused it, never a text about the replay itself.
pub proof fn law_failed_replay_reports_its_cause(s: ReplayV, t: TokenV)
    requires
        s.valid(),
    ensures
        after_token(s, t).1 matches ActionV::Fail(e) ==> s.cause == Some(e),
        after_end(s).1 matches ActionV::Fail(e) ==> s.cause == Some(e),
{
}

/// A failure that would recur is reported at once.
pub proof fn law_fatal_failure_is_not_retried(s: ReplayV, e: EngineErrorV)
    requires
        s.valid(),
        !migratable(e),
    ensures
        after_error(s, e).1 == ActionV::Fail(e),
{
}

/// The state after a number of transient failures, whatever was delivered
/// between them.
pub open spec fn after_failures(s: ReplayV, errors: Seq<EngineErrorV>) -> ReplayV
    decreases errors.len(),
{
    if errors.len() == 0 {
        s
    } else {
        after_error(after_failures(s, errors.drop_last()), errors.last()).0
    }
}

/// With `max_retries` retries there are exactly `max_retries + 1` attempts: each
/// of the first `max_retries` transient failures is retried, the next one is
/// reported.
pub proof fn law_attempts_are_bounded(max_retries: nat, errors: Seq<EngineErrorV>)
    requires
        errors.len() == max_retries + 1,
        forall|i: int| 0 <= i < errors.len() ==> migratable(#[trigger] errors[i]),
    ensures
        forall|k: int|
            0 <= k < errors.len() ==> (after_error(
                #[trigger] after_failures(replay_start(max_retries), errors.subrange(0, k)),
                errors[k],
            ).1 == if k < max_retries {
                ActionV::Retry
            } else {
                ActionV::Fail(errors[k])
            }),
{
    assert forall|k: int| 0 <= k < errors.len() implies after_error(
        #[trigger] after_failures(replay_start(max_retries), errors.subrange(0, k)),
        errors[k],
    ).1 == (if k < max_retries {
        ActionV::Retry
    } else {
        ActionV::Fail(errors[k])
    }) by {
        lemma_attempts_left(max_retries, errors, k);
    }
}

proof fn lemma_attempts_left(max_retries: nat, errors: Seq<EngineErrorV>, k: int)
    requires
        0 <= k <= max_retries,
        k <= errors.len(),
        forall|i: int| 0 <= i < errors.len() ==> migratable(#[trigger] errors[i]),
    ensures
        after_failures(replay_start(max_retries), errors.subrange(0, k)).attempts == max_retries + 1
            - k,
    decreases k,
{
    let es = errors.subrange(0, k);
    if k > 0 {
        assert(es.drop_last() =~= errors.subrange(0, k - 1));
        assert(es.last() == errors[k - 1]);
        lemma_attempts_left(max_retries, errors, k - 1);
    }
}

/// The state after a run of tokens, and those of them that went to the client;
/// `None` once the replay has failed.
pub open spec fn fed(s: ReplayV, ts: Seq<TokenV>) -> Option<(ReplayV, Seq<TokenV>)>
    decreases ts.len(),
{
    if ts.len() == 0 {
        Some((s, Seq::empty()))
    } else {
        match fed(s, ts.drop_last()) {
            None => None,
            Some((s1, sent)) => {
                let (s2, action) = after_token(s1, ts.last());
                match action {
                    ActionV::Skip => Some((s2, sent)),
                    ActionV::Forward(t) => Some((s2, sent.push(t))),
                    _ => None,
                }
            },
        }
    }
}

/// The ids of tokens.
pub open spec fn ids(ts: Seq<TokenV>) -> Seq<u32> {
    Seq::new(ts.len(), |i: int| ts[i].token_id)
}

/// Over a retry of a deterministic generation the client gets each token once and
/// in order: where the tokens `ts` begin like the delivered ones, those that the
/// client has are skipped and the others are sent.
pub proof fn law_replay_is_seamless(s: ReplayV, ts: Seq<TokenV>)
    requires
        s.valid(),
        s.skipped == 0,
        s.skip_count == s.delivered.len(),
        forall|i: int|
            0 <= i < ts.len() && i < s.delivered.len() ==> (#[trigger] ts[i]).token_id
                == s.delivered[i],
    ensures
        fed(s, ts) matches Some((s2, sent)) && {
            let n = s.delivered.len();
            &&& sent == if ts.len() <= n {
                Seq::empty()
            } else {
                ts.subrange(n as int, ts.len() as int)
            }
            &&& s2.delivered == s.delivered + ids(sent)
            &&& s2.skipped == if ts.len() <= n {
                ts.len()
            } else {
                n
            }
            &&& s2.skip_count == n
            &&& s2.cause == s.cause
            &&& s2.attempts == s.attempts
        },
    decreases ts.len(),
{
    let n = s.delivered.len() as int;
    if ts.len() == 0 {
        assert(s.delivered + ids(Seq::empty()) =~= s.delivered);
    } else {
        let init = ts.drop_last();
        assert forall|i: int| 0 <= i < init.len() && i < s.delivered.len() implies (
        #[trigger] init[i]).token_id == s.delivered[i] by {
            assert(init[i] == ts[i]);
        }
        law_replay_is_seamless(s, init);
        let (s1, sent) = fed(s, init)->0;
        let t = ts[ts.len() - 1];
        if init.len() < n {
            assert(s1.delivered =~= s.delivered);
            assert(sent =~= Seq::empty());
        } else {
            let more = sent.push(t);
            assert(more =~= ts.subrange(n, ts.len() as int));
            assert(s.delivered + ids(more) =~= (s.delivered + ids(sent)).push(t.token_id));
        }
    }
}

/// A request that is issued again is the request: every setting, the prompt, the media
/// and the tools are those of the first attempt. Only a constraint is left out, and a
/// request for no tokens asks for one.
pub proof fn law_request_is_issued_again_whole(
    req: GenerationRequest,
    plan: RequestPlan,
    r: GenerationRequest,
)
    requires
        call_ensures(RequestPlan::from_gen_req, (&req,), plan),
        call_ensures(RequestPlan::build_request, (&plan,), r),
    ensures
        r.model_id@ == req.model_id@,
        r.prompt_tokens@ == req.prompt_tokens@,
        r.max_tokens == if req.max_tokens == 0 {
            1
        } else {
            req.max_tokens
        },
        r.sampling.temperature == req.sampling.temperature,
        r.sampling.top_p == req.sampling.top_p,
        r.sampling.top_k == req.sampling.top_k,
        r.sampling.min_p == req.sampling.min_p,
        r.sampling.repetition_penalty == req.sampling.repetition_penalty,
        r.sampling.frequency_penalty == req.sampling.frequency_penalty,
        r.sampling.presence_penalty == req.sampling.presence_penalty,
        r.sampling.logit_bias@ == req.sampling.logit_bias@,
        r.sampling.seed == req.sampling.seed,
        r.sampling.top_logprobs_k == req.sampling.top_logprobs_k,
        views(r.stop@) == views(req.stop@),
        r.stream == req.stream,
        opt_view(r.system) == opt_view(req.system),
        opt_view(r.session_id) == opt_view(req.session_id),
        r.effective_prompt_cache_slots == req.effective_prompt_cache_slots,
        opt_views(r.tools) == opt_views(req.tools),
        opt_view(r.tool_choice) == opt_view(req.tool_choice),
        opt_view(r.response_format) == opt_view(req.response_format),
        !r.has_constraint,
        r.thinking_budget == req.thinking_budget,
        r.thinking_end_token_id == req.thinking_end_token_id,
        r.enable_thinking == req.enable_thinking,
        r.prompt_think_open == req.prompt_think_open,
        r.emit_tool_markers == req.emit_tool_markers,
        opt_view(r.thinking_start_token) == opt_view(req.thinking_start_token),
        opt_view(r.thinking_end_token) == opt_view(req.thinking_end_token),
        r.kv_quant_override == req.kv_quant_override,
        r.max_ctx_override == req.max_ctx_override,
        views(r.images@) == views(req.images@),
        views(r.audio_b64@) == views(req.audio_b64@),
        r.image_max_tokens == req.image_max_tokens,
{
}

/// A request is replayed only when its decoding is deterministic: a temperature that is
/// not above zero, one choice and no grammar. A failure is tried again only when it is a
/// fault of the backend or an unspecific one.
pub proof fn law_only_deterministic_requests_are_replayed(
    req: GenerationRequest,
    one_choice: bool,
    r: bool,
    e: EngineError,
    class: RetryClass,
)
    requires
        call_ensures(is_replayable, (&req, one_choice), r),
        call_ensures(classify, (&e,), class),
    ensures
        r == (one_choice && !req.has_constraint && !(0 < req.sampling.temperature.bits
            <= 0x7f80_0000)),
        class == RetryClass::Migratable <==> e is Mlx || e is Other,
{
}

/// In the first attempt every token goes to the client, as it is. A transient failure
/// is followed by another attempt while one is left; then, as after any other failure,
/// the client gets the failure itself.
pub proof fn law_first_attempt_forwards_everything(
    state: &mut ReplayState,
    item: Result<GenerationToken, EngineError>,
    r: ReplayAction,
)
    requires
        call_ensures(ReplayState::on_item, (state, item), r),
        old(state)@.skip_count == 0,
        old(state)@.attempts >= 1,
    ensures
        item matches Ok(t) ==> (r matches ReplayAction::Forward(sent) && sent.token_id == t.token_id
            && sent.piece@ == t.piece@ && sent.done == t.done && opt_view(sent.finish_reason)
            == opt_view(t.finish_reason) && sent.is_thinking == t.is_thinking && opt_view(
            sent.logprobs,
        ) == opt_view(t.logprobs) && final(state)@.delivered == old(state)@.delivered.push(
            t.token_id,
        )),
        item matches Err(e) ==> {
            &&& (e is Mlx || e is Other) && old(state)@.attempts > 1 ==> r is Retry
            &&& !((e is Mlx || e is Other) && old(state)@.attempts > 1) ==> (
            r matches ReplayAction::Fail(f) && f@ == e@)
            &&& final(state)@.attempts == old(state)@.attempts - 1
            &&& final(state)@.delivered == old(state)@.delivered
        },
{
}

/// A generation begins with nothing delivered and one attempt more than it may retry.
pub proof fn law_replay_begins_fresh(max_retries: u32, s: ReplayState)
    requires
        call_ensures(ReplayState::new, (max_retries,), s),
    ensures
        s@.delivered.len() == 0,
        s@.attempts == max_retries + 1,
        s@.skip_count == 0,
        s@.skipped == 0,
        s@.cause is None,
{
}

/// A stream that ends is complete when all tokens that the client has were produced
/// again; one that ends before is the failure that led to it.
pub proof fn law_early_end_is_the_failure(s: &mut ReplayState, r: ReplayAction)
    requires
        call_ensures(ReplayState::on_end, (s,), r),
    ensures
        old(s)@.skipped >= old(s)@.skip_count ==> r is Finish,
        old(s)@.skipped < old(s)@.skip_count && old(s)@.cause is Some ==> (
        r matches ReplayAction::Fail(e) && Some(e@) == old(s)@.cause),
{
}

/// A generation is tried again twice, unless configured otherwise.
pub proof fn law_two_retries_by_default()
    ensures
        DEFAULT_MAX_RETRIES == 2,
{
}

} // verus!
