//! Error replies, sampling parameters, request ids and timeouts.

use std::time::Duration;

use vstd::prelude::*;

use crate::engine::error::{EngineError, EngineErrorV, OomPhase};
use crate::engine::types::{SamplingParams, SamplingV};
use crate::float32::{F32, ONE_BITS};
use crate::header::{opt_bytes, opt_header_text, opt_header_text_of};
use crate::json::{opt_number_value, Json, JsonV};
use crate::keep_alive::duration_nanos;
use crate::openai::reply::{
    bad_request, bad_request_reply, error_reply, error_response, internal_error, internal_reply,
    plain_reply, retry_reply, service_unavailable, unavailable_reply, Reply, ReplyV,
};
use crate::text::{
    chars_of, debug_text, decimal, join2, join3, join5, parse_unsigned, string_of, text_debug,
    text_trim, trim, u64_text, unsigned_value,
};

verus! {

// ── Categories ───────────────────────────────────────────────────────────────

/// The categories under which failed requests are counted.
#[derive(Clone, Copy, Debug, PartialEq, Eq, Structural)]
pub enum ApiErrorCategory {
    BadRequest,
    NotFound,
    ContextOverflow,
    RateLimit,
    AdmissionSla503,
    Timeout,
    Upstream,
    Internal,
    OomLoad,
    OomKvCache,
    OomMidStream,
}

/// The category of an engine failure.
pub open spec fn error_category(e: EngineErrorV) -> ApiErrorCategory {
    match e {
        EngineErrorV::SmokeProbe(_) => ApiErrorCategory::Internal,
        EngineErrorV::Oom(phase, _, _, _) => match phase {
            OomPhase::LoadWeights => ApiErrorCategory::OomLoad,
            OomPhase::LoadKvCache => ApiErrorCategory::OomKvCache,
            OomPhase::Generation => ApiErrorCategory::OomMidStream,
        },
        _ => ApiErrorCategory::Upstream,
    }
}

/// The category of an engine failure.
pub fn engine_error_category(e: &EngineError) -> (r: ApiErrorCategory)
    ensures
        r == error_category(e@),
{
    match e {
        EngineError::SmokeProbe(_) => ApiErrorCategory::Internal,
        EngineError::Oom { phase, .. } => match phase {
            OomPhase::LoadWeights => ApiErrorCategory::OomLoad,
            OomPhase::LoadKvCache => ApiErrorCategory::OomKvCache,
            OomPhase::Generation => ApiErrorCategory::OomMidStream,
        },
        _ => ApiErrorCategory::Upstream,
    }
}

/// How many requests failed, by category.
#[derive(Debug, Clone, Copy, PartialEq, Eq, Structural)]
pub struct ApiErrorCounters {
    pub bad_request: u64,
    pub context_overflow: u64,
    pub not_found: u64,
    pub oom_load: u64,
    pub oom_kv_cache: u64,
    pub oom_mid_stream: u64,
    pub timeout: u64,
    pub upstream: u64,
    pub internal: u64,
    pub rate_limit: u64,
    pub admission_sla_503: u64,
}

impl ApiErrorCounters {
    /// The count of a category.
    pub open spec fn spec_count(self, cat: ApiErrorCategory) -> u64 {
        match cat {
            ApiErrorCategory::BadRequest => self.bad_request,
            ApiErrorCategory::ContextOverflow => self.context_overflow,
            ApiErrorCategory::NotFound => self.not_found,
            ApiErrorCategory::OomLoad => self.oom_load,
            ApiErrorCategory::OomKvCache => self.oom_kv_cache,
            ApiErrorCategory::OomMidStream => self.oom_mid_stream,
            ApiErrorCategory::Timeout => self.timeout,
            ApiErrorCategory::Upstream => self.upstream,
            ApiErrorCategory::Internal => self.internal,
            ApiErrorCategory::RateLimit => self.rate_limit,
            ApiErrorCategory::AdmissionSla503 => self.admission_sla_503,
        }
    }

    /// The counts with one more failure of a category; a count that is full begins
    /// anew.
    pub open spec fn counted(self, cat: ApiErrorCategory) -> ApiErrorCounters {
        let n: u64 = if self.spec_count(cat) == u64::MAX {
            0
        } else {
            (self.spec_count(cat) + 1) as u64
        };
        match cat {
            ApiErrorCategory::BadRequest => ApiErrorCounters { bad_request: n, ..self },
            ApiErrorCategory::ContextOverflow => ApiErrorCounters { context_overflow: n, ..self },
            ApiErrorCategory::NotFound => ApiErrorCounters { not_found: n, ..self },
            ApiErrorCategory::OomLoad => ApiErrorCounters { oom_load: n, ..self },
            ApiErrorCategory::OomKvCache => ApiErrorCounters { oom_kv_cache: n, ..self },
            ApiErrorCategory::OomMidStream => ApiErrorCounters { oom_mid_stream: n, ..self },
            ApiErrorCategory::Timeout => ApiErrorCounters { timeout: n, ..self },
            ApiErrorCategory::Upstream => ApiErrorCounters { upstream: n, ..self },
            ApiErrorCategory::Internal => ApiErrorCounters { internal: n, ..self },
            ApiErrorCategory::RateLimit => ApiErrorCounters { rate_limit: n, ..self },
            ApiErrorCategory::AdmissionSla503 => ApiErrorCounters { admission_sla_503: n, ..self },
        }
    }

    /// The count of a category.
    pub fn count(&self, cat: ApiErrorCategory) -> (r: u64)
        ensures
            r == self.spec_count(cat),
    {
        match cat {
            ApiErrorCategory::BadRequest => self.bad_request,
            ApiErrorCategory::ContextOverflow => self.context_overflow,
            ApiErrorCategory::NotFound => self.not_found,
            ApiErrorCategory::OomLoad => self.oom_load,
            ApiErrorCategory::OomKvCache => self.oom_kv_cache,
            ApiErrorCategory::OomMidStream => self.oom_mid_stream,
            ApiErrorCategory::Timeout => self.timeout,
            ApiErrorCategory::Upstream => self.upstream,
            ApiErrorCategory::Internal => self.internal,
            ApiErrorCategory::RateLimit => self.rate_limit,
            ApiErrorCategory::AdmissionSla503 => self.admission_sla_503,
        }
    }

    /// No failures.
    pub fn new() -> (r: Self)
        ensures
            forall|c: ApiErrorCategory| r.spec_count(c) == 0,
    {
        ApiErrorCounters {
            bad_request: 0,
            context_overflow: 0,
            not_found: 0,
            oom_load: 0,
            oom_kv_cache: 0,
            oom_mid_stream: 0,
            timeout: 0,
            upstream: 0,
            internal: 0,
            rate_limit: 0,
            admission_sla_503: 0,
        }
    }

    /// Counts one failure of a category; a count that is full begins anew.
    pub fn increment(&mut self, cat: ApiErrorCategory)
        ensures
            *final(self) == old(self).counted(cat),
            forall|c: ApiErrorCategory|
                final(self).spec_count(c) == if c != cat {
                    old(self).spec_count(c)
                } else if old(self).spec_count(c) == u64::MAX {
                    0
                } else {
                    (old(self).spec_count(c) + 1) as u64
                },
    {
        let n: u64 = self.count(cat).wrapping_add(1);
        match cat {
            ApiErrorCategory::BadRequest => self.bad_request = n,
            ApiErrorCategory::ContextOverflow => self.context_overflow = n,
            ApiErrorCategory::NotFound => self.not_found = n,
            ApiErrorCategory::OomLoad => self.oom_load = n,
            ApiErrorCategory::OomKvCache => self.oom_kv_cache = n,
            ApiErrorCategory::OomMidStream => self.oom_mid_stream = n,
            ApiErrorCategory::Timeout => self.timeout = n,
            ApiErrorCategory::Upstream => self.upstream = n,
            ApiErrorCategory::Internal => self.internal = n,
            ApiErrorCategory::RateLimit => self.rate_limit = n,
            ApiErrorCategory::AdmissionSla503 => self.admission_sla_503 = n,
        }
    }

    /// All counts, in the order in which they are shown.
    pub fn all(&self) -> (r: Vec<(ApiErrorCategory, u64)>)
        ensures
            r@.len() == 11,
            forall|i: int| 0 <= i < 11 ==> (#[trigger] r@[i]).1 == self.spec_count(r@[i].0),
            r@[0].0 == ApiErrorCategory::BadRequest,
            r@[1].0 == ApiErrorCategory::ContextOverflow,
            r@[2].0 == ApiErrorCategory::NotFound,
            r@[3].0 == ApiErrorCategory::OomLoad,
            r@[4].0 == ApiErrorCategory::OomKvCache,
            r@[5].0 == ApiErrorCategory::OomMidStream,
            r@[6].0 == ApiErrorCategory::Timeout,
            r@[7].0 == ApiErrorCategory::Upstream,
            r@[8].0 == ApiErrorCategory::Internal,
            r@[9].0 == ApiErrorCategory::RateLimit,
            r@[10].0 == ApiErrorCategory::AdmissionSla503,
    {
        let mut out: Vec<(ApiErrorCategory, u64)> = Vec::new();
        out.push((ApiErrorCategory::BadRequest, self.bad_request));
        out.push((ApiErrorCategory::ContextOverflow, self.context_overflow));
        out.push((ApiErrorCategory::NotFound, self.not_found));
        out.push((ApiErrorCategory::OomLoad, self.oom_load));
        out.push((ApiErrorCategory::OomKvCache, self.oom_kv_cache));
        out.push((ApiErrorCategory::OomMidStream, self.oom_mid_stream));
        out.push((ApiErrorCategory::Timeout, self.timeout));
        out.push((ApiErrorCategory::Upstream, self.upstream));
        out.push((ApiErrorCategory::Internal, self.internal));
        out.push((ApiErrorCategory::RateLimit, self.rate_limit));
        out.push((ApiErrorCategory::AdmissionSla503, self.admission_sla_503));
        out
    }
}

// ── Replies to engine failures ───────────────────────────────────────────────

/// A reading of the process's memory, in bytes.
#[derive(Clone, Copy, Debug, PartialEq, Eq, Structural)]
pub struct ProcMem {
    pub rss_bytes: u64,
    pub phys_footprint_bytes: u64,
    pub compressed_bytes: u64,
}

/// Whole mebibytes.
pub open spec fn mebibytes(bytes: u64) -> u64 {
    (bytes / 1_048_576) as u64
}

/// The error type that names the phase in which memory ran out.
pub open spec fn oom_type(phase: OomPhase) -> Seq<char> {
    match phase {
        OomPhase::LoadWeights => "oom_during_load"@,
        OomPhase::LoadKvCache => "oom_kv_cache"@,
        OomPhase::Generation => "oom_mid_stream"@,
    }
}

/// The body of an out-of-memory reply. What is not known is `null`.
pub open spec fn oom_body(
    phase: OomPhase,
    requested_bytes: Option<u64>,
    peak_alloc_mb: Option<u64>,
    msg: Seq<char>,
    mem: Option<ProcMem>,
) -> JsonV {
    JsonV::object().with(
        "error"@,
        JsonV::object().with("type"@, JsonV::Str(oom_type(phase))).with(
            "message"@,
            JsonV::Str(msg),
        ).with("peak_alloc_mb"@, opt_number_value(peak_alloc_mb)).with(
            "requested_bytes"@,
            opt_number_value(requested_bytes),
        ).with(
            "process_rss_mb"@,
            opt_number_value(
                match mem {
                    Some(m) => Some(mebibytes(m.rss_bytes)),
                    None => None,
                },
            ),
        ).with(
            "phys_footprint_mb"@,
            opt_number_value(
                match mem {
                    Some(m) => Some(mebibytes(m.phys_footprint_bytes)),
                    None => None,
                },
            ),
        ).with(
            "compressed_mb"@,
            opt_number_value(
                match mem {
                    Some(m) => Some(mebibytes(m.compressed_bytes)),
                    None => None,
                },
            ),
        ),
    )
}

/// The reply when memory ran out: while loading, 507 with a time to retry; during
/// generation, 503 without one, because the stream cannot be taken up again.
pub open spec fn oom_reply(
    phase: OomPhase,
    requested_bytes: Option<u64>,
    peak_alloc_mb: Option<u64>,
    msg: Seq<char>,
    mem: Option<ProcMem>,
) -> ReplyV {
    let body = oom_body(phase, requested_bytes, peak_alloc_mb, msg, mem);
    if phase == OomPhase::Generation {
        plain_reply(503, body)
    } else {
        retry_reply(507, body)
    }
}

/// The reply when memory ran out.
pub fn oom_response(
    phase: OomPhase,
    requested_bytes: Option<u64>,
    peak_alloc_mb: Option<u64>,
    msg: &str,
    mem: Option<ProcMem>,
) -> (r: Reply)
    ensures
        r@ == oom_reply(phase, requested_bytes, peak_alloc_mb, msg@, mem),
{
    let type_str: &str = match phase {
        OomPhase::LoadWeights => "oom_during_load",
        OomPhase::LoadKvCache => "oom_kv_cache",
        OomPhase::Generation => "oom_mid_stream",
    };
    let (rss, footprint, compressed): (Option<u64>, Option<u64>, Option<u64>) = match mem {
        Some(m) => (
            Some(m.rss_bytes / 1_048_576),
            Some(m.phys_footprint_bytes / 1_048_576),
            Some(m.compressed_bytes / 1_048_576),
        ),
        None => (None, None, None),
    };
    let error = Json::object().with("type", Json::string(type_str)).with(
        "message",
        Json::string(msg),
    ).with("peak_alloc_mb", Json::opt_number(peak_alloc_mb)).with(
        "requested_bytes",
        Json::opt_number(requested_bytes),
    ).with("process_rss_mb", Json::opt_number(rss)).with(
        "phys_footprint_mb",
        Json::opt_number(footprint),
    ).with("compressed_mb", Json::opt_number(compressed));
    let body = Json::object().with("error", error);
    match phase {
        OomPhase::Generation => Reply::plain(503, body),
        _ => Reply::retry(507, body),
    }
}

/// The reply to an engine failure whose text is `display`.
pub open spec fn engine_reply(e: EngineErrorV, display: Seq<char>, mem: Option<ProcMem>) -> ReplyV {
    match e {
        EngineErrorV::SmokeProbe(msg) => internal_reply("NaN logits during generation: "@ + msg),
        EngineErrorV::Oom(phase, requested, peak, msg) => oom_reply(
            phase,
            requested,
            peak,
            msg,
            mem,
        ),
        _ => unavailable_reply(display),
    }
}

/// The reply to an engine failure. `display` is the failure's own text, `mem` a
/// reading of the process's memory where there is one.
pub fn engine_error_response(e: &EngineError, display: &str, mem: Option<ProcMem>) -> (r: Reply)
    ensures
        r@ == engine_reply(e@, display@, mem),
{
    match e {
        EngineError::SmokeProbe(msg) => internal_error(
            join2("NaN logits during generation: ", msg.as_str()).as_str(),
        ),
        EngineError::Oom { phase, requested_bytes, peak_alloc_mb, msg } => oom_response(
            *phase,
            *requested_bytes,
            *peak_alloc_mb,
            msg.as_str(),
            mem,
        ),
        _ => service_unavailable(display),
    }
}

/// Only running out of memory while loading is worth a retry.
pub proof fn law_retry_only_after_load_failure(
    e: EngineErrorV,
    display: Seq<char>,
    mem: Option<ProcMem>,
)
    ensures
        (engine_reply(e, display, mem).headers.len() > 0) == (e matches EngineErrorV::Oom(
            phase,
            _,
            _,
            _,
        ) && phase != OomPhase::Generation),
        engine_reply(e, display, mem).status == 507 <==> engine_reply(
            e,
            display,
            mem,
        ).headers.len() > 0,
{
}

/// The category under which a failure is counted and the status of its reply go
/// together.
pub proof fn law_category_matches_status(
    e: EngineErrorV,
    display: Seq<char>,
    mem: Option<ProcMem>,
)
    ensures
        engine_reply(e, display, mem).status == match error_category(e) {
            ApiErrorCategory::Internal => 500u16,
            ApiErrorCategory::OomLoad => 507u16,
            ApiErrorCategory::OomKvCache => 507u16,
            _ => 503u16,
        },
{
}

// ── Sampling parameters ──────────────────────────────────────────────────────

/// Where a sampling parameter comes from.
#[derive(Debug, Clone, Copy, PartialEq, Eq, Structural)]
pub enum SamplingSource {
    Request,
    ServerDefault,
    ModelDefaults,
    HardCoded,
}

impl SamplingSource {
    /// A label for log records.
    pub fn as_str(self) -> (r: &'static str)
        ensures
            r@ == match self {
                SamplingSource::Request => "request"@,
                SamplingSource::ServerDefault => "server_default"@,
                SamplingSource::ModelDefaults => "model_defaults"@,
                SamplingSource::HardCoded => "hard_coded"@,
            },
    {
        match self {
            SamplingSource::Request => "request",
            SamplingSource::ServerDefault => "server_default",
            SamplingSource::ModelDefaults => "model_defaults",
            SamplingSource::HardCoded => "hard_coded",
        }
    }
}

/// Sampling defaults that come with a model.
#[derive(Debug, Clone, Copy, PartialEq, Eq, Structural)]
pub struct GenerationConfig {
    pub temperature: Option<F32>,
    pub top_p: Option<F32>,
    pub top_k: Option<u32>,
    pub repetition_penalty: Option<F32>,
    pub max_new_tokens: Option<u32>,
}

impl Default for GenerationConfig {
    fn default() -> (r: Self)
        ensures
            r == no_defaults(),
    {
        GenerationConfig {
            temperature: None,
            top_p: None,
            top_k: None,
            repetition_penalty: None,
            max_new_tokens: None,
        }
    }
}

/// A model without sampling defaults.
pub open spec fn no_defaults() -> GenerationConfig {
    GenerationConfig {
        temperature: None,
        top_p: None,
        top_k: None,
        repetition_penalty: None,
        max_new_tokens: None,
    }
}

/// The defaults of a model; none when there is no configuration.
pub open spec fn model_defaults(defaults: Option<GenerationConfig>) -> GenerationConfig {
    match defaults {
        Some(d) => d,
        None => no_defaults(),
    }
}

/// The first value that is given, in the order request, server, model; else
/// `fallback`.
pub open spec fn first_of<T>(
    request: Option<T>,
    server: Option<T>,
    model: Option<T>,
    fallback: T,
) -> (T, SamplingSource) {
    match (request, server, model) {
        (Some(v), _, _) => (v, SamplingSource::Request),
        (None, Some(v), _) => (v, SamplingSource::ServerDefault),
        (None, None, Some(v)) => (v, SamplingSource::ModelDefaults),
        (None, None, None) => (fallback, SamplingSource::HardCoded),
    }
}

fn pick<T>(request: Option<T>, server: Option<T>, model: Option<T>, fallback: T) -> (r: (
    T,
    SamplingSource,
))
    ensures
        r == first_of(request, server, model, fallback),
{
    match request {
        Some(v) => (v, SamplingSource::Request),
        None => match server {
            Some(v) => (v, SamplingSource::ServerDefault),
            None => match model {
                Some(v) => (v, SamplingSource::ModelDefaults),
                None => (fallback, SamplingSource::HardCoded),
            },
        },
    }
}

/// The sampling parameters of a request. A request's own value wins; then, for
/// the temperature, the server's default; then the model's default, where a model
/// can have one; then a fixed value.
pub open spec fn resolved_sampling(
    temperature: Option<F32>,
    top_p: Option<F32>,
    top_k: Option<u32>,
    min_p: Option<F32>,
    repetition_penalty: Option<F32>,
    frequency_penalty: Option<F32>,
    presence_penalty: Option<F32>,
    logit_bias: Seq<(u32, F32)>,
    seed: Option<u64>,
    defaults: Option<GenerationConfig>,
    server_temperature: Option<F32>,
) -> SamplingV {
    let model = model_defaults(defaults);
    let one = F32 { bits: ONE_BITS };
    let zero = F32 { bits: 0 };
    SamplingV {
        temperature: first_of(temperature, server_temperature, model.temperature, one).0,
        top_p: first_of(top_p, None, model.top_p, one).0,
        top_k: first_of(top_k, None, model.top_k, 0u32).0,
        min_p: first_of(min_p, None, None, zero).0,
        repetition_penalty: first_of(
            repetition_penalty,
            None,
            model.repetition_penalty,
            one,
        ).0,
        frequency_penalty: first_of(frequency_penalty, None, None, zero).0,
        presence_penalty: first_of(presence_penalty, None, None, zero).0,
        logit_bias,
        seed,
        top_logprobs_k: 0,
    }
}

/// Resolves the sampling parameters of a request, and tells where the temperature
/// and the nucleus come from.
pub fn resolve_sampling_params(
    req_temperature: Option<F32>,
    req_top_p: Option<F32>,
    req_top_k: Option<u32>,
    req_min_p: Option<F32>,
    req_repetition_penalty: Option<F32>,
    req_frequency_penalty: Option<F32>,
    req_presence_penalty: Option<F32>,
    logit_bias_parsed: Vec<(u32, F32)>,
    req_seed: Option<u64>,
    defaults: Option<GenerationConfig>,
    server_default_temperature: Option<F32>,
) -> (r: (SamplingParams, SamplingSource, SamplingSource))
    ensures
        r.0@ == resolved_sampling(
            req_temperature,
            req_top_p,
            req_top_k,
            req_min_p,
            req_repetition_penalty,
            req_frequency_penalty,
            req_presence_penalty,
            logit_bias_parsed@,
            req_seed,
            defaults,
            server_default_temperature,
        ),
        r.1 == first_of(
            req_temperature,
            server_default_temperature,
            model_defaults(defaults).temperature,
            F32 { bits: ONE_BITS },
        ).1,
        r.2 == first_of(
            req_top_p,
            None,
            model_defaults(defaults).top_p,
            F32 { bits: ONE_BITS },
        ).1,
{
    let model = match defaults {
        Some(d) => d,
        None => GenerationConfig::default(),
    };
    let one = F32 { bits: ONE_BITS };
    let zero = F32 { bits: 0 };
    let (temperature, temp_src) = pick(
        req_temperature,
        server_default_temperature,
        model.temperature,
        one,
    );
    let (top_p, top_p_src) = pick(req_top_p, None, model.top_p, one);
    let params = SamplingParams {
        temperature,
        top_p,
        top_k: pick(req_top_k, None, model.top_k, 0).0,
        min_p: pick(req_min_p, None, None, zero).0,
        repetition_penalty: pick(
            req_repetition_penalty,
            None,
            model.repetition_penalty,
            one,
        ).0,
        frequency_penalty: pick(req_frequency_penalty, None, None, zero).0,
        presence_penalty: pick(req_presence_penalty, None, None, zero).0,
        logit_bias: logit_bias_parsed,
        seed: req_seed,
        top_logprobs_k: 0,
    };
    (params, temp_src, top_p_src)
}

// ── Logit bias ───────────────────────────────────────────────────────────────

/// A bias of one token, by the text of its id.
#[derive(Debug)]
pub struct BiasEntry {
    pub key: String,
    pub bias: F32,
}

/// A number that is not finite, as text.
pub open spec fn non_finite_text(v: F32) -> Seq<char> {
    if v.nan() {
        "NaN"@
    } else if v.rank() < 0 {
        "-inf"@
    } else {
        "inf"@
    }
}

/// What is wrong with a bias: its key is not a token id, or its value is not
/// finite.
pub open spec fn bias_error(key: Seq<char>, bias: F32) -> Option<Seq<char>> {
    match unsigned_value(key) {
        Some(id) if id <= u32::MAX => if bias.finite() {
            None
        } else {
            Some("logit_bias["@ + key + "] = "@ + non_finite_text(bias) + " is not finite"@)
        },
        _ => Some("logit_bias key "@ + debug_text(key) + " is not a valid token id (u32)"@),
    }
}

/// The token id of a valid key.
pub open spec fn bias_id(key: Seq<char>) -> u32 {
    unsigned_value(key)->0 as u32
}

fn bias_message(entry: &BiasEntry) -> (r: Result<u32, String>)
    ensures
        match r {
            Ok(id) => bias_error(entry.key@, entry.bias) is None && id == bias_id(entry.key@),
            Err(m) => bias_error(entry.key@, entry.bias) == Some(m@),
        },
{
    match parse_unsigned(entry.key.as_str(), u32::MAX as u64) {
        None => Err(
            join3(
                "logit_bias key ",
                text_debug(entry.key.as_str()).as_str(),
                " is not a valid token id (u32)",
            ),
        ),
        Some(id) => if entry.bias.is_finite() {
            Ok(id as u32)
        } else {
            let v: &str = if entry.bias.is_nan() {
                "NaN"
            } else if entry.bias.bits >= crate::float32::SIGN_BIT {
                "-inf"
            } else {
                "inf"
            };
            Err(join5("logit_bias[", entry.key.as_str(), "] = ", v, " is not finite"))
        },
    }
}

/// What is wrong with the first invalid bias, if there is one.
pub open spec fn bias_problem(entries: Seq<BiasEntry>) -> Option<Seq<char>>
    decreases entries.len(),
{
    if entries.len() == 0 {
        None
    } else {
        match bias_error(entries[0].key@, entries[0].bias) {
            Some(m) => Some(m),
            None => bias_problem(entries.subrange(1, entries.len() as int)),
        }
    }
}

/// The biases of valid entries, by token id.
pub open spec fn biases(entries: Seq<BiasEntry>) -> Seq<(u32, F32)> {
    Seq::new(entries.len(), |i: int| (bias_id(entries[i].key@), entries[i].bias))
}

/// The entries of an optional map; none without a map.
pub open spec fn bias_entries(raw: Option<Vec<BiasEntry>>) -> Seq<BiasEntry> {
    match raw {
        Some(v) => v@,
        None => Seq::empty(),
    }
}

/// Reads the `logit_bias` map of a request, given as its entries in the order in
/// which they are visited. The first invalid entry is reported.
pub fn parse_logit_bias(raw: &Option<Vec<BiasEntry>>) -> (r: Result<Vec<(u32, F32)>, String>)
    ensures
        match r {
            Ok(out) => bias_problem(bias_entries(*raw)) is None && out@ == biases(
                bias_entries(*raw),
            ),
            Err(m) => bias_problem(bias_entries(*raw)) == Some(m@),
        },
{
    let mut out: Vec<(u32, F32)> = Vec::new();
    match raw {
        None => {
            proof {
                assert(out@ =~= biases(Seq::empty()));
            }
            Ok(out)
        },
        Some(entries) => {
            let mut i: usize = 0;
            proof {
                assert(entries@.subrange(0, entries@.len() as int) =~= entries@);
            }
            while i < entries.len()
                invariant
                    i <= entries@.len(),
                    bias_entries(*raw) == entries@,
                    out@ =~= biases(entries@).subrange(0, i as int),
                    bias_problem(entries@) == bias_problem(
                        entries@.subrange(i as int, entries@.len() as int),
                    ),
                decreases entries@.len() - i,
            {
                proof {
                    let rest = entries@.subrange(i as int, entries@.len() as int);
                    assert(rest[0] == entries@[i as int]);
                    assert(rest.subrange(1, rest.len() as int) =~= entries@.subrange(
                        i + 1,
                        entries@.len() as int,
                    ));
                }
                match bias_message(&entries[i]) {
                    Ok(id) => out.push((id, entries[i].bias)),
                    Err(m) => {
                        return Err(m);
                    },
                }
                i += 1;
            }
            proof {
                assert(out@ =~= biases(entries@));
            }
            Ok(out)
        },
    }
}

// ── The token cap ────────────────────────────────────────────────────────────

/// Checks a request's `max_tokens` against the server's cap.
pub fn enforce_max_tokens_cap(requested: u32, cap: u32) -> (r: Result<u32, Reply>)
    ensures
        match r {
            Ok(v) => requested <= cap && v == requested,
            Err(reply) => requested > cap && reply@ == bad_request_reply(
                "max_tokens "@ + decimal(requested as nat) + " exceeds server cap "@ + decimal(
                    cap as nat,
                ),
            ),
        },
{
    if requested > cap {
        let head = join3("max_tokens ", u64_text(requested as u64).as_str(), " exceeds server cap ");
        Err(bad_request(join2(head.as_str(), u64_text(cap as u64).as_str()).as_str()))
    } else {
        Ok(requested)
    }
}

// ── Request ids ──────────────────────────────────────────────────────────────

/// The printable ASCII characters.
pub open spec fn is_printable(c: char) -> bool {
    ' ' <= c <= '~'
}

/// The first `n` characters.
pub open spec fn first_chars(s: Seq<char>, n: int) -> Seq<char> {
    if s.len() <= n {
        s
    } else {
        s.subrange(0, n)
    }
}

/// The id that a client sends along: printable, at most 128 characters, trimmed,
/// and not empty.
pub open spec fn client_request_id(header: Option<Seq<u8>>) -> Option<Seq<char>> {
    match opt_header_text_of(header) {
        None => None,
        Some(t) => {
            let id = trim(first_chars(t.filter(|c: char| is_printable(c)), 128));
            if id.len() == 0 {
                None
            } else {
                Some(id)
            }
        },
    }
}

/// The id that a client sends along in `X-Request-Id`, if it can be used.
pub fn sanitised_request_id(header: Option<&[u8]>) -> (r: Option<String>)
    ensures
        match r {
            Some(id) => client_request_id(opt_bytes(header)) == Some(id@),
            None => client_request_id(opt_bytes(header)) is None,
        },
{
    match opt_header_text(header) {
        None => None,
        Some(t) => {
            let cs = chars_of(t.as_str());
            let mut kept: Vec<char> = Vec::new();
            let ghost keep = |c: char| is_printable(c);
            let mut i: usize = 0;
            proof {
                assert(cs@.subrange(0, 0).filter(keep) =~= Seq::<char>::empty()) by {
                    reveal(Seq::filter);
                }
            }
            while i < cs.len()
                invariant
                    i <= cs@.len(),
                    keep == (|c: char| is_printable(c)),
                    kept@ == cs@.subrange(0, i as int).filter(keep),
                decreases cs@.len() - i,
            {
                let c = cs[i];
                proof {
                    let next = cs@.subrange(0, i + 1);
                    assert(next.drop_last() =~= cs@.subrange(0, i as int));
                    reveal(Seq::filter);
                }
                if ' ' <= c && c <= '~' {
                    kept.push(c);
                }
                i += 1;
            }
            proof {
                assert(cs@.subrange(0, i as int) =~= cs@);
                assert(kept@.subrange(0, kept@.len() as int) =~= kept@);
            }
            let to: usize = if kept.len() <= 128 {
                kept.len()
            } else {
                128
            };
            let id = text_trim(string_of(&kept, 0, to).as_str());
            if id.as_str().is_empty() {
                None
            } else {
                Some(id)
            }
        },
    }
}

/// Thirty-two lower-case hexadecimal digits.
pub open spec fn is_simple_uuid(s: Seq<char>) -> bool {
    &&& s.len() == 32
    &&& forall|i: int|
        0 <= i < s.len() ==> ('0' <= #[trigger] s[i] <= '9' || 'a' <= s[i] <= 'f')
}

/// Calls `Uuid::new_v4` and shows the result by `simple`: 32 lower-case
/// hexadecimal digits, at random.
#[verifier::external_body]
fn fresh_uuid() -> (r: String)
    ensures
        is_simple_uuid(r@),
{
    uuid::Uuid::new_v4().simple().to_string()
}

/// The correlation id of a request: the client's, else a fresh one.
pub fn resolve_request_id(header: Option<&[u8]>) -> (r: String)
    ensures
        match client_request_id(opt_bytes(header)) {
            Some(id) => r@ == id,
            None => exists|u: Seq<char>| #[trigger] is_simple_uuid(u) && r@ == "req-"@ + u,
        },
{
    match sanitised_request_id(header) {
        Some(id) => id,
        None => {
            let u = fresh_uuid();
            proof {
                assert(is_simple_uuid(u@));
            }
            join2("req-", u.as_str())
        },
    }
}

// ── Timeouts ─────────────────────────────────────────────────────────────────

/// The time limit of a request, in seconds: none when the server sets none, else
/// the server's, or the client's where that is shorter. A client's limit that is
/// not a positive number is an error (`Err`).
pub open spec fn timeout_secs(header: Option<Seq<u8>>, max_secs: u64) -> Result<Option<u64>, ()> {
    if max_secs == 0 {
        Ok(None)
    } else {
        match header {
            None => Ok(Some(max_secs)),
            Some(_) => match opt_header_text_of(header) {
                Some(t) => match unsigned_value(t) {
                    Some(n) if 0 < n <= u64::MAX => Ok(
                        Some(
                            if n < max_secs {
                                n as u64
                            } else {
                                max_secs
                            },
                        ),
                    ),
                    _ => Err(()),
                },
                None => Err(()),
            },
        }
    }
}

/// Resolves the time limit of a request from its `X-Request-Timeout-Seconds`
/// header and the server's limit (zero for none).
pub fn compute_effective_timeout(header: Option<&[u8]>, max_secs: u64) -> (r: Result<
    Option<Duration>,
    Reply,
>)
    ensures
        match r {
            Ok(None) => timeout_secs(opt_bytes(header), max_secs) == Ok::<Option<u64>, ()>(None),
            Ok(Some(d)) => timeout_secs(opt_bytes(header), max_secs) matches Ok(Some(secs))
                && duration_nanos(d) == secs as nat * 1_000_000_000,
            Err(reply) => timeout_secs(opt_bytes(header), max_secs) == Err::<Option<u64>, ()>(())
                && reply@ == bad_request_reply(
                "X-Request-Timeout-Seconds must be a positive integer"@,
            ),
        },
{
    if max_secs == 0 {
        return Ok(None);
    }
    if header.is_none() {
        return Ok(Some(Duration::from_secs(max_secs)));
    }
    match opt_header_text(header) {
        Some(t) => match parse_unsigned(t.as_str(), u64::MAX) {
            Some(n) if n > 0 => {
                let effective: u64 = if n < max_secs {
                    n
                } else {
                    max_secs
                };
                Ok(Some(Duration::from_secs(effective)))
            },
            _ => Err(bad_request("X-Request-Timeout-Seconds must be a positive integer")),
        },
        None => Err(bad_request("X-Request-Timeout-Seconds must be a positive integer")),
    }
}

/// The reply to a request that exceeded its time limit.
pub fn timeout_reply(secs: u64) -> (r: Reply)
    ensures
        r@ == error_reply(
            408,
            "timeout"@,
            "request exceeded "@ + decimal(secs as nat) + " second timeout"@,
        ),
{
    error_response(
        408,
        "timeout",
        join3("request exceeded ", u64_text(secs).as_str(), " second timeout").as_str(),
    )
}

/// A client can shorten the server's time limit but never lengthen it.
pub proof fn law_timeout_never_exceeds_server(header: Option<Seq<u8>>, max_secs: u64)
    requires
        max_secs > 0,
    ensures
        timeout_secs(header, max_secs) matches Ok(t) ==> t matches Some(secs) && 0 < secs
            <= max_secs,
{
}

/// Counting a failure raises the count of its category by one and leaves every other
/// count as it was; a fresh table counts nothing.
pub proof fn law_failures_are_counted_by_category(
    c: &mut ApiErrorCounters,
    cat: ApiErrorCategory,
    other: ApiErrorCategory,
    before: u64,
    after: u64,
    other_before: u64,
    other_after: u64,
)
    requires
        call_ensures(ApiErrorCounters::increment, (c, cat), ()),
        call_ensures(ApiErrorCounters::count, (&*old(c), cat), before),
        call_ensures(ApiErrorCounters::count, (&*final(c), cat), after),
        call_ensures(ApiErrorCounters::count, (&*old(c), other), other_before),
        call_ensures(ApiErrorCounters::count, (&*final(c), other), other_after),
        other != cat,
        before < u64::MAX,
    ensures
        after == before + 1,
        other_after == other_before,
{
    assert(old(c).spec_count(cat) == before);
    assert(final(c).spec_count(cat) == after);
    assert(old(c).spec_count(other) == other_before);
    assert(final(c).spec_count(other) == other_after);
}

/// The counts of all categories are listed, each once and with its own number.
pub proof fn law_all_counts_are_listed(c: ApiErrorCounters, r: Vec<(ApiErrorCategory, u64)>)
    requires
        call_ensures(ApiErrorCounters::all, (&c,), r),
    ensures
        r@ == seq![
            (ApiErrorCategory::BadRequest, c.bad_request),
            (ApiErrorCategory::ContextOverflow, c.context_overflow),
            (ApiErrorCategory::NotFound, c.not_found),
            (ApiErrorCategory::OomLoad, c.oom_load),
            (ApiErrorCategory::OomKvCache, c.oom_kv_cache),
            (ApiErrorCategory::OomMidStream, c.oom_mid_stream),
            (ApiErrorCategory::Timeout, c.timeout),
            (ApiErrorCategory::Upstream, c.upstream),
            (ApiErrorCategory::Internal, c.internal),
            (ApiErrorCategory::RateLimit, c.rate_limit),
            (ApiErrorCategory::AdmissionSla503, c.admission_sla_503),
        ],
{
    let all = seq![
        (ApiErrorCategory::BadRequest, c.bad_request),
        (ApiErrorCategory::ContextOverflow, c.context_overflow),
        (ApiErrorCategory::NotFound, c.not_found),
        (ApiErrorCategory::OomLoad, c.oom_load),
        (ApiErrorCategory::OomKvCache, c.oom_kv_cache),
        (ApiErrorCategory::OomMidStream, c.oom_mid_stream),
        (ApiErrorCategory::Timeout, c.timeout),
        (ApiErrorCategory::Upstream, c.upstream),
        (ApiErrorCategory::Internal, c.internal),
        (ApiErrorCategory::RateLimit, c.rate_limit),
        (ApiErrorCategory::AdmissionSla503, c.admission_sla_503),
    ];
    assert forall|i: int| 0 <= i < 11 implies r@[i] == all[i] by {
        assert(r@[i].1 == c.spec_count(r@[i].0));
    }
    assert(r@ =~= all);
}

/// Where the temperature and the nucleus come from is told: from the request, the
/// server, the model, or a fixed value, in this order.
pub proof fn law_sources_are_told(
    temperature: Option<F32>,
    top_p: Option<F32>,
    top_k: Option<u32>,
    min_p: Option<F32>,
    repetition_penalty: Option<F32>,
    frequency_penalty: Option<F32>,
    presence_penalty: Option<F32>,
    bias: Vec<(u32, F32)>,
    seed: Option<u64>,
    d: GenerationConfig,
    server: Option<F32>,
    r: (SamplingParams, SamplingSource, SamplingSource),
)
    requires
        call_ensures(
            resolve_sampling_params,
            (
                temperature,
                top_p,
                top_k,
                min_p,
                repetition_penalty,
                frequency_penalty,
                presence_penalty,
                bias,
                seed,
                Some(d),
                server,
            ),
            r,
        ),
    ensures
        temperature matches Some(v) ==> r.0.temperature == v && r.1 == SamplingSource::Request,
        temperature is None && server is Some ==> Some(r.0.temperature) == server && r.1
            == SamplingSource::ServerDefault,
        temperature is None && server is None && d.temperature is Some ==> Some(r.0.temperature)
            == d.temperature && r.1 == SamplingSource::ModelDefaults,
        temperature is None && server is None && d.temperature is None ==> r.0.temperature.bits
            == 0x3f80_0000 && r.1 == SamplingSource::HardCoded,
        top_p matches Some(v) ==> r.0.top_p == v && r.2 == SamplingSource::Request,
        top_p is None && d.top_p is Some ==> Some(r.0.top_p) == d.top_p && r.2
            == SamplingSource::ModelDefaults,
        top_p is None && d.top_p is None ==> r.0.top_p.bits == 0x3f80_0000 && r.2
            == SamplingSource::HardCoded,
        top_k matches Some(v) ==> r.0.top_k == v,
        min_p matches Some(v) ==> r.0.min_p == v,
        repetition_penalty matches Some(v) ==> r.0.repetition_penalty == v,
        frequency_penalty matches Some(v) ==> r.0.frequency_penalty == v,
        presence_penalty matches Some(v) ==> r.0.presence_penalty == v,
        r.0.logit_bias@ == bias@,
        r.0.seed == seed,
{
}

/// A client's own id is kept where it is printable, has no more than 128 characters and
/// no whitespace around it; without an id the server makes one up.
pub proof fn law_client_ids_are_kept(header: Option<&[u8]>, id: Seq<char>, r: String)
    requires
        call_ensures(resolve_request_id, (header,), r),
    ensures
        opt_header_text_of(opt_bytes(header)) == Some(id) && 0 < id.len() <= 128 && (forall|i: int|
            0 <= i < id.len() ==> ' ' < #[trigger] id[i] <= '~') ==> r@ == id,
        header is None ==> r@.len() == 36 && r@.subrange(0, 4) == "req-"@,
{
    if 0 < id.len() && (forall|i: int| 0 <= i < id.len() ==> ' ' < #[trigger] id[i] <= '~') {
        lemma_all_printable(id);
        crate::text::lemma_trim_plain(id);
    }
    if header is None {
        reveal_strlit("req-");
        assert("req-"@.len() == 4);
        let u = choose|u: Seq<char>| #[trigger] is_simple_uuid(u) && r@ == "req-"@ + u;
        assert(r@.subrange(0, 4) =~= "req-"@);
    }
}

proof fn lemma_all_printable(s: Seq<char>)
    requires
        forall|i: int| 0 <= i < s.len() ==> ' ' < #[trigger] s[i] <= '~',
    ensures
        s.filter(|c: char| is_printable(c)) == s,
    decreases s.len(),
{
    reveal(Seq::filter);
    if s.len() > 0 {
        let init = s.drop_last();
        assert forall|i: int| 0 <= i < init.len() implies ' ' < #[trigger] init[i] <= '~' by {
            assert(init[i] == s[i]);
        }
        lemma_all_printable(init);
        assert(s.last() == s[s.len() - 1]);
        assert(init.push(s.last()) =~= s);
    } else {
        assert(s.filter(|c: char| is_printable(c)) =~= s);
    }
}

/// An id of printable characters is taken as it is, and cut to its first 128 characters
/// when it is longer.
pub proof fn law_long_ids_are_cut(header: Option<&[u8]>, id: Seq<char>, r: Option<String>)
    requires
        call_ensures(sanitised_request_id, (header,), r),
        opt_header_text_of(opt_bytes(header)) == Some(id),
        forall|i: int| 0 <= i < id.len() ==> ' ' < #[trigger] id[i] <= '~',
        id.len() > 0,
    ensures
        id.len() <= 128 ==> (r matches Some(t) && t@ == id),
        id.len() > 128 ==> (r matches Some(t) && t@ == id.subrange(0, 128)),
{
    lemma_all_printable(id);
    let cut = first_chars(id, 128);
    assert(cut[0] == id[0]);
    assert(cut[cut.len() - 1] == id[cut.len() - 1]);
    crate::text::lemma_trim_plain(cut);
}

/// A time limit that is no number is refused.
pub proof fn law_other_time_limits_are_refused(
    header: &[u8],
    max_secs: u64,
    text: Seq<char>,
    r: Result<Option<Duration>, Reply>,
)
    requires
        call_ensures(compute_effective_timeout, (Some(header), max_secs), r),
        max_secs > 0,
        opt_header_text_of(Some(header@)) == Some(text),
        unsigned_value(text) is None,
    ensures
        r matches Err(reply) && reply.status == 400,
{
}

/// The sources of a parameter have their labels in log records.
pub proof fn law_sources_have_labels(source: SamplingSource, r: &'static str)
    requires
        call_ensures(SamplingSource::as_str, (source,), r),
    ensures
        source == SamplingSource::Request ==> r@ == "request"@,
        source == SamplingSource::ServerDefault ==> r@ == "server_default"@,
        source == SamplingSource::ModelDefaults ==> r@ == "model_defaults"@,
        source == SamplingSource::HardCoded ==> r@ == "hard_coded"@,
{
}

} // verus!
