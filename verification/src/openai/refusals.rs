//! How requests are refused, and why.
//!
//! Every refusal has a status, a type and a message that tell the client what was
//! wrong; the laws here say which inputs get which, and that all others pass.

use std::time::Duration;

use vstd::prelude::*;
use vstd::utf8::encode_utf8;

use crate::engine::admission::Admission;
use crate::engine::error::{EngineError, OomPhase};
use crate::engine::kv_quant::KvQuant;
use crate::engine::types::GenerationRequest;
use crate::float32::F32;
use crate::header::{opt_bytes, opt_header_text_of};
use crate::json::{get, get_str, get_str2, law_member_reads_back, member_count, JsonV};
use crate::keep_alive::duration_nanos;
use crate::openai::chat::{
    check_context, constraint_outcome, context_ceiling, model_not_found, model_not_ready,
    pipeline_failed, queue_full_reply, request_max_tokens, ConstraintPlan, PipelineFailure,
    SchemaFailure,
};
use crate::openai::errors::{
    bias_error, bias_problem, compute_effective_timeout, engine_error_category, engine_error_response, parse_logit_bias,
    timeout_reply, ApiErrorCategory, BiasEntry, ProcMem,
};
use crate::openai::flow::{
    accept_admission, accept_constraint, accept_context, accept_prediction, accept_prompt,
    accept_request, queue_depth, Accepted, MadePrompt, ModelFacts, Planned, Ready, Refusal,
    ServerSettings,
};
use crate::openai::reply::{
    bad_request, error_reply, error_response, internal_error, service_unavailable, Reply,
};
use crate::openai::request::{ChatCompletionsRequest, ChatMessage, MessageContent};
use crate::openai::validation::{
    audio_measures, message_measures, messages_bytes, messages_measures, parts_bytes, problem,
    request_measures, validate_delimiters, validate_request, Measure, MeasureV, ValidSampling,
};
use crate::session_cache::SessionCache;
use crate::text::{decimal, law_decimal_round_trip, lemma_views_push, opt_view, trim, views};

verus! {

// ── Replies ──────────────────────────────────────────────────────────────────

/// A reply without headers, of this status, whose body gives an error of this type
/// with this message.
pub open spec fn says(r: Reply, status: u16, kind: Seq<char>, message: Seq<char>) -> bool {
    &&& r.status == status
    &&& r.headers@.len() == 0
    &&& get_str2(r.body@, "error"@, "message"@) == Some(message)
    &&& get_str2(r.body@, "error"@, "type"@) == Some(kind)
    &&& member_count(r.body@) == 1
    &&& member_count(get(r.body@, "error"@)->0) == 2
}

/// An invalid request: 400, with this message.
pub open spec fn refuses(r: Reply, message: Seq<char>) -> bool {
    says(r, 400, "invalid_request_error"@, message)
}

proof fn lemma_says(r: Reply, status: u16, kind: Seq<char>, message: Seq<char>)
    requires
        r@ == error_reply(status, kind, message),
    ensures
        says(r, status, kind, message),
{
    broadcast use law_member_reads_back;

    reveal_strlit("error");
    reveal_strlit("message");
    reveal_strlit("type");
    assert("error"@.len() == 5);
    assert("message"@.len() == 7);
    assert("type"@.len() == 4);
    assert(views(r.headers@).len() == r.headers@.len());
    let inner = JsonV::object().with("message"@, JsonV::Str(message)).with("type"@, JsonV::Str(kind));
    assert(get(r@.body, "error"@) == Some(inner));
    assert(get(inner, "message"@) == Some(JsonV::Str(message)));
    assert(get(inner, "type"@) == Some(JsonV::Str(kind)));
}

/// An error reply says its type and message under its status; an invalid request is
/// 400, an unavailable model 503, an internal failure 500.
pub proof fn law_replies_say_what_is_wrong(
    status: u16,
    kind: &str,
    message: &str,
    any: Reply,
    bad: Reply,
    unavailable: Reply,
    internal: Reply,
)
    requires
        call_ensures(error_response, (status, kind, message), any),
        call_ensures(bad_request, (message,), bad),
        call_ensures(service_unavailable, (message,), unavailable),
        call_ensures(internal_error, (message,), internal),
    ensures
        says(any, status, kind@, message@),
        says(bad, 400, "invalid_request_error"@, message@),
        says(unavailable, 503, "service_unavailable"@, message@),
        says(internal, 500, "internal_error"@, message@),
{
    lemma_says(any, status, kind@, message@);
    lemma_says(bad, 400, "invalid_request_error"@, message@);
    lemma_says(unavailable, 503, "service_unavailable"@, message@);
    lemma_says(internal, 500, "internal_error"@, message@);
}

// ── The fields of a request ──────────────────────────────────────────────────

/// A number from zero to one, by its bits; a negative zero is zero.
pub open spec fn in_unit(x: F32) -> bool {
    x.bits <= 0x3f80_0000 || x.bits == 0x8000_0000
}

/// A number from zero to two.
pub open spec fn in_zero_two(x: F32) -> bool {
    x.bits <= 0x4000_0000 || x.bits == 0x8000_0000
}

/// A number from minus two to two.
pub open spec fn in_two(x: F32) -> bool {
    x.bits <= 0x4000_0000 || 0x8000_0000 <= x.bits <= 0xc000_0000
}

/// A number that is zero or less.
pub open spec fn not_positive(x: F32) -> bool {
    x.bits == 0 || 0x8000_0000 <= x.bits <= 0xff80_0000
}

/// How many rules the fields of a request are held against.
pub open spec fn rules() -> int {
    16
}

/// A request breaks the rule at this place in the order of the rules.
pub open spec fn breaks(req: ChatCompletionsRequest, kv: Option<String>, rule: int) -> bool {
    if rule == 0 {
        exists|i: int| 0 <= i < req.extra@.len() && (#[trigger] req.extra@[i])@ == "functions"@
    } else if rule == 1 {
        req.temperature matches Some(x) && !in_zero_two(x)
    } else if rule == 2 {
        req.top_p matches Some(x) && !in_unit(x)
    } else if rule == 3 {
        req.min_p matches Some(x) && !in_unit(x)
    } else if rule == 4 {
        req.repetition_penalty matches Some(x) && not_positive(x)
    } else if rule == 5 {
        req.frequency_penalty matches Some(x) && !in_two(x)
    } else if rule == 6 {
        req.presence_penalty matches Some(x) && !in_two(x)
    } else if rule == 7 {
        kv is Some
    } else if rule == 8 {
        req.max_ctx matches Some(n) && n <= 0
    } else if rule == 9 {
        req.image_max_tokens == Some(0u32)
    } else if rule == 10 {
        req.top_logprobs is Some && req.logprobs != Some(true)
    } else if rule == 11 {
        req.top_logprobs matches Some(n) && n > 20
    } else if rule == 12 {
        req.echo == Some(true)
    } else if rule == 13 {
        req.logit_bias matches Some(es) && bias_problem(es@) is Some
    } else if rule == 14 {
        req.max_tokens == Some(0u32)
    } else {
        req.messages@.len() == 0
    }
}

/// What a client is told that breaks a rule.
pub open spec fn told(req: ChatCompletionsRequest, kv: Option<String>, rule: int) -> Seq<char> {
    if rule == 0 {
        "field `functions` is not supported (Stage 2+); remove it from your request"@
    } else if rule == 1 {
        "temperature must be in [0.0, 2.0]"@
    } else if rule == 2 {
        "top_p must be in [0.0, 1.0]"@
    } else if rule == 3 {
        "min_p must be in [0.0, 1.0]"@
    } else if rule == 4 {
        "repetition_penalty must be > 0.0"@
    } else if rule == 5 {
        "frequency_penalty must be in [-2.0, 2.0]"@
    } else if rule == 6 {
        "presence_penalty must be in [-2.0, 2.0]"@
    } else if rule == 7 {
        "kv_quant: "@ + kv->0@
    } else if rule == 8 {
        "max_ctx must be > 0"@
    } else if rule == 9 {
        "image_max_tokens must be > 0"@
    } else if rule == 10 {
        "top_logprobs requires logprobs to be set to true"@
    } else if rule == 11 {
        "top_logprobs must be in [0, 20]"@
    } else if rule == 12 {
        "echo=true is not yet wired into the chat endpoint; use the `rmlx eval ppl` CLI subcommand for per-prompt-position logprobs; a future release will land the HTTP path."@
    } else if rule == 13 {
        bias_problem(req.logit_bias->0@)->0
    } else if rule == 14 {
        "max_tokens must be > 0"@
    } else {
        "messages must not be empty"@
    }
}

/// A request that breaks no rule passes, with its biases and the number of
/// alternatives that it asks for. One that breaks some is refused for the first of
/// them, and told which.
pub proof fn law_fields_are_held_against_the_rules(
    req: ChatCompletionsRequest,
    kv: Option<String>,
    rule: int,
    r: Result<ValidSampling, Reply>,
)
    requires
        call_ensures(validate_request, (&req, &kv), r),
        0 <= rule <= rules(),
        forall|k: int| 0 <= k < rule ==> !#[trigger] breaks(req, kv, k),
        rule < rules() ==> breaks(req, kv, rule),
    ensures
        rule < rules() ==> (r matches Err(reply) && refuses(reply, told(req, kv, rule))),
        rule == rules() ==> (r matches Ok(v) && v.top_logprobs_k == if req.logprobs
            == Some(true) {
            match req.top_logprobs {
                Some(n) if n > 0 => n,
                _ => 1u32,
            }
        } else {
            0
        }),
{
    assert(0 < rule ==> !breaks(req, kv, 0));
    assert(1 < rule ==> !breaks(req, kv, 1));
    assert(2 < rule ==> !breaks(req, kv, 2));
    assert(3 < rule ==> !breaks(req, kv, 3));
    assert(4 < rule ==> !breaks(req, kv, 4));
    assert(5 < rule ==> !breaks(req, kv, 5));
    assert(6 < rule ==> !breaks(req, kv, 6));
    assert(7 < rule ==> !breaks(req, kv, 7));
    assert(8 < rule ==> !breaks(req, kv, 8));
    assert(9 < rule ==> !breaks(req, kv, 9));
    assert(10 < rule ==> !breaks(req, kv, 10));
    assert(11 < rule ==> !breaks(req, kv, 11));
    assert(12 < rule ==> !breaks(req, kv, 12));
    assert(13 < rule ==> !breaks(req, kv, 13));
    assert(14 < rule ==> !breaks(req, kv, 14));
    assert(15 < rule ==> !breaks(req, kv, 15));
    match r {
        Err(reply) => {
            lemma_says(reply, 400, "invalid_request_error"@, problem(req, opt_view(kv))->0);
        },
        Ok(_) => {},
    }
}

/// A number that is neither infinite nor no number, by its bits.
pub open spec fn is_plain(x: F32) -> bool {
    x.bits < 0x7f80_0000 || 0x8000_0000 <= x.bits < 0xff80_0000
}

/// Biases whose keys are token ids in decimal and whose values are plain numbers are
/// read in order, each under its id. A bias that is infinite or no number is refused,
/// with the first such key and its value; so the biases that pass are plain.
pub proof fn law_biases_are_read(
    raw: Option<Vec<BiasEntry>>,
    ids: Seq<u32>,
    i: int,
    r: Result<Vec<(u32, F32)>, String>,
)
    requires
        call_ensures(parse_logit_bias, (&raw,), r),
        raw is Some,
        ids.len() == raw->0@.len(),
        forall|k: int|
            0 <= k < ids.len() ==> (#[trigger] raw->0@[k]).key@ == decimal(ids[k] as nat),
        0 <= i < ids.len(),
    ensures
        ({
            let es = raw->0@;
            &&& (forall|k: int| 0 <= k < es.len() ==> is_plain((#[trigger] es[k]).bias)) ==> (
            r matches Ok(v) && v@.len() == es.len() && v@[i] == (ids[i], es[i].bias))
            &&& !is_plain(es[i].bias) && (forall|k: int|
                0 <= k < i ==> is_plain((#[trigger] es[k]).bias)) ==> (r matches Err(m) && m@
                == "logit_bias["@ + es[i].key@ + "] = "@ + (if es[i].bias.bits == 0x7f80_0000 {
                "inf"@
            } else if es[i].bias.bits == 0xff80_0000 {
                "-inf"@
            } else {
                "NaN"@
            }) + " is not finite"@)
        }),
{
    let es = raw->0@;
    assert forall|k: int| 0 <= k < es.len() && is_plain((#[trigger] es[k]).bias) implies bias_error(
        es[k].key@,
        es[k].bias,
    ) is None by {
        law_decimal_round_trip(ids[k] as nat);
    }
    assert(es[i].key@ == decimal(ids[i] as nat));
    law_decimal_round_trip(ids[i] as nat);
    if forall|k: int| 0 <= k < es.len() ==> is_plain((#[trigger] es[k]).bias) {
        lemma_no_bias_problem(es);
    } else if forall|k: int| 0 <= k < i ==> is_plain((#[trigger] es[k]).bias) {
        lemma_first_bias(es, i);
    }
}

proof fn lemma_no_bias_problem(es: Seq<BiasEntry>)
    requires
        forall|k: int| 0 <= k < es.len() ==> bias_error((#[trigger] es[k]).key@, es[k].bias) is None,
    ensures
        bias_problem(es) is None,
    decreases es.len(),
{
    if es.len() > 0 {
        let rest = es.subrange(1, es.len() as int);
        assert forall|k: int| 0 <= k < rest.len() implies bias_error(
            (#[trigger] rest[k]).key@,
            rest[k].bias,
        ) is None by {
            assert(rest[k] == es[k + 1]);
        }
        lemma_no_bias_problem(rest);
        assert(bias_error(es[0].key@, es[0].bias) is None);
    }
}

proof fn lemma_first_bias(es: Seq<BiasEntry>, i: int)
    requires
        0 <= i < es.len(),
        forall|k: int| 0 <= k < i ==> bias_error((#[trigger] es[k]).key@, es[k].bias) is None,
    ensures
        bias_error(es[i].key@, es[i].bias) is Some ==> bias_problem(es) == bias_error(
            es[i].key@,
            es[i].bias,
        ),
    decreases es.len(),
{
    if i > 0 {
        let rest = es.subrange(1, es.len() as int);
        assert(bias_error(es[0].key@, es[0].bias) is None);
        assert forall|k: int| 0 <= k < i - 1 implies bias_error(
            (#[trigger] rest[k]).key@,
            rest[k].bias,
        ) is None by {
            assert(rest[k] == es[k + 1]);
        }
        lemma_first_bias(rest, i - 1);
        assert(rest[i - 1] == es[i]);
    }
}

/// A thinking delimiter that is given must hold more than whitespace; the message
/// names the one that does not, the opening one first.
pub proof fn law_blank_delimiters_are_refused(
    start: Option<String>,
    end: Option<String>,
    r: Result<(), Reply>,
)
    requires
        call_ensures(validate_delimiters, (&start, &end), r),
    ensures
        ({
            let first = start matches Some(d) && trim(d@).len() == 0;
            let second = end matches Some(d) && trim(d@).len() == 0;
            &&& r is Err == (first || second)
            &&& first ==> refuses(
                r->Err_0,
                "`"@ + "thinking_start_token"@
                    + "` must be a non-empty, non-whitespace delimiter string"@,
            )
            &&& !first && second ==> refuses(
                r->Err_0,
                "`"@ + "thinking_end_token"@
                    + "` must be a non-empty, non-whitespace delimiter string"@,
            )
        }),
{
    match r {
        Err(reply) => {
            let first = start matches Some(d) && trim(d@).len() == 0;
            lemma_says(
                reply,
                400,
                "invalid_request_error"@,
                "`"@ + if first {
                    "thinking_start_token"@
                } else {
                    "thinking_end_token"@
                } + "` must be a non-empty, non-whitespace delimiter string"@,
            );
        },
        Ok(_) => {},
    }
}


// ── The way of a request ─────────────────────────────────────────────────────

/// A refusal that says this and is counted under this category.
pub open spec fn is_counted(
    f: Refusal,
    status: u16,
    kind: Seq<char>,
    message: Seq<char>,
    category: ApiErrorCategory,
) -> bool {
    says(f.reply, status, kind, message) && f.category == Some(category)
}

/// A request that breaks no rule, keeps within the bounds and has no blank delimiter
/// goes on if its model is registered and ready. A model that is not registered is 404,
/// one without a template or a tokenizer 503; what the bounds say is handed on as it
/// is. A request that breaks a rule never goes on.
pub proof fn law_request_goes_on_if_its_model_is_ready(
    req: ChatCompletionsRequest,
    kv: Result<Option<KvQuant>, String>,
    over_bounds: Option<Reply>,
    settings: ServerSettings,
    model: Option<ModelFacts>,
    checked: Result<ValidSampling, Reply>,
    delimiters: Result<(), Reply>,
    r: Result<Accepted, Refusal>,
)
    requires
        call_ensures(accept_request, (&req, kv, over_bounds, &settings, model), r),
        call_ensures(
            validate_request,
            (
                &req,
                &(match kv {
                    Ok(_) => None,
                    Err(e) => Some(e),
                }),
            ),
            checked,
        ),
        call_ensures(
            validate_delimiters,
            (&req.thinking_start_token, &req.thinking_end_token),
            delimiters,
        ),
    ensures
        checked matches Err(reply) ==> (r matches Err(f) && f.reply@ == reply@ && f.category
            == Some(ApiErrorCategory::BadRequest)),
        checked is Ok && over_bounds is Some ==> (r matches Err(f) && f.reply@ == over_bounds->0@
            && f.category == Some(ApiErrorCategory::BadRequest)),
        checked is Ok && over_bounds is None && delimiters is Err ==> (r matches Err(f)
            && f.reply@ == delimiters->Err_0@ && f.category == Some(ApiErrorCategory::BadRequest)),
        checked is Ok && over_bounds is None && delimiters is Ok ==> match model {
            None => r matches Err(f) && is_counted(
                f,
                404,
                "not_found_error"@,
                "model '"@ + req.model@ + "' not found in registry"@,
                ApiErrorCategory::NotFound,
            ),
            Some(m) => if m.has_template && m.has_tokenizer {
                r matches Ok(a) && a.kv_quant == kv->Ok_0
            } else {
                r matches Err(f) && is_counted(
                    f,
                    503,
                    "service_unavailable"@,
                    "model '"@ + req.model@
                        + "' is not ready (missing chat_template.jinja or tokenizer.json)"@,
                    ApiErrorCategory::Upstream,
                )
            },
        },
{
    match r {
        Err(f) => {
            match model {
                None => {
                    if checked is Ok && over_bounds is None && delimiters is Ok {
                        lemma_says(
                            f.reply,
                            404,
                            "not_found_error"@,
                            "model '"@ + req.model@ + "' not found in registry"@,
                        );
                    }
                },
                Some(_) => {
                    if checked is Ok && over_bounds is None && delimiters is Ok {
                        lemma_says(
                            f.reply,
                            503,
                            "service_unavailable"@,
                            "model '"@ + req.model@
                                + "' is not ready (missing chat_template.jinja or tokenizer.json)"@,
                        );
                    }
                },
            }
        },
        Ok(_) => {},
    }
}

/// A request whose prompt could not be made is refused with what went wrong: 503 when
/// rendering or encoding failed, 500 when the work broke down. One that asks for more
/// tokens than the server allows is 400. A refused request leaves no session behind.
pub proof fn law_prompt_failures_are_told(
    req: ChatCompletionsRequest,
    accepted: Accepted,
    prompt: Result<MadePrompt, PipelineFailure>,
    settings: ServerSettings,
    model: ModelFacts,
    sessions: &mut SessionCache,
    session_id: Option<String>,
    end_token_id: Option<u32>,
    r: Result<Planned, Refusal>,
)
    requires
        call_ensures(
            accept_prompt,
            (&req, accepted, prompt, &settings, &model, sessions, session_id, end_token_id),
            r,
        ),
    ensures
        r is Err ==> final(sessions)@ == old(sessions)@,
        session_id is None ==> final(sessions)@ == old(sessions)@,
        ({
            let wanted: u32 = match req.max_tokens {
                Some(n) => n,
                None => 512,
            };
            match prompt {
                Err(PipelineFailure::Render(e)) => r matches Err(f) && is_counted(
                    f,
                    503,
                    "service_unavailable"@,
                    "chat template render failed: "@ + e@,
                    ApiErrorCategory::Upstream,
                ),
                Err(PipelineFailure::Encode(e)) => r matches Err(f) && is_counted(
                    f,
                    503,
                    "service_unavailable"@,
                    "tokenizer encode failed: "@ + e@,
                    ApiErrorCategory::Upstream,
                ),
                Err(PipelineFailure::Panicked) => r matches Err(f) && is_counted(
                    f,
                    500,
                    "internal_error"@,
                    "prompt pipeline task panicked"@,
                    ApiErrorCategory::Internal,
                ),
                Ok(_) => if wanted > settings.max_tokens_cap {
                    r matches Err(f) && is_counted(
                        f,
                        400,
                        "invalid_request_error"@,
                        "max_tokens "@ + decimal(wanted as nat) + " exceeds server cap "@ + decimal(
                            settings.max_tokens_cap as nat,
                        ),
                        ApiErrorCategory::BadRequest,
                    )
                } else {
                    r is Ok
                },
            }
        }),
{
    let wanted: u32 = match req.max_tokens {
        Some(n) => n,
        None => 512,
    };
    match r {
        Err(f) => match prompt {
            Err(PipelineFailure::Render(e)) => {
                lemma_says(
                    f.reply,
                    503,
                    "service_unavailable"@,
                    "chat template render failed: "@ + e@,
                );
            },
            Err(PipelineFailure::Encode(e)) => {
                lemma_says(f.reply, 503, "service_unavailable"@, "tokenizer encode failed: "@ + e@);
            },
            Err(PipelineFailure::Panicked) => {
                lemma_says(f.reply, 500, "internal_error"@, "prompt pipeline task panicked"@);
            },
            Ok(_) => {
                lemma_says(
                    f.reply,
                    400,
                    "invalid_request_error"@,
                    "max_tokens "@ + decimal(wanted as nat) + " exceeds server cap "@ + decimal(
                        settings.max_tokens_cap as nat,
                    ),
                );
            },
        },
        Ok(_) => {},
    }
}

/// A schema of the request's own that cannot be enforced is refused with 400 and with
/// what is wrong; a keyword that cannot be enforced has a type of its own. Such a
/// refusal is not counted. Nothing else is refused here.
pub proof fn law_schema_failures_are_told(
    req: ChatCompletionsRequest,
    plan: Planned,
    failure: Option<SchemaFailure>,
    r: Result<Ready, Refusal>,
)
    requires
        call_ensures(accept_constraint, (&req, plan, failure), r),
    ensures
        r is Err == (plan.constraint is Schema && failure is Some),
        r matches Err(f) ==> f.category is None && if failure->0.unsupported_keyword {
            says(
                f.reply,
                400,
                "unsupported_schema_keyword"@,
                "response_format.json_schema.schema uses a keyword rMLX cannot enforce in strict mode: "@
                    + failure->0.message@,
            )
        } else {
            says(
                f.reply,
                400,
                "invalid_request_error"@,
                "response_format.json_schema.schema is not a valid JSON Schema: "@
                    + failure->0.message@,
            )
        },
{
    match r {
        Err(f) => {
            if failure->0.unsupported_keyword {
                lemma_says(
                    f.reply,
                    400,
                    "unsupported_schema_keyword"@,
                    "response_format.json_schema.schema uses a keyword rMLX cannot enforce in strict mode: "@
                        + failure->0.message@,
                );
            } else {
                lemma_says(
                    f.reply,
                    400,
                    "invalid_request_error"@,
                    "response_format.json_schema.schema is not a valid JSON Schema: "@
                        + failure->0.message@,
                );
            }
        },
        Ok(_) => {},
    }
}

/// A request goes to its model when that was loaded and the prompt fits the context:
/// the one that the request asks for, as far as the model's limits allow it, else the
/// generator's. A model that was not loaded is 503; a context that is refused and a
/// prompt that does not fit are 400.
pub proof fn law_prompt_must_fit_the_context(
    req: GenerationRequest,
    load_error: Option<String>,
    resolved: Option<Result<usize, String>>,
    generator_ceiling: usize,
    r: Result<(), Refusal>,
)
    requires
        call_ensures(accept_context, (&req, &load_error, resolved, generator_ceiling), r),
        req.max_ctx_override matches Some(n) ==> n > 0,
    ensures
        load_error matches Some(e) ==> (r matches Err(f) && is_counted(
            f,
            503,
            "service_unavailable"@,
            e@,
            ApiErrorCategory::Upstream,
        )),
        load_error is None ==> match (req.max_ctx_override, resolved) {
            (Some(_), Some(Err(e))) => r matches Err(f) && is_counted(
                f,
                400,
                "context_length_exceeded"@,
                e@,
                ApiErrorCategory::ContextOverflow,
            ),
            _ => {
                let ceiling: int = match (req.max_ctx_override, resolved) {
                    (None, _) => generator_ceiling as int,
                    (Some(_), Some(Ok(limit))) => limit as int,
                    (Some(n), _) => n as int,
                };
                if req.prompt_tokens@.len() <= ceiling {
                    r is Ok
                } else {
                    r matches Err(f) && is_counted(
                        f,
                        400,
                        "context_length_exceeded"@,
                        "prompt has "@ + decimal(req.prompt_tokens@.len())
                            + " tokens, max_ctx is "@ + decimal(ceiling as nat),
                        ApiErrorCategory::ContextOverflow,
                    )
                }
            },
        },
{
    match r {
        Err(f) => match load_error {
            Some(e) => {
                lemma_says(f.reply, 503, "service_unavailable"@, e@);
            },
            None => match (req.max_ctx_override, resolved) {
                (Some(_), Some(Err(e))) => {
                    lemma_says(f.reply, 400, "context_length_exceeded"@, e@);
                },
                _ => {
                    let ceiling: int = match (req.max_ctx_override, resolved) {
                        (None, _) => generator_ceiling as int,
                        (Some(_), Some(Ok(limit))) => limit as int,
                        (Some(n), _) => n as int,
                    };
                    lemma_says(
                        f.reply,
                        400,
                        "context_length_exceeded"@,
                        "prompt has "@ + decimal(req.prompt_tokens@.len())
                            + " tokens, max_ctx is "@ + decimal(ceiling as nat),
                    );
                },
            },
        },
        Ok(_) => {},
    }
}

/// A request that would wait too long is refused with 503 and told to retry in five
/// seconds; one that finds the queue full is 429; an admitted one learns its depth and
/// its waiting time. The depth of the queue is the controller's, where there is one.
pub proof fn law_admission_is_decided(
    too_slow: bool,
    predicted: Result<(), Refusal>,
    admission: Admission,
    admitted: Result<(u64, u64), Refusal>,
    controller: Option<usize>,
    configured: usize,
    depth: usize,
)
    requires
        call_ensures(accept_prediction, (too_slow,), predicted),
        call_ensures(accept_admission, (admission,), admitted),
        call_ensures(queue_depth, (controller, configured), depth),
    ensures
        predicted is Err == too_slow,
        predicted matches Err(f) ==> f.reply.status == 503 && f.category == Some(
            ApiErrorCategory::AdmissionSla503,
        ) && f.reply.headers@.len() == 1 && f.reply.headers@[0].name@ == "Retry-After"@
            && f.reply.headers@[0].value@ == "5"@ && get_str2(f.reply.body@, "error"@, "type"@)
            == Some("admission_sla_exceeded"@),
        match admission {
            Admission::Admitted { depth: d, wait_ms } => admitted matches Ok(p) && p.0 == d && p.1
                == wait_ms,
            Admission::QueueFull => admitted matches Err(f) && is_counted(
                f,
                429,
                "rate_limit_error"@,
                "server queue full"@,
                ApiErrorCategory::RateLimit,
            ),
        },
        controller matches Some(d) ==> depth == d,
        controller is None ==> depth == configured,
{
    broadcast use law_member_reads_back;

    reveal_strlit("error");
    reveal_strlit("message");
    reveal_strlit("type");
    assert("error"@.len() == 5);
    assert("message"@.len() == 7);
    assert("type"@.len() == 4);
    match predicted {
        Err(f) => {
            assert(views(f.reply.headers@).len() == f.reply.headers@.len());
            assert(views(f.reply.headers@)[0] == f.reply.headers@[0]@);
            let inner = get(f.reply.body@, "error"@)->0;
            assert(get(f.reply.body@, "error"@) is Some);
            assert(get(inner, "type"@) is Some);
        },
        Ok(_) => {},
    }
    match admitted {
        Err(f) => {
            lemma_says(f.reply, 429, "rate_limit_error"@, "server queue full"@);
        },
        Ok(_) => {},
    }
}

// ── Failures of the engine ───────────────────────────────────────────────────

/// A value is this unsigned integer, or null where it is not known.
pub open spec fn is_number_or_null(v: Option<JsonV>, n: Option<u64>) -> bool {
    v == Some(
        match n {
            Some(k) => JsonV::Number(decimal(k as nat)),
            None => JsonV::Null,
        },
    )
}

/// Memory that ran out is reported with the phase, the message and the readings, each
/// under its own name, in whole mebibytes where the name says so. While loading it is
/// 507 with a time to retry, during generation 503 without one. Invalid logits are an
/// internal failure, 500; every other failure is 503 with its own text. Each is counted
/// under its category.
#[verifier::spinoff_prover]
#[verifier::rlimit(60)]
pub proof fn law_engine_failures_are_reported(
    e: EngineError,
    display: &str,
    mem: Option<ProcMem>,
    category: ApiErrorCategory,
    r: Reply,
)
    requires
        call_ensures(engine_error_response, (&e, display, mem), r),
        call_ensures(engine_error_category, (&e,), category),
    ensures
        match e {
            EngineError::SmokeProbe(m) => says(
                r,
                500,
                "internal_error"@,
                "NaN logits during generation: "@ + m@,
            ) && category == ApiErrorCategory::Internal,
            EngineError::Oom { phase, requested_bytes, peak_alloc_mb, msg } => {
                let body = get(r.body@, "error"@);
                &&& body is Some
                &&& member_count(r.body@) == 1
                &&& member_count(body->0) == 7
                &&& get(body->0, "message"@) == Some(JsonV::Str(msg@))
                &&& get(body->0, "type"@) == Some(
                    JsonV::Str(
                        match phase {
                            OomPhase::LoadWeights => "oom_during_load"@,
                            OomPhase::LoadKvCache => "oom_kv_cache"@,
                            OomPhase::Generation => "oom_mid_stream"@,
                        },
                    ),
                )
                &&& category == match phase {
                    OomPhase::LoadWeights => ApiErrorCategory::OomLoad,
                    OomPhase::LoadKvCache => ApiErrorCategory::OomKvCache,
                    OomPhase::Generation => ApiErrorCategory::OomMidStream,
                }
                &&& is_number_or_null(get(body->0, "peak_alloc_mb"@), peak_alloc_mb)
                &&& is_number_or_null(get(body->0, "requested_bytes"@), requested_bytes)
                &&& is_number_or_null(
                    get(body->0, "process_rss_mb"@),
                    match mem {
                        Some(m) => Some((m.rss_bytes / 1048576) as u64),
                        None => None,
                    },
                )
                &&& is_number_or_null(
                    get(body->0, "phys_footprint_mb"@),
                    match mem {
                        Some(m) => Some((m.phys_footprint_bytes / 1048576) as u64),
                        None => None,
                    },
                )
                &&& is_number_or_null(
                    get(body->0, "compressed_mb"@),
                    match mem {
                        Some(m) => Some((m.compressed_bytes / 1048576) as u64),
                        None => None,
                    },
                )
                &&& phase == OomPhase::Generation ==> r.status == 503 && r.headers@.len() == 0
                &&& phase != OomPhase::Generation ==> r.status == 507 && r.headers@.len() == 1
                    && r.headers@[0].name@ == "Retry-After"@ && r.headers@[0].value@ == "5"@
            },
            _ => says(r, 503, "service_unavailable"@, display@) && category
                == ApiErrorCategory::Upstream,
        },
{
    broadcast use law_member_reads_back;

    reveal_strlit("error");
    reveal_strlit("type");
    reveal_strlit("message");
    reveal_strlit("peak_alloc_mb");
    reveal_strlit("requested_bytes");
    reveal_strlit("process_rss_mb");
    reveal_strlit("phys_footprint_mb");
    reveal_strlit("compressed_mb");
    assert("error"@.len() == 5);
    assert("type"@.len() == 4);
    assert("message"@.len() == 7);
    assert("peak_alloc_mb"@.len() == 13);
    assert("requested_bytes"@.len() == 15);
    assert("process_rss_mb"@.len() == 14);
    assert("phys_footprint_mb"@.len() == 17);
    assert("compressed_mb"@.len() == 13);
    assert("peak_alloc_mb"@[0] != "compressed_mb"@[0]);
    assert(views(r.headers@).len() == r.headers@.len());
    match e {
        EngineError::SmokeProbe(m) => {
            lemma_says(r, 500, "internal_error"@, "NaN logits during generation: "@ + m@);
        },
        EngineError::Oom { phase, requested_bytes, peak_alloc_mb, msg } => {
            if phase != OomPhase::Generation {
                assert(views(r.headers@)[0] == r.headers@[0]@);
            }
        },
        _ => {
            lemma_says(r, 503, "service_unavailable"@, display@);
        },
    }
}

// ── Time limits ──────────────────────────────────────────────────────────────

/// A request without a time limit of its own has the server's; one with a limit has
/// the shorter of the two; a server without a limit sets none. A limit of zero seconds
/// is refused.
pub proof fn law_time_limit_is_the_shorter(
    header: Option<&[u8]>,
    secs: u64,
    max_secs: u64,
    r: Result<Option<Duration>, Reply>,
)
    requires
        call_ensures(compute_effective_timeout, (header, max_secs), r),
    ensures
        max_secs == 0 ==> r == Ok::<Option<Duration>, Reply>(None),
        max_secs > 0 && header is None ==> (r matches Ok(Some(d)) && duration_nanos(d) == max_secs
            as nat * 1_000_000_000),
        max_secs > 0 && header is Some && opt_header_text_of(opt_bytes(header)) == Some(
            decimal(secs as nat),
        ) ==> {
            &&& secs == 0 ==> (r matches Err(reply) && refuses(
                reply,
                "X-Request-Timeout-Seconds must be a positive integer"@,
            ))
            &&& secs > 0 ==> (r matches Ok(Some(d)) && duration_nanos(d) == (if secs < max_secs {
                secs
            } else {
                max_secs
            }) as nat * 1_000_000_000)
        },
{
    law_decimal_round_trip(secs as nat);
    match r {
        Err(reply) => {
            lemma_says(
                reply,
                400,
                "invalid_request_error"@,
                "X-Request-Timeout-Seconds must be a positive integer"@,
            );
        },
        Ok(_) => {},
    }
}

/// A request that exceeded its time limit is told the limit, under 408.
pub proof fn law_timeout_tells_the_limit(secs: u64, r: Reply)
    requires
        call_ensures(timeout_reply, (secs,), r),
    ensures
        says(
            r,
            408,
            "timeout"@,
            "request exceeded "@ + decimal(secs as nat) + " second timeout"@,
        ),
{
    lemma_says(
        r,
        408,
        "timeout"@,
        "request exceeded "@ + decimal(secs as nat) + " second timeout"@,
    );
}

// ── Bounds on the input ──────────────────────────────────────────────────────

/// What a message is measured by stands behind what the messages before it are
/// measured by: its tool calls, if it has some, then its parts and the audio among
/// them. The text of a message counts by its bytes in UTF-8.
pub proof fn law_messages_are_measured_in_order(ms: Seq<ChatMessage>, m: ChatMessage)
    ensures
        messages_measures(Seq::empty()).len() == 0,
        messages_bytes(Seq::empty()) == 0,
        ({
            let all = views(ms.push(m));
            let at = ms.len();
            let calls = match m.tool_calls {
                Some(cs) => seq![MeasureV::ToolCalls(cs@.len(), at)],
                None => Seq::empty(),
            };
            let parts = match m.content {
                Some(MessageContent::Parts(ps)) => seq![MeasureV::ContentParts(ps@.len(), at)]
                    + audio_measures(views(ps@)),
                _ => Seq::empty(),
            };
            &&& messages_measures(all) == messages_measures(views(ms)) + calls + parts
            &&& messages_bytes(all) == messages_bytes(views(ms)) + match m.content {
                Some(MessageContent::Text(t)) => encode_utf8(t@).len(),
                Some(MessageContent::Parts(ps)) => parts_bytes(views(ps@)),
                None => 0,
            }
        }),
{
    lemma_views_push(ms, m);
    let all = views(ms).push(m@);
    assert(all.drop_last() =~= views(ms));
    assert(all.last() == m@);
    assert(views(ms).len() == ms.len());
    match m.tool_calls {
        Some(cs) => {
            assert(views(cs@).len() == cs@.len());
        },
        None => {},
    }
    match m.content {
        Some(MessageContent::Parts(ps)) => {
            assert(views(ps@).len() == ps@.len());
        },
        _ => {},
    }
    let calls = match m.tool_calls {
        Some(cs) => seq![MeasureV::ToolCalls(cs@.len(), ms.len())],
        None => Seq::empty(),
    };
    let parts = match m.content {
        Some(MessageContent::Parts(ps)) => seq![MeasureV::ContentParts(ps@.len(), ms.len())]
            + audio_measures(views(ps@)),
        _ => Seq::empty(),
    };
    assert(message_measures(m@, ms.len()) =~= calls + parts);
    assert(messages_measures(all) =~= messages_measures(views(ms)) + calls + parts);
}

/// An audio part counts by three bytes for four characters of its data, at its place
/// among the parts; a text part adds the bytes of its text; other parts add neither.
pub proof fn law_parts_are_measured(ps: Seq<JsonV>, p: JsonV)
    ensures
        audio_measures(Seq::empty()).len() == 0,
        parts_bytes(Seq::empty()) == 0,
        ({
            let kind = get_str(p, "type"@);
            let audio = if kind == Some("input_audio"@) {
                get_str2(p, "input_audio"@, "data"@)
            } else {
                None
            };
            let text = if kind == Some("text"@) {
                get_str(p, "text"@)
            } else {
                None
            };
            &&& audio_measures(ps.push(p)) == match audio {
                Some(d) => audio_measures(ps).push(
                    MeasureV::InputAudioBytes((encode_utf8(d).len() * 3 / 4) as nat, ps.len()),
                ),
                None => audio_measures(ps),
            }
            &&& parts_bytes(ps.push(p)) == parts_bytes(ps) + match text {
                Some(t) => encode_utf8(t).len(),
                None => 0,
            }
        }),
{
    reveal_strlit("input_audio");
    reveal_strlit("text");
    assert(ps.push(p).drop_last() =~= ps);
    assert(ps.push(p).last() == p);
}

/// A request is measured by its messages, its tools where it has some, what each
/// message is measured by, and at last all its text, as far as that can be counted.
pub proof fn law_request_is_measured(
    messages: Vec<ChatMessage>,
    tools: Option<usize>,
    r: Vec<Measure>,
)
    requires
        call_ensures(request_measures, (&messages, tools), r),
        messages_bytes(views(messages@)) <= usize::MAX,
    ensures
        ({
            let n = if tools is Some {
                2int
            } else {
                1int
            };
            let inner = messages_measures(views(messages@));
            &&& r@.len() == n + inner.len() + 1
            &&& r@[0] == Measure::Messages(messages@.len() as usize)
            &&& tools matches Some(k) ==> r@[1] == Measure::Tools(k)
            &&& forall|i: int| 0 <= i < inner.len() ==> (#[trigger] r@[n + i])@ == inner[i]
            &&& r@[n + inner.len()] == Measure::TextBytes(
                messages_bytes(views(messages@)) as usize,
            )
        }),
{
    let n = if tools is Some {
        2int
    } else {
        1int
    };
    let inner = messages_measures(views(messages@));
    assert(views(r@).len() == r@.len());
    assert(views(messages@).len() == messages@.len());
    assert forall|i: int| 0 <= i < r@.len() implies views(r@)[i] == (#[trigger] r@[i])@ by {}
    assert(views(r@)[0] == MeasureV::Messages(messages@.len()));
    assert(views(r@)[n + inner.len()] == MeasureV::TextBytes(messages_bytes(views(messages@))));
    assert(r@[n + inner.len()]@ == MeasureV::TextBytes(messages_bytes(views(messages@))));
    assert(r@[0]@ == MeasureV::Messages(messages@.len()));
    assert forall|i: int| 0 <= i < inner.len() implies (#[trigger] r@[n + i])@ == inner[i] by {
        assert(views(r@)[n + i] == inner[i]);
    }
}

// ── Replies of the chat endpoint ─────────────────────────────────────────────

/// What the chat endpoint answers when it cannot serve: the model is not registered or
/// not ready, its prompt could not be made, the queue is full.
pub proof fn law_chat_refusals_say_why(
    model: &str,
    missing: Reply,
    unready: Reply,
    failure: PipelineFailure,
    failed: Reply,
    full: Reply,
)
    requires
        call_ensures(model_not_found, (model,), missing),
        call_ensures(model_not_ready, (model,), unready),
        call_ensures(pipeline_failed, (&failure,), failed),
        call_ensures(queue_full_reply, (), full),
    ensures
        says(
            missing,
            404,
            "not_found_error"@,
            "model '"@ + model@ + "' not found in registry"@,
        ),
        says(
            unready,
            503,
            "service_unavailable"@,
            "model '"@ + model@
                + "' is not ready (missing chat_template.jinja or tokenizer.json)"@,
        ),
        match failure {
            PipelineFailure::Render(e) => says(
                failed,
                503,
                "service_unavailable"@,
                "chat template render failed: "@ + e@,
            ),
            PipelineFailure::Encode(e) => says(
                failed,
                503,
                "service_unavailable"@,
                "tokenizer encode failed: "@ + e@,
            ),
            PipelineFailure::Panicked => says(
                failed,
                500,
                "internal_error"@,
                "prompt pipeline task panicked"@,
            ),
        },
        says(full, 429, "rate_limit_error"@, "server queue full"@),
{
    lemma_says(
        missing,
        404,
        "not_found_error"@,
        "model '"@ + model@ + "' not found in registry"@,
    );
    lemma_says(
        unready,
        503,
        "service_unavailable"@,
        "model '"@ + model@ + "' is not ready (missing chat_template.jinja or tokenizer.json)"@,
    );
    match failure {
        PipelineFailure::Render(e) => {
            lemma_says(failed, 503, "service_unavailable"@, "chat template render failed: "@ + e@);
        },
        PipelineFailure::Encode(e) => {
            lemma_says(failed, 503, "service_unavailable"@, "tokenizer encode failed: "@ + e@);
        },
        PipelineFailure::Panicked => {
            lemma_says(failed, 500, "internal_error"@, "prompt pipeline task panicked"@);
        },
    }
    lemma_says(full, 429, "rate_limit_error"@, "server queue full"@);
}

/// A request asks for its own number of tokens, else for 512, and is refused beyond the
/// server's cap. Its context is the one that it asks for, as the model's limits make of
/// it, else the generator's; a prompt must not be longer.
pub proof fn law_token_limits_are_kept(
    requested: Option<u32>,
    cap: u32,
    tokens: Result<u32, Reply>,
    max_ctx: Option<i32>,
    resolved: Option<Result<usize, String>>,
    generator: usize,
    ceiling: Result<usize, Reply>,
    prompt_len: usize,
    limit: usize,
    fits: Result<(), Reply>,
)
    requires
        call_ensures(request_max_tokens, (requested, cap), tokens),
        call_ensures(context_ceiling, (max_ctx, resolved, generator), ceiling),
        call_ensures(check_context, (prompt_len, limit), fits),
        max_ctx matches Some(n) ==> n > 0,
    ensures
        requested matches Some(n) ==> (tokens is Ok == (n <= cap)) && (tokens matches Ok(k) ==> k
            == n),
        requested is None ==> (tokens is Ok == (512 <= cap)) && (tokens matches Ok(k) ==> k == 512),
        max_ctx is None ==> (ceiling matches Ok(c) && c == generator),
        max_ctx is Some && resolved is None ==> (ceiling matches Ok(c) && c == max_ctx->0),
        max_ctx is Some && (resolved matches Some(Ok(_))) ==> (ceiling matches Ok(c) && c
            == resolved->0->Ok_0),
        max_ctx is Some && (resolved matches Some(Err(_))) ==> ceiling is Err,
        fits is Ok == (prompt_len <= limit),
{
}

/// A constraint goes with a request unless there is none to build, or a demanded call's
/// could not be built; a schema of the request's own that could not be built refuses it.
pub proof fn law_constraint_goes_with_the_request(
    plan: ConstraintPlan,
    failure: Option<SchemaFailure>,
    r: Result<bool, Reply>,
)
    requires
        call_ensures(constraint_outcome, (&plan, failure), r),
    ensures
        r is Err == (plan is Schema && failure is Some),
        r matches Ok(b) ==> b == match plan {
            ConstraintPlan::Unconstrained => false,
            ConstraintPlan::ToolChoice { .. } => failure is None,
            _ => true,
        },
        r matches Err(reply) ==> reply.status == 400,
{
}

} // verus!
