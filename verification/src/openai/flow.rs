//! The way of a chat request through the server.
//!
//! A request is checked, its prompt is made, a constraint is built, its model is
//! loaded, it is admitted to the device, and it is run. The work between these
//! steps is done outside; each function here takes what the work gave and decides
//! whether the request goes on, with what, or how it is refused. The order of the
//! checks is the order of the functions, and within a function the order of its
//! refusals.

use vstd::prelude::*;

use crate::engine::admission::Admission;
use crate::engine::kv_quant::KvQuant;
use crate::engine::types::{
    GenerationRequest, NormalizedResponseFormat, NormalizedTool, NormalizedToolChoice, RequestV,
    ResponseFormatV, SamplingV, ToolChoiceV,
};
use crate::float32::F32;
use crate::json::Json;
use crate::openai::chat::{
    admission_refused, check_context, constraint_of, constraint_outcome, context_ceiling,
    context_reply, demanded_schema, effective_setting, first_system, generation_request,
    jinja_tools, make_generation_request, model_not_found, model_not_ready, output_mode,
    output_mode_of, pipeline_failed, plan_constraint, queue_full_reply, rendered_tools,
    request_max_tokens, request_schema, request_stops, schema_reply, session_key, session_slots,
    user_audio, user_images, ConstraintPlan, ConstraintV, OutputMode, PipelineFailure, Prepared,
    SchemaFailure,
};
use crate::openai::errors::{
    bias_entries, biases, resolve_sampling_params, resolved_sampling, ApiErrorCategory,
    GenerationConfig,
};
use crate::openai::reply::{
    bad_request_reply, error_body, error_reply, internal_reply, retry_reply, service_unavailable,
    unavailable_reply, Reply, ReplyV,
};
use crate::openai::request::{
    choice_of, format_of, normalize_response_format, normalize_tool_choice, normalize_tools,
    template_message, tools_of, ChatCompletionsRequest, ChatMessage, OwnedTplMessage,
    ResponseFormat, ToolChoice,
};
use crate::openai::validation::{
    blank_message, is_blank, logprobs_width, problem, validate_delimiters, validate_request,
    ValidSampling,
};
use crate::retry::{is_replayable, planned, replayable, RequestPlan};
use crate::session_cache::SessionCache;
use crate::text::{decimal, opt_view, opt_views, views};

verus! {

// ── Refusals ─────────────────────────────────────────────────────────────────

/// How a request is refused: the reply, and the category under which the refusal
/// is counted, if it is counted.
#[derive(Debug)]
pub struct Refusal {
    pub reply: Reply,
    pub category: Option<ApiErrorCategory>,
}

pub struct RefusalV {
    pub reply: ReplyV,
    pub category: Option<ApiErrorCategory>,
}

impl View for Refusal {
    type V = RefusalV;

    open spec fn view(&self) -> RefusalV {
        RefusalV { reply: self.reply@, category: self.category }
    }
}

/// A refusal that is counted.
pub open spec fn refused(reply: ReplyV, category: ApiErrorCategory) -> RefusalV {
    RefusalV { reply, category: Some(category) }
}

fn refuse<T>(reply: Reply, category: ApiErrorCategory) -> (r: Result<T, Refusal>)
    ensures
        r matches Err(f) && f@ == refused(reply@, category),
{
    Err(Refusal { reply, category: Some(category) })
}

// ── The request ──────────────────────────────────────────────────────────────

/// How the server is set up.
#[derive(Debug, Clone, Copy, PartialEq, Eq, Structural)]
pub struct ServerSettings {
    pub max_tokens_cap: u32,
    /// Zero disables the prompt cache.
    pub prompt_cache_slots: usize,
    pub default_enable_thinking: Option<bool>,
    pub default_temperature: Option<F32>,
    pub default_image_max_tokens: Option<usize>,
}

/// What is known of a registered model.
#[derive(Debug, Clone, Copy, PartialEq, Eq, Structural)]
pub struct ModelFacts {
    pub has_template: bool,
    pub has_tokenizer: bool,
    /// Whether the template can render tools.
    pub tools_supported: bool,
    /// Whether the format of the model's tool calls is known.
    pub format_known: bool,
    pub generation_defaults: Option<GenerationConfig>,
}

/// Why a request is refused before its prompt is made, by the first check that it
/// fails: its fields, the bounds on its size (`over_bounds` is the reply when one
/// is exceeded), its delimiters, its model.
pub open spec fn request_refusal(
    req: ChatCompletionsRequest,
    kv_problem: Option<Seq<char>>,
    over_bounds: Option<ReplyV>,
    model: Option<ModelFacts>,
) -> Option<RefusalV> {
    if problem(req, kv_problem) is Some {
        Some(
            refused(
                bad_request_reply(problem(req, kv_problem)->0),
                ApiErrorCategory::BadRequest,
            ),
        )
    } else if over_bounds is Some {
        Some(refused(over_bounds->0, ApiErrorCategory::BadRequest))
    } else if is_blank(opt_view(req.thinking_start_token)) {
        Some(
            refused(
                bad_request_reply(blank_message("thinking_start_token"@)),
                ApiErrorCategory::BadRequest,
            ),
        )
    } else if is_blank(opt_view(req.thinking_end_token)) {
        Some(
            refused(
                bad_request_reply(blank_message("thinking_end_token"@)),
                ApiErrorCategory::BadRequest,
            ),
        )
    } else {
        match model {
            None => Some(
                refused(
                    error_reply(
                        404,
                        "not_found_error"@,
                        "model '"@ + req.model@ + "' not found in registry"@,
                    ),
                    ApiErrorCategory::NotFound,
                ),
            ),
            Some(m) => if m.has_template && m.has_tokenizer {
                None
            } else {
                Some(
                    refused(
                        unavailable_reply(
                            "model '"@ + req.model@
                                + "' is not ready (missing chat_template.jinja or tokenizer.json)"@,
                        ),
                        ApiErrorCategory::Upstream,
                    ),
                )
            },
        }
    }
}

/// The tool choice of a request, in the engine's form.
pub open spec fn request_choice(choice: Option<ToolChoice>) -> Option<ToolChoiceV> {
    match choice {
        Some(c) => Some(choice_of(c)),
        None => None,
    }
}

/// The output format of a request, in the engine's form.
pub open spec fn request_format(format: Option<ResponseFormat>) -> Option<ResponseFormatV> {
    match format {
        Some(f) => Some(format_of(f)),
        None => None,
    }
}

/// The setting of a request, else the server's.
pub open spec fn setting_of(request: Option<bool>, server: Option<bool>) -> Option<bool> {
    if request is Some {
        request
    } else {
        server
    }
}

/// A request whose prompt can be made.
#[derive(Debug)]
pub struct Accepted {
    pub kv_quant: Option<KvQuant>,
    pub sampling: ValidSampling,
    pub tools: Option<Vec<NormalizedTool>>,
    pub tool_choice: Option<NormalizedToolChoice>,
    /// The tools that the template is rendered with.
    pub jinja_tools: Vec<Json>,
    /// The messages that the template is rendered with.
    pub messages: Vec<OwnedTplMessage>,
    /// The thinking setting that the template is rendered with.
    pub enable_thinking: Option<bool>,
}

impl Accepted {
    /// This is what has been worked out for `req`.
    pub open spec fn of(
        self,
        req: ChatCompletionsRequest,
        kv_quant: Option<KvQuant>,
        settings: ServerSettings,
        model: ModelFacts,
    ) -> bool {
        &&& self.kv_quant == kv_quant
        &&& self.sampling.logit_bias@ == biases(bias_entries(req.logit_bias))
        &&& self.sampling.top_logprobs_k == logprobs_width(req.logprobs, req.top_logprobs)
        &&& opt_views(self.tools) == tools_of(opt_views(req.tools))
        &&& opt_view(self.tool_choice) == request_choice(req.tool_choice)
        &&& views(self.jinja_tools@) == rendered_tools(
            tools_of(opt_views(req.tools)),
            model.tools_supported,
        )
        &&& views(self.messages@) == Seq::new(
            req.messages@.len(),
            |i: int| template_message(req.messages@[i]@),
        )
        &&& self.enable_thinking == setting_of(
            req.enable_thinking,
            settings.default_enable_thinking,
        )
    }
}

fn template_messages(messages: &Vec<ChatMessage>) -> (r: Vec<OwnedTplMessage>)
    ensures
        views(r@) == Seq::new(messages@.len(), |i: int| template_message(messages@[i]@)),
{
    let mut out: Vec<OwnedTplMessage> = Vec::new();
    let mut i: usize = 0;
    while i < messages.len()
        invariant
            i <= messages@.len(),
            out@.len() == i,
            forall|k: int| 0 <= k < i ==> (#[trigger] out@[k])@ == template_message(messages@[k]@),
        decreases messages@.len() - i,
    {
        out.push(OwnedTplMessage::from_request(&messages[i]));
        i += 1;
    }
    proof {
        assert(views(out@) =~= Seq::new(
            messages@.len(),
            |i: int| template_message(messages@[i]@),
        ));
    }
    out
}

fn choice_copy(choice: &Option<ToolChoice>) -> (r: Option<NormalizedToolChoice>)
    ensures
        opt_view(r) == request_choice(*choice),
{
    match choice {
        Some(c) => Some(normalize_tool_choice(c)),
        None => None,
    }
}

fn format_copy(format: &Option<ResponseFormat>) -> (r: Option<NormalizedResponseFormat>)
    ensures
        opt_view(r) == request_format(*format),
{
    match format {
        Some(f) => Some(normalize_response_format(f)),
        None => None,
    }
}

/// What a codec parser says against a codec.
pub open spec fn codec_problem(kv: Result<Option<KvQuant>, String>) -> Option<Seq<char>> {
    match kv {
        Ok(_) => None,
        Err(e) => Some(e@),
    }
}

/// Decides whether the prompt of a request is made, and with what. `kv` is what
/// the codec parser makes of the request's codec (`Ok(None)` without one),
/// `over_bounds` the reply when a bound on the request's size is exceeded,
/// `model` what is known of the model, if it is registered.
pub fn accept_request(
    req: &ChatCompletionsRequest,
    kv: Result<Option<KvQuant>, String>,
    over_bounds: Option<Reply>,
    settings: &ServerSettings,
    model: Option<ModelFacts>,
) -> (r: Result<Accepted, Refusal>)
    ensures
        match request_refusal(*req, codec_problem(kv), opt_view(over_bounds), model) {
            Some(f) => r matches Err(e) && e@ == f,
            None => r matches Ok(a) && a.of(*req, kv->Ok_0, *settings, model->0),
        },
{
    let (kv_quant, kv_problem): (Option<KvQuant>, Option<String>) = match kv {
        Ok(q) => (q, None),
        Err(e) => (None, Some(e)),
    };
    let sampling = match validate_request(req, &kv_problem) {
        Ok(v) => v,
        Err(reply) => {
            return refuse(reply, ApiErrorCategory::BadRequest);
        },
    };
    match over_bounds {
        Some(reply) => {
            return refuse(reply, ApiErrorCategory::BadRequest);
        },
        None => {},
    }
    match validate_delimiters(&req.thinking_start_token, &req.thinking_end_token) {
        Ok(_) => {},
        Err(reply) => {
            return refuse(reply, ApiErrorCategory::BadRequest);
        },
    }
    let facts = match model {
        None => {
            return refuse(model_not_found(req.model.as_str()), ApiErrorCategory::NotFound);
        },
        Some(m) => m,
    };
    if !facts.has_template || !facts.has_tokenizer {
        return refuse(model_not_ready(req.model.as_str()), ApiErrorCategory::Upstream);
    }
    let tools = normalize_tools(&req.tools);
    let jinja = jinja_tools(&tools, facts.tools_supported);
    Ok(
        Accepted {
            kv_quant,
            sampling,
            tools,
            tool_choice: choice_copy(&req.tool_choice),
            jinja_tools: jinja,
            messages: template_messages(&req.messages),
            enable_thinking: effective_setting(
                req.enable_thinking,
                settings.default_enable_thinking,
            ),
        },
    )
}

// ── The prompt ───────────────────────────────────────────────────────────────

/// A prompt that has been made.
#[derive(Debug)]
pub struct MadePrompt {
    pub tokens: Vec<u32>,
    /// Whether it ends inside a thinking block.
    pub think_open: bool,
}

/// Why a request is refused once its prompt was tried to be made: making it
/// failed, or more tokens are asked for than the server allows.
pub open spec fn prompt_refusal(
    prompt: Result<MadePrompt, PipelineFailure>,
    max_tokens: Option<u32>,
    cap: u32,
) -> Option<RefusalV> {
    match prompt {
        Err(PipelineFailure::Render(e)) => Some(
            refused(
                unavailable_reply("chat template render failed: "@ + e@),
                ApiErrorCategory::Upstream,
            ),
        ),
        Err(PipelineFailure::Encode(e)) => Some(
            refused(
                unavailable_reply("tokenizer encode failed: "@ + e@),
                ApiErrorCategory::Upstream,
            ),
        ),
        Err(PipelineFailure::Panicked) => Some(
            refused(internal_reply("prompt pipeline task panicked"@), ApiErrorCategory::Internal),
        ),
        Ok(_) => if wanted_tokens(max_tokens) > cap {
            Some(
                refused(
                    bad_request_reply(
                        "max_tokens "@ + decimal(wanted_tokens(max_tokens) as nat)
                            + " exceeds server cap "@ + decimal(cap as nat),
                    ),
                    ApiErrorCategory::BadRequest,
                ),
            )
        } else {
            None
        },
    }
}

/// How many tokens a request asks for.
pub open spec fn wanted_tokens(max_tokens: Option<u32>) -> u32 {
    match max_tokens {
        Some(n) => n,
        None => 512,
    }
}

/// A request that lacks only its constraint.
#[derive(Debug)]
pub struct Planned {
    pub prepared: Prepared,
    pub constraint: ConstraintPlan,
    pub mode: OutputMode,
}

/// The sampling parameters of a request.
pub open spec fn request_sampling(
    req: ChatCompletionsRequest,
    model: ModelFacts,
    settings: ServerSettings,
) -> SamplingV {
    SamplingV {
        top_logprobs_k: logprobs_width(req.logprobs, req.top_logprobs),
        ..resolved_sampling(
            req.temperature,
            req.top_p,
            req.top_k,
            req.min_p,
            req.repetition_penalty,
            req.frequency_penalty,
            req.presence_penalty,
            biases(bias_entries(req.logit_bias)),
            req.seed,
            model.generation_defaults,
            settings.default_temperature,
        )
    }
}

/// How the output of a request is treated.
pub open spec fn request_mode(req: ChatCompletionsRequest, model: ModelFacts) -> OutputMode {
    let tools = tools_of(opt_views(req.tools));
    output_mode_of(
        demanded_schema(request_choice(req.tool_choice), tools) is Some,
        rendered_tools(tools, model.tools_supported).len() > 0,
        model.format_known,
        request_format(req.response_format),
    )
}

/// The constraint that a request needs.
pub open spec fn request_constraint(req: ChatCompletionsRequest, model: ModelFacts) -> ConstraintV {
    constraint_of(
        demanded_schema(request_choice(req.tool_choice), tools_of(opt_views(req.tools))),
        request_format(req.response_format),
        model.has_tokenizer,
    )
}

/// The generation request for a chat request whose prompt was made.
pub open spec fn planned_request(
    req: ChatCompletionsRequest,
    model: ModelFacts,
    settings: ServerSettings,
    prompt: MadePrompt,
    kv_quant: Option<KvQuant>,
    session_id: Option<Seq<char>>,
    slots: Option<usize>,
    end_token_id: Option<u32>,
    has_constraint: bool,
) -> RequestV {
    RequestV {
        model_id: req.model@,
        prompt_tokens: prompt.tokens@,
        max_tokens: wanted_tokens(req.max_tokens),
        sampling: request_sampling(req, model, settings),
        stop: request_stops(req.stop),
        stream: req.stream,
        system: first_system(views(req.messages@)),
        session_id,
        effective_prompt_cache_slots: slots,
        tools: tools_of(opt_views(req.tools)),
        tool_choice: request_choice(req.tool_choice),
        response_format: request_format(req.response_format),
        has_constraint,
        thinking_budget: req.thinking_budget,
        thinking_end_token_id: end_token_id,
        enable_thinking: setting_of(req.enable_thinking, settings.default_enable_thinking),
        prompt_think_open: prompt.think_open,
        emit_tool_markers: request_mode(req, model).emit_tool_markers,
        thinking_start_token: opt_view(req.thinking_start_token),
        thinking_end_token: opt_view(req.thinking_end_token),
        kv_quant_override: kv_quant,
        max_ctx_override: req.max_ctx,
        images: user_images(views(req.messages@)),
        audio_b64: user_audio(views(req.messages@)),
        image_max_tokens: match req.image_max_tokens {
            Some(n) => Some(n as usize),
            None => settings.default_image_max_tokens,
        },
    }
}

/// Decides whether a request goes on with its prompt, and plans the rest. Its
/// session is recorded only if it goes on. `end_token_id` is the token that closes
/// its thinking block.
pub fn accept_prompt(
    req: &ChatCompletionsRequest,
    accepted: Accepted,
    prompt: Result<MadePrompt, PipelineFailure>,
    settings: &ServerSettings,
    model: &ModelFacts,
    sessions: &mut SessionCache,
    session_id: Option<String>,
    end_token_id: Option<u32>,
) -> (r: Result<Planned, Refusal>)
    requires
        accepted.of(*req, accepted.kv_quant, *settings, *model),
        old(sessions)@.valid(),
        session_id is Some && prompt is Ok ==> settings.prompt_cache_slots + old(sessions)@.touched(
            session_key(req.model@, opt_view(session_id)->0),
            prompt->Ok_0.tokens@.len(),
        ).sessions.len() <= usize::MAX,
    ensures
        final(sessions)@.valid(),
        match prompt_refusal(prompt, req.max_tokens, settings.max_tokens_cap) {
            Some(f) => {
                &&& r matches Err(e) && e@ == f
                &&& final(sessions)@ == old(sessions)@
            },
            None => {
                let after = match opt_view(session_id) {
                    Some(s) => old(sessions)@.touched(
                        session_key(req.model@, s),
                        prompt->Ok_0.tokens@.len(),
                    ),
                    None => old(sessions)@,
                };
                let slots = if session_id is None || settings.prompt_cache_slots == 0 {
                    None
                } else {
                    Some((settings.prompt_cache_slots + after.sessions.len()) as usize)
                };
                &&& final(sessions)@ == after
                &&& r matches Ok(p) && {
                    &&& p.constraint@ == request_constraint(*req, *model)
                    &&& p.mode == request_mode(*req, *model)
                    &&& !p.prepared.has_constraint
                    &&& generation_request(*req, p.prepared) == planned_request(
                        *req,
                        *model,
                        *settings,
                        prompt->Ok_0,
                        accepted.kv_quant,
                        opt_view(session_id),
                        slots,
                        end_token_id,
                        false,
                    )
                }
            },
        },
{
    let made = match prompt {
        Ok(p) => p,
        Err(f) => {
            let category = match &f {
                PipelineFailure::Panicked => ApiErrorCategory::Internal,
                _ => ApiErrorCategory::Upstream,
            };
            return refuse(pipeline_failed(&f), category);
        },
    };
    let max_tokens: u32 = match request_max_tokens(req.max_tokens, settings.max_tokens_cap) {
        Ok(n) => n,
        Err(reply) => {
            return refuse(reply, ApiErrorCategory::BadRequest);
        },
    };
    let prompt_len: usize = made.tokens.len();
    let slots = session_slots(
        sessions,
        req.model.as_str(),
        &session_id,
        prompt_len,
        settings.prompt_cache_slots,
    );
    let (sampling, _, _) = resolve_sampling_params(
        req.temperature,
        req.top_p,
        req.top_k,
        req.min_p,
        req.repetition_penalty,
        req.frequency_penalty,
        req.presence_penalty,
        accepted.sampling.logit_bias,
        req.seed,
        model.generation_defaults,
        settings.default_temperature,
    );
    let response_format = format_copy(&req.response_format);
    let demanded = request_schema(&accepted.tool_choice, &accepted.tools);
    let rendered: usize = accepted.jinja_tools.len();
    assert(views(accepted.jinja_tools@).len() == rendered);
    let mode = output_mode(demanded.is_some(), rendered > 0, model.format_known, &response_format);
    let constraint = plan_constraint(demanded, &response_format, model.has_tokenizer);
    Ok(
        Planned {
            prepared: Prepared {
                prompt_tokens: made.tokens,
                prompt_think_open: made.think_open,
                max_tokens,
                sampling,
                top_logprobs_k: accepted.sampling.top_logprobs_k,
                session_id,
                effective_prompt_cache_slots: slots,
                tools: accepted.tools,
                tool_choice: accepted.tool_choice,
                response_format,
                has_constraint: false,
                thinking_end_token_id: end_token_id,
                enable_thinking: accepted.enable_thinking,
                emit_tool_markers: mode.emit_tool_markers,
                kv_quant_override: accepted.kv_quant,
                default_image_max_tokens: settings.default_image_max_tokens,
            },
            constraint,
            mode,
        },
    )
}

// ── The constraint ───────────────────────────────────────────────────────────

/// Whether a constraint goes with a request, by how building it went.
pub open spec fn is_constrained(plan: ConstraintV, built: bool) -> bool {
    match plan {
        ConstraintV::Unconstrained => false,
        ConstraintV::ToolChoice(_) => built,
        _ => true,
    }
}

/// Whether a constraint is told, while a request runs, that the model is reasoning.
/// One that lets everything through need not know; one that enforces a demanded tool
/// call must come to bear at the first token, and is not told.
pub open spec fn is_told_of_thinking(plan: ConstraintV, built: bool, demanded_call: bool) -> bool {
    !demanded_call && is_constrained(plan, built) && !(plan is NoOp)
}

/// A request that is ready for its model.
#[derive(Debug)]
pub struct Ready {
    pub request: GenerationRequest,
    pub mode: OutputMode,
    /// Whether its constraint is told that the model is reasoning.
    pub thinking_signal: bool,
}

/// Decides whether a request goes on with its constraint. A schema of the
/// request's own that cannot be enforced is refused; that refusal is not counted.
pub fn accept_constraint(
    req: &ChatCompletionsRequest,
    plan: Planned,
    failure: Option<SchemaFailure>,
) -> (r: Result<Ready, Refusal>)
    ensures
        match (plan.constraint@, failure) {
            (ConstraintV::Schema(_, _), Some(f)) => r matches Err(e) && e@ == (RefusalV {
                reply: schema_reply(f.unsupported_keyword, f.message@),
                category: None,
            }),
            _ => r matches Ok(ready) && ready.mode == plan.mode && ready.thinking_signal
                == is_told_of_thinking(
                plan.constraint@,
                failure is None,
                plan.mode.bare_json_tool_call,
            ) && ready.request@ == (RequestV {
                has_constraint: is_constrained(plan.constraint@, failure is None),
                ..generation_request(*req, plan.prepared)
            }),
        },
{
    let free = match &plan.constraint {
        ConstraintPlan::NoOp => true,
        _ => false,
    };
    match constraint_outcome(&plan.constraint, failure) {
        Err(reply) => Err(Refusal { reply, category: None }),
        Ok(has_constraint) => {
            let prepared = Prepared { has_constraint, ..plan.prepared };
            let thinking_signal = !plan.mode.bare_json_tool_call && has_constraint && !free;
            Ok(
                Ready {
                    request: make_generation_request(req, prepared),
                    mode: plan.mode,
                    thinking_signal,
                },
            )
        },
    }
}

// ── The model and its context ────────────────────────────────────────────────

/// Why a request is refused at its model: the model could not be loaded, the
/// context that it asks for is refused, or its prompt does not fit.
pub open spec fn context_refusal(
    req: RequestV,
    load_error: Option<Seq<char>>,
    resolved: Option<Result<usize, String>>,
    generator_ceiling: usize,
) -> Option<RefusalV> {
    if load_error is Some {
        Some(refused(unavailable_reply(load_error->0), ApiErrorCategory::Upstream))
    } else {
        match (req.max_ctx_override, resolved) {
            (Some(_), Some(Err(e))) => Some(
                refused(context_reply(e@), ApiErrorCategory::ContextOverflow),
            ),
            _ => {
                let ceiling: int = match (req.max_ctx_override, resolved) {
                    (None, _) => generator_ceiling as int,
                    (Some(_), Some(Ok(limit))) => limit as int,
                    (Some(n), _) => n as int,
                };
                if req.prompt_tokens.len() > ceiling {
                    Some(
                        refused(
                            context_reply(
                                "prompt has "@ + decimal(req.prompt_tokens.len())
                                    + " tokens, max_ctx is "@ + decimal(ceiling as nat),
                            ),
                            ApiErrorCategory::ContextOverflow,
                        ),
                    )
                } else {
                    None
                }
            },
        }
    }
}

/// Decides whether a request fits its model. `load_error` is why the model could
/// not be loaded, `resolved` what the model's limits make of the context that the
/// request asks for, where the limits are known.
pub fn accept_context(
    req: &GenerationRequest,
    load_error: &Option<String>,
    resolved: Option<Result<usize, String>>,
    generator_ceiling: usize,
) -> (r: Result<(), Refusal>)
    requires
        req@.max_ctx_override matches Some(n) ==> n > 0,
    ensures
        match context_refusal(req@, opt_view(*load_error), resolved, generator_ceiling) {
            Some(f) => r matches Err(e) && e@ == f,
            None => r is Ok,
        },
{
    match load_error {
        Some(e) => {
            return refuse(service_unavailable(e.as_str()), ApiErrorCategory::Upstream);
        },
        None => {},
    }
    let ceiling: usize = match context_ceiling(
        req.max_ctx_override,
        resolved,
        generator_ceiling,
    ) {
        Ok(c) => c,
        Err(reply) => {
            return refuse(reply, ApiErrorCategory::ContextOverflow);
        },
    };
    match check_context(req.prompt_tokens.len(), ceiling) {
        Ok(_) => Ok(()),
        Err(reply) => refuse(reply, ApiErrorCategory::ContextOverflow),
    }
}

// ── Admission ────────────────────────────────────────────────────────────────

/// The depth of the queue: that of the controller, where one is in use, else the
/// configured one.
pub fn queue_depth(controller: Option<usize>, configured: usize) -> (r: usize)
    ensures
        r == match controller {
            Some(d) => d,
            None => configured,
        },
{
    match controller {
        Some(d) => d,
        None => configured,
    }
}

/// Refuses a request that a controller predicts to wait too long, before it
/// enters the queue.
pub fn accept_prediction(too_slow: bool) -> (r: Result<(), Refusal>)
    ensures
        match r {
            Ok(_) => !too_slow,
            Err(f) => too_slow && f@ == refused(
                retry_reply(
                    503,
                    error_body(
                        "admission_sla_exceeded"@,
                        "request rejected: predicted TTFT exceeds SLA threshold; retry after backoff"@,
                    ),
                ),
                ApiErrorCategory::AdmissionSla503,
            ),
        },
{
    if too_slow {
        refuse(admission_refused(), ApiErrorCategory::AdmissionSla503)
    } else {
        Ok(())
    }
}

/// The depth and the waiting time under which a request was admitted; a full
/// queue refuses it.
pub fn accept_admission(admission: Admission) -> (r: Result<(u64, u64), Refusal>)
    ensures
        match admission {
            Admission::Admitted { depth, wait_ms } => r matches Ok(p) && p == (depth, wait_ms),
            Admission::QueueFull => r matches Err(f) && f@ == refused(
                error_reply(429, "rate_limit_error"@, "server queue full"@),
                ApiErrorCategory::RateLimit,
            ),
        },
{
    match admission {
        Admission::Admitted { depth, wait_ms } => Ok((depth, wait_ms)),
        Admission::QueueFull => refuse(queue_full_reply(), ApiErrorCategory::RateLimit),
    }
}

/// The plan to issue a request again after a failure, where it can be replayed. A
/// chat request asks for one choice.
pub fn replay_plan(req: &GenerationRequest) -> (r: Option<RequestPlan>)
    ensures
        match r {
            Some(p) => replayable(req@, true) && p@ == planned(req@),
            None => !replayable(req@, true),
        },
{
    if is_replayable(req, true) {
        Some(RequestPlan::from_gen_req(req))
    } else {
        None
    }
}

// ── Laws ─────────────────────────────────────────────────────────────────────

/// Every refusal before the constraint is counted, and its category tells its
/// status.
pub proof fn law_refusals_are_counted(
    req: ChatCompletionsRequest,
    kv_problem: Option<Seq<char>>,
    model: Option<ModelFacts>,
    prompt: Result<MadePrompt, PipelineFailure>,
    cap: u32,
)
    ensures
        request_refusal(req, kv_problem, None, model) matches Some(f) ==> match f.category {
            Some(ApiErrorCategory::BadRequest) => f.reply.status == 400,
            Some(ApiErrorCategory::NotFound) => f.reply.status == 404,
            Some(ApiErrorCategory::Upstream) => f.reply.status == 503,
            _ => false,
        },
        prompt_refusal(prompt, req.max_tokens, cap) matches Some(f) ==> match f.category {
            Some(ApiErrorCategory::BadRequest) => f.reply.status == 400,
            Some(ApiErrorCategory::Upstream) => f.reply.status == 503,
            Some(ApiErrorCategory::Internal) => f.reply.status == 500,
            _ => false,
        },
{
}

/// A request under a grammar is never replayed, and one that is replayed demands
/// no tool call that could be enforced.
pub proof fn law_constrained_request_is_not_replayed(req: RequestV, plan: ConstraintV, built: bool)
    requires
        req.has_constraint == is_constrained(plan, built),
        replayable(req, true),
    ensures
        plan is Unconstrained || (plan is ToolChoice && !built),
{
}

/// A request is issued again after a failure exactly when its temperature is not above
/// zero and it has no grammar.
pub proof fn law_plan_is_made_for_deterministic_requests(
    req: GenerationRequest,
    r: Option<RequestPlan>,
)
    requires
        call_ensures(replay_plan, (&req,), r),
    ensures
        r is Some == (!req.has_constraint && !(0 < req.sampling.temperature.bits <= 0x7f80_0000)),
        r matches Some(p) ==> p.model_id@ == req.model_id@ && p.original_prompt_tokens@
            == req.prompt_tokens@ && p.original_max_tokens == req.max_tokens && views(p.images@)
            == views(req.images@) && views(p.stop@) == views(req.stop@),
{
}

} // verus!
