//! The way of a chat request, step by step.

use rmlx_server::engine::admission::Admission;
use rmlx_server::engine::kv_quant::KvQuant;
use rmlx_server::engine::types::{
    GenerationRequest, NormalizedResponseFormat, NormalizedTool, NormalizedToolChoice,
};
use rmlx_server::float32::F32;
use rmlx_server::json::{parse_json, render_json, Json};
use rmlx_server::openai::chat::{
    admission_kv_bytes, check_context, constraint_outcome, context_ceiling, last_token_id,
    metrics_ctx_max, plan_constraint, prompt_think_open, system_prompt, thinking_end_token_id,
    ConstraintPlan, PipelineFailure, SchemaFailure,
};
use rmlx_server::openai::errors::ApiErrorCategory;
use rmlx_server::openai::flow::{
    accept_admission, accept_constraint, accept_context, accept_prediction, accept_prompt,
    accept_request, queue_depth, replay_plan, MadePrompt, ModelFacts, Planned,
    Refusal, ServerSettings,
};
use rmlx_server::openai::reply::bad_request;
use rmlx_server::openai::request::{
    ChatCompletionsRequest, ChatMessage, JsonSchemaSpec, MessageContent, ResponseFormat,
    StopSequences, Tool, ToolChoice, ToolFunction,
};
use rmlx_server::openai::tool_call::{bare_json_to_tool_call, tool_choice_to_schema};
use rmlx_server::session_cache::SessionCache;

fn f(v: f32) -> F32 {
    F32 { bits: v.to_bits() }
}

fn json(text: &str) -> Json {
    parse_json(text).unwrap()
}

fn message(role: &str, text: &str) -> ChatMessage {
    ChatMessage {
        role: role.to_owned(),
        content: Some(MessageContent::Text(text.to_owned())),
        tool_calls: None,
        tool_call_id: None,
        name: None,
    }
}

fn request() -> ChatCompletionsRequest {
    ChatCompletionsRequest {
        model: "m".to_owned(),
        messages: vec![message("system", "be brief"), message("user", "hi")],
        stream: false,
        temperature: None,
        max_tokens: None,
        top_p: None,
        seed: None,
        stop: None,
        tools: None,
        tool_choice: None,
        response_format: None,
        top_k: None,
        min_p: None,
        repetition_penalty: None,
        frequency_penalty: None,
        presence_penalty: None,
        logit_bias: None,
        stream_options: None,
        logprobs: None,
        top_logprobs: None,
        echo: None,
        enable_thinking: None,
        thinking_budget: None,
        thinking_start_token: None,
        thinking_end_token: None,
        kv_quant: None,
        max_ctx: None,
        image_max_tokens: None,
        extra: vec![],
    }
}

fn settings() -> ServerSettings {
    ServerSettings {
        max_tokens_cap: 1000,
        prompt_cache_slots: 4,
        default_enable_thinking: Some(false),
        default_temperature: Some(f(0.0)),
        default_image_max_tokens: Some(280),
    }
}

fn facts() -> ModelFacts {
    ModelFacts {
        has_template: true,
        has_tokenizer: true,
        tools_supported: true,
        format_known: true,
        generation_defaults: None,
    }
}

fn tool(name: &str) -> Tool {
    Tool {
        kind: "function".to_owned(),
        function: ToolFunction {
            name: name.to_owned(),
            description: None,
            parameters: json(r#"{"type":"object"}"#),
        },
    }
}

fn message_of(f: &Refusal) -> String {
    let error = f.reply.body.get("error").unwrap();
    error.get_str("message").unwrap().to_owned()
}

// ── Before the prompt ────────────────────────────────────────────────────────

#[test]
fn checks_before_the_prompt_come_in_order() {
    let mut r = request();
    r.max_tokens = Some(0);
    r.thinking_end_token = Some(" ".to_owned());
    let bounds = || Some(bad_request("too many"));

    let e = accept_request(&r, Ok(None), bounds(), &settings(), None).unwrap_err();
    assert_eq!(message_of(&e), "max_tokens must be > 0");
    assert_eq!(e.category, Some(ApiErrorCategory::BadRequest));

    r.max_tokens = None;
    let e = accept_request(&r, Ok(None), bounds(), &settings(), None).unwrap_err();
    assert_eq!(message_of(&e), "too many");
    assert_eq!(e.category, Some(ApiErrorCategory::BadRequest));

    let e = accept_request(&r, Ok(None), None, &settings(), None).unwrap_err();
    assert_eq!(
        message_of(&e),
        "`thinking_end_token` must be a non-empty, non-whitespace delimiter string"
    );

    r.thinking_end_token = None;
    let e = accept_request(&r, Ok(None), None, &settings(), None).unwrap_err();
    assert_eq!(message_of(&e), "model 'm' not found in registry");
    assert_eq!(e.reply.status, 404);
    assert_eq!(e.category, Some(ApiErrorCategory::NotFound));

    for bare in [
        ModelFacts {
            has_template: false,
            ..facts()
        },
        ModelFacts {
            has_tokenizer: false,
            ..facts()
        },
    ] {
        let e = accept_request(&r, Ok(None), None, &settings(), Some(bare)).unwrap_err();
        assert_eq!(
            message_of(&e),
            "model 'm' is not ready (missing chat_template.jinja or tokenizer.json)"
        );
        assert_eq!(e.reply.status, 503);
        assert_eq!(e.category, Some(ApiErrorCategory::Upstream));
    }
}

#[test]
fn a_refused_codec_refuses_the_request() {
    let e = accept_request(
        &request(),
        Err("no such codec".to_owned()),
        None,
        &settings(),
        Some(facts()),
    )
    .unwrap_err();
    assert_eq!(message_of(&e), "kv_quant: no such codec");
}

#[test]
fn an_accepted_request_is_ready_to_render() {
    let mut r = request();
    r.tools = Some(vec![tool("f"), tool("g")]);
    r.enable_thinking = Some(true);
    let a = accept_request(
        &r,
        Ok(Some(KvQuant::K8V8)),
        None,
        &settings(),
        Some(facts()),
    )
    .unwrap();
    assert_eq!(a.kv_quant, Some(KvQuant::K8V8));
    assert_eq!(a.jinja_tools.len(), 2);
    assert_eq!(a.messages.len(), 2);
    assert_eq!(a.messages[0].role, "system");
    assert_eq!(a.messages[1].content, "hi");
    assert_eq!(a.enable_thinking, Some(true));

    // A template that cannot render tools gets none.
    let no_tools = ModelFacts {
        tools_supported: false,
        ..facts()
    };
    r.enable_thinking = None;
    let a = accept_request(&r, Ok(None), None, &settings(), Some(no_tools)).unwrap();
    assert!(a.jinja_tools.is_empty());
    assert_eq!(a.tools.unwrap().len(), 2);
    assert_eq!(a.enable_thinking, Some(false));
}

// ── The prompt and what follows ──────────────────────────────────────────────

fn made(n: u32) -> MadePrompt {
    MadePrompt {
        tokens: (0..n).collect(),
        think_open: true,
    }
}

fn through_prompt(
    r: &ChatCompletionsRequest,
    model: &ModelFacts,
    prompt: Result<MadePrompt, PipelineFailure>,
    sessions: &mut SessionCache,
    session: Option<&str>,
) -> Result<Planned, Refusal> {
    let s = settings();
    let a = accept_request(r, Ok(None), None, &s, Some(*model)).unwrap();
    accept_prompt(
        r,
        a,
        prompt,
        &s,
        model,
        sessions,
        session.map(str::to_owned),
        Some(99),
    )
}

#[test]
fn failures_of_the_prompt_pipeline() {
    let mut sessions = SessionCache::new(8);
    let e = through_prompt(
        &request(),
        &facts(),
        Err(PipelineFailure::Render("bad".to_owned())),
        &mut sessions,
        Some("s"),
    )
    .unwrap_err();
    assert_eq!(message_of(&e), "chat template render failed: bad");
    assert_eq!(e.category, Some(ApiErrorCategory::Upstream));
    let e = through_prompt(
        &request(),
        &facts(),
        Err(PipelineFailure::Encode("bad".to_owned())),
        &mut sessions,
        Some("s"),
    )
    .unwrap_err();
    assert_eq!(message_of(&e), "tokenizer encode failed: bad");
    assert_eq!(e.reply.status, 503);
    let e = through_prompt(
        &request(),
        &facts(),
        Err(PipelineFailure::Panicked),
        &mut sessions,
        Some("s"),
    )
    .unwrap_err();
    assert_eq!(message_of(&e), "prompt pipeline task panicked");
    assert_eq!(e.reply.status, 500);
    assert_eq!(e.category, Some(ApiErrorCategory::Internal));
    // A refused request does not touch its session.
    assert_eq!(sessions.active_count(), 0);
}

#[test]
fn the_token_cap_is_checked_before_the_session() {
    let mut sessions = SessionCache::new(8);
    let mut r = request();
    r.max_tokens = Some(1001);
    let e = through_prompt(&r, &facts(), Ok(made(3)), &mut sessions, Some("s")).unwrap_err();
    assert_eq!(message_of(&e), "max_tokens 1001 exceeds server cap 1000");
    assert_eq!(e.category, Some(ApiErrorCategory::BadRequest));
    assert_eq!(sessions.active_count(), 0);
}

fn ready(
    r: &ChatCompletionsRequest,
    model: &ModelFacts,
    sessions: &mut SessionCache,
    session: Option<&str>,
) -> GenerationRequest {
    let p = through_prompt(r, model, Ok(made(3)), sessions, session).unwrap();
    accept_constraint(r, p, None).unwrap().request
}

#[test]
fn a_request_becomes_a_generation_request() {
    let mut sessions = SessionCache::new(8);
    let mut r = request();
    r.stop = Some(StopSequences::One("END".to_owned()));
    r.thinking_budget = Some(7);
    r.stream = true;
    r.max_ctx = Some(64);
    let g = ready(&r, &facts(), &mut sessions, None);
    assert_eq!(g.model_id, "m");
    assert_eq!(g.prompt_tokens, vec![0, 1, 2]);
    assert!(g.prompt_think_open);
    assert_eq!(g.max_tokens, 512);
    assert_eq!(g.sampling.temperature, f(0.0));
    assert_eq!(g.sampling.top_p, f(1.0));
    assert_eq!(g.stop, vec!["END"]);
    assert!(g.stream);
    assert_eq!(g.system.as_deref(), Some("be brief"));
    assert_eq!(g.effective_prompt_cache_slots, None);
    assert_eq!(g.thinking_budget, Some(7));
    assert_eq!(g.thinking_end_token_id, Some(99));
    assert_eq!(g.enable_thinking, Some(false));
    assert_eq!(g.max_ctx_override, Some(64));
    assert_eq!(g.image_max_tokens, Some(280));
    assert!(!g.has_constraint);
    assert!(!g.emit_tool_markers);
}

#[test]
fn sessions_widen_the_prompt_cache() {
    let mut sessions = SessionCache::new(8);
    let r = request();
    let g = ready(&r, &facts(), &mut sessions, Some("a"));
    assert_eq!(g.effective_prompt_cache_slots, Some(5));
    assert_eq!(g.session_id.as_deref(), Some("a"));
    let g = ready(&r, &facts(), &mut sessions, Some("b"));
    assert_eq!(g.effective_prompt_cache_slots, Some(6));
    let g = ready(&r, &facts(), &mut sessions, Some("a"));
    assert_eq!(g.effective_prompt_cache_slots, Some(6));
    assert_eq!(sessions.active_count(), 2);
}

#[test]
fn tools_in_use_are_parsed_and_marked() {
    let mut sessions = SessionCache::new(8);
    let mut r = request();
    r.tools = Some(vec![tool("f")]);
    let p = through_prompt(&r, &facts(), Ok(made(1)), &mut sessions, None).unwrap();
    assert!(p.mode.use_parser);
    assert!(p.mode.emit_tool_markers);
    assert!(!p.mode.json_object);
    let unknown = ModelFacts {
        format_known: false,
        ..facts()
    };
    let p = through_prompt(&r, &unknown, Ok(made(1)), &mut sessions, None).unwrap();
    assert!(!p.mode.use_parser);
    assert!(!p.mode.emit_tool_markers);
}

#[test]
fn a_demanded_call_is_constrained_and_not_parsed() {
    let mut sessions = SessionCache::new(8);
    let mut r = request();
    r.tools = Some(vec![tool("f")]);
    r.tool_choice = Some(ToolChoice::Mode("required".to_owned()));
    let p = through_prompt(&r, &facts(), Ok(made(1)), &mut sessions, None).unwrap();
    assert!(p.mode.bare_json_tool_call);
    assert!(p.mode.json_object);
    assert!(!p.mode.use_parser);
    assert!(matches!(p.constraint, ConstraintPlan::ToolChoice { .. }));
    // A constraint that cannot be built leaves the output free.
    let failure = SchemaFailure {
        unsupported_keyword: true,
        message: "x".to_owned(),
    };
    let g = accept_constraint(&r, p, Some(failure)).unwrap();
    assert!(!g.request.has_constraint);
    assert!(!g.thinking_signal);
    let p = through_prompt(&r, &facts(), Ok(made(1)), &mut sessions, None).unwrap();
    assert!(!accept_constraint(&r, p, None).unwrap().thinking_signal);
    let g = ready(&r, &facts(), &mut sessions, None);
    assert!(g.has_constraint);
}

fn schema_format() -> Option<ResponseFormat> {
    Some(ResponseFormat::JsonSchema {
        json_schema: JsonSchemaSpec {
            name: "n".to_owned(),
            strict: true,
            schema: json(r#"{"type":"string"}"#),
            description: None,
        },
    })
}

#[test]
fn a_constraint_on_the_answer_is_told_of_thinking() {
    let mut sessions = SessionCache::new(8);
    let mut r = request();
    let p = through_prompt(&r, &facts(), Ok(made(1)), &mut sessions, None).unwrap();
    assert!(!accept_constraint(&r, p, None).unwrap().thinking_signal);
    for format in [schema_format(), Some(ResponseFormat::JsonObject)] {
        r.response_format = format;
        let p = through_prompt(&r, &facts(), Ok(made(1)), &mut sessions, None).unwrap();
        assert!(accept_constraint(&r, p, None).unwrap().thinking_signal);
    }
    // Nothing is enforced without a tokenizer.
    let p = Planned {
        constraint: ConstraintPlan::NoOp,
        ..through_prompt(&r, &facts(), Ok(made(1)), &mut sessions, None).unwrap()
    };
    let g = accept_constraint(&r, p, None).unwrap();
    assert!(g.request.has_constraint);
    assert!(!g.thinking_signal);
}

#[test]
fn a_schema_that_cannot_be_enforced_is_refused() {
    let mut sessions = SessionCache::new(8);
    let mut r = request();
    r.response_format = schema_format();
    for (keyword, kind, text) in [
        (
            true,
            "unsupported_schema_keyword",
            "response_format.json_schema.schema uses a keyword rMLX cannot enforce in strict mode: k",
        ),
        (
            false,
            "invalid_request_error",
            "response_format.json_schema.schema is not a valid JSON Schema: k",
        ),
    ] {
        let p = through_prompt(&r, &facts(), Ok(made(1)), &mut sessions, None).unwrap();
        let failure = SchemaFailure {
            unsupported_keyword: keyword,
            message: "k".to_owned(),
        };
        let e = accept_constraint(&r, p, Some(failure)).unwrap_err();
        assert_eq!(message_of(&e), text);
        assert_eq!(e.reply.status, 400);
        assert_eq!(
            e.reply.body.get("error").unwrap().get_str("type"),
            Some(kind)
        );
        assert_eq!(e.category, None);
    }
    assert!(ready(&r, &facts(), &mut sessions, None).has_constraint);
}

#[test]
fn constraints_by_format_and_tokenizer() {
    let plan = |f: Option<NormalizedResponseFormat>, tk: bool| plan_constraint(None, &f, tk);
    assert!(matches!(plan(None, true), ConstraintPlan::Unconstrained));
    assert!(matches!(
        plan(Some(NormalizedResponseFormat::Text), true),
        ConstraintPlan::Unconstrained
    ));
    assert!(matches!(
        plan(Some(NormalizedResponseFormat::JsonObject), true),
        ConstraintPlan::JsonObject
    ));
    assert!(matches!(
        plan(Some(NormalizedResponseFormat::JsonObject), false),
        ConstraintPlan::NoOp
    ));
    let object = Some(NormalizedResponseFormat::JsonObject);
    let demanded = plan_constraint(Some(json("{}")), &object, true);
    assert!(matches!(demanded, ConstraintPlan::ToolChoice { .. }));
    let without = plan_constraint(Some(json("{}")), &object, false);
    assert!(matches!(without, ConstraintPlan::Unconstrained));
    assert!(constraint_outcome(&ConstraintPlan::NoOp, None).unwrap());
    assert!(constraint_outcome(&ConstraintPlan::JsonObject, None).unwrap());
    assert!(!constraint_outcome(&ConstraintPlan::Unconstrained, None).unwrap());
}

// ── The model, its context, admission ────────────────────────────────────────

#[test]
fn a_model_that_does_not_load_refuses() {
    let mut sessions = SessionCache::new(8);
    let g = ready(&request(), &facts(), &mut sessions, None);
    let e = accept_context(&g, &Some("disk on fire".to_owned()), None, 0).unwrap_err();
    assert_eq!(message_of(&e), "disk on fire");
    assert_eq!(e.reply.status, 503);
    assert_eq!(e.category, Some(ApiErrorCategory::Upstream));
}

#[test]
fn a_prompt_must_fit_the_context() {
    let mut sessions = SessionCache::new(8);
    let mut r = request();
    let g = ready(&r, &facts(), &mut sessions, None);
    assert!(accept_context(&g, &None, None, 3).is_ok());
    let e = accept_context(&g, &None, None, 2).unwrap_err();
    assert_eq!(message_of(&e), "prompt has 3 tokens, max_ctx is 2");
    assert_eq!(e.reply.status, 400);
    assert_eq!(e.category, Some(ApiErrorCategory::ContextOverflow));

    // A context of the request's own takes the generator's place.
    r.max_ctx = Some(2);
    let g = ready(&r, &facts(), &mut sessions, None);
    assert!(accept_context(&g, &None, None, 100).is_err());
    assert!(accept_context(&g, &None, Some(Ok(3)), 0).is_ok());
    let e = accept_context(&g, &None, Some(Err("above capacity".to_owned())), 100).unwrap_err();
    assert_eq!(message_of(&e), "above capacity");
    assert_eq!(
        e.reply.body.get("error").unwrap().get_str("type"),
        Some("context_length_exceeded")
    );
}

#[test]
fn context_by_its_source() {
    assert_eq!(context_ceiling(None, None, 7).unwrap(), 7);
    assert_eq!(context_ceiling(Some(5), None, 7).unwrap(), 5);
    assert_eq!(context_ceiling(Some(5), Some(Ok(4)), 7).unwrap(), 4);
    assert!(check_context(4, 4).is_ok());
    assert_eq!(metrics_ctx_max(usize::MAX), 1_048_576);
    assert_eq!(metrics_ctx_max(4096), 4096);
}

#[test]
fn predicted_delay_refuses_with_a_time_to_retry() {
    assert!(accept_prediction(false).is_ok());
    let e = accept_prediction(true).unwrap_err();
    assert_eq!(e.reply.status, 503);
    assert_eq!(e.reply.headers[0].value, "5");
    assert_eq!(
        message_of(&e),
        "request rejected: predicted TTFT exceeds SLA threshold; retry after backoff"
    );
    assert_eq!(e.category, Some(ApiErrorCategory::AdmissionSla503));
    assert_eq!(admission_kv_bytes(&vec![]), 0);
    assert_eq!(admission_kv_bytes(&vec![10]), 10);
    assert_eq!(admission_kv_bytes(&vec![10, 20]), 0);
}

#[test]
fn a_full_queue_refuses() {
    let e = accept_admission(Admission::QueueFull).unwrap_err();
    assert_eq!(e.reply.status, 429);
    assert_eq!(message_of(&e), "server queue full");
    assert_eq!(e.category, Some(ApiErrorCategory::RateLimit));
    let (depth, wait) = accept_admission(Admission::Admitted {
        depth: 3,
        wait_ms: 20,
    })
    .unwrap();
    assert_eq!((depth, wait), (3, 20));
    assert_eq!(queue_depth(None, 8), 8);
    assert_eq!(queue_depth(Some(2), 8), 2);
}

#[test]
fn only_deterministic_requests_are_replayed() {
    let mut sessions = SessionCache::new(8);
    let mut r = request();
    let g = ready(&r, &facts(), &mut sessions, None);
    let plan = replay_plan(&g).unwrap();
    assert_eq!(plan.original_prompt_tokens, vec![0, 1, 2]);
    r.temperature = Some(f(0.7));
    let g = ready(&r, &facts(), &mut sessions, None);
    assert!(replay_plan(&g).is_none());
    r.temperature = Some(f(0.0));
    r.response_format = Some(ResponseFormat::JsonObject);
    let g = ready(&r, &facts(), &mut sessions, None);
    assert!(replay_plan(&g).is_none());
}

// ── The thinking channel ─────────────────────────────────────────────────────

#[test]
fn only_the_appended_turn_opens_the_channel() {
    let base = "<user>what is <think>?</user>";
    let open = format!("{base}<assistant><think>");
    let closed = format!("{base}<assistant><think></think>");
    assert!(prompt_think_open(&open, Some(base), &None, &None));
    assert!(!prompt_think_open(&closed, Some(base), &None, &None));
    let plain = format!("{base}<assistant>");
    assert!(!prompt_think_open(&plain, Some(base), &None, &None));
    // Without the prompt's base the whole of it is looked at.
    assert!(prompt_think_open(&plain, None, &None, &None));
    assert!(prompt_think_open(&plain, Some("other"), &None, &None));
    let own = Some("[[".to_owned());
    let end = Some("]]".to_owned());
    assert!(prompt_think_open("ab[[", Some("ab"), &own, &end));
    assert!(!prompt_think_open("ab[[]]", Some("ab"), &own, &end));
}

fn tokenizer() -> tokenizers::Tokenizer {
    let text = r#"{
        "version": "1.0",
        "truncation": null,
        "padding": null,
        "added_tokens": [],
        "normalizer": null,
        "pre_tokenizer": {"type": "Whitespace"},
        "post_processor": null,
        "decoder": null,
        "model": {
            "type": "WordLevel",
            "vocab": {"[UNK]": 0, "hello": 1, "stop": 2, "</": 3, "think": 4, ">": 5},
            "unk_token": "[UNK]"
        }
    }"#;
    text.parse().unwrap()
}

#[test]
fn the_closing_token_is_the_last_of_its_delimiter() {
    let t = tokenizer();
    assert_eq!(thinking_end_token_id(Some(&t), Some(10), &None), Some(5));
    let own = Some("hello stop".to_owned());
    assert_eq!(thinking_end_token_id(Some(&t), Some(10), &own), Some(2));
    assert_eq!(thinking_end_token_id(Some(&t), None, &None), None);
    assert_eq!(thinking_end_token_id(None, Some(10), &None), None);
    let blank = Some(String::new());
    assert_eq!(thinking_end_token_id(Some(&t), Some(10), &blank), None);
    assert_eq!(last_token_id(&Some(vec![])), None);
    assert_eq!(last_token_id(&None), None);
}

#[test]
fn the_first_system_message_counts() {
    let ms = vec![
        message("user", "a"),
        message("system", "b"),
        message("system", "c"),
    ];
    assert_eq!(system_prompt(&ms).as_deref(), Some("b"));
    assert_eq!(system_prompt(&vec![message("user", "a")]), None);
}

// ── Tool calls in the form of bare JSON ──────────────────────────────────────

fn normalized(name: &str, schema: &str) -> NormalizedTool {
    NormalizedTool {
        name: name.to_owned(),
        description: None,
        schema: json(schema),
    }
}

const F_BRANCH: &str = r#"{"additionalProperties":false,"properties":{"arguments":{"properties":{"a":{"type":"string"}},"type":"object"},"name":{"const":"f","type":"string"}},"required":["name","arguments"],"type":"object"}"#;

const G_BRANCH: &str = r#"{"additionalProperties":false,"properties":{"arguments":{"type":"object"},"name":{"const":"g","type":"string"}},"required":["name","arguments"],"type":"object"}"#;

#[test]
fn schemas_of_tool_choices() {
    let f = || normalized("f", r#"{"type":"object","properties":{"a":{"type":"string"}}}"#);
    // A schema that is no object stands for any object.
    let g = || normalized("g", "null");
    let text = |c: NormalizedToolChoice, ts: Vec<NormalizedTool>| {
        tool_choice_to_schema(&c, &ts).map(|j| render_json(&j))
    };
    assert_eq!(
        text(NormalizedToolChoice::Named("g".to_owned()), vec![f(), g()]).as_deref(),
        Some(G_BRANCH)
    );
    assert_eq!(
        text(NormalizedToolChoice::Named("h".to_owned()), vec![f(), g()]),
        None
    );
    assert_eq!(
        text(NormalizedToolChoice::Required, vec![f(), g()]),
        Some(format!(r#"{{"oneOf":[{F_BRANCH},{G_BRANCH}]}}"#))
    );
    assert_eq!(
        text(NormalizedToolChoice::Required, vec![f()]),
        Some(format!(r#"{{"oneOf":[{F_BRANCH}]}}"#))
    );
    assert_eq!(text(NormalizedToolChoice::Required, vec![]), None);
    assert_eq!(text(NormalizedToolChoice::Auto, vec![f()]), None);
    assert_eq!(text(NormalizedToolChoice::Never, vec![f()]), None);
}

#[test]
fn a_fraction_in_a_tool_call_keeps_its_digits() {
    for i in 1..400u32 {
        let digits = f64::from(i).sqrt() * 1e-9 + 0.1;
        let text = format!(r#"{{"name":"f","arguments":{{"a":{digits}}}}}"#);
        let call = bare_json_to_tool_call(&text, "id".to_owned()).unwrap();
        let whole: serde_json::Value = serde_json::from_str(&text).unwrap();
        assert_eq!(render_json(&call.arguments), whole["arguments"].to_string());
    }
}

#[test]
fn bare_json_reads_as_a_call() {
    let read = |s: &str| bare_json_to_tool_call(s, "call_1".to_owned());
    let c = read(" {\"name\":\"f\",\"arguments\":{\"a\":1}}\n").unwrap();
    assert_eq!(c.id, "call_1");
    assert_eq!(c.name, "f");
    assert_eq!(render_json(&c.arguments), r#"{"a":1}"#);
    let c = read(r#"{"name":"f","arguments":"{\"a\":[2]}"}"#).unwrap();
    assert_eq!(render_json(&c.arguments), r#"{"a":[2]}"#);
}

#[test]
fn bare_json_that_is_no_call() {
    for text in [
        "",
        "f",
        "[]",
        r#"{"name":"f"}"#,
        r#"{"arguments":{}}"#,
        r#"{"name":"","arguments":{}}"#,
        r#"{"name":7,"arguments":{}}"#,
        r#"{"name":"f","arguments":null}"#,
        r#"{"name":"f","arguments":[1]}"#,
        r#"{"name":"f","arguments":"[1]"}"#,
        r#"{"name":"f","arguments":"x"}"#,
    ] {
        assert!(
            bare_json_to_tool_call(text, "id".to_owned()).is_none(),
            "{text}"
        );
    }
}
