//! From a chat request to a generation request.
//!
//! The handler alternates decisions with outside work: it looks a model up,
//! renders the prompt, tokenizes it, builds a grammar, waits for the device. The
//! decisions are made here.

use vstd::prelude::*;

use crate::engine::kv_quant::KvQuant;
use crate::engine::think::{leaves_open, prompt_leaves_think_open};
use crate::engine::types::{
    normalized_to_jinja_tool, template_tool, GenerationRequest, NormalizedResponseFormat,
    NormalizedTool, NormalizedToolChoice, RequestV, ResponseFormatV, SamplingParams, ToolChoiceV,
    ToolV,
};
use crate::json::{Json, JsonV};
use crate::openai::encoding::{
    can_encode, encodable, encode_ids, encodings, ids_view, model_of,
};
use crate::openai::errors::enforce_max_tokens_cap;
use crate::openai::reply::{
    bad_request, bad_request_reply, error_body, error_reply, error_response, internal_error,
    internal_reply, make_error_body, retry_reply, service_unavailable, unavailable_reply, Reply,
    ReplyV,
};
use crate::openai::request::{
    extract_audio_parts, extract_image_parts, message_text, parts_audio, parts_images, stop_list,
    ChatCompletionsRequest, ChatMessage, ChatMessageV, ContentV, MessageContent, StopSequences,
};
use crate::openai::tool_call::{choice_schema, tool_choice_to_schema};
use crate::session_cache::{effective_prompt_cache_slots, KeyV, SessionCache, SessionKey};
use crate::text::{
    chars_of, copy_opt_text, copy_texts, decimal, join2, join3, lemma_views_add, match_at,
    occurs_at, opt_view, opt_views, starts_with, string_of, text_eq, u64_text, views,
};

verus! {

// ── Messages ─────────────────────────────────────────────────────────────────

/// The text of the first system message.
pub open spec fn first_system(ms: Seq<ChatMessageV>) -> Option<Seq<char>>
    decreases ms.len(),
{
    if ms.len() == 0 {
        None
    } else if ms[0].role == "system"@ {
        Some(message_text(ms[0]))
    } else {
        first_system(ms.subrange(1, ms.len() as int))
    }
}

/// The text of the first system message.
pub fn system_prompt(messages: &Vec<ChatMessage>) -> (r: Option<String>)
    ensures
        opt_view(r) == first_system(views(messages@)),
{
    let ghost all = views(messages@);
    let mut i: usize = 0;
    proof {
        assert(all.subrange(0, all.len() as int) =~= all);
    }
    while i < messages.len()
        invariant
            i <= messages@.len(),
            all == views(messages@),
            first_system(all) == first_system(all.subrange(i as int, all.len() as int)),
        decreases messages@.len() - i,
    {
        proof {
            let rest = all.subrange(i as int, all.len() as int);
            assert(rest[0] == messages@[i as int]@);
            assert(rest.subrange(1, rest.len() as int) =~= all.subrange(i + 1, all.len() as int));
        }
        if text_eq(messages[i].role.as_str(), "system") {
            return Some(messages[i].content_text());
        }
        i += 1;
    }
    None
}

/// The images of a user message.
pub open spec fn message_images(m: ChatMessageV) -> Seq<Seq<char>> {
    match m.content {
        Some(ContentV::Parts(ps)) if m.role == "user"@ => parts_images(ps),
        _ => Seq::empty(),
    }
}

/// The audio clips of a user message.
pub open spec fn message_audio(m: ChatMessageV) -> Seq<Seq<char>> {
    match m.content {
        Some(ContentV::Parts(ps)) if m.role == "user"@ => parts_audio(ps),
        _ => Seq::empty(),
    }
}

/// The images of all user messages, in order.
pub open spec fn user_images(ms: Seq<ChatMessageV>) -> Seq<Seq<char>>
    decreases ms.len(),
{
    if ms.len() == 0 {
        Seq::empty()
    } else {
        user_images(ms.drop_last()) + message_images(ms.last())
    }
}

/// The audio clips of all user messages, in order.
pub open spec fn user_audio(ms: Seq<ChatMessageV>) -> Seq<Seq<char>>
    decreases ms.len(),
{
    if ms.len() == 0 {
        Seq::empty()
    } else {
        user_audio(ms.drop_last()) + message_audio(ms.last())
    }
}

/// The images and the audio clips of all user messages, in order.
pub fn user_media(messages: &Vec<ChatMessage>) -> (r: (Vec<String>, Vec<String>))
    ensures
        views(r.0@) == user_images(views(messages@)),
        views(r.1@) == user_audio(views(messages@)),
{
    let ghost all = views(messages@);
    let mut images: Vec<String> = Vec::new();
    let mut audio: Vec<String> = Vec::new();
    let mut i: usize = 0;
    proof {
        assert(all.subrange(0, 0) =~= Seq::empty());
        assert(views(images@) =~= Seq::empty());
        assert(views(audio@) =~= Seq::empty());
    }
    while i < messages.len()
        invariant
            i <= messages@.len(),
            all == views(messages@),
            views(images@) == user_images(all.subrange(0, i as int)),
            views(audio@) == user_audio(all.subrange(0, i as int)),
        decreases messages@.len() - i,
    {
        let m = &messages[i];
        proof {
            let next = all.subrange(0, i + 1);
            assert(next.drop_last() =~= all.subrange(0, i as int));
            assert(next.last() == m@);
        }
        let ghost (images0, audio0) = (images@, audio@);
        if text_eq(m.role.as_str(), "user") {
            match &m.content {
                Some(MessageContent::Parts(parts)) => {
                    let mut more_images = extract_image_parts(parts);
                    let mut more_audio = extract_audio_parts(parts);
                    proof {
                        lemma_views_add(images0, more_images@);
                        lemma_views_add(audio0, more_audio@);
                    }
                    images.append(&mut more_images);
                    audio.append(&mut more_audio);
                },
                _ => {},
            }
        }
        proof {
            assert(views(images@) =~= views(images0) + message_images(m@));
            assert(views(audio@) =~= views(audio0) + message_audio(m@));
        }
        i += 1;
    }
    proof {
        assert(all.subrange(0, i as int) =~= all);
    }
    (images, audio)
}

// ── Tools ────────────────────────────────────────────────────────────────────

/// The tools that a template is rendered with: all of the request, when the
/// template can render tools.
pub open spec fn rendered_tools(tools: Option<Seq<ToolV>>, supported: bool) -> Seq<JsonV> {
    match tools {
        Some(ts) if supported => Seq::new(ts.len(), |i: int| template_tool(ts[i])),
        _ => Seq::empty(),
    }
}

/// The tools that a template is rendered with.
pub fn jinja_tools(tools: &Option<Vec<NormalizedTool>>, supported: bool) -> (r: Vec<Json>)
    ensures
        views(r@) == rendered_tools(opt_views(*tools), supported),
{
    let mut out: Vec<Json> = Vec::new();
    proof {
        assert(views(out@) =~= Seq::empty());
    }
    if !supported {
        return out;
    }
    match tools {
        None => out,
        Some(ts) => {
            let mut i: usize = 0;
            while i < ts.len()
                invariant
                    i <= ts@.len(),
                    out@.len() == i,
                    forall|k: int| 0 <= k < i ==> (#[trigger] out@[k])@ == template_tool(ts@[k]@),
                decreases ts@.len() - i,
            {
                out.push(normalized_to_jinja_tool(&ts[i]));
                i += 1;
            }
            proof {
                assert(views(out@) =~= rendered_tools(opt_views(*tools), true));
            }
            out
        },
    }
}

/// The schema that the tool choice of a request demands, with tools at hand.
pub open spec fn demanded_schema(choice: Option<ToolChoiceV>, tools: Option<Seq<ToolV>>) -> Option<
    JsonV,
> {
    match (choice, tools) {
        (Some(c), Some(ts)) if ts.len() > 0 => choice_schema(c, ts),
        _ => None,
    }
}

/// The schema that the tool choice of a request demands.
pub fn request_schema(
    choice: &Option<NormalizedToolChoice>,
    tools: &Option<Vec<NormalizedTool>>,
) -> (r: Option<Json>)
    ensures
        match r {
            Some(j) => demanded_schema(opt_view(*choice), opt_views(*tools)) == Some(j@),
            None => demanded_schema(opt_view(*choice), opt_views(*tools)) is None,
        },
{
    match choice {
        None => None,
        Some(c) => match tools {
            None => None,
            Some(ts) => if ts.len() == 0 {
                None
            } else {
                tool_choice_to_schema(c, ts)
            },
        },
    }
}

/// How the output of a request is treated.
#[derive(Debug, Clone, Copy, PartialEq, Eq, Structural)]
pub struct OutputMode {
    /// The output is a tool call in the form of bare JSON.
    pub bare_json_tool_call: bool,
    /// Only the JSON value in the output is wanted.
    pub json_object: bool,
    /// The output goes through a tool-call parser.
    pub use_parser: bool,
    /// Tool markers are put back into the decoded text.
    pub emit_tool_markers: bool,
}

/// An output format that demands JSON.
pub open spec fn demands_json(format: Option<ResponseFormatV>) -> bool {
    match format {
        Some(ResponseFormatV::JsonObject) => true,
        Some(ResponseFormatV::JsonSchema(_, _, _)) => true,
        _ => false,
    }
}

/// How the output is treated. Tools are in use when the template was rendered
/// with some and their format is known; a demanded call takes the place of the
/// parser.
pub open spec fn output_mode_of(
    demanded: bool,
    rendered: bool,
    format_known: bool,
    format: Option<ResponseFormatV>,
) -> OutputMode {
    OutputMode {
        bare_json_tool_call: demanded,
        json_object: demanded || demands_json(format),
        use_parser: !demanded && rendered && format_known,
        emit_tool_markers: rendered && format_known,
    }
}

fn format_demands_json(format: &Option<NormalizedResponseFormat>) -> (r: bool)
    ensures
        r == demands_json(opt_view(*format)),
{
    match format {
        Some(NormalizedResponseFormat::JsonObject) => true,
        Some(NormalizedResponseFormat::JsonSchema { .. }) => true,
        Some(NormalizedResponseFormat::Text) => false,
        None => false,
    }
}

/// How the output is treated. `demanded` says whether a tool call is demanded,
/// `rendered` whether the template was rendered with tools, `format_known`
/// whether the model's tool-call format is known.
pub fn output_mode(
    demanded: bool,
    rendered: bool,
    format_known: bool,
    format: &Option<NormalizedResponseFormat>,
) -> (r: OutputMode)
    ensures
        r == output_mode_of(demanded, rendered, format_known, opt_view(*format)),
{
    OutputMode {
        bare_json_tool_call: demanded,
        json_object: demanded || format_demands_json(format),
        use_parser: !demanded && rendered && format_known,
        emit_tool_markers: rendered && format_known,
    }
}

// ── Constraints ──────────────────────────────────────────────────────────────

/// The sampler constraint that a request needs.
#[derive(Debug)]
pub enum ConstraintPlan {
    Unconstrained,
    /// Output is held to this schema from the first token on. Where the schema
    /// cannot be enforced the output is free.
    ToolChoice { schema: Json },
    /// Output is held to this schema.
    Schema { schema: Json, strict: bool },
    /// Output is held to JSON syntax.
    JsonObject,
    /// A constraint that lets everything through.
    NoOp,
}

pub enum ConstraintV {
    Unconstrained,
    ToolChoice(JsonV),
    Schema(JsonV, bool),
    JsonObject,
    NoOp,
}

impl View for ConstraintPlan {
    type V = ConstraintV;

    open spec fn view(&self) -> ConstraintV {
        match self {
            ConstraintPlan::Unconstrained => ConstraintV::Unconstrained,
            ConstraintPlan::ToolChoice { schema } => ConstraintV::ToolChoice(schema@),
            ConstraintPlan::Schema { schema, strict } => ConstraintV::Schema(schema@, *strict),
            ConstraintPlan::JsonObject => ConstraintV::JsonObject,
            ConstraintPlan::NoOp => ConstraintV::NoOp,
        }
    }
}

/// The sampler constraint that a request needs. A demanded tool call comes first;
/// without a tokenizer nothing can be enforced.
pub open spec fn constraint_of(
    demanded: Option<JsonV>,
    format: Option<ResponseFormatV>,
    has_tokenizer: bool,
) -> ConstraintV {
    match demanded {
        Some(schema) => if has_tokenizer {
            ConstraintV::ToolChoice(schema)
        } else {
            ConstraintV::Unconstrained
        },
        None => match format {
            Some(ResponseFormatV::JsonObject) => if has_tokenizer {
                ConstraintV::JsonObject
            } else {
                ConstraintV::NoOp
            },
            Some(ResponseFormatV::JsonSchema(_, strict, schema)) => if has_tokenizer {
                ConstraintV::Schema(schema, strict)
            } else {
                ConstraintV::NoOp
            },
            _ => ConstraintV::Unconstrained,
        },
    }
}

/// The sampler constraint that a request needs.
pub fn plan_constraint(
    demanded: Option<Json>,
    format: &Option<NormalizedResponseFormat>,
    has_tokenizer: bool,
) -> (r: ConstraintPlan)
    ensures
        r@ == constraint_of(
            match demanded {
                Some(j) => Some(j@),
                None => None,
            },
            opt_view(*format),
            has_tokenizer,
        ),
{
    match demanded {
        Some(schema) => if has_tokenizer {
            ConstraintPlan::ToolChoice { schema }
        } else {
            ConstraintPlan::Unconstrained
        },
        None => match format {
            Some(NormalizedResponseFormat::JsonObject) => if has_tokenizer {
                ConstraintPlan::JsonObject
            } else {
                ConstraintPlan::NoOp
            },
            Some(NormalizedResponseFormat::JsonSchema { name: _, strict, schema }) => {
                if has_tokenizer {
                    ConstraintPlan::Schema { schema: schema.duplicate(), strict: *strict }
                } else {
                    ConstraintPlan::NoOp
                }
            },
            Some(NormalizedResponseFormat::Text) => ConstraintPlan::Unconstrained,
            None => ConstraintPlan::Unconstrained,
        },
    }
}

/// How building a schema constraint failed.
#[derive(Debug)]
pub struct SchemaFailure {
    /// A keyword cannot be enforced in strict mode.
    pub unsupported_keyword: bool,
    pub message: String,
}

/// The reply to a request whose schema cannot be enforced.
pub open spec fn schema_reply(unsupported_keyword: bool, message: Seq<char>) -> ReplyV {
    if unsupported_keyword {
        error_reply(
            400,
            "unsupported_schema_keyword"@,
            "response_format.json_schema.schema uses a keyword rMLX cannot enforce in strict mode: "@
                + message,
        )
    } else {
        bad_request_reply(
            "response_format.json_schema.schema is not a valid JSON Schema: "@ + message,
        )
    }
}

/// Whether a constraint goes with the request, once the attempt to build it has
/// failed (`failure`) or not. A demanded tool call falls back to free output; a
/// schema of the request's own is refused.
pub fn constraint_outcome(plan: &ConstraintPlan, failure: Option<SchemaFailure>) -> (r: Result<
    bool,
    Reply,
>)
    ensures
        match plan@ {
            ConstraintV::Unconstrained => r matches Ok(b) && !b,
            ConstraintV::ToolChoice(_) => r matches Ok(b) && b == failure is None,
            ConstraintV::Schema(_, _) => match failure {
                None => r matches Ok(b) && b,
                Some(f) => r matches Err(reply) && reply@ == schema_reply(
                    f.unsupported_keyword,
                    f.message@,
                ),
            },
            ConstraintV::JsonObject => r matches Ok(b) && b,
            ConstraintV::NoOp => r matches Ok(b) && b,
        },
{
    match plan {
        ConstraintPlan::Unconstrained => Ok(false),
        ConstraintPlan::ToolChoice { .. } => Ok(failure.is_none()),
        ConstraintPlan::Schema { .. } => match failure {
            None => Ok(true),
            Some(f) => if f.unsupported_keyword {
                Err(
                    error_response(
                        400,
                        "unsupported_schema_keyword",
                        join2(
                            "response_format.json_schema.schema uses a keyword rMLX cannot enforce in strict mode: ",
                            f.message.as_str(),
                        ).as_str(),
                    ),
                )
            } else {
                Err(
                    bad_request(
                        join2(
                            "response_format.json_schema.schema is not a valid JSON Schema: ",
                            f.message.as_str(),
                        ).as_str(),
                    ),
                )
            },
        },
        ConstraintPlan::JsonObject => Ok(true),
        ConstraintPlan::NoOp => Ok(true),
    }
}

// ── The thinking channel ─────────────────────────────────────────────────────

/// What a template appended for the assistant's turn: the rendered prompt behind
/// the prompt rendered without it. Where it did not simply append, the whole
/// prompt.
pub open spec fn appended(rendered: Seq<char>, base: Option<Seq<char>>) -> Seq<char> {
    match base {
        Some(b) if starts_with(rendered, b) => rendered.subrange(
            b.len() as int,
            rendered.len() as int,
        ),
        _ => rendered,
    }
}

fn appended_text(rendered: &str, base: Option<&str>) -> (r: String)
    ensures
        r@ == appended(
            rendered@,
            match base {
                Some(b) => Some(b@),
                None => None,
            },
        ),
{
    let cs = chars_of(rendered);
    match base {
        Some(b) => {
            let p = chars_of(b);
            if match_at(&cs, &p, 0) {
                return string_of(&cs, p.len(), cs.len());
            }
        },
        None => {},
    }
    proof {
        assert(cs@.subrange(0, cs@.len() as int) =~= cs@);
    }
    string_of(&cs, 0, cs.len())
}

/// The delimiter of a request, or the default.
pub open spec fn delimiter_of(given: Option<Seq<char>>, default: Seq<char>) -> Seq<char> {
    match given {
        Some(d) => d,
        None => default,
    }
}

/// A prompt ends inside a thinking block: what the template appended leaves one
/// open.
pub open spec fn think_open(
    rendered: Seq<char>,
    base: Option<Seq<char>>,
    start: Option<Seq<char>>,
    end: Option<Seq<char>>,
) -> bool {
    let s = delimiter_of(start, "<think>"@);
    let e = delimiter_of(end, "</think>"@);
    s.len() > 0 && e.len() > 0 && leaves_open(appended(rendered, base), s, e)
}

/// Whether a prompt ends inside a thinking block. `base` is the prompt rendered
/// without the assistant's turn, where that succeeded; only what the template
/// appended to it is looked at, since a message may hold a delimiter.
pub fn prompt_think_open(
    rendered: &str,
    base: Option<&str>,
    start: &Option<String>,
    end: &Option<String>,
) -> (r: bool)
    ensures
        r == think_open(
            rendered@,
            match base {
                Some(b) => Some(b@),
                None => None,
            },
            opt_view(*start),
            opt_view(*end),
        ),
{
    let s: &str = match start {
        Some(d) => d.as_str(),
        None => "<think>",
    };
    let e: &str = match end {
        Some(d) => d.as_str(),
        None => "</think>",
    };
    prompt_leaves_think_open(appended_text(rendered, base).as_str(), s, e)
}

/// What the messages say does not decide the channel: with a template that simply
/// appends `turn`, two prompts with the same turn are on the same channel.
pub proof fn law_messages_do_not_decide_channel(
    base: Seq<char>,
    other: Seq<char>,
    turn: Seq<char>,
    start: Option<Seq<char>>,
    end: Option<Seq<char>>,
)
    ensures
        think_open(base + turn, Some(base), start, end) == think_open(
            other + turn,
            Some(other),
            start,
            end,
        ),
        think_open(base + turn, Some(base), start, end) == think_open(turn, None, start, end),
{
    lemma_appended(base, turn);
    lemma_appended(other, turn);
}

proof fn lemma_appended(base: Seq<char>, turn: Seq<char>)
    ensures
        appended(base + turn, Some(base)) == turn,
{
    assert((base + turn).subrange(0, base.len() as int) =~= base);
    assert(occurs_at(base + turn, base, 0));
    assert((base + turn).subrange(base.len() as int, (base + turn).len() as int) =~= turn);
}

/// The last id of an outcome.
pub open spec fn last_id(ids: Option<Seq<u32>>) -> Option<u32> {
    match ids {
        Some(v) if v.len() > 0 => Some(v.last()),
        _ => None,
    }
}

/// The last of the ids that a delimiter was encoded to.
pub fn last_token_id(ids: &Option<Vec<u32>>) -> (r: Option<u32>)
    ensures
        r == last_id(ids_view(*ids)),
{
    match ids {
        Some(v) => if v.len() == 0 {
            None
        } else {
            Some(v[v.len() - 1])
        },
        None => None,
    }
}

/// The token that closes the thinking block when the budget is exceeded: the last
/// token of the closing delimiter. Without a budget there is none, nor without a
/// tokenizer that can encode every text.
pub fn thinking_end_token_id(
    tokenizer: Option<&tokenizers::Tokenizer>,
    thinking_budget: Option<u32>,
    end: &Option<String>,
) -> (r: Option<u32>)
    ensures
        match (tokenizer, thinking_budget) {
            (Some(t), Some(_)) if encodable(*t) => {
                let outcomes = encodings(*t, delimiter_of(opt_view(*end), "</think>"@));
                &&& exists|ids: Option<Seq<u32>>| #[trigger]
                    outcomes.contains(ids) && r == last_id(ids)
                &&& !model_of(*t).random ==> forall|ids: Option<Seq<u32>>| #[trigger]
                    outcomes.contains(ids) ==> r == last_id(ids)
            },
            _ => r is None,
        },
{
    if thinking_budget.is_none() {
        return None;
    }
    match tokenizer {
        None => None,
        Some(t) => {
            if !can_encode(t) {
                return None;
            }
            let text: &str = match end {
                Some(d) => d.as_str(),
                None => "</think>",
            };
            let ids = encode_ids(t, text);
            assert(encodings(*t, delimiter_of(opt_view(*end), "</think>"@)).contains(
                ids_view(ids),
            ));
            last_token_id(&ids)
        },
    }
}

// ── Refusals ─────────────────────────────────────────────────────────────────

/// The reply when a model is not registered.
pub fn model_not_found(model: &str) -> (r: Reply)
    ensures
        r@ == error_reply(
            404,
            "not_found_error"@,
            "model '"@ + model@ + "' not found in registry"@,
        ),
{
    error_response(
        404,
        "not_found_error",
        join3("model '", model, "' not found in registry").as_str(),
    )
}

/// The reply when a model has no template or no tokenizer.
pub fn model_not_ready(model: &str) -> (r: Reply)
    ensures
        r@ == unavailable_reply(
            "model '"@ + model@
                + "' is not ready (missing chat_template.jinja or tokenizer.json)"@,
        ),
{
    service_unavailable(
        join3(
            "model '",
            model,
            "' is not ready (missing chat_template.jinja or tokenizer.json)",
        ).as_str(),
    )
}

/// How making the prompt failed.
#[derive(Debug)]
pub enum PipelineFailure {
    Render(String),
    Encode(String),
    Panicked,
}

/// The reply when making the prompt failed.
pub fn pipeline_failed(f: &PipelineFailure) -> (r: Reply)
    ensures
        r@ == match f {
            PipelineFailure::Render(e) => unavailable_reply("chat template render failed: "@ + e@),
            PipelineFailure::Encode(e) => unavailable_reply("tokenizer encode failed: "@ + e@),
            PipelineFailure::Panicked => internal_reply("prompt pipeline task panicked"@),
        },
{
    match f {
        PipelineFailure::Render(e) => service_unavailable(
            join2("chat template render failed: ", e.as_str()).as_str(),
        ),
        PipelineFailure::Encode(e) => service_unavailable(
            join2("tokenizer encode failed: ", e.as_str()).as_str(),
        ),
        PipelineFailure::Panicked => internal_error("prompt pipeline task panicked"),
    }
}

/// The greatest number of tokens to generate: the request's, or 512, held against
/// the server's cap.
pub fn request_max_tokens(requested: Option<u32>, cap: u32) -> (r: Result<u32, Reply>)
    ensures
        ({
            let n: u32 = match requested {
                Some(m) => m,
                None => 512,
            };
            match r {
                Ok(v) => n <= cap && v == n,
                Err(reply) => n > cap && reply@ == bad_request_reply(
                    "max_tokens "@ + decimal(n as nat) + " exceeds server cap "@ + decimal(
                        cap as nat,
                    ),
                ),
            }
        }),
{
    let n: u32 = match requested {
        Some(m) => m,
        None => 512,
    };
    enforce_max_tokens_cap(n, cap)
}

/// The reply to a prompt that does not fit the context.
pub open spec fn context_reply(message: Seq<char>) -> ReplyV {
    error_reply(400, "context_length_exceeded"@, message)
}

/// The context that a request has. An override of its own is resolved against
/// the model's limits, where they are known (`resolved`); a refused one is the
/// error. Without an override, the generator's.
pub fn context_ceiling(
    max_ctx_override: Option<i32>,
    resolved: Option<Result<usize, String>>,
    generator_ceiling: usize,
) -> (r: Result<usize, Reply>)
    requires
        max_ctx_override matches Some(n) ==> n > 0,
    ensures
        match max_ctx_override {
            None => r matches Ok(c) && c == generator_ceiling,
            Some(n) => match resolved {
                None => r matches Ok(c) && c == n,
                Some(Ok(limit)) => r matches Ok(c) && c == limit,
                Some(Err(e)) => r matches Err(reply) && reply@ == context_reply(e@),
            },
        },
{
    match max_ctx_override {
        None => Ok(generator_ceiling),
        Some(n) => match resolved {
            None => Ok(n as usize),
            Some(Ok(limit)) => Ok(limit),
            Some(Err(e)) => Err(error_response(400, "context_length_exceeded", e.as_str())),
        },
    }
}

/// Refuses a prompt that does not fit the context.
pub fn check_context(prompt_len: usize, ceiling: usize) -> (r: Result<(), Reply>)
    ensures
        match r {
            Ok(_) => prompt_len <= ceiling,
            Err(reply) => prompt_len > ceiling && reply@ == context_reply(
                "prompt has "@ + decimal(prompt_len as nat) + " tokens, max_ctx is "@ + decimal(
                    ceiling as nat,
                ),
            ),
        },
{
    if prompt_len > ceiling {
        let head = join3("prompt has ", u64_text(prompt_len as u64).as_str(), " tokens, max_ctx is ");
        Err(
            error_response(
                400,
                "context_length_exceeded",
                join2(head.as_str(), u64_text(ceiling as u64).as_str()).as_str(),
            ),
        )
    } else {
        Ok(())
    }
}

/// The size of the key-value cache that an admission estimate goes by: of the one
/// resident model, and zero where there is none or more than one.
pub fn admission_kv_bytes(resident: &Vec<u64>) -> (r: u64)
    ensures
        r == if resident@.len() == 1 {
            resident@[0]
        } else {
            0
        },
{
    if resident.len() == 1 {
        resident[0]
    } else {
        0
    }
}

/// The reply to a request that would wait too long: retry in five seconds.
pub fn admission_refused() -> (r: Reply)
    ensures
        r@ == retry_reply(
            503,
            error_body(
                "admission_sla_exceeded"@,
                "request rejected: predicted TTFT exceeds SLA threshold; retry after backoff"@,
            ),
        ),
{
    Reply::retry(
        503,
        make_error_body(
            "admission_sla_exceeded",
            "request rejected: predicted TTFT exceeds SLA threshold; retry after backoff",
        ),
    )
}

/// The reply when the queue is full.
pub fn queue_full_reply() -> (r: Reply)
    ensures
        r@ == error_reply(429, "rate_limit_error"@, "server queue full"@),
{
    error_response(429, "rate_limit_error", "server queue full")
}

/// The context size under which metrics are recorded.
pub fn metrics_ctx_max(effective_max_ctx: usize) -> (r: i64)
    ensures
        r == if effective_max_ctx < 1_048_576 {
            effective_max_ctx as int
        } else {
            1_048_576
        },
{
    if effective_max_ctx < 1_048_576 {
        effective_max_ctx as i64
    } else {
        1_048_576
    }
}

// ── Sessions ─────────────────────────────────────────────────────────────────

/// The key of a request's session.
pub open spec fn session_key(model: Seq<char>, session: Seq<char>) -> KeyV {
    KeyV { model_id: model, session_id: session }
}

/// Records a request in its session and gives the number of prompt-cache slots
/// that it runs with. A request without a session leaves everything as it is.
pub fn session_slots(
    cache: &mut SessionCache,
    model: &str,
    session_id: &Option<String>,
    prompt_len: usize,
    base: usize,
) -> (r: Option<usize>)
    requires
        old(cache)@.valid(),
        opt_view(*session_id) matches Some(s) ==> base + old(cache)@.touched(
            session_key(model@, s),
            prompt_len as nat,
        ).sessions.len() <= usize::MAX,
    ensures
        final(cache)@.valid(),
        match opt_view(*session_id) {
            None => final(cache)@ == old(cache)@ && r is None,
            Some(s) => {
                let after = old(cache)@.touched(session_key(model@, s), prompt_len as nat);
                &&& final(cache)@ == after
                &&& r == if base == 0 {
                    None
                } else {
                    Some((base + after.sessions.len()) as usize)
                }
            },
        },
{
    match session_id {
        None => None,
        Some(s) => {
            let key = SessionKey { model_id: model.to_owned(), session_id: s.clone() };
            let _ = cache.touch(key, prompt_len);
            effective_prompt_cache_slots(base, cache.active_count())
        },
    }
}

// ── The generation request ───────────────────────────────────────────────────

/// What has been worked out for a request.
#[derive(Debug)]
pub struct Prepared {
    pub prompt_tokens: Vec<u32>,
    pub prompt_think_open: bool,
    pub max_tokens: u32,
    pub sampling: SamplingParams,
    pub top_logprobs_k: u32,
    pub session_id: Option<String>,
    pub effective_prompt_cache_slots: Option<usize>,
    pub tools: Option<Vec<NormalizedTool>>,
    pub tool_choice: Option<NormalizedToolChoice>,
    pub response_format: Option<NormalizedResponseFormat>,
    pub has_constraint: bool,
    pub thinking_end_token_id: Option<u32>,
    pub enable_thinking: Option<bool>,
    pub emit_tool_markers: bool,
    pub kv_quant_override: Option<KvQuant>,
    pub default_image_max_tokens: Option<usize>,
}

/// The stop sequences of a request; none when it has none.
pub open spec fn request_stops(stop: Option<StopSequences>) -> Seq<Seq<char>> {
    match stop {
        Some(s) => stop_list(s),
        None => Seq::empty(),
    }
}

/// The generation request for a chat request.
pub open spec fn generation_request(req: ChatCompletionsRequest, p: Prepared) -> RequestV {
    RequestV {
        model_id: req.model@,
        prompt_tokens: p.prompt_tokens@,
        max_tokens: p.max_tokens,
        sampling: crate::engine::types::SamplingV {
            top_logprobs_k: p.top_logprobs_k,
            ..p.sampling@
        },
        stop: request_stops(req.stop),
        stream: req.stream,
        system: first_system(views(req.messages@)),
        session_id: opt_view(p.session_id),
        effective_prompt_cache_slots: p.effective_prompt_cache_slots,
        tools: opt_views(p.tools),
        tool_choice: opt_view(p.tool_choice),
        response_format: opt_view(p.response_format),
        has_constraint: p.has_constraint,
        thinking_budget: req.thinking_budget,
        thinking_end_token_id: p.thinking_end_token_id,
        enable_thinking: p.enable_thinking,
        prompt_think_open: p.prompt_think_open,
        emit_tool_markers: p.emit_tool_markers,
        thinking_start_token: opt_view(req.thinking_start_token),
        thinking_end_token: opt_view(req.thinking_end_token),
        kv_quant_override: p.kv_quant_override,
        max_ctx_override: req.max_ctx,
        images: user_images(views(req.messages@)),
        audio_b64: user_audio(views(req.messages@)),
        image_max_tokens: match req.image_max_tokens {
            Some(n) => Some(n as usize),
            None => p.default_image_max_tokens,
        },
    }
}

fn copy_stops(stop: &Option<StopSequences>) -> (r: Vec<String>)
    ensures
        views(r@) == request_stops(*stop),
{
    match stop {
        None => {
            let out: Vec<String> = Vec::new();
            proof {
                assert(views(out@) =~= Seq::empty());
            }
            out
        },
        Some(StopSequences::One(s)) => {
            let mut out: Vec<String> = Vec::new();
            out.push(s.clone());
            proof {
                assert(views(out@) =~= seq![s@]);
            }
            out
        },
        Some(StopSequences::Many(v)) => copy_texts(v),
    }
}

/// The setting of a request, else the server's default.
pub fn effective_setting(request: Option<bool>, server: Option<bool>) -> (r: Option<bool>)
    ensures
        r == if request is Some {
            request
        } else {
            server
        },
{
    match request {
        Some(b) => Some(b),
        None => server,
    }
}

/// The generation request for a chat request, with what has been worked out for
/// it.
pub fn make_generation_request(req: &ChatCompletionsRequest, p: Prepared) -> (r: GenerationRequest)
    ensures
        r@ == generation_request(*req, p),
{
    let (images, audio_b64) = user_media(&req.messages);
    let sampling = SamplingParams { top_logprobs_k: p.top_logprobs_k, ..p.sampling };
    GenerationRequest {
        model_id: req.model.clone(),
        prompt_tokens: p.prompt_tokens,
        max_tokens: p.max_tokens,
        sampling,
        stop: copy_stops(&req.stop),
        stream: req.stream,
        system: system_prompt(&req.messages),
        session_id: p.session_id,
        effective_prompt_cache_slots: p.effective_prompt_cache_slots,
        tools: p.tools,
        tool_choice: p.tool_choice,
        response_format: p.response_format,
        has_constraint: p.has_constraint,
        thinking_budget: req.thinking_budget,
        thinking_end_token_id: p.thinking_end_token_id,
        enable_thinking: p.enable_thinking,
        prompt_think_open: p.prompt_think_open,
        emit_tool_markers: p.emit_tool_markers,
        thinking_start_token: copy_opt_text(&req.thinking_start_token),
        thinking_end_token: copy_opt_text(&req.thinking_end_token),
        kv_quant_override: p.kv_quant_override,
        max_ctx_override: req.max_ctx,
        images,
        audio_b64,
        image_max_tokens: match req.image_max_tokens {
            Some(n) => Some(n as usize),
            None => p.default_image_max_tokens,
        },
    }
}

// ── Laws ─────────────────────────────────────────────────────────────────────

/// A demanded tool call is never parsed from markers as well.
pub proof fn law_demanded_call_bypasses_parser(
    rendered: bool,
    format_known: bool,
    format: Option<ResponseFormatV>,
)
    ensures
        !output_mode_of(true, rendered, format_known, format).use_parser,
        output_mode_of(true, rendered, format_known, format).json_object,
{
}

/// Whether a prompt ends in thinking is decided by what the template appended to the
/// conversation, with the request's delimiters, else `<think>` and `</think>`.
pub proof fn law_appended_turn_decides_the_channel(
    rendered: &str,
    base: &str,
    turn: &str,
    start: Option<String>,
    end: Option<String>,
    opening: &str,
    closing: &str,
    r: bool,
    by_turn: bool,
)
    requires
        rendered@ == base@ + turn@,
        start matches Some(t) ==> opening@ == t@,
        start is None ==> opening@ == "<think>"@,
        end matches Some(t) ==> closing@ == t@,
        end is None ==> closing@ == "</think>"@,
        call_ensures(prompt_think_open, (rendered, Some(base), &start, &end), r),
        call_ensures(prompt_leaves_think_open, (turn, opening, closing), by_turn),
    ensures
        r == by_turn,
{
    lemma_appended(base@, turn@);
}

/// The token that closes a thinking block is the last one of the closing delimiter: the
/// request's, else `</think>`. A request without a budget has none.
pub proof fn law_closing_token_ends_the_delimiter(
    tokenizer: Option<&tokenizers::Tokenizer>,
    budget: Option<u32>,
    end: Option<String>,
    closing: Seq<char>,
    ids: Seq<u32>,
    r: Option<u32>,
)
    requires
        call_ensures(thinking_end_token_id, (tokenizer, budget, &end), r),
        end matches Some(t) ==> closing == t@,
        end is None ==> closing == "</think>"@,
        ids.len() > 0,
    ensures
        budget is None || tokenizer is None ==> r is None,
        budget is Some && (tokenizer matches Some(t) && encodable(*t) && !model_of(*t).random
            && encodings(*t, closing).contains(Some(ids))) ==> r == Some(ids[ids.len() - 1]),
{
    match tokenizer {
        Some(t) => {
            assert(delimiter_of(opt_view(end), "</think>"@) == closing);
            if budget is Some && encodable(*t) && !model_of(*t).random && encodings(
                *t,
                closing,
            ).contains(Some(ids)) {
                assert(r == last_id(Some(ids)));
            }
        },
        None => {},
    }
}

/// A request of a session is recorded under its model, session and prompt length, and
/// runs with a slot for every session on top of the configured ones; without a session,
/// or with a disabled cache, the number of slots stays open.
pub proof fn law_sessions_get_their_slots(
    cache: &mut SessionCache,
    model: &str,
    session_id: Option<String>,
    prompt_len: usize,
    base: usize,
    r: Option<usize>,
)
    requires
        call_ensures(session_slots, (cache, model, &session_id, prompt_len, base), r),
        old(cache)@.valid(),
        base + final(cache)@.sessions.len() <= usize::MAX,
    ensures
        session_id is None ==> r is None && final(cache)@ == old(cache)@,
        session_id matches Some(s) ==> {
            let last = final(cache)@.sessions.last();
            &&& last.key.model_id == model@
            &&& last.key.session_id == s@
            &&& last.prompt_len == prompt_len
            &&& base == 0 ==> r is None
            &&& base > 0 ==> r == Some((base + final(cache)@.sessions.len()) as usize)
        },
{
}

/// The context under which metrics are recorded is the model's, up to a mebitoken; an
/// admission estimate goes by the cache of a single resident model; a setting is the
/// request's, else the server's.
pub proof fn law_small_decisions(
    ctx: usize,
    recorded: i64,
    resident: Vec<u64>,
    bytes: u64,
    request: Option<bool>,
    server: Option<bool>,
    setting: Option<bool>,
)
    requires
        call_ensures(metrics_ctx_max, (ctx,), recorded),
        call_ensures(admission_kv_bytes, (&resident,), bytes),
        call_ensures(effective_setting, (request, server), setting),
    ensures
        ctx <= 1_048_576 ==> recorded == ctx,
        ctx > 1_048_576 ==> recorded == 1_048_576,
        resident@.len() == 1 ==> bytes == resident@[0],
        resident@.len() != 1 ==> bytes == 0,
        request is Some ==> setting == request,
        request is None ==> setting == server,
{
}

} // verus!
