//! The request that an engine serves, and the tokens that it produces.

use vstd::prelude::*;

use crate::engine::kv_quant::KvQuant;
use crate::float32::{F32, ONE_BITS};
use crate::json::{opt_str_value, Json, JsonV};
use crate::openai::response::{ChatLogprobContent, LogprobV};
use crate::text::{copy_opt_text, opt_view, opt_views, views};

verus! {

/// The phase of a generation.
#[derive(Debug, Clone, Copy, PartialEq, Eq, Hash, Structural)]
pub enum Phase {
    /// The prompt is being processed.
    Prefill,
    /// New tokens are being generated.
    Decode,
}

// ── Tools ────────────────────────────────────────────────────────────────────

/// A tool that the model may call.
#[derive(Debug)]
pub struct NormalizedTool {
    pub name: String,
    pub description: Option<String>,
    /// The JSON Schema of the arguments.
    pub schema: Json,
}

pub struct ToolV {
    pub name: Seq<char>,
    pub description: Option<Seq<char>>,
    pub schema: JsonV,
}

impl View for NormalizedTool {
    type V = ToolV;

    open spec fn view(&self) -> ToolV {
        ToolV {
            name: self.name@,
            description: opt_view(self.description),
            schema: self.schema@,
        }
    }
}

impl NormalizedTool {
    /// A tool of the same value.
    pub fn duplicate(&self) -> (r: NormalizedTool)
        ensures
            r@ == self@,
    {
        NormalizedTool {
            name: self.name.clone(),
            description: copy_opt_text(&self.description),
            schema: self.schema.duplicate(),
        }
    }
}

/// A vector of tools of the same values.
pub fn copy_tools(v: &Vec<NormalizedTool>) -> (r: Vec<NormalizedTool>)
    ensures
        views(r@) == views(v@),
{
    let mut out: Vec<NormalizedTool> = Vec::new();
    let mut i: usize = 0;
    while i < v.len()
        invariant
            i <= v@.len(),
            out@.len() == i,
            forall|k: int| 0 <= k < i ==> (#[trigger] out@[k])@ == v@[k]@,
        decreases v@.len() - i,
    {
        out.push(v[i].duplicate());
        i += 1;
    }
    proof {
        assert(views(out@) =~= views(v@));
    }
    out
}

/// Which tool the model is to call.
#[derive(Debug)]
pub enum NormalizedToolChoice {
    /// The model decides.
    Auto,
    /// None.
    Never,
    /// Some tool.
    Required,
    /// The tool of this name.
    Named(String),
}

pub enum ToolChoiceV {
    Auto,
    Never,
    Required,
    Named(Seq<char>),
}

impl View for NormalizedToolChoice {
    type V = ToolChoiceV;

    open spec fn view(&self) -> ToolChoiceV {
        match self {
            NormalizedToolChoice::Auto => ToolChoiceV::Auto,
            NormalizedToolChoice::Never => ToolChoiceV::Never,
            NormalizedToolChoice::Required => ToolChoiceV::Required,
            NormalizedToolChoice::Named(n) => ToolChoiceV::Named(n@),
        }
    }
}

impl NormalizedToolChoice {
    /// A choice of the same value.
    pub fn duplicate(&self) -> (r: NormalizedToolChoice)
        ensures
            r@ == self@,
    {
        match self {
            NormalizedToolChoice::Auto => NormalizedToolChoice::Auto,
            NormalizedToolChoice::Never => NormalizedToolChoice::Never,
            NormalizedToolChoice::Required => NormalizedToolChoice::Required,
            NormalizedToolChoice::Named(n) => NormalizedToolChoice::Named(n.clone()),
        }
    }
}

/// The shape in which chat templates expect a tool.
pub open spec fn template_tool(t: ToolV) -> JsonV {
    JsonV::object().with("type"@, JsonV::Str("function"@)).with(
        "function"@,
        JsonV::object().with("name"@, JsonV::Str(t.name)).with(
            "description"@,
            opt_str_value(t.description),
        ).with("parameters"@, t.schema),
    )
}

/// The tool in the shape in which chat templates expect it.
pub fn normalized_to_jinja_tool(t: &NormalizedTool) -> (r: Json)
    ensures
        r@ == template_tool(t@),
{
    let function = Json::object().with("name", Json::string(t.name.as_str())).with(
        "description",
        Json::opt_string(&t.description),
    ).with("parameters", t.schema.duplicate());
    Json::object().with("type", Json::string("function")).with("function", function)
}

// ── Response format ──────────────────────────────────────────────────────────

/// The output format that a request asks for.
#[derive(Debug)]
pub enum NormalizedResponseFormat {
    Text,
    JsonObject,
    JsonSchema { name: String, strict: bool, schema: Json },
}

pub enum ResponseFormatV {
    Text,
    JsonObject,
    JsonSchema(Seq<char>, bool, JsonV),
}

impl View for NormalizedResponseFormat {
    type V = ResponseFormatV;

    open spec fn view(&self) -> ResponseFormatV {
        match self {
            NormalizedResponseFormat::Text => ResponseFormatV::Text,
            NormalizedResponseFormat::JsonObject => ResponseFormatV::JsonObject,
            NormalizedResponseFormat::JsonSchema { name, strict, schema } => {
                ResponseFormatV::JsonSchema(name@, *strict, schema@)
            },
        }
    }
}

impl NormalizedResponseFormat {
    /// A format of the same value.
    pub fn duplicate(&self) -> (r: NormalizedResponseFormat)
        ensures
            r@ == self@,
    {
        match self {
            NormalizedResponseFormat::Text => NormalizedResponseFormat::Text,
            NormalizedResponseFormat::JsonObject => NormalizedResponseFormat::JsonObject,
            NormalizedResponseFormat::JsonSchema { name, strict, schema } => {
                NormalizedResponseFormat::JsonSchema {
                    name: name.clone(),
                    strict: *strict,
                    schema: schema.duplicate(),
                }
            },
        }
    }
}

// ── Sampling ─────────────────────────────────────────────────────────────────

/// The sampling parameters of a request, all resolved.
#[derive(Debug)]
pub struct SamplingParams {
    pub temperature: F32,
    pub top_p: F32,
    /// Zero disables the cutoff.
    pub top_k: u32,
    pub min_p: F32,
    pub repetition_penalty: F32,
    pub frequency_penalty: F32,
    pub presence_penalty: F32,
    /// Token ids with the bias of each.
    pub logit_bias: Vec<(u32, F32)>,
    pub seed: Option<u64>,
    /// How many alternatives to report per token; zero disables the report.
    pub top_logprobs_k: u32,
}

pub struct SamplingV {
    pub temperature: F32,
    pub top_p: F32,
    pub top_k: u32,
    pub min_p: F32,
    pub repetition_penalty: F32,
    pub frequency_penalty: F32,
    pub presence_penalty: F32,
    pub logit_bias: Seq<(u32, F32)>,
    pub seed: Option<u64>,
    pub top_logprobs_k: u32,
}

impl View for SamplingParams {
    type V = SamplingV;

    open spec fn view(&self) -> SamplingV {
        SamplingV {
            temperature: self.temperature,
            top_p: self.top_p,
            top_k: self.top_k,
            min_p: self.min_p,
            repetition_penalty: self.repetition_penalty,
            frequency_penalty: self.frequency_penalty,
            presence_penalty: self.presence_penalty,
            logit_bias: self.logit_bias@,
            seed: self.seed,
            top_logprobs_k: self.top_logprobs_k,
        }
    }
}

/// The parameters when nothing is set.
pub open spec fn default_sampling() -> SamplingV {
    SamplingV {
        temperature: F32 { bits: ONE_BITS },
        top_p: F32 { bits: ONE_BITS },
        top_k: 0,
        min_p: F32 { bits: 0 },
        repetition_penalty: F32 { bits: ONE_BITS },
        frequency_penalty: F32 { bits: 0 },
        presence_penalty: F32 { bits: 0 },
        logit_bias: seq![],
        seed: None,
        top_logprobs_k: 0,
    }
}

impl Default for SamplingParams {
    fn default() -> (r: Self)
        ensures
            r@ == default_sampling(),
    {
        let r = SamplingParams {
            temperature: F32 { bits: ONE_BITS },
            top_p: F32 { bits: ONE_BITS },
            top_k: 0,
            min_p: F32 { bits: 0 },
            repetition_penalty: F32 { bits: ONE_BITS },
            frequency_penalty: F32 { bits: 0 },
            presence_penalty: F32 { bits: 0 },
            logit_bias: Vec::new(),
            seed: None,
            top_logprobs_k: 0,
        };
        proof {
            assert(r.logit_bias@ =~= seq![]);
        }
        r
    }
}

impl SamplingParams {
    /// Parameters of the same value.
    pub fn duplicate(&self) -> (r: SamplingParams)
        ensures
            r@ == self@,
    {
        let mut bias: Vec<(u32, F32)> = Vec::new();
        let mut i: usize = 0;
        while i < self.logit_bias.len()
            invariant
                i <= self.logit_bias@.len(),
                bias@ == self.logit_bias@.subrange(0, i as int),
            decreases self.logit_bias@.len() - i,
        {
            bias.push(self.logit_bias[i]);
            i += 1;
            proof {
                assert(bias@ =~= self.logit_bias@.subrange(0, i as int));
            }
        }
        proof {
            assert(bias@ =~= self.logit_bias@);
        }
        SamplingParams {
            temperature: self.temperature,
            top_p: self.top_p,
            top_k: self.top_k,
            min_p: self.min_p,
            repetition_penalty: self.repetition_penalty,
            frequency_penalty: self.frequency_penalty,
            presence_penalty: self.presence_penalty,
            logit_bias: bias,
            seed: self.seed,
            top_logprobs_k: self.top_logprobs_k,
        }
    }
}

// ── The request ──────────────────────────────────────────────────────────────

/// One generation request, parsed and validated.
#[derive(Debug)]
pub struct GenerationRequest {
    pub model_id: String,
    pub prompt_tokens: Vec<u32>,
    pub max_tokens: u32,
    pub sampling: SamplingParams,
    /// Generation halts on the first of these texts.
    pub stop: Vec<String>,
    pub stream: bool,
    pub system: Option<String>,
    pub session_id: Option<String>,
    /// `None` keeps the generator's own setting.
    pub effective_prompt_cache_slots: Option<usize>,
    pub tools: Option<Vec<NormalizedTool>>,
    pub tool_choice: Option<NormalizedToolChoice>,
    pub response_format: Option<NormalizedResponseFormat>,
    /// Whether a sampler constraint goes with the request.
    pub has_constraint: bool,
    /// The most reasoning pieces before the thinking block is closed by force.
    pub thinking_budget: Option<u32>,
    pub thinking_end_token_id: Option<u32>,
    pub enable_thinking: Option<bool>,
    /// Whether the prompt ends inside a thinking block.
    pub prompt_think_open: bool,
    /// Whether tool-protocol markers are put back into the decoded text.
    pub emit_tool_markers: bool,
    pub thinking_start_token: Option<String>,
    pub thinking_end_token: Option<String>,
    pub kv_quant_override: Option<KvQuant>,
    pub max_ctx_override: Option<i32>,
    pub images: Vec<String>,
    pub audio_b64: Vec<String>,
    pub image_max_tokens: Option<usize>,
}

pub struct RequestV {
    pub model_id: Seq<char>,
    pub prompt_tokens: Seq<u32>,
    pub max_tokens: u32,
    pub sampling: SamplingV,
    pub stop: Seq<Seq<char>>,
    pub stream: bool,
    pub system: Option<Seq<char>>,
    pub session_id: Option<Seq<char>>,
    pub effective_prompt_cache_slots: Option<usize>,
    pub tools: Option<Seq<ToolV>>,
    pub tool_choice: Option<ToolChoiceV>,
    pub response_format: Option<ResponseFormatV>,
    pub has_constraint: bool,
    pub thinking_budget: Option<u32>,
    pub thinking_end_token_id: Option<u32>,
    pub enable_thinking: Option<bool>,
    pub prompt_think_open: bool,
    pub emit_tool_markers: bool,
    pub thinking_start_token: Option<Seq<char>>,
    pub thinking_end_token: Option<Seq<char>>,
    pub kv_quant_override: Option<KvQuant>,
    pub max_ctx_override: Option<i32>,
    pub images: Seq<Seq<char>>,
    pub audio_b64: Seq<Seq<char>>,
    pub image_max_tokens: Option<usize>,
}

impl View for GenerationRequest {
    type V = RequestV;

    open spec fn view(&self) -> RequestV {
        RequestV {
            model_id: self.model_id@,
            prompt_tokens: self.prompt_tokens@,
            max_tokens: self.max_tokens,
            sampling: self.sampling@,
            stop: views(self.stop@),
            stream: self.stream,
            system: opt_view(self.system),
            session_id: opt_view(self.session_id),
            effective_prompt_cache_slots: self.effective_prompt_cache_slots,
            tools: opt_views(self.tools),
            tool_choice: opt_view(self.tool_choice),
            response_format: opt_view(self.response_format),
            has_constraint: self.has_constraint,
            thinking_budget: self.thinking_budget,
            thinking_end_token_id: self.thinking_end_token_id,
            enable_thinking: self.enable_thinking,
            prompt_think_open: self.prompt_think_open,
            emit_tool_markers: self.emit_tool_markers,
            thinking_start_token: opt_view(self.thinking_start_token),
            thinking_end_token: opt_view(self.thinking_end_token),
            kv_quant_override: self.kv_quant_override,
            max_ctx_override: self.max_ctx_override,
            images: views(self.images@),
            audio_b64: views(self.audio_b64@),
            image_max_tokens: self.image_max_tokens,
        }
    }
}

// ── Tokens ───────────────────────────────────────────────────────────────────

/// One produced token.
#[derive(Debug)]
pub struct GenerationToken {
    pub token_id: u32,
    /// The decoded text; may be empty.
    pub piece: String,
    /// True on the last token of a stream.
    pub done: bool,
    /// Set on the last token: `stop` or `length`.
    pub finish_reason: Option<String>,
    /// Whether the piece belongs to the reasoning channel.
    pub is_thinking: bool,
    pub logprobs: Option<ChatLogprobContent>,
}

pub struct TokenV {
    pub token_id: u32,
    pub piece: Seq<char>,
    pub done: bool,
    pub finish_reason: Option<Seq<char>>,
    pub is_thinking: bool,
    pub logprobs: Option<LogprobV>,
}

impl View for GenerationToken {
    type V = TokenV;

    open spec fn view(&self) -> TokenV {
        TokenV {
            token_id: self.token_id,
            piece: self.piece@,
            done: self.done,
            finish_reason: opt_view(self.finish_reason),
            is_thinking: self.is_thinking,
            logprobs: opt_view(self.logprobs),
        }
    }
}

} // verus!
