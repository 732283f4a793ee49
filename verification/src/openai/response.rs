//! Response bodies of the chat endpoint.

use vstd::prelude::*;
use vstd::string::StrSliceExecFns;
use vstd::utf8::encode_utf8;

use crate::float32::F32;
use crate::json::{render_json, text_of_json, value_built, Json, JsonV};
use crate::text::{decimal, join3, opt_view, opt_views, u64_text, views};

verus! {

// ── Log-probabilities ────────────────────────────────────────────────────────

/// One alternative to a token.
#[derive(Debug)]
pub struct TopLogprob {
    pub token: String,
    pub logprob: F32,
    /// The UTF-8 bytes of the token's surface.
    pub bytes: Option<Vec<u8>>,
}

pub struct TopV {
    pub token: Seq<char>,
    pub logprob: F32,
    pub bytes: Option<Seq<u8>>,
}

impl View for TopLogprob {
    type V = TopV;

    open spec fn view(&self) -> TopV {
        TopV { token: self.token@, logprob: self.logprob, bytes: opt_view(self.bytes) }
    }
}

/// The log-probability of an emitted token, with its alternatives.
#[derive(Debug)]
pub struct ChatLogprobContent {
    pub token: String,
    pub logprob: F32,
    pub bytes: Option<Vec<u8>>,
    pub top_logprobs: Vec<TopLogprob>,
}

pub struct LogprobV {
    pub token: Seq<char>,
    pub logprob: F32,
    pub bytes: Option<Seq<u8>>,
    pub top_logprobs: Seq<TopV>,
}

impl View for ChatLogprobContent {
    type V = LogprobV;

    open spec fn view(&self) -> LogprobV {
        LogprobV {
            token: self.token@,
            logprob: self.logprob,
            bytes: opt_view(self.bytes),
            top_logprobs: views(self.top_logprobs@),
        }
    }
}

/// The log-probabilities of a choice.
#[derive(Debug)]
pub struct ChatLogprobs {
    pub content: Vec<ChatLogprobContent>,
}

impl View for ChatLogprobs {
    type V = Seq<LogprobV>;

    open spec fn view(&self) -> Seq<LogprobV> {
        views(self.content@)
    }
}

/// The log-probabilities that an engine reports for a token, by token ids.
#[derive(Debug)]
pub struct TokenLogprobs {
    pub token_logprob: F32,
    pub top: Vec<(u32, F32)>,
}

/// A tokenizer.
#[verifier::external_type_specification]
#[verifier::external_body]
pub struct ExTokenizer(tokenizers::Tokenizer);

/// The token texts that a tokenizer knows, by id.
pub uninterp spec fn vocabulary(t: tokenizers::Tokenizer) -> Map<u32, Seq<char>>;

/// Calls `Tokenizer::id_to_token`, which looks an id up among the added tokens
/// and then in the model's vocabulary.
#[verifier::external_body]
fn id_to_token(tokenizer: &tokenizers::Tokenizer, id: u32) -> (r: Option<String>)
    ensures
        match r {
            Some(s) => vocabulary(*tokenizer).dom().contains(id) && vocabulary(*tokenizer)[id]
                == s@,
            None => !vocabulary(*tokenizer).dom().contains(id),
        },
{
    tokenizer.id_to_token(id)
}

/// The text of a token id: its entry in the vocabulary, else a placeholder.
pub open spec fn surface(vocab: Map<u32, Seq<char>>, id: u32) -> Seq<char> {
    if vocab.dom().contains(id) {
        vocab[id]
    } else {
        "<unk:"@ + decimal(id as nat) + ">"@
    }
}

/// An alternative by id, resolved to its text.
pub open spec fn resolved_top(vocab: Map<u32, Seq<char>>, alternative: (u32, F32)) -> TopV {
    let token = surface(vocab, alternative.0);
    TopV { token, logprob: alternative.1, bytes: Some(encode_utf8(token)) }
}

/// A token's log-probabilities by ids, resolved to texts.
pub open spec fn resolved(
    vocab: Map<u32, Seq<char>>,
    logprob: F32,
    top: Seq<(u32, F32)>,
    piece: Seq<char>,
) -> LogprobV {
    LogprobV {
        token: piece,
        logprob,
        bytes: Some(encode_utf8(piece)),
        top_logprobs: Seq::new(top.len(), |i: int| resolved_top(vocab, top[i])),
    }
}

/// The log-probabilities of a token whose text is `chosen_piece`, with the texts
/// of its alternatives.
pub fn resolve_logprobs(
    lp: &TokenLogprobs,
    chosen_piece: &str,
    tokenizer: &tokenizers::Tokenizer,
) -> (r: ChatLogprobContent)
    ensures
        r@ == resolved(vocabulary(*tokenizer), lp.token_logprob, lp.top@, chosen_piece@),
{
    let mut top: Vec<TopLogprob> = Vec::new();
    let mut i: usize = 0;
    while i < lp.top.len()
        invariant
            i <= lp.top@.len(),
            top@.len() == i,
            forall|k: int|
                0 <= k < i ==> (#[trigger] top@[k])@ == resolved_top(
                    vocabulary(*tokenizer),
                    lp.top@[k],
                ),
        decreases lp.top@.len() - i,
    {
        let (id, logprob): (u32, F32) = lp.top[i];
        let token = match id_to_token(tokenizer, id) {
            Some(s) => s,
            None => join3("<unk:", u64_text(id as u64).as_str(), ">"),
        };
        let bytes = token.as_str().as_bytes_vec();
        top.push(TopLogprob { token, logprob, bytes: Some(bytes) });
        i += 1;
    }
    let r = ChatLogprobContent {
        token: chosen_piece.to_owned(),
        logprob: lp.token_logprob,
        bytes: Some(chosen_piece.as_bytes_vec()),
        top_logprobs: top,
    };
    proof {
        assert(views(r.top_logprobs@) =~= resolved(
            vocabulary(*tokenizer),
            lp.token_logprob,
            lp.top@,
            chosen_piece@,
        ).top_logprobs);
    }
    r
}

// ── Tool calls ───────────────────────────────────────────────────────────────

/// A tool call found in a model's output.
#[derive(Debug)]
pub struct ParsedToolCall {
    pub id: String,
    pub name: String,
    /// The arguments, a JSON object.
    pub arguments: Json,
}

pub struct ParsedCallV {
    pub id: Seq<char>,
    pub name: Seq<char>,
    pub arguments: JsonV,
}

impl View for ParsedToolCall {
    type V = ParsedCallV;

    open spec fn view(&self) -> ParsedCallV {
        ParsedCallV { id: self.id@, name: self.name@, arguments: self.arguments@ }
    }
}

/// A tool call in a response.
#[derive(Debug)]
pub struct ToolCall {
    /// Position among the calls of the choice.
    pub index: u32,
    pub id: String,
    /// Always `function`.
    pub kind: String,
    pub function: ToolCallFunction,
}

/// The function that a tool call invokes.
#[derive(Debug)]
pub struct ToolCallFunction {
    pub name: String,
    /// The arguments object, as JSON text.
    pub arguments: String,
}

pub struct ToolCallV {
    pub index: nat,
    pub id: Seq<char>,
    pub kind: Seq<char>,
    pub name: Seq<char>,
    pub arguments: Seq<char>,
}

impl View for ToolCall {
    type V = ToolCallV;

    open spec fn view(&self) -> ToolCallV {
        ToolCallV {
            index: self.index as nat,
            id: self.id@,
            kind: self.kind@,
            name: self.function.name@,
            arguments: self.function.arguments@,
        }
    }
}

/// The response form of a tool call.
pub open spec fn response_call(p: ParsedCallV, index: nat) -> ToolCallV {
    ToolCallV {
        index,
        id: p.id,
        kind: "function"@,
        name: p.name,
        arguments: text_of_json(value_built(p.arguments)),
    }
}

/// The response form of tool calls, numbered from `first`.
pub open spec fn response_calls(ps: Seq<ParsedCallV>, first: nat) -> Seq<ToolCallV> {
    Seq::new(ps.len(), |i: int| response_call(ps[i], (first + i) as nat))
}

/// The response form of a tool call.
pub fn to_response_tool_call(p: &ParsedToolCall, index: u32) -> (r: ToolCall)
    ensures
        r@ == response_call(p@, index as nat),
{
    ToolCall {
        index,
        id: p.id.clone(),
        kind: "function".to_owned(),
        function: ToolCallFunction {
            name: p.name.clone(),
            arguments: render_json(&p.arguments),
        },
    }
}

/// The finish reason that a response carries: `tool_calls` when any tool was
/// called, else the engine's own.
pub open spec fn finish_reason(any_tool_calls: bool, terminal: Option<Seq<char>>) -> Option<
    Seq<char>,
> {
    if any_tool_calls {
        Some("tool_calls"@)
    } else {
        terminal
    }
}

/// The finish reason that a response carries: `tool_calls` when any tool was
/// called, else the engine's own.
pub fn select_finish_reason(any_tool_calls: bool, terminal: Option<String>) -> (r: Option<String>)
    ensures
        opt_view(r) == finish_reason(any_tool_calls, opt_view(terminal)),
{
    if any_tool_calls {
        Some("tool_calls".to_owned())
    } else {
        terminal
    }
}

// ── Whole responses ──────────────────────────────────────────────────────────

/// The message of a response that is not streamed.
#[derive(Debug)]
pub struct ResponseMessage {
    /// Always `assistant`.
    pub role: String,
    pub content: String,
    /// The reasoning text; absent when there was none.
    pub reasoning_content: Option<String>,
    pub tool_calls: Option<Vec<ToolCall>>,
}

pub struct MessageV {
    pub role: Seq<char>,
    pub content: Seq<char>,
    pub reasoning_content: Option<Seq<char>>,
    pub tool_calls: Option<Seq<ToolCallV>>,
}

impl View for ResponseMessage {
    type V = MessageV;

    open spec fn view(&self) -> MessageV {
        MessageV {
            role: self.role@,
            content: self.content@,
            reasoning_content: opt_view(self.reasoning_content),
            tool_calls: opt_views(self.tool_calls),
        }
    }
}

/// One alternative of a response.
#[derive(Debug)]
pub struct Choice {
    pub index: u32,
    pub message: ResponseMessage,
    pub finish_reason: Option<String>,
    pub logprobs: Option<ChatLogprobs>,
}

pub struct ChoiceV {
    pub index: u32,
    pub message: MessageV,
    pub finish_reason: Option<Seq<char>>,
    pub logprobs: Option<Seq<LogprobV>>,
}

impl View for Choice {
    type V = ChoiceV;

    open spec fn view(&self) -> ChoiceV {
        ChoiceV {
            index: self.index,
            message: self.message@,
            finish_reason: opt_view(self.finish_reason),
            logprobs: opt_view(self.logprobs),
        }
    }
}

/// Token counts of a request.
#[derive(Debug, Clone, Copy, PartialEq, Eq, Structural)]
pub struct Usage {
    pub prompt_tokens: u32,
    pub completion_tokens: u32,
    /// The sum of the two.
    pub total_tokens: u32,
}

/// The usage record of a prompt and a completion.
pub open spec fn usage_of(prompt: nat, completion: nat) -> Usage {
    Usage {
        prompt_tokens: prompt as u32,
        completion_tokens: completion as u32,
        total_tokens: (prompt + completion) as u32,
    }
}

/// Body of a response that is not streamed.
#[derive(Debug)]
pub struct ChatCompletionsResponse {
    pub id: String,
    /// Always `chat.completion`.
    pub object: String,
    /// Seconds since the Unix epoch.
    pub created: u64,
    pub model: String,
    pub choices: Vec<Choice>,
    pub usage: Usage,
}

pub struct ResponseV {
    pub id: Seq<char>,
    pub object: Seq<char>,
    pub created: u64,
    pub model: Seq<char>,
    pub choices: Seq<ChoiceV>,
    pub usage: Usage,
}

impl View for ChatCompletionsResponse {
    type V = ResponseV;

    open spec fn view(&self) -> ResponseV {
        ResponseV {
            id: self.id@,
            object: self.object@,
            created: self.created,
            model: self.model@,
            choices: views(self.choices@),
            usage: self.usage,
        }
    }
}

// ── Streamed responses ───────────────────────────────────────────────────────

/// The increment that a chunk carries.
#[derive(Debug)]
pub struct DeltaContent {
    /// Set on the first chunk only.
    pub role: Option<String>,
    pub content: Option<String>,
    pub reasoning_content: Option<String>,
    pub tool_calls: Option<Vec<ToolCall>>,
}

pub struct DeltaV {
    pub role: Option<Seq<char>>,
    pub content: Option<Seq<char>>,
    pub reasoning_content: Option<Seq<char>>,
    pub tool_calls: Option<Seq<ToolCallV>>,
}

impl View for DeltaContent {
    type V = DeltaV;

    open spec fn view(&self) -> DeltaV {
        DeltaV {
            role: opt_view(self.role),
            content: opt_view(self.content),
            reasoning_content: opt_view(self.reasoning_content),
            tool_calls: opt_views(self.tool_calls),
        }
    }
}

/// One alternative of a chunk.
#[derive(Debug)]
pub struct StreamChoice {
    pub index: u32,
    pub delta: DeltaContent,
    /// Set on the last content chunk only.
    pub finish_reason: Option<String>,
    pub logprobs: Option<ChatLogprobs>,
}

pub struct StreamChoiceV {
    pub index: u32,
    pub delta: DeltaV,
    pub finish_reason: Option<Seq<char>>,
    pub logprobs: Option<Seq<LogprobV>>,
}

impl View for StreamChoice {
    type V = StreamChoiceV;

    open spec fn view(&self) -> StreamChoiceV {
        StreamChoiceV {
            index: self.index,
            delta: self.delta@,
            finish_reason: opt_view(self.finish_reason),
            logprobs: opt_view(self.logprobs),
        }
    }
}

/// One event of a streamed response.
#[derive(Debug)]
pub struct ChatCompletionChunk {
    pub id: String,
    /// Always `chat.completion.chunk`.
    pub object: String,
    pub created: u64,
    pub model: String,
    /// Empty on the usage chunk.
    pub choices: Vec<StreamChoice>,
    /// Set on the usage chunk only.
    pub usage: Option<Usage>,
}

pub struct ChunkV {
    pub id: Seq<char>,
    pub object: Seq<char>,
    pub created: u64,
    pub model: Seq<char>,
    pub choices: Seq<StreamChoiceV>,
    pub usage: Option<Usage>,
}

impl View for ChatCompletionChunk {
    type V = ChunkV;

    open spec fn view(&self) -> ChunkV {
        ChunkV {
            id: self.id@,
            object: self.object@,
            created: self.created,
            model: self.model@,
            choices: views(self.choices@),
            usage: self.usage,
        }
    }
}

// ── Laws ─────────────────────────────────────────────────────────────────────

/// The log-probabilities of a token are its own: its text and the bytes of that text,
/// the engine's number, and the alternatives in the engine's order, each with the
/// number, the text of its id and the bytes of that text. An id that the tokenizer does
/// not know is shown as such.
pub proof fn law_logprobs_are_resolved(
    lp: TokenLogprobs,
    piece: &str,
    tokenizer: &tokenizers::Tokenizer,
    r: ChatLogprobContent,
    i: int,
)
    requires
        call_ensures(resolve_logprobs, (&lp, piece, tokenizer), r),
    ensures
        r.token@ == piece@,
        r.logprob == lp.token_logprob,
        r.bytes matches Some(b) && b@ == encode_utf8(piece@),
        r.top_logprobs@.len() == lp.top@.len(),
        0 <= i < lp.top@.len() ==> {
            let t = r.top_logprobs@[i];
            let id = lp.top@[i].0;
            &&& t.logprob == lp.top@[i].1
            &&& t.bytes matches Some(b) && b@ == encode_utf8(t.token@)
            &&& vocabulary(*tokenizer).dom().contains(id) ==> t.token@
                == vocabulary(*tokenizer)[id]
            &&& !vocabulary(*tokenizer).dom().contains(id) ==> t.token@ == "<unk:"@ + decimal(
                id as nat,
            ) + ">"@
        },
{
    assert(views(r.top_logprobs@).len() == r.top_logprobs@.len());
    if 0 <= i < lp.top@.len() {
        assert(views(r.top_logprobs@)[i] == r.top_logprobs@[i]@);
    }
}

/// A call is sent under its own id, name and arguments, as a `function`, at its place;
/// a response with calls finishes for them, one without for the engine's reason.
pub proof fn law_calls_are_sent_as_parsed(
    p: ParsedToolCall,
    index: u32,
    r: ToolCall,
    any: bool,
    terminal: Option<String>,
    finish: Option<String>,
)
    requires
        call_ensures(to_response_tool_call, (&p, index), r),
        call_ensures(select_finish_reason, (any, terminal), finish),
    ensures
        r.index == index,
        r.id@ == p.id@,
        r.kind@ == "function"@,
        r.function.name@ == p.name@,
        r.function.arguments@ == text_of_json(value_built(p.arguments@)),
        any ==> (finish matches Some(f) && f@ == "tool_calls"@),
        !any ==> opt_view(finish) == opt_view(terminal),
{
}

} // verus!
