//! Generation of a response that is sent as a whole.
//!
//! [`BlockingState`] collects the tokens of an engine's stream; once the stream
//! has ended, [`BlockingState::into_response`] makes the response body. The
//! tool-call parser and the search for stop sequences stand outside; their
//! answers come in as arguments.

use vstd::prelude::*;
use vstd::string::StringExecFns;

use crate::engine::error::EngineError;
use crate::engine::types::{GenerationToken, TokenV};
use crate::metrics_drainer::{handler_event, make_event, MetricEvent, MetricKind};
use crate::openai::errors::ApiErrorCategory;
use crate::openai::flow::{refused, Refusal};
use crate::openai::json_extract::{extract_top_level_json_value, extracted};
use crate::openai::metrics::ItlSample;
use crate::openai::reply::{service_unavailable, unavailable_reply, ReplyV};
use crate::openai::response::{
    finish_reason, response_calls, select_finish_reason, to_response_tool_call, usage_of,
    ChatCompletionsResponse, ChatLogprobContent, ChatLogprobs, Choice, ChoiceV, LogprobV, MessageV,
    ParsedCallV, ParsedToolCall, ResponseMessage, ResponseV, ToolCall, Usage,
};
use crate::openai::tool_call::{bare_call_of_text, bare_json_to_tool_call, identified};
use crate::text::{chars_of, join2, lemma_views_add, opt_view, opt_views, string_of, views};

verus! {

// ── Collecting tokens ────────────────────────────────────────────────────────

/// What has been collected of a response.
#[derive(Debug)]
pub struct BlockingState {
    /// Whether the output goes through a tool-call parser.
    pub has_parser: bool,
    /// Whether the output is a tool call in the form of bare JSON.
    pub bare_json_tool_call_mode: bool,
    pub text: String,
    pub reasoning_text: String,
    pub finish_reason: Option<String>,
    pub completion_tokens: u32,
    /// Milliseconds until the first token.
    pub ttft_ms: Option<u64>,
    pub tool_calls: Vec<ParsedToolCall>,
    pub logprobs: Vec<ChatLogprobContent>,
}

pub struct BlockV {
    pub has_parser: bool,
    pub bare_mode: bool,
    pub text: Seq<char>,
    pub reasoning: Seq<char>,
    pub finish: Option<Seq<char>>,
    pub completion_tokens: nat,
    pub ttft_ms: Option<u64>,
    pub calls: Seq<ParsedCallV>,
    pub logprobs: Seq<LogprobV>,
}

impl View for BlockingState {
    type V = BlockV;

    open spec fn view(&self) -> BlockV {
        BlockV {
            has_parser: self.has_parser,
            bare_mode: self.bare_json_tool_call_mode,
            text: self.text@,
            reasoning: self.reasoning_text@,
            finish: opt_view(self.finish_reason),
            completion_tokens: self.completion_tokens as nat,
            ttft_ms: self.ttft_ms,
            calls: views(self.tool_calls@),
            logprobs: views(self.logprobs@),
        }
    }
}

/// Nothing collected yet.
pub open spec fn blocking_start(has_parser: bool, bare_mode: bool) -> BlockV {
    BlockV {
        has_parser,
        bare_mode,
        text: Seq::empty(),
        reasoning: Seq::empty(),
        finish: Some("stop"@),
        completion_tokens: 0,
        ttft_ms: None,
        calls: Seq::empty(),
        logprobs: Seq::empty(),
    }
}

/// The text of a token that is collected. Behind a parser it is what the parser
/// lets through of a piece that is not empty.
pub open spec fn collected_text(s: BlockV, t: TokenV, passthrough: Seq<char>) -> Seq<char> {
    if !s.has_parser {
        t.piece
    } else if t.piece.len() > 0 {
        passthrough
    } else {
        Seq::empty()
    }
}

/// Whether the text of a token is collected as reasoning. Bare JSON is always
/// collected as text.
pub open spec fn is_reasoning(s: BlockV, t: TokenV) -> bool {
    t.is_thinking && (s.has_parser || !s.bare_mode)
}

/// What has been collected after one more token.
pub open spec fn blocking_step(
    s: BlockV,
    t: TokenV,
    passthrough: Seq<char>,
    elapsed_ms: u64,
) -> BlockV {
    let piece = collected_text(s, t, passthrough);
    BlockV {
        text: if is_reasoning(s, t) {
            s.text
        } else {
            s.text + piece
        },
        reasoning: if is_reasoning(s, t) {
            s.reasoning + piece
        } else {
            s.reasoning
        },
        finish: if t.done {
            t.finish_reason
        } else {
            s.finish
        },
        completion_tokens: s.completion_tokens + 1,
        ttft_ms: if s.completion_tokens == 0 {
            Some(elapsed_ms)
        } else {
            s.ttft_ms
        },
        logprobs: match t.logprobs {
            Some(l) => s.logprobs.push(l),
            None => s.logprobs,
        },
        ..s
    }
}

/// What has been collected once the parser has handed out the rest.
pub open spec fn parser_finished(
    s: BlockV,
    passthrough: Seq<char>,
    calls: Seq<ParsedCallV>,
) -> BlockV {
    if s.has_parser {
        BlockV { text: s.text + passthrough, calls: s.calls + calls, ..s }
    } else {
        s
    }
}

/// The text up to a stop sequence. A response with tool calls is kept as it is.
pub open spec fn stopped_at(s: BlockV, keep: Option<nat>) -> BlockV {
    match keep {
        Some(n) if s.calls.len() == 0 && n <= s.text.len() => BlockV {
            text: s.text.subrange(0, n as int),
            finish: Some("stop"@),
            ..s
        },
        _ => s,
    }
}

impl BlockingState {
    /// Nothing collected yet.
    pub fn start(has_parser: bool, bare_json_tool_call_mode: bool) -> (r: BlockingState)
        ensures
            r@ == blocking_start(has_parser, bare_json_tool_call_mode),
    {
        let r = BlockingState {
            has_parser,
            bare_json_tool_call_mode,
            text: String::new(),
            reasoning_text: String::new(),
            finish_reason: Some("stop".to_owned()),
            completion_tokens: 0,
            ttft_ms: None,
            tool_calls: Vec::new(),
            logprobs: Vec::new(),
        };
        proof {
            assert(views(r.tool_calls@) =~= Seq::empty());
            assert(views(r.logprobs@) =~= Seq::empty());
        }
        r
    }

    /// Collects one token; whether it was the last. `passthrough` is what the
    /// parser lets through of the piece, `elapsed_ms` the time since the request
    /// came in.
    pub fn on_token(&mut self, tok: GenerationToken, passthrough: &str, elapsed_ms: u64) -> (done:
        bool)
        requires
            old(self)@.completion_tokens < u32::MAX,
        ensures
            done == tok@.done,
            final(self)@ == blocking_step(old(self)@, tok@, passthrough@, elapsed_ms),
    {
        let ghost s0 = self@;
        if self.completion_tokens == 0 {
            self.ttft_ms = Some(elapsed_ms);
        }
        match tok.logprobs {
            Some(lp) => {
                let ghost before = self.logprobs@;
                self.logprobs.push(lp);
                proof {
                    assert(views(self.logprobs@) =~= views(before).push(lp@));
                }
            },
            None => {},
        }
        if self.has_parser {
            if !tok.piece.as_str().is_empty() {
                if tok.is_thinking {
                    self.reasoning_text.append(passthrough);
                } else {
                    self.text.append(passthrough);
                }
            }
        } else if tok.is_thinking && !self.bare_json_tool_call_mode {
            self.reasoning_text.append(tok.piece.as_str());
        } else {
            self.text.append(tok.piece.as_str());
        }
        proof {
            assert(s0.text + Seq::<char>::empty() =~= s0.text);
            assert(s0.reasoning + Seq::<char>::empty() =~= s0.reasoning);
        }
        self.completion_tokens = self.completion_tokens + 1;
        if tok.done {
            self.finish_reason = tok.finish_reason;
        }
        tok.done
    }

    /// Takes in what the parser hands out once the stream has ended.
    pub fn on_parser_finished(&mut self, passthrough: &str, calls: Vec<ParsedToolCall>)
        ensures
            final(self)@ == parser_finished(old(self)@, passthrough@, views(calls@)),
    {
        if self.has_parser {
            self.text.append(passthrough);
            let ghost before = self.tool_calls@;
            let mut calls = calls;
            proof {
                lemma_views_add(before, calls@);
            }
            self.tool_calls.append(&mut calls);
        }
    }

    /// The text in which a stop sequence is to be searched: none when tools were
    /// called.
    pub fn stop_candidate(&self) -> (r: Option<&str>)
        ensures
            match r {
                Some(t) => self@.calls.len() == 0 && t@ == self@.text,
                None => self@.calls.len() > 0,
            },
    {
        if self.tool_calls.len() == 0 {
            Some(self.text.as_str())
        } else {
            None
        }
    }

    /// Cuts the text at the first stop sequence, which begins after `keep`
    /// characters.
    pub fn on_stop(&mut self, keep: Option<usize>)
        ensures
            final(self)@ == stopped_at(
                old(self)@,
                match keep {
                    Some(n) => Some(n as nat),
                    None => None,
                },
            ),
    {
        match keep {
            Some(n) => {
                let cs = chars_of(self.text.as_str());
                if self.tool_calls.len() == 0 && n <= cs.len() {
                    self.text = string_of(&cs, 0, n);
                    self.finish_reason = Some("stop".to_owned());
                }
            },
            None => {},
        }
    }
}

// ── The response ─────────────────────────────────────────────────────────────

/// How a response is to be made up.
#[derive(Debug)]
pub struct ResponseContext<'a> {
    pub request_id: &'a str,
    pub model_id: &'a str,
    pub created: u64,
    pub prompt_tokens: u32,
    /// Whether only the JSON value in the text is wanted.
    pub json_object_mode: bool,
}

/// The content and the tool calls of a response. Bare JSON that says a tool call
/// becomes that call; with JSON asked for, the content is the JSON value in the
/// text, or the text where there is none.
pub open spec fn outcome(s: BlockV, json_object_mode: bool, call_id: Seq<char>) -> (
    Seq<char>,
    Seq<ParsedCallV>,
) {
    if s.bare_mode && s.calls.len() == 0 {
        let json = match extracted(s.text) {
            Some(v) => v,
            None => Seq::empty(),
        };
        match identified(bare_call_of_text(json), call_id) {
            Some(call) => (Seq::empty(), seq![call]),
            None => (s.text, s.calls),
        }
    } else if json_object_mode {
        (
            match extracted(s.text) {
                Some(v) => v,
                None => s.text,
            },
            s.calls,
        )
    } else {
        (s.text, s.calls)
    }
}

/// The body of a response.
pub open spec fn response_body(
    s: BlockV,
    request_id: Seq<char>,
    model_id: Seq<char>,
    created: u64,
    prompt_tokens: nat,
    json_object_mode: bool,
    call_id: Seq<char>,
) -> ResponseV {
    let (content, calls) = outcome(s, json_object_mode, call_id);
    ResponseV {
        id: "chatcmpl-"@ + request_id,
        object: "chat.completion"@,
        created,
        model: model_id,
        choices: seq![
            ChoiceV {
                index: 0,
                message: MessageV {
                    role: "assistant"@,
                    content,
                    reasoning_content: if s.reasoning.len() == 0 {
                        None
                    } else {
                        Some(s.reasoning)
                    },
                    tool_calls: if calls.len() == 0 {
                        None
                    } else {
                        Some(response_calls(calls, 0))
                    },
                },
                finish_reason: finish_reason(calls.len() > 0, s.finish),
                logprobs: if s.logprobs.len() == 0 {
                    None
                } else {
                    Some(s.logprobs)
                },
            },
        ],
        usage: usage_of(prompt_tokens, s.completion_tokens),
    }
}

fn convert_calls(calls: &Vec<ParsedToolCall>) -> (r: Option<Vec<ToolCall>>)
    requires
        calls@.len() <= u32::MAX,
    ensures
        opt_views(r) == if calls@.len() == 0 {
            None
        } else {
            Some(response_calls(views(calls@), 0))
        },
        r is Some == (calls@.len() > 0),
{
    if calls.len() == 0 {
        return None;
    }
    let mut out: Vec<ToolCall> = Vec::new();
    let mut i: usize = 0;
    while i < calls.len()
        invariant
            i <= calls@.len(),
            calls@.len() <= u32::MAX,
            out@.len() == i,
            forall|k: int|
                0 <= k < i ==> (#[trigger] out@[k])@ == response_calls(views(calls@), 0)[k],
        decreases calls@.len() - i,
    {
        out.push(to_response_tool_call(&calls[i], i as u32));
        i += 1;
    }
    proof {
        assert(views(out@) =~= response_calls(views(calls@), 0));
    }
    Some(out)
}

impl BlockingState {
    /// The body of the response. `call_id` is an id for a call that is read from
    /// bare JSON.
    pub fn into_response(self, ctx: &ResponseContext<'_>, call_id: String) -> (r:
        ChatCompletionsResponse)
        requires
            ctx.prompt_tokens + self@.completion_tokens <= u32::MAX,
            self@.calls.len() <= u32::MAX,
        ensures
            r@ == response_body(
                self@,
                ctx.request_id@,
                ctx.model_id@,
                ctx.created,
                ctx.prompt_tokens as nat,
                ctx.json_object_mode,
                call_id@,
            ),
    {
        let ghost s = self@;
        let ghost wanted = outcome(s, ctx.json_object_mode, call_id@);
        let (content, calls): (String, Vec<ParsedToolCall>) = if self.bare_json_tool_call_mode
            && self.tool_calls.len() == 0 {
            let json = match extract_top_level_json_value(self.text.as_str()) {
                Some(v) => v,
                None => String::new(),
            };
            match bare_json_to_tool_call(json.as_str(), call_id) {
                Some(call) => {
                    let mut calls: Vec<ParsedToolCall> = Vec::new();
                    calls.push(call);
                    proof {
                        assert(views(calls@) =~= seq![call@]);
                    }
                    (String::new(), calls)
                },
                None => (self.text, self.tool_calls),
            }
        } else if ctx.json_object_mode {
            match extract_top_level_json_value(self.text.as_str()) {
                Some(v) => (v, self.tool_calls),
                None => (self.text, self.tool_calls),
            }
        } else {
            (self.text, self.tool_calls)
        };
        proof {
            assert(content@ == wanted.0);
            assert(views(calls@) == wanted.1);
            assert(calls@.len() == views(calls@).len());
        }
        let tool_calls = convert_calls(&calls);
        let finish = select_finish_reason(tool_calls.is_some(), self.finish_reason);
        let reasoning_content = if self.reasoning_text.as_str().is_empty() {
            None
        } else {
            Some(self.reasoning_text)
        };
        let logprobs = if self.logprobs.len() == 0 {
            None
        } else {
            Some(ChatLogprobs { content: self.logprobs })
        };
        let mut choices: Vec<Choice> = Vec::new();
        choices.push(
            Choice {
                index: 0,
                message: ResponseMessage {
                    role: "assistant".to_owned(),
                    content,
                    reasoning_content,
                    tool_calls,
                },
                finish_reason: finish,
                logprobs,
            },
        );
        proof {
            assert(views(choices@) =~= seq![choices@[0]@]);
        }
        ChatCompletionsResponse {
            id: join2("chatcmpl-", ctx.request_id),
            object: "chat.completion".to_owned(),
            created: ctx.created,
            model: ctx.model_id.to_owned(),
            choices,
            usage: Usage {
                prompt_tokens: ctx.prompt_tokens,
                completion_tokens: self.completion_tokens,
                total_tokens: ctx.prompt_tokens + self.completion_tokens,
            },
        }
    }
}

/// The reply to a request whose output was never checked.
pub open spec fn unchecked_reply() -> ReplyV {
    unavailable_reply("response_format was not applied to the output"@)
}

/// How a request for structured output is refused whose output was never checked:
/// where its grammar never came to bear, and nothing of the output has been sent.
/// A tool call that was demanded (`demanded_call`) is read from the text, so its
/// grammar need not come to bear. `engaged` tells whether a grammar did, where
/// there is one.
pub fn unchecked_output_refusal(demanded_call: bool, engaged: Option<bool>) -> (r: Option<Refusal>)
    ensures
        match r {
            Some(f) => !demanded_call && engaged == Some(false) && f@ == refused(
                unchecked_reply(),
                ApiErrorCategory::Upstream,
            ),
            None => demanded_call || engaged != Some(false),
        },
{
    if !demanded_call && refuse_unchecked_output(engaged) {
        Some(
            Refusal {
                reply: service_unavailable("response_format was not applied to the output"),
                category: Some(ApiErrorCategory::Upstream),
            },
        )
    } else {
        None
    }
}

/// A request for structured output whose grammar never came to bear was never
/// checked, and is refused. `engaged` tells whether it did, where there is one.
pub fn refuse_unchecked_output(engaged: Option<bool>) -> (r: bool)
    ensures
        r == (engaged == Some(false)),
{
    match engaged {
        Some(e) => !e,
        None => false,
    }
}

// ── Times to the first token ─────────────────────────────────────────────────

/// The time to the first token of one request.
#[derive(Debug)]
pub struct TtftSample {
    pub model_id: String,
    pub ttft_ms: u64,
}

impl View for TtftSample {
    type V = (Seq<char>, u64);

    open spec fn view(&self) -> (Seq<char>, u64) {
        (self.model_id@, self.ttft_ms)
    }
}

/// The sample of a token: of the one that set the time to the first token.
pub open spec fn first_token_sample(
    before: Option<u64>,
    after: Option<u64>,
    model_id: Seq<char>,
) -> Option<(Seq<char>, u64)> {
    match (before, after) {
        (None, Some(ms)) => Some((model_id, ms)),
        _ => None,
    }
}

/// The sample to record for a token of a response that is collected, if any.
/// `before` is the time to the first token before it was collected.
pub fn collected_first_token(before: Option<u64>, after: &BlockingState, model_id: &str) -> (r:
    Option<TtftSample>)
    ensures
        opt_view(r) == first_token_sample(before, after@.ttft_ms, model_id@),
{
    match (before, after.ttft_ms) {
        (None, Some(ttft_ms)) => Some(TtftSample { model_id: model_id.to_owned(), ttft_ms }),
        _ => None,
    }
}

/// The sample and the event to record when the first item of a stream has come, if
/// any: only a token counts. (The event of a collected response comes with its
/// token counts, once it is complete.)
pub fn streamed_first_token(
    first: &Option<Result<GenerationToken, EngineError>>,
    elapsed_ms: u64,
    model_id: &str,
    ts_utc: &str,
    ctx_max: i64,
) -> (r: Option<(TtftSample, MetricEvent)>)
    ensures
        match *first {
            Some(Ok(_)) => r matches Some(x) && x.0@ == (model_id@, elapsed_ms) && x.1@
                == handler_event(model_id@, ts_utc@, ctx_max, MetricKind::TtftMs(elapsed_ms)),
            _ => r is None,
        },
{
    match first {
        Some(Ok(_)) => Some(
            (
                TtftSample { model_id: model_id.to_owned(), ttft_ms: elapsed_ms },
                make_event(model_id, ts_utc, ctx_max, MetricKind::TtftMs(elapsed_ms)),
            ),
        ),
        _ => None,
    }
}

/// What has been collected after tokens, each with what the parser lets through
/// and the time at which it came.
pub open spec fn collected_after(s: BlockV, tokens: Seq<(TokenV, Seq<char>, u64)>) -> BlockV
    decreases tokens.len(),
{
    if tokens.len() == 0 {
        s
    } else {
        let (t, passthrough, ms) = tokens.last();
        blocking_step(collected_after(s, tokens.drop_last()), t, passthrough, ms)
    }
}

/// The samples that are recorded over tokens.
pub open spec fn recorded_samples(
    s: BlockV,
    tokens: Seq<(TokenV, Seq<char>, u64)>,
    model_id: Seq<char>,
) -> Seq<(Seq<char>, u64)>
    decreases tokens.len(),
{
    if tokens.len() == 0 {
        Seq::empty()
    } else {
        let earlier = recorded_samples(s, tokens.drop_last(), model_id);
        match first_token_sample(
            collected_after(s, tokens.drop_last()).ttft_ms,
            collected_after(s, tokens).ttft_ms,
            model_id,
        ) {
            Some(x) => earlier.push(x),
            None => earlier,
        }
    }
}

/// A request records the time to its first token exactly once, at its first token;
/// without a token it records none.
pub proof fn law_first_token_is_recorded_once(
    has_parser: bool,
    bare_mode: bool,
    tokens: Seq<(TokenV, Seq<char>, u64)>,
    model_id: Seq<char>,
)
    ensures
        recorded_samples(blocking_start(has_parser, bare_mode), tokens, model_id) == if tokens.len()
            == 0 {
            Seq::<(Seq<char>, u64)>::empty()
        } else {
            seq![(model_id, tokens[0].2)]
        },
        collected_after(blocking_start(has_parser, bare_mode), tokens).completion_tokens
            == tokens.len(),
        collected_after(blocking_start(has_parser, bare_mode), tokens).ttft_ms == if tokens.len()
            == 0 {
            None
        } else {
            Some(tokens[0].2)
        },
    decreases tokens.len(),
{
    if tokens.len() > 0 {
        law_first_token_is_recorded_once(has_parser, bare_mode, tokens.drop_last(), model_id);
        if tokens.len() == 1 {
            assert(Seq::<(Seq<char>, u64)>::empty().push((model_id, tokens[0].2)) =~= seq![
                (model_id, tokens[0].2),
            ]);
        }
    }
}

/// The latest samples, the oldest first, at most `capacity` of them.
pub open spec fn ring_pushed<T>(ring: Seq<T>, capacity: nat, sample: T) -> Seq<T> {
    if ring.len() >= capacity && ring.len() > 0 {
        ring.subrange(1, ring.len() as int).push(sample)
    } else {
        ring.push(sample)
    }
}

fn push_bounded<T: View>(ring: &mut Vec<T>, capacity: usize, sample: T)
    ensures
        views(final(ring)@) == ring_pushed(views(old(ring)@), capacity as nat, sample@),
{
    let ghost before = ring@;
    if ring.len() >= capacity && ring.len() > 0 {
        let _ = ring.remove(0);
        proof {
            assert(views(ring@) =~= views(before).subrange(1, before.len() as int));
        }
    }
    let ghost kept = ring@;
    ring.push(sample);
    proof {
        assert(views(ring@) =~= views(kept).push(sample@));
    }
}

/// Adds a sample; the oldest one goes when the ring is full.
pub fn push_ttft(ring: &mut Vec<TtftSample>, capacity: usize, sample: TtftSample)
    ensures
        views(final(ring)@) == ring_pushed(views(old(ring)@), capacity as nat, sample@),
{
    push_bounded(ring, capacity, sample);
}

/// Adds the latencies of a generation; the oldest ones go when the ring is full.
pub fn push_itl(ring: &mut Vec<ItlSample>, capacity: usize, sample: ItlSample)
    ensures
        views(final(ring)@) == ring_pushed(views(old(ring)@), capacity as nat, sample@),
{
    push_bounded(ring, capacity, sample);
}

/// A ring that does not hold more than its capacity never will, and always ends
/// with the latest sample.
pub proof fn law_ring_is_bounded<T>(ring: Seq<T>, capacity: nat, sample: T)
    requires
        capacity >= 1,
        ring.len() <= capacity,
    ensures
        ring_pushed(ring, capacity, sample).len() <= capacity,
        ring_pushed(ring, capacity, sample).last() == sample,
{
}

} // verus!
