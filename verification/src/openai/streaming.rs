//! Streaming of a generation as server-sent events.
//!
//! [`handle_streaming_token`] maps one engine token to zero or more events. Two
//! collaborators stand outside: the parser that finds tool calls in a model's
//! text, and the matcher of stop sequences. What they are to be fed is told by
//! [`parser_input`], [`stop_input`], [`final_stop_input`] and [`tail_wanted`];
//! what they answered goes into the handler as [`TokenOutcomes`].

use vstd::prelude::*;
use vstd::string::StringExecFns;

use crate::engine::error::EngineError;
use crate::engine::types::{GenerationToken, TokenV};
use crate::openai::errors::{engine_error_category, error_category, ApiErrorCategory};
use crate::openai::json_extract::{extract_top_level_json_value, extracted, json_start, json_text};
use crate::openai::response::{
    finish_reason, response_call, select_finish_reason, to_response_tool_call, usage_of,
    ChatCompletionChunk, ChatLogprobContent, ChatLogprobs, ChunkV, DeltaContent, DeltaV, LogprobV,
    ParsedCallV, ParsedToolCall, StreamChoice, StreamChoiceV, ToolCall, ToolCallV, Usage,
};
use crate::openai::tool_call::{bare_call_of_text, bare_json_to_tool_call, identified};
use crate::text::{chars_of, copy_opt_text, join2, lemma_views_add, opt_view, string_of, views};

verus! {

// ── Events ───────────────────────────────────────────────────────────────────

/// One server-sent event.
#[derive(Debug)]
pub enum StreamEvent {
    /// An event whose data is this chunk, as JSON.
    Chunk(ChatCompletionChunk),
    /// The event whose data is `[DONE]`.
    Done,
}

pub enum EventV {
    Chunk(ChunkV),
    Done,
}

impl View for StreamEvent {
    type V = EventV;

    open spec fn view(&self) -> EventV {
        match self {
            StreamEvent::Chunk(c) => EventV::Chunk(c@),
            StreamEvent::Done => EventV::Done,
        }
    }
}

// ── What the collaborators answer ────────────────────────────────────────────

/// What a tool-call parser hands out: text that belongs to no call, and calls
/// that are complete.
#[derive(Debug)]
pub struct ToolDrain {
    pub text: Option<String>,
    pub calls: Vec<ParsedToolCall>,
}

pub struct DrainV {
    pub text: Option<Seq<char>>,
    pub calls: Seq<ParsedCallV>,
}

impl View for ToolDrain {
    type V = DrainV;

    open spec fn view(&self) -> DrainV {
        DrainV { text: opt_view(self.text), calls: views(self.calls@) }
    }
}

/// Nothing handed out.
pub open spec fn no_drain() -> DrainV {
    DrainV { text: None, calls: Seq::empty() }
}

impl ToolDrain {
    /// Nothing handed out.
    pub fn none() -> (r: ToolDrain)
        ensures
            r@ == no_drain(),
    {
        let r = ToolDrain { text: None, calls: Vec::new() };
        proof {
            assert(views(r.calls@) =~= Seq::empty());
        }
        r
    }
}

/// What a matcher of stop sequences makes of a text: what may be shown, and
/// whether a stop sequence was hit.
#[derive(Debug)]
pub struct StopPush {
    pub emit: String,
    pub stopped: bool,
}

pub struct PushV {
    pub emit: Seq<char>,
    pub stopped: bool,
}

impl View for StopPush {
    type V = PushV;

    open spec fn view(&self) -> PushV {
        PushV { emit: self.emit@, stopped: self.stopped }
    }
}

/// The answers of the collaborators on one token. An answer to what was not asked
/// is not looked at.
#[derive(Debug)]
pub struct TokenOutcomes {
    /// The parser's answer to [`parser_input`].
    pub drain: ToolDrain,
    /// The matcher's answer to [`stop_input`].
    pub push: StopPush,
    /// What the parser hands out at the end of the stream.
    pub final_drain: ToolDrain,
    /// The matcher's answer to [`final_stop_input`].
    pub final_push: StopPush,
    /// What the matcher still held back at the end, when [`tail_wanted`].
    pub tail: String,
    /// An id for a call that is read from bare JSON.
    pub call_id: String,
}

pub struct OutcomesV {
    pub drain: DrainV,
    pub push: PushV,
    pub final_drain: DrainV,
    pub final_push: PushV,
    pub tail: Seq<char>,
    pub call_id: Seq<char>,
}

impl View for TokenOutcomes {
    type V = OutcomesV;

    open spec fn view(&self) -> OutcomesV {
        OutcomesV {
            drain: self.drain@,
            push: self.push@,
            final_drain: self.final_drain@,
            final_push: self.final_push@,
            tail: self.tail@,
            call_id: self.call_id@,
        }
    }
}

// ── State ────────────────────────────────────────────────────────────────────

/// The state of one streamed response.
#[derive(Debug)]
pub struct StreamState {
    /// Whether the output goes through a tool-call parser.
    pub has_parser: bool,
    pub next_tool_index: u32,
    pub any_tool_calls: bool,
    pub id: String,
    pub model: String,
    pub created: u64,
    /// Whether what stands in front of the first JSON value is dropped.
    pub json_object_mode: bool,
    /// Text held back until a JSON value begins.
    pub json_fence_buf: String,
    pub json_fence_buf_done: bool,
    pub prompt_tokens: u32,
    pub completion_tokens: u32,
    /// Whether a usage chunk ends the stream.
    pub include_usage: bool,
    /// Whether the output is a tool call in the form of bare JSON.
    pub bare_json_tool_call_mode: bool,
    /// The bare JSON so far.
    pub bare_json_accum: String,
    /// Whether the request has stop sequences.
    pub stop_active: bool,
    /// Whether one of them was hit.
    pub stop_hit: bool,
}

pub struct StreamV {
    pub has_parser: bool,
    pub next_tool_index: nat,
    pub any_tool_calls: bool,
    pub id: Seq<char>,
    pub model: Seq<char>,
    pub created: u64,
    pub json_object_mode: bool,
    pub fence_buf: Seq<char>,
    pub fence_done: bool,
    pub prompt_tokens: nat,
    pub completion_tokens: nat,
    pub include_usage: bool,
    pub bare_mode: bool,
    pub bare_accum: Seq<char>,
    pub stop_active: bool,
    pub stop_hit: bool,
}

impl View for StreamState {
    type V = StreamV;

    open spec fn view(&self) -> StreamV {
        StreamV {
            has_parser: self.has_parser,
            next_tool_index: self.next_tool_index as nat,
            any_tool_calls: self.any_tool_calls,
            id: self.id@,
            model: self.model@,
            created: self.created,
            json_object_mode: self.json_object_mode,
            fence_buf: self.json_fence_buf@,
            fence_done: self.json_fence_buf_done,
            prompt_tokens: self.prompt_tokens as nat,
            completion_tokens: self.completion_tokens as nat,
            include_usage: self.include_usage,
            bare_mode: self.bare_json_tool_call_mode,
            bare_accum: self.bare_json_accum@,
            stop_active: self.stop_active,
            stop_hit: self.stop_hit,
        }
    }
}

/// How a response is to be streamed.
#[derive(Debug, Clone, Copy, PartialEq, Eq, Structural)]
pub struct StreamOptionsSet {
    pub has_parser: bool,
    pub json_object_mode: bool,
    pub bare_json_tool_call_mode: bool,
    pub include_usage: bool,
    pub stop_active: bool,
}

/// The state in which a streamed response begins.
pub open spec fn stream_start(
    request_id: Seq<char>,
    model: Seq<char>,
    created: u64,
    prompt_tokens: nat,
    o: StreamOptionsSet,
) -> StreamV {
    StreamV {
        has_parser: o.has_parser,
        next_tool_index: 0,
        any_tool_calls: false,
        id: "chatcmpl-"@ + request_id,
        model,
        created,
        json_object_mode: o.json_object_mode,
        fence_buf: Seq::empty(),
        fence_done: false,
        prompt_tokens,
        completion_tokens: 0,
        include_usage: o.include_usage,
        bare_mode: o.bare_json_tool_call_mode,
        bare_accum: Seq::empty(),
        stop_active: o.stop_active,
        stop_hit: false,
    }
}

impl StreamState {
    /// The state in which a streamed response begins.
    pub fn start(
        request_id: &str,
        model: &str,
        created: u64,
        prompt_tokens: u32,
        options: StreamOptionsSet,
    ) -> (r: StreamState)
        ensures
            r@ == stream_start(request_id@, model@, created, prompt_tokens as nat, options),
    {
        StreamState {
            has_parser: options.has_parser,
            next_tool_index: 0,
            any_tool_calls: false,
            id: join2("chatcmpl-", request_id),
            model: model.to_owned(),
            created,
            json_object_mode: options.json_object_mode,
            json_fence_buf: String::new(),
            json_fence_buf_done: false,
            prompt_tokens,
            completion_tokens: 0,
            include_usage: options.include_usage,
            bare_json_tool_call_mode: options.bare_json_tool_call_mode,
            bare_json_accum: String::new(),
            stop_active: options.stop_active,
            stop_hit: false,
        }
    }
}

// ── Chunks ───────────────────────────────────────────────────────────────────

/// A delta without content.
pub open spec fn no_delta() -> DeltaV {
    DeltaV { role: None, content: None, reasoning_content: None, tool_calls: None }
}

/// A chunk with one choice.
pub open spec fn chunk_of(
    s: StreamV,
    delta: DeltaV,
    finish: Option<Seq<char>>,
    logprobs: Option<Seq<LogprobV>>,
) -> EventV {
    EventV::Chunk(
        ChunkV {
            id: s.id,
            object: "chat.completion.chunk"@,
            created: s.created,
            model: s.model,
            choices: seq![
                StreamChoiceV { index: 0, delta, finish_reason: finish, logprobs },
            ],
            usage: None,
        },
    )
}

/// The chunk that opens a stream.
pub open spec fn role_chunk(s: StreamV) -> EventV {
    chunk_of(s, DeltaV { role: Some("assistant"@), ..no_delta() }, None, None)
}

/// A chunk of answer text.
pub open spec fn content_chunk(
    s: StreamV,
    text: Seq<char>,
    logprobs: Option<Seq<LogprobV>>,
) -> EventV {
    chunk_of(s, DeltaV { content: Some(text), ..no_delta() }, None, logprobs)
}

/// A chunk of reasoning text.
pub open spec fn reasoning_chunk(
    s: StreamV,
    text: Seq<char>,
    logprobs: Option<Seq<LogprobV>>,
) -> EventV {
    chunk_of(s, DeltaV { reasoning_content: Some(text), ..no_delta() }, None, logprobs)
}

/// A chunk with one tool call.
pub open spec fn tool_chunk(s: StreamV, call: ToolCallV) -> EventV {
    chunk_of(s, DeltaV { tool_calls: Some(seq![call]), ..no_delta() }, None, None)
}

/// The chunk that carries the finish reason.
pub open spec fn finish_chunk(s: StreamV, finish: Option<Seq<char>>) -> EventV {
    chunk_of(s, no_delta(), finish, None)
}

/// The chunk that carries the token counts.
pub open spec fn usage_chunk(s: StreamV) -> EventV {
    EventV::Chunk(
        ChunkV {
            id: s.id,
            object: "chat.completion.chunk"@,
            created: s.created,
            model: s.model,
            choices: Seq::empty(),
            usage: Some(usage_of(s.prompt_tokens, s.completion_tokens)),
        },
    )
}

fn make_chunk(
    state: &StreamState,
    delta: DeltaContent,
    finish: Option<String>,
    logprobs: Option<ChatLogprobs>,
) -> (r: StreamEvent)
    ensures
        r@ == chunk_of(state@, delta@, opt_view(finish), opt_view(logprobs)),
{
    let mut choices: Vec<StreamChoice> = Vec::new();
    choices.push(StreamChoice { index: 0, delta, finish_reason: finish, logprobs });
    proof {
        assert(views(choices@) =~= seq![choices@[0]@]);
    }
    StreamEvent::Chunk(
        ChatCompletionChunk {
            id: state.id.clone(),
            object: "chat.completion.chunk".to_owned(),
            created: state.created,
            model: state.model.clone(),
            choices,
            usage: None,
        },
    )
}

/// The event that opens a stream.
pub fn make_role_event(state: &StreamState) -> (r: StreamEvent)
    ensures
        r@ == role_chunk(state@),
{
    make_chunk(
        state,
        DeltaContent {
            role: Some("assistant".to_owned()),
            content: None,
            reasoning_content: None,
            tool_calls: None,
        },
        None,
        None,
    )
}

/// A chunk of text on either channel. The finish reason is set only on the last
/// one.
pub fn make_content_chunk(
    state: &StreamState,
    content: Option<String>,
    reasoning_content: Option<String>,
    done: bool,
    finish: Option<String>,
    logprobs: Option<ChatLogprobs>,
) -> (r: StreamEvent)
    ensures
        r@ == chunk_of(
            state@,
            (DeltaV {
                role: None,
                content: opt_view(content),
                reasoning_content: opt_view(reasoning_content),
                tool_calls: None,
            }),
            if done {
                opt_view(finish)
            } else {
                None
            },
            opt_view(logprobs),
        ),
{
    make_chunk(
        state,
        DeltaContent { role: None, content, reasoning_content, tool_calls: None },
        if done {
            finish
        } else {
            None
        },
        logprobs,
    )
}

/// A chunk with one complete tool call.
pub fn make_tool_call_chunk(state: &StreamState, tool_call: ToolCall) -> (r: StreamEvent)
    ensures
        r@ == tool_chunk(state@, tool_call@),
{
    let mut calls: Vec<ToolCall> = Vec::new();
    calls.push(tool_call);
    proof {
        assert(views(calls@) =~= seq![tool_call@]);
    }
    make_chunk(
        state,
        DeltaContent {
            role: None,
            content: None,
            reasoning_content: None,
            tool_calls: Some(calls),
        },
        None,
        None,
    )
}

fn make_usage_chunk(state: &StreamState) -> (r: StreamEvent)
    requires
        state.prompt_tokens + state.completion_tokens <= u32::MAX,
    ensures
        r@ == usage_chunk(state@),
{
    let choices: Vec<StreamChoice> = Vec::new();
    proof {
        assert(views(choices@) =~= Seq::empty());
    }
    StreamEvent::Chunk(
        ChatCompletionChunk {
            id: state.id.clone(),
            object: "chat.completion.chunk".to_owned(),
            created: state.created,
            model: state.model.clone(),
            choices,
            usage: Some(
                Usage {
                    prompt_tokens: state.prompt_tokens,
                    completion_tokens: state.completion_tokens,
                    total_tokens: state.prompt_tokens + state.completion_tokens,
                },
            ),
        },
    )
}

// ── Routing ──────────────────────────────────────────────────────────────────

/// Holds text back until a JSON value begins, and drops what stood in front of
/// it, a code-fence header above all: the state, and the text that goes on.
pub open spec fn fenced(s: StreamV, piece: Seq<char>) -> (StreamV, Seq<char>) {
    if s.json_object_mode && !s.fence_done && piece.len() > 0 {
        let buf = s.fence_buf + piece;
        match json_text(buf) {
            Some(text) => (
                StreamV { fence_buf: Seq::empty(), fence_done: true, ..s },
                text,
            ),
            None => (StreamV { fence_buf: buf, ..s }, Seq::empty()),
        }
    } else {
        (s, piece)
    }
}

/// Where the text of a token goes.
#[derive(Clone, Copy, Debug, PartialEq, Eq, Structural)]
pub enum Channel {
    /// Into the bare JSON.
    Absorbed,
    Reasoning,
    Content,
}

/// Where the text of a token goes, and what of it: the state with the token
/// counted, the channel and the text.
pub open spec fn routed(s: StreamV, t: TokenV) -> (StreamV, Channel, Seq<char>) {
    let c = StreamV { completion_tokens: s.completion_tokens + 1, ..s };
    if t.is_thinking && s.bare_mode {
        (StreamV { bare_accum: c.bare_accum + t.piece, ..c }, Channel::Absorbed, Seq::empty())
    } else if t.is_thinking {
        (c, Channel::Reasoning, t.piece)
    } else {
        let (f, piece) = fenced(c, t.piece);
        (f, Channel::Content, piece)
    }
}

/// What goes on behind the parser. Without a parser, the text as it is.
pub open spec fn drained(has_parser: bool, piece: Seq<char>, d: DrainV) -> DrainV {
    if piece.len() == 0 {
        no_drain()
    } else if has_parser {
        d
    } else {
        DrainV { text: Some(piece), calls: Seq::empty() }
    }
}

/// The state after tool calls have been sent.
pub open spec fn with_calls(s: StreamV, n: nat) -> StreamV {
    StreamV {
        next_tool_index: s.next_tool_index + n,
        any_tool_calls: s.any_tool_calls || n > 0,
        ..s
    }
}

/// The events of tool calls, numbered on from the last one.
pub open spec fn call_events(s: StreamV, calls: Seq<ParsedCallV>) -> Seq<EventV> {
    Seq::new(
        calls.len(),
        |i: int| tool_chunk(s, response_call(calls[i], (s.next_tool_index + i) as nat)),
    )
}

/// The reasoning text and tool calls of a token.
pub open spec fn reasoning_part(
    s: StreamV,
    d: DrainV,
    logprobs: Option<Seq<LogprobV>>,
) -> (StreamV, Seq<EventV>) {
    let text = match d.text {
        Some(t) => seq![reasoning_chunk(s, t, logprobs)],
        None => Seq::empty(),
    };
    (with_calls(s, d.calls.len()), text + call_events(s, d.calls))
}

/// Whether answer text goes through the stop matcher.
pub open spec fn through_matcher(s: StreamV) -> bool {
    !s.bare_mode && !s.stop_hit && s.stop_active && !s.any_tool_calls
}

/// The answer text of a token: collected as bare JSON, suppressed after a stop
/// sequence, shown as far as the matcher allows, or shown as it is.
pub open spec fn content_text(
    s: StreamV,
    text: Seq<char>,
    push: PushV,
    logprobs: Option<Seq<LogprobV>>,
) -> (StreamV, Seq<EventV>) {
    if s.bare_mode {
        (StreamV { bare_accum: s.bare_accum + text, ..s }, Seq::empty())
    } else if s.stop_hit {
        (s, Seq::empty())
    } else if through_matcher(s) {
        (
            StreamV { stop_hit: push.stopped, ..s },
            if push.emit.len() > 0 {
                seq![content_chunk(s, push.emit, logprobs)]
            } else {
                Seq::empty()
            },
        )
    } else {
        (s, seq![content_chunk(s, text, logprobs)])
    }
}

/// The answer text and tool calls of a token.
pub open spec fn content_part(
    s: StreamV,
    d: DrainV,
    push: PushV,
    logprobs: Option<Seq<LogprobV>>,
) -> (StreamV, Seq<EventV>) {
    let (s1, events) = match d.text {
        Some(t) => content_text(s, t, push, logprobs),
        None => (s, Seq::empty()),
    };
    (with_calls(s1, d.calls.len()), events + call_events(s1, d.calls))
}

/// The logprobs of a token, as a chunk carries them.
pub open spec fn token_logprobs(t: TokenV) -> Option<Seq<LogprobV>> {
    match t.logprobs {
        Some(l) => Some(seq![l]),
        None => None,
    }
}

/// The part of a step that every token takes.
pub open spec fn token_part(s: StreamV, t: TokenV, o: OutcomesV) -> (StreamV, Seq<EventV>) {
    let (r, channel, piece) = routed(s, t);
    let d = drained(r.has_parser, piece, o.drain);
    match channel {
        Channel::Absorbed => (r, Seq::empty()),
        Channel::Reasoning => reasoning_part(r, d, token_logprobs(t)),
        Channel::Content => content_part(r, d, o.push, token_logprobs(t)),
    }
}

// ── The end of a stream ──────────────────────────────────────────────────────

/// What the parser hands out at the end; nothing without a parser.
pub open spec fn final_drained(s: StreamV, d: DrainV) -> DrainV {
    if s.has_parser {
        d
    } else {
        no_drain()
    }
}

/// The text that the parser still held at the end.
pub open spec fn final_text(s: StreamV, text: Option<Seq<char>>, push: PushV) -> (
    StreamV,
    Seq<EventV>,
) {
    match text {
        Some(t) if !s.stop_hit => if s.stop_active {
            (
                StreamV { stop_hit: push.stopped, ..s },
                if push.emit.len() > 0 {
                    seq![content_chunk(s, push.emit, None)]
                } else {
                    Seq::empty()
                },
            )
        } else {
            (s, seq![content_chunk(s, t, None)])
        },
        _ => (s, Seq::empty()),
    }
}

/// The text that the stop matcher still held back at the end.
pub open spec fn tail_events(s: StreamV, tail: Seq<char>) -> Seq<EventV> {
    if !s.stop_hit && s.stop_active && tail.len() > 0 {
        seq![content_chunk(s, tail, None)]
    } else {
        Seq::empty()
    }
}

/// The tool call that the bare JSON of a stream says.
pub open spec fn bare_result(s: StreamV, call_id: Seq<char>) -> Option<ParsedCallV> {
    identified(
        bare_call_of_text(
            match extracted(s.bare_accum) {
                Some(v) => v,
                None => Seq::empty(),
            },
        ),
        call_id,
    )
}

/// The bare JSON of a stream, as a tool call; where it is none, as content.
pub open spec fn bare_part(s: StreamV, call_id: Seq<char>) -> (StreamV, Seq<EventV>) {
    if s.bare_mode && !s.any_tool_calls {
        match bare_result(s, call_id) {
            Some(p) => (
                with_calls(s, 1),
                seq![tool_chunk(s, response_call(p, s.next_tool_index))],
            ),
            None => if s.bare_accum.len() > 0 {
                (
                    StreamV { bare_accum: Seq::empty(), ..s },
                    seq![content_chunk(s, s.bare_accum, None)],
                )
            } else {
                (s, Seq::empty())
            },
        }
    } else {
        (s, Seq::empty())
    }
}

/// The finish reason of a stream: that of a stop sequence overrides the engine's,
/// and tool calls override both.
pub open spec fn stream_finish(s: StreamV, terminal: Option<Seq<char>>) -> Option<Seq<char>> {
    finish_reason(
        s.any_tool_calls,
        if s.stop_hit {
            Some("stop"@)
        } else {
            terminal
        },
    )
}

/// The events that end a stream.
pub open spec fn ending_events(s: StreamV, terminal: Option<Seq<char>>) -> Seq<EventV> {
    seq![finish_chunk(s, stream_finish(s, terminal))] + if s.include_usage {
        seq![usage_chunk(s)]
    } else {
        Seq::empty()
    }
}

/// The part of a step that only the last token takes.
pub open spec fn done_part(s: StreamV, t: TokenV, o: OutcomesV) -> (StreamV, Seq<EventV>) {
    let d = final_drained(s, o.final_drain);
    let (s1, e1) = final_text(s, d.text, o.final_push);
    let e2 = tail_events(s1, o.tail);
    let s3 = with_calls(s1, d.calls.len());
    let e3 = call_events(s1, d.calls);
    let (s4, e4) = bare_part(s3, o.call_id);
    (s4, e1 + e2 + e3 + e4 + ending_events(s4, t.finish_reason))
}

/// One step of a stream: the next state and the events to send.
pub open spec fn stream_step(s: StreamV, t: TokenV, o: OutcomesV) -> (StreamV, Seq<EventV>) {
    let (s1, e1) = token_part(s, t, o);
    if t.done {
        let (s2, e2) = done_part(s1, t, o);
        (s2, e1 + e2)
    } else {
        (s1, e1)
    }
}

/// The counters of a stream have room for one more token with these calls.
pub open spec fn has_room(s: StreamV, o: OutcomesV) -> bool {
    &&& s.prompt_tokens + s.completion_tokens + 1 <= u32::MAX
    &&& s.next_tool_index + o.drain.calls.len() + o.final_drain.calls.len() + 1 <= u32::MAX
}

// ── Execution ────────────────────────────────────────────────────────────────

/// The text of a token that goes on, by itself.
fn routed_piece(state: &StreamState, tok: &GenerationToken) -> (r: (Channel, String))
    ensures
        r.0 == routed(state@, tok@).1,
        r.1@ == routed(state@, tok@).2,
{
    if tok.is_thinking {
        if state.bare_json_tool_call_mode {
            (Channel::Absorbed, String::new())
        } else {
            (Channel::Reasoning, tok.piece.clone())
        }
    } else if state.json_object_mode && !state.json_fence_buf_done && !tok.piece.as_str().is_empty() {
        let buf = join2(state.json_fence_buf.as_str(), tok.piece.as_str());
        let cs = chars_of(buf.as_str());
        match json_start(&cs) {
            Some(i) => (Channel::Content, string_of(&cs, i, cs.len())),
            None => (Channel::Content, String::new()),
        }
    } else {
        (Channel::Content, tok.piece.clone())
    }
}

/// The text to feed to the tool-call parser for a token, if any.
pub fn parser_input(state: &StreamState, tok: &GenerationToken) -> (r: Option<String>)
    ensures
        ({
            let (_, channel, piece) = routed(state@, tok@);
            if state@.has_parser && channel != Channel::Absorbed && piece.len() > 0 {
                r matches Some(p) && p@ == piece
            } else {
                r is None
            }
        }),
{
    let (channel, piece) = routed_piece(state, tok);
    if state.has_parser && channel != Channel::Absorbed && !piece.as_str().is_empty() {
        Some(piece)
    } else {
        None
    }
}

/// The text that the stop matcher gets for a token.
pub open spec fn matcher_text(s: StreamV, t: TokenV, d: DrainV) -> Option<Seq<char>> {
    let (r, channel, piece) = routed(s, t);
    if channel == Channel::Content && through_matcher(s) {
        drained(s.has_parser, piece, d).text
    } else {
        None
    }
}

/// The text to feed to the stop matcher for a token, if any. `drain` is the
/// parser's answer.
pub fn stop_input(state: &StreamState, tok: &GenerationToken, drain: &ToolDrain) -> (r: Option<
    String,
>)
    ensures
        opt_view(r) == matcher_text(state@, tok@, drain@),
{
    let (channel, piece) = routed_piece(state, tok);
    if channel == Channel::Content && !state.bare_json_tool_call_mode && !state.stop_hit
        && state.stop_active && !state.any_tool_calls && !piece.as_str().is_empty() {
        if state.has_parser {
            copy_opt_text(&drain.text)
        } else {
            Some(piece)
        }
    } else {
        None
    }
}

/// Whether a stop sequence has been hit once a token's own text is through.
pub open spec fn hit_after_token(s: StreamV, t: TokenV, o: OutcomesV) -> bool {
    s.stop_hit || (matcher_text(s, t, o.drain) is Some && o.push.stopped)
}

/// The text that the stop matcher gets at the end of a stream.
pub open spec fn final_matcher_text(s: StreamV, t: TokenV, o: OutcomesV) -> Option<Seq<char>> {
    if t.done && s.stop_active && !hit_after_token(s, t, o) {
        final_drained(s, o.final_drain).text
    } else {
        None
    }
}

/// The text to feed to the stop matcher at the end of a stream, if any. The
/// outcomes hold the answers so far and what the parser handed out at the end.
pub fn final_stop_input(state: &StreamState, tok: &GenerationToken, o: &TokenOutcomes) -> (r:
    Option<String>)
    ensures
        opt_view(r) == final_matcher_text(state@, tok@, o@),
{
    if !tok.done || !state.stop_active || state.stop_hit || !state.has_parser {
        return None;
    }
    if stop_input(state, tok, &o.drain).is_some() && o.push.stopped {
        return None;
    }
    copy_opt_text(&o.final_drain.text)
}

/// Whether the text that the matcher holds back is wanted at the end of a stream.
pub fn tail_wanted(state: &StreamState, tok: &GenerationToken, o: &TokenOutcomes) -> (r: bool)
    ensures
        r == (tok@.done && state@.stop_active && !hit_after_token(state@, tok@, o@) && !(
        final_matcher_text(state@, tok@, o@) is Some && o@.final_push.stopped)),
{
    if !tok.done || !state.stop_active || state.stop_hit {
        return false;
    }
    if stop_input(state, tok, &o.drain).is_some() && o.push.stopped {
        return false;
    }
    !(final_stop_input(state, tok, o).is_some() && o.final_push.stopped)
}

/// The state after a token's text part holds a stop hit exactly where it was
/// predicted.
pub proof fn law_stop_hit_is_predicted(s: StreamV, t: TokenV, o: OutcomesV)
    ensures
        token_part(s, t, o).0.stop_hit == hit_after_token(s, t, o),
        token_part(s, t, o).0.stop_active == s.stop_active,
        token_part(s, t, o).0.has_parser == s.has_parser,
{
}

fn emit_calls(state: &mut StreamState, calls: &Vec<ParsedToolCall>, out: &mut Vec<StreamEvent>)
    requires
        old(state)@.next_tool_index + calls@.len() <= u32::MAX,
    ensures
        final(state)@ == with_calls(old(state)@, calls@.len()),
        views(final(out)@) == views(old(out)@) + call_events(old(state)@, views(calls@)),
{
    let ghost s0 = state@;
    let ghost out0 = out@;
    let mut i: usize = 0;
    proof {
        assert(views(out@) =~= views(out0) + call_events(s0, views(calls@)).subrange(0, 0));
    }
    while i < calls.len()
        invariant
            i <= calls@.len(),
            s0.next_tool_index + calls@.len() <= u32::MAX,
            state@ == with_calls(s0, i as nat),
            views(out@) == views(out0) + call_events(s0, views(calls@)).subrange(0, i as int),
        decreases calls@.len() - i,
    {
        let index: u32 = state.next_tool_index;
        state.next_tool_index = index + 1;
        state.any_tool_calls = true;
        let event = make_tool_call_chunk(state, to_response_tool_call(&calls[i], index));
        let ghost before = out@;
        out.push(event);
        proof {
            let all = call_events(s0, views(calls@));
            assert(event@ == all[i as int]);
            assert(views(out@) =~= views(before).push(event@));
            assert(all.subrange(0, i + 1) =~= all.subrange(0, i as int).push(all[i as int]));
            assert(views(out@) =~= views(out0) + all.subrange(0, i + 1));
        }
        i += 1;
    }
    proof {
        let all = call_events(s0, views(calls@));
        assert(all.subrange(0, i as int) =~= all);
    }
}

fn push_event(out: &mut Vec<StreamEvent>, event: StreamEvent)
    ensures
        views(final(out)@) == views(old(out)@) + seq![event@],
{
    let ghost before = out@;
    out.push(event);
    proof {
        assert(views(out@) =~= views(before) + seq![event@]);
    }
}

/// What a step of a stream brings about.
#[derive(Debug)]
pub struct StreamStep {
    /// The events to send, in order.
    pub events: Vec<StreamEvent>,
    /// The category under which a failure is to be counted.
    pub failed: Option<ApiErrorCategory>,
    /// The token counts of a request that is complete.
    pub completed: Option<Usage>,
}

fn on_token(
    state: &mut StreamState,
    tok: GenerationToken,
    drain: ToolDrain,
    push: StopPush,
    Ghost(o): Ghost<OutcomesV>,
) -> (r: (Vec<StreamEvent>, Option<String>))
    requires
        has_room(old(state)@, o),
        o.drain == drain@,
        o.push == push@,
    ensures
        final(state)@ == token_part(old(state)@, tok@, o).0,
        views(r.0@) == token_part(old(state)@, tok@, o).1,
        opt_view(r.1) == tok@.finish_reason,
{
    let ghost s0 = state@;
    let (channel, piece) = routed_piece(state, &tok);
    let mut out: Vec<StreamEvent> = Vec::new();
    proof {
        assert(views(out@) =~= Seq::empty());
    }
    let logprobs: Option<ChatLogprobs> = match tok.logprobs {
        Some(c) => {
            let mut content: Vec<ChatLogprobContent> = Vec::new();
            content.push(c);
            proof {
                assert(views(content@) =~= seq![c@]);
            }
            Some(ChatLogprobs { content })
        },
        None => None,
    };
    state.completion_tokens = state.completion_tokens + 1;
    let (text, calls): (Option<String>, Vec<ParsedToolCall>) = if piece.as_str().is_empty() {
        (None, Vec::new())
    } else if state.has_parser {
        (drain.text, drain.calls)
    } else {
        (Some(piece), Vec::new())
    };
    proof {
        let d = drained(s0.has_parser, piece@, o.drain);
        assert(views(calls@) =~= d.calls);
        assert(opt_view(text) == d.text);
    }
    match channel {
        Channel::Absorbed => {
            state.bare_json_accum.append(tok.piece.as_str());
        },
        Channel::Reasoning => {
            let ghost s1 = state@;
            match text {
                Some(t) => push_event(
                    &mut out,
                    make_content_chunk(state, None, Some(t), false, None, logprobs),
                ),
                None => {},
            }
            emit_calls(state, &calls, &mut out);
        },
        Channel::Content => {
            if state.json_object_mode && !state.json_fence_buf_done
                && !tok.piece.as_str().is_empty() {
                let buf = join2(state.json_fence_buf.as_str(), tok.piece.as_str());
                let cs = chars_of(buf.as_str());
                if json_start(&cs).is_some() {
                    state.json_fence_buf_done = true;
                    state.json_fence_buf = String::new();
                } else {
                    state.json_fence_buf = buf;
                }
            }
            proof {
                assert(state@ == routed(s0, tok@).0);
            }
            match text {
                Some(t) => {
                    if state.bare_json_tool_call_mode {
                        state.bare_json_accum.append(t.as_str());
                    } else if state.stop_hit {
                    } else if state.stop_active && !state.any_tool_calls {
                        if !push.emit.as_str().is_empty() {
                            push_event(
                                &mut out,
                                make_content_chunk(
                                    state,
                                    Some(push.emit),
                                    None,
                                    false,
                                    None,
                                    logprobs,
                                ),
                            );
                        }
                        state.stop_hit = push.stopped;
                    } else {
                        push_event(
                            &mut out,
                            make_content_chunk(state, Some(t), None, false, None, logprobs),
                        );
                    }
                },
                None => {},
            }
            emit_calls(state, &calls, &mut out);
        },
    }
    (out, tok.finish_reason)
}

/// What is left to do at the end of a stream.
struct Ending {
    drain: ToolDrain,
    push: StopPush,
    tail: String,
    call_id: String,
    finish: Option<String>,
}

/// The bare JSON of a stream, as a tool call or as content.
fn emit_bare(state: &mut StreamState, call_id: String, out: &mut Vec<StreamEvent>)
    requires
        old(state)@.next_tool_index < u32::MAX,
    ensures
        final(state)@ == bare_part(old(state)@, call_id@).0,
        views(final(out)@) == views(old(out)@) + bare_part(old(state)@, call_id@).1,
{
    proof {
        assert(views(out@) + Seq::<EventV>::empty() =~= views(out@));
    }
    if state.bare_json_tool_call_mode && !state.any_tool_calls {
        let json = match extract_top_level_json_value(state.bare_json_accum.as_str()) {
            Some(v) => v,
            None => String::new(),
        };
        match bare_json_to_tool_call(json.as_str(), call_id) {
            Some(call) => {
                let index: u32 = state.next_tool_index;
                state.next_tool_index = index + 1;
                state.any_tool_calls = true;
                push_event(out, make_tool_call_chunk(state, to_response_tool_call(&call, index)));
            },
            None => {
                if !state.bare_json_accum.as_str().is_empty() {
                    let text = state.bare_json_accum.clone();
                    state.bare_json_accum = String::new();
                    push_event(out, make_content_chunk(state, Some(text), None, false, None, None));
                }
            },
        }
    }
}

/// The text that the parser still held at the end.
fn emit_final_text(
    state: &mut StreamState,
    text: Option<String>,
    push: StopPush,
    out: &mut Vec<StreamEvent>,
)
    ensures
        final(state)@ == final_text(old(state)@, opt_view(text), push@).0,
        views(final(out)@) == views(old(out)@) + final_text(
            old(state)@,
            opt_view(text),
            push@,
        ).1,
{
    proof {
        assert(views(out@) + Seq::<EventV>::empty() =~= views(out@));
    }
    match text {
        Some(t) => {
            if state.stop_hit {
            } else if state.stop_active {
                if !push.emit.as_str().is_empty() {
                    push_event(
                        out,
                        make_content_chunk(state, Some(push.emit), None, false, None, None),
                    );
                }
                state.stop_hit = push.stopped;
            } else {
                push_event(out, make_content_chunk(state, Some(t), None, false, None, None));
            }
        },
        None => {},
    }
}

/// The text that the stop matcher still held back at the end.
fn emit_tail(state: &StreamState, tail: String, out: &mut Vec<StreamEvent>)
    ensures
        views(final(out)@) == views(old(out)@) + tail_events(state@, tail@),
{
    proof {
        assert(views(out@) + Seq::<EventV>::empty() =~= views(out@));
    }
    if !state.stop_hit && state.stop_active && !tail.as_str().is_empty() {
        push_event(out, make_content_chunk(state, Some(tail), None, false, None, None));
    }
}

fn emit_ending(state: &StreamState, finish: Option<String>, out: &mut Vec<StreamEvent>)
    requires
        state@.prompt_tokens + state@.completion_tokens <= u32::MAX,
    ensures
        views(final(out)@) == views(old(out)@) + ending_events(state@, opt_view(finish)),
{
    let ghost before = views(out@);
    let ghost terminal = opt_view(finish);
    let finish = if state.stop_hit {
        Some("stop".to_owned())
    } else {
        finish
    };
    let upgraded = select_finish_reason(state.any_tool_calls, finish);
    push_event(out, make_content_chunk(state, None, None, true, upgraded, None));
    if state.include_usage {
        push_event(out, make_usage_chunk(state));
    }
    proof {
        assert(views(out@) =~= before + ending_events(state@, terminal));
    }
}

fn on_done(
    state: &mut StreamState,
    e: Ending,
    Ghost(t): Ghost<TokenV>,
    Ghost(o): Ghost<OutcomesV>,
) -> (out: Vec<StreamEvent>)
    requires
        old(state)@.prompt_tokens + old(state)@.completion_tokens <= u32::MAX,
        old(state)@.next_tool_index + o.final_drain.calls.len() + 1 <= u32::MAX,
        o.final_drain == e.drain@,
        o.final_push == e.push@,
        o.tail == e.tail@,
        o.call_id == e.call_id@,
        t.finish_reason == opt_view(e.finish),
    ensures
        final(state)@ == done_part(old(state)@, t, o).0,
        views(out@) == done_part(old(state)@, t, o).1,
{
    let ghost d = final_drained(state@, o.final_drain);
    let mut out: Vec<StreamEvent> = Vec::new();
    let (text, calls): (Option<String>, Vec<ParsedToolCall>) = if state.has_parser {
        (e.drain.text, e.drain.calls)
    } else {
        (None, Vec::new())
    };
    proof {
        assert(views(calls@) =~= d.calls);
        assert(opt_view(text) == d.text);
        assert(views(out@) =~= Seq::empty());
    }
    emit_final_text(state, text, e.push, &mut out);
    proof {
        let e1 = final_text(old(state)@, d.text, o.final_push).1;
        assert(views(out@) =~= e1);
    }
    emit_tail(state, e.tail, &mut out);
    emit_calls(state, &calls, &mut out);
    emit_bare(state, e.call_id, &mut out);
    emit_ending(state, e.finish, &mut out);
    out
}

/// Maps one item of an engine's stream to the events to send.
///
/// A failure ends the stream: its events are a lone `[DONE]`. Otherwise the
/// token's text goes to the reasoning or to the answer channel, behind the tool
/// parser and the stop matcher; the last token brings the finish chunk and, where
/// it was asked for, the usage chunk.
pub fn handle_streaming_token(
    item: Result<GenerationToken, EngineError>,
    state: &mut StreamState,
    outcomes: TokenOutcomes,
) -> (r: StreamStep)
    requires
        item is Ok ==> has_room(old(state)@, outcomes@),
    ensures
        match item {
            Err(e) => {
                &&& final(state)@ == old(state)@
                &&& views(r.events@) == seq![EventV::Done]
                &&& r.failed == Some(error_category(e@))
                &&& r.completed is None
            },
            Ok(t) => {
                let (s, events) = stream_step(old(state)@, t@, outcomes@);
                &&& final(state)@ == s
                &&& views(r.events@) == events
                &&& r.failed is None
                &&& r.completed == if t@.done {
                    Some(usage_of(s.prompt_tokens, s.completion_tokens))
                } else {
                    None
                }
            },
        },
{
    match item {
        Err(e) => {
            let mut events: Vec<StreamEvent> = Vec::new();
            events.push(StreamEvent::Done);
            proof {
                assert(views(events@) =~= seq![EventV::Done]);
            }
            StreamStep { events, failed: Some(engine_error_category(&e)), completed: None }
        },
        Ok(tok) => {
            let ghost s0 = state@;
            let ghost t = tok@;
            let ghost o = outcomes@;
            let done = tok.done;
            let (mut events, finish) = on_token(
                state,
                tok,
                outcomes.drain,
                outcomes.push,
                Ghost(o),
            );
            if !done {
                return StreamStep { events, failed: None, completed: None };
            }
            proof {
                lemma_counts_after_token(s0, t, o);
            }
            let mut last = on_done(
                state,
                Ending {
                    drain: outcomes.final_drain,
                    push: outcomes.final_push,
                    tail: outcomes.tail,
                    call_id: outcomes.call_id,
                    finish,
                },
                Ghost(t),
                Ghost(o),
            );
            let ghost (first, rest) = (events@, last@);
            events.append(&mut last);
            proof {
                lemma_views_add(first, rest);
                lemma_counts_at_done(token_part(s0, t, o).0, t, o);
            }
            let usage = Usage {
                prompt_tokens: state.prompt_tokens,
                completion_tokens: state.completion_tokens,
                total_tokens: state.prompt_tokens + state.completion_tokens,
            };
            StreamStep { events, failed: None, completed: Some(usage) }
        },
    }
}

proof fn lemma_counts_after_token(s: StreamV, t: TokenV, o: OutcomesV)
    ensures
        token_part(s, t, o).0.prompt_tokens == s.prompt_tokens,
        token_part(s, t, o).0.completion_tokens == s.completion_tokens + 1,
        token_part(s, t, o).0.next_tool_index <= s.next_tool_index + o.drain.calls.len(),
{
}

proof fn lemma_counts_at_done(s: StreamV, t: TokenV, o: OutcomesV)
    ensures
        done_part(s, t, o).0.prompt_tokens == s.prompt_tokens,
        done_part(s, t, o).0.completion_tokens == s.completion_tokens,
{
}

} // verus!
