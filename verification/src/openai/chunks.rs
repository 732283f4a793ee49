//! What the chunks of a streamed response say.
//!
//! The laws here follow one token through [`handle_streaming_token`]: which chunks
//! it brings, what stands in each of them, and what becomes of the state.

use vstd::prelude::*;

use crate::engine::error::EngineError;
use crate::engine::types::{GenerationToken, TokenV};
use crate::json::{text_of_json, value_built};
use crate::openai::errors::{engine_error_category, ApiErrorCategory};
use crate::openai::json_extract::{extracted, json_text};
use crate::openai::response::{
    ChatLogprobContent, ChatLogprobs, ParsedCallV, ParsedToolCall, StreamChoice, ToolCall,
};
use crate::openai::streaming::{
    bare_part, call_events, content_chunk, done_part, ending_events, final_drained, final_text,
    final_stop_input, finish_chunk, handle_streaming_token, make_content_chunk, make_role_event,
    make_tool_call_chunk, parser_input,
    stop_input, stream_finish, stream_step, tail_events, tail_wanted, token_part, usage_chunk,
    with_calls, OutcomesV, StreamEvent, StreamOptionsSet, StreamState,
    StreamStep, StreamV, TokenOutcomes,
};
use crate::openai::tool_call::bare_call_of_text;
use crate::text::{opt_view, views};

verus! {

// ── One chunk ────────────────────────────────────────────────────────────────

/// An event is a chunk of this stream with one choice.
pub open spec fn is_chunk_of(e: StreamEvent, s: StreamState) -> bool {
    e matches StreamEvent::Chunk(c) && {
        &&& c.id@ == s.id@
        &&& c.object@ == "chat.completion.chunk"@
        &&& c.created == s.created
        &&& c.model@ == s.model@
        &&& c.usage is None
        &&& c.choices@.len() == 1
        &&& c.choices@[0].index == 0
    }
}

/// The one choice of a chunk.
pub open spec fn choice_of(e: StreamEvent) -> StreamChoice {
    e->Chunk_0.choices@[0]
}

/// The log-probabilities of a chunk are those of one token, when it has some, and
/// none otherwise.
pub open spec fn carries_logprobs(e: StreamEvent, l: Option<ChatLogprobContent>) -> bool {
    match l {
        None => choice_of(e).logprobs is None,
        Some(record) => choice_of(e).logprobs matches Some(lp) && lp.content@.len() == 1
            && lp.content@[0].token@ == record.token@ && lp.content@[0].logprob == record.logprob
            && opt_view(lp.content@[0].bytes) == opt_view(record.bytes) && views(
            lp.content@[0].top_logprobs@,
        ) == views(record.top_logprobs@),
    }
}

/// A chunk with a text of the answer and nothing else.
pub open spec fn is_answer(e: StreamEvent, s: StreamState, text: Seq<char>) -> bool {
    &&& is_chunk_of(e, s)
    &&& choice_of(e).delta.content matches Some(t) && t@ == text
    &&& choice_of(e).delta.reasoning_content is None
    &&& choice_of(e).delta.tool_calls is None
    &&& choice_of(e).delta.role is None
    &&& choice_of(e).finish_reason is None
}

/// A chunk with a text of the reasoning and nothing else.
pub open spec fn is_thought(e: StreamEvent, s: StreamState, text: Seq<char>) -> bool {
    &&& is_chunk_of(e, s)
    &&& choice_of(e).delta.reasoning_content matches Some(t) && t@ == text
    &&& choice_of(e).delta.content is None
    &&& choice_of(e).delta.tool_calls is None
    &&& choice_of(e).delta.role is None
    &&& choice_of(e).finish_reason is None
}

/// A chunk with this tool call, at this position among the calls, and nothing else.
pub open spec fn is_call(e: StreamEvent, s: StreamState, call: ParsedToolCall, index: int) -> bool {
    &&& is_chunk_of(e, s)
    &&& choice_of(e).delta.content is None
    &&& choice_of(e).delta.reasoning_content is None
    &&& choice_of(e).delta.role is None
    &&& choice_of(e).finish_reason is None
    &&& choice_of(e).logprobs is None
    &&& choice_of(e).delta.tool_calls matches Some(calls) && {
        &&& calls@.len() == 1
        &&& calls@[0].index == index
        &&& calls@[0].id@ == call.id@
        &&& calls@[0].kind@ == "function"@
        &&& calls@[0].function.name@ == call.name@
        &&& calls@[0].function.arguments@ == text_of_json(value_built(call.arguments@))
    }
}

/// The chunk that ends the choice, for this reason.
pub open spec fn is_finish(e: StreamEvent, s: StreamState, reason: Option<Seq<char>>) -> bool {
    &&& is_chunk_of(e, s)
    &&& choice_of(e).delta.content is None
    &&& choice_of(e).delta.reasoning_content is None
    &&& choice_of(e).delta.tool_calls is None
    &&& choice_of(e).delta.role is None
    &&& choice_of(e).logprobs is None
    &&& opt_view(choice_of(e).finish_reason) == reason
}

/// The chunk that carries these token counts.
pub open spec fn is_usage(e: StreamEvent, s: StreamState, prompt: int, completion: int) -> bool {
    e matches StreamEvent::Chunk(c) && {
        &&& c.id@ == s.id@
        &&& c.object@ == "chat.completion.chunk"@
        &&& c.created == s.created
        &&& c.model@ == s.model@
        &&& c.choices@.len() == 0
        &&& c.usage matches Some(u) && u.prompt_tokens == prompt && u.completion_tokens
            == completion && u.total_tokens == prompt + completion
    }
}

// ── The start of a stream ────────────────────────────────────────────────────

/// A stream begins without text, calls or counts, as its request says, under the
/// request's id; its first event gives the assistant's role and nothing else.
pub proof fn law_stream_begins_as_asked(
    request_id: &str,
    model: &str,
    created: u64,
    prompt_tokens: u32,
    o: StreamOptionsSet,
    s: StreamState,
    e: StreamEvent,
)
    requires
        call_ensures(StreamState::start, (request_id, model, created, prompt_tokens, o), s),
        call_ensures(make_role_event, (&s,), e),
    ensures
        s.id@ == "chatcmpl-"@ + request_id@,
        s.model@ == model@,
        s.created == created,
        s.prompt_tokens == prompt_tokens,
        s.completion_tokens == 0,
        s.next_tool_index == 0,
        !s.any_tool_calls,
        s.has_parser == o.has_parser,
        s.json_object_mode == o.json_object_mode,
        s.json_fence_buf@.len() == 0,
        !s.json_fence_buf_done,
        s.bare_json_tool_call_mode == o.bare_json_tool_call_mode,
        s.bare_json_accum@.len() == 0,
        s.include_usage == o.include_usage,
        s.stop_active == o.stop_active,
        !s.stop_hit,
        is_chunk_of(e, s),
        choice_of(e).delta.role matches Some(r) && r@ == "assistant"@,
        choice_of(e).delta.content is None,
        choice_of(e).delta.reasoning_content is None,
        choice_of(e).delta.tool_calls is None,
        choice_of(e).finish_reason is None,
        choice_of(e).logprobs is None,
{
    let c = e->Chunk_0;
    assert(views(c.choices@).len() == c.choices@.len());
    assert(views(c.choices@)[0] == c.choices@[0]@);
}

// ── One token ────────────────────────────────────────────────────────────────

/// The text of a token that goes on to the parser: of an answer of which only JSON
/// is wanted, nothing until a JSON value begins, and then from there.
pub open spec fn passed_on(s: StreamState, tok: GenerationToken) -> Seq<char> {
    if !tok.is_thinking && s.json_object_mode && !s.json_fence_buf_done && tok.piece@.len() > 0 {
        match json_text(s.json_fence_buf@ + tok.piece@) {
            Some(t) => t,
            None => Seq::empty(),
        }
    } else {
        tok.piece@
    }
}

/// The text of a token behind the parser; without a parser, the text itself.
pub open spec fn behind_parser(s: StreamState, tok: GenerationToken, o: TokenOutcomes) -> Option<
    Seq<char>,
> {
    if passed_on(s, tok).len() == 0 {
        None
    } else if s.has_parser {
        opt_view(o.drain.text)
    } else {
        Some(passed_on(s, tok))
    }
}

/// The tool calls that a token completes: those that the parser hands out.
pub open spec fn completed_calls(s: StreamState, tok: GenerationToken, o: TokenOutcomes) -> Seq<
    ParsedToolCall,
> {
    if passed_on(s, tok).len() > 0 && s.has_parser && !(tok.is_thinking
        && s.bare_json_tool_call_mode) {
        o.drain.calls@
    } else {
        Seq::empty()
    }
}

/// The text of a token that is sent: reasoning as it is; of the answer, nothing that
/// is collected as bare JSON or stands behind a stop sequence, and what the matcher
/// lets through while a stop sequence is looked for.
pub open spec fn sent_text(s: StreamState, tok: GenerationToken, o: TokenOutcomes) -> Option<
    Seq<char>,
> {
    if s.bare_json_tool_call_mode {
        None
    } else if tok.is_thinking {
        behind_parser(s, tok, o)
    } else if s.stop_hit {
        None
    } else if s.stop_active && !s.any_tool_calls {
        if behind_parser(s, tok, o) is Some && o.push.emit@.len() > 0 {
            Some(o.push.emit@)
        } else {
            None
        }
    } else {
        behind_parser(s, tok, o)
    }
}

/// How many chunks of text a token brings.
pub open spec fn text_chunks(s: StreamState, tok: GenerationToken, o: TokenOutcomes) -> int {
    if sent_text(s, tok, o) is Some {
        1
    } else {
        0
    }
}

proof fn lemma_token_events(s: StreamState, tok: GenerationToken, o: TokenOutcomes)
    ensures
        ({
            let es = token_part(s@, tok@, o@).1;
            let n = text_chunks(s, tok, o);
            let calls = completed_calls(s, tok, o);
            &&& es.len() == n + calls.len()
            &&& forall|i: int|
                0 <= i < calls.len() ==> #[trigger] es[n + i] == call_events(
                    s@,
                    views(calls),
                )[i]
        }),
{
}

/// A token brings a chunk with its text, where that is sent, on the channel that the
/// token belongs to, and then a chunk for each tool call that it completes, numbered
/// on from the calls before. The chunk with its text carries the token's own
/// log-probabilities, when it has some. Only the last token brings more.
pub proof fn law_token_brings_its_chunks(
    tok: GenerationToken,
    state: &mut StreamState,
    o: TokenOutcomes,
    r: StreamStep,
)
    requires
        call_ensures(handle_streaming_token, (Ok(tok), state, o), r),
    ensures
        ({
            let s = *old(state);
            let n = text_chunks(s, tok, o);
            let calls = completed_calls(s, tok, o);
            &&& r.failed is None
            &&& r.events@.len() >= n + calls.len()
            &&& !tok.done ==> r.events@.len() == n + calls.len() && r.completed is None
            &&& sent_text(s, tok, o) matches Some(text) ==> {
                &&& tok.is_thinking ==> is_thought(r.events@[0], s, text)
                &&& !tok.is_thinking ==> is_answer(r.events@[0], s, text)
                &&& carries_logprobs(r.events@[0], tok.logprobs)
            }
            &&& forall|i: int|
                0 <= i < calls.len() ==> is_call(
                    #[trigger] r.events@[n + i],
                    s,
                    calls[i],
                    s.next_tool_index + i,
                )
        }),
{
    let s = *old(state);
    let n = text_chunks(s, tok, o);
    let calls = completed_calls(s, tok, o);
    let es = token_part(s@, tok@, o@).1;
    lemma_token_events(s, tok, o);
    assert(views(r.events@).len() == r.events@.len());
    assert forall|i: int| 0 <= i < es.len() implies es[i] == (#[trigger] r.events@[i])@ by {
        assert(views(r.events@)[i] == r.events@[i]@);
    }
    match sent_text(s, tok, o) {
        Some(text) => {
            let e = r.events@[0];
            assert(e@ == es[0]);
            lemma_one_choice(e);
        },
        None => {},
    }
    assert forall|i: int| 0 <= i < calls.len() implies is_call(
        #[trigger] r.events@[n + i],
        s,
        calls[i],
        s.next_tool_index + i,
    ) by {
        let e = r.events@[n + i];
        assert(es[n + i] == call_events(s@, views(calls))[i]);
        assert(views(calls)[i] == calls[i]@);
        lemma_one_choice(e);
    }
}

/// What a chunk's view says of its only choice.
proof fn lemma_one_choice(e: StreamEvent)
    ensures
        e matches StreamEvent::Chunk(c) ==> {
            &&& c.choices@.len() == c@.choices.len()
            &&& c.choices@.len() > 0 ==> c@.choices[0] == c.choices@[0]@
            &&& c.choices@.len() > 0 ==> (c.choices@[0].logprobs matches Some(lp) ==> {
                &&& lp.content@.len() == lp@.len()
                &&& lp.content@.len() > 0 ==> lp@[0] == lp.content@[0]@
            })
            &&& c.choices@.len() > 0 ==> (c.choices@[0].delta.tool_calls matches Some(ts) ==> {
                &&& ts@.len() == views(ts@).len()
                &&& ts@.len() > 0 ==> views(ts@)[0] == ts@[0]@
            })
        },
{
}

/// A stop sequence has been hit once the text of a token is through: it was before,
/// or the matcher was asked about this text and said so.
pub open spec fn stopped_by(s: StreamState, tok: GenerationToken, o: TokenOutcomes) -> bool {
    s.stop_hit || (!tok.is_thinking && !s.bare_json_tool_call_mode && s.stop_active
        && !s.any_tool_calls && behind_parser(s, tok, o) is Some && o.push.stopped)
}

/// The state of a stream follows its tokens: every token is counted once, every tool
/// call is numbered once, text that is held back is kept until it can be judged, and
/// what the request fixed stays as it is.
pub proof fn law_state_follows_the_tokens(
    tok: GenerationToken,
    state: &mut StreamState,
    o: TokenOutcomes,
    r: StreamStep,
)
    requires
        call_ensures(handle_streaming_token, (Ok(tok), state, o), r),
    ensures
        ({
            let s = *old(state);
            let t = *final(state);
            let calls = completed_calls(s, tok, o);
            let pending = !tok.is_thinking && s.json_object_mode && !s.json_fence_buf_done
                && tok.piece@.len() > 0;
            &&& t.id@ == s.id@
            &&& t.model@ == s.model@
            &&& t.created == s.created
            &&& t.prompt_tokens == s.prompt_tokens
            &&& t.has_parser == s.has_parser
            &&& t.json_object_mode == s.json_object_mode
            &&& t.include_usage == s.include_usage
            &&& t.bare_json_tool_call_mode == s.bare_json_tool_call_mode
            &&& t.stop_active == s.stop_active
            &&& t.completion_tokens == s.completion_tokens + 1
            &&& !tok.done ==> t.next_tool_index == s.next_tool_index + calls.len()
            &&& !tok.done ==> t.any_tool_calls == (s.any_tool_calls || calls.len() > 0)
            &&& !tok.done ==> t.stop_hit == stopped_by(s, tok, o)
            &&& !pending ==> t.json_fence_buf@ == s.json_fence_buf@ && t.json_fence_buf_done
                == s.json_fence_buf_done
            &&& pending ==> match json_text(s.json_fence_buf@ + tok.piece@) {
                Some(_) => t.json_fence_buf_done && t.json_fence_buf@.len() == 0,
                None => !t.json_fence_buf_done && t.json_fence_buf@ == s.json_fence_buf@
                    + tok.piece@,
            }
            &&& !tok.done && !s.bare_json_tool_call_mode ==> t.bare_json_accum@
                == s.bare_json_accum@
            &&& !tok.done && s.bare_json_tool_call_mode && tok.is_thinking ==> t.bare_json_accum@
                == s.bare_json_accum@ + tok.piece@
            &&& !tok.done && s.bare_json_tool_call_mode && !tok.is_thinking
                ==> t.bare_json_accum@ == match behind_parser(s, tok, o) {
                Some(text) => s.bare_json_accum@ + text,
                None => s.bare_json_accum@,
            }
        }),
{
}

/// The last token of a stream brings the end of it: behind all else stands the chunk
/// with the finish reason, and behind that, where it was asked for, the chunk with
/// the token counts. The reason is `tool_calls` when any tool was called, else `stop`
/// when a stop sequence was hit, else the engine's. The counts are those of the
/// prompt and of all tokens, and their sum. No earlier token brings either chunk.
#[verifier::spinoff_prover]
#[verifier::rlimit(40)]
pub proof fn law_last_token_ends_the_stream(
    tok: GenerationToken,
    state: &mut StreamState,
    o: TokenOutcomes,
    r: StreamStep,
)
    requires
        call_ensures(handle_streaming_token, (Ok(tok), state, o), r),
        tok.done,
        old(state).prompt_tokens + old(state).completion_tokens + 1 <= u32::MAX,
    ensures
        ({
            let s = *old(state);
            let t = *final(state);
            let n = r.events@.len();
            let counted = s.completion_tokens + 1;
            let reason = if t.any_tool_calls {
                Some("tool_calls"@)
            } else if t.stop_hit {
                Some("stop"@)
            } else {
                opt_view(tok.finish_reason)
            };
            &&& !s.include_usage ==> n >= 1 && is_finish(r.events@[n - 1], s, reason)
            &&& s.include_usage ==> n >= 2 && is_finish(r.events@[n - 2], s, reason) && is_usage(
                r.events@[n - 1],
                s,
                s.prompt_tokens as int,
                counted,
            )
            &&& r.completed matches Some(u) && u.prompt_tokens == s.prompt_tokens
                && u.completion_tokens == counted && u.total_tokens == s.prompt_tokens + counted
        }),
{
    let s = *old(state);
    let t = *final(state);
    let n = r.events@.len();
    lemma_ending(s@, tok@, o@);
    assert(views(r.events@).len() == n);
    let e = r.events@[n - 1];
    assert(views(r.events@)[n - 1] == e@);
    lemma_one_choice(e);
    if s.include_usage {
        let f = r.events@[n - 2];
        assert(views(r.events@)[n - 2] == f@);
        lemma_one_choice(f);
    }
}

proof fn lemma_ending(s: StreamV, t: TokenV, o: OutcomesV)
    requires
        t.done,
    ensures
        ({
            let (s2, es) = stream_step(s, t, o);
            let finish = finish_chunk(s2, stream_finish(s2, t.finish_reason));
            &&& s2.id == s.id
            &&& s2.model == s.model
            &&& s2.created == s.created
            &&& s2.prompt_tokens == s.prompt_tokens
            &&& s2.completion_tokens == s.completion_tokens + 1
            &&& s2.include_usage == s.include_usage
            &&& !s.include_usage ==> es.len() >= 1 && es[es.len() - 1] == finish
            &&& s.include_usage ==> es.len() >= 2 && es[es.len() - 2] == finish && es[es.len() - 1]
                == usage_chunk(s2)
        }),
{
    let (s1, e1) = token_part(s, t, o);
    let (s2, e2) = done_part(s1, t, o);
    let end = ending_events(s2, t.finish_reason);
    let es = e1 + e2;
    let n = es.len();
    assert(e2.len() >= end.len());
    if s.include_usage {
        assert(es[n - 1] == end[1]);
        assert(es[n - 2] == end[0]);
    } else {
        assert(es[n - 1] == end[0]);
    }
}

/// The text that the parser held to the end and that is sent: none behind a stop
/// sequence, and what the matcher lets through while one is looked for.
pub open spec fn held_text(s: StreamState, tok: GenerationToken, o: TokenOutcomes) -> Option<
    Seq<char>,
> {
    if !s.has_parser || o.final_drain.text is None || stopped_by(s, tok, o) {
        None
    } else if s.stop_active {
        if o.final_push.emit@.len() > 0 {
            Some(o.final_push.emit@)
        } else {
            None
        }
    } else {
        Some(o.final_drain.text->0@)
    }
}

/// A stop sequence was hit by the end of the stream.
pub open spec fn stopped_at_end(s: StreamState, tok: GenerationToken, o: TokenOutcomes) -> bool {
    stopped_by(s, tok, o) || (s.has_parser && o.final_drain.text is Some && s.stop_active
        && o.final_push.stopped)
}

/// The text that the matcher held back to the end and that is sent.
pub open spec fn tail_text(s: StreamState, tok: GenerationToken, o: TokenOutcomes) -> Option<
    Seq<char>,
> {
    if s.stop_active && !stopped_at_end(s, tok, o) && o.tail@.len() > 0 {
        Some(o.tail@)
    } else {
        None
    }
}

/// The tool calls that the parser completes at the end.
pub open spec fn last_calls(s: StreamState, o: TokenOutcomes) -> Seq<ParsedToolCall> {
    if s.has_parser {
        o.final_drain.calls@
    } else {
        Seq::empty()
    }
}

/// One where there is a text, else zero.
pub open spec fn one_if(text: Option<Seq<char>>) -> int {
    if text is Some {
        1
    } else {
        0
    }
}

/// Behind the chunks of the last token itself stand, in this order, the text that
/// the parser held back, the text that the matcher held back, and the tool calls
/// that the parser completes at the end. These texts carry no log-probabilities.
#[verifier::spinoff_prover]
#[verifier::rlimit(60)]
pub proof fn law_end_sends_what_was_held_back(
    tok: GenerationToken,
    state: &mut StreamState,
    o: TokenOutcomes,
    r: StreamStep,
)
    requires
        call_ensures(handle_streaming_token, (Ok(tok), state, o), r),
        tok.done,
    ensures
        ({
            let s = *old(state);
            let k = text_chunks(s, tok, o) + completed_calls(s, tok, o).len();
            let held = held_text(s, tok, o);
            let tail = tail_text(s, tok, o);
            let calls = last_calls(s, o);
            let m = k + one_if(held) + one_if(tail);
            &&& r.events@.len() >= m + calls.len()
            &&& held is Some ==> is_answer(r.events@[k], s, held->0) && choice_of(
                r.events@[k],
            ).logprobs is None
            &&& tail is Some ==> is_answer(r.events@[m - 1], s, tail->0) && choice_of(
                r.events@[m - 1],
            ).logprobs is None
            &&& forall|i: int|
                0 <= i < calls.len() ==> is_call(
                    #[trigger] r.events@[m + i],
                    s,
                    calls[i],
                    s.next_tool_index + completed_calls(s, tok, o).len() + i,
                )
            &&& final(state).stop_hit == stopped_at_end(s, tok, o)
            &&& !s.bare_json_tool_call_mode ==> {
                &&& r.events@.len() == m + calls.len() + if s.include_usage {
                    2int
                } else {
                    1int
                }
                &&& final(state).next_tool_index == s.next_tool_index + completed_calls(
                    s,
                    tok,
                    o,
                ).len() + calls.len()
                &&& final(state).any_tool_calls == (s.any_tool_calls || completed_calls(
                    s,
                    tok,
                    o,
                ).len() + calls.len() > 0)
            }
        }),
{
    let s = *old(state);
    let done = completed_calls(s, tok, o);
    let k = text_chunks(s, tok, o) + done.len();
    let held = held_text(s, tok, o);
    let tail = tail_text(s, tok, o);
    let calls = last_calls(s, o);
    let m = k + one_if(held) + one_if(tail);
    lemma_token_events(s, tok, o);
    lemma_held_back(s, tok, o);
    let s1 = token_part(s@, tok@, o@).0;
    assert(views(r.events@).len() == r.events@.len());
    assert forall|i: int| 0 <= i < r.events@.len() implies views(r.events@)[i] == (
    #[trigger] r.events@[i])@ by {}
    if held is Some {
        lemma_one_choice(r.events@[k]);
    }
    if tail is Some {
        lemma_one_choice(r.events@[m - 1]);
    }
    assert forall|i: int| 0 <= i < calls.len() implies is_call(
        #[trigger] r.events@[m + i],
        s,
        calls[i],
        s.next_tool_index + done.len() + i,
    ) by {
        assert(views(calls)[i] == calls[i]@);
        assert(views(r.events@)[m + i] == call_events(s1, views(calls))[i]);
        lemma_one_choice(r.events@[m + i]);
    }
}

#[verifier::spinoff_prover]
#[verifier::rlimit(60)]
proof fn lemma_held_back(s: StreamState, tok: GenerationToken, o: TokenOutcomes)
    requires
        tok.done,
    ensures
        ({
            let s1 = token_part(s@, tok@, o@).0;
            let (s2, es) = stream_step(s@, tok@, o@);
            let k = token_part(s@, tok@, o@).1.len() as int;
            let held = held_text(s, tok, o);
            let tail = tail_text(s, tok, o);
            let calls = last_calls(s, o);
            let m = k + one_if(held) + one_if(tail);
            &&& s1.id == s.id@
            &&& s1.model == s.model@
            &&& s1.created == s.created
            &&& s1.next_tool_index == s.next_tool_index + completed_calls(s, tok, o).len()
            &&& s1.any_tool_calls == (s.any_tool_calls || completed_calls(s, tok, o).len() > 0)
            &&& s1.stop_hit == stopped_by(s, tok, o)
            &&& s2.stop_hit == stopped_at_end(s, tok, o)
            &&& es.len() >= m + calls.len()
            &&& held is Some ==> es[k] == content_chunk(s1, held->0, None)
            &&& tail is Some ==> es[m - 1] == content_chunk(s1, tail->0, None)
            &&& forall|i: int|
                0 <= i < calls.len() ==> #[trigger] es[m + i] == call_events(s1, views(calls))[i]
            &&& !s.bare_json_tool_call_mode ==> {
                &&& es.len() == m + calls.len() + if s.include_usage {
                    2int
                } else {
                    1int
                }
                &&& s2.next_tool_index == s1.next_tool_index + calls.len()
                &&& s2.any_tool_calls == (s1.any_tool_calls || calls.len() > 0)
            }
        }),
{
    let (s1, e1) = token_part(s@, tok@, o@);
    lemma_state_at_end(s, tok, o);
    assert(views(last_calls(s, o)) =~= final_drained(s1, o@.final_drain).calls);
    lemma_done_part(s1, tok@, o@, views(last_calls(s, o)));
    let e2 = done_part(s1, tok@, o@).1;
    let es = stream_step(s@, tok@, o@).1;
    assert(es == e1 + e2);
    let held = held_text(s, tok, o);
    let tail = tail_text(s, tok, o);
    let calls = last_calls(s, o);
    assert(views(calls).len() == calls.len());
    let m2 = one_if(held) + one_if(tail);
    assert forall|i: int| 0 <= i < calls.len() implies #[trigger] es[e1.len() + m2 + i]
        == call_events(s1, views(calls))[i] by {
        assert(es[e1.len() + m2 + i] == e2[m2 + i]);
    }
    if held is Some {
        assert(es[e1.len() as int] == e2[0]);
    }
    if tail is Some {
        assert(es[e1.len() + m2 - 1] == e2[m2 - 1]);
    }
}

/// The state of a stream when the text of its last token is through.
proof fn lemma_state_at_end(s: StreamState, tok: GenerationToken, o: TokenOutcomes)
    ensures
        ({
            let s1 = token_part(s@, tok@, o@).0;
            &&& s1.id == s.id@
            &&& s1.model == s.model@
            &&& s1.created == s.created
            &&& s1.has_parser == s.has_parser
            &&& s1.stop_active == s.stop_active
            &&& s1.bare_mode == s.bare_json_tool_call_mode
            &&& s1.include_usage == s.include_usage
            &&& s1.next_tool_index == s.next_tool_index + completed_calls(s, tok, o).len()
            &&& s1.any_tool_calls == (s.any_tool_calls || completed_calls(s, tok, o).len() > 0)
            &&& s1.stop_hit == stopped_by(s, tok, o)
        }),
{
}

/// The parts of a stream's end, one behind the other.
#[verifier::spinoff_prover]
#[verifier::rlimit(40)]
proof fn lemma_done_part(s: StreamV, t: TokenV, o: OutcomesV, calls: Seq<ParsedCallV>)
    requires
        calls == final_drained(s, o.final_drain).calls,
    ensures
        ({
            let (s4, es) = done_part(s, t, o);
            let d = final_drained(s, o.final_drain);
            let held = if d.text is Some && !s.stop_hit {
                if !s.stop_active {
                    d.text
                } else if o.final_push.emit.len() > 0 {
                    Some(o.final_push.emit)
                } else {
                    None
                }
            } else {
                None
            };
            let stopped = s.stop_hit || (d.text is Some && s.stop_active && o.final_push.stopped);
            let tail = if s.stop_active && !stopped && o.tail.len() > 0 {
                Some(o.tail)
            } else {
                None
            };
            let m = one_if(held) + one_if(tail);
            &&& s4.stop_hit == stopped
            &&& es.len() >= m + calls.len()
            &&& held is Some ==> es[0] == content_chunk(s, held->0, None)
            &&& tail is Some ==> es[m - 1] == content_chunk(s, tail->0, None)
            &&& forall|i: int|
                0 <= i < calls.len() ==> #[trigger] es[m + i] == call_events(s, calls)[i]
            &&& !s.bare_mode ==> {
                &&& es.len() == m + calls.len() + if s.include_usage {
                    2int
                } else {
                    1int
                }
                &&& s4.next_tool_index == s.next_tool_index + calls.len()
                &&& s4.any_tool_calls == (s.any_tool_calls || calls.len() > 0)
            }
        }),
{
    let d = final_drained(s, o.final_drain);
    let (s2, t1) = final_text(s, d.text, o.final_push);
    let t2 = tail_events(s2, o.tail);
    let c = call_events(s2, d.calls);
    assert(c =~= call_events(s, calls));
    let s3 = with_calls(s2, d.calls.len());
    let (s4, e4) = bare_part(s3, o.call_id);
    let end = ending_events(s4, t.finish_reason);
    let es = done_part(s, t, o).1;
    assert(es == t1 + t2 + c + e4 + end);
    let m = t1.len() + t2.len();
    assert forall|i: int| 0 <= i < calls.len() implies #[trigger] es[m + i] == call_events(
        s,
        calls,
    )[i] by {}
}

/// How many chunks end a stream: the one with the finish reason, and the one with the
/// token counts where it was asked for.
pub open spec fn ending_chunks(s: StreamState) -> int {
    if s.include_usage {
        2
    } else {
        1
    }
}

/// All the bare JSON of a stream at its last token.
pub open spec fn bare_json(s: StreamState, tok: GenerationToken) -> Seq<char> {
    s.bare_json_accum@ + passed_on(s, tok)
}

/// A stream of bare JSON sends nothing before its end. There it sends, behind what the
/// matcher held back, the tool call that its first JSON value says, under the id that it
/// is given, or, where that is no tool call, all of its text as the answer.
#[verifier::spinoff_prover]
#[verifier::rlimit(60)]
pub proof fn law_bare_json_becomes_a_call(
    tok: GenerationToken,
    state: &mut StreamState,
    o: TokenOutcomes,
    r: StreamStep,
)
    requires
        call_ensures(handle_streaming_token, (Ok(tok), state, o), r),
        old(state).bare_json_tool_call_mode,
        !old(state).has_parser,
        !old(state).any_tool_calls,
    ensures
        !tok.done ==> r.events@.len() == 0,
        tok.done ==> ({
            let s = *old(state);
            let m = one_if(tail_text(s, tok, o));
            let text = bare_json(s, tok);
            let value = match extracted(text) {
                Some(v) => v,
                None => Seq::empty(),
            };
            match bare_call_of_text(value) {
                Some((name, arguments)) => {
                    let e = r.events@[m];
                    &&& r.events@.len() == m + 1 + ending_chunks(s)
                    &&& is_chunk_of(e, s)
                    &&& choice_of(e).delta.role is None
                    &&& choice_of(e).delta.content is None
                    &&& choice_of(e).delta.reasoning_content is None
                    &&& choice_of(e).finish_reason is None
                    &&& choice_of(e).logprobs is None
                    &&& choice_of(e).delta.tool_calls matches Some(calls) && {
                        &&& calls@.len() == 1
                        &&& calls@[0].index == s.next_tool_index
                        &&& calls@[0].id@ == o.call_id@
                        &&& calls@[0].kind@ == "function"@
                        &&& calls@[0].function.name@ == name
                        &&& calls@[0].function.arguments@ == text_of_json(value_built(arguments))
                    }
                    &&& final(state).any_tool_calls
                },
                None => {
                    &&& text.len() > 0 ==> r.events@.len() == m + 1 + ending_chunks(s)
                        && is_answer(r.events@[m], s, text) && choice_of(
                        r.events@[m],
                    ).logprobs is None
                    &&& text.len() == 0 ==> r.events@.len() == m + ending_chunks(s)
                    &&& !final(state).any_tool_calls
                },
            }
        }),
{
    let s = *old(state);
    let (s1, e1) = token_part(s@, tok@, o@);
    assert(views(r.events@).len() == r.events@.len());
    assert(e1.len() == 0) by {
        lemma_token_events(s, tok, o);
    }
    assert(s1.bare_accum =~= bare_json(s, tok));
    if tok.done {
        let m = one_if(tail_text(s, tok, o));
        let e2 = done_part(s1, tok@, o@).1;
        lemma_bare_ending(s1, tok@, o@);
        let e4 = bare_part(s1, o@.call_id).1;
        assert(e1 + e2 =~= e2);
        if e4.len() > 0 {
            assert(views(r.events@)[m] == r.events@[m]@);
            lemma_one_choice(r.events@[m]);
        }
    }
}

/// The end of a stream of bare JSON: what the matcher held back, the JSON, the ending.
proof fn lemma_bare_ending(s: StreamV, t: TokenV, o: OutcomesV)
    requires
        s.bare_mode,
        !s.has_parser,
        !s.any_tool_calls,
    ensures
        ({
            let (s4, es) = done_part(s, t, o);
            let (s5, e4) = bare_part(s, o.call_id);
            let tail = tail_events(s, o.tail);
            &&& s4 == s5
            &&& es.len() == tail.len() + e4.len() + if s.include_usage {
                2int
            } else {
                1int
            }
            &&& e4.len() > 0 ==> es[tail.len() as int] == e4[0]
            &&& e4.len() <= 1
        }),
{
    let none = call_events(s, Seq::empty());
    assert(none =~= Seq::empty());
    assert(with_calls(s, 0) == s);
    let (s4, e4) = bare_part(s, o.call_id);
    let tail = tail_events(s, o.tail);
    let es = done_part(s, t, o).1;
    assert(es =~= tail + e4 + ending_events(s4, t.finish_reason));
}

// ── The parser and the matcher ───────────────────────────────────────────────

/// The parser gets the text of every token that is not empty, reasoning and answer
/// alike, but for reasoning that is collected as bare JSON.
pub proof fn law_parser_gets_the_text(s: StreamState, tok: GenerationToken, r: Option<String>)
    requires
        call_ensures(parser_input, (&s, &tok), r),
    ensures
        opt_view(r) == if s.has_parser && passed_on(s, tok).len() > 0 && !(tok.is_thinking
            && s.bare_json_tool_call_mode) {
            Some(passed_on(s, tok))
        } else {
            None
        },
{
}

/// The matcher gets the text of the answer behind the parser, as long as stop
/// sequences are looked for: none was hit and no tool was called. It gets neither
/// reasoning nor bare JSON.
pub proof fn law_matcher_gets_the_answer(
    s: StreamState,
    tok: GenerationToken,
    o: TokenOutcomes,
    r: Option<String>,
    last: Option<String>,
    wanted: bool,
)
    requires
        call_ensures(stop_input, (&s, &tok, &o.drain), r),
        call_ensures(final_stop_input, (&s, &tok, &o), last),
        call_ensures(tail_wanted, (&s, &tok, &o), wanted),
    ensures
        opt_view(r) == if !tok.is_thinking && !s.bare_json_tool_call_mode && s.stop_active
            && !s.stop_hit && !s.any_tool_calls {
            behind_parser(s, tok, o)
        } else {
            None
        },
        opt_view(last) == if tok.done && s.stop_active && s.has_parser && !stopped_by(s, tok, o) {
            opt_view(o.final_drain.text)
        } else {
            None
        },
        wanted == (tok.done && s.stop_active && !stopped_at_end(s, tok, o)),
{
}

// ── Failures ─────────────────────────────────────────────────────────────────

/// A failure of the engine ends a stream: the one event is the end mark, nothing of
/// the state changes, and the failure is counted under its category and not completed.
pub proof fn law_failure_ends_the_stream(
    e: EngineError,
    state: &mut StreamState,
    o: TokenOutcomes,
    category: ApiErrorCategory,
    r: StreamStep,
)
    requires
        call_ensures(handle_streaming_token, (Err(e), state, o), r),
        call_ensures(engine_error_category, (&e,), category),
    ensures
        r.events@.len() == 1,
        r.events@[0] is Done,
        r.failed == Some(category),
        r.completed is None,
        final(state)@ == old(state)@,
{
    assert(views(r.events@).len() == r.events@.len());
    assert(views(r.events@)[0] == r.events@[0]@);
}

// ── Chunks by themselves ─────────────────────────────────────────────────────

/// A chunk of text holds what it is given, on the channel that it is given for; the
/// finish reason only where the stream is done. A chunk of a call holds that call.
pub proof fn law_chunks_hold_what_they_are_given(
    s: StreamState,
    content: Option<String>,
    reasoning: Option<String>,
    done: bool,
    finish: Option<String>,
    logprobs: Option<ChatLogprobs>,
    e: StreamEvent,
    call: ToolCall,
    c: StreamEvent,
)
    requires
        call_ensures(make_content_chunk, (&s, content, reasoning, done, finish, logprobs), e),
        call_ensures(make_tool_call_chunk, (&s, call), c),
    ensures
        is_chunk_of(e, s),
        opt_view(choice_of(e).delta.content) == opt_view(content),
        opt_view(choice_of(e).delta.reasoning_content) == opt_view(reasoning),
        choice_of(e).delta.role is None,
        choice_of(e).delta.tool_calls is None,
        done ==> opt_view(choice_of(e).finish_reason) == opt_view(finish),
        !done ==> choice_of(e).finish_reason is None,
        opt_view(choice_of(e).logprobs) == opt_view(logprobs),
        is_chunk_of(c, s),
        choice_of(c).delta.content is None,
        choice_of(c).delta.reasoning_content is None,
        choice_of(c).delta.role is None,
        choice_of(c).finish_reason is None,
        choice_of(c).logprobs is None,
        choice_of(c).delta.tool_calls matches Some(ts) && ts@.len() == 1 && ts@[0]@ == call@,
{
    lemma_one_choice(e);
    lemma_one_choice(c);
}

} // verus!
