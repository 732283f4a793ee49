//! What a response that is sent as a whole says.
//!
//! The laws here follow the tokens of a generation into [`BlockingState`] and from
//! there into the body of the response.

use vstd::prelude::*;

use crate::engine::error::EngineError;
use crate::engine::types::GenerationToken;
use crate::json::{text_of_json, value_built};
use crate::metrics_drainer::{MetricEvent, MetricKind};
use crate::openai::errors::ApiErrorCategory;
use crate::openai::flow::Refusal;
use crate::openai::generate::{
    collected_first_token, push_itl, push_ttft, streamed_first_token, unchecked_output_refusal,
    BlockingState, ResponseContext, TtftSample,
};
use crate::openai::json_extract::extracted;
use crate::openai::metrics::ItlSample;
use crate::openai::response::{ChatCompletionsResponse, ParsedToolCall, ToolCall};
use crate::openai::tool_call::bare_call_of_text;
use crate::text::{opt_view, views};

verus! {

// ── Collecting ───────────────────────────────────────────────────────────────

/// A token is collected on its own channel, behind what came before; the other
/// channel stays as it is. Bare JSON is all answer. Its log-probabilities are kept,
/// it is counted once, the first one sets the time, and the last one the finish
/// reason.
pub proof fn law_token_is_collected(
    state: &mut BlockingState,
    tok: GenerationToken,
    passthrough: &str,
    ms: u64,
    done: bool,
)
    requires
        call_ensures(BlockingState::on_token, (state, tok, passthrough, ms), done),
    ensures
        ({
            let s = *old(state);
            let t = *final(state);
            let text = if !s.has_parser {
                tok.piece@
            } else if tok.piece@.len() == 0 {
                Seq::empty()
            } else {
                passthrough@
            };
            let thought = tok.is_thinking && (s.has_parser || !s.bare_json_tool_call_mode);
            &&& done == tok.done
            &&& thought ==> t.reasoning_text@ == s.reasoning_text@ + text && t.text@ == s.text@
            &&& !thought ==> t.text@ == s.text@ + text && t.reasoning_text@ == s.reasoning_text@
            &&& t.completion_tokens == s.completion_tokens + 1
            &&& s.completion_tokens == 0 ==> t.ttft_ms == Some(ms)
            &&& s.completion_tokens > 0 ==> t.ttft_ms == s.ttft_ms
            &&& tok.done ==> opt_view(t.finish_reason) == opt_view(tok.finish_reason)
            &&& !tok.done ==> opt_view(t.finish_reason) == opt_view(s.finish_reason)
            &&& tok.logprobs is None ==> views(t.logprobs@) == views(s.logprobs@)
            &&& tok.logprobs matches Some(l) ==> views(t.logprobs@) == views(s.logprobs@).push(l@)
            &&& views(t.tool_calls@) == views(s.tool_calls@)
            &&& t.has_parser == s.has_parser
            &&& t.bare_json_tool_call_mode == s.bare_json_tool_call_mode
        }),
{
}

/// Collecting begins with nothing, under the finish reason `stop`.
pub proof fn law_collecting_begins_empty(has_parser: bool, bare: bool, s: BlockingState)
    requires
        call_ensures(BlockingState::start, (has_parser, bare), s),
    ensures
        s.has_parser == has_parser,
        s.bare_json_tool_call_mode == bare,
        s.text@.len() == 0,
        s.reasoning_text@.len() == 0,
        s.finish_reason matches Some(f) && f@ == "stop"@,
        s.completion_tokens == 0,
        s.ttft_ms is None,
        s.tool_calls@.len() == 0,
        s.logprobs@.len() == 0,
{
    assert(views(s.tool_calls@).len() == s.tool_calls@.len());
    assert(views(s.logprobs@).len() == s.logprobs@.len());
}

/// What the parser hands out at the end comes behind the text and the calls so far;
/// without a parser nothing changes.
pub proof fn law_parser_rest_is_appended(
    state: &mut BlockingState,
    passthrough: &str,
    calls: Vec<ParsedToolCall>,
)
    requires
        call_ensures(BlockingState::on_parser_finished, (state, passthrough, calls), ()),
    ensures
        old(state).has_parser ==> {
            &&& final(state).text@ == old(state).text@ + passthrough@
            &&& views(final(state).tool_calls@) == views(old(state).tool_calls@) + views(calls@)
        },
        !old(state).has_parser ==> {
            &&& final(state).text@ == old(state).text@
            &&& views(final(state).tool_calls@) == views(old(state).tool_calls@)
        },
        final(state).reasoning_text@ == old(state).reasoning_text@,
        views(final(state).logprobs@) == views(old(state).logprobs@),
        final(state).completion_tokens == old(state).completion_tokens,
        opt_view(final(state).finish_reason) == opt_view(old(state).finish_reason),
        final(state).ttft_ms == old(state).ttft_ms,
{
}

/// Stop sequences are searched in the text of a response without tool calls. The text
/// is cut at the first of them, and the finish reason is then `stop`; a response with
/// tool calls, or without a stop sequence, stays as it is.
pub proof fn law_text_is_cut_at_a_stop(
    state: &mut BlockingState,
    keep: Option<usize>,
    candidate: Option<&str>,
)
    requires
        call_ensures(BlockingState::on_stop, (state, keep), ()),
        call_ensures(BlockingState::stop_candidate, (&*old(state),), candidate),
        keep matches Some(n) ==> n <= old(state).text@.len(),
    ensures
        candidate is Some == (old(state).tool_calls@.len() == 0),
        candidate matches Some(t) ==> t@ == old(state).text@,
        ({
            let s = *old(state);
            let t = *final(state);
            &&& keep is Some && s.tool_calls@.len() == 0 ==> {
                &&& t.text@ == s.text@.subrange(0, keep->0 as int)
                &&& t.finish_reason matches Some(f) && f@ == "stop"@
            }
            &&& keep is None || s.tool_calls@.len() > 0 ==> {
                &&& t.text@ == s.text@
                &&& opt_view(t.finish_reason) == opt_view(s.finish_reason)
            }
            &&& t.reasoning_text@ == s.reasoning_text@
            &&& views(t.tool_calls@) == views(s.tool_calls@)
            &&& views(t.logprobs@) == views(s.logprobs@)
            &&& t.completion_tokens == s.completion_tokens
        }),
{
    assert(views(old(state).tool_calls@).len() == old(state).tool_calls@.len());
}

// ── The response ─────────────────────────────────────────────────────────────

/// A call in a response is this call of the parser, at this position.
pub open spec fn is_response_call(c: ToolCall, p: ParsedToolCall, index: int) -> bool {
    &&& c.index == index
    &&& c.id@ == p.id@
    &&& c.kind@ == "function"@
    &&& c.function.name@ == p.name@
    &&& c.function.arguments@ == text_of_json(value_built(p.arguments@))
}

/// Every response is sent under the request's id, as one answer of the assistant, with
/// the reasoning and the log-probabilities where there are some, and with the token
/// counts and their sum.
pub proof fn law_response_is_of_its_request(
    s: BlockingState,
    ctx: ResponseContext<'_>,
    call_id: String,
    r: ChatCompletionsResponse,
)
    requires
        call_ensures(BlockingState::into_response, (s, &ctx, call_id), r),
        ctx.prompt_tokens + s.completion_tokens <= u32::MAX,
    ensures
        r.id@ == "chatcmpl-"@ + ctx.request_id@,
        r.object@ == "chat.completion"@,
        r.created == ctx.created,
        r.model@ == ctx.model_id@,
        r.usage.prompt_tokens == ctx.prompt_tokens,
        r.usage.completion_tokens == s.completion_tokens,
        r.usage.total_tokens == ctx.prompt_tokens + s.completion_tokens,
        r.choices@.len() == 1,
        ({
            let c = r.choices@[0];
            &&& c.index == 0
            &&& c.message.role@ == "assistant"@
            &&& s.reasoning_text@.len() == 0 ==> c.message.reasoning_content is None
            &&& s.reasoning_text@.len() > 0 ==> (c.message.reasoning_content matches Some(t) && t@
                == s.reasoning_text@)
            &&& s.logprobs@.len() == 0 ==> c.logprobs is None
            &&& s.logprobs@.len() > 0 ==> (c.logprobs matches Some(lp) && views(lp.content@)
                == views(s.logprobs@))
        }),
{
    assert(views(r.choices@).len() == r.choices@.len());
    assert(views(r.choices@)[0] == r.choices@[0]@);
    assert(views(s.logprobs@).len() == s.logprobs@.len());
}

/// The answer of a response is what was collected: the text, or the JSON value in it
/// where only that is wanted; the tool calls in order, where there are some; and the
/// finish reason, which is `tool_calls` when tools were called.
pub proof fn law_response_says_what_was_collected(
    s: BlockingState,
    ctx: ResponseContext<'_>,
    call_id: String,
    r: ChatCompletionsResponse,
)
    requires
        call_ensures(BlockingState::into_response, (s, &ctx, call_id), r),
        !s.bare_json_tool_call_mode || s.tool_calls@.len() > 0,
    ensures
        r.choices@.len() == 1,
        ({
            let c = r.choices@[0];
            let whole = !ctx.json_object_mode || extracted(s.text@) is None;
            &&& whole ==> c.message.content@ == s.text@
            &&& !whole ==> Some(c.message.content@) == extracted(s.text@)
            &&& s.tool_calls@.len() == 0 ==> c.message.tool_calls is None && opt_view(
                c.finish_reason,
            ) == opt_view(s.finish_reason)
            &&& s.tool_calls@.len() > 0 ==> {
                &&& c.finish_reason matches Some(f) && f@ == "tool_calls"@
                &&& c.message.tool_calls matches Some(ts) && ts@.len() == s.tool_calls@.len()
                    && forall|i: int|
                    0 <= i < ts@.len() ==> is_response_call(#[trigger] ts@[i], s.tool_calls@[i], i)
            }
        }),
{
    assert(views(r.choices@).len() == r.choices@.len());
    assert(views(r.choices@)[0] == r.choices@[0]@);
    assert(views(s.tool_calls@).len() == s.tool_calls@.len());
    let c = r.choices@[0];
    if s.tool_calls@.len() > 0 {
        let ts = c.message.tool_calls->0;
        assert(views(ts@).len() == ts@.len());
        assert forall|i: int| 0 <= i < ts@.len() implies is_response_call(
            #[trigger] ts@[i],
            s.tool_calls@[i],
            i,
        ) by {
            assert(views(ts@)[i] == ts@[i]@);
            assert(views(s.tool_calls@)[i] == s.tool_calls@[i]@);
        }
    }
}

/// Bare JSON that says a tool call becomes that call, under the given id, and no
/// content; bare JSON that says none is the content.
pub proof fn law_bare_json_is_a_call_or_content(
    s: BlockingState,
    ctx: ResponseContext<'_>,
    call_id: String,
    r: ChatCompletionsResponse,
)
    requires
        call_ensures(BlockingState::into_response, (s, &ctx, call_id), r),
        s.bare_json_tool_call_mode,
        s.tool_calls@.len() == 0,
    ensures
        r.choices@.len() == 1,
        ({
            let c = r.choices@[0];
            let value = match extracted(s.text@) {
                Some(v) => v,
                None => Seq::empty(),
            };
            match bare_call_of_text(value) {
                Some((name, arguments)) => {
                    &&& c.message.content@.len() == 0
                    &&& c.finish_reason matches Some(f) && f@ == "tool_calls"@
                    &&& c.message.tool_calls matches Some(ts) && {
                        &&& ts@.len() == 1
                        &&& ts@[0].index == 0
                        &&& ts@[0].id@ == call_id@
                        &&& ts@[0].kind@ == "function"@
                        &&& ts@[0].function.name@ == name
                        &&& ts@[0].function.arguments@ == text_of_json(value_built(arguments))
                    }
                },
                None => {
                    &&& c.message.content@ == s.text@
                    &&& c.message.tool_calls is None
                    &&& opt_view(c.finish_reason) == opt_view(s.finish_reason)
                },
            }
        }),
{
    assert(views(r.choices@).len() == r.choices@.len());
    assert(views(r.choices@)[0] == r.choices@[0]@);
    assert(views(s.tool_calls@).len() == s.tool_calls@.len());
    let c = r.choices@[0];
    match c.message.tool_calls {
        Some(ts) => {
            assert(views(ts@).len() == ts@.len());
            if ts@.len() > 0 {
                assert(views(ts@)[0] == ts@[0]@);
            }
        },
        None => {},
    }
}

/// Output under a grammar that never came to bear is refused with 503, unless a tool
/// call was demanded; output whose grammar came to bear, or that has none, is not.
pub proof fn law_unchecked_output_is_refused(
    demanded_call: bool,
    engaged: Option<bool>,
    r: Option<Refusal>,
)
    requires
        call_ensures(unchecked_output_refusal, (demanded_call, engaged), r),
    ensures
        r is Some == (engaged == Some(false) && !demanded_call),
        r matches Some(f) ==> f.reply.status == 503 && f.category == Some(
            ApiErrorCategory::Upstream,
        ),
{
}

// ── Times to the first token ─────────────────────────────────────────────────

/// The sample of a first token names the request's model and the time that was
/// measured; tokens behind the first one give none.
pub proof fn law_first_token_is_sampled(
    before: Option<u64>,
    after: BlockingState,
    model_id: &str,
    r: Option<TtftSample>,
)
    requires
        call_ensures(collected_first_token, (before, &after, model_id), r),
    ensures
        r is Some == (before is None && after.ttft_ms is Some),
        r matches Some(x) ==> x.model_id@ == model_id@ && Some(x.ttft_ms) == after.ttft_ms,
{
}

/// The first item of a stream gives a sample and an event of the time to the first
/// token when it is a token, under the request's model; a failure or an empty stream
/// gives none.
pub proof fn law_streamed_first_token_is_sampled(
    first: Option<Result<GenerationToken, EngineError>>,
    elapsed_ms: u64,
    model_id: &str,
    ts_utc: &str,
    ctx_max: i64,
    r: Option<(TtftSample, MetricEvent)>,
)
    requires
        call_ensures(streamed_first_token, (&first, elapsed_ms, model_id, ts_utc, ctx_max), r),
    ensures
        r is Some == (first matches Some(item) && item is Ok),
        r matches Some((sample, event)) ==> {
            &&& sample.model_id@ == model_id@
            &&& sample.ttft_ms == elapsed_ms
            &&& event.model_id@ == model_id@
            &&& event.ts_utc@ == ts_utc@
            &&& event.ctx_max == ctx_max
            &&& event.kind == MetricKind::TtftMs(elapsed_ms)
        },
{
}

/// A ring of samples gets the latest one at its end. The others stay in order; only
/// a full ring loses one, its oldest.
pub proof fn law_ring_keeps_the_latest(
    ring: &mut Vec<TtftSample>,
    capacity: usize,
    sample: TtftSample,
)
    requires
        call_ensures(push_ttft, (ring, capacity, sample), ()),
    ensures
        ({
            let old_ring = old(ring)@;
            let new_ring = final(ring)@;
            let lost = if old_ring.len() >= capacity && old_ring.len() > 0 {
                1int
            } else {
                0int
            };
            &&& new_ring.len() == old_ring.len() - lost + 1
            &&& new_ring.last().model_id@ == sample.model_id@
            &&& new_ring.last().ttft_ms == sample.ttft_ms
            &&& forall|i: int|
                0 <= i < new_ring.len() - 1 ==> {
                    &&& (#[trigger] new_ring[i]).model_id@ == old_ring[i + lost].model_id@
                    &&& new_ring[i].ttft_ms == old_ring[i + lost].ttft_ms
                }
        }),
{
    let (old_ring, new_ring) = (old(ring)@, final(ring)@);
    assert(views(new_ring).len() == new_ring.len());
    assert(views(old_ring).len() == old_ring.len());
    assert forall|i: int| 0 <= i < new_ring.len() implies views(new_ring)[i] == (
    #[trigger] new_ring[i])@ by {}
    assert forall|i: int| 0 <= i < old_ring.len() implies views(old_ring)[i] == (
    #[trigger] old_ring[i])@ by {}
}

/// A ring of latencies gets the latest ones at its end, and when it is full loses
/// only its oldest.
pub proof fn law_latency_ring_keeps_the_latest(
    ring: &mut Vec<ItlSample>,
    capacity: usize,
    sample: ItlSample,
)
    requires
        call_ensures(push_itl, (ring, capacity, sample), ()),
    ensures
        ({
            let old_ring = old(ring)@;
            let new_ring = final(ring)@;
            let lost = if old_ring.len() >= capacity && old_ring.len() > 0 {
                1int
            } else {
                0int
            };
            &&& new_ring.len() == old_ring.len() - lost + 1
            &&& new_ring.last()@ == sample@
            &&& forall|i: int|
                0 <= i < new_ring.len() - 1 ==> (#[trigger] new_ring[i])@ == old_ring[i + lost]@
        }),
{
    let (old_ring, new_ring) = (old(ring)@, final(ring)@);
    assert(views(new_ring).len() == new_ring.len());
    assert(views(old_ring).len() == old_ring.len());
    assert forall|i: int| 0 <= i < new_ring.len() implies views(new_ring)[i] == (
    #[trigger] new_ring[i])@ by {}
    assert forall|i: int| 0 <= i < old_ring.len() implies views(old_ring)[i] == (
    #[trigger] old_ring[i])@ by {}
}

} // verus!
