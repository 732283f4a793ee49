//! Streamed and whole responses say the same.
//!
//! A client that puts the chunks of a streamed response together gets the text,
//! the reasoning, the tool calls, the finish reason and the token counts of the
//! response that would have been sent as a whole.

use vstd::prelude::*;

use crate::engine::types::TokenV;
use crate::openai::generate::{
    blocking_start, blocking_step, collected_text, parser_finished, response_body, BlockV,
};
use crate::openai::json_extract::{json_text, law_json_text_grows};
use crate::openai::response::{
    finish_reason, response_call, response_calls, usage_of, LogprobV, ParsedCallV, ResponseV,
    ToolCallV,
};
use crate::openai::streaming::{
    call_events, content_chunk, done_part, drained, ending_events, final_drained, final_text,
    finish_chunk, reasoning_chunk, routed, stream_finish, stream_start, stream_step,
    token_logprobs, token_part, tool_chunk, usage_chunk, with_calls, Channel, DrainV, EventV,
    OutcomesV, StreamOptionsSet, StreamV,
};

verus! {

// ── What a client puts together ──────────────────────────────────────────────

/// The answer text of an event.
pub open spec fn event_content(e: EventV) -> Seq<char> {
    match e {
        EventV::Chunk(c) if c.choices.len() > 0 => match c.choices[0].delta.content {
            Some(t) => t,
            None => Seq::empty(),
        },
        _ => Seq::empty(),
    }
}

/// The reasoning text of an event.
pub open spec fn event_reasoning(e: EventV) -> Seq<char> {
    match e {
        EventV::Chunk(c) if c.choices.len() > 0 => match c.choices[0].delta.reasoning_content {
            Some(t) => t,
            None => Seq::empty(),
        },
        _ => Seq::empty(),
    }
}

/// The tool calls of an event.
pub open spec fn event_calls(e: EventV) -> Seq<ToolCallV> {
    match e {
        EventV::Chunk(c) if c.choices.len() > 0 => match c.choices[0].delta.tool_calls {
            Some(t) => t,
            None => Seq::empty(),
        },
        _ => Seq::empty(),
    }
}

/// The answer text of a sequence of events.
pub open spec fn content_of(es: Seq<EventV>) -> Seq<char>
    decreases es.len(),
{
    if es.len() == 0 {
        Seq::empty()
    } else {
        content_of(es.drop_last()) + event_content(es.last())
    }
}

/// The reasoning text of a sequence of events.
pub open spec fn reasoning_of(es: Seq<EventV>) -> Seq<char>
    decreases es.len(),
{
    if es.len() == 0 {
        Seq::empty()
    } else {
        reasoning_of(es.drop_last()) + event_reasoning(es.last())
    }
}

/// The tool calls of a sequence of events.
pub open spec fn calls_of(es: Seq<EventV>) -> Seq<ToolCallV>
    decreases es.len(),
{
    if es.len() == 0 {
        Seq::empty()
    } else {
        calls_of(es.drop_last()) + event_calls(es.last())
    }
}

// ── Both ways over the same tokens ───────────────────────────────────────────

/// A token with what the collaborators answered on it.
pub struct Step {
    pub token: TokenV,
    pub outcomes: OutcomesV,
}

/// The state and the events of a stream after a sequence of tokens.
pub open spec fn streamed(s: StreamV, steps: Seq<Step>) -> (StreamV, Seq<EventV>)
    decreases steps.len(),
{
    if steps.len() == 0 {
        (s, Seq::empty())
    } else {
        let (s1, e1) = streamed(s, steps.drop_last());
        let (s2, e2) = stream_step(s1, steps.last().token, steps.last().outcomes);
        (s2, e1 + e2)
    }
}

/// The text that a parser lets through; nothing when it lets none through.
pub open spec fn let_through(d: DrainV) -> Seq<char> {
    match d.text {
        Some(t) => t,
        None => Seq::empty(),
    }
}

/// What has been collected after a sequence of tokens.
pub open spec fn collected(b: BlockV, steps: Seq<Step>) -> BlockV
    decreases steps.len(),
{
    if steps.len() == 0 {
        b
    } else {
        blocking_step(
            collected(b, steps.drop_last()),
            steps.last().token,
            let_through(steps.last().outcomes.drain),
            0,
        )
    }
}

/// The tool calls that the parser handed out along the way.
pub open spec fn parsed_calls(has_parser: bool, steps: Seq<Step>) -> Seq<ParsedCallV>
    decreases steps.len(),
{
    if steps.len() == 0 {
        Seq::empty()
    } else {
        parsed_calls(has_parser, steps.drop_last()) + drained(
            has_parser,
            steps.last().token.piece,
            steps.last().outcomes.drain,
        ).calls
    }
}

/// The whole response to the tokens, with what the parser hands out at the end.
pub open spec fn whole_response(
    request_id: Seq<char>,
    model: Seq<char>,
    created: u64,
    prompt_tokens: nat,
    has_parser: bool,
    steps: Seq<Step>,
    call_id: Seq<char>,
) -> ResponseV {
    let b = collected(blocking_start(has_parser, false), steps);
    let last = final_drained_calls(has_parser, steps);
    response_body(
        parser_finished(b, let_through(last), parsed_calls(has_parser, steps) + last.calls),
        request_id,
        model,
        created,
        prompt_tokens,
        false,
        call_id,
    )
}

/// What the parser hands out at the end; nothing without a parser.
pub open spec fn final_drained_calls(has_parser: bool, steps: Seq<Step>) -> DrainV {
    if has_parser {
        steps.last().outcomes.final_drain
    } else {
        DrainV { text: None, calls: Seq::empty() }
    }
}

// ── Proof ────────────────────────────────────────────────────────────────────

proof fn lemma_shown_add(a: Seq<EventV>, b: Seq<EventV>)
    ensures
        content_of(a + b) == content_of(a) + content_of(b),
        reasoning_of(a + b) == reasoning_of(a) + reasoning_of(b),
        calls_of(a + b) == calls_of(a) + calls_of(b),
    decreases b.len(),
{
    if b.len() == 0 {
        assert(a + b =~= a);
        assert(content_of(a) + Seq::empty() =~= content_of(a));
        assert(reasoning_of(a) + Seq::empty() =~= reasoning_of(a));
        assert(calls_of(a) + Seq::empty() =~= calls_of(a));
    } else {
        assert((a + b).drop_last() =~= a + b.drop_last());
        assert((a + b).last() == b.last());
        lemma_shown_add(a, b.drop_last());
        assert(content_of(a + b) =~= content_of(a) + content_of(b));
        assert(reasoning_of(a + b) =~= reasoning_of(a) + reasoning_of(b));
        assert(calls_of(a + b) =~= calls_of(a) + calls_of(b));
    }
}

proof fn lemma_shown_one(e: EventV)
    ensures
        content_of(seq![e]) == event_content(e),
        reasoning_of(seq![e]) == event_reasoning(e),
        calls_of(seq![e]) == event_calls(e),
{
    let s = seq![e];
    assert(s.drop_last() =~= Seq::empty());
    assert(content_of(s.drop_last()) =~= Seq::empty());
    assert(reasoning_of(s.drop_last()) =~= Seq::empty());
    assert(calls_of(s.drop_last()) =~= Seq::empty());
    assert(content_of(s) =~= event_content(e));
    assert(reasoning_of(s) =~= event_reasoning(e));
    assert(calls_of(s) =~= event_calls(e));
}

proof fn lemma_shown_calls(s: StreamV, calls: Seq<ParsedCallV>)
    ensures
        content_of(call_events(s, calls)) == Seq::<char>::empty(),
        reasoning_of(call_events(s, calls)) == Seq::<char>::empty(),
        calls_of(call_events(s, calls)) == response_calls(calls, s.next_tool_index),
    decreases calls.len(),
{
    let es = call_events(s, calls);
    if calls.len() == 0 {
        assert(calls_of(es) =~= response_calls(calls, s.next_tool_index));
    } else {
        let init = calls.drop_last();
        assert(es.drop_last() =~= call_events(s, init));
        lemma_shown_calls(s, init);
        let n = calls.len() - 1;
        let last = tool_chunk(s, response_call(calls[n], (s.next_tool_index + n) as nat));
        assert(es.last() == last);
        assert(event_calls(last) == seq![response_call(calls[n], (s.next_tool_index + n) as nat)]);
        assert(content_of(es) =~= Seq::empty());
        assert(reasoning_of(es) =~= Seq::empty());
        assert(calls_of(es) =~= response_calls(calls, s.next_tool_index));
    }
}

proof fn lemma_calls_continue(a: Seq<ParsedCallV>, b: Seq<ParsedCallV>)
    ensures
        response_calls(a, 0) + response_calls(b, a.len()) == response_calls(a + b, 0),
{
    assert(response_calls(a, 0) + response_calls(b, a.len()) =~= response_calls(a + b, 0));
}

/// Neither bare JSON, nor JSON extraction, nor stop sequences.
spec fn plain(s: StreamV) -> bool {
    !s.bare_mode && !s.json_object_mode && !s.stop_active && !s.stop_hit
}

/// The stream and the collection stand at the same point.
spec fn in_step(
    s: StreamV,
    es: Seq<EventV>,
    b: BlockV,
    calls: Seq<ParsedCallV>,
    has_parser: bool,
) -> bool {
    &&& plain(s)
    &&& s.has_parser == has_parser
    &&& b.has_parser == has_parser
    &&& !b.bare_mode
    &&& b.calls.len() == 0
    &&& content_of(es) == b.text
    &&& reasoning_of(es) == b.reasoning
    &&& calls_of(es) == response_calls(calls, 0)
    &&& s.next_tool_index == calls.len()
    &&& s.any_tool_calls == (calls.len() > 0)
    &&& s.completion_tokens == b.completion_tokens
}

proof fn lemma_token_in_step(
    s: StreamV,
    es: Seq<EventV>,
    b: BlockV,
    calls: Seq<ParsedCallV>,
    has_parser: bool,
    step: Step,
)
    requires
        in_step(s, es, b, calls, has_parser),
    ensures
        ({
            let (s2, e2) = token_part(s, step.token, step.outcomes);
            let d = drained(has_parser, step.token.piece, step.outcomes.drain);
            &&& in_step(
                s2,
                es + e2,
                blocking_step(b, step.token, let_through(step.outcomes.drain), 0),
                calls + d.calls,
                has_parser,
            )
            &&& s2.id == s.id
            &&& s2.model == s.model
            &&& s2.created == s.created
            &&& s2.prompt_tokens == s.prompt_tokens
            &&& s2.include_usage == s.include_usage
        }),
{
    let t = step.token;
    let o = step.outcomes;
    let (s2, e2) = token_part(s, t, o);
    let d = drained(has_parser, t.piece, o.drain);
    let s1 = StreamV { completion_tokens: s.completion_tokens + 1, ..s };
    let lp = token_logprobs(t);
    let text_events: Seq<EventV> = match d.text {
        Some(x) => if t.is_thinking {
            seq![reasoning_chunk(s1, x, lp)]
        } else {
            seq![content_chunk(s1, x, lp)]
        },
        None => Seq::empty(),
    };
    assert(e2 == text_events + call_events(s1, d.calls));
    lemma_shown_add(es, e2);
    lemma_shown_add(text_events, call_events(s1, d.calls));
    lemma_shown_calls(s1, d.calls);
    match d.text {
        Some(x) => {
            if t.is_thinking {
                lemma_shown_one(reasoning_chunk(s1, x, lp));
            } else {
                lemma_shown_one(content_chunk(s1, x, lp));
            }
        },
        None => {},
    }
    lemma_calls_continue(calls, d.calls);
    let b2 = blocking_step(b, t, let_through(o.drain), 0);
    let piece = collected_text(b, t, let_through(o.drain));
    assert(let_through(d) =~= piece);
    assert(content_of(es + e2) =~= b2.text);
    assert(reasoning_of(es + e2) =~= b2.reasoning);
    assert(calls_of(e2) =~= response_calls(d.calls, calls.len()));
}

proof fn lemma_all_in_step(s: StreamV, b: BlockV, steps: Seq<Step>, has_parser: bool)
    requires
        in_step(s, Seq::empty(), b, Seq::empty(), has_parser),
        forall|i: int| 0 <= i < steps.len() ==> !(#[trigger] steps[i]).token.done,
    ensures
        ({
            let (s2, es) = streamed(s, steps);
            &&& in_step(s2, es, collected(b, steps), parsed_calls(has_parser, steps), has_parser)
            &&& s2.id == s.id
            &&& s2.model == s.model
            &&& s2.created == s.created
            &&& s2.prompt_tokens == s.prompt_tokens
            &&& s2.include_usage == s.include_usage
        }),
    decreases steps.len(),
{
    if steps.len() > 0 {
        let init = steps.drop_last();
        assert forall|i: int| 0 <= i < init.len() implies !(#[trigger] init[i]).token.done by {
            assert(init[i] == steps[i]);
        }
        lemma_all_in_step(s, b, init, has_parser);
        let (s1, e1) = streamed(s, init);
        assert(!steps[steps.len() - 1].token.done);
        lemma_token_in_step(
            s1,
            e1,
            collected(b, init),
            parsed_calls(has_parser, init),
            has_parser,
            steps.last(),
        );
    }
}

/// A streamed response without stop sequences and without JSON demands, put
/// together, is the response as a whole: the same text, reasoning, tool calls,
/// finish reason and token counts.
#[verifier::spinoff_prover]
#[verifier::rlimit(60)]
pub proof fn law_streamed_equals_whole(
    request_id: Seq<char>,
    model: Seq<char>,
    created: u64,
    prompt_tokens: nat,
    has_parser: bool,
    include_usage: bool,
    steps: Seq<Step>,
    call_id: Seq<char>,
)
    requires
        steps.len() > 0,
        steps.last().token.done,
        forall|i: int| 0 <= i < steps.len() - 1 ==> !(#[trigger] steps[i]).token.done,
    ensures
        ({
            let options = StreamOptionsSet {
                has_parser,
                json_object_mode: false,
                bare_json_tool_call_mode: false,
                include_usage,
                stop_active: false,
            };
            let (s, es) = streamed(
                stream_start(request_id, model, created, prompt_tokens, options),
                steps,
            );
            let r = whole_response(
                request_id,
                model,
                created,
                prompt_tokens,
                has_parser,
                steps,
                call_id,
            );
            let message = r.choices[0].message;
            &&& content_of(es) == message.content
            &&& (match message.reasoning_content {
                Some(t) => reasoning_of(es) == t,
                None => reasoning_of(es).len() == 0,
            })
            &&& (match message.tool_calls {
                Some(calls) => calls_of(es) == calls,
                None => calls_of(es).len() == 0,
            })
            &&& r.usage == usage_of(s.prompt_tokens, s.completion_tokens)
            &&& es.contains(finish_chunk(s, r.choices[0].finish_reason))
            &&& include_usage ==> es.last() == usage_chunk(s)
        }),
{
    let options = StreamOptionsSet {
        has_parser,
        json_object_mode: false,
        bare_json_tool_call_mode: false,
        include_usage,
        stop_active: false,
    };
    let start = stream_start(request_id, model, created, prompt_tokens, options);
    let b0 = blocking_start(has_parser, false);
    assert(in_step(start, Seq::empty(), b0, Seq::empty(), has_parser)) by {
        assert(calls_of(Seq::empty()) =~= response_calls(Seq::empty(), 0));
    }
    let init = steps.drop_last();
    assert forall|i: int| 0 <= i < init.len() implies !(#[trigger] init[i]).token.done by {
        assert(init[i] == steps[i]);
    }
    lemma_all_in_step(start, b0, init, has_parser);
    let step = steps.last();
    let (s1, e1) = streamed(start, init);
    let b1 = collected(b0, init);
    let c1 = parsed_calls(has_parser, init);
    lemma_token_in_step(s1, e1, b1, c1, has_parser, step);
    let (s2, e2) = token_part(s1, step.token, step.outcomes);
    let b2 = collected(b0, steps);
    let c2 = parsed_calls(has_parser, steps);
    // The end of the stream.
    let (s3, e3) = done_part(s2, step.token, step.outcomes);
    let d = final_drained(s2, step.outcomes.final_drain);
    let text_events = final_text(s2, d.text, step.outcomes.final_push).1;
    let call_es = call_events(s2, d.calls);
    let end = ending_events(s3, step.token.finish_reason);
    assert(e3 =~= text_events + call_es + end);
    let es = e1 + (e2 + e3);
    assert(es =~= (e1 + e2) + e3);
    lemma_shown_add(e1 + e2, e3);
    lemma_shown_add(text_events + call_es, end);
    lemma_shown_add(text_events, call_es);
    lemma_shown_calls(s2, d.calls);
    match d.text {
        Some(x) => {
            lemma_shown_one(content_chunk(s2, x, None));
        },
        None => {},
    }
    let finish = finish_chunk(s3, stream_finish(s3, step.token.finish_reason));
    lemma_shown_one(finish);
    lemma_shown_one(usage_chunk(s3));
    if include_usage {
        lemma_shown_add(seq![finish], seq![usage_chunk(s3)]);
        assert(end == seq![finish] + seq![usage_chunk(s3)]);
    } else {
        assert(end =~= seq![finish]);
    }
    lemma_calls_continue(c2, d.calls);
    let b3 = parser_finished(b2, let_through(d), c2 + d.calls);
    assert(content_of(es) =~= b3.text);
    assert(reasoning_of(es) =~= b3.reasoning);
    assert(calls_of(es) =~= response_calls(c2 + d.calls, 0));
    if !has_parser {
        lemma_no_parser_no_calls(steps);
        assert(c2 + d.calls =~= Seq::empty());
    }
    assert(b3.calls =~= c2 + d.calls);
    assert(s3.any_tool_calls == ((c2 + d.calls).len() > 0));
    assert(end[0] == finish);
    assert(es[((e1 + e2).len() + (text_events + call_es).len()) as int] == finish);
    let r = whole_response(request_id, model, created, prompt_tokens, has_parser, steps, call_id);
    assert(r.choices[0].finish_reason == stream_finish(s3, step.token.finish_reason));
    assert(es.contains(finish));
}

proof fn lemma_no_parser_no_calls(steps: Seq<Step>)
    ensures
        parsed_calls(false, steps) == Seq::<ParsedCallV>::empty(),
    decreases steps.len(),
{
    if steps.len() > 0 {
        lemma_no_parser_no_calls(steps.drop_last());
        assert(parsed_calls(false, steps) =~= Seq::empty());
    }
}

// ── Log-probabilities ────────────────────────────────────────────────────────

/// The log-probabilities of an event.
pub open spec fn event_logprobs(e: EventV) -> Seq<LogprobV> {
    match e {
        EventV::Chunk(c) if c.choices.len() > 0 => match c.choices[0].logprobs {
            Some(l) => l,
            None => Seq::empty(),
        },
        _ => Seq::empty(),
    }
}

/// The log-probabilities of a sequence of events.
pub open spec fn logprobs_of(es: Seq<EventV>) -> Seq<LogprobV>
    decreases es.len(),
{
    if es.len() == 0 {
        Seq::empty()
    } else {
        logprobs_of(es.drop_last()) + event_logprobs(es.last())
    }
}

/// The records of those tokens that have one, in order.
pub open spec fn token_records(steps: Seq<Step>) -> Seq<LogprobV>
    decreases steps.len(),
{
    if steps.len() == 0 {
        Seq::empty()
    } else {
        match steps.last().token.logprobs {
            Some(l) => token_records(steps.drop_last()).push(l),
            None => token_records(steps.drop_last()),
        }
    }
}

/// The text of every token is sent: none is empty, and the parser lets something of
/// each through.
pub open spec fn all_sent(has_parser: bool, steps: Seq<Step>) -> bool {
    forall|i: int|
        0 <= i < steps.len() ==> (#[trigger] steps[i]).token.piece.len() > 0 && (has_parser
            ==> steps[i].outcomes.drain.text is Some)
}

proof fn lemma_logprobs_add(a: Seq<EventV>, b: Seq<EventV>)
    ensures
        logprobs_of(a + b) == logprobs_of(a) + logprobs_of(b),
    decreases b.len(),
{
    if b.len() == 0 {
        assert(a + b =~= a);
        assert(logprobs_of(a) + Seq::empty() =~= logprobs_of(a));
    } else {
        assert((a + b).drop_last() =~= a + b.drop_last());
        assert((a + b).last() == b.last());
        lemma_logprobs_add(a, b.drop_last());
        assert(logprobs_of(a + b) =~= logprobs_of(a) + logprobs_of(b));
    }
}

proof fn lemma_no_logprobs(es: Seq<EventV>)
    requires
        forall|i: int| 0 <= i < es.len() ==> event_logprobs(#[trigger] es[i]).len() == 0,
    ensures
        logprobs_of(es) == Seq::<LogprobV>::empty(),
    decreases es.len(),
{
    if es.len() > 0 {
        let init = es.drop_last();
        assert forall|i: int| 0 <= i < init.len() implies event_logprobs(
            #[trigger] init[i],
        ).len() == 0 by {
            assert(init[i] == es[i]);
        }
        lemma_no_logprobs(init);
        assert(es.last() == es[es.len() - 1]);
        assert(logprobs_of(es) =~= Seq::empty());
    }
}

proof fn lemma_token_logprobs(s: StreamV, step: Step)
    requires
        plain(s),
        step.token.piece.len() > 0,
        s.has_parser ==> step.outcomes.drain.text is Some,
    ensures
        ({
            let (s2, es) = token_part(s, step.token, step.outcomes);
            &&& plain(s2)
            &&& s2.has_parser == s.has_parser
            &&& logprobs_of(es) == match step.token.logprobs {
                Some(l) => seq![l],
                None => Seq::empty(),
            }
        }),
{
    let (t, o) = (step.token, step.outcomes);
    let (s2, es) = token_part(s, t, o);
    let s1 = StreamV { completion_tokens: s.completion_tokens + 1, ..s };
    let d = drained(s.has_parser, t.piece, o.drain);
    let x = d.text->0;
    let chunk = if t.is_thinking {
        reasoning_chunk(s1, x, token_logprobs(t))
    } else {
        content_chunk(s1, x, token_logprobs(t))
    };
    let calls = call_events(s1, d.calls);
    assert(es == seq![chunk] + calls);
    lemma_logprobs_add(seq![chunk], calls);
    lemma_no_logprobs(calls);
    assert(seq![chunk].drop_last() =~= Seq::empty());
    assert(logprobs_of(seq![chunk].drop_last()) =~= Seq::empty());
    assert(logprobs_of(seq![chunk]) =~= event_logprobs(chunk));
    assert(logprobs_of(es) =~= event_logprobs(chunk));
}

proof fn lemma_logprobs_of_tokens(s: StreamV, b: BlockV, steps: Seq<Step>)
    requires
        plain(s),
        b.logprobs.len() == 0,
        all_sent(s.has_parser, steps),
        forall|i: int| 0 <= i < steps.len() ==> !(#[trigger] steps[i]).token.done,
    ensures
        plain(streamed(s, steps).0),
        streamed(s, steps).0.has_parser == s.has_parser,
        logprobs_of(streamed(s, steps).1) == token_records(steps),
        collected(b, steps).logprobs == token_records(steps),
    decreases steps.len(),
{
    if steps.len() == 0 {
        assert(b.logprobs =~= Seq::empty());
    } else {
        let init = steps.drop_last();
        assert forall|i: int| 0 <= i < init.len() implies !(#[trigger] init[i]).token.done
            && init[i].token.piece.len() > 0 && (s.has_parser
            ==> init[i].outcomes.drain.text is Some) by {
            assert(init[i] == steps[i]);
        }
        lemma_logprobs_of_tokens(s, b, init);
        let (s1, e1) = streamed(s, init);
        let last = steps[steps.len() - 1];
        assert(last.token.piece.len() > 0);
        lemma_token_logprobs(s1, last);
        lemma_logprobs_add(e1, token_part(s1, last.token, last.outcomes).1);
        assert(logprobs_of(streamed(s, steps).1) =~= token_records(steps));
    }
}

/// The log-probabilities of all chunks of a stream, put together, are those of the
/// tokens, and those of the response as a whole, where every token's text is sent and
/// neither stop sequences nor JSON are demanded.
#[verifier::spinoff_prover]
#[verifier::rlimit(40)]
pub proof fn law_streamed_logprobs_equal_whole(
    request_id: Seq<char>,
    model: Seq<char>,
    created: u64,
    prompt_tokens: nat,
    has_parser: bool,
    include_usage: bool,
    steps: Seq<Step>,
    call_id: Seq<char>,
)
    requires
        steps.len() > 0,
        steps.last().token.done,
        forall|i: int| 0 <= i < steps.len() - 1 ==> !(#[trigger] steps[i]).token.done,
        all_sent(has_parser, steps),
    ensures
        ({
            let options = StreamOptionsSet {
                has_parser,
                json_object_mode: false,
                bare_json_tool_call_mode: false,
                include_usage,
                stop_active: false,
            };
            let es = streamed(
                stream_start(request_id, model, created, prompt_tokens, options),
                steps,
            ).1;
            let r = whole_response(
                request_id,
                model,
                created,
                prompt_tokens,
                has_parser,
                steps,
                call_id,
            );
            &&& logprobs_of(es) == token_records(steps)
            &&& r.choices[0].logprobs == if token_records(steps).len() == 0 {
                None
            } else {
                Some(token_records(steps))
            }
        }),
{
    let options = StreamOptionsSet {
        has_parser,
        json_object_mode: false,
        bare_json_tool_call_mode: false,
        include_usage,
        stop_active: false,
    };
    let start = stream_start(request_id, model, created, prompt_tokens, options);
    let b0 = blocking_start(has_parser, false);
    let init = steps.drop_last();
    assert forall|i: int| 0 <= i < init.len() implies !(#[trigger] init[i]).token.done
        && init[i].token.piece.len() > 0 && (has_parser
        ==> init[i].outcomes.drain.text is Some) by {
        assert(init[i] == steps[i]);
    }
    lemma_logprobs_of_tokens(start, b0, init);
    let (s1, e1) = streamed(start, init);
    let step = steps[steps.len() - 1];
    assert(step.token.piece.len() > 0);
    lemma_token_logprobs(s1, step);
    let (s2, e2) = token_part(s1, step.token, step.outcomes);
    let e3 = done_part(s2, step.token, step.outcomes).1;
    lemma_end_has_no_logprobs(s2, step.token, step.outcomes);
    lemma_logprobs_add(e1, e2 + e3);
    lemma_logprobs_add(e2, e3);
    assert(streamed(start, steps).1 == e1 + (e2 + e3));
    assert(logprobs_of(e1 + (e2 + e3)) =~= token_records(steps));
    assert(collected(b0, steps).logprobs == token_records(steps));
}

proof fn lemma_end_has_no_logprobs(s: StreamV, t: TokenV, o: OutcomesV)
    requires
        plain(s),
    ensures
        logprobs_of(done_part(s, t, o).1) == Seq::<LogprobV>::empty(),
{
    let es = done_part(s, t, o).1;
    assert forall|i: int| 0 <= i < es.len() implies event_logprobs(#[trigger] es[i]).len()
        == 0 by {}
    lemma_no_logprobs(es);
}

// ── JSON ─────────────────────────────────────────────────────────────────────

/// The text of which only the JSON is wanted: from where JSON begins, or nothing.
pub open spec fn json_shown(text: Seq<char>) -> Seq<char> {
    match json_text(text) {
        Some(t) => t,
        None => Seq::empty(),
    }
}

/// The stream of JSON and the collection stand at the same point.
spec fn json_in_step(s: StreamV, es: Seq<EventV>, b: BlockV) -> bool {
    &&& s.json_object_mode && !s.has_parser && !s.bare_mode && !s.stop_active && !s.stop_hit
    &&& !b.has_parser && !b.bare_mode
    &&& content_of(es) == json_shown(b.text)
    &&& reasoning_of(es) == b.reasoning
    &&& s.fence_done == json_text(b.text) is Some
    &&& !s.fence_done ==> s.fence_buf == b.text
}

proof fn lemma_json_step(s: StreamV, es: Seq<EventV>, b: BlockV, step: Step)
    requires
        json_in_step(s, es, b),
    ensures
        json_in_step(
            token_part(s, step.token, step.outcomes).0,
            es + token_part(s, step.token, step.outcomes).1,
            blocking_step(b, step.token, let_through(step.outcomes.drain), 0),
        ),
{
    let t = step.token;
    let (s2, e2) = token_part(s, t, step.outcomes);
    let b2 = blocking_step(b, t, let_through(step.outcomes.drain), 0);
    let (r, channel, piece) = routed(s, t);
    let lp = token_logprobs(t);
    let chunk = if t.is_thinking {
        reasoning_chunk(r, piece, lp)
    } else {
        content_chunk(r, piece, lp)
    };
    let none = call_events(r, Seq::empty());
    assert(none =~= Seq::empty());
    if piece.len() == 0 {
        assert(e2 =~= Seq::empty());
        assert(es + e2 =~= es);
    } else {
        assert(e2 =~= seq![chunk]);
        lemma_shown_one(chunk);
        lemma_shown_add(es, e2);
    }
    assert(b.text + Seq::<char>::empty() =~= b.text);
    assert(b.reasoning + Seq::<char>::empty() =~= b.reasoning);
    if t.piece.len() == 0 {
        assert(b.text + t.piece =~= b.text);
        assert(b.reasoning + t.piece =~= b.reasoning);
    }
    if !t.is_thinking && s.fence_done {
        law_json_text_grows(b.text, t.piece);
    }
    assert(content_of(es + e2) =~= json_shown(b2.text));
    assert(reasoning_of(es + e2) =~= b2.reasoning);
}

proof fn lemma_json_steps(s: StreamV, b: BlockV, steps: Seq<Step>)
    requires
        json_in_step(s, Seq::empty(), b),
        forall|i: int| 0 <= i < steps.len() ==> !(#[trigger] steps[i]).token.done,
    ensures
        json_in_step(streamed(s, steps).0, streamed(s, steps).1, collected(b, steps)),
    decreases steps.len(),
{
    if steps.len() > 0 {
        let init = steps.drop_last();
        assert forall|i: int| 0 <= i < init.len() implies !(#[trigger] init[i]).token.done by {
            assert(init[i] == steps[i]);
        }
        lemma_json_steps(s, b, init);
        let (s1, e1) = streamed(s, init);
        assert(!steps[steps.len() - 1].token.done);
        lemma_json_step(s1, e1, collected(b, init), steps.last());
    }
}

/// A streamed response of which only the JSON is wanted shows the collected text
/// from where JSON begins, however that text was cut into tokens: a code-fence
/// header in front of it is never shown. Reasoning is shown in full.
pub proof fn law_streamed_json_is_shown(
    request_id: Seq<char>,
    model: Seq<char>,
    created: u64,
    prompt_tokens: nat,
    include_usage: bool,
    steps: Seq<Step>,
)
    requires
        steps.len() > 0,
        steps.last().token.done,
        forall|i: int| 0 <= i < steps.len() - 1 ==> !(#[trigger] steps[i]).token.done,
    ensures
        ({
            let options = StreamOptionsSet {
                has_parser: false,
                json_object_mode: true,
                bare_json_tool_call_mode: false,
                include_usage,
                stop_active: false,
            };
            let (_, es) = streamed(
                stream_start(request_id, model, created, prompt_tokens, options),
                steps,
            );
            let b = collected(blocking_start(false, false), steps);
            &&& content_of(es) == json_shown(b.text)
            &&& reasoning_of(es) == b.reasoning
        }),
{
    reveal_strlit("```");
    let options = StreamOptionsSet {
        has_parser: false,
        json_object_mode: true,
        bare_json_tool_call_mode: false,
        include_usage,
        stop_active: false,
    };
    let start = stream_start(request_id, model, created, prompt_tokens, options);
    let b0 = blocking_start(false, false);
    assert(json_in_step(start, Seq::empty(), b0));
    let init = steps.drop_last();
    assert forall|i: int| 0 <= i < init.len() implies !(#[trigger] init[i]).token.done by {
        assert(init[i] == steps[i]);
    }
    lemma_json_steps(start, b0, init);
    let step = steps.last();
    let (s1, e1) = streamed(start, init);
    lemma_json_step(s1, e1, collected(b0, init), step);
    let (s2, e2) = token_part(s1, step.token, step.outcomes);
    let (s3, e3) = done_part(s2, step.token, step.outcomes);
    let end = ending_events(s3, step.token.finish_reason);
    assert(call_events(s2, Seq::empty()) =~= Seq::empty());
    assert(e3 =~= end);
    let finish = finish_chunk(s3, stream_finish(s3, step.token.finish_reason));
    lemma_shown_one(finish);
    lemma_shown_one(usage_chunk(s3));
    if s3.include_usage {
        lemma_shown_add(seq![finish], seq![usage_chunk(s3)]);
    } else {
        assert(end =~= seq![finish]);
    }
    assert(e1 + (e2 + e3) =~= (e1 + e2) + e3);
    lemma_shown_add(e1 + e2, e3);
    let es = streamed(start, steps).1;
    assert(content_of(es) =~= content_of(e1 + e2));
    assert(reasoning_of(es) =~= reasoning_of(e1 + e2));
}

// ── After a stop sequence ────────────────────────────────────────────────────

proof fn lemma_stopped_step(s: StreamV, step: Step)
    requires
        s.stop_hit,
        !s.bare_mode,
    ensures
        ({
            let (s2, es) = stream_step(s, step.token, step.outcomes);
            &&& s2.stop_hit
            &&& !s2.bare_mode
            &&& content_of(es) == Seq::<char>::empty()
        }),
{
    let (t, o) = (step.token, step.outcomes);
    let (s1, e1) = token_part(s, t, o);
    let (r, channel, piece) = routed(s, t);
    let d = drained(r.has_parser, piece, o.drain);
    lemma_shown_calls(r, d.calls);
    if channel == Channel::Reasoning && d.text is Some {
        let chunk = reasoning_chunk(r, d.text->0, token_logprobs(t));
        lemma_shown_one(chunk);
        lemma_shown_add(seq![chunk], call_events(r, d.calls));
    } else {
        lemma_shown_add(Seq::empty(), call_events(r, d.calls));
    }
    assert(content_of(e1) =~= Seq::empty());
    if t.done {
        let d2 = final_drained(s1, o.final_drain);
        let s3 = with_calls(s1, d2.calls.len());
        let calls = call_events(s1, d2.calls);
        let none = Seq::<EventV>::empty();
        let finish = finish_chunk(s3, stream_finish(s3, t.finish_reason));
        lemma_shown_calls(s1, d2.calls);
        lemma_shown_one(finish);
        lemma_shown_one(usage_chunk(s3));
        lemma_shown_add(seq![finish], none);
        lemma_shown_add(seq![finish], seq![usage_chunk(s3)]);
        lemma_shown_add(none + none, calls);
        lemma_shown_add(none + none + calls, none);
        lemma_shown_add(none + none + calls + none, ending_events(s3, t.finish_reason));
        let e2 = done_part(s1, t, o).1;
        assert(content_of(e2) =~= Seq::empty());
        lemma_shown_add(e1, e2);
    }
}

/// Once a stop sequence was hit, no more of the answer is shown, whatever tokens
/// follow.
pub proof fn law_nothing_shown_after_stop(s: StreamV, steps: Seq<Step>)
    requires
        s.stop_hit,
        !s.bare_mode,
    ensures
        streamed(s, steps).0.stop_hit,
        !streamed(s, steps).0.bare_mode,
        content_of(streamed(s, steps).1) == Seq::<char>::empty(),
    decreases steps.len(),
{
    if steps.len() > 0 {
        let init = steps.drop_last();
        law_nothing_shown_after_stop(s, init);
        let (s1, e1) = streamed(s, init);
        lemma_stopped_step(s1, steps.last());
        let e2 = stream_step(s1, steps.last().token, steps.last().outcomes).1;
        lemma_shown_add(e1, e2);
    }
}

} // verus!
