//! Validation of chat requests.

use vstd::prelude::*;
use vstd::utf8::encode_utf8;

use crate::float32::{F32, MINUS_TWO_BITS, ONE_BITS, TWO_BITS};
use crate::json::{Json, JsonV};
use crate::openai::errors::{bias_entries, bias_problem, biases, parse_logit_bias};
use crate::openai::reply::{bad_request, bad_request_reply, Reply};
use crate::openai::request::{
    audio_of_part, part_audio, part_text, text_of_part, ChatCompletionsRequest, ChatMessage,
    ChatMessageV, ContentV, MessageContent,
};
use crate::text::{join2, join3, lemma_views_push, opt_view, text_eq, text_trim, trim, views};

verus! {

// ── Ranges ───────────────────────────────────────────────────────────────────

/// A given value lies outside the range `lo..=hi`.
pub open spec fn outside(v: Option<F32>, lo: u32, hi: u32) -> bool {
    v matches Some(x) && !x.within(F32 { bits: lo }, F32 { bits: hi })
}

fn is_outside(v: Option<F32>, lo: u32, hi: u32) -> (r: bool)
    ensures
        r == outside(v, lo, hi),
{
    match v {
        Some(x) => !x.is_within(F32 { bits: lo }, F32 { bits: hi }),
        None => false,
    }
}

/// A text of this name is among the fields.
pub open spec fn has_field(fields: Seq<String>, name: Seq<char>) -> bool {
    exists|i: int| 0 <= i < fields.len() && (#[trigger] fields[i])@ == name
}

fn field_given(fields: &Vec<String>, name: &str) -> (r: bool)
    ensures
        r == has_field(fields@, name@),
{
    let mut i: usize = 0;
    while i < fields.len()
        invariant
            i <= fields@.len(),
            forall|k: int| 0 <= k < i ==> (#[trigger] fields@[k])@ != name@,
        decreases fields@.len() - i,
    {
        if text_eq(fields[i].as_str(), name) {
            return true;
        }
        i += 1;
    }
    false
}

/// A delimiter was given that consists of whitespace.
pub open spec fn is_blank(delimiter: Option<Seq<char>>) -> bool {
    delimiter matches Some(d) && trim(d).len() == 0
}

fn blank(delimiter: &Option<String>) -> (r: bool)
    ensures
        r == is_blank(opt_view(*delimiter)),
{
    match delimiter {
        Some(d) => text_trim(d.as_str()).as_str().is_empty(),
        None => false,
    }
}

/// The message about a blank delimiter.
pub open spec fn blank_message(field: Seq<char>) -> Seq<char> {
    "`"@ + field + "` must be a non-empty, non-whitespace delimiter string"@
}

/// What is wrong with a request, by the first rule that it breaks. `kv_problem`
/// is what the codec parser says against its codec.
pub open spec fn problem(req: ChatCompletionsRequest, kv_problem: Option<Seq<char>>) -> Option<
    Seq<char>,
> {
    if has_field(req.extra@, "functions"@) {
        Some("field `functions` is not supported (Stage 2+); remove it from your request"@)
    } else if outside(req.temperature, 0, TWO_BITS) {
        Some("temperature must be in [0.0, 2.0]"@)
    } else if outside(req.top_p, 0, ONE_BITS) {
        Some("top_p must be in [0.0, 1.0]"@)
    } else if outside(req.min_p, 0, ONE_BITS) {
        Some("min_p must be in [0.0, 1.0]"@)
    } else if req.repetition_penalty matches Some(r) && r.at_most(F32 { bits: 0 }) {
        Some("repetition_penalty must be > 0.0"@)
    } else if outside(req.frequency_penalty, MINUS_TWO_BITS, TWO_BITS) {
        Some("frequency_penalty must be in [-2.0, 2.0]"@)
    } else if outside(req.presence_penalty, MINUS_TWO_BITS, TWO_BITS) {
        Some("presence_penalty must be in [-2.0, 2.0]"@)
    } else if kv_problem is Some {
        Some("kv_quant: "@ + kv_problem->0)
    } else if req.max_ctx matches Some(c) && c <= 0 {
        Some("max_ctx must be > 0"@)
    } else if req.image_max_tokens == Some(0u32) {
        Some("image_max_tokens must be > 0"@)
    } else if req.top_logprobs is Some && req.logprobs != Some(true) {
        Some("top_logprobs requires logprobs to be set to true"@)
    } else if req.top_logprobs matches Some(n) && n > 20 {
        Some("top_logprobs must be in [0, 20]"@)
    } else if req.echo == Some(true) {
        Some(
            "echo=true is not yet wired into the chat endpoint; use the `rmlx eval ppl` CLI subcommand for per-prompt-position logprobs; a future release will land the HTTP path."@,
        )
    } else if bias_problem(bias_entries(req.logit_bias)) is Some {
        bias_problem(bias_entries(req.logit_bias))
    } else if req.max_tokens == Some(0u32) {
        Some("max_tokens must be > 0"@)
    } else if req.messages@.len() == 0 {
        Some("messages must not be empty"@)
    } else {
        None
    }
}

/// What a valid request says about sampling.
#[derive(Debug)]
pub struct ValidSampling {
    pub logit_bias: Vec<(u32, F32)>,
    /// How many alternatives to report per token; zero for no report.
    pub top_logprobs_k: u32,
}

/// How many alternatives are reported per token: none unless log-probabilities
/// were asked for, and then at least one.
pub open spec fn logprobs_width(logprobs: Option<bool>, top_logprobs: Option<u32>) -> u32 {
    if logprobs == Some(true) {
        match top_logprobs {
            Some(n) if n >= 1 => n,
            _ => 1,
        }
    } else {
        0
    }
}

fn refuse(message: &str) -> (r: Result<ValidSampling, Reply>)
    ensures
        r matches Err(reply) && reply@ == bad_request_reply(message@),
{
    Err(bad_request(message))
}

/// Checks the fields of a request, each in turn; the first rule that is broken is
/// reported.
pub fn validate_request(req: &ChatCompletionsRequest, kv_problem: &Option<String>) -> (r: Result<
    ValidSampling,
    Reply,
>)
    ensures
        match r {
            Ok(v) => {
                &&& problem(*req, opt_view(*kv_problem)) is None
                &&& v.logit_bias@ == biases(bias_entries(req.logit_bias))
                &&& v.top_logprobs_k == logprobs_width(req.logprobs, req.top_logprobs)
            },
            Err(reply) => problem(*req, opt_view(*kv_problem)) matches Some(m) && reply@
                == bad_request_reply(m),
        },
{
    if field_given(&req.extra, "functions") {
        return refuse("field `functions` is not supported (Stage 2+); remove it from your request");
    }
    if is_outside(req.temperature, 0, TWO_BITS) {
        return refuse("temperature must be in [0.0, 2.0]");
    }
    if is_outside(req.top_p, 0, ONE_BITS) {
        return refuse("top_p must be in [0.0, 1.0]");
    }
    if is_outside(req.min_p, 0, ONE_BITS) {
        return refuse("min_p must be in [0.0, 1.0]");
    }
    match req.repetition_penalty {
        Some(r) => if r.is_at_most(F32 { bits: 0 }) {
            return refuse("repetition_penalty must be > 0.0");
        },
        None => {},
    }
    if is_outside(req.frequency_penalty, MINUS_TWO_BITS, TWO_BITS) {
        return refuse("frequency_penalty must be in [-2.0, 2.0]");
    }
    if is_outside(req.presence_penalty, MINUS_TWO_BITS, TWO_BITS) {
        return refuse("presence_penalty must be in [-2.0, 2.0]");
    }
    match kv_problem {
        Some(e) => {
            return refuse(join2("kv_quant: ", e.as_str()).as_str());
        },
        None => {},
    }
    match req.max_ctx {
        Some(c) => if c <= 0 {
            return refuse("max_ctx must be > 0");
        },
        None => {},
    }
    match req.image_max_tokens {
        Some(n) => if n == 0 {
            return refuse("image_max_tokens must be > 0");
        },
        None => {},
    }
    let logprobs_enabled = match req.logprobs {
        Some(b) => b,
        None => false,
    };
    match req.top_logprobs {
        Some(n) => {
            if !logprobs_enabled {
                return refuse("top_logprobs requires logprobs to be set to true");
            }
            if n > 20 {
                return refuse("top_logprobs must be in [0, 20]");
            }
        },
        None => {},
    }
    let top_logprobs_k: u32 = if logprobs_enabled {
        match req.top_logprobs {
            Some(n) => if n >= 1 {
                n
            } else {
                1
            },
            None => 1,
        }
    } else {
        0
    };
    match req.echo {
        Some(b) => if b {
            return refuse(
                "echo=true is not yet wired into the chat endpoint; use the `rmlx eval ppl` CLI subcommand for per-prompt-position logprobs; a future release will land the HTTP path.",
            );
        },
        None => {},
    }
    let logit_bias = match parse_logit_bias(&req.logit_bias) {
        Ok(v) => v,
        Err(m) => {
            return refuse(m.as_str());
        },
    };
    match req.max_tokens {
        Some(m) => if m == 0 {
            return refuse("max_tokens must be > 0");
        },
        None => {},
    }
    if req.messages.len() == 0 {
        return refuse("messages must not be empty");
    }
    Ok(ValidSampling { logit_bias, top_logprobs_k })
}

/// Checks the thinking delimiters of a request: a delimiter that is given must
/// not be blank.
pub fn validate_delimiters(start: &Option<String>, end: &Option<String>) -> (r: Result<(), Reply>)
    ensures
        match r {
            Ok(_) => !is_blank(opt_view(*start)) && !is_blank(opt_view(*end)),
            Err(reply) => if is_blank(opt_view(*start)) {
                reply@ == bad_request_reply(blank_message("thinking_start_token"@))
            } else {
                is_blank(opt_view(*end)) && reply@ == bad_request_reply(
                    blank_message("thinking_end_token"@),
                )
            },
        },
{
    if blank(start) {
        return Err(
            bad_request(
                join3(
                    "`",
                    "thinking_start_token",
                    "` must be a non-empty, non-whitespace delimiter string",
                ).as_str(),
            ),
        );
    }
    if blank(end) {
        return Err(
            bad_request(
                join3(
                    "`",
                    "thinking_end_token",
                    "` must be a non-empty, non-whitespace delimiter string",
                ).as_str(),
            ),
        );
    }
    Ok(())
}

// ── Bounds on the input ──────────────────────────────────────────────────────

/// A quantity of a request that is held against a bound.
#[derive(Debug, Clone, Copy, PartialEq, Eq, Structural)]
pub enum Measure {
    /// How many messages there are.
    Messages(usize),
    /// How many tools there are.
    Tools(usize),
    /// How many tool calls a message has.
    ToolCalls { count: usize, message: usize },
    /// How many parts a message has.
    ContentParts { count: usize, message: usize },
    /// How many bytes an audio part decodes to.
    InputAudioBytes { bytes: usize, part: usize },
    /// How many bytes of text there are in all.
    TextBytes(usize),
}

pub enum MeasureV {
    Messages(nat),
    Tools(nat),
    ToolCalls(nat, nat),
    ContentParts(nat, nat),
    InputAudioBytes(nat, nat),
    TextBytes(nat),
}

impl View for Measure {
    type V = MeasureV;

    open spec fn view(&self) -> MeasureV {
        match self {
            Measure::Messages(n) => MeasureV::Messages(*n as nat),
            Measure::Tools(n) => MeasureV::Tools(*n as nat),
            Measure::ToolCalls { count, message } => MeasureV::ToolCalls(
                *count as nat,
                *message as nat,
            ),
            Measure::ContentParts { count, message } => MeasureV::ContentParts(
                *count as nat,
                *message as nat,
            ),
            Measure::InputAudioBytes { bytes, part } => MeasureV::InputAudioBytes(
                *bytes as nat,
                *part as nat,
            ),
            Measure::TextBytes(n) => MeasureV::TextBytes(*n as nat),
        }
    }
}

/// The audio parts among `ps`, by the bytes that they decode to.
pub open spec fn audio_measures(ps: Seq<JsonV>) -> Seq<MeasureV>
    decreases ps.len(),
{
    if ps.len() == 0 {
        Seq::empty()
    } else {
        let before = audio_measures(ps.drop_last());
        match part_audio(ps.last()) {
            Some(data) => before.push(
                MeasureV::InputAudioBytes(
                    (encode_utf8(data).len() * 3 / 4) as nat,
                    (ps.len() - 1) as nat,
                ),
            ),
            None => before,
        }
    }
}

/// The bytes of text in parts.
pub open spec fn parts_bytes(ps: Seq<JsonV>) -> nat
    decreases ps.len(),
{
    if ps.len() == 0 {
        0
    } else {
        parts_bytes(ps.drop_last()) + match part_text(ps.last()) {
            Some(t) => encode_utf8(t).len(),
            None => 0,
        }
    }
}

/// The bytes of text in a message.
pub open spec fn message_bytes(m: ChatMessageV) -> nat {
    match m.content {
        Some(ContentV::Text(s)) => encode_utf8(s).len(),
        Some(ContentV::Parts(ps)) => parts_bytes(ps),
        None => 0,
    }
}

/// The quantities of the message at position `i`, in the order in which they are
/// held against bounds.
pub open spec fn message_measures(m: ChatMessageV, i: nat) -> Seq<MeasureV> {
    let calls = match m.tool_calls {
        Some(cs) => seq![MeasureV::ToolCalls(cs.len(), i)],
        None => Seq::empty(),
    };
    let parts = match m.content {
        Some(ContentV::Parts(ps)) => seq![MeasureV::ContentParts(ps.len(), i)] + audio_measures(ps),
        _ => Seq::empty(),
    };
    calls + parts
}

/// The quantities of all messages, in order.
pub open spec fn messages_measures(ms: Seq<ChatMessageV>) -> Seq<MeasureV>
    decreases ms.len(),
{
    if ms.len() == 0 {
        Seq::empty()
    } else {
        messages_measures(ms.drop_last()) + message_measures(ms.last(), (ms.len() - 1) as nat)
    }
}

/// The bytes of text in all messages.
pub open spec fn messages_bytes(ms: Seq<ChatMessageV>) -> nat
    decreases ms.len(),
{
    if ms.len() == 0 {
        0
    } else {
        messages_bytes(ms.drop_last()) + message_bytes(ms.last())
    }
}

/// `n`, but no more than fits.
pub open spec fn capped(n: nat) -> nat {
    if n <= usize::MAX {
        n
    } else {
        usize::MAX as nat
    }
}

/// The quantities of a request, in the order in which they are held against
/// bounds.
pub open spec fn measures_of(ms: Seq<ChatMessageV>, tools: Option<nat>) -> Seq<MeasureV> {
    seq![MeasureV::Messages(ms.len())] + match tools {
        Some(n) => seq![MeasureV::Tools(n)],
        None => Seq::empty(),
    } + messages_measures(ms) + seq![MeasureV::TextBytes(capped(messages_bytes(ms)))]
}

fn push_measure(out: &mut Vec<Measure>, m: Measure)
    ensures
        views(final(out)@) == views(old(out)@).push(m@),
{
    proof {
        lemma_views_push(out@, m);
    }
    out.push(m);
}

fn measure_parts(parts: &Vec<Json>, out: &mut Vec<Measure>, total: usize) -> (r: usize)
    ensures
        views(final(out)@) == views(old(out)@) + audio_measures(views(parts@)),
        r == capped(total as nat + parts_bytes(views(parts@))),
{
    let ghost before = views(out@);
    let ghost all = views(parts@);
    let mut sum: usize = total;
    let mut i: usize = 0;
    proof {
        assert(all.subrange(0, 0) =~= Seq::empty());
        assert(views(out@) =~= before + audio_measures(all.subrange(0, 0)));
    }
    while i < parts.len()
        invariant
            i <= parts@.len(),
            all == views(parts@),
            views(out@) == before + audio_measures(all.subrange(0, i as int)),
            sum == capped(total as nat + parts_bytes(all.subrange(0, i as int))),
        decreases parts@.len() - i,
    {
        let ghost next = all.subrange(0, i + 1);
        proof {
            assert(next.drop_last() =~= all.subrange(0, i as int));
            assert(next.last() == parts@[i as int]@);
        }
        let ghost so_far = views(out@);
        match audio_of_part(&parts[i]) {
            Some(data) => {
                let bytes: usize = data.as_bytes().len();
                let estimate: usize = (bytes as u128 * 3 / 4) as usize;
                push_measure(out, Measure::InputAudioBytes { bytes: estimate, part: i });
                proof {
                    assert(views(out@) =~= before + audio_measures(next));
                }
            },
            None => {},
        }
        match text_of_part(&parts[i]) {
            Some(t) => {
                sum = sum.saturating_add(t.as_bytes().len());
            },
            None => {},
        }
        i += 1;
    }
    proof {
        assert(all.subrange(0, i as int) =~= all);
    }
    sum
}

fn measure_message(m: &ChatMessage, i: usize, out: &mut Vec<Measure>, total: usize) -> (r: usize)
    ensures
        views(final(out)@) == views(old(out)@) + message_measures(m@, i as nat),
        r == capped(total as nat + message_bytes(m@)),
{
    let ghost before = views(out@);
    match &m.tool_calls {
        Some(calls) => push_measure(out, Measure::ToolCalls { count: calls.len(), message: i }),
        None => {},
    }
    let ghost calls = match m@.tool_calls {
        Some(cs) => seq![MeasureV::ToolCalls(cs.len(), i as nat)],
        None => Seq::empty(),
    };
    proof {
        assert(views(out@) =~= before + calls);
    }
    match &m.content {
        Some(MessageContent::Parts(parts)) => {
            push_measure(out, Measure::ContentParts { count: parts.len(), message: i });
            let r = measure_parts(parts, out, total);
            proof {
                assert(views(out@) =~= before + message_measures(m@, i as nat));
            }
            r
        },
        Some(MessageContent::Text(s)) => {
            proof {
                assert(views(out@) =~= before + message_measures(m@, i as nat));
            }
            total.saturating_add(s.as_str().as_bytes().len())
        },
        None => {
            proof {
                assert(views(out@) =~= before + message_measures(m@, i as nat));
            }
            total
        },
    }
}

/// The quantities of a request that are held against bounds, in the order in
/// which that is done: messages, tools, then for each message its tool calls, its
/// parts and its audio, and at last the text of all messages.
pub fn request_measures(messages: &Vec<ChatMessage>, tools: Option<usize>) -> (r: Vec<Measure>)
    ensures
        views(r@) == measures_of(
            views(messages@),
            match tools {
                Some(n) => Some(n as nat),
                None => None,
            },
        ),
{
    let ghost ms = views(messages@);
    let mut out: Vec<Measure> = Vec::new();
    proof {
        assert(views(out@) =~= Seq::empty());
    }
    push_measure(&mut out, Measure::Messages(messages.len()));
    match tools {
        Some(n) => push_measure(&mut out, Measure::Tools(n)),
        None => {},
    }
    let ghost head = seq![MeasureV::Messages(ms.len())] + match tools {
        Some(n) => seq![MeasureV::Tools(n as nat)],
        None => Seq::empty(),
    };
    let mut total: usize = 0;
    let mut i: usize = 0;
    proof {
        assert(views(out@) =~= head);
        assert(ms.subrange(0, 0) =~= Seq::empty());
        assert(views(out@) =~= head + messages_measures(ms.subrange(0, 0)));
    }
    while i < messages.len()
        invariant
            i <= messages@.len(),
            ms == views(messages@),
            views(out@) == head + messages_measures(ms.subrange(0, i as int)),
            total == capped(messages_bytes(ms.subrange(0, i as int))),
        decreases messages@.len() - i,
    {
        let ghost next = ms.subrange(0, i + 1);
        proof {
            assert(next.drop_last() =~= ms.subrange(0, i as int));
            assert(next.last() == messages@[i as int]@);
        }
        total = measure_message(&messages[i], i, &mut out, total);
        proof {
            assert(views(out@) =~= head + messages_measures(next));
        }
        i += 1;
    }
    proof {
        assert(ms.subrange(0, i as int) =~= ms);
    }
    push_measure(&mut out, Measure::TextBytes(total));
    proof {
        assert(views(out@) =~= measures_of(
            ms,
            match tools {
                Some(n) => Some(n as nat),
                None => None,
            },
        ));
    }
    out
}

// ── Laws ─────────────────────────────────────────────────────────────────────

/// A request that passes has its numbers in range, and something to answer. A
/// repetition penalty may also be no number, which no comparison refuses.
pub proof fn law_valid_request_is_in_range(
    req: ChatCompletionsRequest,
    kv_problem: Option<Seq<char>>,
)
    requires
        problem(req, kv_problem) is None,
    ensures
        req.temperature matches Some(t) ==> !t.nan() && 0 <= t.rank() <= TWO_BITS,
        req.top_p matches Some(p) ==> !p.nan() && 0 <= p.rank() <= ONE_BITS,
        req.min_p matches Some(p) ==> !p.nan() && 0 <= p.rank() <= ONE_BITS,
        req.repetition_penalty matches Some(p) ==> p.nan() || p.rank() > 0,
        req.frequency_penalty matches Some(p) ==> !p.nan() && -TWO_BITS <= p.rank() <= TWO_BITS,
        req.presence_penalty matches Some(p) ==> !p.nan() && -TWO_BITS <= p.rank() <= TWO_BITS,
        req.max_ctx matches Some(c) ==> c > 0,
        req.image_max_tokens matches Some(n) ==> n > 0,
        req.top_logprobs matches Some(n) ==> n <= 20,
        req.max_tokens matches Some(n) ==> n > 0,
        req.messages@.len() > 0,
        kv_problem is None,
        logprobs_width(req.logprobs, req.top_logprobs) <= 20,
        (logprobs_width(req.logprobs, req.top_logprobs) == 0) == (req.logprobs != Some(true)),
{
}

} // verus!
