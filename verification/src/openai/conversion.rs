//! What of a chat request reaches its model.
//!
//! Every setting that a client sends is used for what its name says: the laws here
//! follow each field of a request, each part of a message and each tool to the place
//! where the engine, the template or the sampler finds it.

use vstd::prelude::*;

use crate::engine::kv_quant::KvQuant;
use crate::engine::types::{
    template_tool, GenerationRequest, NormalizedResponseFormat, NormalizedTool,
    NormalizedToolChoice, ToolV,
};
use crate::float32::F32;
use crate::json::{
    get, get_str, get_str2, json_of_text, law_member_reads_back, member_count, Json, JsonV,
};
use crate::openai::chat::{
    first_system, jinja_tools, make_generation_request, output_mode, plan_constraint,
    rendered_tools, request_schema, request_stops, system_prompt, user_audio, user_images,
    user_media, ConstraintPlan, OutputMode, Prepared, SchemaFailure,
};
use crate::openai::errors::{bias_entries, biases, BiasEntry, GenerationConfig};
use crate::openai::flow::{
    accept_constraint, accept_prompt, accept_request, planned_request, request_constraint, request_mode, Accepted,
    MadePrompt, ModelFacts, Planned, Ready, ServerSettings,
};
use crate::openai::reply::Reply;
use crate::openai::request::{
    normalize_response_format, normalize_tool_choice, normalize_tools, parts_audio, parts_images,
    parts_text, template_call, template_message, ChatCompletionsRequest,
    ChatMessage, MessageContent, OwnedTplMessage, RequestToolCall, ResponseFormat, StopSequences,
    Tool, ToolChoice,
};
use crate::openai::tool_call::{call_schema, tool_choice_to_schema, tool_named};
use crate::session_cache::SessionCache;
use crate::text::{decimal, law_decimal_round_trip, lemma_views_push, opt_view, views};

verus! {

// ── Messages ─────────────────────────────────────────────────────────────────

/// A part of a message adds what its type says, behind what the parts before it
/// added, and nothing else: an `image_url` part the `url` in its `image_url`, an
/// `input_image` part its `image_url`, an `input_audio` part the `data` in its
/// `input_audio`, a `text` part its `text`.
pub proof fn law_parts_add_what_they_hold(ps: Seq<JsonV>, p: JsonV)
    ensures
        parts_images(Seq::empty()) == Seq::<Seq<char>>::empty(),
        parts_audio(Seq::empty()) == Seq::<Seq<char>>::empty(),
        parts_text(Seq::empty()) == Seq::<char>::empty(),
        ({
            let kind = get_str(p, "type"@);
            let image = if kind == Some("image_url"@) {
                get_str2(p, "image_url"@, "url"@)
            } else if kind == Some("input_image"@) {
                get_str(p, "image_url"@)
            } else {
                None
            };
            let audio = if kind == Some("input_audio"@) {
                get_str2(p, "input_audio"@, "data"@)
            } else {
                None
            };
            let text = if kind == Some("text"@) {
                get_str(p, "text"@)
            } else {
                None
            };
            &&& parts_images(ps.push(p)) == match image {
                Some(u) => parts_images(ps).push(u),
                None => parts_images(ps),
            }
            &&& parts_audio(ps.push(p)) == match audio {
                Some(d) => parts_audio(ps).push(d),
                None => parts_audio(ps),
            }
            &&& parts_text(ps.push(p)) == match text {
                Some(t) => parts_text(ps) + t,
                None => parts_text(ps),
            }
        }),
{
    reveal_strlit("image_url");
    reveal_strlit("input_image");
    reveal_strlit("input_audio");
    reveal_strlit("text");
    assert(ps.push(p).drop_last() =~= ps);
    assert(ps.push(p).last() == p);
    assert(parts_text(ps) + Seq::<char>::empty() =~= parts_text(ps));
}

/// The images and the audio clips of a conversation are those of the parts of its
/// user messages: such a message adds its own behind those of the messages before
/// it; a message of another role, or with a plain text, adds none.
pub proof fn law_user_messages_add_their_media(ms: Seq<ChatMessage>, m: ChatMessage)
    ensures
        user_images(Seq::empty()) == Seq::<Seq<char>>::empty(),
        user_audio(Seq::empty()) == Seq::<Seq<char>>::empty(),
        m.role@ != "user"@ ==> {
            &&& user_images(views(ms.push(m))) == user_images(views(ms))
            &&& user_audio(views(ms.push(m))) == user_audio(views(ms))
        },
        m.role@ == "user"@ ==> match m.content {
            Some(MessageContent::Parts(ps)) => {
                &&& user_images(views(ms.push(m))) == user_images(views(ms)) + parts_images(
                    views(ps@),
                )
                &&& user_audio(views(ms.push(m))) == user_audio(views(ms)) + parts_audio(
                    views(ps@),
                )
            },
            _ => {
                &&& user_images(views(ms.push(m))) == user_images(views(ms))
                &&& user_audio(views(ms.push(m))) == user_audio(views(ms))
            },
        },
{
    lemma_views_push(ms, m);
    let all = views(ms).push(m@);
    assert(all.drop_last() =~= views(ms));
    assert(all.last() == m@);
    assert(user_images(views(ms)) + Seq::<Seq<char>>::empty() =~= user_images(views(ms)));
    assert(user_audio(views(ms)) + Seq::<Seq<char>>::empty() =~= user_audio(views(ms)));
}

/// A conversation of one user message shows the image of every part, in order, when
/// each part is an `image_url` part; of any other role it shows none.
pub proof fn law_one_user_message_shows_its_images(m: ChatMessage, urls: Seq<Seq<char>>)
    requires
        m.content matches Some(MessageContent::Parts(ps)) && ps@.len() == urls.len() && forall|
            i: int,
        |
            0 <= i < ps@.len() ==> {
                &&& get_str((#[trigger] ps@[i])@, "type"@) == Some("image_url"@)
                &&& get_str2(ps@[i]@, "image_url"@, "url"@) == Some(urls[i])
            },
    ensures
        m.role@ == "user"@ ==> user_images(views(seq![m])) == urls,
        m.role@ != "user"@ ==> user_images(views(seq![m])).len() == 0,
{
    let none = Seq::<ChatMessage>::empty();
    law_user_messages_add_their_media(none, m);
    assert(none.push(m) =~= seq![m]);
    assert(views(none) =~= Seq::empty());
    match m.content {
        Some(MessageContent::Parts(ps)) => {
            lemma_images_of_parts(views(ps@), urls);
            assert(Seq::<Seq<char>>::empty() + urls =~= urls);
        },
        _ => {},
    }
}

proof fn lemma_images_of_parts(ps: Seq<JsonV>, urls: Seq<Seq<char>>)
    requires
        ps.len() == urls.len(),
        forall|i: int|
            0 <= i < ps.len() ==> {
                &&& get_str(#[trigger] ps[i], "type"@) == Some("image_url"@)
                &&& get_str2(ps[i], "image_url"@, "url"@) == Some(urls[i])
            },
    ensures
        parts_images(ps) == urls,
    decreases ps.len(),
{
    if ps.len() == 0 {
        assert(urls =~= Seq::empty());
    } else {
        let init = ps.drop_last();
        assert forall|i: int| 0 <= i < init.len() implies {
            &&& get_str(#[trigger] init[i], "type"@) == Some("image_url"@)
            &&& get_str2(init[i], "image_url"@, "url"@) == Some(urls.drop_last()[i])
        } by {
            assert(init[i] == ps[i]);
        }
        lemma_images_of_parts(init, urls.drop_last());
        law_parts_add_what_they_hold(init, ps.last());
        assert(init.push(ps.last()) =~= ps);
        assert(ps.last() == ps[ps.len() - 1]);
        assert(urls.drop_last().push(urls.last()) =~= urls);
    }
}

/// The system prompt is the text of the first message whose role is `system`; a
/// conversation without such a message has none.
pub proof fn law_system_prompt_is_the_first(ms: Seq<ChatMessage>, i: int)
    requires
        0 <= i <= ms.len(),
        forall|k: int| 0 <= k < i ==> (#[trigger] ms[k]).role@ != "system"@,
    ensures
        i == ms.len() ==> first_system(views(ms)) is None,
        i < ms.len() && ms[i].role@ == "system"@ ==> first_system(views(ms)) == Some(
            match ms[i].content {
                Some(MessageContent::Text(t)) => t@,
                Some(MessageContent::Parts(ps)) => parts_text(views(ps@)),
                None => Seq::empty(),
            },
        ),
    decreases ms.len(),
{
    if ms.len() > 0 {
        let rest = ms.subrange(1, ms.len() as int);
        assert(views(ms)[0] == ms[0]@);
        assert(views(ms).subrange(1, ms.len() as int) =~= views(rest));
        if i > 0 {
            assert(ms[0].role@ != "system"@);
            assert forall|k: int| 0 <= k < i - 1 implies (#[trigger] rest[k]).role@
                != "system"@ by {
                assert(rest[k] == ms[k + 1]);
            }
            law_system_prompt_is_the_first(rest, i - 1);
        }
    }
}

/// A message is rendered under its own role, with its own text, id and name, and
/// each of its tool calls as an object whose `id`, `type` and `function` are those
/// of the call. Arguments that are JSON are rendered as what they say, others as an
/// empty object.
pub proof fn law_template_message_is_the_message(m: ChatMessage, t: OwnedTplMessage)
    requires
        t@ == template_message(m@),
    ensures
        t.role@ == m.role@,
        t.content@ == match m.content {
            Some(MessageContent::Text(s)) => s@,
            Some(MessageContent::Parts(ps)) => parts_text(views(ps@)),
            None => Seq::empty(),
        },
        opt_view(t.tool_call_id) == opt_view(m.tool_call_id),
        opt_view(t.name) == opt_view(m.name),
        t.tool_calls_json is Some == m.tool_calls is Some,
        m.tool_calls matches Some(cs) ==> {
            let j = t.tool_calls_json->0@;
            &&& j is Array
            &&& j->Array_0.len() == cs@.len()
            &&& forall|i: int| 0 <= i < cs@.len() ==> is_rendered(#[trigger] j->Array_0[i], cs@[i])
        },
{
    match m.tool_calls {
        Some(cs) => {
            let j = t.tool_calls_json->0@;
            assert forall|i: int| 0 <= i < cs@.len() implies is_rendered(
                #[trigger] j->Array_0[i],
                cs@[i],
            ) by {
                assert(views(cs@)[i] == cs@[i]@);
                lemma_call_is_rendered(cs@[i]);
            }
        },
        None => {},
    }
}

/// An object shows a tool call as chat templates expect it.
pub open spec fn is_rendered(j: JsonV, c: RequestToolCall) -> bool {
    &&& member_count(j) == 3
    &&& get(j, "id"@) == Some(
        match c.id {
            Some(s) => JsonV::Str(s@),
            None => JsonV::Null,
        },
    )
    &&& get(j, "type"@) == Some(
        JsonV::Str(
            match c.kind {
                Some(k) => k@,
                None => "function"@,
            },
        ),
    )
    &&& get(j, "function"@) matches Some(f) && {
        &&& member_count(f) == 2
        &&& get(f, "name"@) == Some(JsonV::Str(c.function.name@))
        &&& get(f, "arguments"@) == Some(
            match json_of_text(c.function.arguments@) {
                Some(a) => a,
                None => JsonV::Object(Seq::empty()),
            },
        )
    }
}

proof fn lemma_call_is_rendered(c: RequestToolCall)
    ensures
        is_rendered(template_call(c@, json_of_text(c.function.arguments@)), c),
{
    broadcast use law_member_reads_back;

    reveal_strlit("id");
    reveal_strlit("type");
    reveal_strlit("function");
    reveal_strlit("name");
    reveal_strlit("arguments");
    assert("id"@.len() == 2);
    assert("type"@.len() == 4);
    assert("function"@.len() == 8);
    assert("name"@.len() == 4);
    assert("arguments"@.len() == 9);
    assert("type"@[0] != "name"@[0]);
}

/// A tool is rendered as a `function` with its own name, description and schema.
/// All tools of a request are rendered, in order, if the template can render tools,
/// else none.
pub proof fn law_tools_are_rendered(ts: Seq<NormalizedTool>, i: int)
    requires
        0 <= i < ts.len(),
    ensures
        rendered_tools(Some(views(ts)), true).len() == ts.len(),
        rendered_tools(Some(views(ts)), false).len() == 0,
        rendered_tools(None, true).len() == 0,
        ({
            let j = rendered_tools(Some(views(ts)), true)[i];
            &&& member_count(j) == 2
            &&& get(j, "type"@) == Some(JsonV::Str("function"@))
            &&& get(j, "function"@) matches Some(f) && {
                &&& member_count(f) == 3
                &&& get(f, "name"@) == Some(JsonV::Str(ts[i].name@))
                &&& get(f, "description"@) == Some(
                    match ts[i].description {
                        Some(d) => JsonV::Str(d@),
                        None => JsonV::Null,
                    },
                )
                &&& get(f, "parameters"@) == Some(ts[i].schema@)
            }
        }),
{
    broadcast use law_member_reads_back;

    reveal_strlit("type");
    reveal_strlit("function");
    reveal_strlit("name");
    reveal_strlit("description");
    reveal_strlit("parameters");
    assert("type"@.len() == 4);
    assert("function"@.len() == 8);
    assert("name"@.len() == 4);
    assert("description"@.len() == 11);
    assert("parameters"@.len() == 10);
    assert("type"@[0] != "name"@[0]);
    assert(views(ts)[i] == ts[i]@);
}

// ── Constraints ──────────────────────────────────────────────────────────────

/// A schema that admits a call of the tool of this name and nothing else: an object with
/// the two members `name`, which is the tool's name, and `arguments`, which conform to
/// the tool's own schema, or are any object where that is no object.
pub open spec fn admits_only(j: JsonV, name: Seq<char>, schema: JsonV) -> bool {
    &&& member_count(j) == 4
    &&& get(j, "type"@) == Some(JsonV::Str("object"@))
    &&& get(j, "additionalProperties"@) == Some(JsonV::Bool(false))
    &&& get(j, "required"@) matches Some(JsonV::Array(r)) && {
        &&& r.len() == 2
        &&& r[0] == JsonV::Str("name"@)
        &&& r[1] == JsonV::Str("arguments"@)
    }
    &&& get(j, "properties"@) matches Some(p) && {
        &&& member_count(p) == 2
        &&& get(p, "arguments"@) matches Some(a) && if schema is Object {
            a == schema
        } else {
            member_count(a) == 1 && get(a, "type"@) == Some(JsonV::Str("object"@))
        }
        &&& get(p, "name"@) matches Some(n) && {
            &&& member_count(n) == 2
            &&& get(n, "type"@) == Some(JsonV::Str("string"@))
            &&& get(n, "const"@) == Some(JsonV::Str(name))
        }
    }
}

/// A schema that admits a call of this tool of a request and nothing else.
pub open spec fn admits_only_a_call(j: JsonV, t: Tool) -> bool {
    admits_only(j, t.function.name@, t.function.parameters@)
}

proof fn lemma_admits_only(t: ToolV)
    ensures
        admits_only(call_schema(t), t.name, t.schema),
{
    broadcast use law_member_reads_back;

    reveal_strlit("type");
    reveal_strlit("properties");
    reveal_strlit("required");
    reveal_strlit("additionalProperties");
    reveal_strlit("name");
    reveal_strlit("arguments");
    reveal_strlit("const");
    assert("type"@.len() == 4);
    assert("properties"@.len() == 10);
    assert("required"@.len() == 8);
    assert("additionalProperties"@.len() == 20);
    assert("name"@.len() == 4);
    assert("arguments"@.len() == 9);
    assert("const"@.len() == 5);
    assert("type"@[0] != "name"@[0]);
    let j = call_schema(t);
    assert(get(j, "type"@) is Some);
    assert(get(j, "properties"@) is Some);
    let p = get(j, "properties"@)->0;
    assert(get(p, "name"@) is Some);
    assert(get(p, "arguments"@) is Some);
}

/// The tools of a request are at hand.
pub open spec fn offers_tools(req: ChatCompletionsRequest) -> bool {
    req.tools matches Some(ts) && ts@.len() > 0
}

/// A request demands that some tool be called, whichever.
pub open spec fn demands_any_call(req: ChatCompletionsRequest) -> bool {
    offers_tools(req) && (req.tool_choice matches Some(ToolChoice::Mode(m)) && m@ == "required"@)
}

/// A request demands a call of its tool `i`: the first one that bears the name of
/// its tool choice.
pub open spec fn demands_call_of(req: ChatCompletionsRequest, i: int) -> bool {
    req.tools matches Some(ts) && 0 <= i < ts@.len() && (req.tool_choice matches Some(
        ToolChoice::Named(n),
    ) && n.function.name@ == ts@[i].function.name@ && forall|k: int|
        0 <= k < i ==> (#[trigger] ts@[k]).function.name@ != n.function.name@)
}

/// A request demands no call: it has no tools, or its choice leaves the model free,
/// or it names a tool that is not there.
pub open spec fn demands_no_call(req: ChatCompletionsRequest) -> bool {
    !offers_tools(req) || match req.tool_choice {
        None => true,
        Some(ToolChoice::Mode(m)) => m@ != "required"@,
        Some(ToolChoice::Named(n)) => forall|k: int|
            0 <= k < req.tools->0@.len() ==> (#[trigger] req.tools->0@[k]).function.name@
                != n.function.name@,
    }
}

/// Output is constrained to what the request demands. A demanded call is held to
/// the schema of the tool that is named, or of one of the tools; without such a
/// demand, the output is held to the request's own schema with the request's own
/// strictness, or to JSON, or to nothing, as its format says. Without a tokenizer
/// nothing is enforced.
pub proof fn law_constraint_is_what_the_request_demands(
    req: ChatCompletionsRequest,
    model: ModelFacts,
    c: ConstraintPlan,
    i: int,
)
    requires
        c@ == request_constraint(req, model),
    ensures
        demands_any_call(req) && model.has_tokenizer ==> (c matches ConstraintPlan::ToolChoice {
            schema,
        } && (get(schema@, "oneOf"@) matches Some(JsonV::Array(branches)) && {
            &&& member_count(schema@) == 1
            &&& branches.len() == req.tools->0@.len()
            &&& 0 <= i < branches.len() ==> admits_only_a_call(branches[i], req.tools->0@[i])
        })),
        demands_call_of(req, i) && model.has_tokenizer ==> (c matches ConstraintPlan::ToolChoice {
            schema,
        } && admits_only_a_call(schema@, req.tools->0@[i])),
        (demands_any_call(req) || demands_call_of(req, i)) && !model.has_tokenizer ==> c
            is Unconstrained,
        demands_no_call(req) ==> match req.response_format {
            None => c is Unconstrained,
            Some(ResponseFormat::Text) => c is Unconstrained,
            Some(ResponseFormat::JsonObject) => if model.has_tokenizer {
                c is JsonObject
            } else {
                c is NoOp
            },
            Some(ResponseFormat::JsonSchema { json_schema }) => if model.has_tokenizer {
                c matches ConstraintPlan::Schema { schema, strict } && schema@
                    == json_schema.schema@ && strict == json_schema.strict
            } else {
                c is NoOp
            },
        },
{
    broadcast use law_member_reads_back;

    reveal_strlit("oneOf");
    reveal_strlit("none");
    reveal_strlit("required");
    assert("none"@.len() == 4);
    assert("required"@.len() == 8);
    match req.tools {
        Some(ts) => {
            let all = views(ts@);
            if 0 <= i < ts@.len() {
                assert(all[i] == ts@[i]@);
                lemma_admits_only(ts@[i]@);
            }
            match req.tool_choice {
                Some(ToolChoice::Named(n)) => {
                    if demands_call_of(req, i) {
                        lemma_tool_named(all, n.function.name@, i);
                    }
                    if demands_no_call(req) {
                        assert forall|k: int| 0 <= k < all.len() implies (#[trigger] all[k]).name
                            != n.function.name@ by {
                            assert(all[k] == ts@[k]@);
                        }
                        lemma_tool_named(all, n.function.name@, all.len() as int);
                    }
                },
                _ => {},
            }
        },
        None => {},
    }
}

proof fn lemma_tool_named(ts: Seq<ToolV>, name: Seq<char>, i: int)
    requires
        0 <= i <= ts.len(),
        forall|k: int| 0 <= k < i ==> (#[trigger] ts[k]).name != name,
        i < ts.len() ==> ts[i].name == name,
    ensures
        tool_named(ts, name) == if i < ts.len() {
            Some(ts[i])
        } else {
            None
        },
    decreases ts.len(),
{
    if ts.len() > 0 && i > 0 {
        let rest = ts.subrange(1, ts.len() as int);
        assert(ts[0].name != name);
        assert forall|k: int| 0 <= k < i - 1 implies (#[trigger] rest[k]).name != name by {
            assert(rest[k] == ts[k + 1]);
        }
        lemma_tool_named(rest, name, i - 1);
    }
}

/// How output is treated follows from the request and its model. A demanded call
/// comes as bare JSON and is not parsed; otherwise the output is parsed exactly when
/// the request's tools were rendered and the model's format is known. Only JSON is
/// wanted where a call or a JSON format is demanded.
pub proof fn law_output_is_treated_as_demanded(
    req: ChatCompletionsRequest,
    model: ModelFacts,
    i: int,
)
    ensures
        ({
            let mode = request_mode(req, model);
            let json = req.response_format matches Some(f) && !(f is Text);
            let in_use = offers_tools(req) && model.tools_supported && model.format_known;
            &&& mode.emit_tool_markers == in_use
            &&& demands_any_call(req) || demands_call_of(req, i) ==> mode.bare_json_tool_call
                && mode.json_object && !mode.use_parser
            &&& demands_no_call(req) ==> !mode.bare_json_tool_call && mode.json_object == json
                && mode.use_parser == in_use
        }),
{
    reveal_strlit("none");
    reveal_strlit("required");
    assert("none"@.len() == 4);
    assert("required"@.len() == 8);
    match req.tools {
        Some(ts) => {
            let all = views(ts@);
            match req.tool_choice {
                Some(ToolChoice::Named(n)) => {
                    assert forall|k: int| 0 <= k < all.len() implies (#[trigger] all[k]).name
                        == ts@[k].function.name@ by {
                        assert(all[k] == ts@[k]@);
                    }
                    if demands_call_of(req, i) {
                        lemma_tool_named(all, n.function.name@, i);
                    }
                    if demands_no_call(req) {
                        lemma_tool_named(all, n.function.name@, all.len() as int);
                    }
                },
                _ => {},
            }
        },
        None => {},
    }
}

// ── The generation request ───────────────────────────────────────────────────

/// These texts are the stop sequences of the request, in order.
pub open spec fn are_stops(stop: Seq<String>, given: Option<StopSequences>) -> bool {
    match given {
        None => stop.len() == 0,
        Some(StopSequences::One(t)) => stop.len() == 1 && stop[0]@ == t@,
        Some(StopSequences::Many(ts)) => stop.len() == ts@.len() && forall|i: int|
            0 <= i < stop.len() ==> (#[trigger] stop[i])@ == ts@[i]@,
    }
}

/// A choice in the engine's form is this choice of a request: a mode other than
/// `none` and `required` leaves the model free.
pub open spec fn is_choice(n: Option<NormalizedToolChoice>, given: Option<ToolChoice>) -> bool {
    match given {
        None => n is None,
        Some(ToolChoice::Named(c)) => n matches Some(NormalizedToolChoice::Named(name)) && name@
            == c.function.name@,
        Some(ToolChoice::Mode(m)) => if m@ == "none"@ {
            n == Some(NormalizedToolChoice::Never)
        } else if m@ == "required"@ {
            n == Some(NormalizedToolChoice::Required)
        } else {
            n == Some(NormalizedToolChoice::Auto)
        },
    }
}

/// A format in the engine's form is this format of a request.
pub open spec fn is_format(n: Option<NormalizedResponseFormat>, given: Option<ResponseFormat>) -> bool {
    match given {
        None => n is None,
        Some(ResponseFormat::Text) => n == Some(NormalizedResponseFormat::Text),
        Some(ResponseFormat::JsonObject) => n == Some(NormalizedResponseFormat::JsonObject),
        Some(ResponseFormat::JsonSchema { json_schema }) => n matches Some(
            NormalizedResponseFormat::JsonSchema { name, strict, schema },
        ) && name@ == json_schema.name@ && strict == json_schema.strict && schema@
            == json_schema.schema@,
    }
}

/// Tools in the engine's form are these tools of a request; an empty list is none.
pub open spec fn are_tools(n: Option<Vec<NormalizedTool>>, given: Option<Vec<Tool>>) -> bool {
    match given {
        None => n is None,
        Some(ts) => if ts@.len() == 0 {
            n is None
        } else {
            n matches Some(ns) && ns@.len() == ts@.len() && forall|i: int|
                0 <= i < ts@.len() ==> {
                    &&& (#[trigger] ns@[i]).name@ == ts@[i].function.name@
                    &&& opt_view(ns@[i].description) == opt_view(ts@[i].function.description)
                    &&& ns@[i].schema@ == ts@[i].function.parameters@
                }
        },
    }
}

/// What a client sets in a chat request and what was worked out for it stand in the
/// generation request, each under its own name.
pub proof fn law_settings_reach_the_engine(
    req: ChatCompletionsRequest,
    p: Prepared,
    r: GenerationRequest,
)
    requires
        call_ensures(make_generation_request, (&req, p), r),
    ensures
        r.model_id@ == req.model@,
        r.prompt_tokens@ == p.prompt_tokens@,
        r.prompt_think_open == p.prompt_think_open,
        r.max_tokens == p.max_tokens,
        r.sampling.temperature == p.sampling.temperature,
        r.sampling.top_p == p.sampling.top_p,
        r.sampling.top_k == p.sampling.top_k,
        r.sampling.min_p == p.sampling.min_p,
        r.sampling.repetition_penalty == p.sampling.repetition_penalty,
        r.sampling.frequency_penalty == p.sampling.frequency_penalty,
        r.sampling.presence_penalty == p.sampling.presence_penalty,
        r.sampling.logit_bias@ == p.sampling.logit_bias@,
        r.sampling.seed == p.sampling.seed,
        r.sampling.top_logprobs_k == p.top_logprobs_k,
        are_stops(r.stop@, req.stop),
        r.stream == req.stream,
        opt_view(r.system) == first_system(views(req.messages@)),
        opt_view(r.session_id) == opt_view(p.session_id),
        r.effective_prompt_cache_slots == p.effective_prompt_cache_slots,
        r.has_constraint == p.has_constraint,
        r.thinking_budget == req.thinking_budget,
        r.thinking_end_token_id == p.thinking_end_token_id,
        r.enable_thinking == p.enable_thinking,
        r.emit_tool_markers == p.emit_tool_markers,
        opt_view(r.thinking_start_token) == opt_view(req.thinking_start_token),
        opt_view(r.thinking_end_token) == opt_view(req.thinking_end_token),
        r.kv_quant_override == p.kv_quant_override,
        r.max_ctx_override == req.max_ctx,
        views(r.images@) == user_images(views(req.messages@)),
        views(r.audio_b64@) == user_audio(views(req.messages@)),
        req.image_max_tokens matches Some(n) ==> r.image_max_tokens == Some(n as usize),
        req.image_max_tokens is None ==> r.image_max_tokens == p.default_image_max_tokens,
{
    lemma_stops(r.stop@, req.stop);
}

proof fn lemma_stops(stop: Seq<String>, given: Option<StopSequences>)
    requires
        views(stop) == request_stops(given),
    ensures
        are_stops(stop, given),
{
    assert(views(stop).len() == stop.len());
    assert forall|i: int| 0 <= i < stop.len() implies views(stop)[i] == (#[trigger] stop[i])@ by {}
}

/// A number is taken from the request, else from the server, else from the model,
/// else it is the fixed one.
pub open spec fn is_first<T>(
    v: T,
    request: Option<T>,
    server: Option<T>,
    model: Option<T>,
    fixed: T,
) -> bool {
    &&& request matches Some(x) ==> v == x
    &&& request is None && server is Some ==> Some(v) == server
    &&& request is None && server is None && model is Some ==> Some(v) == model
    &&& request is None && server is None && model is None ==> v == fixed
}

/// A request is served as a client sent it: every setting of the client is found
/// under its own name, and what the client left open is the server's or the model's
/// default. The temperature, the nucleus, the cutoff and the repetition penalty have a
/// default of the model's, the temperature also one of the server's; one stands for no
/// change of probabilities, zero for no cutoff and no penalty.
pub open spec fn served_as_sent(
    r: GenerationRequest,
    req: ChatCompletionsRequest,
    model: ModelFacts,
    settings: ServerSettings,
) -> bool {
    let d = match model.generation_defaults {
        Some(d) => d,
        None => GenerationConfig {
            temperature: None,
            top_p: None,
            top_k: None,
            repetition_penalty: None,
            max_new_tokens: None,
        },
    };
    let one = F32 { bits: 0x3f80_0000 };
    let zero = F32 { bits: 0 };
    &&& r.model_id@ == req.model@
    &&& r.max_tokens == match req.max_tokens {
        Some(n) => n,
        None => 512,
    }
    &&& are_stops(r.stop@, req.stop)
    &&& r.stream == req.stream
    &&& opt_view(r.system) == first_system(views(req.messages@))
    &&& are_tools(r.tools, req.tools)
    &&& is_choice(r.tool_choice, req.tool_choice)
    &&& is_format(r.response_format, req.response_format)
    &&& r.thinking_budget == req.thinking_budget
    &&& r.enable_thinking == if req.enable_thinking is Some {
        req.enable_thinking
    } else {
        settings.default_enable_thinking
    }
    &&& r.emit_tool_markers == (offers_tools(req) && model.tools_supported && model.format_known)
    &&& opt_view(r.thinking_start_token) == opt_view(req.thinking_start_token)
    &&& opt_view(r.thinking_end_token) == opt_view(req.thinking_end_token)
    &&& r.max_ctx_override == req.max_ctx
    &&& views(r.images@) == user_images(views(req.messages@))
    &&& views(r.audio_b64@) == user_audio(views(req.messages@))
    &&& r.image_max_tokens == match req.image_max_tokens {
        Some(n) => Some(n as usize),
        None => settings.default_image_max_tokens,
    }
    &&& is_first(
        r.sampling.temperature,
        req.temperature,
        settings.default_temperature,
        d.temperature,
        one,
    )
    &&& is_first(r.sampling.top_p, req.top_p, None, d.top_p, one)
    &&& is_first(r.sampling.top_k, req.top_k, None, d.top_k, 0)
    &&& is_first(r.sampling.min_p, req.min_p, None, None, zero)
    &&& is_first(
        r.sampling.repetition_penalty,
        req.repetition_penalty,
        None,
        d.repetition_penalty,
        one,
    )
    &&& is_first(r.sampling.frequency_penalty, req.frequency_penalty, None, None, zero)
    &&& is_first(r.sampling.presence_penalty, req.presence_penalty, None, None, zero)
    &&& r.sampling.seed == req.seed
    &&& are_biases(r.sampling.logit_bias@, req.logit_bias)
    &&& r.sampling.top_logprobs_k == if req.logprobs != Some(true) {
        0
    } else if req.top_logprobs matches Some(n) && n > 0 {
        req.top_logprobs->0
    } else {
        1
    }
}

/// These are the biases of the request, in order: each under the token id that its key
/// says in decimal.
pub open spec fn are_biases(b: Seq<(u32, F32)>, given: Option<Vec<BiasEntry>>) -> bool {
    match given {
        None => b.len() == 0,
        Some(es) => b.len() == es@.len() && forall|i: int|
            0 <= i < es@.len() ==> (#[trigger] b[i]).1 == es@[i].bias && forall|id: u32|
                es@[i].key@ == #[trigger] decimal(id as nat) ==> b[i].0 == id,
    }
}

/// What was worked out for a request whose prompt was made is the request as it was
/// sent, with that prompt.
pub proof fn law_request_is_served_as_sent(
    req: ChatCompletionsRequest,
    model: ModelFacts,
    settings: ServerSettings,
    prompt: MadePrompt,
    kv_quant: Option<KvQuant>,
    session_id: Option<Seq<char>>,
    slots: Option<usize>,
    end_token_id: Option<u32>,
    has_constraint: bool,
    r: GenerationRequest,
)
    requires
        r@ == planned_request(
            req,
            model,
            settings,
            prompt,
            kv_quant,
            session_id,
            slots,
            end_token_id,
            has_constraint,
        ),
    ensures
        served_as_sent(r, req, model, settings),
        r.prompt_tokens@ == prompt.tokens@,
        r.prompt_think_open == prompt.think_open,
        opt_view(r.session_id) == session_id,
        r.effective_prompt_cache_slots == slots,
        r.has_constraint == has_constraint,
        r.thinking_end_token_id == end_token_id,
        r.kv_quant_override == kv_quant,
{
    lemma_stops(r.stop@, req.stop);
    reveal_strlit("none");
    reveal_strlit("required");
    assert("none"@.len() == 4);
    assert("required"@.len() == 8);
    match req.tools {
        Some(ts) => {
            if ts@.len() > 0 {
                let ns = r.tools->0;
                assert forall|i: int| 0 <= i < ts@.len() implies {
                    &&& (#[trigger] ns@[i]).name@ == ts@[i].function.name@
                    &&& opt_view(ns@[i].description) == opt_view(ts@[i].function.description)
                    &&& ns@[i].schema@ == ts@[i].function.parameters@
                } by {
                    assert(views(ns@)[i] == ns@[i]@);
                    assert(views(ts@)[i] == ts@[i]@);
                }
                assert(views(ns@).len() == ns@.len());
                assert(views(ts@).len() == ts@.len());
            }
        },
        None => {},
    }
    lemma_biases(r.sampling.logit_bias@, req.logit_bias);
}

proof fn lemma_biases(b: Seq<(u32, F32)>, given: Option<Vec<BiasEntry>>)
    requires
        b == biases(bias_entries(given)),
    ensures
        are_biases(b, given),
{
    match given {
        Some(es) => {
            assert forall|i: int| 0 <= i < es@.len() implies (#[trigger] b[i]).1 == es@[i].bias
                && forall|id: u32|
                es@[i].key@ == #[trigger] decimal(id as nat) ==> b[i].0 == id by {
                assert forall|id: u32| es@[i].key@ == #[trigger] decimal(id as nat) implies b[i].0
                    == id by {
                    law_decimal_round_trip(id as nat);
                }
            }
        },
        None => {},
    }
}

/// What is worked out for an accepted request before its prompt is made: the
/// messages and tools that the template is rendered with are the request's own, in
/// order, under the request's thinking setting, else the server's.
pub proof fn law_template_gets_the_conversation(
    a: Accepted,
    req: ChatCompletionsRequest,
    kv_quant: Option<KvQuant>,
    over_bounds: Option<Reply>,
    settings: ServerSettings,
    model: ModelFacts,
    i: int,
)
    requires
        call_ensures(
            accept_request,
            (&req, Ok(kv_quant), over_bounds, &settings, Some(model)),
            Ok(a),
        ),
    ensures
        a.kv_quant == kv_quant,
        a.messages@.len() == req.messages@.len(),
        0 <= i < req.messages@.len() ==> a.messages@[i]@ == template_message(req.messages@[i]@),
        are_tools(a.tools, req.tools),
        is_choice(a.tool_choice, req.tool_choice),
        !(offers_tools(req) && model.tools_supported) ==> a.jinja_tools@.len() == 0,
        offers_tools(req) && model.tools_supported ==> {
            &&& a.jinja_tools@.len() == req.tools->0@.len()
            &&& 0 <= i < a.jinja_tools@.len() ==> a.jinja_tools@[i]@ == template_tool(
                req.tools->0@[i]@,
            )
        },
        req.enable_thinking is Some ==> a.enable_thinking == req.enable_thinking,
        req.enable_thinking is None ==> a.enable_thinking == settings.default_enable_thinking,
        are_biases(a.sampling.logit_bias@, req.logit_bias),
        a.sampling.top_logprobs_k == if req.logprobs != Some(true) {
            0
        } else if req.top_logprobs matches Some(n) && n > 0 {
            req.top_logprobs->0
        } else {
            1
        },
{
    lemma_biases(a.sampling.logit_bias@, req.logit_bias);
    reveal_strlit("none");
    reveal_strlit("required");
    assert("none"@.len() == 4);
    assert("required"@.len() == 8);
    assert(views(a.messages@).len() == a.messages@.len());
    assert(views(a.jinja_tools@).len() == a.jinja_tools@.len());
    if 0 <= i < a.messages@.len() {
        assert(views(a.messages@)[i] == a.messages@[i]@);
    }
    if 0 <= i < a.jinja_tools@.len() {
        assert(views(a.jinja_tools@)[i] == a.jinja_tools@[i]@);
    }
    match req.tools {
        Some(ts) => {
            assert(views(ts@).len() == ts@.len());
            if 0 <= i < ts@.len() {
                assert(views(ts@)[i] == ts@[i]@);
            }
            if ts@.len() > 0 {
                let ns = a.tools->0;
                assert(views(ns@).len() == ns@.len());
                assert forall|k: int| 0 <= k < ts@.len() implies {
                    &&& (#[trigger] ns@[k]).name@ == ts@[k].function.name@
                    &&& opt_view(ns@[k].description) == opt_view(ts@[k].function.description)
                    &&& ns@[k].schema@ == ts@[k].function.parameters@
                } by {
                    assert(views(ns@)[k] == ns@[k]@);
                    assert(views(ts@)[k] == ts@[k]@);
                }
            }
        },
        None => {},
    }
}

/// The media of a conversation that goes on are those of the conversation so far,
/// and behind them those of the new message, if that is a user message of parts.
pub proof fn law_media_grow_with_the_conversation(
    ms: Vec<ChatMessage>,
    longer: Vec<ChatMessage>,
    before: (Vec<String>, Vec<String>),
    after: (Vec<String>, Vec<String>),
)
    requires
        longer@.len() > 0,
        ms@ == longer@.drop_last(),
        call_ensures(user_media, (&ms,), before),
        call_ensures(user_media, (&longer,), after),
    ensures
        ms@.len() == 0 ==> before.0@.len() == 0 && before.1@.len() == 0,
        ({
            let m = longer@.last();
            let parts = if m.role@ == "user"@ {
                match m.content {
                    Some(MessageContent::Parts(ps)) => views(ps@),
                    _ => Seq::empty(),
                }
            } else {
                Seq::empty()
            };
            &&& views(after.0@) == views(before.0@) + parts_images(parts)
            &&& views(after.1@) == views(before.1@) + parts_audio(parts)
        }),
{
    law_user_messages_add_their_media(ms@, longer@.last());
    assert(ms@.push(longer@.last()) =~= longer@);
    if ms@.len() == 0 {
        assert(views(ms@) =~= Seq::empty());
        assert(views(before.0@).len() == before.0@.len());
        assert(views(before.1@).len() == before.1@.len());
    }
    assert(views(before.0@) + Seq::<Seq<char>>::empty() =~= views(before.0@));
    assert(views(before.1@) + Seq::<Seq<char>>::empty() =~= views(before.1@));
}

/// The constraint that is planned for a schema or a demanded call holds that very
/// schema; a schema of the request's own keeps its strictness.
pub proof fn law_planned_constraint_holds_the_schema(
    demanded: Option<Json>,
    format: Option<NormalizedResponseFormat>,
    has_tokenizer: bool,
    c: ConstraintPlan,
)
    requires
        call_ensures(plan_constraint, (demanded, &format, has_tokenizer), c),
    ensures
        demanded matches Some(d) ==> if has_tokenizer {
            c matches ConstraintPlan::ToolChoice { schema } && schema@ == d@
        } else {
            c is Unconstrained
        },
        demanded is None ==> match format {
            None => c is Unconstrained,
            Some(NormalizedResponseFormat::Text) => c is Unconstrained,
            Some(NormalizedResponseFormat::JsonObject) => if has_tokenizer {
                c is JsonObject
            } else {
                c is NoOp
            },
            Some(NormalizedResponseFormat::JsonSchema { name, strict, schema }) => {
                if has_tokenizer {
                    c matches ConstraintPlan::Schema { schema: planned, strict: planned_strict }
                        && planned@ == schema@ && planned_strict == strict
                } else {
                    c is NoOp
                }
            },
        },
{
}

/// A request that goes through is served as it was sent: what `accept_prompt` plans
/// and `accept_constraint` completes holds the client's settings, the prompt that was
/// made and the constraint that the request demands.
pub proof fn law_accepted_request_is_served_as_sent(
    req: ChatCompletionsRequest,
    accepted: Accepted,
    prompt: MadePrompt,
    settings: ServerSettings,
    model: ModelFacts,
    sessions: &mut SessionCache,
    session_id: Option<String>,
    end_token_id: Option<u32>,
    plan: Planned,
    failure: Option<SchemaFailure>,
    ready: Ready,
    i: int,
)
    requires
        call_ensures(
            accept_prompt,
            (
                &req,
                accepted,
                Ok(prompt),
                &settings,
                &model,
                sessions,
                session_id,
                end_token_id,
            ),
            Ok(plan),
        ),
        call_ensures(accept_constraint, (&req, plan, failure), Ok(ready)),
    ensures
        served_as_sent(ready.request, req, model, settings),
        ready.request.prompt_tokens@ == prompt.tokens@,
        ready.request.prompt_think_open == prompt.think_open,
        opt_view(ready.request.session_id) == opt_view(session_id),
        ready.request.thinking_end_token_id == end_token_id,
        ready.request.kv_quant_override == accepted.kv_quant,
        ready.request.max_tokens <= settings.max_tokens_cap,
        session_id is None || settings.prompt_cache_slots == 0
            ==> ready.request.effective_prompt_cache_slots is None,
        session_id is Some && settings.prompt_cache_slots > 0 && settings.prompt_cache_slots
            + final(sessions)@.sessions.len() <= usize::MAX
            ==> ready.request.effective_prompt_cache_slots == Some(
            (settings.prompt_cache_slots + final(sessions)@.sessions.len()) as usize,
        ),
        plan.constraint@ == request_constraint(req, model),
        plan.mode == request_mode(req, model),
        ready.mode == plan.mode,
        !(plan.constraint is Schema && failure is Some),
        ready.request.has_constraint == match plan.constraint {
            ConstraintPlan::Unconstrained => false,
            ConstraintPlan::ToolChoice { .. } => failure is None,
            _ => true,
        },
        ready.thinking_signal == (ready.request.has_constraint && !(plan.constraint is NoOp)
            && !plan.mode.bare_json_tool_call),
{
    let slots = ready.request.effective_prompt_cache_slots;
    law_request_is_served_as_sent(
        req,
        model,
        settings,
        prompt,
        accepted.kv_quant,
        opt_view(session_id),
        slots,
        end_token_id,
        ready.request.has_constraint,
        ready.request,
    );
}

/// The system prompt of a conversation is the text of its first system message; without
/// one there is none. `i` is the place of that message.
pub proof fn law_system_prompt_is_found(ms: Vec<ChatMessage>, r: Option<String>, i: int)
    requires
        call_ensures(system_prompt, (&ms,), r),
        0 <= i <= ms@.len(),
        forall|k: int| 0 <= k < i ==> (#[trigger] ms@[k]).role@ != "system"@,
    ensures
        i == ms@.len() ==> r is None,
        i < ms@.len() && ms@[i].role@ == "system"@ ==> (r matches Some(t) && t@ == (
        match ms@[i].content {
            Some(MessageContent::Text(c)) => c@,
            Some(MessageContent::Parts(ps)) => parts_text(views(ps@)),
            None => Seq::empty(),
        })),
{
    law_system_prompt_is_the_first(ms@, i);
}

/// Formats, choices, tools and stop sequences of a request take the engine's form
/// without a change of what they say.
pub proof fn law_settings_are_normalized(
    f: ResponseFormat,
    nf: NormalizedResponseFormat,
    c: ToolChoice,
    nc: NormalizedToolChoice,
    ts: Option<Vec<Tool>>,
    nts: Option<Vec<NormalizedTool>>,
    s: StopSequences,
    stops: Vec<String>,
)
    requires
        call_ensures(normalize_response_format, (&f,), nf),
        call_ensures(normalize_tool_choice, (&c,), nc),
        call_ensures(normalize_tools, (&ts,), nts),
        call_ensures(StopSequences::into_vec, (s,), stops),
    ensures
        is_format(Some(nf), Some(f)),
        is_choice(Some(nc), Some(c)),
        are_tools(nts, ts),
        are_stops(stops@, Some(s)),
{
    reveal_strlit("none");
    reveal_strlit("required");
    assert("none"@.len() == 4);
    assert("required"@.len() == 8);
    lemma_stops(stops@, Some(s));
    match ts {
        Some(v) => {
            assert(views(v@).len() == v@.len());
            if v@.len() > 0 {
                let ns = nts->0;
                assert(views(ns@).len() == ns@.len());
                assert forall|k: int| 0 <= k < v@.len() implies {
                    &&& (#[trigger] ns@[k]).name@ == v@[k].function.name@
                    &&& opt_view(ns@[k].description) == opt_view(v@[k].function.description)
                    &&& ns@[k].schema@ == v@[k].function.parameters@
                } by {
                    assert(views(ns@)[k] == ns@[k]@);
                    assert(views(v@)[k] == v@[k]@);
                }
            }
        },
        None => {},
    }
}

/// The schema of a tool choice admits calls of the tools that it allows and nothing
/// else: of the first tool of the name, or of each tool where some call is required. A
/// choice that leaves the model free, and a name that no tool has, demand none. `i` is
/// the place of the first tool of the name.
pub proof fn law_choice_demands_its_tools(
    choice: NormalizedToolChoice,
    ts: Vec<NormalizedTool>,
    r: Option<Json>,
    i: int,
)
    requires
        call_ensures(tool_choice_to_schema, (&choice, &ts), r),
        0 <= i <= ts@.len(),
        choice matches NormalizedToolChoice::Named(name) ==> {
            &&& forall|k: int| 0 <= k < i ==> (#[trigger] ts@[k]).name@ != name@
            &&& i < ts@.len() ==> ts@[i].name@ == name@
        },
    ensures
        match choice {
            NormalizedToolChoice::Auto => r is None,
            NormalizedToolChoice::Never => r is None,
            NormalizedToolChoice::Named(_) => if i < ts@.len() {
                r matches Some(j) && admits_only(j@, ts@[i].name@, ts@[i].schema@)
            } else {
                r is None
            },
            NormalizedToolChoice::Required => if ts@.len() == 0 {
                r is None
            } else {
                r matches Some(j) && (get(j@, "oneOf"@) matches Some(JsonV::Array(branches)) && {
                    &&& member_count(j@) == 1
                    &&& branches.len() == ts@.len()
                    &&& i < ts@.len() ==> admits_only(branches[i], ts@[i].name@, ts@[i].schema@)
                })
            },
        },
{
    broadcast use law_member_reads_back;

    let all = views(ts@);
    assert(all.len() == ts@.len());
    assert forall|k: int| 0 <= k < all.len() implies (#[trigger] all[k]).name == ts@[k].name@ by {
        assert(all[k] == ts@[k]@);
    }
    if i < ts@.len() {
        assert(all[i] == ts@[i]@);
        lemma_admits_only(ts@[i]@);
    }
    match choice {
        NormalizedToolChoice::Named(name) => {
            lemma_tool_named(all, name@, i);
        },
        _ => {},
    }
}

/// A template that can render tools gets all of them, in order; the output is treated by
/// what is demanded, rendered and known; a schema is demanded only where there are
/// tools.
pub proof fn law_tools_decide_the_output(
    ts: Option<Vec<NormalizedTool>>,
    supported: bool,
    rendered: Vec<Json>,
    demanded: bool,
    known: bool,
    format: Option<NormalizedResponseFormat>,
    mode: OutputMode,
    choice: Option<NormalizedToolChoice>,
    schema: Option<Json>,
    i: int,
)
    requires
        call_ensures(jinja_tools, (&ts, supported), rendered),
        call_ensures(output_mode, (demanded, rendered@.len() > 0, known, &format), mode),
        call_ensures(request_schema, (&choice, &ts), schema),
    ensures
        !supported || ts is None ==> rendered@.len() == 0,
        supported && ts is Some ==> rendered@.len() == ts->0@.len() && (0 <= i < rendered@.len()
            ==> rendered@[i]@ == template_tool(ts->0@[i]@)),
        mode.bare_json_tool_call == demanded,
        mode.json_object == (demanded || (format matches Some(f) && !(f is Text))),
        mode.use_parser == (!demanded && rendered@.len() > 0 && known),
        mode.emit_tool_markers == (rendered@.len() > 0 && known),
        choice is None || ts is None || (ts matches Some(v) && v@.len() == 0) ==> schema is None,
        choice matches Some(NormalizedToolChoice::Auto) ==> schema is None,
        choice matches Some(NormalizedToolChoice::Never) ==> schema is None,
        choice matches Some(NormalizedToolChoice::Required) && ts is Some && ts->0@.len() > 0
            ==> schema is Some,
{
    assert(views(rendered@).len() == rendered@.len());
    if 0 <= i < rendered@.len() {
        assert(views(rendered@)[i] == rendered@[i]@);
    }
    match ts {
        Some(v) => {
            assert(views(v@).len() == v@.len());
            if 0 <= i < v@.len() {
                assert(views(v@)[i] == v@[i]@);
            }
        },
        None => {},
    }
}

} // verus!
