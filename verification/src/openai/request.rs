//! Request bodies of the chat endpoint.

use vstd::prelude::*;
use vstd::string::StringExecFns;

use crate::engine::types::{
    NormalizedResponseFormat, NormalizedTool, NormalizedToolChoice, ResponseFormatV, ToolChoiceV,
    ToolV,
};
use crate::float32::F32;
use crate::json::{get_str, get_str2, json_of_text, opt_str_value, parse_json, Json, JsonV};
use crate::openai::errors::BiasEntry;
use crate::text::{copy_opt_text, opt_view, opt_views, text_eq, views};

verus! {

// ── Message content ──────────────────────────────────────────────────────────

/// The content of a message: a text, or parts of several types.
#[derive(Debug)]
pub enum MessageContent {
    Text(String),
    Parts(Vec<Json>),
}

pub enum ContentV {
    Text(Seq<char>),
    Parts(Seq<JsonV>),
}

impl View for MessageContent {
    type V = ContentV;

    open spec fn view(&self) -> ContentV {
        match self {
            MessageContent::Text(s) => ContentV::Text(s@),
            MessageContent::Parts(ps) => ContentV::Parts(views(ps@)),
        }
    }
}

/// The text of a part of type `text`.
pub open spec fn part_text(p: JsonV) -> Option<Seq<char>> {
    if get_str(p, "type"@) == Some("text"@) {
        get_str(p, "text"@)
    } else {
        None
    }
}

/// The image of a part: the `url` of an `image_url` part, or the bare string of
/// an `input_image` part.
pub open spec fn part_image(p: JsonV) -> Option<Seq<char>> {
    if get_str(p, "type"@) == Some("image_url"@) {
        get_str2(p, "image_url"@, "url"@)
    } else if get_str(p, "type"@) == Some("input_image"@) {
        get_str(p, "image_url"@)
    } else {
        None
    }
}

/// The audio of an `input_audio` part.
pub open spec fn part_audio(p: JsonV) -> Option<Seq<char>> {
    if get_str(p, "type"@) == Some("input_audio"@) {
        get_str2(p, "input_audio"@, "data"@)
    } else {
        None
    }
}

/// The texts of all text parts, put together.
pub open spec fn parts_text(ps: Seq<JsonV>) -> Seq<char>
    decreases ps.len(),
{
    if ps.len() == 0 {
        Seq::empty()
    } else {
        parts_text(ps.drop_last()) + match part_text(ps.last()) {
            Some(t) => t,
            None => Seq::empty(),
        }
    }
}

/// The images of all parts, in order.
pub open spec fn parts_images(ps: Seq<JsonV>) -> Seq<Seq<char>>
    decreases ps.len(),
{
    if ps.len() == 0 {
        Seq::empty()
    } else {
        match part_image(ps.last()) {
            Some(t) => parts_images(ps.drop_last()).push(t),
            None => parts_images(ps.drop_last()),
        }
    }
}

/// The audio clips of all parts, in order.
pub open spec fn parts_audio(ps: Seq<JsonV>) -> Seq<Seq<char>>
    decreases ps.len(),
{
    if ps.len() == 0 {
        Seq::empty()
    } else {
        match part_audio(ps.last()) {
            Some(t) => parts_audio(ps.drop_last()).push(t),
            None => parts_audio(ps.drop_last()),
        }
    }
}

/// The text of a content.
pub open spec fn content_text(c: ContentV) -> Seq<char> {
    match c {
        ContentV::Text(s) => s,
        ContentV::Parts(ps) => parts_text(ps),
    }
}

fn has_type(p: &Json, kind: &str) -> (r: bool)
    ensures
        r == (get_str(p@, "type"@) == Some(kind@)),
{
    match p.get_str("type") {
        Some(t) => text_eq(t, kind),
        None => false,
    }
}

/// The text of a part of type `text`.
pub fn text_of_part(p: &Json) -> (r: Option<&str>)
    ensures
        match r {
            Some(t) => part_text(p@) == Some(t@),
            None => part_text(p@) is None,
        },
{
    if has_type(p, "text") {
        p.get_str("text")
    } else {
        None
    }
}

/// The image of a part.
pub fn image_of_part(p: &Json) -> (r: Option<&str>)
    ensures
        match r {
            Some(t) => part_image(p@) == Some(t@),
            None => part_image(p@) is None,
        },
{
    if has_type(p, "image_url") {
        p.get_str2("image_url", "url")
    } else if has_type(p, "input_image") {
        p.get_str("image_url")
    } else {
        None
    }
}

/// The audio of a part.
pub fn audio_of_part(p: &Json) -> (r: Option<&str>)
    ensures
        match r {
            Some(t) => part_audio(p@) == Some(t@),
            None => part_audio(p@) is None,
        },
{
    if has_type(p, "input_audio") {
        p.get_str2("input_audio", "data")
    } else {
        None
    }
}

impl MessageContent {
    /// The text of the content; the texts of its parts put together.
    pub fn as_text(&self) -> (r: String)
        ensures
            r@ == content_text(self@),
    {
        match self {
            MessageContent::Text(s) => s.clone(),
            MessageContent::Parts(parts) => {
                let ghost all = views(parts@);
                let mut out = String::new();
                let mut i: usize = 0;
                proof {
                    assert(all.subrange(0, 0) =~= Seq::empty());
                }
                while i < parts.len()
                    invariant
                        i <= parts@.len(),
                        all == views(parts@),
                        out@ == parts_text(all.subrange(0, i as int)),
                    decreases parts@.len() - i,
                {
                    proof {
                        let next = all.subrange(0, i + 1);
                        assert(next.drop_last() =~= all.subrange(0, i as int));
                        assert(next.last() == parts@[i as int]@);
                    }
                    match text_of_part(&parts[i]) {
                        Some(t) => out.append(t),
                        None => {
                            proof {
                                assert(out@ + Seq::<char>::empty() =~= out@);
                            }
                        },
                    }
                    i += 1;
                }
                proof {
                    assert(all.subrange(0, i as int) =~= all);
                }
                out
            },
        }
    }
}

/// The images of the parts, in order.
pub fn extract_image_parts(parts: &Vec<Json>) -> (r: Vec<String>)
    ensures
        views(r@) == parts_images(views(parts@)),
{
    let ghost all = views(parts@);
    let mut out: Vec<String> = Vec::new();
    let mut i: usize = 0;
    proof {
        assert(all.subrange(0, 0) =~= Seq::empty());
        assert(views(out@) =~= Seq::empty());
    }
    while i < parts.len()
        invariant
            i <= parts@.len(),
            all == views(parts@),
            views(out@) == parts_images(all.subrange(0, i as int)),
        decreases parts@.len() - i,
    {
        proof {
            let next = all.subrange(0, i + 1);
            assert(next.drop_last() =~= all.subrange(0, i as int));
            assert(next.last() == parts@[i as int]@);
        }
        match image_of_part(&parts[i]) {
            Some(t) => {
                let ghost before = out@;
                out.push(t.to_owned());
                proof {
                    assert(views(out@) =~= views(before).push(t@));
                }
            },
            None => {},
        }
        i += 1;
    }
    proof {
        assert(all.subrange(0, i as int) =~= all);
    }
    out
}

/// The audio clips of the parts, in order.
pub fn extract_audio_parts(parts: &Vec<Json>) -> (r: Vec<String>)
    ensures
        views(r@) == parts_audio(views(parts@)),
{
    let ghost all = views(parts@);
    let mut out: Vec<String> = Vec::new();
    let mut i: usize = 0;
    proof {
        assert(all.subrange(0, 0) =~= Seq::empty());
        assert(views(out@) =~= Seq::empty());
    }
    while i < parts.len()
        invariant
            i <= parts@.len(),
            all == views(parts@),
            views(out@) == parts_audio(all.subrange(0, i as int)),
        decreases parts@.len() - i,
    {
        proof {
            let next = all.subrange(0, i + 1);
            assert(next.drop_last() =~= all.subrange(0, i as int));
            assert(next.last() == parts@[i as int]@);
        }
        match audio_of_part(&parts[i]) {
            Some(t) => {
                let ghost before = out@;
                out.push(t.to_owned());
                proof {
                    assert(views(out@) =~= views(before).push(t@));
                }
            },
            None => {},
        }
        i += 1;
    }
    proof {
        assert(all.subrange(0, i as int) =~= all);
    }
    out
}

// ── Messages ─────────────────────────────────────────────────────────────────

/// The function that a tool call in the history invoked.
#[derive(Debug)]
pub struct RequestToolCallFunction {
    pub name: String,
    /// The arguments, as JSON text.
    pub arguments: String,
}

/// A tool call in the history.
#[derive(Debug)]
pub struct RequestToolCall {
    pub id: Option<String>,
    pub kind: Option<String>,
    pub function: RequestToolCallFunction,
}

pub struct RequestCallV {
    pub id: Option<Seq<char>>,
    pub kind: Option<Seq<char>>,
    pub name: Seq<char>,
    pub arguments: Seq<char>,
}

impl View for RequestToolCall {
    type V = RequestCallV;

    open spec fn view(&self) -> RequestCallV {
        RequestCallV {
            id: opt_view(self.id),
            kind: opt_view(self.kind),
            name: self.function.name@,
            arguments: self.function.arguments@,
        }
    }
}

/// A message of the conversation.
#[derive(Debug)]
pub struct ChatMessage {
    pub role: String,
    pub content: Option<MessageContent>,
    pub tool_calls: Option<Vec<RequestToolCall>>,
    pub tool_call_id: Option<String>,
    pub name: Option<String>,
}

pub struct ChatMessageV {
    pub role: Seq<char>,
    pub content: Option<ContentV>,
    pub tool_calls: Option<Seq<RequestCallV>>,
    pub tool_call_id: Option<Seq<char>>,
    pub name: Option<Seq<char>>,
}

impl View for ChatMessage {
    type V = ChatMessageV;

    open spec fn view(&self) -> ChatMessageV {
        ChatMessageV {
            role: self.role@,
            content: opt_view(self.content),
            tool_calls: opt_views(self.tool_calls),
            tool_call_id: opt_view(self.tool_call_id),
            name: opt_view(self.name),
        }
    }
}

/// The text of a message; empty without content.
pub open spec fn message_text(m: ChatMessageV) -> Seq<char> {
    match m.content {
        Some(c) => content_text(c),
        None => Seq::empty(),
    }
}

impl ChatMessage {
    /// The text of the message; empty without content.
    pub fn content_text(&self) -> (r: String)
        ensures
            r@ == message_text(self@),
    {
        match &self.content {
            Some(c) => c.as_text(),
            None => String::new(),
        }
    }
}

// ── Messages for the template ────────────────────────────────────────────────

/// A tool call in the shape in which chat templates expect it, with arguments
/// that were read as `arguments`; without any, with none.
pub open spec fn template_call(c: RequestCallV, arguments: Option<JsonV>) -> JsonV {
    JsonV::object().with("id"@, opt_str_value(c.id)).with(
        "type"@,
        JsonV::Str(
            match c.kind {
                Some(k) => k,
                None => "function"@,
            },
        ),
    ).with(
        "function"@,
        JsonV::object().with("name"@, JsonV::Str(c.name)).with(
            "arguments"@,
            match arguments {
                Some(a) => a,
                None => JsonV::object(),
            },
        ),
    )
}

/// A tool call in the shape in which chat templates expect it. `arguments` is
/// what its argument text says; where that is not JSON, no arguments.
pub fn make_template_call(c: &RequestToolCall, arguments: Option<Json>) -> (r: Json)
    ensures
        r@ == template_call(
            c@,
            match arguments {
                Some(a) => Some(a@),
                None => None,
            },
        ),
{
    let kind: &str = match &c.kind {
        Some(k) => k.as_str(),
        None => "function",
    };
    let arguments = match arguments {
        Some(a) => a,
        None => Json::object(),
    };
    let function = Json::object().with("name", Json::string(c.function.name.as_str())).with(
        "arguments",
        arguments,
    );
    Json::object().with("id", Json::opt_string(&c.id)).with("type", Json::string(kind)).with(
        "function",
        function,
    )
}

/// Tool calls in the shape in which chat templates expect them.
pub open spec fn template_calls(cs: Seq<RequestCallV>) -> Seq<JsonV> {
    Seq::new(cs.len(), |i: int| template_call(cs[i], json_of_text(cs[i].arguments)))
}

/// A message as chat templates expect it.
#[derive(Debug)]
pub struct OwnedTplMessage {
    pub role: String,
    pub content: String,
    /// The array of tool calls.
    pub tool_calls_json: Option<Json>,
    pub tool_call_id: Option<String>,
    pub name: Option<String>,
}

pub struct TplMessageV {
    pub role: Seq<char>,
    pub content: Seq<char>,
    pub tool_calls: Option<JsonV>,
    pub tool_call_id: Option<Seq<char>>,
    pub name: Option<Seq<char>>,
}

impl View for OwnedTplMessage {
    type V = TplMessageV;

    open spec fn view(&self) -> TplMessageV {
        TplMessageV {
            role: self.role@,
            content: self.content@,
            tool_calls: match self.tool_calls_json {
                Some(j) => Some(j@),
                None => None,
            },
            tool_call_id: opt_view(self.tool_call_id),
            name: opt_view(self.name),
        }
    }
}

/// A message as chat templates expect it.
pub open spec fn template_message(m: ChatMessageV) -> TplMessageV {
    TplMessageV {
        role: m.role,
        content: message_text(m),
        tool_calls: match m.tool_calls {
            Some(cs) => Some(JsonV::Array(template_calls(cs))),
            None => None,
        },
        tool_call_id: m.tool_call_id,
        name: m.name,
    }
}

impl OwnedTplMessage {
    /// The message as chat templates expect it.
    pub fn from_request(m: &ChatMessage) -> (r: Self)
        ensures
            r@ == template_message(m@),
    {
        let tool_calls_json = match &m.tool_calls {
            None => None,
            Some(calls) => {
                let ghost cs = views(calls@);
                let mut out: Vec<Json> = Vec::new();
                let mut i: usize = 0;
                while i < calls.len()
                    invariant
                        i <= calls@.len(),
                        cs == views(calls@),
                        out@.len() == i,
                        forall|k: int|
                            0 <= k < i ==> (#[trigger] out@[k])@ == template_calls(cs)[k],
                    decreases calls@.len() - i,
                {
                    let arguments = parse_json(calls[i].function.arguments.as_str());
                    out.push(make_template_call(&calls[i], arguments));
                    i += 1;
                }
                proof {
                    assert(views(out@) =~= template_calls(cs));
                }
                Some(Json::array(out))
            },
        };
        OwnedTplMessage {
            role: m.role.clone(),
            content: m.content_text(),
            tool_calls_json,
            tool_call_id: copy_opt_text(&m.tool_call_id),
            name: copy_opt_text(&m.name),
        }
    }
}

// ── Stop sequences ───────────────────────────────────────────────────────────

/// The stop sequences of a request: one, or several.
#[derive(Debug)]
pub enum StopSequences {
    One(String),
    Many(Vec<String>),
}

/// All stop sequences.
pub open spec fn stop_list(s: StopSequences) -> Seq<Seq<char>> {
    match s {
        StopSequences::One(t) => seq![t@],
        StopSequences::Many(v) => views(v@),
    }
}

impl StopSequences {
    /// All stop sequences.
    pub fn into_vec(self) -> (r: Vec<String>)
        ensures
            views(r@) == stop_list(self),
    {
        match self {
            StopSequences::One(s) => {
                let mut out: Vec<String> = Vec::new();
                out.push(s);
                proof {
                    assert(views(out@) =~= seq![s@]);
                }
                out
            },
            StopSequences::Many(v) => v,
        }
    }
}

// ── Formats and tools ────────────────────────────────────────────────────────

/// A JSON Schema that the output is to conform to.
#[derive(Debug)]
pub struct JsonSchemaSpec {
    pub name: String,
    pub strict: bool,
    pub schema: Json,
    pub description: Option<String>,
}

/// The output format that a request asks for.
#[derive(Debug)]
pub enum ResponseFormat {
    Text,
    JsonObject,
    JsonSchema { json_schema: JsonSchemaSpec },
}

/// The engine's form of an output format.
pub open spec fn format_of(f: ResponseFormat) -> ResponseFormatV {
    match f {
        ResponseFormat::Text => ResponseFormatV::Text,
        ResponseFormat::JsonObject => ResponseFormatV::JsonObject,
        ResponseFormat::JsonSchema { json_schema } => ResponseFormatV::JsonSchema(
            json_schema.name@,
            json_schema.strict,
            json_schema.schema@,
        ),
    }
}

/// The engine's form of an output format.
pub fn normalize_response_format(f: &ResponseFormat) -> (r: NormalizedResponseFormat)
    ensures
        r@ == format_of(*f),
{
    match f {
        ResponseFormat::Text => NormalizedResponseFormat::Text,
        ResponseFormat::JsonObject => NormalizedResponseFormat::JsonObject,
        ResponseFormat::JsonSchema { json_schema } => NormalizedResponseFormat::JsonSchema {
            name: json_schema.name.clone(),
            strict: json_schema.strict,
            schema: json_schema.schema.duplicate(),
        },
    }
}

/// The function that a tool offers.
#[derive(Debug)]
pub struct ToolFunction {
    pub name: String,
    pub description: Option<String>,
    /// The JSON Schema of the arguments.
    pub parameters: Json,
}

/// A tool that the model may call.
#[derive(Debug)]
pub struct Tool {
    pub kind: String,
    pub function: ToolFunction,
}

impl View for Tool {
    type V = ToolV;

    open spec fn view(&self) -> ToolV {
        ToolV {
            name: self.function.name@,
            description: opt_view(self.function.description),
            schema: self.function.parameters@,
        }
    }
}

/// The function that is to be called.
#[derive(Debug)]
pub struct NamedToolFunction {
    pub name: String,
}

/// The tool that is to be called.
#[derive(Debug)]
pub struct NamedToolChoice {
    pub kind: String,
    pub function: NamedToolFunction,
}

/// Which tool is to be called: by a mode, or by its name.
#[derive(Debug)]
pub enum ToolChoice {
    Mode(String),
    Named(NamedToolChoice),
}

/// The engine's form of a tool choice. A mode that is not known leaves the model
/// free.
pub open spec fn choice_of(c: ToolChoice) -> ToolChoiceV {
    match c {
        ToolChoice::Mode(s) => if s@ == "none"@ {
            ToolChoiceV::Never
        } else if s@ == "required"@ {
            ToolChoiceV::Required
        } else {
            ToolChoiceV::Auto
        },
        ToolChoice::Named(n) => ToolChoiceV::Named(n.function.name@),
    }
}

/// The engine's form of a tool choice.
pub fn normalize_tool_choice(c: &ToolChoice) -> (r: NormalizedToolChoice)
    ensures
        r@ == choice_of(*c),
{
    match c {
        ToolChoice::Mode(s) => if text_eq(s.as_str(), "none") {
            NormalizedToolChoice::Never
        } else if text_eq(s.as_str(), "required") {
            NormalizedToolChoice::Required
        } else {
            NormalizedToolChoice::Auto
        },
        ToolChoice::Named(n) => NormalizedToolChoice::Named(n.function.name.clone()),
    }
}

/// The engine's form of the tools; an empty list counts as none.
pub open spec fn tools_of(tools: Option<Seq<ToolV>>) -> Option<Seq<ToolV>> {
    match tools {
        Some(ts) if ts.len() > 0 => Some(ts),
        _ => None,
    }
}

/// The engine's form of the tools; an empty list counts as none.
pub fn normalize_tools(tools: &Option<Vec<Tool>>) -> (r: Option<Vec<NormalizedTool>>)
    ensures
        opt_views(r) == tools_of(opt_views(*tools)),
{
    match tools {
        None => None,
        Some(ts) => {
            if ts.len() == 0 {
                return None;
            }
            let mut out: Vec<NormalizedTool> = Vec::new();
            let mut i: usize = 0;
            while i < ts.len()
                invariant
                    i <= ts@.len(),
                    out@.len() == i,
                    forall|k: int| 0 <= k < i ==> (#[trigger] out@[k])@ == ts@[k]@,
                decreases ts@.len() - i,
            {
                out.push(
                    NormalizedTool {
                        name: ts[i].function.name.clone(),
                        description: copy_opt_text(&ts[i].function.description),
                        schema: ts[i].function.parameters.duplicate(),
                    },
                );
                i += 1;
            }
            proof {
                assert(views(out@) =~= views(ts@));
            }
            Some(out)
        },
    }
}

// ── The request ──────────────────────────────────────────────────────────────

/// Options of a streamed response.
#[derive(Debug, Clone, Copy, PartialEq, Eq, Structural)]
pub struct StreamOptions {
    pub include_usage: bool,
}

/// Body of a chat request.
#[derive(Debug)]
pub struct ChatCompletionsRequest {
    pub model: String,
    pub messages: Vec<ChatMessage>,
    pub stream: bool,
    pub temperature: Option<F32>,
    pub max_tokens: Option<u32>,
    pub top_p: Option<F32>,
    pub seed: Option<u64>,
    pub stop: Option<StopSequences>,
    pub tools: Option<Vec<Tool>>,
    pub tool_choice: Option<ToolChoice>,
    pub response_format: Option<ResponseFormat>,
    pub top_k: Option<u32>,
    pub min_p: Option<F32>,
    pub repetition_penalty: Option<F32>,
    pub frequency_penalty: Option<F32>,
    pub presence_penalty: Option<F32>,
    /// The entries of the bias map, in the order in which they are visited.
    pub logit_bias: Option<Vec<BiasEntry>>,
    pub stream_options: Option<StreamOptions>,
    pub logprobs: Option<bool>,
    pub top_logprobs: Option<u32>,
    pub echo: Option<bool>,
    pub enable_thinking: Option<bool>,
    pub thinking_budget: Option<u32>,
    pub thinking_start_token: Option<String>,
    pub thinking_end_token: Option<String>,
    pub kv_quant: Option<String>,
    pub max_ctx: Option<i32>,
    pub image_max_tokens: Option<u32>,
    /// The names of the fields that are not known.
    pub extra: Vec<String>,
}

// ── Laws ─────────────────────────────────────────────────────────────────────

/// The text of a message is its content, or the texts of its text parts put together;
/// the images and the audio clips of parts come in the order of the parts.
pub proof fn law_content_is_read(
    m: ChatMessage,
    text: String,
    parts: Vec<Json>,
    images: Vec<String>,
    audio: Vec<String>,
)
    requires
        call_ensures(ChatMessage::content_text, (&m,), text),
        call_ensures(extract_image_parts, (&parts,), images),
        call_ensures(extract_audio_parts, (&parts,), audio),
    ensures
        m.content is None ==> text@.len() == 0,
        m.content matches Some(MessageContent::Text(t)) ==> text@ == t@,
        m.content matches Some(MessageContent::Parts(ps)) ==> text@ == parts_text(views(ps@)),
        views(images@) == parts_images(views(parts@)),
        views(audio@) == parts_audio(views(parts@)),
{
}

/// What a part is goes by its type: the `url` in the `image_url` of an `image_url` part,
/// the `image_url` of an `input_image` part, the `data` in the `input_audio` of an
/// `input_audio` part, the `text` of a `text` part. Every other part is none of these.
pub proof fn law_part_goes_by_its_type(
    p: Json,
    text: Option<&str>,
    image: Option<&str>,
    audio: Option<&str>,
)
    requires
        call_ensures(text_of_part, (&p,), text),
        call_ensures(image_of_part, (&p,), image),
        call_ensures(audio_of_part, (&p,), audio),
    ensures
        text matches Some(t) ==> get_str(p@, "type"@) == Some("text"@) && get_str(p@, "text"@)
            == Some(t@),
        get_str(p@, "type"@) == Some("text"@) && get_str(p@, "text"@) is Some ==> text is Some,
        image matches Some(u) ==> (get_str(p@, "type"@) == Some("image_url"@) && get_str2(
            p@,
            "image_url"@,
            "url"@,
        ) == Some(u@)) || (get_str(p@, "type"@) == Some("input_image"@) && get_str(
            p@,
            "image_url"@,
        ) == Some(u@)),
        get_str(p@, "type"@) == Some("image_url"@) && get_str2(p@, "image_url"@, "url"@) is Some
            ==> image is Some,
        get_str(p@, "type"@) == Some("input_image"@) && get_str(p@, "image_url"@) is Some
            ==> image is Some,
        audio matches Some(d) ==> get_str(p@, "type"@) == Some("input_audio"@) && get_str2(
            p@,
            "input_audio"@,
            "data"@,
        ) == Some(d@),
        get_str(p@, "type"@) == Some("input_audio"@) && get_str2(p@, "input_audio"@, "data"@)
            is Some ==> audio is Some,
{
    reveal_strlit("image_url");
    reveal_strlit("input_image");
    reveal_strlit("input_audio");
    reveal_strlit("text");
    assert("image_url"@.len() == 9);
    assert("input_image"@.len() == 11);
    assert("input_audio"@.len() == 11);
    assert("text"@.len() == 4);
    assert("input_image"@[6] != "input_audio"@[6]);
}

} // verus!
