//! Tool calls in the form of bare JSON.
//!
//! When a request demands a tool call, the output is constrained to JSON of the
//! shape `{"name": ..., "arguments": {...}}` instead of a model's own markers.

use vstd::prelude::*;

use crate::engine::types::{NormalizedTool, NormalizedToolChoice, ToolChoiceV, ToolV};
use crate::json::{get, get_str, json_of_text, parse_json, Json, JsonV};
use crate::openai::response::{ParsedCallV, ParsedToolCall};
use crate::text::{text_eq, text_trim, trim, views};

verus! {

// ── Reading a call ───────────────────────────────────────────────────────────

/// What a JSON value says as a tool call.
#[derive(Debug)]
pub enum BareCall {
    /// It is no tool call.
    Invalid,
    /// A call with its arguments.
    Complete { name: String, arguments: Json },
    /// A call whose arguments are JSON text inside a string.
    Encoded { name: String, text: String },
}

pub enum BareCallV {
    Invalid,
    Complete(Seq<char>, JsonV),
    Encoded(Seq<char>, Seq<char>),
}

impl View for BareCall {
    type V = BareCallV;

    open spec fn view(&self) -> BareCallV {
        match self {
            BareCall::Invalid => BareCallV::Invalid,
            BareCall::Complete { name, arguments } => BareCallV::Complete(name@, arguments@),
            BareCall::Encoded { name, text } => BareCallV::Encoded(name@, text@),
        }
    }
}

/// What a JSON value says as a tool call: it has a non-empty `name`, and its
/// `arguments` are an object or a string.
pub open spec fn bare_call(v: JsonV) -> BareCallV {
    match (get_str(v, "name"@), get(v, "arguments"@)) {
        (Some(name), Some(arguments)) if name.len() > 0 => match arguments {
            JsonV::Object(_) => BareCallV::Complete(name, arguments),
            JsonV::Str(s) => BareCallV::Encoded(name, s),
            _ => BareCallV::Invalid,
        },
        _ => BareCallV::Invalid,
    }
}

/// What a JSON value says as a tool call.
pub fn read_bare_call(v: &Json) -> (r: BareCall)
    ensures
        r@ == bare_call(v@),
{
    match v.get_str("name") {
        None => BareCall::Invalid,
        Some(name) => if name.is_empty() {
            BareCall::Invalid
        } else {
            match v.get("arguments") {
                None => BareCall::Invalid,
                Some(arguments) => match arguments {
                    Json::Object(_) => BareCall::Complete {
                        name: name.to_owned(),
                        arguments: arguments.duplicate(),
                    },
                    Json::Str(s) => BareCall::Encoded {
                        name: name.to_owned(),
                        text: s.clone(),
                    },
                    _ => BareCall::Invalid,
                },
            }
        },
    }
}

/// The name and arguments of a call whose encoded arguments read as `decoded`:
/// only an object will do.
pub open spec fn with_decoded(call: BareCallV, decoded: Option<JsonV>) -> Option<
    (Seq<char>, JsonV),
> {
    match call {
        BareCallV::Invalid => None,
        BareCallV::Complete(name, arguments) => Some((name, arguments)),
        BareCallV::Encoded(name, _) => match decoded {
            Some(JsonV::Object(ms)) => Some((name, JsonV::Object(ms))),
            _ => None,
        },
    }
}

/// The name and arguments that a text says as a tool call.
pub open spec fn bare_call_of_text(text: Seq<char>) -> Option<(Seq<char>, JsonV)> {
    match json_of_text(trim(text)) {
        None => None,
        Some(v) => {
            let call = bare_call(v);
            with_decoded(
                call,
                match call {
                    BareCallV::Encoded(_, s) => json_of_text(s),
                    _ => None,
                },
            )
        },
    }
}

/// The call with the given name and arguments, under the id `id`.
pub open spec fn identified(call: Option<(Seq<char>, JsonV)>, id: Seq<char>) -> Option<
    ParsedCallV,
> {
    match call {
        Some((name, arguments)) => Some(ParsedCallV { id, name, arguments }),
        None => None,
    }
}

/// The view of an optional call.
pub open spec fn opt_call(c: Option<ParsedToolCall>) -> Option<ParsedCallV> {
    match c {
        Some(p) => Some(p@),
        None => None,
    }
}

/// Completes a call with the arguments that were decoded from its text.
pub fn finish_bare_call(call: BareCall, decoded: Option<Json>, id: String) -> (r: Option<
    ParsedToolCall,
>)
    ensures
        opt_call(r) == identified(
            with_decoded(
                call@,
                match decoded {
                    Some(d) => Some(d@),
                    None => None,
                },
            ),
            id@,
        ),
{
    match call {
        BareCall::Invalid => None,
        BareCall::Complete { name, arguments } => Some(ParsedToolCall { id, name, arguments }),
        BareCall::Encoded { name, text: _ } => match decoded {
            Some(d) => if d.is_object() {
                Some(ParsedToolCall { id, name, arguments: d })
            } else {
                None
            },
            None => None,
        },
    }
}

/// Reads a text as a bare tool call, under the id `id`. The text must be one JSON
/// object with a non-empty `name` and with `arguments` that are an object, or a
/// string in which an object is encoded.
pub fn bare_json_to_tool_call(json: &str, id: String) -> (r: Option<ParsedToolCall>)
    ensures
        opt_call(r) == identified(bare_call_of_text(json@), id@),
{
    match parse_json(text_trim(json).as_str()) {
        None => None,
        Some(v) => {
            let call = read_bare_call(&v);
            let decoded = match &call {
                BareCall::Encoded { name: _, text } => parse_json(text.as_str()),
                _ => None,
            };
            finish_bare_call(call, decoded, id)
        },
    }
}

// ── Demanding a call ─────────────────────────────────────────────────────────

/// The schema that lets the output be a call of this tool and nothing else.
pub open spec fn call_schema(t: ToolV) -> JsonV {
    let arguments = if t.schema is Object {
        t.schema
    } else {
        JsonV::object().with("type"@, JsonV::Str("object"@))
    };
    JsonV::object().with("type"@, JsonV::Str("object"@)).with(
        "properties"@,
        JsonV::object().with(
            "name"@,
            JsonV::object().with("type"@, JsonV::Str("string"@)).with("const"@, JsonV::Str(t.name)),
        ).with("arguments"@, arguments),
    ).with(
        "required"@,
        JsonV::Array(seq![JsonV::Str("name"@)].push(JsonV::Str("arguments"@))),
    ).with("additionalProperties"@, JsonV::Bool(false))
}

/// The first tool of this name.
pub open spec fn tool_named(tools: Seq<ToolV>, name: Seq<char>) -> Option<ToolV>
    decreases tools.len(),
{
    if tools.len() == 0 {
        None
    } else if tools[0].name == name {
        Some(tools[0])
    } else {
        tool_named(tools.subrange(1, tools.len() as int), name)
    }
}

/// The schema that a tool choice demands: of the named tool, or one branch per
/// tool when a call is required. A choice that leaves the model free demands none.
pub open spec fn choice_schema(choice: ToolChoiceV, tools: Seq<ToolV>) -> Option<JsonV> {
    match choice {
        ToolChoiceV::Named(name) => match tool_named(tools, name) {
            Some(t) => Some(call_schema(t)),
            None => None,
        },
        ToolChoiceV::Required => if tools.len() == 0 {
            None
        } else {
            Some(
                JsonV::object().with(
                    "oneOf"@,
                    JsonV::Array(Seq::new(tools.len(), |i: int| call_schema(tools[i]))),
                ),
            )
        },
        ToolChoiceV::Auto => None,
        ToolChoiceV::Never => None,
    }
}

fn schema_of_call(t: &NormalizedTool) -> (r: Json)
    ensures
        r@ == call_schema(t@),
{
    let arguments = if t.schema.is_object() {
        t.schema.duplicate()
    } else {
        Json::object().with("type", Json::string("object"))
    };
    let name = Json::object().with("type", Json::string("string")).with(
        "const",
        Json::string(t.name.as_str()),
    );
    let mut required: Vec<Json> = Vec::new();
    required.push(Json::string("name"));
    required.push(Json::string("arguments"));
    proof {
        assert(views(required@) =~= seq![JsonV::Str("name"@)].push(JsonV::Str("arguments"@)));
    }
    Json::object().with("type", Json::string("object")).with(
        "properties",
        Json::object().with("name", name).with("arguments", arguments),
    ).with("required", Json::array(required)).with("additionalProperties", Json::Bool(false))
}

/// The schema that constrains the output to what the tool choice demands; `None`
/// when it demands nothing or names no tool of the list.
pub fn tool_choice_to_schema(choice: &NormalizedToolChoice, tools: &Vec<NormalizedTool>) -> (r:
    Option<Json>)
    ensures
        match r {
            Some(j) => choice_schema(choice@, views(tools@)) == Some(j@),
            None => choice_schema(choice@, views(tools@)) is None,
        },
{
    let ghost all = views(tools@);
    match choice {
        NormalizedToolChoice::Named(name) => {
            let mut i: usize = 0;
            proof {
                assert(all.subrange(0, all.len() as int) =~= all);
            }
            while i < tools.len()
                invariant
                    i <= tools@.len(),
                    all == views(tools@),
                    choice@ == ToolChoiceV::Named(name@),
                    tool_named(all, name@) == tool_named(
                        all.subrange(i as int, all.len() as int),
                        name@,
                    ),
                decreases tools@.len() - i,
            {
                proof {
                    let rest = all.subrange(i as int, all.len() as int);
                    assert(rest[0] == tools@[i as int]@);
                    assert(rest.subrange(1, rest.len() as int) =~= all.subrange(
                        i + 1,
                        all.len() as int,
                    ));
                }
                if text_eq(tools[i].name.as_str(), name.as_str()) {
                    return Some(schema_of_call(&tools[i]));
                }
                i += 1;
            }
            None
        },
        NormalizedToolChoice::Required => {
            if tools.len() == 0 {
                return None;
            }
            let mut branches: Vec<Json> = Vec::new();
            let mut i: usize = 0;
            while i < tools.len()
                invariant
                    i <= tools@.len(),
                    branches@.len() == i,
                    forall|k: int|
                        0 <= k < i ==> (#[trigger] branches@[k])@ == call_schema(tools@[k]@),
                decreases tools@.len() - i,
            {
                branches.push(schema_of_call(&tools[i]));
                i += 1;
            }
            proof {
                assert(views(branches@) =~= Seq::new(all.len(), |i: int| call_schema(all[i])));
            }
            Some(Json::object().with("oneOf", Json::array(branches)))
        },
        NormalizedToolChoice::Auto => None,
        NormalizedToolChoice::Never => None,
    }
}

// ── Laws ─────────────────────────────────────────────────────────────────────

/// A text that is an object with a name and with arguments that are an object is that
/// call, under the given id; arguments in a string count when an object is encoded
/// there. Without a name, or with other arguments, a text is no call, nor is a text that
/// is not JSON. Whitespace around it does not count.
pub proof fn law_bare_calls_are_read(
    json: &str,
    id: String,
    r: Option<ParsedToolCall>,
)
    requires
        call_ensures(bare_json_to_tool_call, (json, id), r),
    ensures
        json_of_text(trim(json@)) is None ==> r is None,
        json_of_text(trim(json@)) matches Some(v) ==> {
            let name = get_str(v, "name"@);
            let arguments = get(v, "arguments"@);
            let named = name matches Some(n) && n.len() > 0;
            &&& !named || arguments is None ==> r is None
            &&& named && arguments is Some ==> match arguments->0 {
                JsonV::Object(ms) => r matches Some(c) && c.id@ == id@ && c.name@ == name->0
                    && c.arguments@ == JsonV::Object(ms),
                JsonV::Str(t) => match json_of_text(t) {
                    Some(JsonV::Object(ms)) => r matches Some(c) && c.id@ == id@ && c.name@
                        == name->0 && c.arguments@ == JsonV::Object(ms),
                    _ => r is None,
                },
                _ => r is None,
            }
        },
{
}

/// A value is read as a call by its name and its arguments; arguments in a string are
/// completed by what was decoded from it, which must be an object.
pub proof fn law_calls_are_completed(
    v: Json,
    call: BareCall,
    decoded: Option<Json>,
    id: String,
    r: Option<ParsedToolCall>,
)
    requires
        call_ensures(read_bare_call, (&v,), call),
        call_ensures(finish_bare_call, (call, decoded, id), r),
    ensures
        call matches BareCall::Complete { name, arguments } ==> get_str(v@, "name"@) == Some(name@)
            && get(v@, "arguments"@) == Some(arguments@) && arguments@ is Object && (
        r matches Some(c) && c.id@ == id@ && c.name@ == name@ && c.arguments@ == arguments@),
        call matches BareCall::Encoded { name, text } ==> get_str(v@, "name"@) == Some(name@)
            && get(v@, "arguments"@) == Some(JsonV::Str(text@)) && (r is Some == (
        decoded matches Some(d) && d@ is Object)) && (r matches Some(c) ==> c.id@ == id@
            && c.name@ == name@ && c.arguments@ == decoded->0@),
        call is Invalid ==> r is None,
{
}

} // verus!
