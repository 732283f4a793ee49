//! Request bodies: contents, tools, formats, template messages.

use rmlx_server::engine::types::{
    normalized_to_jinja_tool, NormalizedResponseFormat, NormalizedToolChoice,
};
use rmlx_server::json::{parse_json, render_json, Json};
use rmlx_server::openai::request::{
    extract_audio_parts, extract_image_parts, normalize_response_format, normalize_tool_choice,
    normalize_tools, ChatMessage, JsonSchemaSpec, MessageContent, NamedToolChoice,
    NamedToolFunction, OwnedTplMessage, RequestToolCall, RequestToolCallFunction, ResponseFormat,
    StopSequences, Tool, ToolChoice, ToolFunction,
};

fn json(text: &str) -> Json {
    parse_json(text).unwrap()
}

fn parts() -> Vec<Json> {
    vec![
        json(r#"{"type":"text","text":"one "}"#),
        json(r#"{"type":"image_url","image_url":{"url":"data:a"}}"#),
        json(r#"{"type":"input_audio","input_audio":{"data":"QUJD","format":"wav"}}"#),
        json(r#"{"type":"text","text":"two"}"#),
        json(r#"{"type":"input_image","image_url":"file:b"}"#),
        json(r#"{"type":"image_url","image_url":"not an object"}"#),
        json(r#"{"type":"text"}"#),
        json(r#"{"text":"no type"}"#),
        json("7"),
    ]
}

fn message(role: &str, content: Option<MessageContent>) -> ChatMessage {
    ChatMessage {
        role: role.to_owned(),
        content,
        tool_calls: None,
        tool_call_id: None,
        name: None,
    }
}

#[test]
fn text_of_contents() {
    assert_eq!(MessageContent::Text("a".to_owned()).as_text(), "a");
    assert_eq!(MessageContent::Parts(parts()).as_text(), "one two");
    assert_eq!(message("user", None).content_text(), "");
}

#[test]
fn media_of_contents() {
    assert_eq!(extract_image_parts(&parts()), vec!["data:a", "file:b"]);
    assert_eq!(extract_audio_parts(&parts()), vec!["QUJD"]);
}

#[test]
fn template_message_without_calls() {
    let mut m = message("tool", Some(MessageContent::Parts(parts())));
    m.tool_call_id = Some("c1".to_owned());
    m.name = Some("f".to_owned());
    let t = OwnedTplMessage::from_request(&m);
    assert_eq!(t.role, "tool");
    assert_eq!(t.content, "one two");
    assert!(t.tool_calls_json.is_none());
    assert_eq!(t.tool_call_id.as_deref(), Some("c1"));
    assert_eq!(t.name.as_deref(), Some("f"));
}

#[test]
fn template_message_with_calls() {
    let mut m = message("assistant", None);
    m.tool_calls = Some(vec![
        RequestToolCall {
            id: Some("c1".to_owned()),
            kind: Some("function".to_owned()),
            function: RequestToolCallFunction {
                name: "f".to_owned(),
                arguments: r#"{"a":1}"#.to_owned(),
            },
        },
        RequestToolCall {
            id: None,
            kind: None,
            function: RequestToolCallFunction {
                name: "g".to_owned(),
                arguments: "not json".to_owned(),
            },
        },
    ]);
    let t = OwnedTplMessage::from_request(&m);
    let calls = match t.tool_calls_json {
        Some(Json::Array(calls)) => calls,
        other => panic!("no calls: {other:?}"),
    };
    assert_eq!(calls.len(), 2);
    let function = calls[0].get("function").unwrap();
    assert_eq!(function.get_str("name"), Some("f"));
    assert_eq!(
        render_json(function.get("arguments").unwrap()),
        r#"{"a":1}"#
    );
    assert_eq!(calls[0].get_str("id"), Some("c1"));
    // Arguments that are no JSON count as none.
    assert_eq!(
        render_json(&calls[1]),
        r#"{"function":{"arguments":{},"name":"g"},"id":null,"type":"function"}"#
    );
}

#[test]
fn stop_sequences_of_each_form() {
    assert_eq!(StopSequences::One("a".to_owned()).into_vec(), vec!["a"]);
    assert_eq!(
        StopSequences::Many(vec!["a".to_owned(), "b".to_owned()]).into_vec(),
        vec!["a", "b"]
    );
}

fn tool(name: &str, parameters: &str) -> Tool {
    Tool {
        kind: "function".to_owned(),
        function: ToolFunction {
            name: name.to_owned(),
            description: Some("d".to_owned()),
            parameters: json(parameters),
        },
    }
}

#[test]
fn tools_are_normalized() {
    assert!(normalize_tools(&None).is_none());
    assert!(normalize_tools(&Some(vec![])).is_none());
    let tools = normalize_tools(&Some(vec![tool("f", r#"{"type":"object"}"#)])).unwrap();
    assert_eq!(tools.len(), 1);
    assert_eq!(tools[0].name, "f");
    assert_eq!(tools[0].description.as_deref(), Some("d"));
    assert_eq!(
        render_json(&normalized_to_jinja_tool(&tools[0])),
        r#"{"function":{"description":"d","name":"f","parameters":{"type":"object"}},"type":"function"}"#
    );
}

#[test]
fn tool_choices_are_normalized() {
    let mode = |s: &str| normalize_tool_choice(&ToolChoice::Mode(s.to_owned()));
    assert!(matches!(mode("none"), NormalizedToolChoice::Never));
    assert!(matches!(mode("required"), NormalizedToolChoice::Required));
    assert!(matches!(mode("auto"), NormalizedToolChoice::Auto));
    assert!(matches!(mode("anything"), NormalizedToolChoice::Auto));
    let named = normalize_tool_choice(&ToolChoice::Named(NamedToolChoice {
        kind: "function".to_owned(),
        function: NamedToolFunction {
            name: "f".to_owned(),
        },
    }));
    assert!(matches!(named, NormalizedToolChoice::Named(n) if n == "f"));
}

#[test]
fn formats_are_normalized() {
    assert!(matches!(
        normalize_response_format(&ResponseFormat::Text),
        NormalizedResponseFormat::Text
    ));
    assert!(matches!(
        normalize_response_format(&ResponseFormat::JsonObject),
        NormalizedResponseFormat::JsonObject
    ));
    let f = normalize_response_format(&ResponseFormat::JsonSchema {
        json_schema: JsonSchemaSpec {
            name: "n".to_owned(),
            strict: true,
            schema: json(r#"{"type":"string"}"#),
            description: None,
        },
    });
    match f {
        NormalizedResponseFormat::JsonSchema {
            name,
            strict,
            schema,
        } => {
            assert_eq!(name, "n");
            assert!(strict);
            assert_eq!(render_json(&schema), r#"{"type":"string"}"#);
        }
        other => panic!("{other:?}"),
    }
}
