use chatbang::json::Json;
use chatbang::tools::protocol::{
    parse_tool_calls, read_envelope, scan_envelopes, EnvelopeStyle, ParseError,
};

fn member<'a>(j: &'a Json, key: &str) -> Option<&'a Json> {
    j.get(key)
}

#[test]
fn parses_xml_envelope() {
    let s = r#"Here is my plan:
<tool_call>{"name": "run_command", "args": {"command": "ls"}}</tool_call>
Done."#;
    let p = parse_tool_calls(s);
    assert!(p.errors.is_empty());
    assert_eq!(p.calls.len(), 1);
    assert_eq!(p.calls[0].name, "run_command");
    assert_eq!(member(&p.calls[0].args, "command"), Some(&Json::Str("ls".into())));
}

#[test]
fn parses_fenced_tool_call() {
    let text = "```tool_call\n{\"name\":\"read_file\",\"args\":{\"path\":\"a.txt\"}}\n```";
    let p = parse_tool_calls(text);
    assert_eq!(p.calls.len(), 1);
    assert_eq!(p.calls[0].name, "read_file");
    assert!(p.errors.is_empty());
}

#[test]
fn parses_json_fenced_with_tool_key() {
    let text = "```json\n{\"tool\":\"run_command\",\"parameters\":{\"command\":\"pwd\"}}\n```";
    let p = parse_tool_calls(text);
    assert_eq!(p.calls.len(), 1);
    assert_eq!(p.calls[0].name, "run_command");
    assert_eq!(member(&p.calls[0].args, "command"), Some(&Json::Str("pwd".into())));
    assert!(p.errors.is_empty());
}

#[test]
fn no_tool_call_present() {
    let p = parse_tool_calls("just a normal answer, nothing to call");
    assert!(p.is_empty());
}

#[test]
fn malformed_json_is_structured_error() {
    let p = parse_tool_calls("<tool_call>{not json}</tool_call>");
    assert!(p.calls.is_empty());
    assert_eq!(p.errors.len(), 1);
    assert!(matches!(p.errors[0], ParseError::MalformedJson { .. }));
}

#[test]
fn missing_name_is_structured_error() {
    let p = parse_tool_calls("<tool_call>{\"args\":{}}</tool_call>");
    assert!(p.calls.is_empty());
    assert_eq!(p.errors.len(), 1);
    assert!(matches!(p.errors[0], ParseError::MissingName { .. }));
}

#[test]
fn multiple_envelopes_in_one_response() {
    let s = r#"
<tool_call>{"name":"a","args":{}}</tool_call>
some text
<tool_call>{"name":"b","args":{}}</tool_call>
"#;
    let p = parse_tool_calls(s);
    assert_eq!(p.calls.len(), 2);
    assert!(p.errors.is_empty());
    let names: Vec<&str> = p.calls.iter().map(|c| c.name.as_str()).collect();
    assert_eq!(names, vec!["a", "b"]);
}

#[test]
fn mixed_good_and_bad_envelopes() {
    let text = "\n<tool_call>{\"name\":\"a\",\"args\":{}}</tool_call>\n<tool_call>{bad}</tool_call>\n";
    let p = parse_tool_calls(text);
    assert_eq!(p.calls.len(), 1);
    assert_eq!(p.errors.len(), 1);
}

#[test]
fn args_default_to_empty_object() {
    let p = parse_tool_calls("<tool_call>{\"name\":\"ping\"}</tool_call>");
    assert_eq!(p.calls.len(), 1);
    assert!(p.calls[0].args.is_object());
    assert_eq!(p.calls[0].args, Json::Object(vec![]));
}

#[test]
fn envelopes_are_trimmed_and_empty_ones_skipped() {
    let envs = scan_envelopes("<tool_call>  \n </tool_call><tool_call>\n {\"name\":\"x\"} \n</tool_call>");
    assert_eq!(envs.len(), 1);
    assert_eq!(envs[0].body, "{\"name\":\"x\"}");
    assert_eq!(envs[0].style, EnvelopeStyle::NameKey);
}

#[test]
fn envelopes_come_by_delimiter_kind_then_position() {
    let text = "```json\n{\"tool\":\"c\"}\n```\n```tool_call\n{\"name\":\"b\"}\n```\n<tool_call>{\"name\":\"a\"}</tool_call>";
    let envs = scan_envelopes(text);
    let bodies: Vec<(&str, EnvelopeStyle)> = envs.iter().map(|e| (e.body.as_str(), e.style)).collect();
    assert_eq!(
        bodies,
        vec![
            ("{\"name\":\"a\"}", EnvelopeStyle::NameKey),
            ("{\"name\":\"b\"}", EnvelopeStyle::NameKey),
            ("{\"tool\":\"c\"}", EnvelopeStyle::ToolKey),
        ]
    );
}

#[test]
fn an_unclosed_envelope_is_not_reported() {
    let envs = scan_envelopes("<tool_call>{\"name\":\"a\"}");
    assert!(envs.is_empty());
}

#[test]
fn style_decides_which_name_key_is_tried_first() {
    let body = Json::Object(vec![
        ("name".into(), Json::Str("by_name".into())),
        ("tool".into(), Json::Str("by_tool".into())),
    ]);
    let by_name = read_envelope("raw", EnvelopeStyle::NameKey, Ok(body.clone_for_test())).unwrap().unwrap();
    assert_eq!(by_name.name, "by_name");
    let by_tool = read_envelope("raw", EnvelopeStyle::ToolKey, Ok(body)).unwrap().unwrap();
    assert_eq!(by_tool.name, "by_tool");
}

trait CloneForTest {
    fn clone_for_test(&self) -> Self;
}

impl CloneForTest for Json {
    fn clone_for_test(&self) -> Json {
        match self {
            Json::Null => Json::Null,
            Json::Bool(b) => Json::Bool(*b),
            Json::Number(n) => Json::Number(n.clone()),
            Json::Str(s) => Json::Str(s.clone()),
            Json::Array(a) => Json::Array(a.iter().map(|j| j.clone_for_test()).collect()),
            Json::Object(m) => {
                Json::Object(m.iter().map(|(k, v)| (k.clone(), v.clone_for_test())).collect())
            }
        }
    }
}

#[test]
fn non_object_body_and_non_string_name_are_errors() {
    let r = read_envelope("[1]", EnvelopeStyle::NameKey, Ok(Json::Array(vec![])));
    assert_eq!(
        r.unwrap().unwrap_err(),
        ParseError::MalformedJson {
            raw: "[1]".into(),
            reason: "expected JSON object at top level".into()
        }
    );
    let r = read_envelope(
        "{\"name\":3}",
        EnvelopeStyle::NameKey,
        Ok(Json::Object(vec![("name".into(), Json::Number("3".into()))])),
    );
    assert_eq!(r.unwrap().unwrap_err(), ParseError::MissingName { raw: "{\"name\":3}".into() });
    let r = read_envelope("{x", EnvelopeStyle::NameKey, Err("bad".into()));
    assert_eq!(
        r.unwrap().unwrap_err(),
        ParseError::MalformedJson { raw: "{x".into(), reason: "bad".into() }
    );
}

#[test]
fn json_blocks_that_name_no_tool_are_not_envelopes() {
    let p = parse_tool_calls("Config:\n```json\n{\"port\": 80}\n```");
    assert!(p.calls.is_empty());
    assert!(p.errors.is_empty());
    let p = parse_tool_calls("```json\n[1, 2]\n```\n```json\n{not json\n```");
    assert!(p.is_empty());
    assert!(read_envelope("{x", EnvelopeStyle::ToolKey, Err("bad".into())).is_none());
    let p = parse_tool_calls("```json\n{\"tool\": 5}\n```");
    assert_eq!(p.errors, vec![ParseError::MissingName { raw: "{\"tool\": 5}".into() }]);
    let p = parse_tool_calls("```json\n{\"name\": \"ping\"}\n```");
    assert_eq!(p.calls.len(), 1);
    assert_eq!(p.calls[0].name, "ping");
}

#[test]
fn decoded_numbers_keep_their_text_and_objects_their_members() {
    let p = parse_tool_calls("<tool_call>{\"name\":\"t\",\"args\":{\"b\":[1.5,true,null],\"a\":\"x\"}}</tool_call>");
    assert_eq!(
        p.calls[0].args,
        Json::Object(vec![
            ("a".into(), Json::Str("x".into())),
            ("b".into(), Json::Array(vec![Json::Number("1.5".into()), Json::Bool(true), Json::Null])),
        ])
    );
}

#[test]
fn arguments_come_from_args_then_parameters_then_input() {
    let body = Json::Object(vec![
        ("name".into(), Json::Str("t".into())),
        ("input".into(), Json::Number("1".into())),
        ("parameters".into(), Json::Number("2".into())),
    ]);
    let c = read_envelope("raw", EnvelopeStyle::NameKey, Ok(body)).unwrap().unwrap();
    assert_eq!(c.args, Json::Number("2".into()));
}
