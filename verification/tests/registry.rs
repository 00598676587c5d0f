use std::sync::Arc;

use chatbang::json::Json;
use chatbang::tools::builtins::{register_all, BuiltinTool};
use chatbang::tools::error::ToolError;
use chatbang::tools::prompt::generate_system_prompt;
use chatbang::tools::registry::{ToolDefinition, ToolRegistry};
use chatbang::tools::schema::{InstanceType, ObjectRules, ParamSchema, PropertySchema, TypeSpec};

fn string_field_schema(title: &str, field: &str) -> ParamSchema {
    ParamSchema {
        text: format!(
            "{{\"$schema\":\"http://json-schema.org/draft-07/schema#\",\"title\":\"{}\",\"type\":\"object\",\"required\":[\"{}\"],\"properties\":{{\"{}\":{{\"type\":\"string\"}}}}}}",
            title, field, field
        ),
        instance_type: Some(TypeSpec::Single(InstanceType::Object)),
        object: Some(ObjectRules {
            required: vec![field.to_string()],
            properties: vec![(
                field.to_string(),
                PropertySchema::Typed(Some(TypeSpec::Single(InstanceType::String))),
            )],
        }),
    }
}

fn ping_definition() -> ToolDefinition {
    ToolDefinition {
        name: "ping".into(),
        description: "ping the user".into(),
        parameters: string_field_schema("PingArgs", "msg"),
    }
}

fn echo_definition() -> ToolDefinition {
    ToolDefinition {
        name: "echo".into(),
        description: "echoes back the message".into(),
        parameters: string_field_schema("EchoArgs", "message"),
    }
}

fn make_registry() -> ToolRegistry<String> {
    let mut r: ToolRegistry<String> = ToolRegistry::new();
    r.register(echo_definition(), "echo tool".to_string());
    r
}

fn args_object(members: Vec<(&str, Json)>) -> Json {
    Json::Object(members.into_iter().map(|(k, v)| (k.to_string(), v)).collect())
}

#[test]
fn prompt_includes_registered_tool() {
    let mut reg: ToolRegistry<String> = ToolRegistry::new();
    reg.register(ping_definition(), "pong".to_string());
    let p = generate_system_prompt(&reg);
    assert!(p.contains("ping"));
    assert!(p.contains("ping the user"));
    assert!(p.contains("msg"));
}

#[test]
fn prompt_changes_when_tool_added() {
    let mut reg: ToolRegistry<String> = ToolRegistry::new();
    let before = generate_system_prompt(&reg);
    assert!(before.contains("No tools"));
    reg.register(ping_definition(), "pong".to_string());
    let after = generate_system_prompt(&reg);
    assert!(!after.contains("No tools"));
    assert!(after.contains("ping"));
}

#[test]
fn prompt_changes_when_tool_removed() {
    let mut reg: ToolRegistry<String> = ToolRegistry::new();
    reg.register(ping_definition(), "pong".to_string());
    let with = generate_system_prompt(&reg);
    assert!(with.contains("ping"));
    let empty: ToolRegistry<String> = ToolRegistry::new();
    let without = generate_system_prompt(&empty);
    assert!(!without.contains("ping —"));
}

#[test]
fn prompt_lists_tools_in_name_order_with_schema_lines() {
    let mut reg: ToolRegistry<String> = ToolRegistry::new();
    reg.register(ping_definition(), "pong".to_string());
    reg.register(echo_definition(), "echo".to_string());
    let p = generate_system_prompt(&reg);
    assert!(p.starts_with("[SYSTEM — read carefully before responding]\n"));
    assert!(p.ends_with("\n[END SYSTEM]\n\n"));
    let echo_at = p.find("  echo — echoes back the message\n").unwrap();
    let ping_at = p.find("  ping — ping the user\n").unwrap();
    assert!(echo_at < ping_at);
    assert!(p.contains("Available tools:\n"));
    let schema_line = format!("    args schema: {}\n", string_field_schema("PingArgs", "msg").text);
    assert!(p.contains(&schema_line));
}

#[test]
fn empty_prompt_is_preamble_notice_and_footer() {
    let reg: ToolRegistry<String> = ToolRegistry::new();
    let p = generate_system_prompt(&reg);
    assert!(p.ends_with("\n(No tools are currently registered.)\n\n[END SYSTEM]\n\n"));
    assert!(!p.contains("Available tools:"));
}

#[test]
fn clone_shares_state() {
    let r = make_registry();
    let r2 = r.clone();
    assert_eq!(r.len(), 1);
    assert!(r2.contains("echo"));
}

#[test]
fn clone_shares_the_same_tools() {
    let r = make_registry();
    let r2 = r.clone();
    let a = r.get("echo").unwrap();
    let b = r2.get("echo").unwrap();
    assert!(Arc::ptr_eq(a, b));
}

#[test]
fn registry_has_all_four_builtin_tools() {
    let mut reg: ToolRegistry<BuiltinTool> = ToolRegistry::new();
    register_all(&mut reg, |b| (string_field_schema("Args", "path"), Arc::new(b)));
    let defs = reg.definitions();
    let names: Vec<String> = defs.iter().map(|d| d.name.clone()).collect();
    assert!(names.contains(&"run_command".into()));
    assert!(names.contains(&"read_file".into()));
    assert!(names.contains(&"write_file".into()));
    assert!(names.contains(&"list_dir".into()));
    assert_eq!(names.len(), 4);
}

#[test]
fn builtin_definitions_come_sorted_with_their_descriptions() {
    let mut reg: ToolRegistry<BuiltinTool> = ToolRegistry::new();
    register_all(&mut reg, |b| (string_field_schema("Args", "path"), Arc::new(b)));
    let names: Vec<String> = reg.definitions().iter().map(|d| d.name.clone()).collect();
    assert_eq!(names, vec!["list_dir", "read_file", "run_command", "write_file"]);
    assert_eq!(**reg.get("read_file").unwrap(), BuiltinTool::ReadFile);
    let defs = reg.definitions();
    assert_eq!(defs[2].description, BuiltinTool::RunCommand.description());
}

#[test]
fn registering_a_name_again_replaces_and_returns_the_old_tool() {
    let mut r = make_registry();
    let old = r.register(echo_definition(), "newer echo".to_string());
    assert_eq!(old.as_deref().map(|s| s.as_str()), Some("echo tool"));
    assert_eq!(r.len(), 1);
    assert_eq!(r.get("echo").unwrap().as_str(), "newer echo");
    let none = r.register(ping_definition(), "pong".to_string());
    assert!(none.is_none());
    assert_eq!(r.len(), 2);
    assert!(!r.is_empty());
}

#[test]
fn lookup_known_tool() {
    let r = make_registry();
    let tool = r.lookup("echo").unwrap();
    assert_eq!(tool.as_str(), "echo tool");
}

#[test]
fn lookup_unknown_returns_not_found() {
    let r = make_registry();
    let err = r.lookup("missing").unwrap_err();
    assert!(matches!(err, ToolError::NotFound(ref n) if n == "missing"));
}

#[test]
fn validate_rejects_missing_required() {
    let r = make_registry();
    let err = r.prepare_call("echo", &args_object(vec![])).unwrap_err();
    match err {
        ToolError::InvalidArgs(m) => assert_eq!(m, "missing required field 'message'"),
        other => panic!("unexpected {:?}", other),
    }
}

#[test]
fn validate_rejects_wrong_type() {
    let r = make_registry();
    let err = r
        .prepare_call("echo", &args_object(vec![("message", Json::Number("42".into()))]))
        .unwrap_err();
    match err {
        ToolError::InvalidArgs(m) => assert_eq!(m, "field 'message' must be string, got number"),
        other => panic!("unexpected {:?}", other),
    }
}

#[test]
fn validate_accepts_matching_args_and_reports_unknown_first() {
    let r = make_registry();
    let ok = r.prepare_call("echo", &args_object(vec![("message", Json::Str("hi".into()))]));
    assert_eq!(ok.unwrap().as_str(), "echo tool");
    let err = r.prepare_call("nope", &Json::Null).unwrap_err();
    assert!(matches!(err, ToolError::NotFound(_)));
}

#[test]
fn null_required_field_counts_as_missing_and_non_objects_are_refused() {
    let r = make_registry();
    let err = r.prepare_call("echo", &args_object(vec![("message", Json::Null)])).unwrap_err();
    assert!(matches!(err, ToolError::InvalidArgs(ref m) if m == "missing required field 'message'"));
    let err = r.prepare_call("echo", &Json::Null).unwrap_err();
    assert!(matches!(err, ToolError::InvalidArgs(ref m) if m == "missing required field 'message'"));
    let err = r.prepare_call("echo", &Json::Array(vec![])).unwrap_err();
    assert!(matches!(err, ToolError::InvalidArgs(ref m) if m == "expected object, got array"));
}
