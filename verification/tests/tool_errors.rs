use chatbang::agent::tool_call_report;
use chatbang::tools::error::ToolError;
use chatbang::tools::protocol::{parsed_errors_to_tool_errors, ParseError};

#[test]
fn kinds_are_stable() {
    assert_eq!(ToolError::NotFound("x".into()).kind(), "not_found");
    assert_eq!(ToolError::InvalidArgs("y".into()).kind(), "invalid_args");
    assert_eq!(
        ToolError::Timeout { tool: "t".into(), secs: 5 }.kind(),
        "timeout"
    );
}

#[test]
fn user_message_does_not_leak_paths() {
    let e = ToolError::ExecutionFailed("os error 2 at /etc/shadow: permission denied".into());
    let msg = e.user_message();
    assert!(msg.contains("Tool execution failed"));
    assert!(!msg.contains("/etc/shadow"));
    assert!(e.to_string().contains("/etc/shadow"));
}

#[test]
fn display_is_more_verbose_than_user_message() {
    let e = ToolError::NotFound("run_command".into());
    assert_eq!(e.to_string(), "tool not found: run_command");
    assert_eq!(e.user_message(), "Tool 'run_command' is not available.");
}

#[test]
fn every_kind_has_its_label_and_messages() {
    let cases: Vec<(ToolError, &str, &str, &str)> = vec![
        (ToolError::NotFound("a".into()), "not_found", "Tool 'a' is not available.", "tool not found: a"),
        (ToolError::InvalidArgs("b".into()), "invalid_args", "Invalid arguments: b", "invalid arguments: b"),
        (ToolError::ExecutionFailed("c".into()), "execution_failed", "Tool execution failed.", "execution failed: c"),
        (ToolError::PermissionDenied("d".into()), "permission_denied", "Permission denied.", "permission denied: d"),
        (ToolError::Timeout { tool: "e".into(), secs: 120 }, "timeout", "Tool 'e' timed out after 120s.", "tool 'e' timed out after 120s"),
        (ToolError::StreamingFailed("f".into()), "streaming_failed", "Streaming error: f", "streaming failed: f"),
    ];
    for (e, kind, user, diag) in cases {
        assert_eq!(e.kind(), kind);
        assert_eq!(e.user_message(), user);
        assert_eq!(e.to_string(), diag);
    }
}

#[test]
fn timeout_of_zero_seconds_renders_zero() {
    let e = ToolError::Timeout { tool: "t".into(), secs: 0 };
    assert_eq!(e.user_message(), "Tool 't' timed out after 0s.");
}

#[test]
fn json_and_io_errors_convert() {
    match ToolError::from_json_error("missing field `command`") {
        ToolError::InvalidArgs(m) => assert_eq!(m, "JSON error: missing field `command`"),
        other => panic!("unexpected {:?}", other),
    }
    match ToolError::from_io_error(true, "denied") {
        ToolError::PermissionDenied(m) => assert_eq!(m, "denied"),
        other => panic!("unexpected {:?}", other),
    }
    match ToolError::from_io_error(false, "No such file or directory (os error 2)") {
        ToolError::ExecutionFailed(m) => assert_eq!(m, "io: No such file or directory (os error 2)"),
        other => panic!("unexpected {:?}", other),
    }
}

#[test]
fn failed_call_is_reported_with_kind_and_scrubbed_message() {
    let out = tool_call_report(Err(ToolError::NotFound("nonexistent".into())));
    assert!(out.starts_with("[error:not_found]"));
    assert_eq!(out, "[error:not_found] Tool 'nonexistent' is not available.");
    assert_eq!(tool_call_report(Ok("fine".into())), "fine");
}

#[test]
fn parse_errors_become_invalid_args() {
    let errs = vec![
        ParseError::MissingName { raw: "{\"args\":{}}".into() },
        ParseError::MalformedJson { raw: "{bad}".into(), reason: "key must be a string".into() },
        ParseError::Unterminated { raw: "<tool_call>".into() },
    ];
    let out = parsed_errors_to_tool_errors(&errs);
    assert_eq!(out.len(), 3);
    let texts: Vec<String> = out
        .iter()
        .map(|e| match e {
            ToolError::InvalidArgs(m) => m.clone(),
            other => panic!("unexpected {:?}", other),
        })
        .collect();
    assert_eq!(
        texts[0],
        "parse: tool call is missing 'name' field (raw: \"{\\\"args\\\":{}}\")"
    );
    assert_eq!(
        texts[1],
        "parse: malformed JSON in tool call: key must be a string (raw: \"{bad}\")"
    );
    assert_eq!(
        texts[2],
        "parse: tool call block was never closed (raw: \"<tool_call>\")"
    );
}

#[test]
fn refused_permissions_hide_the_system_message() {
    let e = ToolError::from_io_error(true, "Permission denied (os error 13): /root/.ssh/id_rsa");
    assert_eq!(e.user_message(), "Permission denied.");
    assert_eq!(e.kind(), "permission_denied");
    assert!(e.to_string().contains("/root/.ssh/id_rsa"));
}
