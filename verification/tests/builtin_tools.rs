use chatbang::tools::builtins::list_dir::{format_listing, ListDirArgs, ListDirTool};
use chatbang::tools::builtins::read_file::{limit_content, ReadFileTool, DEFAULT_MAX_BYTES};
use chatbang::tools::builtins::run_command::{
    command_output, command_output_bytes, exit_note, step_failed, stream_step, timeout_error, OutputStream,
    RunCommandArgs, RunCommandTool, StreamAction, StreamEvent, DEFAULT_TIMEOUT_SECS,
};
use chatbang::tools::builtins::write_file::{write_report, WriteFileArgs, WriteFileTool};
use chatbang::tools::builtins::BuiltinTool;
use chatbang::tools::error::ToolError;

#[test]
fn tool_names_and_descriptions() {
    assert_eq!(RunCommandTool.name(), "run_command");
    assert_eq!(ReadFileTool.name(), "read_file");
    assert_eq!(WriteFileTool.name(), "write_file");
    assert_eq!(ListDirTool.name(), "list_dir");
    assert_eq!(BuiltinTool::ListDir.name(), "list_dir");
    assert!(ListDirTool.description().contains("[dir]"));
    assert_eq!(BuiltinTool::WriteFile.description(), WriteFileTool.description());
    assert!(RunCommandTool.description().starts_with("Run a shell command"));
}

#[test]
fn listing_is_sorted_and_marks_directories() {
    let entries = vec![
        ("zeta.txt".to_string(), false),
        ("src".to_string(), true),
        ("alpha".to_string(), false),
    ];
    assert_eq!(format_listing(&entries), "      alpha\n[dir] src\n      zeta.txt");
}

#[test]
fn directories_and_files_are_sorted_together_by_name() {
    let entries = vec![("b.txt".to_string(), false), ("a".to_string(), true)];
    assert_eq!(format_listing(&entries), "[dir] a\n      b.txt");
    let entries = vec![("B".to_string(), true), ("a".to_string(), false), ("A".to_string(), false)];
    assert_eq!(format_listing(&entries), "      A\n[dir] B\n      a");
}

#[test]
fn empty_dir_reports_empty() {
    assert_eq!(format_listing(&vec![]), "(empty directory)");
}

#[test]
fn listing_of_one_entry_has_no_newline() {
    assert_eq!(format_listing(&vec![("a".to_string(), true)]), "[dir] a");
}

#[test]
fn defaults_to_cwd() {
    assert_eq!(ListDirArgs { path: None }.dir(), ".");
    assert_eq!(ListDirArgs { path: Some("/tmp".into()) }.dir(), "/tmp");
}

#[test]
fn content_is_limited_to_whole_characters_within_the_byte_limit() {
    assert_eq!(limit_content("hello world".into(), Some(5)), "hello");
    assert_eq!(limit_content("hello".into(), Some(5)), "hello");
    assert_eq!(limit_content("hello".into(), None), "hello");
    assert_eq!(limit_content("héllo".into(), Some(2)), "h");
    assert_eq!(limit_content("ééé".into(), Some(2)), "é");
    assert_eq!(limit_content("éé".into(), Some(3)), "é");
    assert_eq!(limit_content("é".into(), Some(0)), "");
}

#[test]
fn content_is_limited_to_eight_kib_by_default() {
    assert_eq!(DEFAULT_MAX_BYTES, 8192);
    assert_eq!(limit_content("a".repeat(10000), None), "a".repeat(8192));
    assert_eq!(limit_content("a".repeat(8192), None), "a".repeat(8192));
}

#[test]
fn command_output_combines_streams() {
    assert_eq!(command_output("hello\n", ""), "hello");
    assert_eq!(command_output("", "  oops \n"), "[stderr] oops");
    assert_eq!(command_output(" out ", "err"), "out\n[stderr] err");
    assert_eq!(command_output(" \n", "\t"), "(no output)");
}

#[test]
fn timeout_defaults_to_two_minutes() {
    let a = RunCommandArgs { command: "ls".into(), cwd: None, timeout_secs: None };
    assert_eq!(a.timeout(), DEFAULT_TIMEOUT_SECS);
    assert_eq!(a.timeout(), 120);
    let b = RunCommandArgs { command: "ls".into(), cwd: None, timeout_secs: Some(3) };
    assert_eq!(b.timeout(), 3);
}

#[test]
fn command_errors() {
    assert_eq!(timeout_error(7).user_message(), "Tool 'run_command' timed out after 7s.");
    match step_failed("spawn", "No such file") {
        ToolError::ExecutionFailed(m) => assert_eq!(m, "spawn: No such file"),
        other => panic!("unexpected {:?}", other),
    }
}

#[test]
fn streaming_steps() {
    match stream_step(StreamEvent::Line(OutputStream::Stdout, "line1".into()), 5) {
        StreamAction::Forward(l) => assert_eq!(l, "line1"),
        other => panic!("unexpected {:?}", other),
    }
    match stream_step(StreamEvent::Line(OutputStream::Stderr, "warn".into()), 5) {
        StreamAction::Forward(l) => assert_eq!(l, "[stderr] warn"),
        other => panic!("unexpected {:?}", other),
    }
    assert!(matches!(stream_step(StreamEvent::Closed(OutputStream::Stdout), 5), StreamAction::Finish));
    assert!(matches!(stream_step(StreamEvent::Closed(OutputStream::Stderr), 5), StreamAction::Continue));
    match stream_step(StreamEvent::DeadlinePassed, 9) {
        StreamAction::Abort(ToolError::Timeout { tool, secs }) => {
            assert_eq!(tool, "run_command");
            assert_eq!(secs, 9);
        }
        other => panic!("unexpected {:?}", other),
    }
    match stream_step(StreamEvent::ReadFailed(OutputStream::Stderr, "broken pipe".into()), 9) {
        StreamAction::Abort(ToolError::ExecutionFailed(m)) => assert_eq!(m, "read stderr: broken pipe"),
        other => panic!("unexpected {:?}", other),
    }
}

#[test]
fn exit_notes() {
    assert_eq!(exit_note(true, Some(0)), None);
    assert_eq!(exit_note(false, Some(2)), Some("[exit code: 2]".to_string()));
    assert_eq!(exit_note(false, Some(-3)), Some("[exit code: -3]".to_string()));
    assert_eq!(exit_note(false, None), Some("[exit code: -1]".to_string()));
}

#[test]
fn write_report_counts_bytes() {
    let a = WriteFileArgs { path: "out.txt".into(), content: "héllo".into(), append: false };
    assert_eq!(write_report(&a), "Wrote 6 bytes to out.txt");
    let b = WriteFileArgs { path: "e".into(), content: String::new(), append: true };
    assert_eq!(write_report(&b), "Wrote 0 bytes to e");
}

#[test]
fn raw_command_output_is_decoded_with_replacement() {
    assert_eq!(command_output_bytes(b"ok\n", b""), "ok");
    assert_eq!(command_output_bytes(b"a\xffb", b" warn "), "a\u{FFFD}b\n[stderr] warn");
    assert_eq!(command_output_bytes("h\u{e9}".as_bytes(), b""), "h\u{e9}");
}
