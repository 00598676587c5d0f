use chatbang::agent::{
    agent_banner, executed_notice, max_iterations_notice, opening_message, prepare_input,
    reply_action, summarize, tool_results_text, AgentConfig, ReplyAction, Turn,
};
use chatbang::backends::Role;

#[test]
fn default_config_enables_the_agent_with_ten_calls() {
    let c = AgentConfig::default();
    assert!(c.agent);
    assert_eq!(c.max_iterations, 10);
}

#[test]
fn blank_lines_start_no_turn() {
    assert_eq!(prepare_input("   \t"), None);
    assert_eq!(prepare_input("  hello world \n"), Some("hello world".to_string()));
}

#[test]
fn the_first_message_carries_the_system_prompt() {
    let agent = AgentConfig { agent: true, max_iterations: 3 };
    let plain = AgentConfig { agent: false, max_iterations: 3 };
    assert_eq!(opening_message(&agent, Some("SYS\n"), "hi", true), "SYS\nhi");
    assert_eq!(opening_message(&agent, Some("SYS\n"), "hi", false), "hi");
    assert_eq!(opening_message(&agent, None, "hi", true), "hi");
    assert_eq!(
        opening_message(&plain, None, "hi", true),
        "hi (Make an answer in less than 5 lines.)"
    );
    assert_eq!(opening_message(&plain, None, "hi", false), "hi");
}

#[test]
fn a_turn_makes_at_most_max_iterations_backend_calls() {
    let cfg = AgentConfig { agent: true, max_iterations: 2 };
    let mut t = Turn::start("q".into());
    assert_eq!(t.messages.len(), 1);
    assert_eq!(t.messages[0].role, Role::User);
    assert!(t.begin_request(&cfg));
    t.record_reply("r1".into());
    assert!(t.begin_request(&cfg));
    assert!(!t.begin_request(&cfg));
    assert!(!t.begin_request(&cfg));
    assert_eq!(t.calls, 2);
    assert_eq!(t.messages[1].role, Role::Assistant);
    assert_eq!(t.messages[1].content, "r1");
    assert_eq!(max_iterations_notice(2), "[agent] hit max iterations (2), stopping.");
}

#[test]
fn replies_without_calls_are_shown() {
    let cfg = AgentConfig::default();
    assert_eq!(reply_action(&cfg, 0), ReplyAction::Show);
    assert_eq!(reply_action(&cfg, 2), ReplyAction::RunTools);
    let plain = AgentConfig { agent: false, max_iterations: 10 };
    assert_eq!(reply_action(&plain, 2), ReplyAction::Show);
}

#[test]
fn tool_results_go_back_as_one_tool_message() {
    let results = vec![
        ("list_dir".to_string(), "[dir] src".to_string()),
        ("nonexistent".to_string(), "[error:not_found] Tool 'nonexistent' is not available.".to_string()),
    ];
    let text = tool_results_text(&results);
    assert_eq!(
        text,
        "<tool_result name=\"list_dir\">\n[dir] src\n</tool_result>\n<tool_result name=\"nonexistent\">\n[error:not_found] Tool 'nonexistent' is not available.\n</tool_result>\n"
    );
    let mut t = Turn::start("q".into());
    t.record_tool_results(&results);
    assert_eq!(t.messages.len(), 2);
    assert_eq!(t.messages[1].role, Role::Tool);
    assert_eq!(t.messages[1].content, text);
    assert_eq!(executed_notice(2), "[agent] executed 2 tool(s), sending results back...\n");
}

#[test]
fn banner_lists_the_tools() {
    assert_eq!(
        agent_banner(&vec!["list_dir", "read_file"]),
        "Agent mode ON  —  tools: list_dir, read_file"
    );
    assert_eq!(agent_banner(&vec![]), "Agent mode ON  —  tools: ");
}

#[test]
fn summaries_keep_the_first_line_and_cut_long_ones() {
    assert_eq!(summarize("one\r\ntwo"), "one");
    assert_eq!(summarize(""), "");
    let long = "x".repeat(100);
    let s = summarize(&long);
    assert_eq!(s.len(), 80);
    assert!(s.ends_with("..."));
    assert_eq!(summarize(&"y".repeat(80)), "y".repeat(80));
}
