use chatbang::backends::browser::{flatten_conversation, is_answer, timed_out_message};
use chatbang::backends::openai_compat::{
    chat_completions_url, no_choices_message, sends_bearer, status_error_message,
};
use chatbang::backends::{gemini, groq, ollama, together, Message, Role};
use chatbang::config::{
    api_key_env_vars, backend_api_key, browser_config_line, missing_api_key_message, no_browser_message,
    openai_settings, require_api_key, resolve_backend_kind, saved_browser_path, BackendKind,
};

#[test]
fn backend_names_ignore_case() {
    assert_eq!(BackendKind::from_str("Groq"), Some(BackendKind::Groq));
    assert_eq!(BackendKind::from_str("CHATGPT"), Some(BackendKind::Browser));
    assert_eq!(BackendKind::from_str("web"), Some(BackendKind::Browser));
    assert_eq!(BackendKind::from_str("local"), Some(BackendKind::Ollama));
    assert_eq!(BackendKind::from_str("google"), Some(BackendKind::Gemini));
    assert_eq!(BackendKind::from_str("TogetherAI"), Some(BackendKind::Together));
    assert_eq!(BackendKind::from_str("openai"), Some(BackendKind::OpenAi));
    assert_eq!(BackendKind::from_str("mistral"), None);
    assert_eq!(BackendKind::from_str(" groq"), None);
}

#[test]
fn backend_resolution_order() {
    assert_eq!(resolve_backend_kind(Some(BackendKind::Groq), Some("gemini")), BackendKind::Groq);
    assert_eq!(resolve_backend_kind(None, Some("gemini")), BackendKind::Gemini);
    assert_eq!(resolve_backend_kind(None, Some("nonsense")), BackendKind::Ollama);
    assert_eq!(resolve_backend_kind(None, None), BackendKind::Ollama);
}

#[test]
fn api_keys_come_from_the_flag_then_the_environment() {
    assert_eq!(api_key_env_vars(BackendKind::Gemini), vec!["GEMINI_API_KEY", "GOOGLE_API_KEY"]);
    assert!(api_key_env_vars(BackendKind::Ollama).is_empty());
    assert_eq!(
        require_api_key(BackendKind::Groq, Some("cli".into()), vec![Some("env".into())]),
        Ok("cli".to_string())
    );
    assert_eq!(
        require_api_key(BackendKind::Gemini, None, vec![None, Some("google".into())]),
        Ok("google".to_string())
    );
    assert_eq!(
        require_api_key(BackendKind::Together, None, vec![None]),
        Err("Together backend requires an API key. Pass --api-key or set TOGETHER_API_KEY.".to_string())
    );
    assert_eq!(
        missing_api_key_message(BackendKind::OpenAi),
        "OpenAI backend requires an API key. Pass --api-key or set OPENAI_API_KEY."
    );
}

#[test]
fn provider_settings() {
    let o = openai_settings(None, "k".into(), None);
    assert_eq!(o.base_url, "https://api.openai.com/v1");
    assert_eq!(o.model, "gpt-4o-mini");
    assert_eq!(o.display_name, "openai");
    let g = groq::settings("key".into(), None);
    assert_eq!(g.base_url, "https://api.groq.com/openai/v1");
    assert_eq!(g.model, "llama-3.1-8b-instant");
    assert_eq!(g.api_key, "key");
    let m = gemini::settings("key".into(), Some("gemini-pro".into()));
    assert_eq!(m.model, "gemini-pro");
    assert_eq!(m.display_name, "gemini");
    let t = together::settings("key".into(), None);
    assert_eq!(t.display_name, "together");
    let l = ollama::settings(Some("http://127.0.0.1:39999/v1".into()), None);
    assert_eq!(l.base_url, "http://127.0.0.1:39999/v1");
    assert_eq!(l.model, "llama3.1");
    assert_eq!(l.api_key, "");
    assert_eq!(ollama::settings(None, None).base_url, "http://localhost:11434/v1");
}

#[test]
fn endpoints() {
    assert_eq!(
        chat_completions_url("https://api.openai.com/v1"),
        "https://api.openai.com/v1/chat/completions"
    );
    assert_eq!(chat_completions_url("http://x/v1//"), "http://x/v1/chat/completions");
    assert_eq!(ollama::tags_url("http://localhost:11434/v1"), "http://localhost:11434/api/tags");
    assert_eq!(ollama::tags_url("http://h/v1/v1x"), "http://h/api/tags/api/tagsx");
    assert_eq!(ollama::tags_url("http://h/api"), "http://h/api");
}

#[test]
fn provider_messages() {
    assert!(sends_bearer("sk-1"));
    assert!(!sends_bearer(""));
    assert_eq!(
        status_error_message("groq", "401 Unauthorized", "bad key"),
        "groq returned 401 Unauthorized: bad key"
    );
    assert_eq!(no_choices_message("ollama"), "ollama returned no choices");
    let m = ollama::unreachable_message("http://127.0.0.1:39999/v1");
    assert!(m.contains("not reachable"));
    assert!(m.starts_with("Ollama is not reachable at http://127.0.0.1:39999/v1. "));
}

#[test]
fn browser_prompt_is_flattened_and_trimmed() {
    let msgs = vec![
        Message::system("be brief".into()),
        Message::user("hi".into()),
        Message::assistant("hello".into()),
        Message::tool("out".into()),
    ];
    assert_eq!(
        flatten_conversation(&msgs),
        "[SYSTEM]\nbe brief\n[/SYSTEM]\n\nhi\n\n[assistant] hello\n\n<tool_result>\nout\n</tool_result>"
    );
    assert_eq!(flatten_conversation(&[]), "");
    assert_eq!(Role::Tool.wire_name(), "tool");
}

#[test]
fn clipboard_answers() {
    assert!(is_answer("the answer", "the question"));
    assert!(!is_answer("", "q"));
    assert!(!is_answer("q", "q"));
    assert_eq!(timed_out_message(), "Timed out waiting for ChatGPT response.");
}

#[test]
fn saved_browser_setting() {
    let raw = "# comment\n\n  browser =  /usr/bin/chromium \r\nbrowser=/other\n";
    assert_eq!(saved_browser_path(raw), "/usr/bin/chromium");
    assert_eq!(saved_browser_path("browser=\nbrowser=/b"), "/b");
    assert_eq!(saved_browser_path("#browser=/x\nother=/y"), "");
    assert_eq!(saved_browser_path(""), "");
    assert_eq!(saved_browser_path("browser = a=b"), "a=b");
    assert_eq!(browser_config_line("/usr/bin/chromium"), "browser=/usr/bin/chromium\n");
    assert!(no_browser_message("/cfg/chatbang.ini").ends_with("browser=<path>  in:  /cfg/chatbang.ini"));
}

#[test]
fn a_saved_browser_path_is_read_back() {
    for p in ["/usr/bin/chromium", "C:\\Program Files\\Google\\Chrome\\Application\\chrome.exe", "a b"] {
        assert_eq!(saved_browser_path(&browser_config_line(p)), p);
    }
}

#[test]
fn only_hosted_backends_need_a_key() {
    assert_eq!(backend_api_key(BackendKind::Ollama, None, vec![]), Ok(None));
    assert_eq!(backend_api_key(BackendKind::Browser, None, vec![]), Ok(None));
    assert_eq!(
        backend_api_key(BackendKind::Gemini, None, vec![None, Some("g".into())]),
        Ok(Some("g".to_string()))
    );
    assert_eq!(
        backend_api_key(BackendKind::Groq, Some("cli".into()), vec![Some("env".into())]),
        Ok(Some("cli".to_string()))
    );
    assert_eq!(
        backend_api_key(BackendKind::OpenAi, None, vec![None]),
        Err("OpenAI backend requires an API key. Pass --api-key or set OPENAI_API_KEY.".to_string())
    );
}
