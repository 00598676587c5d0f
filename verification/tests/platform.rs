use chatbang::platform::{
    absolute_browser_paths, browser_probes, local_app_data_paths, normalize_path,
    path_browser_candidates, platform_shell, BrowserProbe, HostOs, Shell,
};

#[test]
fn shell_matches_host() {
    let s = Shell::host();
    if std::path::MAIN_SEPARATOR == '\\' {
        assert_eq!(s, Shell::Cmd);
    } else {
        assert_eq!(s, Shell::Sh);
    }
}

#[test]
fn platform_shell_returns_correct_pair() {
    let (bin, flag) = platform_shell();
    if std::path::MAIN_SEPARATOR == '\\' {
        assert_eq!(bin, "cmd");
        assert_eq!(flag, "/C");
    } else {
        assert_eq!(bin, "sh");
        assert_eq!(flag, "-c");
    }
}

#[test]
fn shells_by_separator() {
    assert_eq!(Shell::for_separator('\\'), Shell::Cmd);
    assert_eq!(Shell::for_separator('/'), Shell::Sh);
    assert_eq!(Shell::Cmd.binary(), "cmd");
    assert_eq!(Shell::Cmd.command_flag(), "/C");
    assert_eq!(Shell::Sh.binary(), "sh");
    assert_eq!(Shell::Sh.command_flag(), "-c");
}

#[test]
fn absolute_browser_candidates_nonempty_on_all_platforms() {
    for os in [HostOs::Windows, HostOs::MacOs, HostOs::Other] {
        assert!(!absolute_browser_paths(os).is_empty());
        assert!(!path_browser_candidates(os).is_empty());
    }
}

#[test]
fn browser_candidates_per_platform() {
    let linux = path_browser_candidates(HostOs::Other);
    assert_eq!(linux.len(), 8);
    assert_eq!(linux[0], "google-chrome");
    assert_eq!(linux[7], "epiphany");
    let mac = path_browser_candidates(HostOs::MacOs);
    assert_eq!(mac.len(), 7);
    assert!(!mac.contains(&"epiphany"));
    let win = path_browser_candidates(HostOs::Windows);
    assert_eq!(win, vec!["chrome", "chrome.exe", "msedge", "msedge.exe", "brave", "brave.exe"]);
    let abs = absolute_browser_paths(HostOs::Other);
    assert_eq!(abs.len(), 10);
    assert_eq!(abs[7], "/snap/bin/chromium");
    assert_eq!(absolute_browser_paths(HostOs::MacOs).len(), 5);
    assert_eq!(absolute_browser_paths(HostOs::Windows).len(), 8);
    assert_eq!(local_app_data_paths(HostOs::Windows).len(), 3);
    assert!(local_app_data_paths(HostOs::Other).is_empty());
}

#[test]
fn normalize_path_keeps_the_text() {
    assert_eq!(normalize_path("a/b.txt"), std::path::PathBuf::from("a/b.txt"));
}

#[test]
fn browser_discovery_order() {
    let probes = browser_probes(HostOs::Other, Some("/nonexistent/definitely/not/here".into()));
    assert_eq!(probes.len(), 1 + 8 + 10);
    assert_eq!(probes[0], BrowserProbe::File("/nonexistent/definitely/not/here".into()));
    assert_eq!(probes[1], BrowserProbe::OnPath("google-chrome".into()));
    assert_eq!(probes[9], BrowserProbe::File("/usr/bin/google-chrome".into()));
    let win = browser_probes(HostOs::Windows, None);
    assert_eq!(win.len(), 6 + 8 + 3);
    assert_eq!(win[0], BrowserProbe::OnPath("chrome".into()));
    assert_eq!(
        win[16],
        BrowserProbe::InLocalAppData("BraveSoftware\\Brave-Browser\\Application\\brave.exe".into())
    );
}
