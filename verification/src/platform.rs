//! Platform-dependent choices: the shell that runs commands, and where
//! Chromium-based browsers are usually installed.
use vstd::prelude::*;

use std::path::PathBuf;

use crate::text::owned;

verus! {

/// The shell that interprets a command string.
#[derive(Debug, Clone, Copy, PartialEq, Eq, Structural)]
pub enum Shell {
    /// Windows: `cmd /C <cmd>`.
    Cmd,
    /// Unix (Linux, macOS, *BSD): `sh -c <cmd>`.
    Sh,
}

/// The interpreter binary of a shell.
pub open spec fn shell_binary(s: Shell) -> Seq<char> {
    match s {
        Shell::Cmd => "cmd"@,
        Shell::Sh => "sh"@,
    }
}

/// The flag that passes a single command string to a shell.
pub open spec fn shell_flag(s: Shell) -> Seq<char> {
    match s {
        Shell::Cmd => "/C"@,
        Shell::Sh => "-c"@,
    }
}

/// The platform's primary path separator (`std::path::MAIN_SEPARATOR`).
#[verifier::external_body]
fn main_separator() -> (c: char) {
    std::path::MAIN_SEPARATOR
}

impl Shell {
    /// The interpreter binary name.
    pub fn binary(self) -> (r: &'static str)
        ensures
            r@ == shell_binary(self),
    {
        match self {
            Shell::Cmd => "cmd",
            Shell::Sh => "sh",
        }
    }

    /// The flag used to pass a single command string to the interpreter.
    pub fn command_flag(self) -> (r: &'static str)
        ensures
            r@ == shell_flag(self),
    {
        match self {
            Shell::Cmd => "/C",
            Shell::Sh => "-c",
        }
    }

    /// The shell of a platform whose path separator is `sep`: `cmd` where
    /// paths are separated by backslashes (Windows), `sh` elsewhere.
    pub fn for_separator(sep: char) -> (r: Shell)
        ensures
            r == if sep == '\\' {
                Shell::Cmd
            } else {
                Shell::Sh
            },
    {
        if sep == '\\' {
            Shell::Cmd
        } else {
            Shell::Sh
        }
    }

    /// The host platform's shell.
    pub fn host() -> (r: Shell) {
        Shell::for_separator(main_separator())
    }
}

/// The (binary, flag) pair of the host platform's shell.
pub fn platform_shell() -> (r: (String, String))
    ensures
        exists|s: Shell| r.0@ == shell_binary(s) && r.1@ == shell_flag(s),
{
    let s = Shell::host();
    (owned(s.binary()), owned(s.command_flag()))
}

/// The operating-system family, for browser discovery.
#[derive(Debug, Clone, Copy, PartialEq, Eq, Structural)]
pub enum HostOs {
    Windows,
    MacOs,
    /// Linux and other Unix systems.
    Other,
}

/// Browser binary names looked up on the `PATH`, in order.
pub open spec fn path_candidates(os: HostOs) -> Seq<Seq<char>> {
    match os {
        HostOs::Windows => seq![
            "chrome"@,
            "chrome.exe"@,
            "msedge"@,
            "msedge.exe"@,
            "brave"@,
            "brave.exe"@,
        ],
        HostOs::MacOs => seq![
            "google-chrome"@,
            "google-chrome-stable"@,
            "chromium"@,
            "chromium-browser"@,
            "microsoft-edge"@,
            "brave-browser"@,
            "vivaldi"@,
        ],
        HostOs::Other => seq![
            "google-chrome"@,
            "google-chrome-stable"@,
            "chromium"@,
            "chromium-browser"@,
            "microsoft-edge"@,
            "brave-browser"@,
            "vivaldi"@,
            "epiphany"@,
        ],
    }
}

/// Browser binary names to look up on the `PATH`, in order.
pub fn path_browser_candidates(os: HostOs) -> (r: Vec<&'static str>)
    ensures
        r@.map_values(|s: &str| s@) == path_candidates(os),
{
    let mut r: Vec<&'static str> = Vec::new();
    match os {
        HostOs::Windows => {
            r.push("chrome");
            r.push("chrome.exe");
            r.push("msedge");
            r.push("msedge.exe");
            r.push("brave");
            r.push("brave.exe");
        },
        HostOs::MacOs => {
            r.push("google-chrome");
            r.push("google-chrome-stable");
            r.push("chromium");
            r.push("chromium-browser");
            r.push("microsoft-edge");
            r.push("brave-browser");
            r.push("vivaldi");
        },
        HostOs::Other => {
            r.push("google-chrome");
            r.push("google-chrome-stable");
            r.push("chromium");
            r.push("chromium-browser");
            r.push("microsoft-edge");
            r.push("brave-browser");
            r.push("vivaldi");
            r.push("epiphany");
        },
    }
    assert(r@.map_values(|s: &str| s@) =~= path_candidates(os));
    r
}

/// Well-known absolute browser paths, in order.
pub open spec fn absolute_candidates(os: HostOs) -> Seq<Seq<char>> {
    match os {
        HostOs::Windows => seq![
            "C:\\Program Files\\Google\\Chrome\\Application\\chrome.exe"@,
            "C:\\Program Files (x86)\\Google\\Chrome\\Application\\chrome.exe"@,
            "C:\\Program Files\\Microsoft\\Edge\\Application\\msedge.exe"@,
            "C:\\Program Files (x86)\\Microsoft\\Edge\\Application\\msedge.exe"@,
            "C:\\Program Files\\BraveSoftware\\Brave-Browser\\Application\\brave.exe"@,
            "C:\\Program Files (x86)\\BraveSoftware\\Brave-Browser\\Application\\brave.exe"@,
            "C:\\Program Files\\Vivaldi\\Application\\vivaldi.exe"@,
            "C:\\Program Files (x86)\\Vivaldi\\Application\\vivaldi.exe"@,
        ],
        HostOs::MacOs => seq![
            "/Applications/Google Chrome.app/Contents/MacOS/Google Chrome"@,
            "/Applications/Microsoft Edge.app/Contents/MacOS/Microsoft Edge"@,
            "/Applications/Brave Browser.app/Contents/MacOS/Brave Browser"@,
            "/Applications/Vivaldi.app/Contents/MacOS/Vivaldi"@,
            "/Applications/Chromium.app/Contents/MacOS/Chromium"@,
        ],
        HostOs::Other => seq![
            "/usr/bin/google-chrome"@,
            "/usr/bin/google-chrome-stable"@,
            "/usr/bin/chromium"@,
            "/usr/bin/chromium-browser"@,
            "/usr/bin/microsoft-edge"@,
            "/usr/bin/brave-browser"@,
            "/usr/bin/vivaldi"@,
            "/snap/bin/chromium"@,
            "/opt/google/chrome/chrome"@,
            "/opt/microsoft/msedge/msedge"@,
        ],
    }
}

/// Well-known absolute browser paths, in order.
pub fn absolute_browser_paths(os: HostOs) -> (r: Vec<&'static str>)
    ensures
        r@.map_values(|s: &str| s@) == absolute_candidates(os),
{
    let mut r: Vec<&'static str> = Vec::new();
    match os {
        HostOs::Windows => {
            r.push("C:\\Program Files\\Google\\Chrome\\Application\\chrome.exe");
            r.push("C:\\Program Files (x86)\\Google\\Chrome\\Application\\chrome.exe");
            r.push("C:\\Program Files\\Microsoft\\Edge\\Application\\msedge.exe");
            r.push("C:\\Program Files (x86)\\Microsoft\\Edge\\Application\\msedge.exe");
            r.push("C:\\Program Files\\BraveSoftware\\Brave-Browser\\Application\\brave.exe");
            r.push("C:\\Program Files (x86)\\BraveSoftware\\Brave-Browser\\Application\\brave.exe");
            r.push("C:\\Program Files\\Vivaldi\\Application\\vivaldi.exe");
            r.push("C:\\Program Files (x86)\\Vivaldi\\Application\\vivaldi.exe");
        },
        HostOs::MacOs => {
            r.push("/Applications/Google Chrome.app/Contents/MacOS/Google Chrome");
            r.push("/Applications/Microsoft Edge.app/Contents/MacOS/Microsoft Edge");
            r.push("/Applications/Brave Browser.app/Contents/MacOS/Brave Browser");
            r.push("/Applications/Vivaldi.app/Contents/MacOS/Vivaldi");
            r.push("/Applications/Chromium.app/Contents/MacOS/Chromium");
        },
        HostOs::Other => {
            r.push("/usr/bin/google-chrome");
            r.push("/usr/bin/google-chrome-stable");
            r.push("/usr/bin/chromium");
            r.push("/usr/bin/chromium-browser");
            r.push("/usr/bin/microsoft-edge");
            r.push("/usr/bin/brave-browser");
            r.push("/usr/bin/vivaldi");
            r.push("/snap/bin/chromium");
            r.push("/opt/google/chrome/chrome");
            r.push("/opt/microsoft/msedge/msedge");
        },
    }
    assert(r@.map_values(|s: &str| s@) =~= absolute_candidates(os));
    r
}

/// Browser paths relative to the user's local application-data directory
/// (Windows only), in order.
pub open spec fn local_app_data_candidates(os: HostOs) -> Seq<Seq<char>> {
    match os {
        HostOs::Windows => seq![
            "Google\\Chrome\\Application\\chrome.exe"@,
            "Microsoft\\Edge\\Application\\msedge.exe"@,
            "BraveSoftware\\Brave-Browser\\Application\\brave.exe"@,
        ],
        _ => seq![],
    }
}

/// Browser paths relative to the user's local application-data directory,
/// in order.
pub fn local_app_data_paths(os: HostOs) -> (r: Vec<&'static str>)
    ensures
        r@.map_values(|s: &str| s@) == local_app_data_candidates(os),
{
    let mut r: Vec<&'static str> = Vec::new();
    if os == HostOs::Windows {
        r.push("Google\\Chrome\\Application\\chrome.exe");
        r.push("Microsoft\\Edge\\Application\\msedge.exe");
        r.push("BraveSoftware\\Brave-Browser\\Application\\brave.exe");
    }
    assert(r@.map_values(|s: &str| s@) =~= local_app_data_candidates(os));
    r
}

/// One place where browser discovery looks.
#[derive(Debug, Clone, PartialEq, Eq)]
pub enum BrowserProbe {
    /// The file at this path, if it exists.
    File(String),
    /// This binary name, looked up on the `PATH`.
    OnPath(String),
    /// This path under the user's local application-data directory, if that
    /// directory is known and the file exists.
    InLocalAppData(String),
}

/// The places browser discovery looks, in order: the explicit override,
/// then the binary names on the `PATH`, then the well-known absolute paths,
/// then the paths under the local application-data directory.
pub open spec fn probe_order(os: HostOs, override_path: Option<Seq<char>>) -> Seq<(nat, Seq<char>)> {
    let first: Seq<(nat, Seq<char>)> = match override_path {
        Some(p) => seq![(0nat, p)],
        None => seq![],
    };
    first + path_candidates(os).map_values(|n: Seq<char>| (1nat, n)) + absolute_candidates(
        os,
    ).map_values(|a: Seq<char>| (0nat, a)) + local_app_data_candidates(os).map_values(
        |r: Seq<char>| (2nat, r),
    )
}

/// A probe as its kind (0: file, 1: on the `PATH`, 2: under local
/// application data) and its text.
pub open spec fn probe_view(p: BrowserProbe) -> (nat, Seq<char>) {
    match p {
        BrowserProbe::File(s) => (0nat, s@),
        BrowserProbe::OnPath(s) => (1nat, s@),
        BrowserProbe::InLocalAppData(s) => (2nat, s@),
    }
}

/// Appends probes of one kind for each of `names`.
fn push_probes(out: &mut Vec<BrowserProbe>, names: Vec<&'static str>, kind: u8)
    requires
        kind <= 2,
    ensures
        final(out)@.map_values(|p: BrowserProbe| probe_view(p)) == old(out)@.map_values(
            |p: BrowserProbe| probe_view(p),
        ) + names@.map_values(|n: &str| (kind as nat, n@)),
{
    let ghost start = old(out)@.map_values(|p: BrowserProbe| probe_view(p));
    let mut i: usize = 0;
    while i < names.len()
        invariant
            i <= names@.len(),
            kind <= 2,
            out@.map_values(|p: BrowserProbe| probe_view(p)) == start + names@.take(
                i as int,
            ).map_values(|n: &str| (kind as nat, n@)),
        decreases names@.len() - i,
    {
        let n = owned(names[i]);
        let probe = if kind == 0 {
            BrowserProbe::File(n)
        } else if kind == 1 {
            BrowserProbe::OnPath(n)
        } else {
            BrowserProbe::InLocalAppData(n)
        };
        assert(probe_view(probe) == (kind as nat, names@[i as int]@));
        let ghost before = out@;
        out.push(probe);
        assert(out@.map_values(|p: BrowserProbe| probe_view(p)) =~= before.map_values(
            |p: BrowserProbe| probe_view(p),
        ).push(probe_view(probe)));
        assert(names@.take(i + 1) =~= names@.take(i as int).push(names@[i as int]));
        assert(out@.map_values(|p: BrowserProbe| probe_view(p)) =~= start + names@.take(
            i + 1,
        ).map_values(|n: &str| (kind as nat, n@)));
        i = i + 1;
    }
    assert(names@.take(names@.len() as int) =~= names@);
}

/// The places to look for a Chromium-based browser, in order, given the
/// explicit override (the `CHATBANG_BROWSER` setting) if there is one.
pub fn browser_probes(os: HostOs, override_path: Option<String>) -> (r: Vec<BrowserProbe>)
    ensures
        r@.map_values(|p: BrowserProbe| probe_view(p)) == probe_order(
            os,
            match override_path {
                Some(p) => Some(p@),
                None => None,
            },
        ),
{
    let mut r: Vec<BrowserProbe> = Vec::new();
    let ghost o: Option<Seq<char>> = if override_path is Some {
        Some(override_path->0@)
    } else {
        None
    };
    match override_path {
        Some(p) => r.push(BrowserProbe::File(p)),
        None => {},
    }
    let on_path = path_browser_candidates(os);
    let absolute = absolute_browser_paths(os);
    let local = local_app_data_paths(os);
    assert(on_path@.map_values(|n: &str| (1nat, n@)) =~= path_candidates(os).map_values(
        |n: Seq<char>| (1nat, n),
    ));
    assert(absolute@.map_values(|n: &str| (0nat, n@)) =~= absolute_candidates(os).map_values(
        |n: Seq<char>| (0nat, n),
    ));
    assert(local@.map_values(|n: &str| (2nat, n@)) =~= local_app_data_candidates(os).map_values(
        |n: Seq<char>| (2nat, n),
    ));
    push_probes(&mut r, on_path, 1);
    push_probes(&mut r, absolute, 0);
    push_probes(&mut r, local, 2);
    assert(r@.map_values(|p: BrowserProbe| probe_view(p)) =~= probe_order(os, o));
    r
}

/// The path that `PathBuf::from` makes of a text: a path holding exactly
/// that text, the same for the same text.
pub uninterp spec fn path_for(text: Seq<char>) -> PathBuf;

/// A path from its text (`PathBuf::from`). The contract names the result
/// `path_for(p@)`: `PathBuf::from` copies the text into a new path and
/// depends on nothing else.
#[verifier::external_body]
fn path_from(p: &str) -> (r: PathBuf)
    ensures
        r == path_for(p@),
{
    PathBuf::from(p)
}

/// Normalize a user-supplied path: the path with the given text.
pub fn normalize_path(p: &str) -> (r: PathBuf)
    ensures
        r == path_for(p@),
{
    path_from(p)
}

} // verus!
