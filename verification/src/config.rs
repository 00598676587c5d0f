//! Which backend to use, with which key, and where the browser backend's
//! settings live.
use vstd::prelude::*;

use crate::backends::{model_or, ProviderSettings};
use crate::text::{
    contains, occurs_at, ascii_lowercase, char_index, chars_of, is_white_space, lemma_char_index, lemma_char_index_at,
    lemma_trimmed_ends, owned, push_str, string_from, text_eq, to_ascii_lowercase, trim,
    trim_bounds,
};

verus! {

/// Which backend serves chat completions.
#[derive(Debug, Clone, Copy, PartialEq, Eq, Structural)]
pub enum BackendKind {
    /// The ChatGPT web page, through a Chromium browser.
    Browser,
    /// A local Ollama daemon.
    Ollama,
    /// The OpenAI API.
    OpenAi,
    /// The Groq API.
    Groq,
    /// The Google Gemini API.
    Gemini,
    /// The Together.ai API.
    Together,
}

/// The subcommands of the command line.
#[derive(Debug, Clone, Copy, PartialEq, Eq, Structural)]
pub enum Commands {
    /// Open a browser session to log in to ChatGPT.
    Config,
    /// List the registered tools.
    Tools,
}

/// The backend a lower-case name selects.
pub open spec fn kind_named(s: Seq<char>) -> Option<BackendKind> {
    if s == "browser"@ || s == "chatgpt"@ || s == "web"@ {
        Some(BackendKind::Browser)
    } else if s == "ollama"@ || s == "local"@ {
        Some(BackendKind::Ollama)
    } else if s == "openai"@ {
        Some(BackendKind::OpenAi)
    } else if s == "groq"@ {
        Some(BackendKind::Groq)
    } else if s == "gemini"@ || s == "google"@ {
        Some(BackendKind::Gemini)
    } else if s == "together"@ || s == "togetherai"@ {
        Some(BackendKind::Together)
    } else {
        None
    }
}

impl BackendKind {
    /// The backend a name selects, ignoring ASCII case.
    pub fn from_str(s: &str) -> (r: Option<BackendKind>)
        ensures
            r == kind_named(ascii_lowercase(s@)),
    {
        let l = to_ascii_lowercase(s);
        let l = l.as_str();
        if text_eq(l, "browser") || text_eq(l, "chatgpt") || text_eq(l, "web") {
            Some(BackendKind::Browser)
        } else if text_eq(l, "ollama") || text_eq(l, "local") {
            Some(BackendKind::Ollama)
        } else if text_eq(l, "openai") {
            Some(BackendKind::OpenAi)
        } else if text_eq(l, "groq") {
            Some(BackendKind::Groq)
        } else if text_eq(l, "gemini") || text_eq(l, "google") {
            Some(BackendKind::Gemini)
        } else if text_eq(l, "together") || text_eq(l, "togetherai") {
            Some(BackendKind::Together)
        } else {
            None
        }
    }
}

/// The effective backend: the one asked for on the command line, else the
/// one the environment names (when it names one), else Ollama, which needs
/// no key.
pub fn resolve_backend_kind(flag: Option<BackendKind>, env_value: Option<&str>) -> (r: BackendKind)
    ensures
        r == match flag {
            Some(b) => b,
            None => match env_value {
                Some(e) => match kind_named(ascii_lowercase(e@)) {
                    Some(b) => b,
                    None => BackendKind::Ollama,
                },
                None => BackendKind::Ollama,
            },
        },
{
    if let Some(b) = flag {
        return b;
    }
    if let Some(e) = env_value {
        if let Some(b) = BackendKind::from_str(e) {
            return b;
        }
    }
    BackendKind::Ollama
}

/// Law: every documented backend name and alias selects its backend, and
/// only those select it: `browser`, `chatgpt`, `web`; `ollama`, `local`;
/// `openai`; `groq`; `gemini`, `google`; `together`, `togetherai`. Any
/// other (lower-case) name selects none.
pub proof fn lemma_backend_names(s: Seq<char>)
    ensures
        kind_named(s) == Some(BackendKind::Browser) <==> (s == "browser"@ || s == "chatgpt"@ || s
            == "web"@),
        kind_named(s) == Some(BackendKind::Ollama) <==> (s == "ollama"@ || s == "local"@),
        kind_named(s) == Some(BackendKind::OpenAi) <==> s == "openai"@,
        kind_named(s) == Some(BackendKind::Groq) <==> s == "groq"@,
        kind_named(s) == Some(BackendKind::Gemini) <==> (s == "gemini"@ || s == "google"@),
        kind_named(s) == Some(BackendKind::Together) <==> (s == "together"@ || s
            == "togetherai"@),
        kind_named(s) is None <==> !(s == "browser"@ || s == "chatgpt"@ || s == "web"@ || s
            == "ollama"@ || s == "local"@ || s == "openai"@ || s == "groq"@ || s == "gemini"@ || s
            == "google"@ || s == "together"@ || s == "togetherai"@),
{
    reveal_strlit("browser");
    reveal_strlit("chatgpt");
    reveal_strlit("web");
    reveal_strlit("ollama");
    reveal_strlit("local");
    reveal_strlit("openai");
    reveal_strlit("groq");
    reveal_strlit("gemini");
    reveal_strlit("google");
    reveal_strlit("together");
    reveal_strlit("togetherai");
    let names = seq![
        "browser"@,
        "chatgpt"@,
        "web"@,
        "ollama"@,
        "local"@,
        "openai"@,
        "groq"@,
        "gemini"@,
        "google"@,
        "together"@,
        "togetherai"@,
    ];
    assert forall|i: int, j: int| 0 <= i < j < 11 implies names[i] != names[j] by {
        if names[i].len() == names[j].len() {
            if names[i][0] == names[j][0] {
                assert(names[i][1] != names[j][1]);
            }
        }
    }
    assert(names[0] == "browser"@ && names[1] == "chatgpt"@ && names[2] == "web"@ && names[3]
        == "ollama"@ && names[4] == "local"@ && names[5] == "openai"@ && names[6] == "groq"@
        && names[7] == "gemini"@ && names[8] == "google"@ && names[9] == "together"@ && names[10]
        == "togetherai"@);
}

/// Law: each hosted backend's key comes from the provider's own variables
/// (`GROQ_API_KEY`; `GEMINI_API_KEY` then `GOOGLE_API_KEY`;
/// `TOGETHER_API_KEY`; `OPENAI_API_KEY`), the variable its missing-key
/// message names is the first of them, and the other backends read none.
pub proof fn lemma_key_variables(kind: BackendKind)
    ensures
        key_env_vars(BackendKind::Groq) == seq!["GROQ_API_KEY"@],
        key_env_vars(BackendKind::Gemini) == seq!["GEMINI_API_KEY"@, "GOOGLE_API_KEY"@],
        key_env_vars(BackendKind::Together) == seq!["TOGETHER_API_KEY"@],
        key_env_vars(BackendKind::OpenAi) == seq!["OPENAI_API_KEY"@],
        key_env_vars(BackendKind::Ollama).len() == 0,
        key_env_vars(BackendKind::Browser).len() == 0,
        needs_key(kind) ==> contains(missing_key_text(kind), key_env_vars(kind)[0]),
{
    if needs_key(kind) {
        let m = missing_key_text(kind);
        let v = key_env_vars(kind)[0];
        match kind {
            BackendKind::Groq => {
                reveal_strlit("Groq backend requires an API key. Pass --api-key or set GROQ_API_KEY.");
                reveal_strlit("GROQ_API_KEY");
            },
            BackendKind::Gemini => {
                reveal_strlit("Gemini backend requires an API key. Pass --api-key or set GEMINI_API_KEY.");
                reveal_strlit("GEMINI_API_KEY");
            },
            BackendKind::Together => {
                reveal_strlit("Together backend requires an API key. Pass --api-key or set TOGETHER_API_KEY.");
                reveal_strlit("TOGETHER_API_KEY");
            },
            _ => {
                reveal_strlit("OpenAI backend requires an API key. Pass --api-key or set OPENAI_API_KEY.");
                reveal_strlit("OPENAI_API_KEY");
            },
        }
        let i = m.len() - 1 - v.len();
        assert(m.subrange(i, i + v.len()) =~= v);
        assert(occurs_at(m, v, i));
    }
}

/// The environment variables, in order, that may hold a backend's API key.
pub open spec fn key_env_vars(kind: BackendKind) -> Seq<Seq<char>> {
    match kind {
        BackendKind::Groq => seq!["GROQ_API_KEY"@],
        BackendKind::Gemini => seq!["GEMINI_API_KEY"@, "GOOGLE_API_KEY"@],
        BackendKind::Together => seq!["TOGETHER_API_KEY"@],
        BackendKind::OpenAi => seq!["OPENAI_API_KEY"@],
        _ => seq![],
    }
}

/// The environment variables, in order, that may hold a backend's API key.
pub fn api_key_env_vars(kind: BackendKind) -> (r: Vec<&'static str>)
    ensures
        r@.map_values(|s: &str| s@) == key_env_vars(kind),
{
    let mut r: Vec<&'static str> = Vec::new();
    match kind {
        BackendKind::Groq => r.push("GROQ_API_KEY"),
        BackendKind::Gemini => {
            r.push("GEMINI_API_KEY");
            r.push("GOOGLE_API_KEY");
        },
        BackendKind::Together => r.push("TOGETHER_API_KEY"),
        BackendKind::OpenAi => r.push("OPENAI_API_KEY"),
        _ => {},
    }
    assert(r@.map_values(|s: &str| s@) =~= key_env_vars(kind));
    r
}

/// The first value present.
pub open spec fn first_some(vs: Seq<Option<String>>) -> Option<String>
    decreases vs.len(),
{
    if vs.len() == 0 {
        None
    } else if vs[0] is Some {
        vs[0]
    } else {
        first_some(vs.drop_first())
    }
}

/// The first value present.
fn first_set(values: Vec<Option<String>>) -> (r: Option<String>)
    ensures
        r == first_some(values@),
{
    let mut rest = values;
    while rest.len() > 0
        invariant
            first_some(values@) == first_some(rest@),
        decreases rest@.len(),
    {
        let ghost before = rest@;
        let v = rest.remove(0);
        assert(before.drop_first() =~= rest@);
        if v.is_some() {
            return v;
        }
    }
    None
}

/// What a backend that needs a key says when it has none.
pub open spec fn missing_key_text(kind: BackendKind) -> Seq<char> {
    match kind {
        BackendKind::Groq => "Groq backend requires an API key. Pass --api-key or set GROQ_API_KEY."@,
        BackendKind::Gemini => "Gemini backend requires an API key. Pass --api-key or set GEMINI_API_KEY."@,
        BackendKind::Together => "Together backend requires an API key. Pass --api-key or set TOGETHER_API_KEY."@,
        BackendKind::OpenAi => "OpenAI backend requires an API key. Pass --api-key or set OPENAI_API_KEY."@,
        _ => "This backend does not use an API key."@,
    }
}

/// What a backend that needs a key says when it has none.
pub fn missing_api_key_message(kind: BackendKind) -> (r: &'static str)
    ensures
        r@ == missing_key_text(kind),
{
    match kind {
        BackendKind::Groq => "Groq backend requires an API key. Pass --api-key or set GROQ_API_KEY.",
        BackendKind::Gemini => "Gemini backend requires an API key. Pass --api-key or set GEMINI_API_KEY.",
        BackendKind::Together => "Together backend requires an API key. Pass --api-key or set TOGETHER_API_KEY.",
        BackendKind::OpenAi => "OpenAI backend requires an API key. Pass --api-key or set OPENAI_API_KEY.",
        _ => "This backend does not use an API key.",
    }
}

/// The API key for a backend: the one given on the command line, else the
/// first of `env_values` (the values of `key_env_vars(kind)`, in order) that
/// is set; when there is none, the backend's complaint.
pub fn require_api_key(kind: BackendKind, cli: Option<String>, env_values: Vec<Option<String>>) -> (r:
    Result<String, String>)
    ensures
        match first_some(seq![cli] + env_values@) {
            Some(k) => r == Ok::<String, String>(k),
            None => r matches Err(m) && m@ == missing_key_text(kind),
        },
{
    let ghost all = seq![cli] + env_values@;
    assert(all.drop_first() =~= env_values@);
    if let Some(k) = cli {
        return Ok(k);
    }
    match first_set(env_values) {
        Some(k) => {
            return Ok(k);
        },
        None => {},
    }
    Err(owned(missing_api_key_message(kind)))
}

/// Whether a backend needs an API key: the hosted ones do; Ollama and the
/// browser do not.
pub open spec fn needs_key(kind: BackendKind) -> bool {
    key_env_vars(kind).len() > 0
}

/// The API key a backend is built with, given the command line's key and
/// the values of `key_env_vars(kind)`, in order: none for a backend that
/// needs no key; otherwise the command line's key, else the first variable
/// that is set, else the backend's complaint.
pub fn backend_api_key(kind: BackendKind, cli: Option<String>, env_values: Vec<Option<String>>) -> (r:
    Result<Option<String>, String>)
    ensures
        !needs_key(kind) ==> r == Ok::<Option<String>, String>(None),
        needs_key(kind) ==> match first_some(seq![cli] + env_values@) {
            Some(k) => r == Ok::<Option<String>, String>(Some(k)),
            None => r matches Err(m) && m@ == missing_key_text(kind),
        },
{
    let needs = match kind {
        BackendKind::Groq | BackendKind::Gemini | BackendKind::Together | BackendKind::OpenAi => true,
        _ => false,
    };
    assert(needs == needs_key(kind));
    if !needs {
        return Ok(None);
    }
    match require_api_key(kind, cli, env_values) {
        Ok(k) => Ok(Some(k)),
        Err(m) => Err(m),
    }
}

/// Law: a backend that needs a key gets one exactly when the command line
/// gives one or one of its variables is set; the command line's key wins.
pub proof fn lemma_api_key_found(cli: Option<String>, env_values: Seq<Option<String>>)
    ensures
        first_some(seq![cli] + env_values) is Some <==> (cli is Some || exists|i: int|
            0 <= i < env_values.len() && env_values[i] is Some),
        cli is Some ==> first_some(seq![cli] + env_values) == cli,
{
    assert((seq![cli] + env_values).drop_first() =~= env_values);
    lemma_first_some_found(env_values);
}

/// Some value is present exactly when one of `vs` is.
proof fn lemma_first_some_found(vs: Seq<Option<String>>)
    ensures
        first_some(vs) is Some <==> exists|i: int| 0 <= i < vs.len() && vs[i] is Some,
    decreases vs.len(),
{
    if vs.len() > 0 {
        lemma_first_some_found(vs.drop_first());
        if exists|i: int| 0 <= i < vs.len() && vs[i] is Some {
            let i = choose|i: int| 0 <= i < vs.len() && vs[i] is Some;
            if i > 0 {
                assert(vs.drop_first()[i - 1] is Some);
            }
        }
        if exists|i: int| 0 <= i < vs.drop_first().len() && vs.drop_first()[i] is Some {
            let i = choose|i: int| 0 <= i < vs.drop_first().len() && vs.drop_first()[i] is Some;
            assert(vs[i + 1] is Some);
        }
    }
}

/// The OpenAI API's base URL, unless one is given.
pub const OPENAI_BASE_URL: &'static str = "https://api.openai.com/v1";

/// The OpenAI model, unless one is given.
pub const OPENAI_DEFAULT_MODEL: &'static str = "gpt-4o-mini";

/// Settings for the OpenAI API.
pub fn openai_settings(base_url: Option<String>, api_key: String, model: Option<String>) -> (r:
    ProviderSettings)
    ensures
        r.base_url@ == match base_url {
            Some(b) => b@,
            None => OPENAI_BASE_URL@,
        },
        r.api_key == api_key,
        r.model@ == match model {
            Some(m) => m@,
            None => OPENAI_DEFAULT_MODEL@,
        },
        r.display_name@ == "openai"@,
{
    ProviderSettings {
        base_url: model_or(base_url, OPENAI_BASE_URL),
        api_key,
        model: model_or(model, OPENAI_DEFAULT_MODEL),
        display_name: "openai",
    }
}

/// The name of the settings file, in the configuration directory.
pub const CONFIG_FILE_NAME: &'static str = "chatbang.ini";

/// The browser profile's directory, in the configuration directory.
pub const PROFILE_DIR_NAME: &'static str = "profile_data";

/// A line without its final carriage return, if it has one.
pub open spec fn strip_cr(l: Seq<char>) -> Seq<char> {
    if l.len() > 0 && l.last() == '\r' {
        l.drop_last()
    } else {
        l
    }
}

/// The lines of a text: split at `\n`, each without a final `\r` before
/// the `\n`; a final line without `\n` is kept as it is, and no empty line
/// follows a final `\n`.
pub open spec fn lines_of(s: Seq<char>) -> Seq<Seq<char>>
    decreases s.len(),
{
    if s.len() == 0 {
        seq![]
    } else {
        match char_index(s, '\n') {
            None => seq![s],
            Some(i) => {
                proof {
                    lemma_char_index(s, '\n');
                }
                seq![strip_cr(s.take(i))] + lines_of(s.skip(i + 1))
            },
        }
    }
}

/// The browser a settings line names: a line that is not blank and not a
/// `#` comment, of the form `key = value`, whose trimmed key is `browser`
/// and whose trimmed value is not empty.
pub open spec fn browser_setting(line: Seq<char>) -> Option<Seq<char>> {
    let t = trim(line);
    if t.len() == 0 || t[0] == '#' {
        None
    } else {
        match char_index(line, '=') {
            None => None,
            Some(j) => {
                let key = trim(line.take(j));
                let value = trim(line.skip(j + 1));
                if key == "browser"@ && value.len() > 0 {
                    Some(value)
                } else {
                    None
                }
            },
        }
    }
}

/// The browser that the first line naming one names.
pub open spec fn first_browser_setting(lines: Seq<Seq<char>>) -> Option<Seq<char>>
    decreases lines.len(),
{
    if lines.len() == 0 {
        None
    } else {
        match browser_setting(lines[0]) {
            Some(v) => Some(v),
            None => first_browser_setting(lines.drop_first()),
        }
    }
}

/// The position of the first `c` in `t[lo..hi]`, or `hi`.
pub(crate) fn find_char(t: &Vec<char>, c: char, lo: usize, hi: usize) -> (r: usize)
    requires
        lo <= hi <= t@.len(),
    ensures
        lo <= r <= hi,
        r < hi ==> t@[r as int] == c,
        forall|q: int| lo <= q < r ==> t@[q] != c,
        char_index(t@.subrange(lo as int, hi as int), c) == if r < hi {
            Some((r - lo) as int)
        } else {
            None::<int>
        },
{
    let mut j = lo;
    while j < hi && t[j] != c
        invariant
            lo <= j <= hi <= t@.len(),
            forall|q: int| lo <= q < j ==> t@[q] != c,
        decreases hi - j,
    {
        j = j + 1;
    }
    let ghost s = t@.subrange(lo as int, hi as int);
    proof {
        lemma_char_index(s, c);
        match char_index(s, c) {
            Some(i) => {
                if i < j - lo {
                    assert(s[i] == t@[lo + i]);
                }
                if j < hi && i > j - lo {
                    assert(s[j - lo] == t@[j as int]);
                }
                if j == hi {
                    assert(s[i] == t@[lo + i]);
                }
            },
            None => {
                if j < hi {
                    assert(s[j - lo] == t@[j as int]);
                }
            },
        }
    }
    j
}

/// The browser that the line `t[lo..hi]` names.
fn line_setting(t: &Vec<char>, lo: usize, hi: usize) -> (r: Option<String>)
    requires
        lo <= hi <= t@.len(),
    ensures
        match r {
            Some(v) => browser_setting(t@.subrange(lo as int, hi as int)) == Some(v@),
            None => browser_setting(t@.subrange(lo as int, hi as int)) is None,
        },
{
    let ghost line = t@.subrange(lo as int, hi as int);
    let (a, b) = trim_bounds(t, lo, hi);
    if a == b {
        return None;
    }
    if t[a] == '#' {
        assert(trim(line)[0] == t@[a as int]);
        return None;
    }
    let j = find_char(t, '=', lo, hi);
    if j == hi {
        return None;
    }
    assert(line.take((j - lo) as int) =~= t@.subrange(lo as int, j as int));
    assert(line.skip((j - lo) + 1) =~= t@.subrange(j + 1, hi as int));
    let (ka, kb) = trim_bounds(t, lo, j);
    let (va, vb) = trim_bounds(t, j + 1, hi);
    let key = string_from(t, ka, kb);
    proof {
        reveal_strlit("browser");
    }
    if text_eq(key.as_str(), "browser") && va < vb {
        Some(string_from(t, va, vb))
    } else {
        None
    }
}

/// The browser path saved in the settings text, or an empty string.
pub fn saved_browser_path(raw: &str) -> (r: String)
    ensures
        r@ == match first_browser_setting(lines_of(raw@)) {
            Some(v) => v,
            None => seq![],
        },
{
    let t = chars_of(raw);
    let mut pos: usize = 0;
    assert(t@.skip(0) =~= t@);
    while pos < t.len()
        invariant
            pos <= t@.len(),
            t@ == raw@,
            first_browser_setting(lines_of(raw@)) == first_browser_setting(
                lines_of(t@.skip(pos as int)),
            ),
        decreases t@.len() - pos,
    {
        let ghost rest = t@.skip(pos as int);
        let e = find_char(&t, '\n', pos, t.len());
        assert(t@.subrange(pos as int, t@.len() as int) =~= rest);
        // The line's end, without a carriage return before a newline.
        let end = if e < t.len() && e > pos && t[e - 1] == '\r' {
            e - 1
        } else {
            e
        };
        proof {
            if e < t@.len() {
                assert(rest.take((e - pos) as int) =~= t@.subrange(pos as int, e as int));
                assert(strip_cr(rest.take((e - pos) as int)) =~= t@.subrange(pos as int, end as int));
                assert(rest.skip((e - pos) + 1) =~= t@.skip(e + 1));
                assert(lines_of(rest) == seq![strip_cr(rest.take((e - pos) as int))] + lines_of(
                    rest.skip((e - pos) + 1),
                ));
                let ls = lines_of(rest);
                assert(ls.drop_first() =~= lines_of(t@.skip(e + 1)));
            } else {
                assert(lines_of(rest) == seq![rest]);
                assert(lines_of(rest).drop_first() =~= Seq::<Seq<char>>::empty());
                assert(t@.skip(t@.len() as int) =~= Seq::<char>::empty());
            }
        }
        match line_setting(&t, pos, end) {
            Some(v) => {
                return v;
            },
            None => {},
        }
        pos = if e < t.len() {
            e + 1
        } else {
            t.len()
        };
    }
    assert(t@.skip(pos as int) =~= Seq::<char>::empty());
    String::new()
}

/// The settings line that saves a browser path.
pub fn browser_config_line(path: &str) -> (r: String)
    ensures
        r@ == "browser="@ + path@ + "\n"@,
{
    let mut r = owned("browser=");
    push_str(&mut r, path);
    push_str(&mut r, "\n");
    r
}

/// Law: a browser path saved with `browser_config_line` is read back by
/// `saved_browser_path`, for a non-empty path that has no white space at
/// either end and no line break.
pub proof fn lemma_saved_browser_round_trip(p: Seq<char>)
    requires
        p.len() > 0,
        trim(p) == p,
        char_index(p, '\n') is None,
    ensures
        first_browser_setting(lines_of("browser="@ + p + "\n"@)) == Some(p),
{
    reveal_strlit("browser=");
    reveal_strlit("browser");
    reveal_strlit("\n");
    let head = "browser="@;
    let s = head + p + "\n"@;
    let n = (head.len() + p.len()) as int;
    lemma_char_index(p, '\n');
    lemma_trimmed_ends(p);
    assert forall|j: int| 0 <= j < n implies s[j] != '\n' by {
        if j >= head.len() {
            assert(s[j] == p[j - head.len()]);
        }
    }
    lemma_char_index_at(s, '\n', n);
    let line = s.take(n);
    assert(line =~= head + p);
    assert(s.skip(n + 1) =~= Seq::<char>::empty());
    assert(lines_of(s.skip(n + 1)) =~= Seq::<Seq<char>>::empty());
    assert(lines_of(s) == seq![strip_cr(s.take(n))] + lines_of(s.skip(n + 1)));
    assert(lines_of(s) =~= seq![strip_cr(line)]);
    assert(line.last() == p.last());
    assert(strip_cr(line) == line);
    lemma_trimmed_ends(line);
    assert(trim(line) == line);
    lemma_char_index_at(line, '=', 7);
    assert(line.take(7) =~= "browser"@);
    lemma_trimmed_ends("browser"@);
    assert(line.skip(8) =~= p);
    assert(browser_setting(line) == Some(p));
    assert(seq![line].drop_first() =~= Seq::<Seq<char>>::empty());
}

/// The error when no Chromium-based browser can be found.
pub fn no_browser_message(config_path: &str) -> (r: String)
    ensures
        r@ == "No Chromium-based browser found.\nInstall Chrome, Edge, or Brave, then optionally set\nbrowser=<path>  in:  "@
            + config_path@,
{
    let mut r = owned(
        "No Chromium-based browser found.\nInstall Chrome, Edge, or Brave, then optionally set\nbrowser=<path>  in:  ",
    );
    push_str(&mut r, config_path);
    r
}

} // verus!
