//! The local Ollama daemon, reached through its chat-completions endpoint.
//! No API key is needed; before each chat the daemon's model list is probed
//! so that a stopped daemon is reported clearly.
use vstd::prelude::*;

use crate::backends::{model_or, ProviderSettings};
use crate::text::{chars_of, find_from, first_at, lemma_first_at, owned, push_range, push_str};

verus! {

/// The default base URL.
pub const DEFAULT_BASE_URL: &'static str = "http://localhost:11434/v1";

/// The default model.
pub const DEFAULT_MODEL: &'static str = "llama3.1";

/// Settings for the daemon: the base URL and model asked for, or the
/// defaults; no API key.
pub fn settings(base_url: Option<String>, model: Option<String>) -> (r: ProviderSettings)
    ensures
        r.base_url@ == match base_url {
            Some(b) => b@,
            None => DEFAULT_BASE_URL@,
        },
        r.model@ == match model {
            Some(m) => m@,
            None => DEFAULT_MODEL@,
        },
        r.api_key@.len() == 0,
        r.display_name@ == "ollama"@,
{
    ProviderSettings {
        base_url: model_or(base_url, DEFAULT_BASE_URL),
        api_key: String::new(),
        model: model_or(model, DEFAULT_MODEL),
        display_name: "ollama",
    }
}

/// `s` from position `i` on, with every occurrence of `from` replaced by
/// `to`, scanning left to right without overlap.
pub open spec fn replace_from(s: Seq<char>, from: Seq<char>, to: Seq<char>, i: int) -> Seq<char>
    decreases s.len() - i,
{
    if from.len() == 0 || i < 0 || i > s.len() {
        seq![]
    } else {
        match first_at(s, from, i) {
            None => s.subrange(i, s.len() as int),
            Some(p) => {
                proof {
                    lemma_first_at(s, from, i);
                }
                s.subrange(i, p) + to + replace_from(s, from, to, p + from.len())
            },
        }
    }
}

/// The URL of the daemon's model list: the base URL with every `/v1`
/// replaced by `/api/tags`.
pub open spec fn tags_url_of(base_url: Seq<char>) -> Seq<char> {
    replace_from(base_url, "/v1"@, "/api/tags"@, 0)
}

/// The URL of the daemon's model list, probed to see whether it is up.
pub fn tags_url(base_url: &str) -> (r: String)
    ensures
        r@ == tags_url_of(base_url@),
{
    let t = chars_of(base_url);
    let from = chars_of("/v1");
    proof {
        reveal_strlit("/v1");
    }
    let mut r = String::new();
    let mut i: usize = 0;
    while i <= t.len()
        invariant_except_break
            i <= t@.len(),
            from@ == "/v1"@,
            from@.len() == 3,
            replace_from(t@, from@, "/api/tags"@, 0) == r@ + replace_from(
                t@,
                from@,
                "/api/tags"@,
                i as int,
            ),
        ensures
            replace_from(t@, from@, "/api/tags"@, 0) == r@,
        decreases t@.len() + 1 - i,
    {
        proof {
            lemma_first_at(t@, from@, i as int);
        }
        match find_from(&t, &from, i) {
            None => {
                let ghost before = r@;
                push_range(&mut r, &t, i, t.len());
                assert(replace_from(t@, from@, "/api/tags"@, i as int) == t@.subrange(
                    i as int,
                    t@.len() as int,
                ));
                assert(r@ == before + t@.subrange(i as int, t@.len() as int));
                break;
            },
            Some(p) => {
                let ghost before = r@;
                push_range(&mut r, &t, i, p);
                push_str(&mut r, "/api/tags");
                let ghost next = p + from@.len();
                assert(replace_from(t@, from@, "/api/tags"@, i as int) == t@.subrange(i as int, p as int)
                    + "/api/tags"@ + replace_from(t@, from@, "/api/tags"@, next));
                assert(before + (t@.subrange(i as int, p as int) + "/api/tags"@ + replace_from(
                    t@,
                    from@,
                    "/api/tags"@,
                    next,
                )) =~= r@ + replace_from(t@, from@, "/api/tags"@, next));
                i = p + from.len();
            },
        }
    }
    r
}

/// The error for a daemon that does not answer.
pub fn unreachable_message(base_url: &str) -> (r: String)
    ensures
        r@ == "Ollama is not reachable at "@ + base_url@
            + ". Install it from https://ollama.com and run `ollama serve` in another terminal, then try again."@,
{
    let mut r = owned("Ollama is not reachable at ");
    push_str(&mut r, base_url);
    push_str(
        &mut r,
        ". Install it from https://ollama.com and run `ollama serve` in another terminal, then try again.",
    );
    r
}

} // verus!
