//! Google Gemini, through its OpenAI-compatible endpoint.
use vstd::prelude::*;

use crate::backends::{model_or, ProviderSettings};

verus! {

/// The provider's base URL.
pub const BASE_URL: &'static str = "https://generativelanguage.googleapis.com/v1beta/openai";

/// The default model.
pub const DEFAULT_MODEL: &'static str = "gemini-1.5-flash";

/// Settings for the provider: its base URL, the given key, and the model
/// asked for or the default.
pub fn settings(api_key: String, model: Option<String>) -> (r: ProviderSettings)
    ensures
        r.base_url@ == BASE_URL@,
        r.api_key == api_key,
        r.model@ == match model {
            Some(m) => m@,
            None => DEFAULT_MODEL@,
        },
        r.display_name@ == "gemini"@,
{
    ProviderSettings {
        base_url: crate::text::owned(BASE_URL),
        api_key,
        model: model_or(model, DEFAULT_MODEL),
        display_name: "gemini",
    }
}

} // verus!
