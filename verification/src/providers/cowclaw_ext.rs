//! Token limits of the ZAI GLM and MiniMax model families.
use vstd::prelude::*;
use super::ModelTokenLimit;
use crate::text::{chars_of, chars_eq_str};

verus! {

/// A limit of `output` output tokens in a window of `window` tokens.
pub open spec fn limit(output: u32, window: u32) -> Option<ModelTokenLimit> {
    Some(ModelTokenLimit { max_output_tokens: output, context_window_tokens: window })
}

/// The token limits of the models that this module knows, by model key.
pub open spec fn known_limit(m: Seq<char>) -> Option<ModelTokenLimit> {
    if m == "glm-5.1"@ || m == "glm-5"@ || m == "glm-5-turbo"@ {
        limit(16_384, 200_000)
    } else if m == "glm-4.7"@ || m == "glm-4.7-flashx"@ || m == "glm-4.7-flash"@ {
        limit(16_384, 200_000)
    } else if m == "glm-4.6"@ {
        limit(16_384, 200_000)
    } else if m == "glm-4.5"@ || m == "glm-4.5-air"@ {
        limit(16_384, 128_000)
    } else if m == "minimax-m2.7"@ || m == "minimax-m2.7-highspeed"@ || m == "minimax-m2.5"@
        || m == "m2.7"@ || m == "m2.7-highspeed"@ || m == "m2.5"@ {
        limit(16_384, 200_000)
    } else if m == "minimax-m2"@ || m == "m2"@ {
        limit(128_000, 200_000)
    } else {
        None
    }
}

/// Token limits for the ZAI GLM and MiniMax models, by the lower-cased,
/// prefix-stripped model key (`"glm-5.1"`, `"m2.7"`); `None` for any other key.
pub fn model_token_limit_fallback(model: &str) -> (r: Option<ModelTokenLimit>)
    ensures
        r == known_limit(model@),
{
    let m = chars_of(model);
    if chars_eq_str(&m, "glm-5.1") || chars_eq_str(&m, "glm-5") || chars_eq_str(&m, "glm-5-turbo") {
        Some(ModelTokenLimit { max_output_tokens: 16_384, context_window_tokens: 200_000 })
    } else if chars_eq_str(&m, "glm-4.7") || chars_eq_str(&m, "glm-4.7-flashx") || chars_eq_str(
        &m,
        "glm-4.7-flash",
    ) {
        Some(ModelTokenLimit { max_output_tokens: 16_384, context_window_tokens: 200_000 })
    } else if chars_eq_str(&m, "glm-4.6") {
        Some(ModelTokenLimit { max_output_tokens: 16_384, context_window_tokens: 200_000 })
    } else if chars_eq_str(&m, "glm-4.5") || chars_eq_str(&m, "glm-4.5-air") {
        Some(ModelTokenLimit { max_output_tokens: 16_384, context_window_tokens: 128_000 })
    } else if chars_eq_str(&m, "minimax-m2.7") || chars_eq_str(&m, "minimax-m2.7-highspeed")
        || chars_eq_str(&m, "minimax-m2.5") || chars_eq_str(&m, "m2.7") || chars_eq_str(
        &m,
        "m2.7-highspeed",
    ) || chars_eq_str(&m, "m2.5") {
        Some(ModelTokenLimit { max_output_tokens: 16_384, context_window_tokens: 200_000 })
    } else if chars_eq_str(&m, "minimax-m2") || chars_eq_str(&m, "m2") {
        Some(ModelTokenLimit { max_output_tokens: 128_000, context_window_tokens: 200_000 })
    } else {
        None
    }
}

} // verus!
