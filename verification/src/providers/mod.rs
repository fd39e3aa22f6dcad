//! Provider-specific knowledge.
pub mod cowclaw_ext;

use vstd::prelude::*;

verus! {

/// Output and context limits of a model, in tokens.
#[derive(Debug, Clone, Copy, PartialEq, Eq, Structural)]
pub struct ModelTokenLimit {
    pub max_output_tokens: u32,
    pub context_window_tokens: u32,
}

} // verus!
