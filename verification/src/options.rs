use vstd::prelude::*;

verus! {

/// Execution configuration a chain accepts beyond its prompt. Unset
/// options leave the backend to its own defaults.
#[derive(Debug)]
pub struct ChainOptions {
    /// The output key under which a multi-output chain surfaces its
    /// primary generation.
    pub output_key: Option<String>,
    /// Stop sequences forwarded to the model backend.
    pub stop_words: Option<Vec<String>>,
    /// A maximum-output-token hint forwarded to the model backend.
    pub max_tokens: Option<u32>,
}

impl Default for ChainOptions {
    fn default() -> (r: Self)
        ensures
            r.output_key is None,
            r.stop_words is None,
            r.max_tokens is None,
    {
        ChainOptions { output_key: None, stop_words: None, max_tokens: None }
    }
}

} // verus!
