use vstd::prelude::*;
use crate::options::ChainOptions;
use crate::prompt_value::PromptValue;

verus! {

/// Token accounting for one model invocation, split into the tokens the
/// prompt consumed and the tokens the completion produced.
///
/// Every value built through `new`, `sum` or `add` keeps
/// `total_tokens == prompt_tokens + completion_tokens`; a manually
/// constructed value is not forced to.
#[derive(Debug, Clone, Copy, PartialEq, Eq, Structural)]
pub struct TokenUsage {
    pub prompt_tokens: u32,
    pub completion_tokens: u32,
    pub total_tokens: u32,
}

/// The pairwise field sum of two usages, as unbounded integers.
pub open spec fn spec_sum(a: TokenUsage, b: TokenUsage) -> (int, int, int) {
    (
        a.prompt_tokens + b.prompt_tokens,
        a.completion_tokens + b.completion_tokens,
        a.total_tokens + b.total_tokens,
    )
}

/// Whether a usage keeps the invariant that its total is the sum of its
/// prompt and completion counts.
pub open spec fn consistent(u: TokenUsage) -> bool {
    u.total_tokens == u.prompt_tokens + u.completion_tokens
}

impl TokenUsage {
    pub fn new(prompt_tokens: u32, completion_tokens: u32) -> (r: Self)
        requires
            prompt_tokens + completion_tokens <= u32::MAX,
        ensures
            r.prompt_tokens == prompt_tokens,
            r.completion_tokens == completion_tokens,
            r.total_tokens == prompt_tokens + completion_tokens,
            consistent(r),
    {
        TokenUsage {
            prompt_tokens,
            completion_tokens,
            total_tokens: prompt_tokens + completion_tokens,
        }
    }

    pub fn sum(&self, other: &TokenUsage) -> (r: TokenUsage)
        requires
            self.prompt_tokens + other.prompt_tokens <= u32::MAX,
            self.completion_tokens + other.completion_tokens <= u32::MAX,
            self.total_tokens + other.total_tokens <= u32::MAX,
        ensures
            (r.prompt_tokens as int, r.completion_tokens as int, r.total_tokens as int)
                == spec_sum(*self, *other),
    {
        TokenUsage {
            prompt_tokens: self.prompt_tokens + other.prompt_tokens,
            completion_tokens: self.completion_tokens + other.completion_tokens,
            total_tokens: self.total_tokens + other.total_tokens,
        }
    }

    pub fn add(&mut self, other: &TokenUsage)
        requires
            old(self).prompt_tokens + other.prompt_tokens <= u32::MAX,
            old(self).completion_tokens + other.completion_tokens <= u32::MAX,
            old(self).total_tokens + other.total_tokens <= u32::MAX,
        ensures
            (
                final(self).prompt_tokens as int,
                final(self).completion_tokens as int,
                final(self).total_tokens as int,
            ) == spec_sum(*old(self), *other),
    {
        self.prompt_tokens = self.prompt_tokens + other.prompt_tokens;
        self.completion_tokens = self.completion_tokens + other.completion_tokens;
        self.total_tokens = self.total_tokens + other.total_tokens;
    }
}

/// Summing two consistent usages yields a consistent usage: the law
/// behind both `sum` and `add`, stated over the pairwise field sums.
pub proof fn lemma_sum_preserves_consistency(a: TokenUsage, b: TokenUsage)
    requires
        consistent(a),
        consistent(b),
    ensures
        spec_sum(a, b).2 == spec_sum(a, b).0 + spec_sum(a, b).1,
{
}

impl Default for TokenUsage {
    fn default() -> (r: Self)
        ensures
            r.prompt_tokens == 0,
            r.completion_tokens == 0,
            r.total_tokens == 0,
            consistent(r),
    {
        TokenUsage { prompt_tokens: 0, completion_tokens: 0, total_tokens: 0 }
    }
}

/// The outcome of one model invocation: the generated text, and the
/// token usage when the backend reports it.
#[derive(Debug, Clone, PartialEq)]
pub struct GenerateResult {
    pub tokens: Option<TokenUsage>,
    pub generation: String,
}

impl Default for GenerateResult {
    fn default() -> (r: Self)
        ensures
            r.tokens is None,
            r.generation@ == Seq::<char>::empty(),
    {
        GenerateResult { tokens: None, generation: String::new() }
    }
}

/// The contract any language-model backend satisfies: given a computed
/// prompt and the caller's options (stop sequences, an output-size
/// hint), return a generation or fail with an opaque backend message.
///
/// Implementations live outside this library; nothing is promised of
/// the result, and the chains state what they do with every outcome.
pub trait LLM {
    fn generate(&mut self, prompt: &PromptValue, options: &ChainOptions) -> Result<
        GenerateResult,
        String,
    >;
}

} // verus!
