use promptchain::language_models::{GenerateResult, TokenUsage};

#[test]
fn new_sets_total_to_prompt_plus_completion() {
    let u = TokenUsage::new(2, 3);
    assert_eq!(u.prompt_tokens, 2);
    assert_eq!(u.completion_tokens, 3);
    assert_eq!(u.total_tokens, 5);
}

#[test]
fn sum_adds_fields_pairwise() {
    let a = TokenUsage::new(2, 3);
    let b = TokenUsage::new(10, 20);
    let c = a.sum(&b);
    assert_eq!(c.prompt_tokens, 12);
    assert_eq!(c.completion_tokens, 23);
    assert_eq!(c.total_tokens, 35);
    assert_eq!(c.total_tokens, c.prompt_tokens + c.completion_tokens);
}

#[test]
fn add_mutates_like_sum() {
    let mut a = TokenUsage::new(2, 3);
    let b = TokenUsage::new(10, 20);
    let summed = a.sum(&b);
    a.add(&b);
    assert_eq!(a, summed);
    assert_eq!(a.total_tokens, a.prompt_tokens + a.completion_tokens);
}

#[test]
fn default_usage_is_all_zeros() {
    let u = TokenUsage::default();
    assert_eq!(u.prompt_tokens, 0);
    assert_eq!(u.completion_tokens, 0);
    assert_eq!(u.total_tokens, 0);
}

#[test]
fn default_generate_result_is_empty() {
    let g = GenerateResult::default();
    assert_eq!(g.generation, "");
    assert!(g.tokens.is_none());
}
