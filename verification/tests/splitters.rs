use promptchain::errors::ChainError;
use promptchain::text_splitter::{SplitterOptions, TextSplitter};
use promptchain::token_splitter::{split_token_groups, TokenSplitter, Tokenizer};

#[test]
fn options_reject_overlap_not_smaller_than_size() {
    assert!(matches!(
        SplitterOptions::new(4, 4),
        Err(ChainError::ConfigurationError(_))
    ));
    assert!(matches!(
        SplitterOptions::new(0, 0),
        Err(ChainError::ConfigurationError(_))
    ));
    assert!(SplitterOptions::new(4, 3).is_ok());
}

#[test]
fn text_splitter_bounds_and_overlaps_chunks() {
    let splitter = TextSplitter::new(SplitterOptions::new(5, 2).unwrap());
    let chunks = splitter.split_text("abcdefgh");
    assert_eq!(chunks, vec!["abcde".to_string(), "defgh".to_string()]);
    for c in &chunks {
        assert!(c.chars().count() <= 5);
    }
    // Consecutive chunks share exactly the two overlap characters.
    assert_eq!(&chunks[0][3..], &chunks[1][..2]);
    // Dropping the repeated overlap reproduces the original text.
    let mut rebuilt = String::new();
    rebuilt.push_str(&chunks[0][..3]);
    rebuilt.push_str(&chunks[1]);
    assert_eq!(rebuilt, "abcdefgh");
}

#[test]
fn text_splitter_short_text_is_one_chunk() {
    let splitter = TextSplitter::new(SplitterOptions::new(10, 3).unwrap());
    assert_eq!(splitter.split_text("tiny"), vec!["tiny".to_string()]);
}

#[test]
fn text_splitter_empty_text_has_no_chunks() {
    let splitter = TextSplitter::new(SplitterOptions::new(10, 3).unwrap());
    assert_eq!(splitter.split_text(""), Vec::<String>::new());
}

#[test]
fn text_splitter_without_overlap_partitions_text() {
    let splitter = TextSplitter::new(SplitterOptions::new(3, 0).unwrap());
    let chunks = splitter.split_text("abcdefgh");
    assert_eq!(
        chunks,
        vec!["abc".to_string(), "def".to_string(), "gh".to_string()]
    );
    assert_eq!(chunks.concat(), "abcdefgh");
}

/// A one-byte-per-token tokenizer, for exercising the token splitter
/// with a deterministic token count.
struct ByteTokenizer;

impl Tokenizer for ByteTokenizer {
    fn encode(&mut self, text: &str) -> Vec<u64> {
        text.bytes().map(|b| b as u64).collect()
    }

    fn decode(&mut self, tokens: &Vec<u64>) -> String {
        let bytes: Vec<u8> = tokens.iter().map(|t| *t as u8).collect();
        String::from_utf8(bytes).unwrap()
    }
}

#[test]
fn token_groups_are_bounded_by_chunk_size() {
    let options = SplitterOptions::new(4, 1).unwrap();
    let tokens: Vec<u64> = (0..11).collect();
    let groups = split_token_groups(&tokens, &options);
    assert!(!groups.is_empty());
    for g in &groups {
        assert!(!g.is_empty() && g.len() <= 4);
    }
    assert_eq!(groups[0], vec![0, 1, 2, 3]);
    assert_eq!(groups[1], vec![3, 4, 5, 6]);
}

#[test]
fn token_splitter_chunks_respect_token_budget() {
    let mut tokenizer = ByteTokenizer;
    let mut splitter = TokenSplitter::new(SplitterOptions::new(4, 0).unwrap(), ByteTokenizer);
    let chunks = splitter.split_text("abcdefghij");
    assert_eq!(
        chunks,
        vec!["abcd".to_string(), "efgh".to_string(), "ij".to_string()]
    );
    for c in &chunks {
        assert!(tokenizer.encode(c).len() <= 4);
    }
}
