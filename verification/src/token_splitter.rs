use vstd::prelude::*;
use crate::text_splitter::{chunks_of, SplitterOptions};

verus! {

/// The contract any tokenizer satisfies: encode text as the backing
/// model's token ids, and decode ids back to text. Implementations
/// live outside this library; nothing is promised of either result.
pub trait Tokenizer {
    fn encode(&mut self, text: &str) -> Vec<u64>;

    fn decode(&mut self, tokens: &Vec<u64>) -> String;
}

/// The ids of `tokens` between `from` and `to`.
fn take_range(tokens: &Vec<u64>, from: usize, to: usize) -> (r: Vec<u64>)
    requires
        from <= to <= tokens@.len(),
    ensures
        r@ == tokens@.subrange(from as int, to as int),
{
    let mut r: Vec<u64> = Vec::new();
    let mut i: usize = from;
    while i < to
        invariant
            from <= i <= to <= tokens@.len(),
            r@ == tokens@.subrange(from as int, i as int),
        decreases to - i,
    {
        r.push(tokens[i]);
        proof {
            assert(tokens@.subrange(from as int, i + 1) =~= tokens@.subrange(
                from as int,
                i as int,
            ).push(tokens@[i as int]));
        }
        i = i + 1;
    }
    r
}

/// Cuts a token-id sequence into groups of at most `chunk_size` ids,
/// consecutive groups repeating the last `chunk_overlap` ids across
/// the boundary: the verified core of token splitting.
pub fn split_token_groups(tokens: &Vec<u64>, options: &SplitterOptions) -> (r: Vec<Vec<u64>>)
    requires
        options.valid(),
    ensures
        r.deep_view() == chunks_of(tokens@, options.chunk_size as int, options.spec_step()),
{
    let size = options.chunk_size;
    let step = size - options.chunk_overlap;
    let n = tokens.len();
    let mut res: Vec<Vec<u64>> = Vec::new();
    let mut i: usize = 0;
    proof {
        assert(tokens@.skip(0) =~= tokens@);
    }
    while i < n
        invariant
            i <= n,
            n == tokens@.len(),
            1 <= step <= size,
            size == options.chunk_size,
            step == options.spec_step(),
            chunks_of(tokens@, size as int, step as int) == res.deep_view() + chunks_of(
                tokens@.skip(i as int),
                size as int,
                step as int,
            ),
        decreases n - i,
    {
        let ghost r0 = res.deep_view();
        let ghost rem = tokens@.skip(i as int);
        if n - i <= size {
            let piece = take_range(tokens, i, n);
            res.push(piece);
            proof {
                assert(rem =~= tokens@.subrange(i as int, n as int));
                assert(chunks_of(rem, size as int, step as int) == seq![rem]);
                assert(res.deep_view() =~~= r0.push(rem));
                assert(r0 + seq![rem] =~= r0.push(rem));
                assert(tokens@.skip(n as int) =~= Seq::<u64>::empty());
                assert(r0.push(rem) + Seq::<Seq<u64>>::empty() =~= r0.push(rem));
            }
            i = n;
        } else {
            let piece = take_range(tokens, i, i + size);
            res.push(piece);
            proof {
                assert(rem.subrange(0, size as int) =~= tokens@.subrange(i as int, i + size));
                assert(res.deep_view() =~~= r0.push(rem.subrange(0, size as int)));
                assert(rem.skip(step as int) =~= tokens@.skip(i + step));
                assert(chunks_of(rem, size as int, step as int) == seq![rem.subrange(
                    0,
                    size as int,
                )] + chunks_of(tokens@.skip(i + step), size as int, step as int));
                assert(r0 + (seq![rem.subrange(0, size as int)] + chunks_of(
                    tokens@.skip(i + step),
                    size as int,
                    step as int,
                )) =~= r0.push(rem.subrange(0, size as int)) + chunks_of(
                    tokens@.skip(i + step),
                    size as int,
                    step as int,
                ));
            }
            i = i + step;
        }
    }
    proof {
        assert(tokens@.skip(n as int) =~= Seq::<u64>::empty());
        assert(res.deep_view() + Seq::<Seq<u64>>::empty() =~= res.deep_view());
    }
    res
}

/// A splitter that measures chunks in model tokens, as counted by an
/// external tokenizer, rather than in characters: the text is encoded
/// once, the id sequence is cut into bounded groups, and each group is
/// decoded back to text.
#[derive(Debug)]
pub struct TokenSplitter<T: Tokenizer> {
    pub options: SplitterOptions,
    pub tokenizer: T,
}

impl<T: Tokenizer> TokenSplitter<T> {
    pub fn new(options: SplitterOptions, tokenizer: T) -> (r: Self)
        ensures
            r.options == options,
    {
        TokenSplitter { options, tokenizer }
    }

    /// Encodes the text, cuts the ids with `split_token_groups` (so
    /// every group holds at most `chunk_size` ids), and decodes each
    /// group. What the decoded chunks look like rests with the
    /// tokenizer, so nothing is stated of them here.
    pub fn split_text(&mut self, text: &str) -> (r: Vec<String>)
        requires
            old(self).options.valid(),
    {
        let ids = self.tokenizer.encode(text);
        let groups = split_token_groups(&ids, &self.options);
        let mut out: Vec<String> = Vec::new();
        let mut i: usize = 0;
        while i < groups.len()
            decreases groups.len() - i,
        {
            let piece = self.tokenizer.decode(&groups[i]);
            out.push(piece);
            i = i + 1;
        }
        out
    }
}

} // verus!
