use vstd::prelude::*;
use crate::errors::ChainError;

verus! {

/// Splitting configuration: the largest number of units one chunk may
/// hold, and how many trailing units of a chunk are repeated at the
/// start of the next.
#[derive(Debug, Clone, Copy, PartialEq, Eq, Structural)]
pub struct SplitterOptions {
    pub chunk_size: usize,
    pub chunk_overlap: usize,
}

impl SplitterOptions {
    /// Whether the configuration is usable: chunks are nonempty and
    /// the overlap leaves every step forward.
    pub open spec fn valid(&self) -> bool {
        1 <= self.chunk_size && self.chunk_overlap < self.chunk_size
    }

    /// The units by which consecutive chunks advance.
    pub open spec fn spec_step(&self) -> int {
        self.chunk_size - self.chunk_overlap
    }

    /// Validates the configuration: the overlap must be strictly
    /// smaller than the chunk size, and a chunk must hold at least one
    /// unit.
    pub fn new(chunk_size: usize, chunk_overlap: usize) -> (r: Result<Self, ChainError>)
        ensures
            match r {
                Ok(o) => o.chunk_size == chunk_size && o.chunk_overlap == chunk_overlap
                    && o.valid(),
                Err(e) => e is ConfigurationError && !(SplitterOptions {
                    chunk_size,
                    chunk_overlap,
                }).valid(),
            },
    {
        if chunk_size == 0 || chunk_overlap >= chunk_size {
            Err(ChainError::ConfigurationError(String::from_str("chunk overlap must be smaller than chunk size")))
        } else {
            Ok(SplitterOptions { chunk_size, chunk_overlap })
        }
    }
}

/// The chunks a unit sequence is cut into: each chunk holds `size`
/// units, consecutive chunks start `step` units apart (so they share
/// `size - step` units), and the last chunk holds whatever remains.
/// An empty sequence yields no chunks.
pub open spec fn chunks_of<T>(s: Seq<T>, size: int, step: int) -> Seq<Seq<T>>
    decreases s.len(),
    when 1 <= step && step <= size
{
    if s.len() == 0 {
        Seq::<Seq<T>>::empty()
    } else if s.len() <= size {
        seq![s]
    } else {
        seq![s.subrange(0, size)] + chunks_of(s.skip(step), size, step)
    }
}

/// Every chunk is nonempty and holds at most `size` units; every chunk
/// but the last holds exactly `size`.
pub proof fn lemma_chunk_sizes<T>(s: Seq<T>, size: int, step: int)
    requires
        1 <= step <= size,
    ensures
        forall|j: int|
            0 <= j < chunks_of(s, size, step).len() ==> 0 < (#[trigger] chunks_of(
                s,
                size,
                step,
            )[j]).len() <= size,
        forall|j: int|
            0 <= j < chunks_of(s, size, step).len() - 1 ==> (#[trigger] chunks_of(
                s,
                size,
                step,
            )[j]).len() == size,
    decreases s.len(),
{
    if s.len() == 0 {
    } else if s.len() <= size {
    } else {
        lemma_chunk_sizes(s.skip(step), size, step);
        let cs = chunks_of(s, size, step);
        let rest = chunks_of(s.skip(step), size, step);
        assert forall|j: int| 0 <= j < cs.len() implies 0 < (#[trigger] cs[j]).len() <= size by {
            if j > 0 {
                assert(cs[j] == rest[j - 1]);
            }
        }
        assert forall|j: int| 0 <= j < cs.len() - 1 implies (#[trigger] cs[j]).len() == size by {
            if j > 0 {
                assert(cs[j] == rest[j - 1]);
            }
        }
    }
}

/// Consecutive chunks share exactly the configured overlap at their
/// boundary: the last `size - step` units of one chunk are the first
/// `size - step` units of the next.
pub proof fn lemma_chunk_overlap<T>(s: Seq<T>, size: int, step: int)
    requires
        1 <= step <= size,
    ensures
        forall|j: int|
            0 <= j < chunks_of(s, size, step).len() - 1 ==> (#[trigger] chunks_of(
                s,
                size,
                step,
            )[j]).skip(step) == chunks_of(s, size, step)[j + 1].take(size - step),
    decreases s.len(),
{
    if s.len() <= size {
    } else {
        lemma_chunk_overlap(s.skip(step), size, step);
        let cs = chunks_of(s, size, step);
        let rest = chunks_of(s.skip(step), size, step);
        assert forall|j: int| 0 <= j < cs.len() - 1 implies (#[trigger] cs[j]).skip(step) == cs[j
            + 1].take(size - step) by {
            if j == 0 {
                assert(cs[1] == rest[0]);
                if s.skip(step).len() <= size {
                    assert(rest[0] == s.skip(step));
                } else {
                    assert(rest[0] == s.skip(step).subrange(0, size));
                }
                assert(cs[0].skip(step) =~= s.subrange(step, size));
                assert(cs[1].take(size - step) =~= s.subrange(step, size));
            } else {
                assert(cs[j] == rest[j - 1]);
                assert(cs[j + 1] == rest[j]);
            }
        }
    }
}

/// A chunk list glued back together: every chunk but the last
/// contributes its first `step` units (dropping the units the next
/// chunk repeats), and the last chunk is kept whole.
pub open spec fn glue<T>(cs: Seq<Seq<T>>, step: int) -> Seq<T>
    decreases cs.len(),
{
    if cs.len() == 0 {
        Seq::<T>::empty()
    } else if cs.len() == 1 {
        cs[0]
    } else {
        cs[0].take(step) + glue(cs.drop_first(), step)
    }
}

/// Gluing the chunks back, dropping the declared overlap at each
/// boundary, reproduces the original sequence exactly.
pub proof fn lemma_chunks_glue<T>(s: Seq<T>, size: int, step: int)
    requires
        1 <= step <= size,
    ensures
        glue(chunks_of(s, size, step), step) == s,
    decreases s.len(),
{
    if s.len() == 0 {
        assert(glue(chunks_of(s, size, step), step) =~= s);
    } else if s.len() <= size {
    } else {
        lemma_chunks_glue(s.skip(step), size, step);
        let cs = chunks_of(s, size, step);
        let rest = chunks_of(s.skip(step), size, step);
        assert(rest.len() > 0);
        assert(cs.drop_first() =~= rest);
        assert(cs[0].take(step) =~= s.take(step));
        assert(s.take(step) + s.skip(step) =~= s);
    }
}

/// Splits text into chunks of at most `chunk_size` characters, with
/// consecutive chunks repeating the last `chunk_overlap` characters
/// across the boundary. Cuts fall at exact unit offsets, so the
/// overlap and reconstruction laws hold for every input.
#[derive(Debug)]
pub struct TextSplitter {
    pub options: SplitterOptions,
}

impl TextSplitter {
    pub fn new(options: SplitterOptions) -> (r: Self)
        ensures
            r.options == options,
    {
        TextSplitter { options }
    }

    /// The chunks of `text`, in original order.
    pub fn split_text(&self, text: &str) -> (r: Vec<String>)
        requires
            self.options.valid(),
        ensures
            r.deep_view() == chunks_of(
                text@,
                self.options.chunk_size as int,
                self.options.spec_step(),
            ),
    {
        let size = self.options.chunk_size;
        let step = size - self.options.chunk_overlap;
        let n = text.unicode_len();
        let mut res: Vec<String> = Vec::new();
        let mut i: usize = 0;
        proof {
            assert(text@.skip(0) =~= text@);
        }
        while i < n
            invariant
                i <= n,
                n == text@.len(),
                1 <= step <= size,
                size == self.options.chunk_size,
                step == self.options.spec_step(),
                chunks_of(text@, size as int, step as int) == res.deep_view() + chunks_of(
                    text@.skip(i as int),
                    size as int,
                    step as int,
                ),
            decreases n - i,
        {
            let ghost r0 = res.deep_view();
            let ghost rem = text@.skip(i as int);
            if n - i <= size {
                let piece = text.substring_char(i, n);
                res.push(piece.to_owned());
                proof {
                    assert(rem =~= text@.subrange(i as int, n as int));
                    assert(chunks_of(rem, size as int, step as int) == seq![rem]);
                    assert(res.deep_view() =~= r0.push(rem));
                    assert(r0 + seq![rem] =~= r0.push(rem));
                    assert(text@.skip(n as int) =~= Seq::<char>::empty());
                    assert(r0.push(rem) + Seq::<Seq<char>>::empty() =~= r0.push(rem));
                }
                i = n;
            } else {
                let piece = text.substring_char(i, i + size);
                res.push(piece.to_owned());
                proof {
                    assert(rem.subrange(0, size as int) =~= text@.subrange(
                        i as int,
                        i + size,
                    ));
                    assert(res.deep_view() =~= r0.push(rem.subrange(0, size as int)));
                    assert(rem.skip(step as int) =~= text@.skip(i + step));
                    assert(chunks_of(rem, size as int, step as int) == seq![rem.subrange(
                        0,
                        size as int,
                    )] + chunks_of(text@.skip(i + step), size as int, step as int));
                    assert(r0 + (seq![rem.subrange(0, size as int)] + chunks_of(
                        text@.skip(i + step),
                        size as int,
                        step as int,
                    )) =~= r0.push(rem.subrange(0, size as int)) + chunks_of(
                        text@.skip(i + step),
                        size as int,
                        step as int,
                    ));
                }
                i = i + step;
            }
        }
        proof {
            assert(text@.skip(n as int) =~= Seq::<char>::empty());
            assert(res.deep_view() + Seq::<Seq<char>>::empty() =~= res.deep_view());
        }
        res
    }
}

} // verus!
