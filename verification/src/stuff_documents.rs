use vstd::prelude::*;
use crate::documents::Document;
use crate::errors::ChainError;
use crate::language_models::{GenerateResult, LLM};
use crate::llm_chain::{first_missing, LLMChain};
use crate::messages::MessageView;
use crate::prompt_args::{ArgView, PromptArgs};
use crate::template::Rendered;

verus! {

/// Text pieces joined with a separator between consecutive pieces.
pub open spec fn join_texts(parts: Seq<Seq<char>>, sep: Seq<char>) -> Seq<char>
    decreases parts.len(),
{
    if parts.len() == 0 {
        Seq::<char>::empty()
    } else if parts.len() == 1 {
        parts[0]
    } else {
        parts[0] + sep + join_texts(parts.drop_first(), sep)
    }
}

/// Joining after appending one piece adds a separator exactly when
/// something was already there.
proof fn lemma_join_texts_push(parts: Seq<Seq<char>>, sep: Seq<char>, x: Seq<char>)
    ensures
        join_texts(parts.push(x), sep) == if parts.len() == 0 {
            x
        } else {
            join_texts(parts, sep) + sep + x
        },
    decreases parts.len(),
{
    if parts.len() == 0 {
        assert(parts.push(x)[0] == x);
    } else if parts.len() == 1 {
        assert(parts.push(x).drop_first() =~= seq![x]);
        assert(join_texts(seq![x], sep) == x);
    } else {
        lemma_join_texts_push(parts.drop_first(), sep, x);
        assert(parts.push(x).drop_first() =~= parts.drop_first().push(x));
        assert(parts.push(x)[0] == parts[0]);
        assert(join_texts(parts, sep) + sep + x =~= parts[0] + sep + (join_texts(
            parts.drop_first(),
            sep,
        ) + sep + x));
    }
}

/// The contents of a document sequence, in order.
pub open spec fn contents_of(docs: Seq<Document>) -> Seq<Seq<char>> {
    docs.map_values(|d: Document| d.content@)
}

/// Concatenates the documents' contents, separated by `separator`.
pub fn join_documents(docs: &Vec<Document>, separator: &str) -> (r: String)
    ensures
        r@ == join_texts(contents_of(docs@), separator@),
{
    let mut out = String::new();
    let mut i: usize = 0;
    while i < docs.len()
        invariant
            i <= docs.len(),
            out@ == join_texts(contents_of(docs@).take(i as int), separator@),
        decreases docs.len() - i,
    {
        if i > 0 {
            out.append(separator);
        }
        out.append(docs[i].content.as_str());
        proof {
            let cs = contents_of(docs@);
            lemma_join_texts_push(cs.take(i as int), separator@, cs[i as int]);
            assert(cs.take(i + 1) =~= cs.take(i as int).push(cs[i as int]));
        }
        i = i + 1;
    }
    proof {
        assert(contents_of(docs@).take(docs@.len() as int) =~= contents_of(docs@));
    }
    out
}

/// The argument mapping the inner chain sees: the caller's arguments
/// with the joined document contents bound under the context name.
pub open spec fn stuffed_args(
    context_name: Seq<char>,
    docs: Seq<Document>,
    sep: Seq<char>,
    args: Seq<(Seq<char>, ArgView)>,
) -> Seq<(Seq<char>, ArgView)> {
    seq![(context_name, ArgView::Text(join_texts(contents_of(docs), sep)))] + args
}

/// A chain that concatenates retrieved documents into one context
/// variable and delegates to an inner LLM chain. No chunking or
/// summarization happens here: the documents are expected to already
/// fit the model's context window.
#[derive(Debug)]
pub struct StuffDocumentsChain<M: LLM> {
    pub chain: LLMChain<M>,
    pub document_variable_name: String,
    pub separator: String,
}

impl<M: LLM> StuffDocumentsChain<M> {
    pub open spec fn wf(&self) -> bool {
        self.chain.wf()
    }

    /// Wraps the given inner chain, binding the joined documents under
    /// `context` and separating them with a blank line.
    pub fn new(chain: LLMChain<M>) -> (r: Self)
        ensures
            r.chain == chain,
            r.document_variable_name@ == "context"@,
            r.separator@ == "\n\n"@,
            r.wf() == chain.wf(),
    {
        StuffDocumentsChain {
            chain,
            document_variable_name: String::from_str("context"),
            separator: String::from_str("\n\n"),
        }
    }

    /// Joins the documents' contents into the context variable, merges
    /// it into the caller's arguments, and runs the inner chain.
    pub fn run(&mut self, docs: &Vec<Document>, args: &PromptArgs) -> (r: Result<
        GenerateResult,
        ChainError,
    >)
        requires
            old(self).wf(),
        ensures
            final(self).chain.prompt == old(self).chain.prompt,
            final(self).document_variable_name == old(self).document_variable_name,
            final(self).separator == old(self).separator,
            ({
                let sargs = stuffed_args(
                    old(self).document_variable_name@,
                    docs@,
                    old(self).separator@,
                    args@,
                );
                match r {
                    Ok(_) => first_missing(old(self).chain.prompt.spec_variables(), sargs)
                        is None && old(self).chain.prompt.spec_format(sargs) is Done,
                    Err(ChainError::MissingInput(n)) => first_missing(
                        old(self).chain.prompt.spec_variables(),
                        sargs,
                    ) == Some(n@),
                    Err(ChainError::InvalidInput(n)) => old(self).chain.prompt.spec_format(sargs)
                        == Rendered::<Seq<MessageView>>::BadValue(n@),
                    Err(ChainError::ModelError(_)) => old(self).chain.prompt.spec_format(
                        sargs,
                    ) is Done,
                    Err(_) => false,
                }
            }),
    {
        let context = join_documents(docs, self.separator.as_str());
        let mut all = args.duplicate();
        all.insert_text(self.document_variable_name.as_str(), context.as_str());
        proof {
            assert(all@ =~= stuffed_args(
                self.document_variable_name@,
                docs@,
                self.separator@,
                args@,
            ));
        }
        self.chain.run(&all)
    }
}

} // verus!
