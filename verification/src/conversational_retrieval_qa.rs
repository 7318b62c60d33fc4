use vstd::prelude::*;
use crate::documents::{Document, Retriever};
use crate::errors::ChainError;
use crate::language_models::{GenerateResult, LLM};
use crate::llm_chain::LLMChain;
use crate::messages::{ai_view, human_view, views_of, Message};
use crate::prompt_args::{clone_messages, PromptArgs};
use crate::stuff_documents::StuffDocumentsChain;

verus! {

/// Maps a retrieval outcome into the chain's result: documents are
/// passed through unchanged; a retriever message becomes a query
/// error.
pub fn finish_retrieval(outcome: Result<Vec<Document>, String>) -> (r: Result<
    Vec<Document>,
    ChainError,
>)
    ensures
        match outcome {
            Ok(docs) => r == Ok::<Vec<Document>, ChainError>(docs),
            Err(m) => (r matches Err(e) && e matches ChainError::QueryError(mm) && mm == m),
        },
{
    match outcome {
        Ok(docs) => Ok(docs),
        Err(m) => Err(ChainError::QueryError(m)),
    }
}

/// Document-grounded question answering over a conversation: a
/// follow-up question is first rewritten into a standalone question
/// using the conversation history, documents are retrieved for it, and
/// the answer chain answers from them. Each successful turn appends
/// the original question and the answer to memory.
#[derive(Debug)]
pub struct ConversationalRetrievalQAChain<M: LLM, R: Retriever> {
    /// Rewrites a follow-up question into a standalone one; its prompt
    /// is expected to reference `question` and a `history` placeholder.
    pub condense_chain: LLMChain<M>,
    /// Answers the standalone question from the retrieved documents.
    pub qa_chain: StuffDocumentsChain<M>,
    pub retriever: R,
    pub memory: Vec<Message>,
}

impl<M: LLM, R: Retriever> ConversationalRetrievalQAChain<M, R> {
    pub open spec fn wf(&self) -> bool {
        self.condense_chain.wf() && self.qa_chain.wf()
    }

    pub fn new(condense_chain: LLMChain<M>, qa_chain: StuffDocumentsChain<M>, retriever: R) -> (r:
        Self)
        ensures
            r.condense_chain == condense_chain,
            r.qa_chain == qa_chain,
            r.memory@ == Seq::<Message>::empty(),
            r.wf() == (condense_chain.wf() && qa_chain.wf()),
    {
        ConversationalRetrievalQAChain { condense_chain, qa_chain, retriever, memory: Vec::new() }
    }

    /// One turn: condenses the question against a non-empty history,
    /// retrieves documents for the standalone question, answers from
    /// them, and on success remembers the original question and the
    /// answer. On failure memory is left unchanged; a retriever
    /// failure is surfaced as a query error without an answer attempt.
    pub fn run(&mut self, question: &str) -> (r: Result<GenerateResult, ChainError>)
        requires
            old(self).wf(),
        ensures
            final(self).condense_chain.prompt == old(self).condense_chain.prompt,
            final(self).qa_chain.chain.prompt == old(self).qa_chain.chain.prompt,
            match r {
                Ok(g) => views_of(final(self).memory@) == views_of(old(self).memory@) + seq![
                    human_view(question@),
                    ai_view(g.generation@),
                ],
                Err(_) => final(self).memory == old(self).memory,
            },
    {
        let standalone: String = if self.memory.len() == 0 {
            question.to_owned()
        } else {
            let mut cargs = PromptArgs::new();
            cargs.insert_text("question", question);
            cargs.insert_messages("history", clone_messages(&self.memory));
            match self.condense_chain.run(&cargs) {
                Ok(g) => g.generation,
                Err(e) => {
                    return Err(e);
                },
            }
        };
        let docs = match finish_retrieval(self.retriever.retrieve(standalone.as_str())) {
            Ok(docs) => docs,
            Err(e) => {
                return Err(e);
            },
        };
        let mut qargs = PromptArgs::new();
        qargs.insert_text("question", standalone.as_str());
        match self.qa_chain.run(&docs, &qargs) {
            Ok(g) => {
                let ghost m0 = views_of(self.memory@);
                self.memory.push(Message::new_human_message(question));
                self.memory.push(Message::new_ai_message(g.generation.as_str()));
                proof {
                    assert(views_of(self.memory@) =~= m0 + seq![
                        human_view(question@),
                        ai_view(g.generation@),
                    ]);
                }
                Ok(g)
            },
            Err(e) => Err(e),
        }
    }
}

} // verus!
