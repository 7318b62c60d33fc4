use vstd::prelude::*;
use crate::errors::ChainError;
use crate::language_models::{GenerateResult, LLM};
use crate::llm_chain::{first_missing, LLMChain};
use crate::messages::{ai_view, human_view, views_of, Message, MessageView};
use crate::prompt_args::{clone_messages, ArgView, PromptArgs};
use crate::template::Rendered;

verus! {

/// The argument mapping one conversational turn hands to the inner
/// chain: the running memory under `history`, the new utterance under
/// `input`.
pub open spec fn turn_args(memory: Seq<Message>, input: Seq<char>) -> Seq<(Seq<char>, ArgView)> {
    seq![
        ("history"@, ArgView::Messages(views_of(memory))),
        ("input"@, ArgView::Text(input)),
    ]
}

/// An LLM chain with turn-by-turn memory: each successful turn appends
/// the human input and the model's reply to the remembered
/// conversation. Memory is never pruned or summarized; its unbounded
/// growth is the caller's concern.
#[derive(Debug)]
pub struct ConversationalChain<M: LLM> {
    pub chain: LLMChain<M>,
    pub memory: Vec<Message>,
}

impl<M: LLM> ConversationalChain<M> {
    pub open spec fn wf(&self) -> bool {
        self.chain.wf()
    }

    /// A conversational chain over the given inner chain, whose prompt
    /// is expected to reference `input` and a `history` placeholder,
    /// with empty memory.
    pub fn new(chain: LLMChain<M>) -> (r: Self)
        ensures
            r.chain == chain,
            r.memory@ == Seq::<Message>::empty(),
            r.wf() == chain.wf(),
    {
        ConversationalChain { chain, memory: Vec::new() }
    }

    /// The one name a turn requires from its caller.
    pub fn input_keys(&self) -> (r: Vec<String>)
        ensures
            r.deep_view() == seq!["input"@],
    {
        let mut v: Vec<String> = Vec::new();
        v.push(String::from_str("input"));
        proof {
            assert(v.deep_view() =~= seq!["input"@]);
        }
        v
    }

    /// The one name this chain produces: the inner chain's output key.
    pub fn output_keys(&self) -> (r: Vec<String>)
        ensures
            r.deep_view() == seq![self.chain.output_key@],
    {
        self.chain.output_keys()
    }

    /// One turn: exposes the memory as it stood to the prompt's
    /// `history` placeholder, binds the new utterance to `input`, runs
    /// the inner chain, and on success appends the human input and the
    /// AI reply to memory. On failure memory is left unchanged.
    pub fn run(&mut self, input: &str) -> (r: Result<GenerateResult, ChainError>)
        requires
            old(self).wf(),
        ensures
            final(self).chain.prompt == old(self).chain.prompt,
            match r {
                Ok(g) => views_of(final(self).memory@) == views_of(old(self).memory@) + seq![
                    human_view(input@),
                    ai_view(g.generation@),
                ] && old(self).chain.prompt.spec_format(
                    turn_args(old(self).memory@, input@),
                ) is Done,
                Err(e) => final(self).memory == old(self).memory && match e {
                    ChainError::MissingInput(n) => first_missing(
                        old(self).chain.prompt.spec_variables(),
                        turn_args(old(self).memory@, input@),
                    ) == Some(n@),
                    ChainError::InvalidInput(n) => old(self).chain.prompt.spec_format(
                        turn_args(old(self).memory@, input@),
                    ) == Rendered::<Seq<MessageView>>::BadValue(n@),
                    ChainError::ModelError(_) => old(self).chain.prompt.spec_format(
                        turn_args(old(self).memory@, input@),
                    ) is Done,
                    _ => false,
                },
            },
    {
        let mut args = PromptArgs::new();
        args.insert_text("input", input);
        args.insert_messages("history", clone_messages(&self.memory));
        proof {
            assert(args@ =~= turn_args(self.memory@, input@));
        }
        let result = self.chain.run(&args);
        match result {
            Ok(g) => {
                let ghost m0 = views_of(self.memory@);
                self.memory.push(Message::new_human_message(input));
                self.memory.push(Message::new_ai_message(g.generation.as_str()));
                proof {
                    assert(views_of(self.memory@) =~= m0 + seq![
                        human_view(input@),
                        ai_view(g.generation@),
                    ]);
                }
                Ok(g)
            },
            Err(e) => Err(e),
        }
    }
}

} // verus!
