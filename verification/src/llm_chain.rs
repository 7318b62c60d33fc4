use vstd::prelude::*;
use crate::chat::MessageFormatterStruct;
use crate::errors::ChainError;
use crate::language_models::{GenerateResult, LLM};
use crate::messages::MessageView;
use crate::options::ChainOptions;
use crate::prompt_args::{lookup, ArgView, PromptArgs};
use crate::template::Rendered;

verus! {

/// The first name among `vars`, scanned in order, that `args` does not
/// bind; `None` when every name is bound.
pub open spec fn first_missing(
    vars: Seq<Seq<char>>,
    args: Seq<(Seq<char>, ArgView)>,
) -> Option<Seq<char>>
    decreases vars.len(),
{
    if vars.len() == 0 {
        None
    } else if lookup(args, vars[0]) is None {
        Some(vars[0])
    } else {
        first_missing(vars.drop_first(), args)
    }
}

/// When no name is the first missing one, every name is bound.
pub proof fn lemma_none_missing_all_bound(vars: Seq<Seq<char>>, args: Seq<(Seq<char>, ArgView)>)
    requires
        first_missing(vars, args) is None,
    ensures
        forall|v: Seq<char>| vars.contains(v) ==> (#[trigger] lookup(args, v)) is Some,
    decreases vars.len(),
{
    if vars.len() > 0 {
        lemma_none_missing_all_bound(vars.drop_first(), args);
        assert forall|v: Seq<char>| vars.contains(v) implies (#[trigger] lookup(args, v))
            is Some by {
            let idx = choose|idx: int| 0 <= idx < vars.len() && vars[idx] == v;
            if idx > 0 {
                assert(vars.drop_first()[idx - 1] == v);
                assert(vars.drop_first().contains(v));
            }
        }
    }
}

/// The same names are missing from two mappings that bind the same
/// names, whatever they bind them to.
pub proof fn lemma_first_missing_same_names(
    vars: Seq<Seq<char>>,
    a: Seq<(Seq<char>, ArgView)>,
    b: Seq<(Seq<char>, ArgView)>,
)
    requires
        forall|k: Seq<char>| ((#[trigger] lookup(a, k)) is Some) == (lookup(b, k) is Some),
    ensures
        first_missing(vars, a) == first_missing(vars, b),
    decreases vars.len(),
{
    if vars.len() > 0 {
        lemma_first_missing_same_names(vars.drop_first(), a, b);
    }
}

/// Checks that every declared name is bound, reporting the first
/// missing one.
pub fn validate_inputs(vars: &Vec<String>, args: &PromptArgs) -> (r: Result<(), ChainError>)
    ensures
        match r {
            Ok(_) => first_missing(vars.deep_view(), args@) is None,
            Err(e) => (e matches ChainError::MissingInput(n) && first_missing(
                vars.deep_view(),
                args@,
            ) == Some(n@)),
        },
{
    let mut i: usize = 0;
    proof {
        assert(vars.deep_view().skip(0) =~= vars.deep_view());
    }
    while i < vars.len()
        invariant
            i <= vars.len(),
            vars.deep_view().len() == vars.len(),
            first_missing(vars.deep_view(), args@) == first_missing(
                vars.deep_view().skip(i as int),
                args@,
            ),
        decreases vars.len() - i,
    {
        let name = &vars[i];
        proof {
            assert(vars.deep_view()[i as int] == name@);
            assert(vars.deep_view().skip(i as int)[0] == vars.deep_view()[i as int]);
            assert(vars.deep_view().skip(i as int).drop_first() =~= vars.deep_view().skip(i + 1));
        }
        if !args.contains(name.as_str()) {
            return Err(ChainError::MissingInput(name.clone()));
        }
        i = i + 1;
    }
    Ok(())
}

/// Maps a backend outcome into the chain's result: a generation is
/// passed through unchanged; a backend message becomes a model error.
pub fn finish_generation(outcome: Result<GenerateResult, String>) -> (r: Result<
    GenerateResult,
    ChainError,
>)
    ensures
        match outcome {
            Ok(g) => r == Ok::<GenerateResult, ChainError>(g),
            Err(m) => (r matches Err(e) && e matches ChainError::ModelError(mm) && mm == m),
        },
{
    match outcome {
        Ok(g) => Ok(g),
        Err(m) => Err(ChainError::ModelError(m)),
    }
}

/// The base concrete chain: a chat prompt formatter bound to a
/// language-model backend. Every other chain wraps this one or does
/// non-model work around it.
#[derive(Debug)]
pub struct LLMChain<M: LLM> {
    pub prompt: MessageFormatterStruct,
    pub llm: M,
    pub output_key: String,
    pub options: ChainOptions,
}

impl<M: LLM> LLMChain<M> {
    pub open spec fn wf(&self) -> bool {
        self.prompt.wf()
    }

    pub fn new(prompt: MessageFormatterStruct, llm: M) -> (r: Self)
        ensures
            r.prompt == prompt,
            r.output_key@ == "output"@,
            r.wf() == prompt.wf(),
    {
        LLMChain {
            prompt,
            llm,
            output_key: String::from_str("output"),
            options: ChainOptions::default(),
        }
    }

    /// The same chain surfacing its generation under another key.
    pub fn with_output_key(self, output_key: &str) -> (r: Self)
        ensures
            r.prompt == self.prompt,
            r.output_key@ == output_key@,
            r.wf() == self.wf(),
    {
        LLMChain {
            prompt: self.prompt,
            llm: self.llm,
            output_key: output_key.to_owned(),
            options: self.options,
        }
    }

    /// The names this chain requires from its caller.
    pub fn input_keys(&self) -> (r: Vec<String>)
        ensures
            r.deep_view() == self.prompt.spec_variables(),
    {
        self.prompt.input_variables()
    }

    /// The one name this chain produces.
    pub fn output_keys(&self) -> (r: Vec<String>)
        ensures
            r.deep_view() == seq![self.output_key@],
    {
        let mut v: Vec<String> = Vec::new();
        v.push(self.output_key.clone());
        proof {
            assert(v.deep_view() =~= seq![self.output_key@]);
        }
        v
    }

    /// Validates the inputs, formats the prompt, invokes the model, and
    /// returns the backend's result unchanged.
    pub fn run(&mut self, args: &PromptArgs) -> (r: Result<GenerateResult, ChainError>)
        requires
            old(self).wf(),
        ensures
            final(self).prompt == old(self).prompt,
            final(self).output_key == old(self).output_key,
            match r {
                Ok(_) => first_missing(old(self).prompt.spec_variables(), args@) is None && old(
                    self,
                ).prompt.spec_format(args@) is Done,
                Err(ChainError::MissingInput(n)) => first_missing(
                    old(self).prompt.spec_variables(),
                    args@,
                ) == Some(n@),
                Err(ChainError::InvalidInput(n)) => first_missing(
                    old(self).prompt.spec_variables(),
                    args@,
                ) is None && old(self).prompt.spec_format(args@)
                    == Rendered::<Seq<MessageView>>::BadValue(n@),
                Err(ChainError::ModelError(_)) => first_missing(
                    old(self).prompt.spec_variables(),
                    args@,
                ) is None && old(self).prompt.spec_format(args@) is Done,
                Err(_) => false,
            },
    {
        let vars = self.prompt.input_variables();
        match validate_inputs(&vars, args) {
            Err(e) => {
                return Err(e);
            },
            Ok(_) => {},
        }
        proof {
            lemma_none_missing_all_bound(self.prompt.spec_variables(), args@);
            self.prompt.lemma_format_ready(args@);
        }
        let pv = match self.prompt.format_prompt(args) {
            Ok(pv) => pv,
            Err(e) => {
                return Err(e);
            },
        };
        let outcome = self.llm.generate(&pv, &self.options);
        finish_generation(outcome)
    }
}

} // verus!
