use vstd::prelude::*;
use vstd::pervasive::unreached;
use crate::errors::ChainError;
use crate::language_models::{GenerateResult, LLM};
use crate::llm_chain::{
    first_missing, lemma_first_missing_same_names, validate_inputs, LLMChain,
};
use crate::prompt_args::{lookup, ArgView, PromptArgs};

verus! {

/// The first name some chain of the pipeline requires that neither the
/// caller's arguments nor an earlier chain's output key provides,
/// scanning the chains in order; `None` when every chain's inputs are
/// satisfiable. Only which names are bound matters, so each earlier
/// output key is modelled as bound to empty text.
pub open spec fn pipeline_missing<M: LLM>(
    chains: Seq<LLMChain<M>>,
    ctx: Seq<(Seq<char>, ArgView)>,
) -> Option<Seq<char>>
    decreases chains.len(),
{
    if chains.len() == 0 {
        None
    } else {
        match first_missing(chains[0].prompt.spec_variables(), ctx) {
            Some(n) => Some(n),
            None => pipeline_missing(
                chains.drop_first(),
                seq![(chains[0].output_key@, ArgView::Text(Seq::<char>::empty()))] + ctx,
            ),
        }
    }
}

/// Once a chain's generation is merged into the working arguments
/// under its output key, the next chain's lookup of that key yields
/// the generation unchanged, and every other name keeps its binding:
/// the propagation law of the sequential pipeline.
pub proof fn lemma_output_propagation(
    ctx: Seq<(Seq<char>, ArgView)>,
    key: Seq<char>,
    generation: Seq<char>,
)
    ensures
        lookup(seq![(key, ArgView::Text(generation))] + ctx, key) == Some(
            ArgView::Text(generation),
        ),
        forall|k: Seq<char>|
            k != key ==> #[trigger] lookup(seq![(key, ArgView::Text(generation))] + ctx, k)
                == lookup(ctx, k),
{
    let merged = seq![(key, ArgView::Text(generation))] + ctx;
    assert(merged[0] == (key, ArgView::Text(generation)));
    assert forall|k: Seq<char>| k != key implies #[trigger] lookup(merged, k) == lookup(
        ctx,
        k,
    ) by {
        assert(merged.drop_first() =~= ctx);
    }
}

/// An ordered pipeline of chains: each chain's generation is merged
/// into the working arguments under its output key before the next
/// chain runs, and the last chain's result is returned.
#[derive(Debug)]
pub struct SequentialChain<M: LLM> {
    pub chains: Vec<LLMChain<M>>,
}

impl<M: LLM> SequentialChain<M> {
    pub open spec fn wf(&self) -> bool {
        forall|i: int| 0 <= i < self.chains@.len() ==> (#[trigger] self.chains@[i]).wf()
    }

    pub fn new(chains: Vec<LLMChain<M>>) -> (r: Self)
        ensures
            r.chains == chains,
    {
        SequentialChain { chains }
    }

    /// Validates that every chain's inputs are satisfiable from the
    /// caller's arguments plus earlier output keys, then runs the
    /// chains in order, merging each generation under its output key;
    /// the first failure aborts the rest and is surfaced unchanged.
    pub fn run(&mut self, args: &PromptArgs) -> (r: Result<GenerateResult, ChainError>)
        requires
            old(self).wf(),
            old(self).chains@.len() >= 1,
        ensures
            match r {
                Ok(_) => pipeline_missing(old(self).chains@, args@) is None,
                Err(ChainError::MissingInput(n)) => pipeline_missing(old(self).chains@, args@)
                    == Some(n@),
                Err(ChainError::InvalidInput(_)) => pipeline_missing(
                    old(self).chains@,
                    args@,
                ) is None,
                Err(ChainError::ModelError(_)) => pipeline_missing(
                    old(self).chains@,
                    args@,
                ) is None,
                Err(_) => false,
            },
    {
        let ghost all = old(self).chains@;
        let mut sim = args.duplicate();
        let mut i: usize = 0;
        proof {
            reveal_strlit("");
            assert(""@ =~= Seq::<char>::empty());
            assert(all.skip(0) =~= all);
        }
        while i < self.chains.len()
            invariant
                i <= self.chains.len(),
                all == old(self).chains@,
                self.chains@ == all,
                ""@ == Seq::<char>::empty(),
                pipeline_missing(all, args@) == pipeline_missing(all.skip(i as int), sim@),
            decreases self.chains.len() - i,
        {
            let c = &self.chains[i];
            proof {
                assert(all.skip(i as int)[0] == all[i as int]);
                assert(all.skip(i as int).drop_first() =~= all.skip(i + 1));
            }
            let vars = c.input_keys();
            match validate_inputs(&vars, &sim) {
                Err(e) => {
                    return Err(e);
                },
                Ok(_) => {},
            }
            let ghost sim0 = sim@;
            sim.insert_text(c.output_key.as_str(), "");
            proof {
                assert(sim@ =~= seq![(all[i as int].output_key@, ArgView::Text(
                    Seq::<char>::empty(),
                ))] + sim0);
            }
            i = i + 1;
        }
        let mut ctx = args.duplicate();
        let ghost mut simv: Seq<(Seq<char>, ArgView)> = args@;
        let mut out: Option<GenerateResult> = None;
        let mut k: usize = 0;
        proof {
            assert(all.skip(0) =~= all);
            assert forall|key: Seq<char>| ((#[trigger] lookup(ctx@, key)) is Some) == (lookup(
                simv,
                key,
            ) is Some) by {}
        }
        while k < self.chains.len()
            invariant
                k <= self.chains.len(),
                all == old(self).chains@,
                self.chains@.len() == all.len(),
                forall|j: int|
                    0 <= j < all.len() ==> (#[trigger] self.chains@[j]).prompt == all[j].prompt
                        && self.chains@[j].output_key == all[j].output_key,
                forall|j: int| 0 <= j < all.len() ==> (#[trigger] all[j]).wf(),
                pipeline_missing(all.skip(k as int), simv) is None,
                pipeline_missing(all, args@) is None,
                forall|key: Seq<char>|
                    ((#[trigger] lookup(ctx@, key)) is Some) == (lookup(simv, key) is Some),
                k > 0 ==> out is Some,
            decreases self.chains.len() - k,
        {
            proof {
                assert(all.skip(k as int)[0] == all[k as int]);
                assert(all.skip(k as int).drop_first() =~= all.skip(k + 1));
                lemma_first_missing_same_names(all[k as int].prompt.spec_variables(), ctx@, simv);
            }
            let c = &mut self.chains[k];
            let r = c.run(&ctx);
            let key = c.output_key.clone();
            match r {
                Ok(g) => {
                    let ghost ctx0 = ctx@;
                    ctx.insert_text(key.as_str(), g.generation.as_str());
                    out = Some(g);
                    proof {
                        let marker = (all[k as int].output_key@, ArgView::Text(
                            Seq::<char>::empty(),
                        ));
                        let ghost simv0 = simv;
                        simv = seq![marker] + simv;
                        assert(lookup(ctx@, key@) is Some);
                        assert(lookup(simv, key@) is Some) by {
                            assert(simv[0] == marker);
                        }
                        assert forall|k2: Seq<char>| ((#[trigger] lookup(ctx@, k2)) is Some) == (
                        lookup(simv, k2) is Some) by {
                            if k2 != key@ {
                                assert(ctx@.drop_first() =~= ctx0);
                                assert(simv.drop_first() =~= simv0);
                            }
                        }
                    }
                },
                Err(e) => {
                    return Err(e);
                },
            }
            k = k + 1;
        }
        match out {
            Some(g) => Ok(g),
            None => unreached(),
        }
    }
}

} // verus!
