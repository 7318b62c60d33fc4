use vstd::prelude::*;
use vstd::pervasive::unreached;
use crate::chat::{vars_of_items, HumanMessagePromptTemplate, MessageFormatterStruct, MessageOrTemplate, MessageTemplate};
use crate::language_models::LLM;
use crate::llm_chain::LLMChain;
use crate::messages::Message;
use crate::stuff_documents::StuffDocumentsChain;
use crate::template::{find_close, vars_of, PromptTemplate};

verus! {

/// A stuff-documents chain specialized with a fixed question-answering
/// prompt, so callers need not assemble the prompt themselves: a
/// system instruction followed by a human message holding the stuffed
/// `context` and the `question`.
pub fn new_qa_chain<M: LLM>(llm: M) -> (r: StuffDocumentsChain<M>)
    ensures
        r.wf(),
        r.document_variable_name@ == "context"@,
        r.chain.prompt.spec_variables() == seq!["context"@, "question"@],
{
    let mut names: Vec<String> = Vec::new();
    names.push(String::from_str("context"));
    names.push(String::from_str("question"));
    proof {
        assert(names.deep_view() =~= seq!["context"@, "question"@]);
        let s = "{context}\n\n{question}"@;
        assert(vars_of(s, 0) matches Some(vs) && vs =~~= seq!["context"@, "question"@]) by {
            reveal_strlit("{context}\n\n{question}");
            reveal_strlit("context");
            reveal_strlit("question");
            reveal_with_fuel(vars_of, 10);
            reveal_with_fuel(find_close, 25);
            assert(s.subrange(1, 8) =~= "context"@);
            assert(s.subrange(12, 20) =~= "question"@);
        }
    }
    let template = match PromptTemplate::new("{context}\n\n{question}", names) {
        Ok(t) => t,
        Err(_) => unreached(),
    };
    let mut formatter = MessageFormatterStruct::new();
    formatter.add_message(
        Message::new_system_message("Use the following context to answer the question."),
    );
    formatter.add_template(MessageTemplate::Human(HumanMessagePromptTemplate::new(template)));
    proof {
        let items = formatter.spec_items();
        assert(items.drop_first() =~= seq![items[1]]);
        assert(seq![items[1]].drop_first() =~= Seq::<MessageOrTemplate>::empty());
        assert(vars_of_items(Seq::<MessageOrTemplate>::empty())
            == Seq::<Seq<char>>::empty());
        assert(vars_of_items(seq![items[1]]) =~= seq!["context"@, "question"@]);
        assert(formatter.spec_variables() =~= seq!["context"@, "question"@]);
    }
    let chain = LLMChain::new(formatter, llm);
    StuffDocumentsChain::new(chain)
}

} // verus!
