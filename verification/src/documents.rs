use vstd::prelude::*;

verus! {

/// An externally supplied unit of retrievable text: its content and a
/// small name-to-text metadata mapping. The library only consumes
/// documents, concatenating their contents into a prompt variable.
#[derive(Debug)]
pub struct Document {
    pub content: String,
    pub metadata: Vec<(String, String)>,
}

impl Document {
    pub fn new(content: &str) -> (r: Self)
        ensures
            r.content@ == content@,
            r.metadata@ == Seq::<(String, String)>::empty(),
    {
        Document { content: content.to_owned(), metadata: Vec::new() }
    }
}

/// The contract any document retriever satisfies: given a query,
/// return a ranked document sequence or fail with an opaque message.
/// Implementations live outside this library; nothing is promised of
/// the result.
pub trait Retriever {
    fn retrieve(&mut self, query: &str) -> Result<Vec<Document>, String>;
}

} // verus!
