use promptchain::chat::{HumanMessagePromptTemplate, MessageFormatterStruct, MessageTemplate};
use promptchain::conversational::ConversationalChain;
use promptchain::conversational_retrieval_qa::ConversationalRetrievalQAChain;
use promptchain::documents::{Document, Retriever};
use promptchain::errors::ChainError;
use promptchain::language_models::{GenerateResult, LLM};
use promptchain::llm_chain::LLMChain;
use promptchain::messages::MessageType;
use promptchain::options::ChainOptions;
use promptchain::prompt_args::PromptArgs;
use promptchain::prompt_value::PromptValue;
use promptchain::sequential::SequentialChain;
use promptchain::sql_database::{Database, SQLDatabaseChain};
use promptchain::question_answering::new_qa_chain;
use promptchain::stuff_documents::StuffDocumentsChain;
use promptchain::template::PromptTemplate;

fn template(text: &str, vars: &[&str]) -> PromptTemplate {
    let names: Vec<String> = vars.iter().map(|v| v.to_string()).collect();
    PromptTemplate::new(text, names).unwrap()
}

fn human_formatter(text: &str, vars: &[&str]) -> MessageFormatterStruct {
    let mut f = MessageFormatterStruct::new();
    f.add_template(MessageTemplate::Human(HumanMessagePromptTemplate::new(
        template(text, vars),
    )));
    f
}

/// Replies with the plain-text rendering of the prompt it was given.
struct EchoModel;

impl LLM for EchoModel {
    fn generate(
        &mut self,
        prompt: &PromptValue,
        _options: &ChainOptions,
    ) -> Result<GenerateResult, String> {
        Ok(GenerateResult {
            tokens: None,
            generation: prompt.to_text(),
        })
    }
}

/// Always fails, as an unreachable or broken backend would.
struct FailModel;

impl LLM for FailModel {
    fn generate(
        &mut self,
        _prompt: &PromptValue,
        _options: &ChainOptions,
    ) -> Result<GenerateResult, String> {
        Err("backend unavailable".to_string())
    }
}

/// Counts its invocations and replies with a fixed text.
struct CountingModel {
    calls: usize,
    reply: &'static str,
}

impl LLM for CountingModel {
    fn generate(
        &mut self,
        _prompt: &PromptValue,
        _options: &ChainOptions,
    ) -> Result<GenerateResult, String> {
        self.calls += 1;
        Ok(GenerateResult {
            tokens: None,
            generation: self.reply.to_string(),
        })
    }
}

/// One model type with selectable behavior, for the pipelines that
/// hold several chains over a single model type.
enum TestModel {
    Echo,
    Fixed(&'static str),
    Counting { calls: usize, reply: &'static str },
}

impl LLM for TestModel {
    fn generate(
        &mut self,
        prompt: &PromptValue,
        _options: &ChainOptions,
    ) -> Result<GenerateResult, String> {
        let generation = match self {
            TestModel::Echo => prompt.to_text(),
            TestModel::Fixed(reply) => reply.to_string(),
            TestModel::Counting { calls, reply } => {
                *calls += 1;
                reply.to_string()
            }
        };
        Ok(GenerateResult {
            tokens: None,
            generation,
        })
    }
}

#[test]
fn llm_chain_formats_and_returns_generation() {
    let mut chain = LLMChain::new(human_formatter("say {word}", &["word"]), EchoModel);
    let mut args = PromptArgs::new();
    args.insert_text("word", "hello");
    let g = chain.run(&args).unwrap();
    assert_eq!(g.generation, "say hello");
}

#[test]
fn llm_chain_reports_missing_input() {
    let mut chain = LLMChain::new(human_formatter("say {word}", &["word"]), EchoModel);
    let args = PromptArgs::new();
    match chain.run(&args) {
        Err(ChainError::MissingInput(name)) => assert_eq!(name, "word"),
        other => panic!("expected a missing input, got {:?}", other),
    }
}

#[test]
fn llm_chain_surfaces_backend_failure_as_model_error() {
    let mut chain = LLMChain::new(human_formatter("say {word}", &["word"]), FailModel);
    let mut args = PromptArgs::new();
    args.insert_text("word", "hello");
    assert!(matches!(chain.run(&args), Err(ChainError::ModelError(_))));
}

#[test]
fn llm_chain_keys() {
    let chain = LLMChain::new(human_formatter("say {word}", &["word"]), EchoModel)
        .with_output_key("x");
    assert_eq!(chain.input_keys(), vec!["word".to_string()]);
    assert_eq!(chain.output_keys(), vec!["x".to_string()]);
}

#[test]
fn sequential_chain_passes_output_through_unchanged() {
    let first = LLMChain::new(human_formatter("Question: {question}", &["question"]),
        TestModel::Fixed("VALUE-42"))
        .with_output_key("x");
    let second = LLMChain::new(human_formatter("Got: {x}", &["x"]), TestModel::Echo);
    let mut pipeline = SequentialChain::new(vec![first, second]);
    let mut args = PromptArgs::new();
    args.insert_text("question", "anything");
    let g = pipeline.run(&args).unwrap();
    assert_eq!(g.generation, "Got: VALUE-42");
}

#[test]
fn sequential_chain_rejects_unsatisfiable_pipeline() {
    let first = LLMChain::new(human_formatter("Question: {question}", &["question"]),
        TestModel::Fixed("VALUE-42"))
        .with_output_key("not_x");
    let second = LLMChain::new(human_formatter("Got: {x}", &["x"]), TestModel::Echo);
    let mut pipeline = SequentialChain::new(vec![first, second]);
    let mut args = PromptArgs::new();
    args.insert_text("question", "anything");
    match pipeline.run(&args) {
        Err(ChainError::MissingInput(name)) => assert_eq!(name, "x"),
        other => panic!("expected a missing input, got {:?}", other),
    }
}

fn conversational_formatter() -> MessageFormatterStruct {
    let mut f = MessageFormatterStruct::new();
    f.add_messages_placeholder("history");
    f.add_template(MessageTemplate::Human(HumanMessagePromptTemplate::new(
        template("{input}", &["input"]),
    )));
    f
}

#[test]
fn conversational_chain_grows_memory_by_two_per_turn() {
    let inner = LLMChain::new(conversational_formatter(), EchoModel);
    let mut chain = ConversationalChain::new(inner);

    let first = chain.run("hello there").unwrap();
    assert_eq!(first.generation, "hello there");
    assert_eq!(chain.memory.len(), 2);

    let second = chain.run("and again").unwrap();
    // The prompt saw the memory as it stood before this turn, then the
    // new input: two remembered messages plus the new utterance.
    assert_eq!(second.generation, "hello there\nhello there\nand again");
    assert_eq!(chain.memory.len(), 4);

    assert_eq!(chain.memory[0].content, "hello there");
    assert!(matches!(chain.memory[0].message_type, MessageType::HumanMessage));
    assert!(matches!(chain.memory[1].message_type, MessageType::AIMessage));
    assert_eq!(chain.memory[2].content, "and again");
    assert!(matches!(chain.memory[2].message_type, MessageType::HumanMessage));
    assert!(matches!(chain.memory[3].message_type, MessageType::AIMessage));
}

#[test]
fn conversational_chain_keeps_memory_on_failure() {
    let inner = LLMChain::new(conversational_formatter(), FailModel);
    let mut chain = ConversationalChain::new(inner);
    assert!(chain.run("hello").is_err());
    assert_eq!(chain.memory.len(), 0);
}

#[test]
fn stuff_documents_chain_joins_contents_into_context() {
    let inner = LLMChain::new(human_formatter("{context}", &["context"]), EchoModel);
    let mut chain = StuffDocumentsChain::new(inner);
    let docs = vec![Document::new("first doc"), Document::new("second doc")];
    let g = chain.run(&docs, &PromptArgs::new()).unwrap();
    assert_eq!(g.generation, "first doc\n\nsecond doc");
}

#[test]
fn qa_chain_answers_from_context_and_question() {
    let mut chain = new_qa_chain(EchoModel);
    let docs = vec![Document::new("the sky is blue")];
    let mut args = PromptArgs::new();
    args.insert_text("question", "what color is the sky?");
    let g = chain.run(&docs, &args).unwrap();
    assert!(g.generation.contains("the sky is blue"));
    assert!(g.generation.contains("what color is the sky?"));
}

struct FixedRetriever {
    calls: usize,
}

impl Retriever for FixedRetriever {
    fn retrieve(&mut self, _query: &str) -> Result<Vec<Document>, String> {
        self.calls += 1;
        Ok(vec![Document::new("retrieved context")])
    }
}

struct FailingRetriever;

impl Retriever for FailingRetriever {
    fn retrieve(&mut self, _query: &str) -> Result<Vec<Document>, String> {
        Err("index offline".to_string())
    }
}

fn condense_formatter() -> MessageFormatterStruct {
    let mut f = MessageFormatterStruct::new();
    f.add_messages_placeholder("history");
    f.add_template(MessageTemplate::Human(HumanMessagePromptTemplate::new(
        template("standalone: {question}", &["question"]),
    )));
    f
}

fn condense_calls(chain_model: &TestModel) -> usize {
    match chain_model {
        TestModel::Counting { calls, .. } => *calls,
        _ => panic!("not a counting model"),
    }
}

#[test]
fn retrieval_qa_chain_answers_and_remembers() {
    let condense = LLMChain::new(
        condense_formatter(),
        TestModel::Counting { calls: 0, reply: "standalone question" },
    );
    let qa = new_qa_chain(TestModel::Echo);
    let mut chain =
        ConversationalRetrievalQAChain::new(condense, qa, FixedRetriever { calls: 0 });

    let first = chain.run("what is up there?").unwrap();
    assert!(first.generation.contains("retrieved context"));
    // With empty history the question is not condensed.
    assert_eq!(condense_calls(&chain.condense_chain.llm), 0);
    assert_eq!(chain.retriever.calls, 1);
    assert_eq!(chain.memory.len(), 2);
    assert_eq!(chain.memory[0].content, "what is up there?");

    let second = chain.run("and at night?").unwrap();
    // A follow-up is condensed first, and the standalone question is
    // what the answer chain sees.
    assert_eq!(condense_calls(&chain.condense_chain.llm), 1);
    assert!(second.generation.contains("standalone question"));
    assert_eq!(chain.memory.len(), 4);
}

#[test]
fn retrieval_failure_is_a_query_error_and_leaves_memory() {
    let condense = LLMChain::new(condense_formatter(), EchoModel);
    let qa = new_qa_chain(EchoModel);
    let mut chain = ConversationalRetrievalQAChain::new(condense, qa, FailingRetriever);
    assert!(matches!(
        chain.run("anything"),
        Err(ChainError::QueryError(_))
    ));
    assert_eq!(chain.memory.len(), 0);
}

struct FixedDatabase;

impl Database for FixedDatabase {
    fn execute(&mut self, _sql: &str) -> Result<String, String> {
        Ok("1 row: 42".to_string())
    }
}

struct FailingDatabase;

impl Database for FailingDatabase {
    fn execute(&mut self, _sql: &str) -> Result<String, String> {
        Err("syntax error near SELECT".to_string())
    }
}

#[test]
fn sql_chain_generates_executes_and_summarizes() {
    let mut chain = SQLDatabaseChain::new(
        CountingModel { calls: 0, reply: "SELECT 42" },
        FixedDatabase,
    );
    let g = chain.run("how many?", "t(a int)").unwrap();
    assert_eq!(g.generation, "SELECT 42");
    // One call to write the query, one to summarize the result.
    assert_eq!(chain.llm.calls, 2);
}

#[test]
fn sql_execution_failure_skips_summarization() {
    let mut chain = SQLDatabaseChain::new(
        CountingModel { calls: 0, reply: "SELECT 42" },
        FailingDatabase,
    );
    match chain.run("how many?", "t(a int)") {
        Err(ChainError::QueryError(m)) => assert_eq!(m, "syntax error near SELECT"),
        other => panic!("expected a query error, got {:?}", other),
    }
    // The model wrote the query but was never asked to summarize.
    assert_eq!(chain.llm.calls, 1);
}
