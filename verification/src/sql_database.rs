use vstd::prelude::*;
use crate::errors::ChainError;
use crate::language_models::{GenerateResult, LLM};
use crate::llm_chain::finish_generation;
use crate::options::ChainOptions;
use crate::prompt_value::PromptValue;

verus! {

/// The contract any relational database handle satisfies: execute a
/// SQL string and return the tabular result rendered as text, or fail
/// with an opaque message. Implementations live outside this library;
/// nothing is promised of the result.
pub trait Database {
    fn execute(&mut self, sql: &str) -> Result<String, String>;
}

/// Maps an execution outcome into the chain's result: a result table
/// is passed through unchanged; a database message becomes a query
/// error. The chain proceeds to its summarization call only on the
/// passed-through table, so a failed execution ends the run as a query
/// error.
pub fn finish_execution(outcome: Result<String, String>) -> (r: Result<String, ChainError>)
    ensures
        match outcome {
            Ok(table) => r == Ok::<String, ChainError>(table),
            Err(m) => (r matches Err(e) && e matches ChainError::QueryError(mm) && mm == m),
        },
{
    match outcome {
        Ok(table) => Ok(table),
        Err(m) => Err(ChainError::QueryError(m)),
    }
}

/// The instruction the model sees when asked to write SQL for a
/// question against a described schema.
pub open spec fn sql_generation_prompt(schema: Seq<char>, question: Seq<char>) -> Seq<char> {
    "Given the following database schema:\n"@ + schema
        + "\n\nWrite a SQL query answering this question:\n"@ + question + "\nSQL query:"@
}

/// The instruction the model sees when asked to summarize a query
/// result as a natural-language answer.
pub open spec fn sql_summary_prompt(
    question: Seq<char>,
    sql: Seq<char>,
    table: Seq<char>,
) -> Seq<char> {
    "Question:\n"@ + question + "\n\nSQL query:\n"@ + sql + "\n\nQuery result:\n"@ + table
        + "\n\nAnswer in natural language:"@
}

/// Builds the SQL-generation instruction.
pub fn build_generation_prompt(schema: &str, question: &str) -> (r: String)
    ensures
        r@ == sql_generation_prompt(schema@, question@),
{
    let mut out = String::from_str("Given the following database schema:\n");
    out.append(schema);
    out.append("\n\nWrite a SQL query answering this question:\n");
    out.append(question);
    out.append("\nSQL query:");
    out
}

/// Builds the summarization instruction.
pub fn build_summary_prompt(question: &str, sql: &str, table: &str) -> (r: String)
    ensures
        r@ == sql_summary_prompt(question@, sql@, table@),
{
    let mut out = String::from_str("Question:\n");
    out.append(question);
    out.append("\n\nSQL query:\n");
    out.append(sql);
    out.append("\n\nQuery result:\n");
    out.append(table);
    out.append("\n\nAnswer in natural language:");
    out
}

/// Natural-language querying of a relational database: the model
/// writes SQL for the question against the described schema, the
/// database executes it, and the model summarizes the raw result as a
/// natural-language answer. No query repair or retry is attempted.
#[derive(Debug)]
pub struct SQLDatabaseChain<M: LLM, D: Database> {
    pub llm: M,
    pub db: D,
    pub options: ChainOptions,
}

impl<M: LLM, D: Database> SQLDatabaseChain<M, D> {
    pub fn new(llm: M, db: D) -> (r: Self) {
        SQLDatabaseChain { llm, db, options: ChainOptions::default() }
    }

    /// Asks the model for SQL, executes it, and summarizes the result.
    /// A backend failure of either model call is a model error; a
    /// failed execution is a query error and the summarization call is
    /// never reached.
    pub fn run(&mut self, question: &str, schema: &str) -> (r: Result<GenerateResult, ChainError>)
        ensures
            match r {
                Ok(_) => true,
                Err(e) => e is ModelError || e is QueryError,
            },
    {
        let generation_prompt = PromptValue::from_string(
            build_generation_prompt(schema, question),
        );
        let sql = match finish_generation(self.llm.generate(&generation_prompt, &self.options)) {
            Ok(g) => g.generation,
            Err(e) => {
                return Err(e);
            },
        };
        let table = match finish_execution(self.db.execute(sql.as_str())) {
            Ok(table) => table,
            Err(e) => {
                return Err(e);
            },
        };
        let summary_prompt = PromptValue::from_string(
            build_summary_prompt(question, sql.as_str(), table.as_str()),
        );
        finish_generation(self.llm.generate(&summary_prompt, &self.options))
    }
}

} // verus!
