//! A library for composing language-model-driven workflows: structured
//! prompts (plain text or multi-turn chat), a pluggable model backend,
//! chains that pipe one step into the next, and splitters that cut long
//! text into bounded chunks.

pub mod errors;
pub mod messages;
pub mod prompt_value;
pub mod prompt_args;
pub mod template;
pub mod chat;
pub mod language_models;
pub mod options;
pub mod llm_chain;
pub mod conversational;
pub mod sequential;
pub mod documents;
pub mod stuff_documents;
pub mod question_answering;
pub mod conversational_retrieval_qa;
pub mod sql_database;
pub mod text_splitter;
pub mod token_splitter;
