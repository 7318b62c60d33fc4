use vstd::prelude::*;

verus! {

/// The one error taxonomy shared by prompt formatting and by every chain.
///
/// Each variant carries a short text: the name of the offending variable
/// for the input errors, and the collaborator's own message for the
/// model and query errors.
#[derive(Debug, Clone, PartialEq, Eq)]
pub enum ChainError {
    /// A required variable is absent from the supplied arguments.
    MissingInput(String),
    /// A bound variable has the wrong shape, e.g. a placeholder expecting
    /// a message list was given plain text.
    InvalidInput(String),
    /// The language-model backend failed.
    ModelError(String),
    /// An external database or retrieval call failed.
    QueryError(String),
    /// A component was assembled inconsistently, e.g. a template whose
    /// declared variables do not match its placeholders.
    ConfigurationError(String),
}

} // verus!
