//! Errors raised while reading a netlist.

use vstd::prelude::*;
use crate::lexer::TokenKind;

verus! {

/// A structural error found before any sample is processed. Texts are those
/// of the offending tokens.
#[derive(Debug, Clone, PartialEq)]
pub enum DslError {
    /// A character that starts no token, at its line and column.
    UnexpectedCharacter { line: usize, column: usize, found: char },
    /// A token of another kind than the grammar asks for at that place.
    UnexpectedToken { line: usize, expected: TokenKind, found: TokenKind },
    /// A line that starts with neither a directive nor a word.
    UnexpectedLineStart { line: usize, text: String },
    /// A directive other than `.input`, `.output`, `.node` and `.model`.
    UnknownDirective { line: usize, text: String },
    /// A `.model` whose type is none of the model types.
    UnknownModelType { line: usize, text: String },
    /// A model parameter whose value is not a number.
    InvalidNumber { line: usize, text: String },
    /// A model parameter with no value after `=`.
    ExpectedParameterValue { line: usize },
    /// A line whose leading word names no kind of component.
    UnknownComponentType { line: usize, text: String },
    /// A component with fewer nodes than its kind connects.
    MissingNodes { line: usize, name: String, expected: usize, found: usize },
    /// A second `.model` with a name already defined.
    DuplicateModel { name: String },
}

impl DslError {
    /// A copy of this error.
    pub fn duplicate(&self) -> (r: DslError)
        ensures
            r == *self,
    {
        match self {
            DslError::UnexpectedCharacter { line, column, found } => DslError::UnexpectedCharacter {
                line: *line,
                column: *column,
                found: *found,
            },
            DslError::UnexpectedToken { line, expected, found } => DslError::UnexpectedToken {
                line: *line,
                expected: *expected,
                found: *found,
            },
            DslError::UnexpectedLineStart { line, text } => DslError::UnexpectedLineStart {
                line: *line,
                text: text.clone(),
            },
            DslError::UnknownDirective { line, text } => DslError::UnknownDirective {
                line: *line,
                text: text.clone(),
            },
            DslError::UnknownModelType { line, text } => DslError::UnknownModelType {
                line: *line,
                text: text.clone(),
            },
            DslError::InvalidNumber { line, text } => DslError::InvalidNumber {
                line: *line,
                text: text.clone(),
            },
            DslError::ExpectedParameterValue { line } => DslError::ExpectedParameterValue {
                line: *line,
            },
            DslError::UnknownComponentType { line, text } => DslError::UnknownComponentType {
                line: *line,
                text: text.clone(),
            },
            DslError::MissingNodes { line, name, expected, found } => DslError::MissingNodes {
                line: *line,
                name: name.clone(),
                expected: *expected,
                found: *found,
            },
            DslError::DuplicateModel { name } => DslError::DuplicateModel { name: name.clone() },
        }
    }
}

} // verus!
