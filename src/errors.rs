use vstd::prelude::*;

verus! {

/// Every failure that loading a schema or interpreting bytes can report.
#[derive(Debug, Clone, PartialEq, Eq)]
pub enum KaitaiError {
    /// The schema document has the wrong shape, or a field holds a bad value.
    SchemaError { section: String, reason: String },
    /// A string failed the pattern that its channel requires.
    InvalidValue { pattern: String, value: String },
    /// A validation pattern could not be compiled.
    InvalidPattern { pattern: String },
    /// A user type name was not found in scope.
    UnknownType { name: String },
    /// An expression could not be parsed or evaluated.
    ExpressionError { expr: String, cause: String },
    /// A read went past the end of the buffer.
    EndOfStream { attr: String, needed: usize, available: usize },
    /// Fixed contents did not match the bytes read.
    ContentsMismatch { attr: String, expected: Vec<u8>, got: Vec<u8> },
    /// An internal invariant was violated.
    IntegrityError { reason: String },
}

} // verus!
