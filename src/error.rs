//! What can go wrong while loading a model.
use vstd::prelude::*;

verus! {

/// The attribute table that a face corner refers into.
#[derive(PartialEq, Eq, Structural, Clone, Copy, Debug)]
pub enum AttributeKind {
    Position,
    Normal,
    TexCoord,
}

/// The kind of a loading failure, with the data that belongs to it.
#[derive(Debug)]
pub enum ErrorKind {
    /// The line source could not be opened.
    SourceUnavailable,
    /// Reading the given line failed; `message` describes the I/O error.
    LineReadFailure { line: usize, message: String },
    /// A line starts with a token that is no known directive.
    UnrecognizedDirective { token: String, line: usize },
    /// A face line whose slash-separated field count is not 3, 6 or 9.
    MalformedFace { count: usize, line: usize },
    /// A field that should hold a number does not; empty when it is missing.
    FieldParseError { field: String, line: usize },
    /// A face corner's 1-based index lies outside its attribute table.
    InvalidReference { attribute: AttributeKind, index: usize },
}

/// A failure to load a model, with the name of the source it came from.
#[derive(Debug)]
pub struct ModelLoadingError {
    pub file_path: String,
    pub kind: ErrorKind,
}

/// The failures that parsing and welding can report, as values.
pub enum Failure {
    UnrecognizedDirective { token: Seq<char>, line: usize },
    MalformedFace { count: usize, line: usize },
    FieldParse { field: Seq<char>, line: usize },
    InvalidReference { attribute: AttributeKind, index: usize },
}

impl ErrorKind {
    /// This error reports the failure `f`.
    pub open spec fn reports(&self, f: Failure) -> bool {
        match f {
            Failure::UnrecognizedDirective { token, line } => self matches ErrorKind::UnrecognizedDirective { token: t, line: l } && t@ == token && l == line,
            Failure::MalformedFace { count, line } => self matches ErrorKind::MalformedFace { count: c, line: l } && c == count && l == line,
            Failure::FieldParse { field, line } => self matches ErrorKind::FieldParseError { field: t, line: l } && t@ == field && l == line,
            Failure::InvalidReference { attribute, index } => self matches ErrorKind::InvalidReference { attribute: a, index: i } && a == attribute && i == index,
        }
    }
}

impl ModelLoadingError {
    /// A short name for this kind of failure.
    pub fn description(&self) -> (r: &'static str)
        ensures
            r@ == "Obj Error"@,
    {
        "Obj Error"
    }

    /// The message that a user sees for any loading failure.
    pub fn message(&self) -> (r: String)
        ensures
            r@ == "Could not process the obj file"@,
    {
        String::from_str("Could not process the obj file")
    }
}

} // verus!
