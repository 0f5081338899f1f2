//! Compiler errors and source locations.

use vstd::prelude::*;

verus! {

/// A span in the source code.
#[derive(Debug, Clone)]
pub struct Span {
    pub file: String,
    pub start_line: usize,
    pub start_col: usize,
    pub end_line: usize,
    pub end_col: usize,
}

/// A span as plain values: file, start line, start column, end line, end column.
pub type SpanView = (Seq<char>, usize, usize, usize, usize);

impl View for Span {
    type V = SpanView;

    open spec fn view(&self) -> SpanView {
        (self.file@, self.start_line, self.start_col, self.end_line, self.end_col)
    }
}

impl Span {
    /// A span of `file` from (`start_line`, `start_col`) to (`end_line`, `end_col`).
    pub fn new(file: String, start_line: usize, start_col: usize, end_line: usize, end_col: usize) -> (r: Self)
        ensures
            r.file == file,
            r.start_line == start_line,
            r.start_col == start_col,
            r.end_line == end_line,
            r.end_col == end_col,
    {
        Span { file, start_line, start_col, end_line, end_col }
    }
}

/// Errors that can occur during compilation.
#[derive(Debug)]
pub enum CompilerError {
    /// A file could not be read or written.
    IoError { path: String, message: String },
    /// The parser could not be initialized.
    ParserInitFailed,
    /// A file could not be parsed.
    ParseFailed { path: String },
    /// A syntax error.
    SyntaxError { message: String, file: String, line: usize, column: usize },
    /// An aggregate lacks a required member.
    MissingMember { member: String, aggregate: String },
    /// An event type is not a discriminated union with a `type` field.
    InvalidEventType { type_ident: String },
    /// A state type is not an object type.
    InvalidStateType { type_ident: String },
    /// A projection class cannot be converted.
    InvalidProjection { name: String, reason: String },
    /// Domain logic calls a function with side effects.
    ForbiddenCall { name: String, file: String, line: usize },
    /// Domain logic awaits in an aggregate.
    ForbiddenAwait { file: String, line: usize },
    /// Domain logic imports an external package.
    ForbiddenImport { package: String, file: String, line: usize },
    /// A type cannot be serialized to JSON.
    NotSerializable { type_desc: String },
    /// A type reference is unknown.
    UnknownTypeReference { name: String },
    /// Code generation failed.
    CodegenFailed { message: String },
    /// Formatting generated code failed.
    FormatFailed { message: String },
    /// The domain directory holds no aggregate (and no projection).
    NoAggregates,
    /// Two aggregates share a name.
    DuplicateAggregate { name: String, first: String, second: String },
    /// Imports form a cycle.
    CircularImport { cycle: Vec<String> },
    /// No frontend exists for the language.
    UnsupportedLanguage { language: String },
}

impl CompilerError {
    /// An I/O error about `path`.
    pub fn io(path: String, message: String) -> (r: Self)
        ensures
            r == (CompilerError::IoError { path, message }),
    {
        CompilerError::IoError { path, message }
    }
}

} // verus!
