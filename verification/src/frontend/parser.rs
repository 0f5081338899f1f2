//! The TypeScript parser: tree-sitter gives the concrete syntax tree, and a
//! visitor turns it into the abstract syntax of `ast`. Positions are those of
//! tree-sitter (zero-based rows and columns).

use vstd::prelude::*;

use crate::diagnostic::{CompilerError, Span, SpanView};
use crate::frontend::ast::{declarations_view, DeclarationsView, ParsedFile};
use crate::frontend::parse_decl::{parse_syntax_tree, spec_program};
use crate::frontend::syntax::{
    parse_typescript, spec_typescript_syntax, SyntaxNode,
};
use crate::text::to_owned_string;

verus! {

/// The span of a node in the file `path`.
pub open spec fn node_span(n: SyntaxNode, path: Seq<char>) -> SpanView {
    (path, n.start_row, n.start_column, n.end_row, n.end_column)
}

/// A syntax error as plain values: message, file, line, column.
pub type SyntaxErrorView = (Seq<char>, Seq<char>, usize, usize);

/// The syntax error with `message` at the start of node `n` of file `path`.
pub open spec fn syntax_error_at(n: SyntaxNode, path: Seq<char>, message: Seq<char>) -> SyntaxErrorView {
    (message, path, n.start_row, n.start_column)
}

/// Whether `e` is the syntax error `v`.
pub open spec fn is_syntax_error(e: CompilerError, v: SyntaxErrorView) -> bool {
    e matches CompilerError::SyntaxError { message, file, line, column } && message@ == v.0 && file@ == v.1
        && line == v.2 && column == v.3
}

/// Walks a syntax tree of the file `path` and extracts its declarations.
pub struct Visitor {
    /// The file the tree was parsed from.
    pub path: String,
}

impl Visitor {
    /// A visitor of the tree of file `path`.
    pub fn new(path: &str) -> (r: Visitor)
        ensures
            r.path@ == path@,
    {
        Visitor { path: to_owned_string(path) }
    }

    /// The span of `node`.
    pub fn span(&self, node: &SyntaxNode) -> (s: Span)
        ensures
            s@ == node_span(*node, self.path@),
    {
        Span::new(self.path.clone(), node.start_row, node.start_column, node.end_row, node.end_column)
    }

    /// The syntax error `message` at the start of `node`.
    pub fn syntax_error(&self, node: &SyntaxNode, message: &str) -> (e: CompilerError)
        ensures
            is_syntax_error(e, syntax_error_at(*node, self.path@, message@)),
    {
        CompilerError::SyntaxError {
            message: to_owned_string(message),
            file: self.path.clone(),
            line: node.start_row,
            column: node.start_column,
        }
    }
}

/// A TypeScript parser.
pub struct TypeScriptParser {}

impl TypeScriptParser {
    /// A parser for TypeScript. The grammar always loads (its version is one
    /// tree-sitter accepts), so this succeeds.
    pub fn new() -> (r: Result<TypeScriptParser, CompilerError>)
        ensures
            r is Ok,
    {
        Ok(TypeScriptParser {})
    }

    /// Parses the TypeScript `source` of the file `path` and extracts its
    /// declarations: those of its syntax tree, or the syntax error reading it
    /// gives.
    pub fn parse(&mut self, source: &str, path: &str) -> (r: Result<ParsedFile, CompilerError>)
        ensures
            match r {
                Ok(f) => f.path@ == path@ && spec_program(spec_typescript_syntax(source@), path@) == Ok::<
                    DeclarationsView,
                    SyntaxErrorView,
                >(declarations_view(f)),
                Err(err) => spec_program(spec_typescript_syntax(source@), path@) is Err && is_syntax_error(
                    err,
                    spec_program(spec_typescript_syntax(source@), path@)->Err_0,
                ),
            },
    {
        let root = parse_typescript(source);
        parse_syntax_tree(&root, path)
    }
}

} // verus!
