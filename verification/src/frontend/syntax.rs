//! Concrete syntax trees of TypeScript sources, as produced by tree-sitter and
//! held as plain values: each node keeps its kind, its source text, its
//! position and its children in order.

use vstd::prelude::*;

verus! {

/// A node of a concrete syntax tree.
#[derive(Debug)]
pub struct SyntaxNode {
    /// The grammar's name for the node (`identifier`, `call_expression`, `(` ...).
    pub kind: String,
    /// The name of the field under which the node stands in its parent
    /// (`name`, `value`, `arguments` ...), if any.
    pub field: Option<String>,
    /// The source text the node spans.
    pub text: String,
    /// Zero-based row of the first character.
    pub start_row: usize,
    /// Zero-based column of the first character.
    pub start_column: usize,
    /// Zero-based row after the last character.
    pub end_row: usize,
    /// Zero-based column after the last character.
    pub end_column: usize,
    /// All children, named and anonymous, in source order.
    pub children: Vec<SyntaxNode>,
}

#[verifier::external_type_specification]
#[verifier::external_body]
pub struct ExTreeSitterNode<'tree>(tree_sitter::Node<'tree>);

/// The syntax tree that tree-sitter's TypeScript grammar gives for a source
/// text. Parsing is deterministic: the same text always gives the same tree.
pub uninterp spec fn spec_typescript_syntax(source: Seq<char>) -> SyntaxNode;

/// `tree_sitter::Parser::new`, `set_language` with the TypeScript grammar of
/// `tree_sitter_typescript`, and `parse(source, None)`, the tree turned into
/// plain values. Neither step fails: `set_language` accepts grammars of
/// language versions 13 to 14 and the TypeScript grammar is version 14;
/// `parse` gives no tree only without a language, after a timeout or on a
/// cancellation flag, none of which is set here. The result is the grammar's
/// tree of the text.
#[verifier::external_body]
pub(crate) fn parse_typescript(source: &str) -> (r: SyntaxNode)
    ensures
        r == spec_typescript_syntax(source@),
{
    let mut parser = tree_sitter::Parser::new();
    parser.set_language(&tree_sitter_typescript::LANGUAGE_TYPESCRIPT.into()).expect("TypeScript grammar version 14");
    let tree = parser.parse(source, None).expect("a parser with a language gives a tree");
    syntax_node_of(tree.root_node(), None, source)
}

/// Turns a tree-sitter node (standing under `field` in its parent) and its
/// descendants into plain values, one `SyntaxNode` per node, reading `kind`,
/// `utf8_text`, the positions, and the children with their field names. Only
/// `parse_typescript` calls it.
#[verifier::external_body]
fn syntax_node_of(node: tree_sitter::Node, field: Option<&str>, source: &str) -> SyntaxNode {
    let mut children = Vec::new();
    let mut cursor = node.walk();
    let mut more = cursor.goto_first_child();
    while more {
        children.push(syntax_node_of(cursor.node(), cursor.field_name(), source));
        more = cursor.goto_next_sibling();
    }
    let (start, end) = (node.start_position(), node.end_position());
    let text = node.utf8_text(source.as_bytes()).unwrap_or("").to_string();
    let (kind, field) = (node.kind().to_string(), field.map(|f| f.to_string()));
    SyntaxNode { kind, field, text, start_row: start.row, start_column: start.column, end_row: end.row, end_column: end.column, children }
}

} // verus!
