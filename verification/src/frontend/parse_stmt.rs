//! Statements of the syntax tree. A nested statement that fails to read
//! makes the enclosing one fail with the same error; an expression that
//! fails to read is left out where the statement can do without it.

use vstd::prelude::*;

use crate::diagnostic::CompilerError;
use crate::frontend::ast::{
    case_view, expr_view, opt_expr_view, opt_type_view, stmt_view, stmt_views, Expression, Statement,
    StatementView, SwitchCase, SwitchCaseView, TypeNode, VarKind,
};
use crate::frontend::parse_expr::{last_operand, ok_expr, spec_expression};
use crate::frontend::parse_type::annotation_type;
use crate::frontend::parser::{is_syntax_error, node_span, syntax_error_at, SyntaxErrorView, Visitor};
use crate::frontend::syntax::SyntaxNode;
use crate::text::str_eq;

verus! {

// ---------------------------------------------------------------------------
// Specification
// ---------------------------------------------------------------------------

/// The statement kinds that can stand as the branch of an `if`.
pub open spec fn is_branch_kind(k: Seq<char>) -> bool {
    ||| k == "statement_block"@
    ||| k == "if_statement"@
    ||| k == "return_statement"@
    ||| k == "throw_statement"@
    ||| k == "expression_statement"@
}

/// The statement that node `n` of file `path` denotes (none for a node that
/// is no statement the visitor reads), or the syntax error that reading it
/// gives.
pub open spec fn spec_statement(n: SyntaxNode, path: Seq<char>) -> Result<Option<StatementView>, SyntaxErrorView>
    decreases n, n.children@.len() + 2,
{
    let k = n.kind@;
    if k == "if_statement"@ {
        spec_if(n, path)
    } else if k == "switch_statement"@ {
        spec_switch(n, path)
    } else if k == "return_statement"@ {
        Ok(
            Some(
                StatementView::Return {
                    value: last_operand(n, path, n.children@.len() as int, "return"@, ";"@),
                    span: node_span(n, path),
                },
            ),
        )
    } else if k == "throw_statement"@ {
        match last_operand(n, path, n.children@.len() as int, "throw"@, ";"@) {
            Some(a) => Ok(Some(StatementView::Throw { argument: a, span: node_span(n, path) })),
            None => Err(syntax_error_at(n, path, "Missing argument in throw statement"@)),
        }
    } else if k == "expression_statement"@ {
        Ok(spec_expression_statement(n, path))
    } else if k == "lexical_declaration"@ || k == "variable_declaration"@ {
        Ok(spec_variable_declaration(n, path))
    } else if k == "statement_block"@ {
        match spec_block(n, path) {
            Ok(ss) => Ok(Some(StatementView::Block { statements: ss, span: node_span(n, path) })),
            Err(e) => Err(e),
        }
    } else {
        Ok(None)
    }
}

/// An expression statement: its first readable expression; none without one.
pub open spec fn spec_expression_statement(n: SyntaxNode, path: Seq<char>) -> Option<StatementView>
    decreases n, n.children@.len() + 1,
{
    match first_readable(n, path, n.children@.len() as int) {
        Some(e) => Some(StatementView::Expression { expression: e, span: node_span(n, path) }),
        None => None,
    }
}

/// The first readable expression among the first `k` children that are not
/// `;`.
pub open spec fn first_readable(n: SyntaxNode, path: Seq<char>, k: int) -> Option<crate::frontend::ast::ExpressionView>
    decreases k,
{
    if k <= 0 || k > n.children@.len() {
        None
    } else {
        match first_readable(n, path, k - 1) {
            Some(e) => Some(e),
            None => if n.children@[k - 1].kind@ != ";"@ {
                ok_expr(spec_expression(n.children@[k - 1], path))
            } else {
                None
            },
        }
    }
}

/// The statements of a block: those of its children other than braces, in
/// order; the first error among them is the block's.
pub open spec fn spec_block(n: SyntaxNode, path: Seq<char>) -> Result<Seq<StatementView>, SyntaxErrorView>
    decreases n, n.children@.len() + 1,
{
    block_scan(n, path, n.children@.len() as int)
}

/// The statements of the first `k` children of a block.
pub open spec fn block_scan(n: SyntaxNode, path: Seq<char>, k: int) -> Result<Seq<StatementView>, SyntaxErrorView>
    decreases n, k,
{
    if k <= 0 || k > n.children@.len() {
        Ok(Seq::empty())
    } else {
        match block_scan(n, path, k - 1) {
            Err(e) => Err(e),
            Ok(ss) => {
                let c = n.children@[k - 1];
                if c.kind@ != "{"@ && c.kind@ != "}"@ {
                    match spec_statement(c, path) {
                        Err(e) => Err(e),
                        Ok(Some(s)) => Ok(ss.push(s)),
                        Ok(None) => Ok(ss),
                    }
                } else {
                    Ok(ss)
                }
            },
        }
    }
}

/// The statements a branch of an `if` stands for: a block's statements, or
/// the single statement; none where the node is no statement.
pub open spec fn spec_branch(n: SyntaxNode, path: Seq<char>) -> Result<Option<Seq<StatementView>>, SyntaxErrorView>
    decreases n, n.children@.len() + 3,
{
    if n.kind@ == "statement_block"@ {
        match spec_block(n, path) {
            Ok(ss) => Ok(Some(ss)),
            Err(e) => Err(e),
        }
    } else {
        match spec_statement(n, path) {
            Ok(Some(s)) => Ok(Some(seq![s])),
            Ok(None) => Ok(None),
            Err(e) => Err(e),
        }
    }
}

/// What the visitor of an `if` has found: condition, then branch, else
/// branch, whether a condition was found, whether a then branch was found.
pub type IfScan = (
    Option<crate::frontend::ast::ExpressionView>,
    Seq<StatementView>,
    Option<Seq<StatementView>>,
    bool,
    bool,
);

/// An `if` statement: an error without a readable condition.
pub open spec fn spec_if(n: SyntaxNode, path: Seq<char>) -> Result<Option<StatementView>, SyntaxErrorView>
    decreases n, n.children@.len() + 1,
{
    match if_scan(n, path, n.children@.len() as int) {
        Err(e) => Err(e),
        Ok(st) => match st.0 {
            None => Err(syntax_error_at(n, path, "Missing condition in if statement"@)),
            Some(c) => Ok(
                Some(StatementView::If { condition: c, then_branch: st.1, else_branch: st.2, span: node_span(n, path) }),
            ),
        },
    }
}

/// The state of the visitor of an `if` after its first `k` children: a
/// parenthesized expression is the condition; before a condition is found,
/// any readable child is; the first branch statement is the then branch, a
/// later one or an `else` clause the else branch.
pub open spec fn if_scan(n: SyntaxNode, path: Seq<char>, k: int) -> Result<IfScan, SyntaxErrorView>
    decreases n, k,
{
    if k <= 0 || k > n.children@.len() {
        Ok((None, Seq::empty(), None, false, false))
    } else {
        match if_scan(n, path, k - 1) {
            Err(e) => Err(e),
            Ok(st) => {
                let (cond, then_b, else_b, found_cond, found_then) = st;
                let c = n.children@[k - 1];
                if c.kind@ == "parenthesized_expression"@ {
                    Ok((ok_expr(spec_expression(c, path)), then_b, else_b, true, found_then))
                } else if is_branch_kind(c.kind@) {
                    match spec_branch(c, path) {
                        Err(e) => Err(e),
                        Ok(b) => if !found_then {
                            match b {
                                Some(ss) => Ok((cond, ss, else_b, found_cond, true)),
                                None => Ok((cond, then_b, else_b, found_cond, true)),
                            }
                        } else {
                            match b {
                                Some(ss) => Ok((cond, then_b, Some(ss), found_cond, found_then)),
                                None => Ok((cond, then_b, else_b, found_cond, found_then)),
                            }
                        },
                    }
                } else if c.kind@ == "else_clause"@ {
                    match else_scan(c, path, c.children@.len() as int, else_b) {
                        Err(e) => Err(e),
                        Ok(e2) => Ok((cond, then_b, e2, found_cond, found_then)),
                    }
                } else if !found_cond {
                    let r = ok_expr(spec_expression(c, path));
                    Ok((r, then_b, else_b, r is Some, found_then))
                } else {
                    Ok(st)
                }
            },
        }
    }
}

/// The else branch after the first `k` children of an `else` clause, starting
/// from `start`: each child that stands for statements replaces it.
pub open spec fn else_scan(n: SyntaxNode, path: Seq<char>, k: int, start: Option<Seq<StatementView>>) -> Result<Option<Seq<StatementView>>, SyntaxErrorView>
    decreases n, k,
{
    if k <= 0 || k > n.children@.len() {
        Ok(start)
    } else {
        match else_scan(n, path, k - 1, start) {
            Err(e) => Err(e),
            Ok(cur) => match spec_branch(n.children@[k - 1], path) {
                Err(e) => Err(e),
                Ok(Some(ss)) => Ok(Some(ss)),
                Ok(None) => Ok(cur),
            },
        }
    }
}

/// A `switch` statement: an error without a readable discriminant.
pub open spec fn spec_switch(n: SyntaxNode, path: Seq<char>) -> Result<Option<StatementView>, SyntaxErrorView>
    decreases n, n.children@.len() + 1,
{
    match switch_scan(n, path, n.children@.len() as int) {
        Err(e) => Err(e),
        Ok(st) => match st.0 {
            None => Err(syntax_error_at(n, path, "Missing discriminant in switch statement"@)),
            Some(d) => Ok(Some(StatementView::Switch { discriminant: d, cases: st.1, span: node_span(n, path) })),
        },
    }
}

/// Discriminant and cases of a `switch` after its first `k` children: the
/// last parenthesized expression, when readable, and the cases of the last
/// body.
pub open spec fn switch_scan(n: SyntaxNode, path: Seq<char>, k: int) -> Result<(Option<crate::frontend::ast::ExpressionView>, Seq<SwitchCaseView>), SyntaxErrorView>
    decreases n, k,
{
    if k <= 0 || k > n.children@.len() {
        Ok((None, Seq::empty()))
    } else {
        match switch_scan(n, path, k - 1) {
            Err(e) => Err(e),
            Ok(st) => {
                let c = n.children@[k - 1];
                if c.kind@ == "parenthesized_expression"@ {
                    Ok((ok_expr(spec_expression(c, path)), st.1))
                } else if c.kind@ == "switch_body"@ {
                    match switch_cases(c, path, c.children@.len() as int) {
                        Err(e) => Err(e),
                        Ok(cs) => Ok((st.0, cs)),
                    }
                } else {
                    Ok(st)
                }
            },
        }
    }
}

/// The cases among the first `k` children of a switch body.
pub open spec fn switch_cases(n: SyntaxNode, path: Seq<char>, k: int) -> Result<Seq<SwitchCaseView>, SyntaxErrorView>
    decreases n, k,
{
    if k <= 0 || k > n.children@.len() {
        Ok(Seq::empty())
    } else {
        match switch_cases(n, path, k - 1) {
            Err(e) => Err(e),
            Ok(cs) => {
                let c = n.children@[k - 1];
                if c.kind@ == "switch_case"@ || c.kind@ == "switch_default"@ {
                    match case_scan(c, path, c.children@.len() as int, c.kind@ == "switch_default"@) {
                        Err(e) => Err(e),
                        Ok(st) => Ok(cs.push((st.0, st.1))),
                    }
                } else {
                    Ok(cs)
                }
            },
        }
    }
}

/// Test, statements and whether the colon was passed, after the first `k`
/// children of a case (a `default` case when `is_default`): before the colon
/// the last readable child other than the keyword `case` is the test; after
/// it come the statements.
pub open spec fn case_scan(n: SyntaxNode, path: Seq<char>, k: int, is_default: bool) -> Result<(Option<crate::frontend::ast::ExpressionView>, Seq<StatementView>, bool), SyntaxErrorView>
    decreases n, k,
{
    if k <= 0 || k > n.children@.len() {
        Ok((None, Seq::empty(), false))
    } else {
        match case_scan(n, path, k - 1, is_default) {
            Err(e) => Err(e),
            Ok(st) => {
                let (test, ss, past) = st;
                let c = n.children@[k - 1];
                if c.kind@ == ":"@ {
                    Ok((test, ss, true))
                } else if !is_default && !past && c.kind@ != "case"@ {
                    Ok((ok_expr(spec_expression(c, path)), ss, past))
                } else if past {
                    match spec_statement(c, path) {
                        Err(e) => Err(e),
                        Ok(Some(s)) => Ok((test, ss.push(s), past)),
                        Ok(None) => Ok(st),
                    }
                } else {
                    Ok(st)
                }
            },
        }
    }
}

/// A variable declaration: the keyword sets its kind (`let` by default); of
/// its declarators, the last identifier names it, the last type annotation
/// types it, and the first readable value after a name initializes it. None
/// without a name.
pub open spec fn spec_variable_declaration(n: SyntaxNode, path: Seq<char>) -> Option<StatementView>
    decreases n, n.children@.len() + 1,
{
    let (kind, name, t, init) = var_scan(n, path, n.children@.len() as int);
    if name.len() == 0 {
        None
    } else {
        Some(StatementView::VariableDecl { kind, name, type_node: t, initializer: init, span: node_span(n, path) })
    }
}

/// What a declarator gives: name, type, initializer.
pub type DeclaratorScan = (Seq<char>, Option<crate::frontend::ast::TypeNodeView>, Option<crate::frontend::ast::ExpressionView>);

/// Kind, name, type and initializer after the first `k` children of a
/// variable declaration.
pub open spec fn var_scan(n: SyntaxNode, path: Seq<char>, k: int) -> (VarKind, Seq<char>, Option<crate::frontend::ast::TypeNodeView>, Option<crate::frontend::ast::ExpressionView>)
    decreases n, k,
{
    if k <= 0 || k > n.children@.len() {
        (VarKind::Let, Seq::empty(), None, None)
    } else {
        let (kind, name, t, init) = var_scan(n, path, k - 1);
        let c = n.children@[k - 1];
        if c.kind@ == "const"@ {
            (VarKind::Const, name, t, init)
        } else if c.kind@ == "let"@ {
            (VarKind::Let, name, t, init)
        } else if c.kind@ == "var"@ {
            (VarKind::Var, name, t, init)
        } else if c.kind@ == "variable_declarator"@ {
            let d = declarator_scan(c, path, c.children@.len() as int, (name, t, init));
            (kind, d.0, d.1, d.2)
        } else {
            (kind, name, t, init)
        }
    }
}

/// Name, type and initializer after the first `k` children of a declarator,
/// starting from `start`.
pub open spec fn declarator_scan(n: SyntaxNode, path: Seq<char>, k: int, start: DeclaratorScan) -> DeclaratorScan
    decreases n, k,
{
    if k <= 0 || k > n.children@.len() {
        start
    } else {
        let (name, t, init) = declarator_scan(n, path, k - 1, start);
        let c = n.children@[k - 1];
        if c.kind@ == "identifier"@ {
            (c.text@, t, init)
        } else if c.kind@ == "type_annotation"@ {
            match annotation_type(c) {
                Some(a) => (name, Some(a), init),
                None => (name, t, init),
            }
        } else if c.kind@ != "="@ && init is None && name.len() != 0 {
            (name, t, ok_expr(spec_expression(c, path)))
        } else {
            (name, t, init)
        }
    }
}

/// Whether `r` is the statement result `s`.
pub open spec fn stmt_result_is(r: Result<Option<Statement>, CompilerError>, s: Result<Option<StatementView>, SyntaxErrorView>) -> bool {
    match r {
        Ok(Some(st)) => s == Ok::<Option<StatementView>, SyntaxErrorView>(Some(stmt_view(st))),
        Ok(None) => s == Ok::<Option<StatementView>, SyntaxErrorView>(None),
        Err(err) => s is Err && is_syntax_error(err, s->Err_0),
    }
}

/// Whether `r` is the list result `s`.
pub open spec fn stmts_result_is(r: Result<Vec<Statement>, CompilerError>, s: Result<Seq<StatementView>, SyntaxErrorView>) -> bool {
    match r {
        Ok(v) => s == Ok::<Seq<StatementView>, SyntaxErrorView>(stmt_views(v@)),
        Err(err) => s is Err && is_syntax_error(err, s->Err_0),
    }
}

/// The view of an optional list of statements.
pub open spec fn opt_stmts_view(o: Option<Vec<Statement>>) -> Option<Seq<StatementView>> {
    match o {
        Some(v) => Some(stmt_views(v@)),
        None => None,
    }
}

/// Whether `r` is the result `s` of a branch.
pub open spec fn opt_stmts_result_is(r: Result<Option<Vec<Statement>>, CompilerError>, s: Result<Option<Seq<StatementView>>, SyntaxErrorView>) -> bool {
    match r {
        Ok(v) => s == Ok::<Option<Seq<StatementView>>, SyntaxErrorView>(opt_stmts_view(v)),
        Err(err) => s is Err && is_syntax_error(err, s->Err_0),
    }
}

/// The views of a list of switch cases.
pub open spec fn case_views(cs: Seq<SwitchCase>) -> Seq<SwitchCaseView> {
    Seq::new(cs.len(), |k: int| case_view(cs[k]))
}

// ---------------------------------------------------------------------------
// Implementation
// ---------------------------------------------------------------------------

proof fn lemma_push_stmt_views(ss: Seq<Statement>, s: Statement)
    ensures
        stmt_views(ss.push(s)) == stmt_views(ss).push(stmt_view(s)),
{
    assert(stmt_views(ss.push(s)) =~= stmt_views(ss).push(stmt_view(s)));
}

impl Visitor {
    /// Reads a statement; none for a node that is no statement the visitor
    /// reads.
    pub fn visit_statement(&self, node: &SyntaxNode) -> (r: Result<Option<Statement>, CompilerError>)
        ensures
            stmt_result_is(r, spec_statement(*node, self.path@)),
        decreases node, 3nat,
    {
        let k = node.kind.as_str();
        if str_eq(k, "if_statement") {
            self.visit_if_statement(node)
        } else if str_eq(k, "switch_statement") {
            self.visit_switch_statement(node)
        } else if str_eq(k, "return_statement") {
            Ok(Some(self.visit_return_statement(node)))
        } else if str_eq(k, "throw_statement") {
            self.visit_throw_statement(node)
        } else if str_eq(k, "expression_statement") {
            Ok(self.visit_expression_statement(node))
        } else if str_eq(k, "lexical_declaration") || str_eq(k, "variable_declaration") {
            Ok(self.visit_variable_declaration(node))
        } else if str_eq(k, "statement_block") {
            match self.visit_statement_block(node) {
                Ok(ss) => {
                    let r = Statement::Block { statements: ss, span: self.span(node) };
                    proof {
                        assert(stmt_view(r)->Block_statements =~= stmt_views(ss@));
                    }
                    Ok(Some(r))
                },
                Err(e) => Err(e),
            }
        } else {
            Ok(None)
        }
    }

    /// Reads a `return` statement: its value is the last readable child
    /// other than the keyword and `;`.
    pub fn visit_return_statement(&self, node: &SyntaxNode) -> (r: Statement)
        ensures
            stmt_view(r) == (StatementView::Return {
                value: last_operand(*node, self.path@, node.children@.len() as int, "return"@, ";"@),
                span: node_span(*node, self.path@),
            }),
    {
        let value = self.visit_last_operand(node, "return", ";");
        Statement::Return { value, span: self.span(node) }
    }

    /// Reads a `throw` statement: its argument is the last readable child
    /// other than the keyword and `;`; an error without one.
    pub fn visit_throw_statement(&self, node: &SyntaxNode) -> (r: Result<Option<Statement>, CompilerError>)
        ensures
            stmt_result_is(
                r,
                match last_operand(*node, self.path@, node.children@.len() as int, "throw"@, ";"@) {
                    Some(a) => Ok(Some(StatementView::Throw { argument: a, span: node_span(*node, self.path@) })),
                    None => Err(syntax_error_at(*node, self.path@, "Missing argument in throw statement"@)),
                },
            ),
    {
        match self.visit_last_operand(node, "throw", ";") {
            Some(a) => Ok(Some(Statement::Throw { argument: a, span: self.span(node) })),
            None => Err(self.syntax_error(node, "Missing argument in throw statement")),
        }
    }

    /// Reads the statements of a block.
    pub fn visit_statement_block(&self, node: &SyntaxNode) -> (r: Result<Vec<Statement>, CompilerError>)
        ensures
            stmts_result_is(r, spec_block(*node, self.path@)),
        decreases node, 2nat,
    {
        let mut out: Vec<Statement> = Vec::new();
        proof {
            assert(stmt_views(out@) =~= Seq::<StatementView>::empty());
        }
        let mut i: usize = 0;
        while i < node.children.len()
            invariant
                i <= node.children@.len(),
                block_scan(*node, self.path@, i as int) == Ok::<Seq<StatementView>, SyntaxErrorView>(
                    stmt_views(out@),
                ),
            decreases node.children.len() - i,
        {
            let c = &node.children[i];
            proof {
                assert(decreases_to!(*node => node.children@[i as int]));
            }
            let ck = c.kind.as_str();
            if !str_eq(ck, "{") && !str_eq(ck, "}") {
                match self.visit_statement(c) {
                    Err(e) => {
                        proof {
                            lemma_block_scan_err(*node, self.path@, i as int + 1);
                        }
                        return Err(e);
                    },
                    Ok(Some(s)) => {
                        proof {
                            lemma_push_stmt_views(out@, s);
                        }
                        out.push(s);
                    },
                    Ok(None) => {},
                }
            }
            i = i + 1;
        }
        Ok(out)
    }

    /// Reads a branch of an `if`: a block's statements, or the single
    /// statement; none where the node is no statement.
    fn visit_branch(&self, node: &SyntaxNode) -> (r: Result<Option<Vec<Statement>>, CompilerError>)
        ensures
            opt_stmts_result_is(r, spec_branch(*node, self.path@)),
        decreases node, 4nat,
    {
        if str_eq(node.kind.as_str(), "statement_block") {
            match self.visit_statement_block(node) {
                Ok(ss) => Ok(Some(ss)),
                Err(e) => Err(e),
            }
        } else {
            match self.visit_statement(node) {
                Ok(Some(s)) => {
                    let mut v: Vec<Statement> = Vec::new();
                    v.push(s);
                    proof {
                        assert(stmt_views(v@) =~= seq![stmt_view(s)]);
                    }
                    Ok(Some(v))
                },
                Ok(None) => Ok(None),
                Err(e) => Err(e),
            }
        }
    }

    /// Reads an expression statement: its first readable expression.
    fn visit_expression_statement(&self, node: &SyntaxNode) -> (r: Option<Statement>)
        ensures
            match r {
                Some(s) => spec_expression_statement(*node, self.path@) == Some(stmt_view(s)),
                None => spec_expression_statement(*node, self.path@) is None,
            },
        decreases node, 1nat,
    {
        let mut i: usize = 0;
        while i < node.children.len()
            invariant
                i <= node.children@.len(),
                first_readable(*node, self.path@, i as int) is None,
            decreases node.children.len() - i,
        {
            let c = &node.children[i];
            proof {
                assert(decreases_to!(*node => node.children@[i as int]));
            }
            if !str_eq(c.kind.as_str(), ";") {
                match self.visit_expression(c) {
                    Ok(e) => {
                        proof {
                            lemma_first_readable_found(*node, self.path@, i as int + 1);
                        }
                        return Some(Statement::Expression { expression: e, span: self.span(node) });
                    },
                    Err(_) => {},
                }
            }
            i = i + 1;
        }
        None
    }

    /// Reads an `if` statement.
    fn visit_if_statement(&self, node: &SyntaxNode) -> (r: Result<Option<Statement>, CompilerError>)
        ensures
            stmt_result_is(r, spec_if(*node, self.path@)),
        decreases node, 2nat,
    {
        let mut condition: Option<Expression> = None;
        let mut then_branch: Vec<Statement> = Vec::new();
        let mut else_branch: Option<Vec<Statement>> = None;
        let mut found_condition = false;
        let mut found_then = false;
        proof {
            assert(stmt_views(then_branch@) =~= Seq::<StatementView>::empty());
        }
        let mut i: usize = 0;
        while i < node.children.len()
            invariant
                i <= node.children@.len(),
                if_scan(*node, self.path@, i as int) == Ok::<IfScan, SyntaxErrorView>(
                    (
                        opt_expr_view(condition),
                        stmt_views(then_branch@),
                        opt_stmts_view(else_branch),
                        found_condition,
                        found_then,
                    ),
                ),
            decreases node.children.len() - i,
        {
            let c = &node.children[i];
            proof {
                assert(decreases_to!(*node => node.children@[i as int]));
            }
            let ck = c.kind.as_str();
            if str_eq(ck, "parenthesized_expression") {
                condition = match self.visit_expression(c) {
                    Ok(e) => Some(e),
                    Err(_) => None,
                };
                found_condition = true;
            } else if str_eq(ck, "statement_block") || str_eq(ck, "if_statement") || str_eq(ck, "return_statement")
                || str_eq(ck, "throw_statement") || str_eq(ck, "expression_statement") {
                match self.visit_branch(c) {
                    Err(e) => {
                        proof {
                            lemma_if_scan_err(*node, self.path@, i as int + 1);
                        }
                        return Err(e);
                    },
                    Ok(b) => {
                        if !found_then {
                            match b {
                                Some(ss) => {
                                    then_branch = ss;
                                },
                                None => {},
                            }
                            found_then = true;
                        } else {
                            match b {
                                Some(ss) => {
                                    else_branch = Some(ss);
                                },
                                None => {},
                            }
                        }
                    },
                }
            } else if str_eq(ck, "else_clause") {
                match self.visit_else_clause(c, else_branch) {
                    Err(e) => {
                        proof {
                            lemma_if_scan_err(*node, self.path@, i as int + 1);
                        }
                        return Err(e);
                    },
                    Ok(e2) => {
                        else_branch = e2;
                    },
                }
            } else if !found_condition {
                condition = match self.visit_expression(c) {
                    Ok(e) => Some(e),
                    Err(_) => None,
                };
                if condition.is_some() {
                    found_condition = true;
                }
            }
            i = i + 1;
        }
        match condition {
            None => Err(self.syntax_error(node, "Missing condition in if statement")),
            Some(cond) => {
                let ghost eb = else_branch;
                let r = Statement::If { condition: cond, then_branch, else_branch, span: self.span(node) };
                proof {
                    assert(stmt_view(r)->If_then_branch =~= stmt_views(then_branch@));
                    match eb {
                        Some(b) => {
                            assert(stmt_view(r)->If_else_branch->Some_0 =~= stmt_views(b@));
                        },
                        None => {},
                    }
                }
                Ok(Some(r))
            },
        }
    }

    /// The else branch after an `else` clause, starting from `start`.
    fn visit_else_clause(&self, node: &SyntaxNode, start: Option<Vec<Statement>>) -> (r: Result<Option<Vec<Statement>>, CompilerError>)
        ensures
            opt_stmts_result_is(r, else_scan(*node, self.path@, node.children@.len() as int, opt_stmts_view(start))),
        decreases node, 2nat,
    {
        let ghost s0 = opt_stmts_view(start);
        let mut cur = start;
        let mut i: usize = 0;
        while i < node.children.len()
            invariant
                i <= node.children@.len(),
                s0 == opt_stmts_view(start),
                else_scan(*node, self.path@, i as int, s0) == Ok::<Option<Seq<StatementView>>, SyntaxErrorView>(
                    opt_stmts_view(cur),
                ),
            decreases node.children.len() - i,
        {
            let c = &node.children[i];
            proof {
                assert(decreases_to!(*node => node.children@[i as int]));
            }
            match self.visit_branch(c) {
                Err(e) => {
                    proof {
                        assert(spec_branch(*c, self.path@) is Err);
                        assert(else_scan(*node, self.path@, i as int + 1, s0) == Err::<
                            Option<Seq<StatementView>>,
                            SyntaxErrorView,
                        >(spec_branch(*c, self.path@)->Err_0));
                        lemma_else_scan_err(*node, self.path@, i as int + 1, s0);
                    }
                    return Err(e);
                },
                Ok(Some(ss)) => {
                    cur = Some(ss);
                },
                Ok(None) => {},
            }
            i = i + 1;
        }
        Ok(cur)
    }

    /// Reads a `switch` statement.
    fn visit_switch_statement(&self, node: &SyntaxNode) -> (r: Result<Option<Statement>, CompilerError>)
        ensures
            stmt_result_is(r, spec_switch(*node, self.path@)),
        decreases node, 2nat,
    {
        let mut discriminant: Option<Expression> = None;
        let mut cases: Vec<SwitchCase> = Vec::new();
        proof {
            assert(case_views(cases@) =~= Seq::<SwitchCaseView>::empty());
        }
        let mut i: usize = 0;
        while i < node.children.len()
            invariant
                i <= node.children@.len(),
                switch_scan(*node, self.path@, i as int) == Ok::<
                    (Option<crate::frontend::ast::ExpressionView>, Seq<SwitchCaseView>),
                    SyntaxErrorView,
                >((opt_expr_view(discriminant), case_views(cases@))),
            decreases node.children.len() - i,
        {
            let c = &node.children[i];
            proof {
                assert(decreases_to!(*node => node.children@[i as int]));
            }
            let ck = c.kind.as_str();
            if str_eq(ck, "parenthesized_expression") {
                discriminant = match self.visit_expression(c) {
                    Ok(e) => Some(e),
                    Err(_) => None,
                };
            } else if str_eq(ck, "switch_body") {
                match self.visit_switch_body(c) {
                    Err(e) => {
                        proof {
                            lemma_switch_scan_err(*node, self.path@, i as int + 1);
                        }
                        return Err(e);
                    },
                    Ok(cs) => {
                        cases = cs;
                    },
                }
            }
            i = i + 1;
        }
        match discriminant {
            None => Err(self.syntax_error(node, "Missing discriminant in switch statement")),
            Some(d) => {
                let ghost cv = case_views(cases@);
                let r = Statement::Switch { discriminant: d, cases, span: self.span(node) };
                proof {
                    let rv = stmt_view(r)->Switch_cases;
                    assert forall|k: int| 0 <= k < rv.len() implies rv[k] == cv[k] by {
                        assert(rv[k].1 =~= stmt_views(cases@[k].consequent@));
                    }
                    assert(rv =~= cv);
                }
                Ok(Some(r))
            },
        }
    }

    /// Reads the cases of a switch body.
    fn visit_switch_body(&self, node: &SyntaxNode) -> (r: Result<Vec<SwitchCase>, CompilerError>)
        ensures
            match r {
                Ok(v) => switch_cases(*node, self.path@, node.children@.len() as int) == Ok::<
                    Seq<SwitchCaseView>,
                    SyntaxErrorView,
                >(case_views(v@)),
                Err(err) => switch_cases(*node, self.path@, node.children@.len() as int) is Err && is_syntax_error(
                    err,
                    switch_cases(*node, self.path@, node.children@.len() as int)->Err_0,
                ),
            },
        decreases node, 2nat,
    {
        let mut cases: Vec<SwitchCase> = Vec::new();
        proof {
            assert(case_views(cases@) =~= Seq::<SwitchCaseView>::empty());
        }
        let mut i: usize = 0;
        while i < node.children.len()
            invariant
                i <= node.children@.len(),
                switch_cases(*node, self.path@, i as int) == Ok::<Seq<SwitchCaseView>, SyntaxErrorView>(
                    case_views(cases@),
                ),
            decreases node.children.len() - i,
        {
            let c = &node.children[i];
            proof {
                assert(decreases_to!(*node => node.children@[i as int]));
            }
            let ck = c.kind.as_str();
            if str_eq(ck, "switch_case") || str_eq(ck, "switch_default") {
                let is_default = str_eq(ck, "switch_default");
                match self.visit_switch_case(c, is_default) {
                    Err(e) => {
                        proof {
                            lemma_switch_cases_err(*node, self.path@, i as int + 1);
                        }
                        return Err(e);
                    },
                    Ok(sc) => {
                        let ghost before = cases@;
                        cases.push(sc);
                        proof {
                            assert(case_views(cases@) =~= case_views(before).push(case_view(sc)));
                        }
                    },
                }
            }
            i = i + 1;
        }
        Ok(cases)
    }

    /// Reads a case of a switch (a `default` case when `is_default`).
    fn visit_switch_case(&self, node: &SyntaxNode, is_default: bool) -> (r: Result<SwitchCase, CompilerError>)
        ensures
            match r {
                Ok(sc) => case_scan(*node, self.path@, node.children@.len() as int, is_default) is Ok
                    && case_scan(*node, self.path@, node.children@.len() as int, is_default)->Ok_0.0
                    == opt_expr_view(sc.test)
                    && case_scan(*node, self.path@, node.children@.len() as int, is_default)->Ok_0.1
                    == stmt_views(sc.consequent@),
                Err(err) => case_scan(*node, self.path@, node.children@.len() as int, is_default) is Err
                    && is_syntax_error(
                    err,
                    case_scan(*node, self.path@, node.children@.len() as int, is_default)->Err_0,
                ),
            },
        decreases node, 2nat,
    {
        let mut test: Option<Expression> = None;
        let mut consequent: Vec<Statement> = Vec::new();
        let mut past_colon = false;
        proof {
            assert(stmt_views(consequent@) =~= Seq::<StatementView>::empty());
        }
        let mut i: usize = 0;
        while i < node.children.len()
            invariant
                i <= node.children@.len(),
                case_scan(*node, self.path@, i as int, is_default) == Ok::<
                    (Option<crate::frontend::ast::ExpressionView>, Seq<StatementView>, bool),
                    SyntaxErrorView,
                >((opt_expr_view(test), stmt_views(consequent@), past_colon)),
            decreases node.children.len() - i,
        {
            let c = &node.children[i];
            proof {
                assert(decreases_to!(*node => node.children@[i as int]));
            }
            let ck = c.kind.as_str();
            if str_eq(ck, ":") {
                past_colon = true;
            } else if !is_default && !past_colon && !str_eq(ck, "case") {
                test = match self.visit_expression(c) {
                    Ok(e) => Some(e),
                    Err(_) => None,
                };
            } else if past_colon {
                match self.visit_statement(c) {
                    Err(e) => {
                        proof {
                            lemma_case_scan_err(*node, self.path@, i as int + 1, is_default);
                        }
                        return Err(e);
                    },
                    Ok(Some(s)) => {
                        proof {
                            lemma_push_stmt_views(consequent@, s);
                        }
                        consequent.push(s);
                    },
                    Ok(None) => {},
                }
            }
            i = i + 1;
        }
        Ok(SwitchCase { test, consequent })
    }

    /// Name, type and initializer after a declarator, starting from `name`,
    /// `type_node` and `initializer`.
    fn visit_declarator(
        &self,
        node: &SyntaxNode,
        name: String,
        type_node: Option<TypeNode>,
        initializer: Option<Expression>,
    ) -> (r: (String, Option<TypeNode>, Option<Expression>))
        ensures
            declarator_scan(
                *node,
                self.path@,
                node.children@.len() as int,
                (name@, opt_type_view(type_node), opt_expr_view(initializer)),
            ) == (r.0@, opt_type_view(r.1), opt_expr_view(r.2)),
        decreases node, 2nat,
    {
        let ghost start = (name@, opt_type_view(type_node), opt_expr_view(initializer));
        let mut name = name;
        let mut type_node = type_node;
        let mut initializer = initializer;
        let mut j: usize = 0;
        while j < node.children.len()
            invariant
                j <= node.children@.len(),
                declarator_scan(*node, self.path@, j as int, start) == (
                    name@,
                    opt_type_view(type_node),
                    opt_expr_view(initializer),
                ),
            decreases node.children.len() - j,
        {
            let d = &node.children[j];
            proof {
                assert(decreases_to!(*node => node.children@[j as int]));
            }
            let dk = d.kind.as_str();
            if str_eq(dk, "identifier") {
                name = d.text.clone();
            } else if str_eq(dk, "type_annotation") {
                match self.visit_type_annotation(d) {
                    Some(t) => {
                        type_node = Some(t);
                    },
                    None => {},
                }
            } else if !str_eq(dk, "=") && initializer.is_none() && name.unicode_len() != 0 {
                initializer = match self.visit_expression(d) {
                    Ok(e) => Some(e),
                    Err(_) => None,
                };
            }
            j = j + 1;
        }
        (name, type_node, initializer)
    }

    /// Reads a variable declaration; none without a name.
    fn visit_variable_declaration(&self, node: &SyntaxNode) -> (r: Option<Statement>)
        ensures
            match r {
                Some(s) => spec_variable_declaration(*node, self.path@) == Some(stmt_view(s)),
                None => spec_variable_declaration(*node, self.path@) is None,
            },
        decreases node, 1nat,
    {
        let mut kind = VarKind::Let;
        let mut name = String::new();
        let mut type_node: Option<TypeNode> = None;
        let mut initializer: Option<Expression> = None;
        let mut i: usize = 0;
        while i < node.children.len()
            invariant
                i <= node.children@.len(),
                var_scan(*node, self.path@, i as int) == (
                    kind,
                    name@,
                    opt_type_view(type_node),
                    opt_expr_view(initializer),
                ),
            decreases node.children.len() - i,
        {
            let c = &node.children[i];
            proof {
                assert(decreases_to!(*node => node.children@[i as int]));
            }
            let ck = c.kind.as_str();
            if str_eq(ck, "const") {
                kind = VarKind::Const;
            } else if str_eq(ck, "let") {
                kind = VarKind::Let;
            } else if str_eq(ck, "var") {
                kind = VarKind::Var;
            } else if str_eq(ck, "variable_declarator") {
                let (n2, t2, i2) = self.visit_declarator(c, name, type_node, initializer);
                name = n2;
                type_node = t2;
                initializer = i2;
            }
            i = i + 1;
        }
        if name.unicode_len() == 0 {
            return None;
        }
        Some(Statement::VariableDecl { kind, name, type_node, initializer, span: self.span(node) })
    }
}

proof fn lemma_block_scan_err(n: SyntaxNode, path: Seq<char>, k: int)
    requires
        1 <= k <= n.children@.len(),
        block_scan(n, path, k) is Err,
    ensures
        block_scan(n, path, n.children@.len() as int) == block_scan(n, path, k),
    decreases n.children@.len() - k,
{
    if k < n.children@.len() {
        lemma_block_scan_err(n, path, k + 1);
    }
}

proof fn lemma_first_readable_found(n: SyntaxNode, path: Seq<char>, k: int)
    requires
        1 <= k <= n.children@.len(),
        first_readable(n, path, k) is Some,
    ensures
        first_readable(n, path, n.children@.len() as int) == first_readable(n, path, k),
    decreases n.children@.len() - k,
{
    if k < n.children@.len() {
        lemma_first_readable_found(n, path, k + 1);
    }
}

proof fn lemma_if_scan_err(n: SyntaxNode, path: Seq<char>, k: int)
    requires
        1 <= k <= n.children@.len(),
        if_scan(n, path, k) is Err,
    ensures
        if_scan(n, path, n.children@.len() as int) == if_scan(n, path, k),
    decreases n.children@.len() - k,
{
    if k < n.children@.len() {
        lemma_if_scan_err(n, path, k + 1);
    }
}

proof fn lemma_else_scan_err(n: SyntaxNode, path: Seq<char>, k: int, start: Option<Seq<StatementView>>)
    requires
        1 <= k <= n.children@.len(),
        else_scan(n, path, k, start) is Err,
    ensures
        else_scan(n, path, n.children@.len() as int, start) == else_scan(n, path, k, start),
    decreases n.children@.len() - k,
{
    if k < n.children@.len() {
        lemma_else_scan_err(n, path, k + 1, start);
    }
}

proof fn lemma_switch_scan_err(n: SyntaxNode, path: Seq<char>, k: int)
    requires
        1 <= k <= n.children@.len(),
        switch_scan(n, path, k) is Err,
    ensures
        switch_scan(n, path, n.children@.len() as int) == switch_scan(n, path, k),
    decreases n.children@.len() - k,
{
    if k < n.children@.len() {
        lemma_switch_scan_err(n, path, k + 1);
    }
}

proof fn lemma_switch_cases_err(n: SyntaxNode, path: Seq<char>, k: int)
    requires
        1 <= k <= n.children@.len(),
        switch_cases(n, path, k) is Err,
    ensures
        switch_cases(n, path, n.children@.len() as int) == switch_cases(n, path, k),
    decreases n.children@.len() - k,
{
    if k < n.children@.len() {
        lemma_switch_cases_err(n, path, k + 1);
    }
}

proof fn lemma_case_scan_err(n: SyntaxNode, path: Seq<char>, k: int, is_default: bool)
    requires
        1 <= k <= n.children@.len(),
        case_scan(n, path, k, is_default) is Err,
    ensures
        case_scan(n, path, n.children@.len() as int, is_default) == case_scan(n, path, k, is_default),
    decreases n.children@.len() - k,
{
    if k < n.children@.len() {
        lemma_case_scan_err(n, path, k + 1, is_default);
    }
}

} // verus!
