//! Expressions of the syntax tree. A sub-expression that cannot be read is
//! left out where the surrounding construct can do without it; a construct
//! that lacks a required part is a syntax error at its start.

use vstd::prelude::*;

use crate::diagnostic::CompilerError;
use crate::frontend::ast::{expr_view, expr_views, Expression, ExpressionView};
use crate::frontend::parser::{is_syntax_error, node_span, syntax_error_at, SyntaxErrorView, Visitor};
use crate::frontend::syntax::SyntaxNode;
use crate::frontend::to_ir::{is_float_literal, is_float_text};
use crate::text::{chars_of, str_eq, string_from_chars, to_owned_string};

verus! {

// ---------------------------------------------------------------------------
// Specification
// ---------------------------------------------------------------------------

/// Whether `t` is at least two characters long and starts and ends with `q`.
pub open spec fn is_quoted_with(t: Seq<char>, q: char) -> bool {
    t.len() >= 2 && t[0] == q && t[t.len() - 1] == q
}

/// The value of a string literal: its text without the surrounding quotes
/// (`"`, `'` or a backtick), or the text itself where it is not quoted.
pub open spec fn spec_string_value(t: Seq<char>) -> Seq<char> {
    if is_quoted_with(t, '"') || is_quoted_with(t, '\'') || is_quoted_with(t, '`') {
        t.subrange(1, t.len() - 1)
    } else {
        t
    }
}

/// The value of a number literal: its text where it reads as a decimal
/// floating-point number, else `0`.
pub open spec fn spec_number_value(t: Seq<char>) -> Seq<char> {
    if is_float_text(t) {
        t
    } else {
        "0"@
    }
}

/// The binary operators the visitor recognizes.
pub open spec fn spec_is_binary_operator(s: Seq<char>) -> bool {
    ||| s == "+"@
    ||| s == "-"@
    ||| s == "*"@
    ||| s == "/"@
    ||| s == "%"@
    ||| s == "=="@
    ||| s == "==="@
    ||| s == "!="@
    ||| s == "!=="@
    ||| s == "<"@
    ||| s == "<="@
    ||| s == ">"@
    ||| s == ">="@
    ||| s == "&&"@
    ||| s == "||"@
}

/// The unary operators the visitor recognizes.
pub open spec fn spec_is_unary_operator(s: Seq<char>) -> bool {
    ||| s == "!"@
    ||| s == "-"@
    ||| s == "+"@
    ||| s == "~"@
    ||| s == "typeof"@
    ||| s == "void"@
    ||| s == "delete"@
}

/// The expression of a successful result.
pub open spec fn ok_expr(r: Result<ExpressionView, SyntaxErrorView>) -> Option<ExpressionView> {
    match r {
        Ok(e) => Some(e),
        Err(_) => None,
    }
}

/// Whether `r` is the result `s`, expression and error alike.
pub open spec fn expr_result_is(r: Result<Expression, CompilerError>, s: Result<ExpressionView, SyntaxErrorView>) -> bool {
    match r {
        Ok(e) => s == Ok::<ExpressionView, SyntaxErrorView>(e@),
        Err(err) => s is Err && is_syntax_error(err, s->Err_0),
    }
}

/// The first index from `i` on whose child is of neither kind `a` nor `b`,
/// or the number of children.
pub open spec fn first_kind_not(cs: Seq<SyntaxNode>, i: int, a: Seq<char>, b: Seq<char>) -> int
    decreases cs.len() - i,
{
    if 0 <= i < cs.len() {
        if cs[i].kind@ != a && cs[i].kind@ != b {
            i
        } else {
            first_kind_not(cs, i + 1, a, b)
        }
    } else {
        cs.len() as int
    }
}

/// The expression that node `n` of file `path` denotes, or the syntax error
/// that reading it gives.
pub open spec fn spec_expression(n: SyntaxNode, path: Seq<char>) -> Result<ExpressionView, SyntaxErrorView>
    decreases n, n.children@.len() + 2,
{
    let k = n.kind@;
    let sp = node_span(n, path);
    let len = n.children@.len() as int;
    if k == "identifier"@ {
        Ok(ExpressionView::Identifier { name: n.text@, span: sp })
    } else if k == "string"@ || k == "template_string"@ {
        Ok(ExpressionView::StringLiteral { value: spec_string_value(n.text@), span: sp })
    } else if k == "number"@ {
        Ok(ExpressionView::NumberLiteral { value: spec_number_value(n.text@), span: sp })
    } else if k == "true"@ {
        Ok(ExpressionView::BooleanLiteral { value: true, span: sp })
    } else if k == "false"@ {
        Ok(ExpressionView::BooleanLiteral { value: false, span: sp })
    } else if k == "null"@ {
        Ok(ExpressionView::NullLiteral { span: sp })
    } else if k == "undefined"@ {
        Ok(ExpressionView::Identifier { name: "undefined"@, span: sp })
    } else if k == "this"@ {
        Ok(ExpressionView::This { span: sp })
    } else if k == "array"@ {
        Ok(ExpressionView::ArrayLiteral { elements: element_list(n, path, len, "["@, "]"@), span: sp })
    } else if k == "object"@ {
        Ok(ExpressionView::ObjectLiteral { properties: object_properties(n, path, len), span: sp })
    } else if k == "member_expression"@ {
        spec_member(n, path)
    } else if k == "call_expression"@ {
        spec_call(n, path, false)
    } else if k == "new_expression"@ {
        spec_call(n, path, true)
    } else if k == "binary_expression"@ {
        spec_binary(n, path)
    } else if k == "unary_expression"@ {
        spec_unary(n, path)
    } else if k == "await_expression"@ {
        spec_await(n, path)
    } else if k == "parenthesized_expression"@ {
        spec_parenthesized(n, path)
    } else if k == "spread_element"@ {
        spec_spread(n, path)
    } else {
        Ok(ExpressionView::Identifier { name: n.text@, span: sp })
    }
}

/// A member expression: its object and property; an error without object.
pub open spec fn spec_member(n: SyntaxNode, path: Seq<char>) -> Result<ExpressionView, SyntaxErrorView>
    decreases n, n.children@.len() + 1,
{
    let (o, p) = member_scan(n, path, n.children@.len() as int);
    match o {
        Some(o) => Ok(ExpressionView::MemberAccess { object: Box::new(o), property: p, span: node_span(n, path) }),
        None => Err(syntax_error_at(n, path, "Missing object in member expression"@)),
    }
}

/// A call (or, with `is_new`, a `new` expression): its callee and arguments;
/// an error without callee.
pub open spec fn spec_call(n: SyntaxNode, path: Seq<char>, is_new: bool) -> Result<ExpressionView, SyntaxErrorView>
    decreases n, n.children@.len() + 1,
{
    let (c, args) = call_scan(n, path, n.children@.len() as int, is_new);
    match c {
        Some(c) => if is_new {
            Ok(ExpressionView::New { callee: Box::new(c), arguments: args, span: node_span(n, path) })
        } else {
            Ok(ExpressionView::Call { callee: Box::new(c), arguments: args, span: node_span(n, path) })
        },
        None => if is_new {
            Err(syntax_error_at(n, path, "Missing callee in new expression"@))
        } else {
            Err(syntax_error_at(n, path, "Missing callee in call expression"@))
        },
    }
}

/// A binary expression: its operands and operator; an error without either
/// operand.
pub open spec fn spec_binary(n: SyntaxNode, path: Seq<char>) -> Result<ExpressionView, SyntaxErrorView>
    decreases n, n.children@.len() + 1,
{
    let (l, op, r) = binary_scan(n, path, n.children@.len() as int);
    match l {
        None => Err(syntax_error_at(n, path, "Missing left operand"@)),
        Some(l) => match r {
            None => Err(syntax_error_at(n, path, "Missing right operand"@)),
            Some(r) => Ok(
                ExpressionView::Binary { left: Box::new(l), operator: op, right: Box::new(r), span: node_span(n, path) },
            ),
        },
    }
}

/// A unary expression: its operator and operand; an error without operand.
pub open spec fn spec_unary(n: SyntaxNode, path: Seq<char>) -> Result<ExpressionView, SyntaxErrorView>
    decreases n, n.children@.len() + 1,
{
    let (op, a) = unary_scan(n, path, n.children@.len() as int);
    match a {
        None => Err(syntax_error_at(n, path, "Missing argument in unary expression"@)),
        Some(a) => Ok(
            ExpressionView::Unary { operator: op, argument: Box::new(a), prefix: true, span: node_span(n, path) },
        ),
    }
}

/// An `await` expression: its operand; an error without one.
pub open spec fn spec_await(n: SyntaxNode, path: Seq<char>) -> Result<ExpressionView, SyntaxErrorView>
    decreases n, n.children@.len() + 1,
{
    match last_operand(n, path, n.children@.len() as int, "await"@, "await"@) {
        None => Err(syntax_error_at(n, path, "Missing argument in await expression"@)),
        Some(a) => Ok(ExpressionView::Await { argument: Box::new(a), span: node_span(n, path) }),
    }
}

/// A spread element: its operand; an error without one.
pub open spec fn spec_spread(n: SyntaxNode, path: Seq<char>) -> Result<ExpressionView, SyntaxErrorView>
    decreases n, n.children@.len() + 1,
{
    match last_operand(n, path, n.children@.len() as int, "..."@, "..."@) {
        None => Err(syntax_error_at(n, path, "Missing argument in spread element"@)),
        Some(a) => Ok(ExpressionView::Spread { argument: Box::new(a), span: node_span(n, path) }),
    }
}

/// A parenthesized expression: the first child that is not a parenthesis,
/// read as it stands; an error where there is none.
pub open spec fn spec_parenthesized(n: SyntaxNode, path: Seq<char>) -> Result<ExpressionView, SyntaxErrorView>
    decreases n, n.children@.len() + 1,
{
    let i = first_kind_not(n.children@, 0, "("@, ")"@);
    if 0 <= i < n.children@.len() {
        spec_expression(n.children@[i], path)
    } else {
        Err(syntax_error_at(n, path, "Empty parenthesized expression"@))
    }
}

/// The readable expressions among the first `k` children of `n`, skipping
/// the punctuation `open`, `close` and `,`.
pub open spec fn element_list(n: SyntaxNode, path: Seq<char>, k: int, open: Seq<char>, close: Seq<char>) -> Seq<ExpressionView>
    decreases n, k,
{
    if k <= 0 || k > n.children@.len() {
        Seq::empty()
    } else {
        let prev = element_list(n, path, k - 1, open, close);
        let c = n.children@[k - 1];
        if c.kind@ != open && c.kind@ != close && c.kind@ != ","@ {
            match spec_expression(c, path) {
                Ok(e) => prev.push(e),
                Err(_) => prev,
            }
        } else {
            prev
        }
    }
}

/// The properties of an object literal among its first `k` children.
pub open spec fn object_properties(n: SyntaxNode, path: Seq<char>, k: int) -> Seq<(Seq<char>, ExpressionView)>
    decreases n, k,
{
    if k <= 0 || k > n.children@.len() {
        Seq::empty()
    } else {
        let prev = object_properties(n, path, k - 1);
        let c = n.children@[k - 1];
        if c.kind@ == "pair"@ || c.kind@ == "shorthand_property_identifier"@ {
            match spec_object_property(c, path) {
                Some(p) => prev.push(p),
                None => prev,
            }
        } else {
            prev
        }
    }
}

/// A property of an object literal: a shorthand `x` is `x: x`; of a pair the
/// key is the first property identifier, or the text of the first other child
/// while none was found, and the value the next readable expression after it
/// (the key read as an identifier where there is none). None without a key.
pub open spec fn spec_object_property(n: SyntaxNode, path: Seq<char>) -> Option<(Seq<char>, ExpressionView)>
    decreases n, n.children@.len() + 1,
{
    if n.kind@ == "shorthand_property_identifier"@ {
        Some((n.text@, ExpressionView::Identifier { name: n.text@, span: node_span(n, path) }))
    } else {
        let (key, value) = property_scan(n, path, n.children@.len() as int);
        if key.len() == 0 {
            None
        } else {
            Some(
                (
                    key,
                    match value {
                        Some(v) => v,
                        None => ExpressionView::Identifier { name: key, span: node_span(n, path) },
                    },
                ),
            )
        }
    }
}

/// Key and value of a pair after its first `k` children.
pub open spec fn property_scan(n: SyntaxNode, path: Seq<char>, k: int) -> (Seq<char>, Option<ExpressionView>)
    decreases n, k,
{
    if k <= 0 || k > n.children@.len() {
        (Seq::empty(), None)
    } else {
        let (key, value) = property_scan(n, path, k - 1);
        let c = n.children@[k - 1];
        if c.kind@ == "property_identifier"@ {
            if key.len() == 0 {
                (c.text@, value)
            } else {
                (key, value)
            }
        } else if c.kind@ == ":"@ {
            (key, value)
        } else if key.len() == 0 {
            (c.text@, value)
        } else if value is None {
            (key, ok_expr(spec_expression(c, path)))
        } else {
            (key, value)
        }
    }
}

/// Object and property of a member expression after its first `k` children:
/// the object is the last child that is neither a property identifier nor
/// `.`, when it can be read; the property the last property identifier.
pub open spec fn member_scan(n: SyntaxNode, path: Seq<char>, k: int) -> (Option<ExpressionView>, Seq<char>)
    decreases n, k,
{
    if k <= 0 || k > n.children@.len() {
        (None, Seq::empty())
    } else {
        let (o, p) = member_scan(n, path, k - 1);
        let c = n.children@[k - 1];
        if c.kind@ == "property_identifier"@ {
            (o, c.text@)
        } else if c.kind@ == "."@ {
            (o, p)
        } else {
            (ok_expr(spec_expression(c, path)), p)
        }
    }
}

/// Callee and arguments of a call (or, with `is_new`, a `new` expression)
/// after its first `k` children: the callee is the first readable child that
/// is not an argument list (nor the keyword `new`), the arguments those of
/// every argument list in turn.
pub open spec fn call_scan(n: SyntaxNode, path: Seq<char>, k: int, is_new: bool) -> (Option<ExpressionView>, Seq<ExpressionView>)
    decreases n, k,
{
    if k <= 0 || k > n.children@.len() {
        (None, Seq::empty())
    } else {
        let (callee, args) = call_scan(n, path, k - 1, is_new);
        let c = n.children@[k - 1];
        if is_new && c.kind@ == "new"@ {
            (callee, args)
        } else if c.kind@ == "arguments"@ {
            (callee, args + element_list(c, path, c.children@.len() as int, "("@, ")"@))
        } else if callee is None {
            (ok_expr(spec_expression(c, path)), args)
        } else {
            (callee, args)
        }
    }
}

/// Left operand, operator and right operand of a binary expression after its
/// first `k` children: the first readable child is the left operand, the
/// first operator after it the operator, and the next readable child the
/// right operand.
pub open spec fn binary_scan(n: SyntaxNode, path: Seq<char>, k: int) -> (Option<ExpressionView>, Seq<char>, Option<ExpressionView>)
    decreases n, k,
{
    if k <= 0 || k > n.children@.len() {
        (None, Seq::empty(), None)
    } else {
        let (l, op, r) = binary_scan(n, path, k - 1);
        let c = n.children@[k - 1];
        if l is None {
            (ok_expr(spec_expression(c, path)), op, r)
        } else if op.len() == 0 && spec_is_binary_operator(c.text@) {
            (l, c.text@, r)
        } else if r is None {
            (l, op, ok_expr(spec_expression(c, path)))
        } else {
            (l, op, r)
        }
    }
}

/// Operator and operand of a unary expression after its first `k` children:
/// the last operator, and the last other child when it can be read.
pub open spec fn unary_scan(n: SyntaxNode, path: Seq<char>, k: int) -> (Seq<char>, Option<ExpressionView>)
    decreases n, k,
{
    if k <= 0 || k > n.children@.len() {
        (Seq::empty(), None)
    } else {
        let (op, a) = unary_scan(n, path, k - 1);
        let c = n.children@[k - 1];
        if spec_is_unary_operator(c.text@) {
            (c.text@, a)
        } else {
            (op, ok_expr(spec_expression(c, path)))
        }
    }
}

/// The operand after the first `k` children: the last child of neither kind
/// `skip` nor `skip2`, when it can be read.
pub open spec fn last_operand(n: SyntaxNode, path: Seq<char>, k: int, skip: Seq<char>, skip2: Seq<char>) -> Option<ExpressionView>
    decreases n, k,
{
    if k <= 0 || k > n.children@.len() {
        None
    } else {
        let prev = last_operand(n, path, k - 1, skip, skip2);
        let c = n.children@[k - 1];
        if c.kind@ != skip && c.kind@ != skip2 {
            ok_expr(spec_expression(c, path))
        } else {
            prev
        }
    }
}

// ---------------------------------------------------------------------------
// Implementation
// ---------------------------------------------------------------------------

/// The value of a string literal's text.
pub fn extract_string_value(text: &str) -> (r: String)
    ensures
        r@ == spec_string_value(text@),
{
    let cs = chars_of(text);
    let n = cs.len();
    if n >= 2 && ((cs[0] == '"' && cs[n - 1] == '"') || (cs[0] == '\'' && cs[n - 1] == '\'') || (cs[0] == '`'
        && cs[n - 1] == '`')) {
        let mut inner: Vec<char> = Vec::new();
        let mut i: usize = 1;
        while i < n - 1
            invariant
                n == cs@.len(),
                n >= 2,
                1 <= i <= n - 1,
                inner@ == cs@.subrange(1, i as int),
            decreases n - 1 - i,
        {
            inner.push(cs[i]);
            i = i + 1;
            assert(inner@ =~= cs@.subrange(1, i as int));
        }
        string_from_chars(&inner)
    } else {
        to_owned_string(text)
    }
}

/// The index of the first child of `node` of neither kind `a` nor `b`, or
/// the number of children.
pub fn first_child_not(node: &SyntaxNode, a: &str, b: &str) -> (r: usize)
    ensures
        r as int == first_kind_not(node.children@, 0, a@, b@),
        r <= node.children@.len(),
{
    let mut i: usize = 0;
    while i < node.children.len()
        invariant
            i <= node.children@.len(),
            first_kind_not(node.children@, 0, a@, b@) == first_kind_not(node.children@, i as int, a@, b@),
        decreases node.children.len() - i,
    {
        let ck = node.children[i].kind.as_str();
        if !str_eq(ck, a) && !str_eq(ck, b) {
            return i;
        }
        i = i + 1;
    }
    i
}

/// Whether `s` is one of the binary operators.
pub fn is_binary_operator(s: &str) -> (r: bool)
    ensures
        r == spec_is_binary_operator(s@),
{
    str_eq(s, "+") || str_eq(s, "-") || str_eq(s, "*") || str_eq(s, "/") || str_eq(s, "%") || str_eq(s, "==")
        || str_eq(s, "===") || str_eq(s, "!=") || str_eq(s, "!==") || str_eq(s, "<") || str_eq(s, "<=")
        || str_eq(s, ">") || str_eq(s, ">=") || str_eq(s, "&&") || str_eq(s, "||")
}

/// Whether `s` is one of the unary operators.
pub fn is_unary_operator(s: &str) -> (r: bool)
    ensures
        r == spec_is_unary_operator(s@),
{
    str_eq(s, "!") || str_eq(s, "-") || str_eq(s, "+") || str_eq(s, "~") || str_eq(s, "typeof") || str_eq(
        s,
        "void",
    ) || str_eq(s, "delete")
}

proof fn lemma_push_views(es: Seq<Expression>, e: Expression)
    ensures
        expr_views(es.push(e)) == expr_views(es).push(expr_view(e)),
{
    assert(expr_views(es.push(e)) =~= expr_views(es).push(expr_view(e)));
}

impl Visitor {
    /// Reads an expression.
    pub fn visit_expression(&self, node: &SyntaxNode) -> (r: Result<Expression, CompilerError>)
        ensures
            expr_result_is(r, spec_expression(*node, self.path@)),
        decreases node, 2nat,
    {
        let k = node.kind.as_str();
        if str_eq(k, "identifier") {
            Ok(Expression::Identifier { name: node.text.clone(), span: self.span(node) })
        } else if str_eq(k, "string") || str_eq(k, "template_string") {
            Ok(Expression::StringLiteral { value: extract_string_value(node.text.as_str()), span: self.span(node) })
        } else if str_eq(k, "number") {
            let value = if is_float_literal(node.text.as_str()) {
                node.text.clone()
            } else {
                to_owned_string("0")
            };
            Ok(Expression::NumberLiteral { value, span: self.span(node) })
        } else if str_eq(k, "true") {
            Ok(Expression::BooleanLiteral { value: true, span: self.span(node) })
        } else if str_eq(k, "false") {
            Ok(Expression::BooleanLiteral { value: false, span: self.span(node) })
        } else if str_eq(k, "null") {
            Ok(Expression::NullLiteral { span: self.span(node) })
        } else if str_eq(k, "undefined") {
            Ok(Expression::Identifier { name: to_owned_string("undefined"), span: self.span(node) })
        } else if str_eq(k, "this") {
            Ok(Expression::This { span: self.span(node) })
        } else if str_eq(k, "array") {
            let elements = self.visit_element_list(node, "[", "]");
            let r = Expression::ArrayLiteral { elements, span: self.span(node) };
            proof {
                assert(r@->ArrayLiteral_elements =~= expr_views(elements@));
            }
            Ok(r)
        } else if str_eq(k, "object") {
            Ok(self.visit_object(node))
        } else if str_eq(k, "member_expression") {
            self.visit_member(node)
        } else if str_eq(k, "call_expression") {
            self.visit_call(node, false)
        } else if str_eq(k, "new_expression") {
            self.visit_call(node, true)
        } else if str_eq(k, "binary_expression") {
            self.visit_binary(node)
        } else if str_eq(k, "unary_expression") {
            self.visit_unary(node)
        } else if str_eq(k, "await_expression") {
            match self.visit_last_operand(node, "await", "await") {
                Some(a) => Ok(Expression::Await { argument: Box::new(a), span: self.span(node) }),
                None => Err(self.syntax_error(node, "Missing argument in await expression")),
            }
        } else if str_eq(k, "parenthesized_expression") {
            self.visit_parenthesized(node)
        } else if str_eq(k, "spread_element") {
            match self.visit_last_operand(node, "...", "...") {
                Some(a) => Ok(Expression::Spread { argument: Box::new(a), span: self.span(node) }),
                None => Err(self.syntax_error(node, "Missing argument in spread element")),
            }
        } else {
            Ok(Expression::Identifier { name: node.text.clone(), span: self.span(node) })
        }
    }

    /// The readable expressions among the children of `node`, skipping the
    /// punctuation `open`, `close` and `,`.
    fn visit_element_list(&self, node: &SyntaxNode, open: &str, close: &str) -> (r: Vec<Expression>)
        ensures
            expr_views(r@) == element_list(*node, self.path@, node.children@.len() as int, open@, close@),
        decreases node, 1nat,
    {
        let mut out: Vec<Expression> = Vec::new();
        let mut i: usize = 0;
        while i < node.children.len()
            invariant
                i <= node.children@.len(),
                expr_views(out@) == element_list(*node, self.path@, i as int, open@, close@),
            decreases node.children.len() - i,
        {
            let c = &node.children[i];
            proof {
                assert(decreases_to!(*node => node.children@[i as int]));
            }
            let ck = c.kind.as_str();
            if !str_eq(ck, open) && !str_eq(ck, close) && !str_eq(ck, ",") {
                match self.visit_expression(c) {
                    Ok(e) => {
                        proof {
                            lemma_push_views(out@, e);
                        }
                        out.push(e);
                    },
                    Err(_) => {},
                }
            }
            i = i + 1;
        }
        out
    }

    /// Reads an object literal.
    fn visit_object(&self, node: &SyntaxNode) -> (r: Expression)
        ensures
            r@ == (ExpressionView::ObjectLiteral {
                properties: object_properties(*node, self.path@, node.children@.len() as int),
                span: node_span(*node, self.path@),
            }),
        decreases node, 1nat,
    {
        let mut props: Vec<(String, Expression)> = Vec::new();
        let mut i: usize = 0;
        while i < node.children.len()
            invariant
                i <= node.children@.len(),
                props@.len() == object_properties(*node, self.path@, i as int).len(),
                forall|j: int|
                    0 <= j < props@.len() ==> (#[trigger] props@[j]).0@ == object_properties(
                        *node,
                        self.path@,
                        i as int,
                    )[j].0 && expr_view(props@[j].1) == object_properties(*node, self.path@, i as int)[j].1,
            decreases node.children.len() - i,
        {
            let c = &node.children[i];
            proof {
                assert(decreases_to!(*node => node.children@[i as int]));
            }
            let ck = c.kind.as_str();
            if str_eq(ck, "pair") || str_eq(ck, "shorthand_property_identifier") {
                match self.visit_object_property(c) {
                    Some(p) => {
                        props.push(p);
                    },
                    None => {},
                }
            }
            i = i + 1;
        }
        let r = Expression::ObjectLiteral { properties: props, span: self.span(node) };
        proof {
            assert(r@->ObjectLiteral_properties =~= object_properties(
                *node,
                self.path@,
                node.children@.len() as int,
            ));
        }
        r
    }

    /// Reads a property of an object literal; None where it has no key.
    pub fn visit_object_property(&self, node: &SyntaxNode) -> (r: Option<(String, Expression)>)
        ensures
            match r {
                Some(p) => spec_object_property(*node, self.path@) == Some((p.0@, expr_view(p.1))),
                None => spec_object_property(*node, self.path@) is None,
            },
        decreases node, 2nat,
    {
        if str_eq(node.kind.as_str(), "shorthand_property_identifier") {
            return Some(
                (node.text.clone(), Expression::Identifier { name: node.text.clone(), span: self.span(node) }),
            );
        }
        let mut key = String::new();
        let mut value: Option<Expression> = None;
        let mut i: usize = 0;
        while i < node.children.len()
            invariant
                i <= node.children@.len(),
                key@ == property_scan(*node, self.path@, i as int).0,
                match value {
                    Some(v) => property_scan(*node, self.path@, i as int).1 == Some(expr_view(v)),
                    None => property_scan(*node, self.path@, i as int).1 is None,
                },
            decreases node.children.len() - i,
        {
            let c = &node.children[i];
            proof {
                assert(decreases_to!(*node => node.children@[i as int]));
            }
            let ck = c.kind.as_str();
            if str_eq(ck, "property_identifier") {
                if key.unicode_len() == 0 {
                    key = c.text.clone();
                }
            } else if str_eq(ck, ":") {
            } else if key.unicode_len() == 0 {
                key = c.text.clone();
            } else if value.is_none() {
                value = match self.visit_expression(c) {
                    Ok(e) => Some(e),
                    Err(_) => None,
                };
            }
            i = i + 1;
        }
        if key.unicode_len() == 0 {
            return None;
        }
        let v = match value {
            Some(v) => v,
            None => Expression::Identifier { name: key.clone(), span: self.span(node) },
        };
        Some((key, v))
    }

    /// Reads a member expression.
    fn visit_member(&self, node: &SyntaxNode) -> (r: Result<Expression, CompilerError>)
        ensures
            expr_result_is(r, spec_member(*node, self.path@)),
        decreases node, 1nat,
    {
        let mut object: Option<Expression> = None;
        let mut property = String::new();
        let mut i: usize = 0;
        while i < node.children.len()
            invariant
                i <= node.children@.len(),
                property@ == member_scan(*node, self.path@, i as int).1,
                match object {
                    Some(v) => member_scan(*node, self.path@, i as int).0 == Some(expr_view(v)),
                    None => member_scan(*node, self.path@, i as int).0 is None,
                },
            decreases node.children.len() - i,
        {
            let c = &node.children[i];
            proof {
                assert(decreases_to!(*node => node.children@[i as int]));
            }
            let ck = c.kind.as_str();
            if str_eq(ck, "property_identifier") {
                property = c.text.clone();
            } else if str_eq(ck, ".") {
            } else {
                object = match self.visit_expression(c) {
                    Ok(e) => Some(e),
                    Err(_) => None,
                };
            }
            i = i + 1;
        }
        match object {
            Some(o) => Ok(Expression::MemberAccess { object: Box::new(o), property, span: self.span(node) }),
            None => Err(self.syntax_error(node, "Missing object in member expression")),
        }
    }

    /// Reads a call expression, or with `is_new` a `new` expression.
    fn visit_call(&self, node: &SyntaxNode, is_new: bool) -> (r: Result<Expression, CompilerError>)
        ensures
            expr_result_is(r, spec_call(*node, self.path@, is_new)),
        decreases node, 1nat,
    {
        let mut callee: Option<Expression> = None;
        let mut arguments: Vec<Expression> = Vec::new();
        let mut i: usize = 0;
        while i < node.children.len()
            invariant
                i <= node.children@.len(),
                expr_views(arguments@) == call_scan(*node, self.path@, i as int, is_new).1,
                match callee {
                    Some(v) => call_scan(*node, self.path@, i as int, is_new).0 == Some(expr_view(v)),
                    None => call_scan(*node, self.path@, i as int, is_new).0 is None,
                },
            decreases node.children.len() - i,
        {
            let c = &node.children[i];
            proof {
                assert(decreases_to!(*node => node.children@[i as int]));
            }
            let ck = c.kind.as_str();
            if is_new && str_eq(ck, "new") {
            } else if str_eq(ck, "arguments") {
                let mut more = self.visit_element_list(c, "(", ")");
                proof {
                    assert(expr_views(arguments@ + more@) =~= expr_views(arguments@) + expr_views(more@));
                }
                arguments.append(&mut more);
            } else if callee.is_none() {
                callee = match self.visit_expression(c) {
                    Ok(e) => Some(e),
                    Err(_) => None,
                };
            }
            i = i + 1;
        }
        match callee {
            Some(c) => {
                let r = if is_new {
                    Expression::New { callee: Box::new(c), arguments, span: self.span(node) }
                } else {
                    Expression::Call { callee: Box::new(c), arguments, span: self.span(node) }
                };
                proof {
                    if is_new {
                        assert(r@->New_arguments =~= expr_views(arguments@));
                    } else {
                        assert(r@->Call_arguments =~= expr_views(arguments@));
                    }
                }
                Ok(r)
            },
            None => if is_new {
                Err(self.syntax_error(node, "Missing callee in new expression"))
            } else {
                Err(self.syntax_error(node, "Missing callee in call expression"))
            },
        }
    }

    /// Reads a binary expression.
    fn visit_binary(&self, node: &SyntaxNode) -> (r: Result<Expression, CompilerError>)
        ensures
            expr_result_is(r, spec_binary(*node, self.path@)),
        decreases node, 1nat,
    {
        let mut left: Option<Expression> = None;
        let mut operator = String::new();
        let mut right: Option<Expression> = None;
        let mut i: usize = 0;
        while i < node.children.len()
            invariant
                i <= node.children@.len(),
                operator@ == binary_scan(*node, self.path@, i as int).1,
                match left {
                    Some(v) => binary_scan(*node, self.path@, i as int).0 == Some(expr_view(v)),
                    None => binary_scan(*node, self.path@, i as int).0 is None,
                },
                match right {
                    Some(v) => binary_scan(*node, self.path@, i as int).2 == Some(expr_view(v)),
                    None => binary_scan(*node, self.path@, i as int).2 is None,
                },
            decreases node.children.len() - i,
        {
            let c = &node.children[i];
            proof {
                assert(decreases_to!(*node => node.children@[i as int]));
            }
            if left.is_none() {
                left = match self.visit_expression(c) {
                    Ok(e) => Some(e),
                    Err(_) => None,
                };
            } else if operator.unicode_len() == 0 && is_binary_operator(c.text.as_str()) {
                operator = c.text.clone();
            } else if right.is_none() {
                right = match self.visit_expression(c) {
                    Ok(e) => Some(e),
                    Err(_) => None,
                };
            }
            i = i + 1;
        }
        match left {
            None => Err(self.syntax_error(node, "Missing left operand")),
            Some(l) => match right {
                None => Err(self.syntax_error(node, "Missing right operand")),
                Some(r) => Ok(
                    Expression::Binary { left: Box::new(l), operator, right: Box::new(r), span: self.span(node) },
                ),
            },
        }
    }

    /// Reads a unary expression.
    fn visit_unary(&self, node: &SyntaxNode) -> (r: Result<Expression, CompilerError>)
        ensures
            expr_result_is(r, spec_unary(*node, self.path@)),
        decreases node, 1nat,
    {
        let mut operator = String::new();
        let mut argument: Option<Expression> = None;
        let mut i: usize = 0;
        while i < node.children.len()
            invariant
                i <= node.children@.len(),
                operator@ == unary_scan(*node, self.path@, i as int).0,
                match argument {
                    Some(v) => unary_scan(*node, self.path@, i as int).1 == Some(expr_view(v)),
                    None => unary_scan(*node, self.path@, i as int).1 is None,
                },
            decreases node.children.len() - i,
        {
            let c = &node.children[i];
            proof {
                assert(decreases_to!(*node => node.children@[i as int]));
            }
            if is_unary_operator(c.text.as_str()) {
                operator = c.text.clone();
            } else {
                argument = match self.visit_expression(c) {
                    Ok(e) => Some(e),
                    Err(_) => None,
                };
            }
            i = i + 1;
        }
        match argument {
            None => Err(self.syntax_error(node, "Missing argument in unary expression")),
            Some(a) => Ok(
                Expression::Unary { operator, argument: Box::new(a), prefix: true, span: self.span(node) },
            ),
        }
    }

    /// The last child of neither kind `skip` nor `skip2`, when it can be read.
    pub fn visit_last_operand(&self, node: &SyntaxNode, skip: &str, skip2: &str) -> (r: Option<Expression>)
        ensures
            match r {
                Some(v) => last_operand(*node, self.path@, node.children@.len() as int, skip@, skip2@) == Some(
                    expr_view(v),
                ),
                None => last_operand(*node, self.path@, node.children@.len() as int, skip@, skip2@) is None,
            },
        decreases node, 1nat,
    {
        let mut argument: Option<Expression> = None;
        let mut i: usize = 0;
        while i < node.children.len()
            invariant
                i <= node.children@.len(),
                match argument {
                    Some(v) => last_operand(*node, self.path@, i as int, skip@, skip2@) == Some(expr_view(v)),
                    None => last_operand(*node, self.path@, i as int, skip@, skip2@) is None,
                },
            decreases node.children.len() - i,
        {
            let c = &node.children[i];
            proof {
                assert(decreases_to!(*node => node.children@[i as int]));
            }
            if !str_eq(c.kind.as_str(), skip) && !str_eq(c.kind.as_str(), skip2) {
                argument = match self.visit_expression(c) {
                    Ok(e) => Some(e),
                    Err(_) => None,
                };
            }
            i = i + 1;
        }
        argument
    }

    /// Reads a parenthesized expression: the expression inside.
    fn visit_parenthesized(&self, node: &SyntaxNode) -> (r: Result<Expression, CompilerError>)
        ensures
            expr_result_is(r, spec_parenthesized(*node, self.path@)),
        decreases node, 1nat,
    {
        let mut i: usize = 0;
        while i < node.children.len()
            invariant
                i <= node.children@.len(),
                first_kind_not(node.children@, 0, "("@, ")"@) == first_kind_not(node.children@, i as int, "("@, ")"@),
            decreases node.children.len() - i,
        {
            let c = &node.children[i];
            let ck = c.kind.as_str();
            if !str_eq(ck, "(") && !str_eq(ck, ")") {
                proof {
                    assert(decreases_to!(*node => node.children@[i as int]));
                }
                return self.visit_expression(c);
            }
            i = i + 1;
        }
        Err(self.syntax_error(node, "Empty parenthesized expression"))
    }
}

} // verus!
