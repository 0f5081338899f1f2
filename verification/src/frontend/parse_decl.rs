//! Declarations of the syntax tree: imports, type aliases and classes with
//! their properties and methods. Only a method body can make a declaration
//! fail, with the error of its first failing statement.

use vstd::prelude::*;

use crate::diagnostic::CompilerError;
use crate::frontend::ast::{
    alias_view, class_view, import_specifier_view, import_view, method_view, opt_str_view, opt_type_view,
    parameter_view, property_decl_view, stmt_views, ClassDecl, ClassDeclView, DeclarationsView, ImportDecl,
    ImportDeclView, ImportSpecifier, ImportSpecifierView, MethodDecl, MethodDeclView, Parameter, ParameterView, ParsedFile, declarations_view,
    PropertyDecl, PropertyDeclView, Statement, StatementView, TypeAlias, TypeAliasView, TypeNode, TypeNodeView,
    Visibility,
};
use crate::frontend::parse_expr::spec_string_value;
use crate::frontend::parse_expr::extract_string_value;
use crate::frontend::parse_stmt::spec_block;
use crate::frontend::parse_type::{annotation_type, spec_type_node};
use crate::frontend::parser::{is_syntax_error, node_span, SyntaxErrorView, Visitor};
use crate::frontend::syntax::SyntaxNode;
use crate::text::{str_eq, to_owned_string};

verus! {

// ---------------------------------------------------------------------------
// Specification: imports
// ---------------------------------------------------------------------------

/// An import specifier: `a` names `a`; `a as b` names `b` with alias `a`.
pub open spec fn spec_import_specifier(n: SyntaxNode) -> ImportSpecifierView {
    let cs = n.children@;
    if cs.len() >= 3 {
        (cs[2].text@, Some(cs[0].text@))
    } else if cs.len() >= 1 {
        (cs[0].text@, None)
    } else {
        (Seq::empty(), None)
    }
}

/// The specifiers among the first `k` children of a list of named imports.
pub open spec fn named_imports(n: SyntaxNode, k: int) -> Seq<ImportSpecifierView>
    decreases k,
{
    if k <= 0 || k > n.children@.len() {
        Seq::empty()
    } else if n.children@[k - 1].kind@ == "import_specifier"@ {
        named_imports(n, k - 1).push(spec_import_specifier(n.children@[k - 1]))
    } else {
        named_imports(n, k - 1)
    }
}

/// The specifiers among the first `k` children of an import clause: a
/// default import, then named imports.
pub open spec fn clause_specifiers(n: SyntaxNode, k: int) -> Seq<ImportSpecifierView>
    decreases k,
{
    if k <= 0 || k > n.children@.len() {
        Seq::empty()
    } else {
        let prev = clause_specifiers(n, k - 1);
        let c = n.children@[k - 1];
        if c.kind@ == "identifier"@ {
            prev.push((c.text@, None))
        } else if c.kind@ == "named_imports"@ {
            prev + named_imports(c, c.children@.len() as int)
        } else {
            prev
        }
    }
}

/// Specifiers and source after the first `k` children of an import: those of
/// the last import clause, and the value of the last string.
pub open spec fn import_scan(n: SyntaxNode, k: int) -> (Seq<ImportSpecifierView>, Seq<char>)
    decreases k,
{
    if k <= 0 || k > n.children@.len() {
        (Seq::empty(), Seq::empty())
    } else {
        let (specs, source) = import_scan(n, k - 1);
        let c = n.children@[k - 1];
        if c.kind@ == "import_clause"@ {
            (clause_specifiers(c, c.children@.len() as int), source)
        } else if c.kind@ == "string"@ {
            (specs, spec_string_value(c.text@))
        } else {
            (specs, source)
        }
    }
}

/// An import declaration.
pub open spec fn spec_import(n: SyntaxNode, path: Seq<char>) -> ImportDeclView {
    let (specs, source) = import_scan(n, n.children@.len() as int);
    (specs, source, node_span(n, path))
}

// ---------------------------------------------------------------------------
// Specification: type aliases
// ---------------------------------------------------------------------------

/// The node kinds read as the type of a type alias.
pub open spec fn is_alias_type_kind(k: Seq<char>) -> bool {
    ||| k == "union_type"@
    ||| k == "object_type"@
    ||| k == "array_type"@
    ||| k == "literal_type"@
    ||| k == "predefined_type"@
    ||| k == "parenthesized_type"@
    ||| k == "intersection_type"@
    ||| k == "function_type"@
    ||| k == "generic_type"@
    ||| k == "tuple_type"@
    ||| k == "conditional_type"@
}

/// Name and type after the first `k` children of a type alias: the first
/// type identifier names it, the last child of a type kind types it
/// (`unknown` without one).
pub open spec fn alias_scan(n: SyntaxNode, k: int) -> (Seq<char>, TypeNodeView)
    decreases k,
{
    if k <= 0 || k > n.children@.len() {
        (Seq::empty(), TypeNodeView::Primitive("unknown"@))
    } else {
        let (name, t) = alias_scan(n, k - 1);
        let c = n.children@[k - 1];
        if c.kind@ == "type_identifier"@ {
            if name.len() == 0 {
                (c.text@, t)
            } else {
                (name, t)
            }
        } else if is_alias_type_kind(c.kind@) {
            (name, spec_type_node(c))
        } else {
            (name, t)
        }
    }
}

/// A type alias; none without a name.
pub open spec fn spec_type_alias(n: SyntaxNode, path: Seq<char>, exported: bool) -> Option<TypeAliasView> {
    let (name, t) = alias_scan(n, n.children@.len() as int);
    if name.len() == 0 {
        None
    } else {
        Some((name, t, exported, node_span(n, path)))
    }
}

// ---------------------------------------------------------------------------
// Specification: classes
// ---------------------------------------------------------------------------

/// Name, type, static, readonly and initializer after the first `k` children
/// of a class property: the initializer is the text of the first child after
/// the name that is none of the others nor `=`.
pub open spec fn property_scan_decl(n: SyntaxNode, k: int) -> (Seq<char>, Option<TypeNodeView>, bool, bool, Option<Seq<char>>)
    decreases k,
{
    if k <= 0 || k > n.children@.len() {
        (Seq::empty(), None, false, false, None)
    } else {
        let (name, t, st, ro, init) = property_scan_decl(n, k - 1);
        let c = n.children@[k - 1];
        if c.kind@ == "static"@ {
            (name, t, true, ro, init)
        } else if c.kind@ == "readonly"@ {
            (name, t, st, true, init)
        } else if c.kind@ == "property_identifier"@ {
            (c.text@, t, st, ro, init)
        } else if c.kind@ == "type_annotation"@ {
            match annotation_type(c) {
                Some(a) => (name, Some(a), st, ro, init),
                None => (name, t, st, ro, init),
            }
        } else if name.len() != 0 && init is None && c.kind@ != "="@ {
            (name, t, st, ro, Some(c.text@))
        } else {
            (name, t, st, ro, init)
        }
    }
}

/// A class property; none without a name.
pub open spec fn spec_property_decl(n: SyntaxNode, path: Seq<char>) -> Option<PropertyDeclView> {
    let (name, t, st, ro, init) = property_scan_decl(n, n.children@.len() as int);
    if name.len() == 0 {
        None
    } else {
        Some(
            PropertyDeclView {
                name,
                type_node: t,
                is_static: st,
                is_readonly: ro,
                initializer: init,
                span: node_span(n, path),
            },
        )
    }
}

/// Name, type and default value after the first `k` children of a
/// parameter: the default is the text of the first child after the name that
/// is none of the others nor `?` or `=`.
pub open spec fn parameter_scan(n: SyntaxNode, k: int) -> (Seq<char>, Option<TypeNodeView>, Option<Seq<char>>)
    decreases k,
{
    if k <= 0 || k > n.children@.len() {
        (Seq::empty(), None, None)
    } else {
        let (name, t, d) = parameter_scan(n, k - 1);
        let c = n.children@[k - 1];
        if c.kind@ == "identifier"@ {
            (c.text@, t, d)
        } else if c.kind@ == "type_annotation"@ {
            match annotation_type(c) {
                Some(a) => (name, Some(a), d),
                None => (name, t, d),
            }
        } else if c.kind@ != "?"@ && c.kind@ != "="@ && d is None && name.len() != 0 {
            (name, t, Some(c.text@))
        } else {
            (name, t, d)
        }
    }
}

/// A parameter; optional when written `x?`; none without a name.
pub open spec fn spec_parameter(n: SyntaxNode) -> Option<ParameterView> {
    let (name, t, d) = parameter_scan(n, n.children@.len() as int);
    if name.len() == 0 {
        None
    } else {
        Some((name, t, n.kind@ == "optional_parameter"@, d))
    }
}

/// The parameters among the first `k` children of a parameter list.
pub open spec fn parameters_scan(n: SyntaxNode, k: int) -> Seq<ParameterView>
    decreases k,
{
    if k <= 0 || k > n.children@.len() {
        Seq::empty()
    } else {
        let prev = parameters_scan(n, k - 1);
        let c = n.children@[k - 1];
        if c.kind@ == "required_parameter"@ || c.kind@ == "optional_parameter"@ {
            match spec_parameter(c) {
                Some(p) => prev.push(p),
                None => prev,
            }
        } else {
            prev
        }
    }
}

/// The visibility an accessibility modifier gives.
pub open spec fn spec_visibility(t: Seq<char>) -> Visibility {
    if t == "private"@ {
        Visibility::Private
    } else if t == "protected"@ {
        Visibility::Protected
    } else {
        Visibility::Public
    }
}

/// What the visitor of a method has found.
pub struct MethodScan {
    pub name: Seq<char>,
    pub parameters: Seq<ParameterView>,
    pub return_type: Option<TypeNodeView>,
    pub body: Seq<StatementView>,
    pub raw_body: Option<Seq<char>>,
    pub is_async: bool,
    pub visibility: Visibility,
    pub is_getter: bool,
    pub is_setter: bool,
}

/// The state of the visitor of a method after its first `k` children.
pub open spec fn method_scan(n: SyntaxNode, path: Seq<char>, k: int) -> Result<MethodScan, SyntaxErrorView>
    decreases k,
{
    if k <= 0 || k > n.children@.len() {
        Ok(
            MethodScan {
                name: Seq::empty(),
                parameters: Seq::empty(),
                return_type: None,
                body: Seq::empty(),
                raw_body: None,
                is_async: false,
                visibility: Visibility::Public,
                is_getter: false,
                is_setter: false,
            },
        )
    } else {
        match method_scan(n, path, k - 1) {
            Err(e) => Err(e),
            Ok(st) => {
                let c = n.children@[k - 1];
                let ck = c.kind@;
                if ck == "async"@ {
                    Ok(MethodScan { is_async: true, ..st })
                } else if ck == "accessibility_modifier"@ {
                    Ok(MethodScan { visibility: spec_visibility(c.text@), ..st })
                } else if ck == "get"@ {
                    Ok(MethodScan { is_getter: true, ..st })
                } else if ck == "set"@ {
                    Ok(MethodScan { is_setter: true, ..st })
                } else if ck == "property_identifier"@ {
                    Ok(MethodScan { name: c.text@, ..st })
                } else if ck == "formal_parameters"@ {
                    Ok(MethodScan { parameters: parameters_scan(c, c.children@.len() as int), ..st })
                } else if ck == "type_annotation"@ {
                    match annotation_type(c) {
                        Some(a) => Ok(MethodScan { return_type: Some(a), ..st }),
                        None => Ok(st),
                    }
                } else if ck == "statement_block"@ {
                    match spec_block(c, path) {
                        Err(e) => Err(e),
                        Ok(ss) => Ok(MethodScan { body: ss, raw_body: Some(c.text@), ..st }),
                    }
                } else {
                    Ok(st)
                }
            },
        }
    }
}

/// A method; none without a name. A getter's name is prefixed `get_`, a
/// setter's `set_`.
pub open spec fn spec_method(n: SyntaxNode, path: Seq<char>) -> Result<Option<MethodDeclView>, SyntaxErrorView> {
    match method_scan(n, path, n.children@.len() as int) {
        Err(e) => Err(e),
        Ok(st) => if st.name.len() == 0 {
            Ok(None)
        } else {
            Ok(
                Some(
                    MethodDeclView {
                        name: if st.is_getter {
                            "get_"@ + st.name
                        } else if st.is_setter {
                            "set_"@ + st.name
                        } else {
                            st.name
                        },
                        parameters: st.parameters,
                        return_type: st.return_type,
                        body: st.body,
                        raw_body: st.raw_body,
                        is_async: st.is_async,
                        visibility: st.visibility,
                        span: node_span(n, path),
                    },
                ),
            )
        },
    }
}

/// Properties and methods among the first `k` children of a class body.
pub open spec fn class_body_scan(n: SyntaxNode, path: Seq<char>, k: int) -> Result<(Seq<PropertyDeclView>, Seq<MethodDeclView>), SyntaxErrorView>
    decreases k,
{
    if k <= 0 || k > n.children@.len() {
        Ok((Seq::empty(), Seq::empty()))
    } else {
        match class_body_scan(n, path, k - 1) {
            Err(e) => Err(e),
            Ok(st) => {
                let c = n.children@[k - 1];
                if c.kind@ == "public_field_definition"@ || c.kind@ == "property_definition"@ {
                    match spec_property_decl(c, path) {
                        Some(p) => Ok((st.0.push(p), st.1)),
                        None => Ok(st),
                    }
                } else if c.kind@ == "method_definition"@ {
                    match spec_method(c, path) {
                        Err(e) => Err(e),
                        Ok(Some(m)) => Ok((st.0, st.1.push(m))),
                        Ok(None) => Ok(st),
                    }
                } else {
                    Ok(st)
                }
            },
        }
    }
}

/// Name, properties and methods after the first `k` children of a class: the
/// last type identifier names it, the last body gives its members.
pub open spec fn class_scan(n: SyntaxNode, path: Seq<char>, k: int) -> Result<(Seq<char>, Seq<PropertyDeclView>, Seq<MethodDeclView>), SyntaxErrorView>
    decreases k,
{
    if k <= 0 || k > n.children@.len() {
        Ok((Seq::empty(), Seq::empty(), Seq::empty()))
    } else {
        match class_scan(n, path, k - 1) {
            Err(e) => Err(e),
            Ok(st) => {
                let c = n.children@[k - 1];
                if c.kind@ == "type_identifier"@ {
                    Ok((c.text@, st.1, st.2))
                } else if c.kind@ == "class_body"@ {
                    match class_body_scan(c, path, c.children@.len() as int) {
                        Err(e) => Err(e),
                        Ok(b) => Ok((st.0, b.0, b.1)),
                    }
                } else {
                    Ok(st)
                }
            },
        }
    }
}

/// A class; none without a name.
pub open spec fn spec_class(n: SyntaxNode, path: Seq<char>, exported: bool) -> Result<Option<ClassDeclView>, SyntaxErrorView> {
    match class_scan(n, path, n.children@.len() as int) {
        Err(e) => Err(e),
        Ok(st) => if st.0.len() == 0 {
            Ok(None)
        } else {
            Ok(
                Some(
                    ClassDeclView {
                        name: st.0,
                        properties: st.1,
                        methods: st.2,
                        exported,
                        span: node_span(n, path),
                    },
                ),
            )
        },
    }
}

// ---------------------------------------------------------------------------
// Specification: files
// ---------------------------------------------------------------------------

/// The declarations after the first `k` children of an export statement,
/// starting from `start`: an exported type alias or class is added.
pub open spec fn export_scan(n: SyntaxNode, path: Seq<char>, k: int, start: DeclarationsView) -> Result<DeclarationsView, SyntaxErrorView>
    decreases k,
{
    if k <= 0 || k > n.children@.len() {
        Ok(start)
    } else {
        match export_scan(n, path, k - 1, start) {
            Err(e) => Err(e),
            Ok(st) => {
                let c = n.children@[k - 1];
                if c.kind@ == "type_alias_declaration"@ {
                    match spec_type_alias(c, path, true) {
                        Some(a) => Ok((st.0, st.1.push(a), st.2)),
                        None => Ok(st),
                    }
                } else if c.kind@ == "class_declaration"@ {
                    match spec_class(c, path, true) {
                        Err(e) => Err(e),
                        Ok(Some(cl)) => Ok((st.0, st.1, st.2.push(cl))),
                        Ok(None) => Ok(st),
                    }
                } else {
                    Ok(st)
                }
            },
        }
    }
}

/// The declarations among the first `k` children of a program: imports,
/// type aliases and classes, exported or not, in source order.
pub open spec fn program_scan(n: SyntaxNode, path: Seq<char>, k: int) -> Result<DeclarationsView, SyntaxErrorView>
    decreases k,
{
    if k <= 0 || k > n.children@.len() {
        Ok((Seq::empty(), Seq::empty(), Seq::empty()))
    } else {
        match program_scan(n, path, k - 1) {
            Err(e) => Err(e),
            Ok(st) => {
                let c = n.children@[k - 1];
                if c.kind@ == "import_statement"@ {
                    Ok((st.0.push(spec_import(c, path)), st.1, st.2))
                } else if c.kind@ == "export_statement"@ {
                    export_scan(c, path, c.children@.len() as int, st)
                } else if c.kind@ == "type_alias_declaration"@ {
                    match spec_type_alias(c, path, false) {
                        Some(a) => Ok((st.0, st.1.push(a), st.2)),
                        None => Ok(st),
                    }
                } else if c.kind@ == "class_declaration"@ {
                    match spec_class(c, path, false) {
                        Err(e) => Err(e),
                        Ok(Some(cl)) => Ok((st.0, st.1, st.2.push(cl))),
                        Ok(None) => Ok(st),
                    }
                } else {
                    Ok(st)
                }
            },
        }
    }
}

/// The declarations of the syntax tree `root` of file `path`.
pub open spec fn spec_program(root: SyntaxNode, path: Seq<char>) -> Result<DeclarationsView, SyntaxErrorView> {
    program_scan(root, path, root.children@.len() as int)
}

// ---------------------------------------------------------------------------
// Implementation
// ---------------------------------------------------------------------------

/// The views of a list of import specifiers.
pub open spec fn specifier_views(v: Seq<ImportSpecifier>) -> Seq<ImportSpecifierView> {
    Seq::new(v.len(), |k: int| import_specifier_view(v[k]))
}

/// The views of a list of class properties.
pub open spec fn property_decl_views(v: Seq<PropertyDecl>) -> Seq<PropertyDeclView> {
    Seq::new(v.len(), |k: int| property_decl_view(v[k]))
}

/// The views of a list of parameters.
pub open spec fn parameter_views(v: Seq<Parameter>) -> Seq<ParameterView> {
    Seq::new(v.len(), |k: int| parameter_view(v[k]))
}

/// The views of a list of methods.
pub open spec fn method_views(v: Seq<MethodDecl>) -> Seq<MethodDeclView> {
    Seq::new(v.len(), |k: int| method_view(v[k]))
}

/// The declarations held in three lists.
pub open spec fn decls_view(imports: Seq<ImportDecl>, aliases: Seq<TypeAlias>, classes: Seq<ClassDecl>) -> DeclarationsView {
    (
        Seq::new(imports.len(), |k: int| import_view(imports[k])),
        Seq::new(aliases.len(), |k: int| alias_view(aliases[k])),
        Seq::new(classes.len(), |k: int| class_view(classes[k])),
    )
}

/// `prefix` followed by `name`.
fn prefixed(prefix: &str, name: &str) -> (r: String)
    ensures
        r@ == prefix@ + name@,
{
    let mut s = to_owned_string(prefix);
    s.append(name);
    s
}

impl Visitor {
    /// Reads an import specifier.
    pub fn visit_import_specifier(&self, node: &SyntaxNode) -> (r: ImportSpecifier)
        ensures
            import_specifier_view(r) == spec_import_specifier(*node),
    {
        let n = node.children.len();
        if n >= 3 {
            ImportSpecifier { name: node.children[2].text.clone(), alias: Some(node.children[0].text.clone()) }
        } else if n >= 1 {
            ImportSpecifier { name: node.children[0].text.clone(), alias: None }
        } else {
            ImportSpecifier { name: String::new(), alias: None }
        }
    }

    /// Reads a list of named imports.
    fn visit_named_imports(&self, node: &SyntaxNode) -> (r: Vec<ImportSpecifier>)
        ensures
            specifier_views(r@) == named_imports(*node, node.children@.len() as int),
    {
        let mut out: Vec<ImportSpecifier> = Vec::new();
        let mut i: usize = 0;
        while i < node.children.len()
            invariant
                i <= node.children@.len(),
                specifier_views(out@) == named_imports(*node, i as int),
            decreases node.children.len() - i,
        {
            let c = &node.children[i];
            if str_eq(c.kind.as_str(), "import_specifier") {
                let ghost before = out@;
                let sp = self.visit_import_specifier(c);
                out.push(sp);
                proof {
                    assert(specifier_views(out@) =~= specifier_views(before).push(import_specifier_view(sp)));
                }
            }
            i = i + 1;
        }
        out
    }

    /// Reads an import clause.
    pub fn visit_import_clause(&self, node: &SyntaxNode) -> (r: Vec<ImportSpecifier>)
        ensures
            specifier_views(r@) == clause_specifiers(*node, node.children@.len() as int),
    {
        let mut out: Vec<ImportSpecifier> = Vec::new();
        let mut i: usize = 0;
        while i < node.children.len()
            invariant
                i <= node.children@.len(),
                specifier_views(out@) == clause_specifiers(*node, i as int),
            decreases node.children.len() - i,
        {
            let c = &node.children[i];
            let ck = c.kind.as_str();
            let ghost before = out@;
            if str_eq(ck, "identifier") {
                let sp = ImportSpecifier { name: c.text.clone(), alias: None };
                out.push(sp);
                proof {
                    assert(specifier_views(out@) =~= specifier_views(before).push(import_specifier_view(sp)));
                }
            } else if str_eq(ck, "named_imports") {
                let mut more = self.visit_named_imports(c);
                let ghost m = more@;
                out.append(&mut more);
                proof {
                    assert(specifier_views(out@) =~= specifier_views(before) + specifier_views(m));
                }
            }
            i = i + 1;
        }
        out
    }

    /// Reads an import declaration.
    pub fn visit_import(&self, node: &SyntaxNode) -> (r: ImportDecl)
        ensures
            import_view(r) == spec_import(*node, self.path@),
    {
        let mut source = String::new();
        let mut specifiers: Vec<ImportSpecifier> = Vec::new();
        proof {
            assert(specifier_views(specifiers@) =~= Seq::<ImportSpecifierView>::empty());
        }
        let mut i: usize = 0;
        while i < node.children.len()
            invariant
                i <= node.children@.len(),
                import_scan(*node, i as int) == (specifier_views(specifiers@), source@),
            decreases node.children.len() - i,
        {
            let c = &node.children[i];
            let ck = c.kind.as_str();
            if str_eq(ck, "import_clause") {
                specifiers = self.visit_import_clause(c);
            } else if str_eq(ck, "string") {
                source = extract_string_value(c.text.as_str());
            }
            i = i + 1;
        }
        let r = ImportDecl { specifiers, source, span: self.span(node) };
        proof {
            assert(import_view(r).0 =~= specifier_views(r.specifiers@));
        }
        r
    }

    /// Reads a type alias; none without a name.
    pub fn visit_type_alias(&self, node: &SyntaxNode, exported: bool) -> (r: Option<TypeAlias>)
        ensures
            match r {
                Some(a) => spec_type_alias(*node, self.path@, exported) == Some(alias_view(a)),
                None => spec_type_alias(*node, self.path@, exported) is None,
            },
    {
        let mut name = String::new();
        let mut type_node = TypeNode::Primitive(to_owned_string("unknown"));
        let mut i: usize = 0;
        while i < node.children.len()
            invariant
                i <= node.children@.len(),
                alias_scan(*node, i as int) == (name@, type_node@),
            decreases node.children.len() - i,
        {
            let c = &node.children[i];
            let ck = c.kind.as_str();
            if str_eq(ck, "type_identifier") {
                if name.unicode_len() == 0 {
                    name = c.text.clone();
                }
            } else if str_eq(ck, "union_type") || str_eq(ck, "object_type") || str_eq(ck, "array_type") || str_eq(
                ck,
                "literal_type",
            ) || str_eq(ck, "predefined_type") || str_eq(ck, "parenthesized_type") || str_eq(
                ck,
                "intersection_type",
            ) || str_eq(ck, "function_type") || str_eq(ck, "generic_type") || str_eq(ck, "tuple_type") || str_eq(
                ck,
                "conditional_type",
            ) {
                type_node = self.visit_type_node(c);
            }
            i = i + 1;
        }
        if name.unicode_len() == 0 {
            return None;
        }
        Some(TypeAlias { name, type_node, exported, span: self.span(node) })
    }

    /// Reads a class property; none without a name.
    pub fn visit_property_decl(&self, node: &SyntaxNode) -> (r: Option<PropertyDecl>)
        ensures
            match r {
                Some(p) => spec_property_decl(*node, self.path@) == Some(property_decl_view(p)),
                None => spec_property_decl(*node, self.path@) is None,
            },
    {
        let mut name = String::new();
        let mut type_node: Option<TypeNode> = None;
        let mut is_static = false;
        let mut is_readonly = false;
        let mut initializer: Option<String> = None;
        let mut i: usize = 0;
        while i < node.children.len()
            invariant
                i <= node.children@.len(),
                property_scan_decl(*node, i as int) == (
                    name@,
                    opt_type_view(type_node),
                    is_static,
                    is_readonly,
                    opt_str_view(initializer),
                ),
            decreases node.children.len() - i,
        {
            let c = &node.children[i];
            let ck = c.kind.as_str();
            if str_eq(ck, "static") {
                is_static = true;
            } else if str_eq(ck, "readonly") {
                is_readonly = true;
            } else if str_eq(ck, "property_identifier") {
                name = c.text.clone();
            } else if str_eq(ck, "type_annotation") {
                match self.visit_type_annotation(c) {
                    Some(t) => {
                        type_node = Some(t);
                    },
                    None => {},
                }
            } else if name.unicode_len() != 0 && initializer.is_none() && !str_eq(ck, "=") {
                initializer = Some(c.text.clone());
            }
            i = i + 1;
        }
        if name.unicode_len() == 0 {
            return None;
        }
        Some(PropertyDecl { name, type_node, is_static, is_readonly, initializer, span: self.span(node) })
    }

    /// Reads a parameter; none without a name.
    pub fn visit_parameter(&self, node: &SyntaxNode) -> (r: Option<Parameter>)
        ensures
            match r {
                Some(p) => spec_parameter(*node) == Some(parameter_view(p)),
                None => spec_parameter(*node) is None,
            },
    {
        let mut name = String::new();
        let mut type_node: Option<TypeNode> = None;
        let optional = str_eq(node.kind.as_str(), "optional_parameter");
        let mut default_value: Option<String> = None;
        let mut i: usize = 0;
        while i < node.children.len()
            invariant
                i <= node.children@.len(),
                parameter_scan(*node, i as int) == (name@, opt_type_view(type_node), opt_str_view(default_value)),
            decreases node.children.len() - i,
        {
            let c = &node.children[i];
            let ck = c.kind.as_str();
            if str_eq(ck, "identifier") {
                name = c.text.clone();
            } else if str_eq(ck, "type_annotation") {
                match self.visit_type_annotation(c) {
                    Some(t) => {
                        type_node = Some(t);
                    },
                    None => {},
                }
            } else if !str_eq(ck, "?") && !str_eq(ck, "=") && default_value.is_none() && name.unicode_len() != 0 {
                default_value = Some(c.text.clone());
            }
            i = i + 1;
        }
        if name.unicode_len() == 0 {
            return None;
        }
        Some(Parameter { name, type_node, optional, default_value })
    }

    /// Reads a parameter list.
    pub fn visit_parameters(&self, node: &SyntaxNode) -> (r: Vec<Parameter>)
        ensures
            parameter_views(r@) == parameters_scan(*node, node.children@.len() as int),
    {
        let mut out: Vec<Parameter> = Vec::new();
        let mut i: usize = 0;
        while i < node.children.len()
            invariant
                i <= node.children@.len(),
                parameter_views(out@) == parameters_scan(*node, i as int),
            decreases node.children.len() - i,
        {
            let c = &node.children[i];
            let ck = c.kind.as_str();
            if str_eq(ck, "required_parameter") || str_eq(ck, "optional_parameter") {
                match self.visit_parameter(c) {
                    Some(p) => {
                        let ghost before = out@;
                        out.push(p);
                        proof {
                            assert(parameter_views(out@) =~= parameter_views(before).push(parameter_view(p)));
                        }
                    },
                    None => {},
                }
            }
            i = i + 1;
        }
        out
    }
}

/// The state of the visitor of a method, as its view.
pub open spec fn method_state(
    name: String,
    parameters: Seq<Parameter>,
    return_type: Option<TypeNode>,
    body: Seq<Statement>,
    raw_body: Option<String>,
    is_async: bool,
    visibility: Visibility,
    is_getter: bool,
    is_setter: bool,
) -> MethodScan {
    MethodScan {
        name: name@,
        parameters: parameter_views(parameters),
        return_type: opt_type_view(return_type),
        body: stmt_views(body),
        raw_body: opt_str_view(raw_body),
        is_async,
        visibility,
        is_getter,
        is_setter,
    }
}

proof fn lemma_method_scan_err(n: SyntaxNode, path: Seq<char>, k: int)
    requires
        1 <= k <= n.children@.len(),
        method_scan(n, path, k) is Err,
    ensures
        method_scan(n, path, n.children@.len() as int) == method_scan(n, path, k),
    decreases n.children@.len() - k,
{
    if k < n.children@.len() {
        lemma_method_scan_err(n, path, k + 1);
    }
}

proof fn lemma_class_body_scan_err(n: SyntaxNode, path: Seq<char>, k: int)
    requires
        1 <= k <= n.children@.len(),
        class_body_scan(n, path, k) is Err,
    ensures
        class_body_scan(n, path, n.children@.len() as int) == class_body_scan(n, path, k),
    decreases n.children@.len() - k,
{
    if k < n.children@.len() {
        lemma_class_body_scan_err(n, path, k + 1);
    }
}

proof fn lemma_class_scan_err(n: SyntaxNode, path: Seq<char>, k: int)
    requires
        1 <= k <= n.children@.len(),
        class_scan(n, path, k) is Err,
    ensures
        class_scan(n, path, n.children@.len() as int) == class_scan(n, path, k),
    decreases n.children@.len() - k,
{
    if k < n.children@.len() {
        lemma_class_scan_err(n, path, k + 1);
    }
}

proof fn lemma_export_scan_err(n: SyntaxNode, path: Seq<char>, k: int, start: DeclarationsView)
    requires
        1 <= k <= n.children@.len(),
        export_scan(n, path, k, start) is Err,
    ensures
        export_scan(n, path, n.children@.len() as int, start) == export_scan(n, path, k, start),
    decreases n.children@.len() - k,
{
    if k < n.children@.len() {
        lemma_export_scan_err(n, path, k + 1, start);
    }
}

proof fn lemma_program_scan_err(n: SyntaxNode, path: Seq<char>, k: int)
    requires
        1 <= k <= n.children@.len(),
        program_scan(n, path, k) is Err,
    ensures
        program_scan(n, path, n.children@.len() as int) == program_scan(n, path, k),
    decreases n.children@.len() - k,
{
    if k < n.children@.len() {
        lemma_program_scan_err(n, path, k + 1);
    }
}

impl Visitor {
    /// Reads a method; none without a name.
    pub fn visit_method_decl(&self, node: &SyntaxNode) -> (r: Result<Option<MethodDecl>, CompilerError>)
        ensures
            match r {
                Ok(Some(m)) => spec_method(*node, self.path@) == Ok::<Option<MethodDeclView>, SyntaxErrorView>(
                    Some(method_view(m)),
                ),
                Ok(None) => spec_method(*node, self.path@) == Ok::<Option<MethodDeclView>, SyntaxErrorView>(None),
                Err(err) => spec_method(*node, self.path@) is Err && is_syntax_error(
                    err,
                    spec_method(*node, self.path@)->Err_0,
                ),
            },
    {
        let mut name = String::new();
        let mut parameters: Vec<Parameter> = Vec::new();
        let mut return_type: Option<TypeNode> = None;
        let mut body: Vec<Statement> = Vec::new();
        let mut raw_body: Option<String> = None;
        let mut is_async = false;
        let mut visibility = Visibility::Public;
        let mut is_getter = false;
        let mut is_setter = false;
        proof {
            assert(parameter_views(parameters@) =~= Seq::<ParameterView>::empty());
            assert(stmt_views(body@) =~= Seq::<StatementView>::empty());
        }
        let mut i: usize = 0;
        while i < node.children.len()
            invariant
                i <= node.children@.len(),
                method_scan(*node, self.path@, i as int) == Ok::<MethodScan, SyntaxErrorView>(
                    method_state(
                        name,
                        parameters@,
                        return_type,
                        body@,
                        raw_body,
                        is_async,
                        visibility,
                        is_getter,
                        is_setter,
                    ),
                ),
            decreases node.children.len() - i,
        {
            let c = &node.children[i];
            let ck = c.kind.as_str();
            if str_eq(ck, "async") {
                is_async = true;
            } else if str_eq(ck, "accessibility_modifier") {
                let t = c.text.as_str();
                visibility = if str_eq(t, "private") {
                    Visibility::Private
                } else if str_eq(t, "protected") {
                    Visibility::Protected
                } else {
                    Visibility::Public
                };
            } else if str_eq(ck, "get") {
                is_getter = true;
            } else if str_eq(ck, "set") {
                is_setter = true;
            } else if str_eq(ck, "property_identifier") {
                name = c.text.clone();
            } else if str_eq(ck, "formal_parameters") {
                parameters = self.visit_parameters(c);
            } else if str_eq(ck, "type_annotation") {
                match self.visit_type_annotation(c) {
                    Some(t) => {
                        return_type = Some(t);
                    },
                    None => {},
                }
            } else if str_eq(ck, "statement_block") {
                match self.visit_statement_block(c) {
                    Ok(ss) => {
                        body = ss;
                        raw_body = Some(c.text.clone());
                    },
                    Err(e) => {
                        proof {
                            lemma_method_scan_err(*node, self.path@, i as int + 1);
                        }
                        return Err(e);
                    },
                }
            }
            i = i + 1;
        }
        if name.unicode_len() == 0 {
            return Ok(None);
        }
        let final_name = if is_getter {
            prefixed("get_", name.as_str())
        } else if is_setter {
            prefixed("set_", name.as_str())
        } else {
            name
        };
        let m = MethodDecl {
            name: final_name,
            parameters,
            return_type,
            body,
            raw_body,
            is_async,
            visibility,
            span: self.span(node),
        };
        proof {
            assert(method_view(m).parameters =~= parameter_views(m.parameters@));
        }
        Ok(Some(m))
    }

    /// Reads the members of a class body.
    pub fn visit_class_body(&self, node: &SyntaxNode) -> (r: Result<(Vec<PropertyDecl>, Vec<MethodDecl>), CompilerError>)
        ensures
            match r {
                Ok(b) => class_body_scan(*node, self.path@, node.children@.len() as int) == Ok::<
                    (Seq<PropertyDeclView>, Seq<MethodDeclView>),
                    SyntaxErrorView,
                >((property_decl_views(b.0@), method_views(b.1@))),
                Err(err) => class_body_scan(*node, self.path@, node.children@.len() as int) is Err
                    && is_syntax_error(err, class_body_scan(*node, self.path@, node.children@.len() as int)->Err_0),
            },
    {
        let mut properties: Vec<PropertyDecl> = Vec::new();
        let mut methods: Vec<MethodDecl> = Vec::new();
        proof {
            assert(property_decl_views(properties@) =~= Seq::<PropertyDeclView>::empty());
            assert(method_views(methods@) =~= Seq::<MethodDeclView>::empty());
        }
        let mut i: usize = 0;
        while i < node.children.len()
            invariant
                i <= node.children@.len(),
                class_body_scan(*node, self.path@, i as int) == Ok::<
                    (Seq<PropertyDeclView>, Seq<MethodDeclView>),
                    SyntaxErrorView,
                >((property_decl_views(properties@), method_views(methods@))),
            decreases node.children.len() - i,
        {
            let c = &node.children[i];
            let ck = c.kind.as_str();
            if str_eq(ck, "public_field_definition") || str_eq(ck, "property_definition") {
                match self.visit_property_decl(c) {
                    Some(p) => {
                        let ghost before = properties@;
                        properties.push(p);
                        proof {
                            assert(property_decl_views(properties@) =~= property_decl_views(before).push(
                                property_decl_view(p),
                            ));
                        }
                    },
                    None => {},
                }
            } else if str_eq(ck, "method_definition") {
                match self.visit_method_decl(c) {
                    Err(e) => {
                        proof {
                            lemma_class_body_scan_err(*node, self.path@, i as int + 1);
                        }
                        return Err(e);
                    },
                    Ok(Some(m)) => {
                        let ghost before = methods@;
                        methods.push(m);
                        proof {
                            assert(method_views(methods@) =~= method_views(before).push(method_view(m)));
                        }
                    },
                    Ok(None) => {},
                }
            }
            i = i + 1;
        }
        Ok((properties, methods))
    }

    /// Reads a class; none without a name.
    pub fn visit_class(&self, node: &SyntaxNode, exported: bool) -> (r: Result<Option<ClassDecl>, CompilerError>)
        ensures
            match r {
                Ok(Some(c)) => spec_class(*node, self.path@, exported) == Ok::<Option<ClassDeclView>, SyntaxErrorView>(
                    Some(class_view(c)),
                ),
                Ok(None) => spec_class(*node, self.path@, exported) == Ok::<Option<ClassDeclView>, SyntaxErrorView>(
                    None,
                ),
                Err(err) => spec_class(*node, self.path@, exported) is Err && is_syntax_error(
                    err,
                    spec_class(*node, self.path@, exported)->Err_0,
                ),
            },
    {
        let mut name = String::new();
        let mut properties: Vec<PropertyDecl> = Vec::new();
        let mut methods: Vec<MethodDecl> = Vec::new();
        proof {
            assert(property_decl_views(properties@) =~= Seq::<PropertyDeclView>::empty());
            assert(method_views(methods@) =~= Seq::<MethodDeclView>::empty());
        }
        let mut i: usize = 0;
        while i < node.children.len()
            invariant
                i <= node.children@.len(),
                class_scan(*node, self.path@, i as int) == Ok::<
                    (Seq<char>, Seq<PropertyDeclView>, Seq<MethodDeclView>),
                    SyntaxErrorView,
                >((name@, property_decl_views(properties@), method_views(methods@))),
            decreases node.children.len() - i,
        {
            let c = &node.children[i];
            let ck = c.kind.as_str();
            if str_eq(ck, "type_identifier") {
                name = c.text.clone();
            } else if str_eq(ck, "class_body") {
                match self.visit_class_body(c) {
                    Ok(b) => {
                        properties = b.0;
                        methods = b.1;
                    },
                    Err(e) => {
                        proof {
                            lemma_class_scan_err(*node, self.path@, i as int + 1);
                        }
                        return Err(e);
                    },
                }
            }
            i = i + 1;
        }
        if name.unicode_len() == 0 {
            return Ok(None);
        }
        let c = ClassDecl { name, properties, methods, exported, span: self.span(node) };
        proof {
            assert(class_view(c).properties =~= property_decl_views(c.properties@));
            assert(class_view(c).methods =~= method_views(c.methods@));
        }
        Ok(Some(c))
    }

    /// Reads an export statement, adding the exported type aliases and
    /// classes to `type_aliases` and `classes`.
    pub fn visit_export(
        &self,
        node: &SyntaxNode,
        imports: &Vec<ImportDecl>,
        type_aliases: &mut Vec<TypeAlias>,
        classes: &mut Vec<ClassDecl>,
    ) -> (r: Result<(), CompilerError>)
        ensures
            match r {
                Ok(()) => export_scan(
                    *node,
                    self.path@,
                    node.children@.len() as int,
                    decls_view(imports@, old(type_aliases)@, old(classes)@),
                ) == Ok::<DeclarationsView, SyntaxErrorView>(
                    decls_view(imports@, final(type_aliases)@, final(classes)@),
                ),
                Err(err) => export_scan(
                    *node,
                    self.path@,
                    node.children@.len() as int,
                    decls_view(imports@, old(type_aliases)@, old(classes)@),
                ) is Err && is_syntax_error(
                    err,
                    export_scan(
                        *node,
                        self.path@,
                        node.children@.len() as int,
                        decls_view(imports@, old(type_aliases)@, old(classes)@),
                    )->Err_0,
                ),
            },
    {
        let ghost start = decls_view(imports@, type_aliases@, classes@);
        let mut i: usize = 0;
        while i < node.children.len()
            invariant
                i <= node.children@.len(),
                start == decls_view(imports@, old(type_aliases)@, old(classes)@),
                export_scan(*node, self.path@, i as int, start) == Ok::<DeclarationsView, SyntaxErrorView>(
                    decls_view(imports@, type_aliases@, classes@),
                ),
            decreases node.children.len() - i,
        {
            let c = &node.children[i];
            let ck = c.kind.as_str();
            if str_eq(ck, "type_alias_declaration") {
                match self.visit_type_alias(c, true) {
                    Some(a) => {
                        let ghost before = type_aliases@;
                        type_aliases.push(a);
                        proof {
                            assert(decls_view(imports@, type_aliases@, classes@).1 =~= decls_view(
                                imports@,
                                before,
                                classes@,
                            ).1.push(alias_view(a)));
                        }
                    },
                    None => {},
                }
            } else if str_eq(ck, "class_declaration") {
                match self.visit_class(c, true) {
                    Err(e) => {
                        proof {
                            lemma_export_scan_err(*node, self.path@, i as int + 1, start);
                        }
                        return Err(e);
                    },
                    Ok(Some(cl)) => {
                        let ghost before = classes@;
                        classes.push(cl);
                        proof {
                            assert(decls_view(imports@, type_aliases@, classes@).2 =~= decls_view(
                                imports@,
                                type_aliases@,
                                before,
                            ).2.push(class_view(cl)));
                        }
                    },
                    Ok(None) => {},
                }
            }
            i = i + 1;
        }
        Ok(())
    }

    /// Reads the declarations of a program: its imports, type aliases and
    /// classes, exported or not.
    pub fn visit_program(&self, node: &SyntaxNode) -> (r: Result<ParsedFile, CompilerError>)
        ensures
            match r {
                Ok(f) => f.path@ == self.path@ && spec_program(*node, self.path@) == Ok::<
                    DeclarationsView,
                    SyntaxErrorView,
                >(declarations_view(f)),
                Err(err) => spec_program(*node, self.path@) is Err && is_syntax_error(
                    err,
                    spec_program(*node, self.path@)->Err_0,
                ),
            },
    {
        let mut imports: Vec<ImportDecl> = Vec::new();
        let mut type_aliases: Vec<TypeAlias> = Vec::new();
        let mut classes: Vec<ClassDecl> = Vec::new();
        proof {
            assert(decls_view(imports@, type_aliases@, classes@) == (
                Seq::<ImportDeclView>::empty(),
                Seq::<TypeAliasView>::empty(),
                Seq::<ClassDeclView>::empty(),
            )) by {
                assert(decls_view(imports@, type_aliases@, classes@).0 =~= Seq::<ImportDeclView>::empty());
                assert(decls_view(imports@, type_aliases@, classes@).1 =~= Seq::<TypeAliasView>::empty());
                assert(decls_view(imports@, type_aliases@, classes@).2 =~= Seq::<ClassDeclView>::empty());
            }
        }
        let mut i: usize = 0;
        while i < node.children.len()
            invariant
                i <= node.children@.len(),
                program_scan(*node, self.path@, i as int) == Ok::<DeclarationsView, SyntaxErrorView>(
                    decls_view(imports@, type_aliases@, classes@),
                ),
            decreases node.children.len() - i,
        {
            let c = &node.children[i];
            let ck = c.kind.as_str();
            if str_eq(ck, "import_statement") {
                let d = self.visit_import(c);
                let ghost before = imports@;
                imports.push(d);
                proof {
                    assert(decls_view(imports@, type_aliases@, classes@).0 =~= decls_view(
                        before,
                        type_aliases@,
                        classes@,
                    ).0.push(import_view(d)));
                }
            } else if str_eq(ck, "export_statement") {
                match self.visit_export(c, &imports, &mut type_aliases, &mut classes) {
                    Ok(()) => {},
                    Err(e) => {
                        proof {
                            lemma_program_scan_err(*node, self.path@, i as int + 1);
                        }
                        return Err(e);
                    },
                }
            } else if str_eq(ck, "type_alias_declaration") {
                match self.visit_type_alias(c, false) {
                    Some(a) => {
                        let ghost before = type_aliases@;
                        type_aliases.push(a);
                        proof {
                            assert(decls_view(imports@, type_aliases@, classes@).1 =~= decls_view(
                                imports@,
                                before,
                                classes@,
                            ).1.push(alias_view(a)));
                        }
                    },
                    None => {},
                }
            } else if str_eq(ck, "class_declaration") {
                match self.visit_class(c, false) {
                    Err(e) => {
                        proof {
                            lemma_program_scan_err(*node, self.path@, i as int + 1);
                        }
                        return Err(e);
                    },
                    Ok(Some(cl)) => {
                        let ghost before = classes@;
                        classes.push(cl);
                        proof {
                            assert(decls_view(imports@, type_aliases@, classes@).2 =~= decls_view(
                                imports@,
                                type_aliases@,
                                before,
                            ).2.push(class_view(cl)));
                        }
                    },
                    Ok(None) => {},
                }
            }
            i = i + 1;
        }
        let f = ParsedFile { path: self.path.clone(), imports, type_aliases, classes };
        proof {
            assert(declarations_view(f) == decls_view(f.imports@, f.type_aliases@, f.classes@));
        }
        Ok(f)
    }
}

/// Reads the declarations of the syntax tree `root` of the file `path`.
pub fn parse_syntax_tree(root: &SyntaxNode, path: &str) -> (r: Result<ParsedFile, CompilerError>)
    ensures
        match r {
            Ok(f) => f.path@ == path@ && spec_program(*root, path@) == Ok::<DeclarationsView, SyntaxErrorView>(
                declarations_view(f),
            ),
            Err(err) => spec_program(*root, path@) is Err && is_syntax_error(err, spec_program(*root, path@)->Err_0),
        },
{
    let visitor = Visitor::new(path);
    visitor.visit_program(root)
}

} // verus!
