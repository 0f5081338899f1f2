//! Types of the syntax tree. Reading a type never fails: what the visitor
//! does not recognize is kept as a primitive type named by its text.

use vstd::prelude::*;

use crate::frontend::ast::{type_view, ObjectProperty, ObjectPropertyView, TypeNode, TypeNodeView};
use crate::frontend::parse_expr::{first_child_not, first_kind_not};
use crate::frontend::parser::Visitor;
use crate::frontend::syntax::SyntaxNode;
use crate::text::{str_eq, to_owned_string};

verus! {

// ---------------------------------------------------------------------------
// Specification
// ---------------------------------------------------------------------------

/// The type names read as primitive types rather than references.
pub open spec fn spec_is_primitive_name(s: Seq<char>) -> bool {
    ||| s == "string"@
    ||| s == "number"@
    ||| s == "boolean"@
    ||| s == "void"@
    ||| s == "null"@
    ||| s == "undefined"@
}

/// The primitive type `undefined`.
pub open spec fn undefined_type() -> TypeNodeView {
    TypeNodeView::Primitive("undefined"@)
}

/// The type that node `n` denotes.
pub open spec fn spec_type_node(n: SyntaxNode) -> TypeNodeView
    decreases n, n.children@.len() + 2,
{
    let k = n.kind@;
    if k == "predefined_type"@ {
        TypeNodeView::Primitive(n.text@)
    } else if k == "type_identifier"@ {
        if spec_is_primitive_name(n.text@) {
            TypeNodeView::Primitive(n.text@)
        } else {
            TypeNodeView::Reference(n.text@)
        }
    } else if k == "array_type"@ {
        spec_array_type(n)
    } else if k == "union_type"@ {
        spec_union_type(n)
    } else if k == "object_type"@ {
        TypeNodeView::ObjectLiteral(type_properties(n, n.children@.len() as int))
    } else if k == "literal_type"@ {
        TypeNodeView::Primitive(n.text@)
    } else if k == "parenthesized_type"@ {
        spec_parenthesized_type(n)
    } else {
        TypeNodeView::Primitive(n.text@)
    }
}

/// An array type: of the first child that is not a bracket, or of `unknown`.
pub open spec fn spec_array_type(n: SyntaxNode) -> TypeNodeView
    decreases n, n.children@.len() + 1,
{
    let i = first_kind_not(n.children@, 0, "["@, "]"@);
    if 0 <= i < n.children@.len() {
        TypeNodeView::Array(Box::new(spec_type_node(n.children@[i])))
    } else {
        TypeNodeView::Array(Box::new(TypeNodeView::Primitive("unknown"@)))
    }
}

/// A parenthesized type: the first child that is not a parenthesis, or
/// `unknown`.
pub open spec fn spec_parenthesized_type(n: SyntaxNode) -> TypeNodeView
    decreases n, n.children@.len() + 1,
{
    let i = first_kind_not(n.children@, 0, "("@, ")"@);
    if 0 <= i < n.children@.len() {
        spec_type_node(n.children@[i])
    } else {
        TypeNodeView::Primitive("unknown"@)
    }
}

/// Whether one of the first `k` children has the text `undefined`.
pub open spec fn mentions_undefined(cs: Seq<SyntaxNode>, k: int) -> bool
    decreases k,
{
    if k <= 0 || k > cs.len() {
        false
    } else {
        mentions_undefined(cs, k - 1) || cs[k - 1].text@ == "undefined"@
    }
}

/// The first `k` types of `ms` other than `undefined`.
pub open spec fn without_undefined(ms: Seq<TypeNodeView>, k: int) -> Seq<TypeNodeView>
    decreases k,
{
    if k <= 0 || k > ms.len() {
        Seq::empty()
    } else if ms[k - 1] == undefined_type() {
        without_undefined(ms, k - 1)
    } else {
        without_undefined(ms, k - 1).push(ms[k - 1])
    }
}

/// A union type: `T | undefined` with a single other member is the optional
/// `T`; else the union of its members, nested unions flattened and
/// `undefined` left out.
pub open spec fn spec_union_type(n: SyntaxNode) -> TypeNodeView
    decreases n, n.children@.len() + 1,
{
    let vs = union_variants(n, n.children@.len() as int);
    if mentions_undefined(n.children@, n.children@.len() as int) && vs.len() == 1 {
        TypeNodeView::Optional(Box::new(vs[0]))
    } else {
        TypeNodeView::Union(vs)
    }
}

/// The members of a union type read from its first `k` children.
pub open spec fn union_variants(n: SyntaxNode, k: int) -> Seq<TypeNodeView>
    decreases n, k,
{
    if k <= 0 || k > n.children@.len() {
        Seq::empty()
    } else {
        let prev = union_variants(n, k - 1);
        let c = n.children@[k - 1];
        if c.kind@ == "|"@ {
            prev
        } else {
            let v = spec_type_node(c);
            match v {
                TypeNodeView::Union(nested) => prev + without_undefined(nested, nested.len() as int),
                _ => if v == undefined_type() {
                    prev
                } else {
                    prev.push(v)
                },
            }
        }
    }
}

/// The properties of an object type among its first `k` children.
pub open spec fn type_properties(n: SyntaxNode, k: int) -> Seq<ObjectPropertyView>
    decreases n, k,
{
    if k <= 0 || k > n.children@.len() {
        Seq::empty()
    } else {
        let prev = type_properties(n, k - 1);
        let c = n.children@[k - 1];
        if c.kind@ == "property_signature"@ {
            match spec_property_signature(c) {
                Some(p) => prev.push(p),
                None => prev,
            }
        } else {
            prev
        }
    }
}

/// A property signature: the last property identifier names it, a `?` makes
/// it optional, and its type is that of the last type annotation (`unknown`
/// without one). None without a name.
pub open spec fn spec_property_signature(n: SyntaxNode) -> Option<ObjectPropertyView>
    decreases n, n.children@.len() + 1,
{
    let (name, t, optional) = signature_scan(n, n.children@.len() as int);
    if name.len() == 0 {
        None
    } else {
        Some((name, t, optional))
    }
}

/// Name, type and optionality of a property signature after its first `k`
/// children.
pub open spec fn signature_scan(n: SyntaxNode, k: int) -> (Seq<char>, TypeNodeView, bool)
    decreases n, k,
{
    if k <= 0 || k > n.children@.len() {
        (Seq::empty(), TypeNodeView::Primitive("unknown"@), false)
    } else {
        let (name, t, optional) = signature_scan(n, k - 1);
        let c = n.children@[k - 1];
        if c.kind@ == "property_identifier"@ {
            (c.text@, t, optional)
        } else if c.kind@ == "?"@ {
            (name, t, true)
        } else if c.kind@ == "type_annotation"@ {
            match annotation_type(c) {
                Some(a) => (name, a, optional),
                None => (name, t, optional),
            }
        } else {
            (name, t, optional)
        }
    }
}

/// The type of a type annotation: its first child that is not `:`.
pub open spec fn annotation_type(n: SyntaxNode) -> Option<TypeNodeView>
    decreases n, n.children@.len() + 1,
{
    let i = first_kind_not(n.children@, 0, ":"@, ":"@);
    if 0 <= i < n.children@.len() {
        Some(spec_type_node(n.children@[i]))
    } else {
        None
    }
}

// ---------------------------------------------------------------------------
// Implementation
// ---------------------------------------------------------------------------

fn primitive(s: &str) -> (r: TypeNode)
    ensures
        r@ == TypeNodeView::Primitive(s@),
{
    TypeNode::Primitive(to_owned_string(s))
}

fn is_undefined_type(t: &TypeNode) -> (r: bool)
    ensures
        r == (t@ == undefined_type()),
{
    match t {
        TypeNode::Primitive(p) => str_eq(p.as_str(), "undefined"),
        _ => false,
    }
}

/// The views of a list of object properties.
pub open spec fn property_views(ps: Seq<ObjectProperty>) -> Seq<ObjectPropertyView> {
    Seq::new(ps.len(), |k: int| (ps[k].name@, type_view(ps[k].type_node), ps[k].optional))
}

/// The views of a list of types.
pub open spec fn type_views(ts: Seq<TypeNode>) -> Seq<TypeNodeView> {
    Seq::new(ts.len(), |k: int| type_view(ts[k]))
}

impl Visitor {
    /// Reads a type.
    pub fn visit_type_node(&self, node: &SyntaxNode) -> (r: TypeNode)
        ensures
            r@ == spec_type_node(*node),
        decreases node, 2nat,
    {
        let k = node.kind.as_str();
        if str_eq(k, "predefined_type") {
            TypeNode::Primitive(node.text.clone())
        } else if str_eq(k, "type_identifier") {
            let t = node.text.as_str();
            if str_eq(t, "string") || str_eq(t, "number") || str_eq(t, "boolean") || str_eq(t, "void") || str_eq(
                t,
                "null",
            ) || str_eq(t, "undefined") {
                TypeNode::Primitive(node.text.clone())
            } else {
                TypeNode::Reference(node.text.clone())
            }
        } else if str_eq(k, "array_type") {
            let i = first_child_not(node, "[", "]");
            if i < node.children.len() {
                proof {
                    assert(decreases_to!(*node => node.children@[i as int]));
                }
                let inner = self.visit_type_node(&node.children[i]);
                TypeNode::Array(Box::new(inner))
            } else {
                TypeNode::Array(Box::new(primitive("unknown")))
            }
        } else if str_eq(k, "union_type") {
            self.visit_union_type(node)
        } else if str_eq(k, "object_type") {
            let props = self.visit_type_properties(node);
            let r = TypeNode::ObjectLiteral(props);
            proof {
                assert(r@->ObjectLiteral_0 =~= property_views(props@));
            }
            r
        } else if str_eq(k, "literal_type") {
            TypeNode::Primitive(node.text.clone())
        } else if str_eq(k, "parenthesized_type") {
            let i = first_child_not(node, "(", ")");
            if i < node.children.len() {
                proof {
                    assert(decreases_to!(*node => node.children@[i as int]));
                }
                self.visit_type_node(&node.children[i])
            } else {
                primitive("unknown")
            }
        } else {
            TypeNode::Primitive(node.text.clone())
        }
    }

    /// Reads a union type.
    fn visit_union_type(&self, node: &SyntaxNode) -> (r: TypeNode)
        ensures
            r@ == spec_union_type(*node),
        decreases node, 1nat,
    {
        let mut variants: Vec<TypeNode> = Vec::new();
        let mut has_undefined = false;
        let mut i: usize = 0;
        while i < node.children.len()
            invariant
                i <= node.children@.len(),
                type_views(variants@) == union_variants(*node, i as int),
                has_undefined == mentions_undefined(node.children@, i as int),
            decreases node.children.len() - i,
        {
            let c = &node.children[i];
            proof {
                assert(decreases_to!(*node => node.children@[i as int]));
            }
            if !str_eq(c.kind.as_str(), "|") {
                let variant = self.visit_type_node(c);
                match variant {
                    TypeNode::Union(nested) => {
                        let ghost before = variants@;
                        let ghost nv = type_views(nested@);
                        proof {
                            assert(nv =~= spec_type_node(*c)->Union_0);
                        }
                        let n_len: usize = nested.len();
                        let mut rest = nested;
                        let mut j: usize = 0;
                        while rest.len() > 0
                            invariant
                                nv.len() == n_len,
                                j + rest@.len() == nv.len(),
                                forall|m: int| 0 <= m < rest@.len() ==> type_view(#[trigger] rest@[m]) == nv[j + m],
                                type_views(variants@) == type_views(before) + without_undefined(nv, j as int),
                            decreases rest.len(),
                        {
                            let v = rest.remove(0);
                            proof {
                                assert(type_view(v) == nv[j as int]);
                            }
                            if !is_undefined_type(&v) {
                                let ghost old_variants = variants@;
                                variants.push(v);
                                proof {
                                    assert(type_views(variants@) =~= type_views(old_variants).push(type_view(v)));
                                    assert(without_undefined(nv, j + 1) == without_undefined(nv, j as int).push(nv[j as int]));
                                    assert(type_views(variants@) =~= type_views(before) + without_undefined(
                                        nv,
                                        j + 1,
                                    ));
                                }
                            }
                            j = j + 1;
                        }
                        proof {
                            assert(j == nv.len());
                        }
                    },
                    _ => {
                        if !is_undefined_type(&variant) {
                            variants.push(variant);
                            proof {
                                assert(type_views(variants@) =~= union_variants(*node, i + 1));
                            }
                        }
                    },
                }
            }
            if str_eq(c.text.as_str(), "undefined") {
                has_undefined = true;
            }
            i = i + 1;
        }
        if has_undefined && variants.len() == 1 {
            let v = variants.remove(0);
            TypeNode::Optional(Box::new(v))
        } else {
            let r = TypeNode::Union(variants);
            proof {
                assert(r@->Union_0 =~= type_views(variants@));
            }
            r
        }
    }

    /// The properties of an object type.
    fn visit_type_properties(&self, node: &SyntaxNode) -> (r: Vec<ObjectProperty>)
        ensures
            property_views(r@) == type_properties(*node, node.children@.len() as int),
        decreases node, 1nat,
    {
        let mut props: Vec<ObjectProperty> = Vec::new();
        let mut i: usize = 0;
        while i < node.children.len()
            invariant
                i <= node.children@.len(),
                property_views(props@) == type_properties(*node, i as int),
            decreases node.children.len() - i,
        {
            let c = &node.children[i];
            proof {
                assert(decreases_to!(*node => node.children@[i as int]));
            }
            if str_eq(c.kind.as_str(), "property_signature") {
                match self.visit_property_signature(c) {
                    Some(p) => {
                        props.push(p);
                        proof {
                            assert(property_views(props@) =~= type_properties(*node, i + 1));
                        }
                    },
                    None => {},
                }
            }
            i = i + 1;
        }
        props
    }

    /// Reads a property signature; None where it has no name.
    pub fn visit_property_signature(&self, node: &SyntaxNode) -> (r: Option<ObjectProperty>)
        ensures
            match r {
                Some(p) => spec_property_signature(*node) == Some((p.name@, type_view(p.type_node), p.optional)),
                None => spec_property_signature(*node) is None,
            },
        decreases node, 2nat,
    {
        let mut name = String::new();
        let mut type_node = primitive("unknown");
        let mut optional = false;
        let mut i: usize = 0;
        while i < node.children.len()
            invariant
                i <= node.children@.len(),
                signature_scan(*node, i as int) == (name@, type_node@, optional),
            decreases node.children.len() - i,
        {
            let c = &node.children[i];
            proof {
                assert(decreases_to!(*node => node.children@[i as int]));
            }
            let ck = c.kind.as_str();
            if str_eq(ck, "property_identifier") {
                name = c.text.clone();
            } else if str_eq(ck, "?") {
                optional = true;
            } else if str_eq(ck, "type_annotation") {
                match self.visit_type_annotation(c) {
                    Some(t) => {
                        type_node = t;
                    },
                    None => {},
                }
            }
            i = i + 1;
        }
        if name.unicode_len() == 0 {
            return None;
        }
        Some(ObjectProperty { name, type_node, optional })
    }

    /// The type of a type annotation: its first child that is not `:`.
    pub fn visit_type_annotation(&self, node: &SyntaxNode) -> (r: Option<TypeNode>)
        ensures
            match r {
                Some(t) => annotation_type(*node) == Some(t@),
                None => annotation_type(*node) is None,
            },
        decreases node, 2nat,
    {
        let i = first_child_not(node, ":", ":");
        if i < node.children.len() {
            proof {
                assert(decreases_to!(*node => node.children@[i as int]));
            }
            Some(self.visit_type_node(&node.children[i]))
        } else {
            None
        }
    }
}

} // verus!
