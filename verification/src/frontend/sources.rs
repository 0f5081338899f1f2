//! The TypeScript frontend: parses the sources of a domain directory and
//! converts them to the IR. Finding and reading the files is the caller's.

use vstd::prelude::*;

use crate::diagnostic::CompilerError;
use crate::frontend::ast::{declarations_view, DeclarationsView, ParsedFile, TypeAlias, TypeNode};
use crate::frontend::domain::{converted_domain, files_aliases_ok, files_ok, to_ir};
use crate::frontend::parse_decl::spec_program;
use crate::frontend::parser::{is_syntax_error, SyntaxErrorView, TypeScriptParser};
use crate::frontend::projection::{class_methods_ok, class_ok};
use crate::frontend::syntax::spec_typescript_syntax;
use crate::frontend::to_ir::{alias_ok, method_ok, type_ok};
use crate::ir::DomainIR;
use crate::text::{str_eq, to_owned_string};

verus! {

// ---------------------------------------------------------------------------
// Well-formed annotations
// ---------------------------------------------------------------------------

/// Whether a type is free of empty unions.
pub fn check_type_ok(t: &TypeNode) -> (r: bool)
    ensures
        r == type_ok(*t),
    decreases t,
{
    match t {
        TypeNode::Primitive(_) => true,
        TypeNode::Reference(_) => true,
        TypeNode::Array(inner) => check_type_ok(inner),
        TypeNode::Optional(inner) => check_type_ok(inner),
        TypeNode::IndexSignature { value_type, .. } => check_type_ok(value_type),
        TypeNode::Union(ms) => {
            if ms.len() == 0 {
                return false;
            }
            let mut i: usize = 0;
            while i < ms.len()
                invariant
                    i <= ms@.len(),
                    *t == TypeNode::Union(*ms),
                    forall|k: int| 0 <= k < i ==> type_ok(#[trigger] ms@[k]),
                decreases ms.len() - i,
            {
                proof {
                    let ghost tt = *t;
                    assert(decreases_to!(tt => tt->Union_0@[i as int]));
                }
                if !check_type_ok(&ms[i]) {
                    return false;
                }
                i = i + 1;
            }
            true
        },
        TypeNode::ObjectLiteral(ps) => {
            let mut i: usize = 0;
            while i < ps.len()
                invariant
                    i <= ps@.len(),
                    *t == TypeNode::ObjectLiteral(*ps),
                    forall|k: int| 0 <= k < i ==> type_ok(#[trigger] ps@[k].type_node),
                decreases ps.len() - i,
            {
                proof {
                    let ghost tt = *t;
                    assert(decreases_to!(tt => tt->ObjectLiteral_0@[i as int].type_node));
                }
                if !check_type_ok(&ps[i].type_node) {
                    return false;
                }
                i = i + 1;
            }
            true
        },
    }
}

fn check_opt_type_ok(t: &Option<TypeNode>) -> (r: bool)
    ensures
        r == match *t {
            Some(t) => type_ok(t),
            None => true,
        },
{
    match t {
        Some(t) => check_type_ok(t),
        None => true,
    }
}

proof fn lemma_alias_ok_of_type_ok(a: TypeAlias)
    requires
        type_ok(a.type_node),
    ensures
        alias_ok(a),
{
    match a.type_node {
        TypeNode::Union(ms) => {
            assert forall|k: int| 0 <= k < ms@.len() implies match #[trigger] ms@[k] {
                TypeNode::ObjectLiteral(ps) => crate::frontend::to_ir::props_ok(ps@),
                _ => true,
            } by {
                assert(type_ok(ms@[k]));
            }
        },
        _ => {},
    }
}

fn check_method_ok(m: &crate::frontend::ast::MethodDecl) -> (r: bool)
    ensures
        r == method_ok(*m),
{
    let mut j: usize = 0;
    while j < m.parameters.len()
        invariant
            j <= m.parameters@.len(),
            forall|q: int|
                0 <= q < j ==> match #[trigger] m.parameters@[q].type_node {
                    Some(t) => type_ok(t),
                    None => true,
                },
        decreases m.parameters.len() - j,
    {
        if !check_opt_type_ok(&m.parameters[j].type_node) {
            return false;
        }
        j = j + 1;
    }
    check_opt_type_ok(&m.return_type)
}

fn check_class_ok(c: &crate::frontend::ast::ClassDecl) -> (r: bool)
    ensures
        r == class_ok(*c),
{
    let mut i: usize = 0;
    while i < c.methods.len()
        invariant
            i <= c.methods@.len(),
            forall|k: int| 0 <= k < i ==> method_ok(#[trigger] c.methods@[k]),
        decreases c.methods.len() - i,
    {
        if !check_method_ok(&c.methods[i]) {
            return false;
        }
        i = i + 1;
    }
    assert(class_methods_ok(*c));
    let mut p: usize = 0;
    while p < c.properties.len()
        invariant
            p <= c.properties@.len(),
            class_methods_ok(*c),
            forall|k: int|
                0 <= k < p ==> match #[trigger] c.properties@[k].type_node {
                    Some(t) => type_ok(t),
                    None => true,
                },
        decreases c.properties.len() - p,
    {
        if !check_opt_type_ok(&c.properties[p].type_node) {
            return false;
        }
        p = p + 1;
    }
    true
}

fn check_file_ok(file: &ParsedFile) -> (r: bool)
    ensures
        r == ((forall|k: int| 0 <= k < file.type_aliases@.len() ==> alias_ok(#[trigger] file.type_aliases@[k]))
            && (forall|k: int| 0 <= k < file.classes@.len() ==> class_ok(#[trigger] file.classes@[k]))),
{
    let mut k: usize = 0;
    while k < file.type_aliases.len()
        invariant
            k <= file.type_aliases@.len(),
            forall|q: int| 0 <= q < k ==> alias_ok(#[trigger] file.type_aliases@[q]),
        decreases file.type_aliases.len() - k,
    {
        if !check_type_ok(&file.type_aliases[k].type_node) {
            return false;
        }
        proof {
            lemma_alias_ok_of_type_ok(file.type_aliases@[k as int]);
        }
        k = k + 1;
    }
    let mut k2: usize = 0;
    while k2 < file.classes.len()
        invariant
            k2 <= file.classes@.len(),
            forall|q: int| 0 <= q < file.type_aliases@.len() ==> alias_ok(#[trigger] file.type_aliases@[q]),
            forall|q: int| 0 <= q < k2 ==> class_ok(#[trigger] file.classes@[q]),
        decreases file.classes.len() - k2,
    {
        if !check_class_ok(&file.classes[k2]) {
            return false;
        }
        k2 = k2 + 1;
    }
    true
}

/// Whether every type of every file is free of empty unions.
pub fn check_files_ok(files: &Vec<ParsedFile>) -> (r: bool)
    ensures
        r == files_ok(files@),
{
    let mut f: usize = 0;
    while f < files.len()
        invariant
            f <= files@.len(),
            forall|g: int, k: int|
                0 <= g < f && 0 <= k < files@[g].type_aliases@.len() ==> alias_ok(
                    #[trigger] files@[g].type_aliases@[k],
                ),
            forall|g: int, k: int|
                0 <= g < f && 0 <= k < files@[g].classes@.len() ==> class_ok(#[trigger] files@[g].classes@[k]),
        decreases files.len() - f,
    {
        if !check_file_ok(&files[f]) {
            return false;
        }
        f = f + 1;
    }
    true
}

// ---------------------------------------------------------------------------
// The frontend
// ---------------------------------------------------------------------------

/// Whether `files` are the parsed `sources` (pairs of path and text), in
/// order: each has the path of its source and the declarations of its syntax
/// tree.
pub open spec fn parsed_from(files: Seq<ParsedFile>, sources: Seq<(String, String)>) -> bool {
    &&& files.len() == sources.len()
    &&& forall|k: int|
        0 <= k < sources.len() ==> (#[trigger] files[k]).path@ == sources[k].0@ && spec_program(
            spec_typescript_syntax(sources[k].1@),
            sources[k].0@,
        ) == Ok::<DeclarationsView, SyntaxErrorView>(declarations_view(files[k]))
}

/// Whether parsing the source (path, text) gives the error `e`: the syntax
/// error of its tree.
pub open spec fn source_fails(source: (String, String), e: CompilerError) -> bool {
    spec_program(spec_typescript_syntax(source.1@), source.0@) is Err && is_syntax_error(
        e,
        spec_program(spec_typescript_syntax(source.1@), source.0@)->Err_0,
    )
}

/// A language frontend.
pub trait Frontend {
    /// The language name.
    fn language(&self) -> &'static str;

    /// The file extensions the frontend reads.
    fn extensions(&self) -> Vec<&'static str>;

    /// Parses the sources of a domain directory (pairs of path and text) and
    /// converts them to the IR; none where a parsed type holds an empty
    /// union, which the conversion cannot handle.
    fn parse_sources(&mut self, sources: &Vec<(String, String)>, source_dir: &str) -> Option<
        Result<DomainIR, CompilerError>,
    >;
}

/// The TypeScript frontend.
pub struct TypeScriptFrontend {
    parser: TypeScriptParser,
}

impl TypeScriptFrontend {
    /// A TypeScript frontend; it always comes up, as its parser does.
    pub fn new() -> (r: Result<TypeScriptFrontend, CompilerError>)
        ensures
            r is Ok,
    {
        match TypeScriptParser::new() {
            Ok(parser) => Ok(TypeScriptFrontend { parser }),
            Err(e) => Err(e),
        }
    }
}

impl Frontend for TypeScriptFrontend {
    fn language(&self) -> (r: &'static str)
        ensures
            r@ == "typescript"@,
    {
        "typescript"
    }

    fn extensions(&self) -> (r: Vec<&'static str>)
        ensures
            r@.len() == 2,
            r@[0]@ == "ts"@,
            r@[1]@ == "tsx"@,
    {
        let mut v: Vec<&'static str> = Vec::new();
        v.push("ts");
        v.push("tsx");
        v
    }

    fn parse_sources(&mut self, sources: &Vec<(String, String)>, source_dir: &str) -> (r: Option<
        Result<DomainIR, CompilerError>,
    >)
        ensures
            match r {
                None => exists|files: Seq<ParsedFile>| #[trigger] parsed_from(files, sources@) && !files_ok(files),
                Some(Err(e)) => (exists|k: int|
                    0 <= k < sources@.len() && (forall|j: int|
                        0 <= j < k ==> spec_program(
                            spec_typescript_syntax(#[trigger] sources@[j].1@),
                            sources@[j].0@,
                        ) is Ok) && #[trigger] source_fails(sources@[k], e)) || (exists|files: Seq<ParsedFile>|
                    #[trigger] parsed_from(files, sources@) && files_ok(files) && converted_domain(
                        files,
                        source_dir@,
                        Err(e),
                    )),
                Some(Ok(d)) => exists|files: Seq<ParsedFile>|
                    #[trigger] parsed_from(files, sources@) && files_ok(files) && converted_domain(
                        files,
                        source_dir@,
                        Ok(d),
                    ),
            },
    {
        let mut parsed: Vec<ParsedFile> = Vec::new();
        let mut i: usize = 0;
        while i < sources.len()
            invariant
                i <= sources@.len(),
                parsed@.len() == i,
                forall|k: int|
                    0 <= k < i ==> (#[trigger] parsed@[k]).path@ == sources@[k].0@ && spec_program(
                        spec_typescript_syntax(sources@[k].1@),
                        sources@[k].0@,
                    ) == Ok::<DeclarationsView, SyntaxErrorView>(declarations_view(parsed@[k])),
            decreases sources.len() - i,
        {
            let (path, source) = (&sources[i].0, &sources[i].1);
            match self.parser.parse(source.as_str(), path.as_str()) {
                Ok(f) => {
                    parsed.push(f);
                },
                Err(e) => {
                    proof {
                        assert forall|j: int| 0 <= j < i implies spec_program(
                            spec_typescript_syntax(#[trigger] sources@[j].1@),
                            sources@[j].0@,
                        ) is Ok by {
                            assert(parsed@[j].path@ == sources@[j].0@);
                        }
                        assert(source_fails(sources@[i as int], e));
                    }
                    return Some(Err(e));
                },
            }
            i = i + 1;
        }
        proof {
            assert(parsed_from(parsed@, sources@));
        }
        if !check_files_ok(&parsed) {
            return None;
        }
        Some(to_ir(parsed.as_slice(), to_owned_string(source_dir)))
    }
}

/// The frontend of a language: TypeScript for `typescript` or `ts`;
/// `UnsupportedLanguage` for any other.
pub fn create_frontend(language: &str) -> (r: Result<TypeScriptFrontend, CompilerError>)
    ensures
        (language@ == "typescript"@ || language@ == "ts"@) ==> r is Ok,
        !(language@ == "typescript"@ || language@ == "ts"@) ==> (r matches Err(CompilerError::UnsupportedLanguage {
            language: l,
        }) && l@ == language@),
{
    if str_eq(language, "typescript") || str_eq(language, "ts") {
        TypeScriptFrontend::new()
    } else {
        Err(CompilerError::UnsupportedLanguage { language: to_owned_string(language) })
    }
}

} // verus!
