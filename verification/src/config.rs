//! Compiler configuration, the compiler handle and compilation results.

use vstd::prelude::*;

use crate::codegen::project::{
    generate_gitignore, generate_index_ts, generate_package_json, generate_readme, generate_tsconfig,
    spec_index_ts, spec_package_json, spec_readme, GITIGNORE, TSCONFIG,
};
use crate::codegen::projection::file_views;
use crate::codegen::{generate, spec_generate, GeneratedCode};
use crate::diagnostic::CompilerError;
use crate::ir::DomainIR;
use crate::text::to_owned_string;
use crate::validate::{is_validation_result, validate_domain};

verus! {

/// Configuration of the SpiteStack compiler.
#[derive(Debug, Clone)]
pub struct CompilerConfig {
    /// Directory containing domain source files.
    pub domain_dir: String,
    /// Directory to write generated code to.
    pub out_dir: String,
    /// Skip purity checks.
    pub skip_purity_check: bool,
    /// Source language (default: "typescript").
    pub language: String,
}

impl Default for CompilerConfig {
    fn default() -> (r: Self)
        ensures
            r.domain_dir@ == "domain"@,
            r.out_dir@ == "src/generated"@,
            !r.skip_purity_check,
            r.language@ == "typescript"@,
    {
        CompilerConfig {
            domain_dir: crate::text::to_owned_string("domain"),
            out_dir: crate::text::to_owned_string("src/generated"),
            skip_purity_check: false,
            language: crate::text::to_owned_string("typescript"),
        }
    }
}

/// The compiler: holds the configuration that drives the pipeline.
pub struct Compiler {
    pub config: CompilerConfig,
}

/// Configuration of dev mode.
#[derive(Debug, Clone)]
pub struct DevConfig {
    /// Domain source directory.
    pub domain_dir: String,
    /// Output directory.
    pub output_dir: String,
    /// Source language.
    pub language: String,
    /// Port of the dev server.
    pub port: u16,
}

impl Compiler {
    /// A compiler with the given configuration.
    pub fn new(config: CompilerConfig) -> (r: Self)
        ensures
            r.config == config,
    {
        Compiler { config }
    }
}

/// Result of a successful compilation.
#[derive(Debug)]
pub struct CompileResult {
    /// Number of aggregates compiled.
    pub aggregates: usize,
    /// Number of orchestrators compiled.
    pub orchestrators: usize,
    /// Total number of event variants across all aggregates.
    pub events: usize,
}

/// Number of event variants of the first `n` aggregates.
pub open spec fn spec_event_count(d: DomainIR, n: int) -> int
    decreases n,
{
    if n <= 0 {
        0
    } else {
        spec_event_count(d, n - 1) + d.aggregates@[n - 1].events.variants@.len()
    }
}

/// The counts a compilation of `domain` reports.
pub fn compile_result_of(domain: &DomainIR) -> (r: Option<CompileResult>)
    ensures
        match r {
            Some(c) => c.aggregates == domain.aggregates@.len()
                && c.orchestrators == domain.orchestrators@.len()
                && c.events == spec_event_count(*domain, domain.aggregates@.len() as int),
            None => spec_event_count(*domain, domain.aggregates@.len() as int) > usize::MAX,
        },
{
    let mut events: usize = 0;
    let mut i: usize = 0;
    while i < domain.aggregates.len()
        invariant
            i <= domain.aggregates@.len(),
            events == spec_event_count(*domain, i as int),
        decreases domain.aggregates.len() - i,
    {
        let n = domain.aggregates[i].events.variants.len();
        if events > usize::MAX - n {
            proof {
                lemma_event_count_monotone(*domain, i + 1, domain.aggregates@.len() as int);
            }
            return None;
        }
        events = events + n;
        i = i + 1;
    }
    Some(CompileResult {
        aggregates: domain.aggregates.len(),
        orchestrators: domain.orchestrators.len(),
        events,
    })
}

proof fn lemma_event_count_monotone(d: DomainIR, a: int, b: int)
    requires
        0 <= a <= b <= d.aggregates@.len(),
    ensures
        spec_event_count(d, a) <= spec_event_count(d, b),
    decreases b - a,
{
    if a < b {
        lemma_event_count_monotone(d, a, b - 1);
    }
}

/// What `pathdiff::diff_paths` returns for these paths: the relative path
/// from `base` to `path`, if there is one.
pub uninterp spec fn spec_diff_paths(path: Seq<char>, base: Seq<char>) -> Option<Seq<char>>;

/// Calls `pathdiff::diff_paths(path, base)` and converts the result to text.
#[verifier::external_body]
fn diff_paths(path: &str, base: &str) -> (r: Option<String>)
    ensures
        match r {
            Some(s) => spec_diff_paths(path@, base@) == Some(s@),
            None => spec_diff_paths(path@, base@) is None,
        },
{
    pathdiff::diff_paths(path, base).map(|p| p.to_string_lossy().to_string())
}

/// The import path from the generated handlers to the domain sources, given
/// both as absolute paths: their relative path, or `../../../../domain` when
/// there is none.
pub fn domain_import_path_from(domain_abs: &str, handlers_abs: &str) -> (r: String)
    ensures
        match spec_diff_paths(domain_abs@, handlers_abs@) {
            Some(p) => r@ == p,
            None => r@ == "../../../../domain"@,
        },
{
    match diff_paths(domain_abs, handlers_abs) {
        Some(p) => p,
        None => crate::text::to_owned_string("../../../../domain"),
    }
}

/// The relative path from the output directory to the database bindings
/// crate, once the monorepo root has been found.
pub fn napi_relative_path(napi_abs: &str, output_abs: &str) -> (r: Option<String>)
    ensures
        match r {
            Some(s) => spec_diff_paths(napi_abs@, output_abs@) == Some(s@),
            None => spec_diff_paths(napi_abs@, output_abs@) is None,
        },
{
    diff_paths(napi_abs, output_abs)
}

impl Compiler {
    /// The computing part of a compilation: validates the domain unless the
    /// purity check is skipped, generates the code (with the runtime modules
    /// as given) and counts what was compiled.
    pub fn build(&self, domain: &DomainIR, domain_import_path: &str, runtime: &Vec<(String, String)>) -> (r: Result<
        (GeneratedCode, CompileResult),
        CompilerError,
    >)
        requires
            spec_event_count(*domain, domain.aggregates@.len() as int) <= usize::MAX,
        ensures
            match r {
                Ok((code, counts)) => {
                    &&& file_views(code.files@) == spec_generate(*domain, domain_import_path@, file_views(runtime@))
                    &&& counts.aggregates == domain.aggregates@.len()
                    &&& counts.orchestrators == domain.orchestrators@.len()
                    &&& counts.events == spec_event_count(*domain, domain.aggregates@.len() as int)
                    &&& (self.config.skip_purity_check || is_validation_result(*domain, Ok(())))
                },
                Err(e) => !self.config.skip_purity_check && is_validation_result(*domain, Err(e)),
            },
    {
        if !self.config.skip_purity_check {
            match validate_domain(domain) {
                Err(e) => return Err(e),
                Ok(()) => {},
            }
        }
        let code = match generate(domain, domain_import_path, runtime) {
            Ok(c) => c,
            Err(e) => return Err(e),
        };
        match compile_result_of(domain) {
            Some(counts) => Ok((code, counts)),
            None => Err(CompilerError::CodegenFailed { message: crate::text::to_owned_string("event count overflow") }),
        }
    }
}

/// The generated files placed under `dir`: each path prefixed with `dir`.
pub open spec fn files_under(dir: Seq<char>, files: Seq<(Seq<char>, Seq<char>)>) -> Seq<(Seq<char>, Seq<char>)> {
    Seq::new(files.len(), |k: int| (dir + files[k].0, files[k].1))
}

/// The files of a standalone project, as paths relative to the project
/// directory with their contents: `package.json`, `tsconfig.json`,
/// `src/index.ts`, `.gitignore`, `README.md`, then the generated files under
/// `src/generated/`.
pub open spec fn spec_project_files(
    generated: Seq<(Seq<char>, Seq<char>)>,
    project_name: Seq<char>,
    port: u16,
    napi_path: Option<&str>,
) -> Seq<(Seq<char>, Seq<char>)> {
    seq![
        ("package.json"@, spec_package_json(project_name, napi_path)),
        ("tsconfig.json"@, TSCONFIG@),
        ("src/index.ts"@, spec_index_ts(port, project_name)),
        (".gitignore"@, GITIGNORE@),
        ("README.md"@, spec_readme(project_name)),
    ] + files_under("src/generated/"@, generated)
}

/// The generated files placed under `dir`, in order.
pub fn place_files_under(dir: &str, files: &Vec<(String, String)>, out: &mut Vec<(String, String)>)
    ensures
        file_views(final(out)@) == file_views(old(out)@) + files_under(dir@, file_views(files@)),
{
    let ghost start = file_views(out@);
    let mut i: usize = 0;
    while i < files.len()
        invariant
            i <= files@.len(),
            file_views(out@) == start + files_under(dir@, file_views(files@.subrange(0, i as int))),
        decreases files.len() - i,
    {
        let mut path = to_owned_string(dir);
        path.append(files[i].0.as_str());
        let ghost before = out@;
        out.push((path, files[i].1.clone()));
        proof {
            assert(file_views(out@) =~= file_views(before).push((dir@ + files@[i as int].0@, files@[i as int].1@)));
            assert(files_under(dir@, file_views(files@.subrange(0, i + 1))) =~= files_under(
                dir@,
                file_views(files@.subrange(0, i as int)),
            ).push((dir@ + files@[i as int].0@, files@[i as int].1@)));
        }
        i = i + 1;
    }
    proof {
        assert(files@.subrange(0, files@.len() as int) =~= files@);
    }
}

impl Compiler {
    /// The files of a standalone project built from the generated code:
    /// `package.json` (depending on the database package at `napi_path` when
    /// given), `tsconfig.json`, `src/index.ts` serving on `port`,
    /// `.gitignore`, `README.md`, and the generated files under
    /// `src/generated/`; paths are relative to the project directory.
    pub fn project_files(
        &self,
        generated: &GeneratedCode,
        project_name: &str,
        port: u16,
        napi_path: Option<&str>,
    ) -> (r: Vec<(String, String)>)
        ensures
            file_views(r@) == spec_project_files(file_views(generated.files@), project_name@, port, napi_path),
    {
        let mut out: Vec<(String, String)> = Vec::new();
        out.push((to_owned_string("package.json"), generate_package_json(project_name, napi_path)));
        out.push((to_owned_string("tsconfig.json"), to_owned_string(generate_tsconfig())));
        out.push((to_owned_string("src/index.ts"), generate_index_ts(port, project_name)));
        out.push((to_owned_string(".gitignore"), to_owned_string(generate_gitignore())));
        out.push((to_owned_string("README.md"), generate_readme(project_name)));
        let ghost head = file_views(out@);
        place_files_under("src/generated/", &generated.files, &mut out);
        proof {
            assert(head =~= seq![
                ("package.json"@, spec_package_json(project_name@, napi_path)),
                ("tsconfig.json"@, TSCONFIG@),
                ("src/index.ts"@, spec_index_ts(port, project_name@)),
                (".gitignore"@, GITIGNORE@),
                ("README.md"@, spec_readme(project_name@)),
            ]);
        }
        out
    }

    /// The files a recompilation of the domain writes: the generated files
    /// under `src/generated/`, relative to the project directory.
    pub fn domain_files(&self, generated: &GeneratedCode) -> (r: Vec<(String, String)>)
        ensures
            file_views(r@) == files_under("src/generated/"@, file_views(generated.files@)),
    {
        let mut out: Vec<(String, String)> = Vec::new();
        proof {
            assert(file_views(out@) =~= Seq::<(Seq<char>, Seq<char>)>::empty());
        }
        place_files_under("src/generated/", &generated.files, &mut out);
        proof {
            assert(Seq::<(Seq<char>, Seq<char>)>::empty() + files_under(
                "src/generated/"@,
                file_views(generated.files@),
            ) =~= files_under("src/generated/"@, file_views(generated.files@)));
        }
        out
    }
}

} // verus!
