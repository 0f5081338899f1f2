pub mod ts_types;
pub mod aggregate;
pub mod events;
pub mod orchestrator;
pub mod project;
pub mod projection;
pub mod router;
pub mod state;
pub mod handlers;
pub mod validators;
pub mod runtime;

use vstd::prelude::*;

use crate::codegen::handlers::{generate_handlers, spec_generate_handlers};
use crate::codegen::orchestrator::{generate_orchestrator, spec_generate_orchestrator};
use crate::codegen::project::{generate_generated_index, spec_generated_index};
use crate::codegen::projection::file_views;
use crate::codegen::router::{generate_router, spec_generate_router};
use crate::codegen::ts_types::{spec_snake_case, to_snake_case};
use crate::codegen::validators::{generate_validators, spec_generate_validators};
use crate::diagnostic::CompilerError;
use crate::ir::DomainIR;

verus! {

/// Generated TypeScript code: each file's path and content.
pub struct GeneratedCode {
    pub files: Vec<(String, String)>,
}

/// The validator and handlers files of the `k`-th aggregate.
pub open spec fn spec_aggregate_files(d: DomainIR, dip: Seq<char>, k: int) -> Seq<(Seq<char>, Seq<char>)> {
    let a = d.aggregates@[k];
    let snake = spec_snake_case(a.name@);
    seq![
        ("validators/"@ + snake + ".validator.ts"@, spec_generate_validators(a)),
        ("handlers/"@ + snake + ".handlers.ts"@, spec_generate_handlers(a, dip)),
    ]
}

/// The file of the `k`-th orchestrator.
pub open spec fn spec_orchestrator_file(d: DomainIR, k: int) -> (Seq<char>, Seq<char>) {
    let o = d.orchestrators@[k];
    ("orchestrators/"@ + spec_snake_case(o.name@) + ".orchestrator.ts"@, spec_generate_orchestrator(o))
}

/// The names of the domain's aggregates.
pub open spec fn aggregate_names(d: DomainIR) -> Seq<String> {
    d.aggregates@.map_values(|a: crate::ir::aggregate::AggregateIR| a.name)
}

/// Everything `generate` writes: per aggregate its validator and handlers, per
/// orchestrator its module, then the router, the index and the runtime modules.
pub open spec fn spec_generate(d: DomainIR, dip: Seq<char>, runtime: Seq<(Seq<char>, Seq<char>)>) -> Seq<
    (Seq<char>, Seq<char>),
> {
    Seq::new(d.aggregates@.len(), |k: int| spec_aggregate_files(d, dip, k)).flatten()
        + Seq::new(d.orchestrators@.len(), |k: int| spec_orchestrator_file(d, k))
        + seq![("router.ts"@, spec_generate_router(d)), ("index.ts"@, spec_generated_index(aggregate_names(d), dip))]
        + runtime
}

fn push_aggregate_files(files: &mut Vec<(String, String)>, d: &DomainIR, k: usize, dip: &str)
    requires
        k < d.aggregates@.len(),
    ensures
        file_views(final(files)@) == file_views(old(files)@) + spec_aggregate_files(*d, dip@, k as int),
{
    let a = &d.aggregates[k];
    let snake = to_snake_case(a.name.as_str());
    let mut vpath = crate::text::to_owned_string("validators/");
    vpath.append(snake.as_str());
    vpath.append(".validator.ts");
    let mut hpath = crate::text::to_owned_string("handlers/");
    hpath.append(snake.as_str());
    hpath.append(".handlers.ts");
    let v = generate_validators(a, dip);
    let h = generate_handlers(a, dip);
    files.push((vpath, v));
    files.push((hpath, h));
    proof {
        assert(file_views(files@) =~= file_views(old(files)@) + spec_aggregate_files(*d, dip@, k as int));
    }
}

/// Generates the wiring code of a domain: validators, handlers, orchestrators,
/// the router and the index, followed by the runtime modules as given (path,
/// content). `domain_import_path` is the path from the generated handlers
/// directory to the domain's source directory.
#[verifier::rlimit(50)]
pub fn generate(domain: &DomainIR, domain_import_path: &str, runtime: &Vec<(String, String)>) -> (r: Result<
    GeneratedCode,
    CompilerError,
>)
    ensures
        r matches Ok(code) && file_views(code.files@) == spec_generate(*domain, domain_import_path@, file_views(runtime@)),
{
    let d = domain;
    let ghost f = |k: int| spec_aggregate_files(*d, domain_import_path@, k);
    let mut files: Vec<(String, String)> = Vec::new();
    let mut i: usize = 0;
    while i < d.aggregates.len()
        invariant
            i <= d.aggregates@.len(),
            f == (|k: int| spec_aggregate_files(*d, domain_import_path@, k)),
            file_views(files@) == Seq::new(i as nat, f).flatten(),
        decreases d.aggregates.len() - i,
    {
        push_aggregate_files(&mut files, d, i, domain_import_path);
        proof {
            let prev = Seq::new(i as nat, f);
            prev.lemma_flatten_push(f(i as int));
            assert(Seq::new((i + 1) as nat, f) =~= prev.push(f(i as int)));
        }
        i = i + 1;
    }
    let ghost base = file_views(files@);
    let ghost g = |k: int| spec_orchestrator_file(*d, k);
    let mut j: usize = 0;
    while j < d.orchestrators.len()
        invariant
            j <= d.orchestrators@.len(),
            g == (|k: int| spec_orchestrator_file(*d, k)),
            file_views(files@) == base + Seq::new(j as nat, g),
        decreases d.orchestrators.len() - j,
    {
        let o = &d.orchestrators[j];
        let mut path = crate::text::to_owned_string("orchestrators/");
        let snake = to_snake_case(o.name.as_str());
        path.append(snake.as_str());
        path.append(".orchestrator.ts");
        let code = generate_orchestrator(o);
        let ghost before = files@;
        let ghost item = (path@, code@);
        files.push((path, code));
        proof {
            assert(file_views(files@) =~= file_views(before).push(item));
            assert(item == g(j as int));
            assert(base + Seq::new((j + 1) as nat, g) =~= (base + Seq::new(j as nat, g)).push(g(j as int)));
        }
        j = j + 1;
    }
    let ghost mid = file_views(files@);
    let router = generate_router(d);
    files.push((crate::text::to_owned_string("router.ts"), router));
    let mut names: Vec<String> = Vec::new();
    let mut m: usize = 0;
    while m < d.aggregates.len()
        invariant
            m <= d.aggregates@.len(),
            names@ == aggregate_names(*d).subrange(0, m as int),
        decreases d.aggregates.len() - m,
    {
        names.push(d.aggregates[m].name.clone());
        proof {
            assert(names@ =~= aggregate_names(*d).subrange(0, m + 1));
        }
        m = m + 1;
    }
    proof {
        assert(names@ =~= aggregate_names(*d));
    }
    let index = generate_generated_index(names.as_slice(), domain_import_path);
    files.push((crate::text::to_owned_string("index.ts"), index));
    let ghost before_runtime = file_views(files@);
    let mut q: usize = 0;
    while q < runtime.len()
        invariant
            q <= runtime@.len(),
            file_views(files@) == before_runtime + file_views(runtime@).subrange(0, q as int),
        decreases runtime.len() - q,
    {
        let entry = &runtime[q];
        let ghost before = files@;
        let path = entry.0.clone();
        let content = entry.1.clone();
        let ghost item = (path@, content@);
        files.push((path, content));
        proof {
            assert(file_views(files@) =~= file_views(before).push(item));
            assert(item == file_views(runtime@)[q as int]);
            assert(file_views(runtime@).subrange(0, q + 1) =~= file_views(runtime@).subrange(0, q as int).push(item));
            assert(file_views(files@) =~= before_runtime + file_views(runtime@).subrange(0, q + 1));
        }
        q = q + 1;
    }
    proof {
        assert(file_views(runtime@).subrange(0, runtime@.len() as int) =~= file_views(runtime@));
        assert(file_views(files@) =~= spec_generate(*d, domain_import_path@, file_views(runtime@)));
    }
    Ok(GeneratedCode { files })
}

} // verus!
