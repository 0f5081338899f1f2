//! Scaffolding of the Bun project that hosts the generated code.

use vstd::prelude::*;

use crate::codegen::ts_types::{spec_snake_case, to_snake_case};
use crate::text::{lemma_flatten_new_step, seq_flatten, seq_starts_with, spec_nat_decimal, starts_with};

verus! {

pub const PKG_0: &'static str = r#"{
  "name": ""#;
pub const PKG_1: &'static str = r#"",
  "type": "module",
  "scripts": {
    "dev": "bun run --hot src/index.ts",
    "build": "bun build src/index.ts --outdir dist --target bun",
    "start": "bun run dist/index.js",
    "typecheck": "tsc --noEmit"
  },
  "dependencies": {
    "#;
pub const PKG_2: &'static str = r#"
  },
  "devDependencies": {
    "@types/bun": "latest",
    "typescript": "^5.0.0"
  }
}
"#;

/// The dependency line of the database package: a `file:` reference to a local
/// checkout when one is given, else the workspace version.
pub open spec fn spec_db_dep(path: Option<&str>) -> Seq<char> {
    match path {
        Some(p) => "\"@spitestack/db\": \"file:"@ + p@ + "\""@,
        None => "\"@spitestack/db\": \"workspace:*\""@,
    }
}

/// The `package.json` of the project.
pub open spec fn spec_package_json(name: Seq<char>, spitedb_napi_path: Option<&str>) -> Seq<char> {
    PKG_0@ + name + PKG_1@ + spec_db_dep(spitedb_napi_path) + PKG_2@
}

/// Generates `package.json` for the project. With `spitedb_napi_path` the
/// database package is a `file:` reference, else `workspace:*`.
pub fn generate_package_json(name: &str, spitedb_napi_path: Option<&str>) -> (r: String)
    ensures
        r@ == spec_package_json(name@, spitedb_napi_path),
{
    let dep = match spitedb_napi_path {
        Some(path) => {
            let mut d = crate::text::to_owned_string("\"@spitestack/db\": \"file:");
            d.append(path);
            d.append("\"");
            d
        },
        None => crate::text::to_owned_string("\"@spitestack/db\": \"workspace:*\""),
    };
    let mut out = crate::text::to_owned_string(PKG_0);
    out.append(name);
    out.append(PKG_1);
    out.append(dep.as_str());
    out.append(PKG_2);
    out
}

/// Whether a `package.json` is that of the monorepo root: it declares
/// workspaces and names the database bindings crate.
pub open spec fn spec_is_monorepo_manifest(content: Seq<char>) -> bool {
    crate::text::seq_contains(content, "\"workspaces\""@) && crate::text::seq_contains(
        content,
        "crates/spitedb-napi"@,
    )
}

/// Decides whether a `package.json` marks the monorepo root.
pub fn is_monorepo_manifest(content: &str) -> (r: bool)
    ensures
        r == spec_is_monorepo_manifest(content@),
{
    crate::text::contains(content, "\"workspaces\"") && crate::text::contains(content, "crates/spitedb-napi")
}

pub const TSCONFIG: &'static str = r#"{
  "compilerOptions": {
    "target": "ESNext",
    "module": "ESNext",
    "moduleResolution": "bundler",
    "strict": true,
    "skipLibCheck": true,
    "noEmit": true,
    "esModuleInterop": true,
    "allowSyntheticDefaultImports": true,
    "resolveJsonModule": true,
    "isolatedModules": true,
    "types": ["bun-types"]
  },
  "include": ["src/**/*"]
}
"#;

/// Generates `tsconfig.json` for the project.
pub fn generate_tsconfig() -> (r: &'static str)
    ensures
        r@ == TSCONFIG@,
{
    TSCONFIG
}

pub const IDX_0: &'static str = r#"import { SpiteDbNapi, TelemetryDbNapi } from '@spitestack/db';
import { mkdir } from 'node:fs/promises';
import { createRouter } from './generated/router';

const eventsDir = './data/events';
const telemetryDir = './data/telemetry';

// Ensure data directories exist
await mkdir(eventsDir, { recursive: true });
await mkdir(telemetryDir, { recursive: true });

const db = await SpiteDbNapi.open(`${eventsDir}/"#;
pub const IDX_1: &'static str = r#".db`);
const telemetry = await TelemetryDbNapi.open(telemetryDir, { appName: '"#;
pub const IDX_2: &'static str = r#"' });
const router = createRouter({ db, telemetry, tenant: 'default' });

const server = Bun.serve({
  port: "#;
pub const IDX_3: &'static str = r#",
  fetch: router,
});

console.log(`🚀 SpiteStack server running at http://localhost:${server.port}`);

// Best-effort startup telemetry
void telemetry.writeBatch([{
  tsMs: Date.now(),
  kind: 'Log',
  tenantId: 'default',
  severity: 1,
  message: 'server.start',
  attrsJson: JSON.stringify({
    port: server.port,
    env: process.env.NODE_ENV ?? 'dev',
  }),
}]).catch(() => {});

process.on('SIGINT', () => {
  void telemetry.writeBatch([{
    tsMs: Date.now(),
    kind: 'Log',
    tenantId: 'default',
    severity: 1,
    message: 'server.stop',
  }]).finally(() => process.exit(0));
});
"#;

/// The server entry point `src/index.ts`.
pub open spec fn spec_index_ts(port: u16, app_name: Seq<char>) -> Seq<char> {
    IDX_0@ + app_name + IDX_1@ + app_name + IDX_2@ + spec_nat_decimal(port as nat) + IDX_3@
}

/// Generates the `src/index.ts` entry point.
pub fn generate_index_ts(port: u16, app_name: &str) -> (r: String)
    ensures
        r@ == spec_index_ts(port, app_name@),
{
    let port_text = crate::text::u64_to_string(port as u64);
    let mut out = crate::text::to_owned_string(IDX_0);
    out.append(app_name);
    out.append(IDX_1);
    out.append(app_name);
    out.append(IDX_2);
    out.append(port_text.as_str());
    out.append(IDX_3);
    out
}

pub const GITIGNORE: &'static str = r#"node_modules/
dist/
data/
*.db
*.db-shm
*.db-wal
.env
"#;

/// Generates `.gitignore` for the project.
pub fn generate_gitignore() -> (r: &'static str)
    ensures
        r@ == GITIGNORE@,
{
    GITIGNORE
}

pub const RDM_0: &'static str = "# ";
pub const RDM_1: &'static str = r#"

This is a generated SpiteStack project. Do not edit files in `src/generated/` directly.

## Development

```bash
# Start the development server (with hot reload)
spitestack dev

# Or run manually
bun run dev
```

## Build

```bash
bun run build
bun run start
```

## Structure

- `src/index.ts` - Server entry point
- `src/generated/` - Generated domain code (do not edit)
- `../domain/` - Source TypeScript domain logic
"#;

/// The README of the project.
pub open spec fn spec_readme(name: Seq<char>) -> Seq<char> {
    RDM_0@ + name + RDM_1@
}

/// Generates the README of the project.
pub fn generate_readme(name: &str) -> (r: String)
    ensures
        r@ == spec_readme(name@),
{
    let mut out = crate::text::to_owned_string(RDM_0);
    out.append(name);
    out.append(RDM_1);
    out
}

/// The domain import path as seen from the directory above the handlers: one
/// leading `../` fewer.
pub open spec fn spec_adjusted_path(dip: Seq<char>) -> Seq<char> {
    if seq_starts_with(dip, "../"@) {
        dip.subrange(3, dip.len() as int)
    } else {
        dip
    }
}

/// The re-exports of one aggregate: its source modules, its validator and its handlers.
pub open spec fn spec_index_exports(agg: Seq<char>, adjusted: Seq<char>) -> Seq<char> {
    let snake = spec_snake_case(agg);
    "export * from '"@ + adjusted + "/"@ + agg + "/events';\n"@
        + "export * from '"@ + adjusted + "/"@ + agg + "/state';\n"@
        + "export * from '"@ + adjusted + "/"@ + agg + "/aggregate';\n"@
        + "export * from './validators/"@ + snake + ".validator';\n"@
        + "export * from './handlers/"@ + snake + ".handlers';\n"@
}

/// The `index.ts` of the generated directory.
pub open spec fn spec_generated_index(aggregates: Seq<String>, dip: Seq<char>) -> Seq<char> {
    let adjusted = spec_adjusted_path(dip);
    "// Re-export user's domain types and generated wiring\n\n"@
        + seq_flatten(Seq::new(aggregates.len(), |k: int| spec_index_exports(aggregates[k]@, adjusted)))
        + "\nexport * from './router';\n"@
}

fn index_exports(agg: &str, adjusted: &str) -> (r: String)
    ensures
        r@ == spec_index_exports(agg@, adjusted@),
{
    let snake = to_snake_case(agg);
    let mut out = crate::text::to_owned_string("export * from '");
    out.append(adjusted);
    out.append("/");
    out.append(agg);
    out.append("/events';\n");
    out.append("export * from '");
    out.append(adjusted);
    out.append("/");
    out.append(agg);
    out.append("/state';\n");
    out.append("export * from '");
    out.append(adjusted);
    out.append("/");
    out.append(agg);
    out.append("/aggregate';\n");
    out.append("export * from './validators/");
    out.append(snake.as_str());
    out.append(".validator';\n");
    out.append("export * from './handlers/");
    out.append(snake.as_str());
    out.append(".handlers';\n");
    out
}

/// Generates the `index.ts` that re-exports the domain's source modules and the
/// generated wiring of each aggregate.
pub fn generate_generated_index(aggregates: &[String], domain_import_path: &str) -> (r: String)
    ensures
        r@ == spec_generated_index(aggregates@, domain_import_path@),
{
    let adjusted = if starts_with(domain_import_path, "../") {
        proof {
            reveal_strlit("../");
        }
        domain_import_path.substring_char(3, domain_import_path.unicode_len())
    } else {
        domain_import_path
    };
    let ghost f = |k: int| spec_index_exports(aggregates@[k]@, adjusted@);
    let mut body = String::new();
    let mut i: usize = 0;
    while i < aggregates.len()
        invariant
            i <= aggregates@.len(),
            f == (|k: int| spec_index_exports(aggregates@[k]@, adjusted@)),
            body@ == seq_flatten(Seq::new(i as nat, f)),
        decreases aggregates.len() - i,
    {
        let e = index_exports(aggregates[i].as_str(), adjusted);
        body.append(e.as_str());
        proof {
            lemma_flatten_new_step(f, i as int);
        }
        i = i + 1;
    }
    let mut out = crate::text::to_owned_string("// Re-export user's domain types and generated wiring\n\n");
    out.append(body.as_str());
    out.append("\nexport * from './router';\n");
    out
}

} // verus!
