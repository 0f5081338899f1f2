//! The App registration of a domain's `index.ts`: the access configuration of
//! aggregates and orchestrators, written in the style
//!
//! ```text
//! const app = new App({ mode: 'production', apiVersioning: true });
//! app.register(OrderAggregate, {
//!   access: 'private',
//!   roles: ['user'],
//!   methods: { create: { access: 'public' }, cancel: { access: 'internal', roles: ['admin'] } },
//! });
//! ```
//!
//! Keys and string values may be quoted with `"` or `'`; an unknown access
//! level reads as `internal`, an unknown mode as `greenfield`.

use vstd::prelude::*;

use crate::diagnostic::CompilerError;
use crate::frontend::syntax::{
    parse_typescript, spec_typescript_syntax, SyntaxNode,
};
use crate::ir::access::{
    spec_access_level_named, spec_app_mode_named, string_views, AccessLevel, AppConfig, AppMode,
    EntityAccessConfig, MethodAccessConfig,
};
use crate::ir::assoc::find_key;
use crate::schema::lock::{first_key_index, lemma_first_key_index, view_insert};
use crate::text::{spec_str_lowercase, spec_trim_quotes, str_eq, to_owned_string, trim_quotes};

verus! {

// ---------------------------------------------------------------------------
// Specification
// ---------------------------------------------------------------------------

/// A method's access as plain values: level and roles.
pub type MethodConfigView = (AccessLevel, Seq<Seq<char>>);

/// An entity's access as plain values: level, roles and per-method settings.
pub type EntityConfigView = (AccessLevel, Seq<Seq<char>>, Seq<(Seq<char>, MethodConfigView)>);

/// What the extractor has found: the registered entities, the variable
/// holding the App, the mode and whether API versioning is on.
pub struct AppScan {
    pub entities: Seq<(Seq<char>, EntityConfigView)>,
    pub app_var: Option<Seq<char>>,
    pub mode: AppMode,
    pub api_versioning: bool,
}

/// The first index at or after `i` of a child standing under field `name`,
/// or the number of children.
pub open spec fn first_field(cs: Seq<SyntaxNode>, name: Seq<char>, i: int) -> int
    decreases cs.len() - i,
{
    if 0 <= i < cs.len() {
        if cs[i].field matches Some(f) && f@ == name {
            i
        } else {
            first_field(cs, name, i + 1)
        }
    } else {
        cs.len() as int
    }
}

/// The first child of `n` standing under field `name`.
pub open spec fn field_node(n: SyntaxNode, name: Seq<char>) -> Option<SyntaxNode> {
    let i = first_field(n.children@, name, 0);
    if 0 <= i < n.children@.len() {
        Some(n.children@[i])
    } else {
        None
    }
}

/// The first index at or after `i` of a child of kind `k`, or the number of
/// children.
pub open spec fn first_of_kind(cs: Seq<SyntaxNode>, k: Seq<char>, i: int) -> int
    decreases cs.len() - i,
{
    if 0 <= i < cs.len() {
        if cs[i].kind@ == k {
            i
        } else {
            first_of_kind(cs, k, i + 1)
        }
    } else {
        cs.len() as int
    }
}

/// The unquoted text of a node.
pub open spec fn unquoted(n: SyntaxNode) -> Seq<char> {
    spec_trim_quotes(n.text@)
}

/// The mode a value names; `greenfield` when it names none.
pub open spec fn spec_mode_of(v: SyntaxNode) -> AppMode {
    match spec_app_mode_named(spec_str_lowercase(unquoted(v))) {
        Some(m) => m,
        None => AppMode::Greenfield,
    }
}

/// The access level a value names; `internal` when it names none.
pub open spec fn spec_access_of(v: SyntaxNode) -> AccessLevel {
    match spec_access_level_named(spec_str_lowercase(unquoted(v))) {
        Some(a) => a,
        None => AccessLevel::Internal,
    }
}

/// The non-empty unquoted strings among the first `k` children of an array.
pub open spec fn string_items(v: SyntaxNode, k: int) -> Seq<Seq<char>>
    decreases k,
{
    if k <= 0 || k > v.children@.len() {
        Seq::empty()
    } else {
        let prev = string_items(v, k - 1);
        let c = v.children@[k - 1];
        if c.kind@ == "string"@ && unquoted(c).len() > 0 {
            prev.push(unquoted(c))
        } else {
            prev
        }
    }
}

/// The roles an array lists; none for anything but an array.
pub open spec fn spec_string_array(v: SyntaxNode) -> Seq<Seq<char>> {
    if v.kind@ == "array"@ {
        string_items(v, v.children@.len() as int)
    } else {
        Seq::empty()
    }
}

/// A method's access after the first `k` pairs of its object: `access` sets
/// the level, `roles` the roles.
pub open spec fn method_pairs(v: SyntaxNode, k: int) -> MethodConfigView
    decreases k,
{
    if k <= 0 || k > v.children@.len() {
        (AccessLevel::Internal, Seq::empty())
    } else {
        let st = method_pairs(v, k - 1);
        let c = v.children@[k - 1];
        if c.kind@ == "pair"@ {
            match (field_node(c, "key"@), field_node(c, "value"@)) {
                (Some(key), Some(value)) => if unquoted(key) == "access"@ {
                    (spec_access_of(value), st.1)
                } else if unquoted(key) == "roles"@ {
                    (st.0, spec_string_array(value))
                } else {
                    st
                },
                _ => st,
            }
        } else {
            st
        }
    }
}

/// A method's access: that an object gives, `internal` without roles for
/// anything else.
pub open spec fn spec_method_config(v: SyntaxNode) -> MethodConfigView {
    if v.kind@ == "object"@ {
        method_pairs(v, v.children@.len() as int)
    } else {
        (AccessLevel::Internal, Seq::empty())
    }
}

/// The per-method settings after the first `k` pairs of a `methods` object:
/// each pair binds its unquoted key to its method's access.
pub open spec fn methods_pairs(v: SyntaxNode, k: int) -> Seq<(Seq<char>, MethodConfigView)>
    decreases k,
{
    if k <= 0 || k > v.children@.len() {
        Seq::empty()
    } else {
        let prev = methods_pairs(v, k - 1);
        let c = v.children@[k - 1];
        if c.kind@ == "pair"@ {
            match (field_node(c, "key"@), field_node(c, "value"@)) {
                (Some(key), Some(value)) => view_insert(prev, unquoted(key), spec_method_config(value)),
                _ => prev,
            }
        } else {
            prev
        }
    }
}

/// The per-method settings of a `methods` value; none for anything but an
/// object.
pub open spec fn spec_methods_config(v: SyntaxNode) -> Seq<(Seq<char>, MethodConfigView)> {
    if v.kind@ == "object"@ {
        methods_pairs(v, v.children@.len() as int)
    } else {
        Seq::empty()
    }
}

/// An entity's access after the first `k` pairs of its object: `access`,
/// `roles` and `methods` set their parts.
pub open spec fn entity_pairs(v: SyntaxNode, k: int) -> EntityConfigView
    decreases k,
{
    if k <= 0 || k > v.children@.len() {
        (AccessLevel::Internal, Seq::empty(), Seq::empty())
    } else {
        let st = entity_pairs(v, k - 1);
        let c = v.children@[k - 1];
        if c.kind@ == "pair"@ {
            match (field_node(c, "key"@), field_node(c, "value"@)) {
                (Some(key), Some(value)) => if unquoted(key) == "access"@ {
                    (spec_access_of(value), st.1, st.2)
                } else if unquoted(key) == "roles"@ {
                    (st.0, spec_string_array(value), st.2)
                } else if unquoted(key) == "methods"@ {
                    (st.0, st.1, spec_methods_config(value))
                } else {
                    st
                },
                _ => st,
            }
        } else {
            st
        }
    }
}

/// The state after a `register(Entity, { ... })` call's arguments: the first
/// identifier names the entity, bound to the access its first object gives
/// (the defaults without one).
pub open spec fn register_step(args: SyntaxNode, st: AppScan) -> AppScan {
    let cs = args.children@;
    let ni = first_of_kind(cs, "identifier"@, 0);
    let oi = first_of_kind(cs, "object"@, 0);
    if 0 <= ni < cs.len() {
        let config = if 0 <= oi < cs.len() {
            entity_pairs(cs[oi], cs[oi].children@.len() as int)
        } else {
            (AccessLevel::Internal, Seq::empty(), Seq::empty())
        };
        AppScan { entities: view_insert(st.entities, cs[ni].text@, config), ..st }
    } else {
        st
    }
}

/// The state after a call: `<app>.register(...)`, with `<app>` the variable
/// holding the App, registers an entity.
pub open spec fn call_step(c: SyntaxNode, st: AppScan) -> AppScan {
    match field_node(c, "function"@) {
        Some(func) => if func.kind@ == "member_expression"@ {
            match (field_node(func, "object"@), field_node(func, "property"@)) {
                (Some(obj), Some(prop)) => if st.app_var == Some(obj.text@) && prop.text@ == "register"@ {
                    match field_node(c, "arguments"@) {
                        Some(args) => register_step(args, st),
                        None => st,
                    }
                } else {
                    st
                },
                _ => st,
            }
        } else {
            st
        },
        None => st,
    }
}

/// The state after the first `k` children of an expression statement: each
/// call is taken in turn.
pub open spec fn statement_calls(n: SyntaxNode, k: int, st: AppScan) -> AppScan
    decreases k,
{
    if k <= 0 || k > n.children@.len() {
        st
    } else {
        let prev = statement_calls(n, k - 1, st);
        let c = n.children@[k - 1];
        if c.kind@ == "call_expression"@ {
            call_step(c, prev)
        } else {
            prev
        }
    }
}

/// The state after the first `k` pairs of the object passed to the App:
/// `mode` sets the mode, `apiVersioning` the versioning (on for `true`).
pub open spec fn app_options(n: SyntaxNode, k: int, st: AppScan) -> AppScan
    decreases k,
{
    if k <= 0 || k > n.children@.len() {
        st
    } else {
        let prev = app_options(n, k - 1, st);
        let c = n.children@[k - 1];
        if c.kind@ == "pair"@ {
            match (field_node(c, "key"@), field_node(c, "value"@)) {
                (Some(key), Some(value)) => if unquoted(key) == "mode"@ {
                    AppScan { mode: spec_mode_of(value), ..prev }
                } else if unquoted(key) == "apiVersioning"@ {
                    AppScan { api_versioning: value.text@ == "true"@, ..prev }
                } else {
                    prev
                },
                _ => prev,
            }
        } else {
            prev
        }
    }
}

/// The state after the first `k` arguments of `new App(...)`: each object
/// argument sets options.
pub open spec fn app_arguments(n: SyntaxNode, k: int, st: AppScan) -> AppScan
    decreases k,
{
    if k <= 0 || k > n.children@.len() {
        st
    } else {
        let prev = app_arguments(n, k - 1, st);
        let c = n.children@[k - 1];
        if c.kind@ == "object"@ {
            app_options(c, c.children@.len() as int, prev)
        } else {
            prev
        }
    }
}

/// The state after a declarator: `<name> = new App(...)` makes `<name>` the
/// variable holding the App and reads the options.
pub open spec fn declarator_step(d: SyntaxNode, st: AppScan) -> AppScan {
    match (field_node(d, "name"@), field_node(d, "value"@)) {
        (Some(name), Some(value)) => if value.kind@ == "new_expression"@ {
            match field_node(value, "constructor"@) {
                Some(ctor) => if ctor.text@ == "App"@ {
                    let st2 = AppScan { app_var: Some(name.text@), ..st };
                    match field_node(value, "arguments"@) {
                        Some(args) => app_arguments(args, args.children@.len() as int, st2),
                        None => st2,
                    }
                } else {
                    st
                },
                None => st,
            }
        } else {
            st
        },
        _ => st,
    }
}

/// The state after the first `k` declarators of a declaration.
pub open spec fn declaration_steps(n: SyntaxNode, k: int, st: AppScan) -> AppScan
    decreases k,
{
    if k <= 0 || k > n.children@.len() {
        st
    } else {
        let prev = declaration_steps(n, k - 1, st);
        let c = n.children@[k - 1];
        if c.kind@ == "variable_declarator"@ {
            declarator_step(c, prev)
        } else {
            prev
        }
    }
}

/// The state after the first `k` top-level statements of a program.
pub open spec fn program_steps(n: SyntaxNode, k: int, st: AppScan) -> AppScan
    decreases k,
{
    if k <= 0 || k > n.children@.len() {
        st
    } else {
        let prev = program_steps(n, k - 1, st);
        let c = n.children@[k - 1];
        if c.kind@ == "lexical_declaration"@ || c.kind@ == "variable_declaration"@ {
            declaration_steps(c, c.children@.len() as int, prev)
        } else if c.kind@ == "expression_statement"@ {
            statement_calls(c, c.children@.len() as int, prev)
        } else {
            prev
        }
    }
}

/// The state before any statement: no entity, no App, greenfield, no
/// versioning.
pub open spec fn initial_scan() -> AppScan {
    AppScan { entities: Seq::empty(), app_var: None, mode: AppMode::Greenfield, api_versioning: false }
}

/// What the App registration of a program configures: none where the program
/// neither creates an App nor registers anything.
pub open spec fn spec_app_config(root: SyntaxNode) -> Option<(AppMode, bool, Seq<(Seq<char>, EntityConfigView)>)> {
    let st = program_steps(root, root.children@.len() as int, initial_scan());
    if st.app_var is Some || st.entities.len() > 0 {
        Some((st.mode, st.api_versioning, st.entities))
    } else {
        None
    }
}

// ---------------------------------------------------------------------------
// Implementation
// ---------------------------------------------------------------------------

/// The view of a method's access.
pub open spec fn method_config_view(m: MethodAccessConfig) -> MethodConfigView {
    (m.access, string_views(m.roles@))
}

/// The views of per-method settings.
pub open spec fn methods_view(v: Seq<(String, MethodAccessConfig)>) -> Seq<(Seq<char>, MethodConfigView)> {
    Seq::new(v.len(), |k: int| (v[k].0@, method_config_view(v[k].1)))
}

/// The view of an entity's access.
pub open spec fn entity_config_view(e: EntityAccessConfig) -> EntityConfigView {
    (e.access, string_views(e.roles@), methods_view(e.methods@))
}

/// The views of registered entities.
pub open spec fn entities_view(v: Seq<(String, EntityAccessConfig)>) -> Seq<(Seq<char>, EntityConfigView)> {
    Seq::new(v.len(), |k: int| (v[k].0@, entity_config_view(v[k].1)))
}

fn insert_method(m: &mut Vec<(String, MethodAccessConfig)>, k: String, v: MethodAccessConfig)
    ensures
        methods_view(final(m)@) == view_insert(methods_view(old(m)@), k@, method_config_view(v)),
{
    let ghost old_m = m@;
    let ghost kv = k@;
    let ghost vv = method_config_view(v);
    match find_key(m, k.as_str()) {
        Some(i) => {
            m.set(i, (k, v));
            proof {
                assert forall|q: int| 0 <= q < i implies methods_view(old_m)[q].0 != kv by {
                    assert(old_m[q].0@ != kv);
                }
                lemma_first_key_index(methods_view(old_m), kv, 0, i as int);
                assert(methods_view(m@) =~= methods_view(old_m).update(i as int, (kv, vv)));
            }
        },
        None => {
            m.push((k, v));
            proof {
                assert forall|q: int| 0 <= q < old_m.len() implies methods_view(old_m)[q].0 != kv by {
                    assert(old_m[q].0@ != kv);
                }
                lemma_first_key_index(methods_view(old_m), kv, 0, old_m.len() as int);
                assert(methods_view(m@) =~= methods_view(old_m).push((kv, vv)));
            }
        },
    }
}

fn insert_entity(m: &mut Vec<(String, EntityAccessConfig)>, k: String, v: EntityAccessConfig)
    ensures
        entities_view(final(m)@) == view_insert(entities_view(old(m)@), k@, entity_config_view(v)),
{
    let ghost old_m = m@;
    let ghost kv = k@;
    let ghost vv = entity_config_view(v);
    match find_key(m, k.as_str()) {
        Some(i) => {
            m.set(i, (k, v));
            proof {
                assert forall|q: int| 0 <= q < i implies entities_view(old_m)[q].0 != kv by {
                    assert(old_m[q].0@ != kv);
                }
                lemma_first_key_index(entities_view(old_m), kv, 0, i as int);
                assert(entities_view(m@) =~= entities_view(old_m).update(i as int, (kv, vv)));
            }
        },
        None => {
            m.push((k, v));
            proof {
                assert forall|q: int| 0 <= q < old_m.len() implies entities_view(old_m)[q].0 != kv by {
                    assert(old_m[q].0@ != kv);
                }
                lemma_first_key_index(entities_view(old_m), kv, 0, old_m.len() as int);
                assert(entities_view(m@) =~= entities_view(old_m).push((kv, vv)));
            }
        },
    }
}

/// The index of the first child of `node` standing under field `name`.
pub fn field_child(node: &SyntaxNode, name: &str) -> (r: Option<usize>)
    ensures
        match r {
            Some(i) => i < node.children@.len() && field_node(*node, name@) == Some(node.children@[i as int]),
            None => field_node(*node, name@) is None,
        },
{
    let mut i: usize = 0;
    while i < node.children.len()
        invariant
            i <= node.children@.len(),
            first_field(node.children@, name@, 0) == first_field(node.children@, name@, i as int),
        decreases node.children.len() - i,
    {
        match &node.children[i].field {
            Some(f) => {
                if str_eq(f.as_str(), name) {
                    return Some(i);
                }
            },
            None => {},
        }
        i = i + 1;
    }
    None
}

/// The index of the first child of `node` of kind `k`, or the number of
/// children.
pub fn first_child_of_kind(node: &SyntaxNode, k: &str) -> (r: usize)
    ensures
        r as int == first_of_kind(node.children@, k@, 0),
        r <= node.children@.len(),
{
    let mut i: usize = 0;
    while i < node.children.len()
        invariant
            i <= node.children@.len(),
            first_of_kind(node.children@, k@, 0) == first_of_kind(node.children@, k@, i as int),
        decreases node.children.len() - i,
    {
        if str_eq(node.children[i].kind.as_str(), k) {
            return i;
        }
        i = i + 1;
    }
    i
}

/// Extracts the App configuration from the syntax tree of `index.ts`.
pub struct AppConfigExtractor {
    /// Access configurations keyed by entity name.
    pub entities: Vec<(String, EntityAccessConfig)>,
    /// The variable holding the App instance.
    pub app_var: Option<String>,
    /// Application mode.
    pub mode: AppMode,
    /// Whether API versioning is enabled.
    pub api_versioning: bool,
}

impl View for AppConfigExtractor {
    type V = AppScan;

    open spec fn view(&self) -> AppScan {
        AppScan {
            entities: entities_view(self.entities@),
            app_var: match self.app_var {
                Some(v) => Some(v@),
                None => None,
            },
            mode: self.mode,
            api_versioning: self.api_versioning,
        }
    }
}

impl AppConfigExtractor {
    /// An extractor that has seen nothing.
    pub fn new() -> (r: AppConfigExtractor)
        ensures
            r@ == initial_scan(),
    {
        let r = AppConfigExtractor { entities: Vec::new(), app_var: None, mode: AppMode::Greenfield, api_versioning: false };
        proof {
            assert(entities_view(r.entities@) =~= Seq::<(Seq<char>, EntityConfigView)>::empty());
        }
        r
    }

    /// The mode a value names; `greenfield` when it names none.
    pub fn parse_app_mode(&self, node: &SyntaxNode) -> (r: AppMode)
        ensures
            r == spec_mode_of(*node),
    {
        let text = trim_quotes(node.text.as_str());
        match AppMode::from_str(text.as_str()) {
            Some(m) => m,
            None => AppMode::Greenfield,
        }
    }

    /// Whether a value is the literal `true`.
    pub fn parse_boolean(&self, node: &SyntaxNode) -> (r: bool)
        ensures
            r == (node.text@ == "true"@),
    {
        str_eq(node.text.as_str(), "true")
    }

    /// The access level a value names; `internal` when it names none.
    pub fn parse_access_level(&self, node: &SyntaxNode) -> (r: AccessLevel)
        ensures
            r == spec_access_of(*node),
    {
        let text = trim_quotes(node.text.as_str());
        match AccessLevel::from_str(text.as_str()) {
            Some(a) => a,
            None => AccessLevel::Internal,
        }
    }

    /// The roles an array lists.
    pub fn parse_string_array(&self, node: &SyntaxNode) -> (r: Vec<String>)
        ensures
            string_views(r@) == spec_string_array(*node),
    {
        let mut out: Vec<String> = Vec::new();
        proof {
            assert(string_views(out@) =~= Seq::<Seq<char>>::empty());
        }
        if str_eq(node.kind.as_str(), "array") {
            let mut i: usize = 0;
            while i < node.children.len()
                invariant
                    i <= node.children@.len(),
                    string_views(out@) == string_items(*node, i as int),
                decreases node.children.len() - i,
            {
                let c = &node.children[i];
                if str_eq(c.kind.as_str(), "string") {
                    let value = trim_quotes(c.text.as_str());
                    if value.unicode_len() > 0 {
                        let ghost before = out@;
                        out.push(value);
                        proof {
                            assert(string_views(out@) =~= string_views(before).push(value@));
                        }
                    }
                }
                i = i + 1;
            }
        }
        out
    }

    /// A method's access settings.
    pub fn parse_method_config(&self, node: &SyntaxNode) -> (r: MethodAccessConfig)
        ensures
            method_config_view(r) == spec_method_config(*node),
    {
        let mut config = MethodAccessConfig { access: AccessLevel::Internal, roles: Vec::new() };
        proof {
            assert(string_views(config.roles@) =~= Seq::<Seq<char>>::empty());
        }
        if str_eq(node.kind.as_str(), "object") {
            let mut i: usize = 0;
            while i < node.children.len()
                invariant
                    i <= node.children@.len(),
                    method_config_view(config) == method_pairs(*node, i as int),
                decreases node.children.len() - i,
            {
                let c = &node.children[i];
                if str_eq(c.kind.as_str(), "pair") {
                    match (field_child(c, "key"), field_child(c, "value")) {
                        (Some(ki), Some(vi)) => {
                            let key = trim_quotes(c.children[ki].text.as_str());
                            if str_eq(key.as_str(), "access") {
                                config.access = self.parse_access_level(&c.children[vi]);
                            } else if str_eq(key.as_str(), "roles") {
                                config.roles = self.parse_string_array(&c.children[vi]);
                            }
                        },
                        _ => {},
                    }
                }
                i = i + 1;
            }
        }
        config
    }

    /// The per-method settings of a `methods` value.
    pub fn parse_methods_config(&self, node: &SyntaxNode) -> (r: Vec<(String, MethodAccessConfig)>)
        ensures
            methods_view(r@) == spec_methods_config(*node),
    {
        let mut methods: Vec<(String, MethodAccessConfig)> = Vec::new();
        proof {
            assert(methods_view(methods@) =~= Seq::<(Seq<char>, MethodConfigView)>::empty());
        }
        if str_eq(node.kind.as_str(), "object") {
            let mut i: usize = 0;
            while i < node.children.len()
                invariant
                    i <= node.children@.len(),
                    methods_view(methods@) == methods_pairs(*node, i as int),
                decreases node.children.len() - i,
            {
                let c = &node.children[i];
                if str_eq(c.kind.as_str(), "pair") {
                    match (field_child(c, "key"), field_child(c, "value")) {
                        (Some(ki), Some(vi)) => {
                            let name = trim_quotes(c.children[ki].text.as_str());
                            let config = self.parse_method_config(&c.children[vi]);
                            insert_method(&mut methods, name, config);
                        },
                        _ => {},
                    }
                }
                i = i + 1;
            }
        }
        methods
    }

    /// An entity's access settings.
    pub fn parse_entity_config(&self, node: &SyntaxNode) -> (r: EntityAccessConfig)
        ensures
            entity_config_view(r) == entity_pairs(*node, node.children@.len() as int),
    {
        let mut config = EntityAccessConfig { access: AccessLevel::Internal, roles: Vec::new(), methods: Vec::new() };
        proof {
            assert(string_views(config.roles@) =~= Seq::<Seq<char>>::empty());
            assert(methods_view(config.methods@) =~= Seq::<(Seq<char>, MethodConfigView)>::empty());
        }
        let mut i: usize = 0;
        while i < node.children.len()
            invariant
                i <= node.children@.len(),
                entity_config_view(config) == entity_pairs(*node, i as int),
            decreases node.children.len() - i,
        {
            let c = &node.children[i];
            if str_eq(c.kind.as_str(), "pair") {
                match (field_child(c, "key"), field_child(c, "value")) {
                    (Some(ki), Some(vi)) => {
                        let key = trim_quotes(c.children[ki].text.as_str());
                        if str_eq(key.as_str(), "access") {
                            config.access = self.parse_access_level(&c.children[vi]);
                        } else if str_eq(key.as_str(), "roles") {
                            config.roles = self.parse_string_array(&c.children[vi]);
                        } else if str_eq(key.as_str(), "methods") {
                            config.methods = self.parse_methods_config(&c.children[vi]);
                        }
                    },
                    _ => {},
                }
            }
            i = i + 1;
        }
        config
    }
}

impl AppConfigExtractor {
    /// Registers an entity: `register(Entity, { ... })`.
    pub fn parse_register_call(&mut self, args: &SyntaxNode)
        ensures
            final(self)@ == register_step(*args, old(self)@),
    {
        let ni = first_child_of_kind(args, "identifier");
        let oi = first_child_of_kind(args, "object");
        if ni < args.children.len() {
            let config = if oi < args.children.len() {
                self.parse_entity_config(&args.children[oi])
            } else {
                let c = EntityAccessConfig { access: AccessLevel::Internal, roles: Vec::new(), methods: Vec::new() };
                proof {
                    assert(string_views(c.roles@) =~= Seq::<Seq<char>>::empty());
                    assert(methods_view(c.methods@) =~= Seq::<(Seq<char>, MethodConfigView)>::empty());
                }
                c
            };
            insert_entity(&mut self.entities, args.children[ni].text.clone(), config);
        }
    }

    /// Takes a call: `<app>.register(...)` registers an entity.
    pub fn visit_call_expression(&mut self, node: &SyntaxNode)
        ensures
            final(self)@ == call_step(*node, old(self)@),
    {
        match field_child(node, "function") {
            Some(fi) => {
                let func = &node.children[fi];
                if str_eq(func.kind.as_str(), "member_expression") {
                    match (field_child(func, "object"), field_child(func, "property")) {
                        (Some(oi), Some(pi)) => {
                            let obj_name = func.children[oi].text.as_str();
                            let is_app = match &self.app_var {
                                Some(v) => str_eq(v.as_str(), obj_name),
                                None => false,
                            };
                            if is_app && str_eq(func.children[pi].text.as_str(), "register") {
                                match field_child(node, "arguments") {
                                    Some(ai) => self.parse_register_call(&node.children[ai]),
                                    None => {},
                                }
                            }
                        },
                        _ => {},
                    }
                }
            },
            None => {},
        }
    }

    /// Takes the calls of an expression statement.
    pub fn visit_expression_statement(&mut self, node: &SyntaxNode)
        ensures
            final(self)@ == statement_calls(*node, node.children@.len() as int, old(self)@),
    {
        let ghost start = self@;
        let mut i: usize = 0;
        while i < node.children.len()
            invariant
                i <= node.children@.len(),
                self@ == statement_calls(*node, i as int, start),
            decreases node.children.len() - i,
        {
            let c = &node.children[i];
            if str_eq(c.kind.as_str(), "call_expression") {
                self.visit_call_expression(c);
            }
            i = i + 1;
        }
    }

    /// Reads the options object passed to the App.
    pub fn parse_app_config_object(&mut self, node: &SyntaxNode)
        ensures
            final(self)@ == app_options(*node, node.children@.len() as int, old(self)@),
    {
        let ghost start = self@;
        let mut i: usize = 0;
        while i < node.children.len()
            invariant
                i <= node.children@.len(),
                self@ == app_options(*node, i as int, start),
            decreases node.children.len() - i,
        {
            let c = &node.children[i];
            if str_eq(c.kind.as_str(), "pair") {
                match (field_child(c, "key"), field_child(c, "value")) {
                    (Some(ki), Some(vi)) => {
                        let key = trim_quotes(c.children[ki].text.as_str());
                        if str_eq(key.as_str(), "mode") {
                            self.mode = self.parse_app_mode(&c.children[vi]);
                        } else if str_eq(key.as_str(), "apiVersioning") {
                            self.api_versioning = self.parse_boolean(&c.children[vi]);
                        }
                    },
                    _ => {},
                }
            }
            i = i + 1;
        }
    }

    /// Reads the arguments of `new App(...)`.
    pub fn parse_app_constructor_args(&mut self, args: &SyntaxNode)
        ensures
            final(self)@ == app_arguments(*args, args.children@.len() as int, old(self)@),
    {
        let ghost start = self@;
        let mut i: usize = 0;
        while i < args.children.len()
            invariant
                i <= args.children@.len(),
                self@ == app_arguments(*args, i as int, start),
            decreases args.children.len() - i,
        {
            let c = &args.children[i];
            if str_eq(c.kind.as_str(), "object") {
                self.parse_app_config_object(c);
            }
            i = i + 1;
        }
    }

    /// Takes a declarator: `<name> = new App(...)`.
    pub fn visit_variable_declarator(&mut self, node: &SyntaxNode)
        ensures
            final(self)@ == declarator_step(*node, old(self)@),
    {
        match (field_child(node, "name"), field_child(node, "value")) {
            (Some(ni), Some(vi)) => {
                let value = &node.children[vi];
                if str_eq(value.kind.as_str(), "new_expression") {
                    match field_child(value, "constructor") {
                        Some(ci) => {
                            if str_eq(value.children[ci].text.as_str(), "App") {
                                self.app_var = Some(node.children[ni].text.clone());
                                match field_child(value, "arguments") {
                                    Some(ai) => self.parse_app_constructor_args(&value.children[ai]),
                                    None => {},
                                }
                            }
                        },
                        None => {},
                    }
                }
            },
            _ => {},
        }
    }

    /// Takes the declarators of a declaration.
    pub fn visit_variable_declaration(&mut self, node: &SyntaxNode)
        ensures
            final(self)@ == declaration_steps(*node, node.children@.len() as int, old(self)@),
    {
        let ghost start = self@;
        let mut i: usize = 0;
        while i < node.children.len()
            invariant
                i <= node.children@.len(),
                self@ == declaration_steps(*node, i as int, start),
            decreases node.children.len() - i,
        {
            let c = &node.children[i];
            if str_eq(c.kind.as_str(), "variable_declarator") {
                self.visit_variable_declarator(c);
            }
            i = i + 1;
        }
    }

    /// Takes the top-level statements of a program.
    pub fn visit_program(&mut self, node: &SyntaxNode)
        ensures
            final(self)@ == program_steps(*node, node.children@.len() as int, old(self)@),
    {
        let ghost start = self@;
        let mut i: usize = 0;
        while i < node.children.len()
            invariant
                i <= node.children@.len(),
                self@ == program_steps(*node, i as int, start),
            decreases node.children.len() - i,
        {
            let c = &node.children[i];
            let ck = c.kind.as_str();
            if str_eq(ck, "lexical_declaration") || str_eq(ck, "variable_declaration") {
                self.visit_variable_declaration(c);
            } else if str_eq(ck, "expression_statement") {
                self.visit_expression_statement(c);
            }
            i = i + 1;
        }
    }
}

/// The App configuration of the syntax tree of `index.ts`: none where it
/// neither creates an App nor registers anything.
pub fn extract_app_config(root: &SyntaxNode) -> (r: Option<AppConfig>)
    ensures
        match r {
            Some(c) => spec_app_config(*root) == Some((c.mode, c.api_versioning, entities_view(c.entities@))),
            None => spec_app_config(*root) is None,
        },
{
    let mut extractor = AppConfigExtractor::new();
    extractor.visit_program(root);
    if extractor.app_var.is_some() || extractor.entities.len() > 0 {
        Some(AppConfig { mode: extractor.mode, api_versioning: extractor.api_versioning, entities: extractor.entities })
    } else {
        None
    }
}

/// The App configuration of the `index.ts` source at `index_path`: that of
/// its syntax tree (parsing always gives one).
pub fn app_config_from_source(source: &str, index_path: &str) -> (r: Result<Option<AppConfig>, CompilerError>)
    ensures
        match r {
            Ok(Some(c)) => spec_app_config(spec_typescript_syntax(source@)) == Some(
                (c.mode, c.api_versioning, entities_view(c.entities@)),
            ),
            Ok(None) => spec_app_config(spec_typescript_syntax(source@)) is None,
            Err(_) => false,
        },
{
    let root = parse_typescript(source);
    Ok(extract_app_config(&root))
}

} // verus!
