//! Access control configuration for aggregate and orchestrator methods: the
//! access levels and per-entity/per-method settings that decide how a method is
//! exposed by the generated API.

use vstd::prelude::*;

use crate::ir::assoc::{find_key, lookup};
use crate::text::{is_ascii_seq, spec_str_lowercase, str_eq, str_to_lowercase};

verus! {

/// Application mode controlling schema evolution behavior.
#[derive(Debug, Clone, Copy, PartialEq, Eq, Structural)]
pub enum AppMode {
    /// Development mode: schemas can change freely.
    Greenfield,
    /// Locked mode: event schemas are captured in a lock file.
    Production,
}

impl Default for AppMode {
    fn default() -> (r: Self)
        ensures
            r == AppMode::Greenfield,
    {
        AppMode::Greenfield
    }
}

/// The mode named by `lower` (a lower-cased name), if any.
pub open spec fn spec_app_mode_named(lower: Seq<char>) -> Option<AppMode> {
    if lower == "greenfield"@ {
        Some(AppMode::Greenfield)
    } else if lower == "production"@ {
        Some(AppMode::Production)
    } else {
        None
    }
}

pub open spec fn spec_app_mode_str(m: AppMode) -> Seq<char> {
    match m {
        AppMode::Greenfield => "greenfield"@,
        AppMode::Production => "production"@,
    }
}

impl AppMode {
    /// Parses an app mode, ignoring case.
    pub fn from_str(s: &str) -> (r: Option<Self>)
        ensures
            r == spec_app_mode_named(spec_str_lowercase(s@)),
            forall|m: AppMode| s@ == #[trigger] spec_app_mode_str(m) ==> r == Some(m),
    {
        let lower = str_to_lowercase(s);
        proof {
            reveal_strlit("greenfield");
            reveal_strlit("production");
            assert("production"@ != "greenfield"@) by {
                assert("production"@[0] != "greenfield"@[0]);
            }
            assert forall|m: AppMode| s@ == #[trigger] spec_app_mode_str(m) implies lower@ == s@ by {
                assert(is_ascii_seq(s@));
                assert(lower@ =~= s@);
            }
        }
        if str_eq(lower.as_str(), "greenfield") {
            Some(AppMode::Greenfield)
        } else if str_eq(lower.as_str(), "production") {
            Some(AppMode::Production)
        } else {
            None
        }
    }

    /// The lower-case name of the mode.
    pub fn as_str(&self) -> (r: &'static str)
        ensures
            r@ == spec_app_mode_str(*self),
    {
        match self {
            AppMode::Greenfield => "greenfield",
            AppMode::Production => "production",
        }
    }
}

/// Access level for an endpoint.
#[derive(Debug, Clone, Copy, PartialEq, Eq, Structural)]
pub enum AccessLevel {
    /// No authentication required.
    Public,
    /// Authentication and system-tenant membership required.
    Internal,
    /// Authentication and tenant membership required.
    Private,
}

impl Default for AccessLevel {
    fn default() -> (r: Self)
        ensures
            r == AccessLevel::Internal,
    {
        AccessLevel::Internal
    }
}

/// The level named by `lower` (a lower-cased name), if any.
pub open spec fn spec_access_level_named(lower: Seq<char>) -> Option<AccessLevel> {
    if lower == "public"@ {
        Some(AccessLevel::Public)
    } else if lower == "internal"@ {
        Some(AccessLevel::Internal)
    } else if lower == "private"@ {
        Some(AccessLevel::Private)
    } else {
        None
    }
}

pub open spec fn spec_access_level_str(a: AccessLevel) -> Seq<char> {
    match a {
        AccessLevel::Public => "public"@,
        AccessLevel::Internal => "internal"@,
        AccessLevel::Private => "private"@,
    }
}

impl AccessLevel {
    /// Parses an access level, ignoring case.
    pub fn from_str(s: &str) -> (r: Option<Self>)
        ensures
            r == spec_access_level_named(spec_str_lowercase(s@)),
            forall|a: AccessLevel| s@ == #[trigger] spec_access_level_str(a) ==> r == Some(a),
    {
        let lower = str_to_lowercase(s);
        proof {
            reveal_strlit("public");
            reveal_strlit("internal");
            reveal_strlit("private");
            assert forall|a: AccessLevel| s@ == #[trigger] spec_access_level_str(a) implies lower@ == s@ by {
                assert(is_ascii_seq(s@));
                assert(lower@ =~= s@);
            }
        }
        if str_eq(lower.as_str(), "public") {
            Some(AccessLevel::Public)
        } else if str_eq(lower.as_str(), "internal") {
            Some(AccessLevel::Internal)
        } else if str_eq(lower.as_str(), "private") {
            Some(AccessLevel::Private)
        } else {
            None
        }
    }

    /// The lower-case name of the level.
    pub fn as_str(&self) -> (r: &'static str)
        ensures
            r@ == spec_access_level_str(*self),
    {
        match self {
            AccessLevel::Public => "public",
            AccessLevel::Internal => "internal",
            AccessLevel::Private => "private",
        }
    }
}

/// Access configuration for a single method.
#[derive(Debug, Clone)]
pub struct MethodAccessConfig {
    /// The access level for this method.
    pub access: AccessLevel,
    /// Roles required to call this method.
    pub roles: Vec<String>,
}

impl Default for MethodAccessConfig {
    fn default() -> (r: Self)
        ensures
            r.access == AccessLevel::Internal,
            r.roles@.len() == 0,
    {
        MethodAccessConfig { access: AccessLevel::Internal, roles: Vec::new() }
    }
}

/// Access configuration for an aggregate or orchestrator.
#[derive(Debug, Clone)]
pub struct EntityAccessConfig {
    /// Default access level for all methods of the entity.
    pub access: AccessLevel,
    /// Default roles for all methods of the entity.
    pub roles: Vec<String>,
    /// Per-method overrides, keyed by method name.
    pub methods: Vec<(String, MethodAccessConfig)>,
}

impl Default for EntityAccessConfig {
    fn default() -> (r: Self)
        ensures
            r.access == AccessLevel::Internal,
            r.roles@.len() == 0,
            r.methods@.len() == 0,
    {
        EntityAccessConfig { access: AccessLevel::Internal, roles: Vec::new(), methods: Vec::new() }
    }
}

/// The views of a list of strings.
pub open spec fn string_views(v: Seq<String>) -> Seq<Seq<char>> {
    v.map_values(|s: String| s@)
}

/// A copy of a list of strings.
pub fn clone_strings(v: &Vec<String>) -> (r: Vec<String>)
    ensures
        r@ == v@,
{
    let mut out: Vec<String> = Vec::new();
    let mut i: usize = 0;
    while i < v.len()
        invariant
            i <= v@.len(),
            out@ == v@.subrange(0, i as int),
        decreases v.len() - i,
    {
        out.push(v[i].clone());
        i = i + 1;
        assert(out@ =~= v@.subrange(0, i as int));
    }
    assert(out@ =~= v@);
    out
}

/// The effective access level and roles of a method: a method override
/// replaces the level, and its roles when it names any; otherwise the
/// entity's defaults apply.
pub open spec fn spec_resolve_method(e: EntityAccessConfig, method: Seq<char>) -> (AccessLevel, Seq<String>) {
    match lookup(e.methods@, method) {
        Some(m) => (m.access, if m.roles@.len() == 0 { e.roles@ } else { m.roles@ }),
        None => (e.access, e.roles@),
    }
}

impl EntityAccessConfig {
    /// Resolves the effective access configuration of a method; method-level
    /// configuration overrides the entity-level defaults.
    pub fn resolve_method(&self, method_name: &str) -> (r: MethodAccessConfig)
        ensures
            (r.access, r.roles@) == spec_resolve_method(*self, method_name@),
    {
        match find_key(&self.methods, method_name) {
            Some(i) => {
                let m = &self.methods[i].1;
                let roles = if m.roles.len() == 0 {
                    clone_strings(&self.roles)
                } else {
                    clone_strings(&m.roles)
                };
                MethodAccessConfig { access: m.access, roles }
            },
            None => MethodAccessConfig { access: self.access, roles: clone_strings(&self.roles) },
        }
    }
}

/// A copy of a method configuration.
pub fn clone_method_config(m: &MethodAccessConfig) -> (r: MethodAccessConfig)
    ensures
        r.access == m.access,
        r.roles@ == m.roles@,
{
    MethodAccessConfig { access: m.access, roles: clone_strings(&m.roles) }
}

/// Two method-override entries agree on key, level and roles.
pub open spec fn method_entry_same(a: (String, MethodAccessConfig), b: (String, MethodAccessConfig)) -> bool {
    a.0 == b.0 && a.1.access == b.1.access && a.1.roles@ == b.1.roles@
}

/// Two entity configurations agree on every setting.
pub open spec fn entity_config_same(a: EntityAccessConfig, b: EntityAccessConfig) -> bool {
    &&& a.access == b.access
    &&& a.roles@ == b.roles@
    &&& a.methods@.len() == b.methods@.len()
    &&& forall|i: int| 0 <= i < a.methods@.len() ==> method_entry_same(#[trigger] a.methods@[i], b.methods@[i])
}

/// A copy of an entity configuration.
pub fn clone_entity_config(e: &EntityAccessConfig) -> (r: EntityAccessConfig)
    ensures
        entity_config_same(r, *e),
{
    let mut methods: Vec<(String, MethodAccessConfig)> = Vec::new();
    let mut i: usize = 0;
    while i < e.methods.len()
        invariant
            i <= e.methods@.len(),
            methods@.len() == i,
            forall|k: int| 0 <= k < i ==> method_entry_same(#[trigger] methods@[k], e.methods@[k]),
        decreases e.methods.len() - i,
    {
        let entry = &e.methods[i];
        methods.push((entry.0.clone(), clone_method_config(&entry.1)));
        i = i + 1;
    }
    EntityAccessConfig { access: e.access, roles: clone_strings(&e.roles), methods }
}

/// Configuration parsed from the App registration in index.ts.
#[derive(Debug, Clone)]
pub struct AppConfig {
    /// Application mode controlling schema evolution.
    pub mode: AppMode,
    /// Whether API versioning is enabled.
    pub api_versioning: bool,
    /// Access configurations keyed by entity name.
    pub entities: Vec<(String, EntityAccessConfig)>,
}

impl Default for AppConfig {
    fn default() -> (r: Self)
        ensures
            r.mode == AppMode::Greenfield,
            !r.api_versioning,
            r.entities@.len() == 0,
    {
        AppConfig { mode: AppMode::Greenfield, api_versioning: false, entities: Vec::new() }
    }
}

impl AppConfig {
    /// The access configuration of an entity, or the default one when the
    /// entity is not configured.
    pub fn get_entity_config(&self, name: &str) -> (r: EntityAccessConfig)
        ensures
            match lookup(self.entities@, name@) {
                Some(e) => entity_config_same(r, e),
                None => r.access == AccessLevel::Internal && r.roles@.len() == 0 && r.methods@.len() == 0,
            },
    {
        match find_key(&self.entities, name) {
            Some(i) => clone_entity_config(&self.entities[i].1),
            None => EntityAccessConfig::default(),
        }
    }
}

} // verus!
