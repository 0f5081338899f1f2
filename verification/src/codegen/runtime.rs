//! The runtime TypeScript modules that ship with the generated code (auth,
//! telemetry, client, identity, tenants, email, TOTP, SMS, social login and app
//! registration). Their sources live in the compiler's `runtime/` directory.

use vstd::prelude::*;

verus! {

/// The runtime modules: the path each is written to in the generated tree, and
/// the name of its source file under `runtime/`.
pub open spec fn spec_runtime_modules() -> Seq<(Seq<char>, Seq<char>)> {
    seq![
        ("runtime/auth.ts"@, "auth.ts"@),
        ("runtime/telemetry.ts"@, "telemetry.ts"@),
        ("runtime/client.ts"@, "client.ts"@),
        ("runtime/identity.ts"@, "identity.ts"@),
        ("runtime/tenant.ts"@, "tenant.ts"@),
        ("runtime/email.ts"@, "email.ts"@),
        ("runtime/totp.ts"@, "totp.ts"@),
        ("runtime/sms.ts"@, "sms.ts"@),
        ("runtime/social.ts"@, "social.ts"@),
        ("runtime/app.ts"@, "app.ts"@),
    ]
}

/// Returns every runtime module as (generated path, source file name).
pub fn get_runtime_modules() -> (r: Vec<(&'static str, &'static str)>)
    ensures
        r@.map_values(|m: (&'static str, &'static str)| (m.0@, m.1@)) == spec_runtime_modules(),
{
    let r = vec![
        ("runtime/auth.ts", "auth.ts"),
        ("runtime/telemetry.ts", "telemetry.ts"),
        ("runtime/client.ts", "client.ts"),
        ("runtime/identity.ts", "identity.ts"),
        ("runtime/tenant.ts", "tenant.ts"),
        ("runtime/email.ts", "email.ts"),
        ("runtime/totp.ts", "totp.ts"),
        ("runtime/sms.ts", "sms.ts"),
        ("runtime/social.ts", "social.ts"),
        ("runtime/app.ts", "app.ts"),
    ];
    proof {
        assert(r@.map_values(|m: (&'static str, &'static str)| (m.0@, m.1@)) =~= spec_runtime_modules());
    }
    r
}

} // verus!
