//! Generation of the Bun.serve router that wires every handler, with access
//! control per command and request telemetry.

use vstd::prelude::*;

use crate::codegen::ts_types::{spec_pascal_case, spec_snake_case, to_pascal_case, to_snake_case};
use crate::ir::DomainIR;
use crate::ir::access::AccessLevel;
use crate::ir::aggregate::{AggregateIR, CommandIR};
use crate::text::{lemma_flatten_new_step, lemma_join_new_step, seq_flatten, seq_join};

verus! {

pub const ROUTER_HEAD: &'static str = r#"import type { SpiteDbNapi, TelemetryDbNapi } from '@spitestack/db';
import type { AuthConfig } from './runtime/auth';
import { createAuth, resolveTenant } from './runtime/auth';
import { createEmailProvider } from './runtime/email';
import { createSmsProvider } from './runtime/sms';
import { handleAuthRegister, handleAuthLogin, handleAuthRefresh, handleAuthVerifyEmail, handleAuthRequestRecovery, handleAuthResetPassword, handleAuthChangePassword, handleAuthMfaChallenge, handleAuthMfaVerify, handleAuthMfaEnroll, handleAuthMfaEnrollChallenge, handleAuthSocialLogin, handleAuthSocialCallback, handleAuthSocialLink, handleAuthSocialMergeVerify } from './runtime/identity';
import type { SocialProvider } from './runtime/social';
import { handleTenantCreate, handleTenantInvite, handleTenantAcceptInvite, handleTenantUpdateSettings, handleTenantGetSettings, SYSTEM_TENANT_ID } from './runtime/tenant';
import { emitTelemetry, finishSpan, logError, metricCounter, metricHistogram, startSpan } from './runtime/telemetry';
import { getSecurityHeaders } from './runtime/security-headers';
"#;

pub const ROUTER_MID: &'static str = r#"
export type RouterContext = {
  db: SpiteDbNapi;
  telemetry: TelemetryDbNapi;
  authConfig: AuthConfig;
};

export function createRouter(ctx: RouterContext) {
  const auth = createAuth(ctx.authConfig);
  const emailProvider = createEmailProvider();
  const smsProvider = createSmsProvider();
  const securityHeaders = getSecurityHeaders();

  // Helper to apply security headers to all responses
  const finalize = (response: Response): Response => {
    const headers = new Headers(response.headers);
    for (const [key, value] of Object.entries(securityHeaders)) {
      if (!headers.has(key)) headers.set(key, value);
    }
    return new Response(response.body, { status: response.status, statusText: response.statusText, headers });
  };

  return async (req: Request): Promise<Response> => {
    const url = new URL(req.url);
    const path = url.pathname;
    const method = req.method;
    const isProd = process.env.NODE_ENV === 'production';

    // Authenticate request
    const authResult = await auth.verifyRequest(req);

    const isAuthRoute = path.startsWith('/auth/');
    if (isAuthRoute) {
       const body = method === 'POST' ? await req.json().catch(() => ({})) : {};
       // Public endpoints
       if (method === 'POST' && path === '/auth/refresh') {
         const response = await handleAuthRefresh(ctx.db, ctx.telemetry, ctx.authConfig, emailProvider, smsProvider, body);
         return finalize(response);
       }
       if (method === 'POST' && path === '/auth/login') {
         const response = await handleAuthLogin(ctx.db, ctx.telemetry, ctx.authConfig, emailProvider, smsProvider, body, req);
         return finalize(response);
       }
       if (method === 'POST' && path === '/auth/register') {
         const response = await handleAuthRegister(ctx.db, ctx.telemetry, ctx.authConfig, emailProvider, smsProvider, body, req);
         return finalize(response);
       }
       if (method === 'POST' && path === '/auth/verify-email') {
         const response = await handleAuthVerifyEmail(ctx.db, ctx.telemetry, ctx.authConfig, emailProvider, smsProvider, body, req);
         return finalize(response);
       }
       if (method === 'POST' && path === '/auth/recover') {
         const response = await handleAuthRequestRecovery(ctx.db, ctx.telemetry, ctx.authConfig, emailProvider, smsProvider, body, req);
         return finalize(response);
       }
       if (method === 'POST' && path === '/auth/reset') {
         const response = await handleAuthResetPassword(ctx.db, ctx.telemetry, ctx.authConfig, emailProvider, smsProvider, body, req);
         return finalize(response);
       }
       if (method === 'POST' && path === '/auth/change-password') {
         const response = await handleAuthChangePassword(ctx.db, ctx.telemetry, ctx.authConfig, emailProvider, smsProvider, body, req);
         return finalize(response);
       }
       if (method === 'POST' && path === '/auth/mfa/challenge') {
         const response = await handleAuthMfaChallenge(ctx.db, ctx.telemetry, ctx.authConfig, emailProvider, smsProvider, body, req);
         return finalize(response);
       }
       if (method === 'POST' && path === '/auth/mfa/verify') {
         const response = await handleAuthMfaVerify(ctx.db, ctx.telemetry, ctx.authConfig, emailProvider, smsProvider, body, req);
         return finalize(response);
       }
       // Protected endpoints (Enroll) - requires fully authenticated session, not mfa_pending
       if (method === 'POST' && path === '/auth/mfa/enroll/challenge') {
         if (!authResult.ok) return finalize(new Response('Unauthorized', { status: 401 }));
         if (authResult.user.mfa_pending) {
           return finalize(new Response(JSON.stringify({ error: 'Complete MFA verification before enrolling new authenticators' }), { status: 403, headers: { 'Content-Type': 'application/json' } }));
         }
         const response = await handleAuthMfaEnrollChallenge(ctx.db, ctx.telemetry, ctx.authConfig, emailProvider, smsProvider, body, authResult.user);
         return finalize(response);
       }
       if (method === 'POST' && path === '/auth/mfa/enroll') {
         if (!authResult.ok) return finalize(new Response('Unauthorized', { status: 401 }));
         if (authResult.user.mfa_pending) {
           return finalize(new Response(JSON.stringify({ error: 'Complete MFA verification before enrolling new authenticators' }), { status: 403, headers: { 'Content-Type': 'application/json' } }));
         }
         const response = await handleAuthMfaEnroll(ctx.db, ctx.telemetry, ctx.authConfig, emailProvider, smsProvider, body, authResult.user);
         return finalize(response);
       }

       // Social auth routes
       const socialMatch = path.match(/^\/auth\/social\/(google|github|apple|microsoft|facebook)(\/callback|\/link)?$/);
       if (socialMatch) {
         const provider = socialMatch[1] as SocialProvider;
         const action = socialMatch[2];

         // Initiate social login (public)
         if (method === 'GET' && !action) {
           const response = await handleAuthSocialLogin(provider);
           return response;
         }

         // OAuth callback (public)
         if (method === 'GET' && action === '/callback') {
           const response = await handleAuthSocialCallback(ctx.db, ctx.telemetry, ctx.authConfig, emailProvider, req, provider);
           return response;
         }

         // Link social account (protected)
         if (method === 'GET' && action === '/link') {
           if (!authResult.ok) return new Response('Unauthorized', { status: 401 });
           const response = await handleAuthSocialLink(ctx.db, ctx.telemetry, ctx.authConfig, req, provider, authResult.user);
           return response;
         }
       }

       // Social merge verify (public)
       if (method === 'POST' && path === '/auth/social/merge/verify') {
         const response = await handleAuthSocialMergeVerify(ctx.db, ctx.telemetry, body);
         return response;
       }
    }

    if (path.startsWith('/tenant')) {
       const body = method === 'POST' ? await req.json().catch(() => ({})) : {};
       if (method === 'POST' && path === '/tenant') {
         if (!authResult.ok) return finalize(new Response('Unauthorized', { status: 401 }));
         const response = await handleTenantCreate(ctx.db, ctx.telemetry, ctx.authConfig, body, authResult.user);
         return finalize(response);
       }
       if (method === 'POST' && path === '/tenant/invite') {
         if (!authResult.ok) return finalize(new Response('Unauthorized', { status: 401 }));
         const response = await handleTenantInvite(ctx.db, ctx.telemetry, ctx.authConfig, emailProvider, body, authResult.user);
         return finalize(response);
       }
       if (method === 'POST' && path === '/tenant/invite/accept') {
         if (!authResult.ok) return finalize(new Response('Unauthorized', { status: 401 }));
         const response = await handleTenantAcceptInvite(ctx.db, ctx.telemetry, ctx.authConfig, body, authResult.user);
         return finalize(response);
       }

       // Tenant settings routes
       const tenantSettingsMatch = path.match(/^\/tenant\/([^/]+)\/settings$/);
       if (tenantSettingsMatch) {
         const tenantId = tenantSettingsMatch[1];
         if (!authResult.ok) return new Response('Unauthorized', { status: 401 });

         // GET tenant settings
         if (method === 'GET') {
           const response = await handleTenantGetSettings(ctx.db, ctx.telemetry, ctx.authConfig, tenantId, authResult.user);
           return response;
         }

         // UPDATE tenant settings (POST or PATCH)
         if (method === 'POST' || method === 'PATCH') {
           const settingsBody = await req.json().catch(() => ({}));
           const response = await handleTenantUpdateSettings(ctx.db, ctx.telemetry, ctx.authConfig, { tenantId, settings: settingsBody }, authResult.user);
           return response;
         }
       }
    }

    // Access control helpers
    const checkAuth = (): Response | null => {
      if (!authResult.ok) {
        return new Response(JSON.stringify({ error: authResult.error }), {
          status: 401,
          headers: { 'Content-Type': 'application/json' }
        });
      }
      return null;
    };

    const checkInternal = (): Response | null => {
      const authErr = checkAuth();
      if (authErr) return authErr;
      const systemMembership = authResult.user.orgs?.[SYSTEM_TENANT_ID];
      if (!systemMembership) {
        return new Response(JSON.stringify({ error: 'Forbidden: internal endpoint' }), {
          status: 403,
          headers: { 'Content-Type': 'application/json' }
        });
      }
      return null;
    };

    const checkPrivate = (): { error: Response } | { user: typeof authResult.user; tenant: string } => {
      const authErr = checkAuth();
      if (authErr) return { error: authErr };
      const tenantResult = resolveTenant(req, authResult.user);
      if (!tenantResult.ok) {
        return { error: new Response(JSON.stringify({ error: tenantResult.error }), {
          status: tenantResult.status,
          headers: { 'Content-Type': 'application/json' }
        }) };
      }
      return { user: authResult.user, tenant: tenantResult.tenant };
    };

    const checkRoles = (user: typeof authResult.user, tenant: string | undefined, roles: string[]): Response | null => {
      if (roles.length === 0) return null;
      const userRoles = tenant && user.orgs?.[tenant]?.roles ? user.orgs[tenant].roles : (user.roles || []);
      const hasRole = roles.some(r => userRoles.includes(r));
      if (!hasRole) {
        return new Response(JSON.stringify({ error: 'Forbidden: insufficient role' }), {
          status: 403,
          headers: { 'Content-Type': 'application/json' }
        });
      }
      return null;
    };

    const createFinalize = (tenant: string, user?: { sub?: string }) => {
      const traceId = crypto.randomUUID();
      const requestSpan = startSpan(tenant, traceId, 'http.request', undefined, { method, path, tenant, user: user?.sub || 'anonymous' });
      return {
        traceId,
        spanId: requestSpan.spanId,
        finalize: (response: Response, err?: unknown): Response => {
          const endMs = Date.now();
          const durationMs = Math.max(0, endMs - requestSpan.startMs);
          const attrs = { method, path, status: response.status, tenant };
          const records = [
            finishSpan(requestSpan, response.status >= 500 ? 'Error' : 'Ok', endMs, attrs),
            metricCounter(tenant, 'http.request.count', 1, attrs, traceId, requestSpan.spanId),
            metricHistogram(tenant, 'http.request.duration_ms', durationMs, attrs, traceId, requestSpan.spanId),
          ];
          if (err || response.status >= 500) {
            const message = err instanceof Error ? err.message : 'request failed';
            records.push(logError(tenant, message, attrs, traceId, requestSpan.spanId));
            if (isProd && response.status >= 500) {
              response = new Response(JSON.stringify({ error: 'Internal Server Error' }), {
                status: response.status,
                headers: { 'Content-Type': 'application/json' }
              });
            }
          }
          emitTelemetry(ctx.telemetry, records);
          return response;
        }
      };
    };

    try {
"#;

pub const ROUTER_TAIL: &'static str = r#"      return finalize(new Response(JSON.stringify({ error: 'Not Found' }), { status: 404, headers: { 'Content-Type': 'application/json' } }));
    } catch (err) {
      console.error('Router error:', err);
      const message = isProd ? 'Internal Server Error' : (err instanceof Error ? err.message : 'Unknown error');
      return finalize(new Response(JSON.stringify({ error: message }), { status: 500, headers: { 'Content-Type': 'application/json' } }));
    }
  };
}
"#;

pub const RT_AGG_0: &'static str = "      // ";
pub const RT_AGG_1: &'static str = r#" routes
      const "#;
pub const RT_AGG_2: &'static str = "Match = path.match(/^\\/";
pub const RT_AGG_3: &'static str = r#"\/([^/]+)(?:\/([^/]+))?$/);
      if ("#;
pub const RT_AGG_4: &'static str = r#"Match) {
        const streamId = "#;
pub const RT_AGG_5: &'static str = r#"Match[1];
        const action = "#;
pub const RT_AGG_6: &'static str = r#"Match[2];

        if (method === 'GET' && !action) {
          // GET is Internal by default
          const accessErr = checkInternal();
          if (accessErr) return accessErr;
          const { traceId, spanId, finalize } = createFinalize('system', authResult.user);
          const handlerCtx = { ...ctx, tenant: 'system' };
          const response = await handle"#;
pub const RT_AGG_7: &'static str = r#"Get(handlerCtx, streamId, traceId, spanId);
          return finalize(response);
        }
"#;

pub const RT_CMD_0: &'static str = "        if (method === 'POST' && action === '";
pub const RT_CMD_1: &'static str = r#"') {
"#;

pub const RT_PUB_0: &'static str = r#"          // Public endpoint - no auth required
          const { traceId, spanId, finalize } = createFinalize('public', authResult.ok ? authResult.user : undefined);
          const handlerCtx = { ...ctx, tenant: 'public' };
"#;

pub const RT_INT_A_0: &'static str = r#"          // Internal endpoint - requires system tenant membership
          const accessErr = checkInternal();
          if (accessErr) return accessErr;
"#;

pub const RT_INT_R_0: &'static str = "          const roleErr = checkRoles(authResult.user, SYSTEM_TENANT_ID, [";
pub const RT_INT_R_1: &'static str = r#"]);
          if (roleErr) return roleErr;
"#;

pub const RT_INT_B_0: &'static str = r#"          const { traceId, spanId, finalize } = createFinalize(SYSTEM_TENANT_ID, authResult.user);
          const handlerCtx = { ...ctx, tenant: SYSTEM_TENANT_ID };
"#;

pub const RT_PRIV_A_0: &'static str = r#"          // Private endpoint - requires auth + tenant
          const privateResult = checkPrivate();
          if ('error' in privateResult) return privateResult.error;
          const user = privateResult.user;
          const tenant = privateResult.tenant;
"#;

pub const RT_PRIV_R_0: &'static str = "          const roleErr = checkRoles(user, tenant, [";
pub const RT_PRIV_R_1: &'static str = r#"]);
          if (roleErr) return roleErr;
"#;

pub const RT_PRIV_B_0: &'static str = r#"          const { traceId, spanId, finalize } = createFinalize(tenant, user);
          const handlerCtx = { ...ctx, tenant };
"#;

pub const RT_POST_0: &'static str = r#"          const body = await req.json();
          const response = await handle"#;
pub const RT_POST_1: &'static str = r#"(handlerCtx, streamId, body, traceId, spanId);
          return finalize(response);
        }
"#;


pub const RT_AGG_END: &'static str = "      }\n\n";

/// The roles of a command as a TypeScript array body: `'r1', 'r2'`.
pub open spec fn spec_roles_list(roles: Seq<String>) -> Seq<char> {
    seq_join(Seq::new(roles.len(), |k: int| "'"@ + roles[k]@ + "'"@), ", "@)
}

/// The access check of a command route, by access level.
pub open spec fn spec_access_check(c: CommandIR) -> Seq<char> {
    match c.access {
        AccessLevel::Public => RT_PUB_0@,
        AccessLevel::Internal => RT_INT_A_0@ + (if c.roles@.len() == 0 {
            Seq::empty()
        } else {
            RT_INT_R_0@ + spec_roles_list(c.roles@) + RT_INT_R_1@
        }) + RT_INT_B_0@,
        AccessLevel::Private => RT_PRIV_A_0@ + (if c.roles@.len() == 0 {
            Seq::empty()
        } else {
            RT_PRIV_R_0@ + spec_roles_list(c.roles@) + RT_PRIV_R_1@
        }) + RT_PRIV_B_0@,
    }
}

/// The POST route of a command.
pub open spec fn spec_command_route(a: AggregateIR, c: CommandIR) -> Seq<char> {
    RT_CMD_0@ + c.name@ + RT_CMD_1@ + spec_access_check(c) + RT_POST_0@ + a.name@ + spec_pascal_case(c.name@) + RT_POST_1@
}

/// The routes of an aggregate: its GET route and one POST route per command.
pub open spec fn spec_aggregate_routes(a: AggregateIR) -> Seq<char> {
    RT_AGG_0@ + a.name@ + RT_AGG_1@ + spec_snake_case(a.name@) + RT_AGG_2@ + spec_snake_case(a.name@) + RT_AGG_3@
        + spec_snake_case(a.name@) + RT_AGG_4@ + spec_snake_case(a.name@) + RT_AGG_5@ + spec_snake_case(a.name@)
        + RT_AGG_6@ + a.name@ + RT_AGG_7@
        + seq_flatten(Seq::new(a.commands@.len(), |k: int| spec_command_route(a, a.commands@[k])))
        + RT_AGG_END@
}

/// The name of the handler of the `k`-th command, or of the GET handler for `k == commands.len()`.
pub open spec fn spec_handler_name(a: AggregateIR, k: int) -> Seq<char> {
    if k < a.commands@.len() {
        "handle"@ + a.name@ + spec_pascal_case(a.commands@[k].name@)
    } else {
        "handle"@ + a.name@ + "Get"@
    }
}

/// The import line of an aggregate's handlers.
pub open spec fn spec_handler_import(a: AggregateIR) -> Seq<char> {
    "import { "@ + seq_join(Seq::new(a.commands@.len() + 1, |k: int| spec_handler_name(a, k)), ", "@)
        + " } from './handlers/"@ + spec_snake_case(a.name@) + ".handlers';\n"@
}

/// The router module of a domain.
pub open spec fn spec_generate_router(d: DomainIR) -> Seq<char> {
    let aggs = d.aggregates@;
    ROUTER_HEAD@ + seq_flatten(Seq::new(aggs.len(), |k: int| spec_handler_import(aggs[k]))) + ROUTER_MID@
        + seq_flatten(Seq::new(aggs.len(), |k: int| spec_aggregate_routes(aggs[k]))) + ROUTER_TAIL@
}

fn roles_list(roles: &Vec<String>) -> (r: String)
    ensures
        r@ == spec_roles_list(roles@),
{
    let ghost f = |k: int| "'"@ + roles@[k]@ + "'"@;
    let mut out = String::new();
    let mut i: usize = 0;
    while i < roles.len()
        invariant
            i <= roles@.len(),
            f == (|k: int| "'"@ + roles@[k]@ + "'"@),
            out@ == seq_join(Seq::new(i as nat, f), ", "@),
        decreases roles.len() - i,
    {
        if i > 0 {
            out.append(", ");
        }
        out.append("'");
        out.append(roles[i].as_str());
        out.append("'");
        proof {
            lemma_join_new_step(f, ", "@, i as int);
        }
        i = i + 1;
    }
    out
}

fn access_check(c: &CommandIR) -> (r: String)
    ensures
        r@ == spec_access_check(*c),
{
    let mut out = String::new();
    match c.access {
        AccessLevel::Public => {
            out.append(RT_PUB_0);
        },
        AccessLevel::Internal => {
            out.append(RT_INT_A_0);
            if c.roles.len() > 0 {
                let roles = roles_list(&c.roles);
                let mut part = crate::text::to_owned_string(RT_INT_R_0);
                part.append(roles.as_str());
                part.append(RT_INT_R_1);
                out.append(part.as_str());
            }
            out.append(RT_INT_B_0);
        },
        AccessLevel::Private => {
            out.append(RT_PRIV_A_0);
            if c.roles.len() > 0 {
                let roles = roles_list(&c.roles);
                let mut part = crate::text::to_owned_string(RT_PRIV_R_0);
                part.append(roles.as_str());
                part.append(RT_PRIV_R_1);
                out.append(part.as_str());
            }
            out.append(RT_PRIV_B_0);
        },
    }
    proof {
        if c.roles@.len() == 0 {
            assert(out@ =~= spec_access_check(*c));
        }
    }
    out
}

fn command_route(a: &AggregateIR, c: &CommandIR) -> (r: String)
    ensures
        r@ == spec_command_route(*a, *c),
{
    let check = access_check(c);
    let pascal = to_pascal_case(c.name.as_str());
    let mut out = String::new();
    out.append(RT_CMD_0);
    out.append(c.name.as_str());
    out.append(RT_CMD_1);
    out.append(check.as_str());
    out.append(RT_POST_0);
    out.append(a.name.as_str());
    out.append(pascal.as_str());
    out.append(RT_POST_1);
    out
}

fn aggregate_routes(a: &AggregateIR) -> (r: String)
    ensures
        r@ == spec_aggregate_routes(*a),
{
    let snake = to_snake_case(a.name.as_str());
    let mut out = String::new();
    out.append(RT_AGG_0);
    out.append(a.name.as_str());
    out.append(RT_AGG_1);
    out.append(snake.as_str());
    out.append(RT_AGG_2);
    out.append(snake.as_str());
    out.append(RT_AGG_3);
    out.append(snake.as_str());
    out.append(RT_AGG_4);
    out.append(snake.as_str());
    out.append(RT_AGG_5);
    out.append(snake.as_str());
    out.append(RT_AGG_6);
    out.append(a.name.as_str());
    out.append(RT_AGG_7);
    let ghost f = |k: int| spec_command_route(*a, a.commands@[k]);
    let mut routes = String::new();
    let mut i: usize = 0;
    while i < a.commands.len()
        invariant
            i <= a.commands@.len(),
            f == (|k: int| spec_command_route(*a, a.commands@[k])),
            routes@ == seq_flatten(Seq::new(i as nat, f)),
        decreases a.commands.len() - i,
    {
        let piece = command_route(a, &a.commands[i]);
        routes.append(piece.as_str());
        proof {
            lemma_flatten_new_step(f, i as int);
        }
        i = i + 1;
    }
    out.append(routes.as_str());
    out.append(RT_AGG_END);
    out
}

fn handler_import(a: &AggregateIR) -> (r: String)
    ensures
        r@ == spec_handler_import(*a),
{
    let ghost f = |k: int| spec_handler_name(*a, k);
    let n = a.commands.len();
    let mut names = String::new();
    let mut i: usize = 0;
    while i < n
        invariant
            n == a.commands@.len(),
            i <= n,
            f == (|k: int| spec_handler_name(*a, k)),
            names@ == seq_join(Seq::new(i as nat, f), ", "@),
        decreases n - i,
    {
        if i > 0 {
            names.append(", ");
        }
        let pascal = to_pascal_case(a.commands[i].name.as_str());
        names.append("handle");
        names.append(a.name.as_str());
        names.append(pascal.as_str());
        proof {
            lemma_join_new_step(f, ", "@, i as int);
        }
        i = i + 1;
    }
    if n > 0 {
        names.append(", ");
    }
    names.append("handle");
    names.append(a.name.as_str());
    names.append("Get");
    proof {
        lemma_join_new_step(f, ", "@, n as int);
    }
    let snake = to_snake_case(a.name.as_str());
    let mut out = crate::text::to_owned_string("import { ");
    out.append(names.as_str());
    out.append(" } from './handlers/");
    out.append(snake.as_str());
    out.append(".handlers';\n");
    out
}

/// Generates the router module that wires every handler of the domain.
pub fn generate_router(domain: &DomainIR) -> (r: String)
    ensures
        r@ == spec_generate_router(*domain),
{
    let ghost fi = |k: int| spec_handler_import(domain.aggregates@[k]);
    let ghost fr = |k: int| spec_aggregate_routes(domain.aggregates@[k]);
    let mut imports = String::new();
    let mut routes = String::new();
    let mut i: usize = 0;
    while i < domain.aggregates.len()
        invariant
            i <= domain.aggregates@.len(),
            fi == (|k: int| spec_handler_import(domain.aggregates@[k])),
            fr == (|k: int| spec_aggregate_routes(domain.aggregates@[k])),
            imports@ == seq_flatten(Seq::new(i as nat, fi)),
            routes@ == seq_flatten(Seq::new(i as nat, fr)),
        decreases domain.aggregates.len() - i,
    {
        let a = &domain.aggregates[i];
        let imp = handler_import(a);
        imports.append(imp.as_str());
        let rt = aggregate_routes(a);
        routes.append(rt.as_str());
        proof {
            lemma_flatten_new_step(fi, i as int);
            lemma_flatten_new_step(fr, i as int);
        }
        i = i + 1;
    }
    let mut out = crate::text::to_owned_string(ROUTER_HEAD);
    out.append(imports.as_str());
    out.append(ROUTER_MID);
    out.append(routes.as_str());
    out.append(ROUTER_TAIL);
    out
}

} // verus!
