//! The operation assembler and the build entry point: servers, security
//! schemes, per-operation HTTP shapes, grouping into services by first tag,
//! and the walk that produces the whole IR from a document.

use vstd::prelude::*;

use crate::document::{
    AuthorizationCodeFlow, ClientCredentialsFlow, Components, Document, Flows, ImplicitFlow,
    OperationObject, ParameterOrRef, PasswordFlow, PathItem, RequestBodyOrRef,
    SecurityScheme, SecuritySchemeOrRef, Server,
};
use crate::hoist::{name_in, BuildContext};
use crate::infer::{
    clone_opt_string, components_converted, convert_schemas, deprecated_or_default, keys_seeded,
    lemma_count_hoisted_all, lemma_count_hoisted_append, lemma_extends_refl, lemma_find_decl_append,
    lemma_name_in_prefix, lemma_prefix_push, opt_text, resolved_count,
};
use crate::hoist::count_hoisted;
use crate::ir::{
    ApiKeyLocation, ApiMeta, AuthKind, AuthScheme, Body, CookieParam, Docs, ErrorUse, GenIr,
    HeaderParam, HttpMethod, HttpShape, OAuthFlow, OAuthFlowKind, OAuthScope, Operation, PathParam,
    Payload, QueryParam, Service, ServerSet, ServerUrl, StableId,
};
use crate::naming::{name_wf, CanonicalName};
use crate::params::{
    body_post, convert_parameter, convert_request_body, convert_responses, first_success,
    param_core_matches, param_ty_matches, payload_step,
};
use crate::infer::witness_ctx;
use crate::resolve::spec_resolution;
use crate::strutil::{lemma_lex_connex, lemma_lex_irrefl, lemma_lex_trans, lex_lt, push_char, str_eq, str_lt};

verus! {

/// Converts declared servers into one default server set; none when the
/// document declares no server.
#[verifier::loop_isolation(false)]
pub fn convert_servers(servers: &Vec<Server>) -> (r: Vec<ServerSet>)
    ensures
        servers@.len() == 0 ==> r@.len() == 0,
        servers@.len() > 0 ==> {
            &&& r@.len() == 1
            &&& r@[0].name.canonical@ == "default"@
            &&& name_wf(r@[0].name)
            &&& r@[0].urls@.len() == servers@.len()
            &&& forall|i: int|
                0 <= i < servers@.len() ==> (#[trigger] r@[0].urls@[i]).template@
                    == servers@[i].url@ && r@[0].urls@[i].resolved_preview@ == servers@[i].url@
        },
{
    if servers.len() == 0 {
        return Vec::new();
    }
    let n = servers.len();
    let mut urls: Vec<ServerUrl> = Vec::new();
    let mut i: usize = 0;
    while i < n
        invariant
            i <= n,
            urls@.len() == i,
            forall|j: int|
                0 <= j < i ==> (#[trigger] urls@[j]).template@ == servers@[j].url@
                    && urls@[j].resolved_preview@ == servers@[j].url@,
        decreases n - i,
    {
        urls.push(
            ServerUrl {
                template: servers[i].url.clone(),
                resolved_preview: servers[i].url.clone(),
                variables: Vec::new(),
            },
        );
        i = i + 1;
    }
    let mut out: Vec<ServerSet> = Vec::new();
    out.push(ServerSet { name: CanonicalName::from_string("default"), urls });
    out
}

/// Scopes correspond pairwise: same names, descriptions carried over.
pub open spec fn scopes_match(ss: Seq<OAuthScope>, sm: Seq<(String, String)>) -> bool {
    &&& ss.len() == sm.len()
    &&& forall|i: int|
        0 <= i < ss.len() ==> (#[trigger] ss[i]).name@ == sm[i].0@ && (ss[i].description
            matches Some(d) && d@ == sm[i].1@)
}

/// Converts an OAuth2 scope map.
#[verifier::loop_isolation(false)]
pub fn convert_oauth_scopes(scopes: &Vec<(String, String)>) -> (r: Vec<OAuthScope>)
    ensures
        scopes_match(r@, scopes@),
{
    let n = scopes.len();
    let mut out: Vec<OAuthScope> = Vec::new();
    let mut i: usize = 0;
    while i < n
        invariant
            i <= n,
            out@.len() == i,
            forall|j: int|
                0 <= j < i ==> (#[trigger] out@[j]).name@ == scopes@[j].0@ && (out@[j].description
                    matches Some(d) && d@ == scopes@[j].1@),
        decreases n - i,
    {
        out.push(
            OAuthScope { name: scopes[i].0.clone(), description: Some(scopes[i].1.clone()) },
        );
        i = i + 1;
    }
    out
}

pub open spec fn implicit_n(f: Flows) -> int {
    if f.implicit is Some {
        1
    } else {
        0
    }
}

pub open spec fn password_n(f: Flows) -> int {
    if f.password is Some {
        1
    } else {
        0
    }
}

pub open spec fn cc_n(f: Flows) -> int {
    if f.client_credentials is Some {
        1
    } else {
        0
    }
}

pub open spec fn ac_n(f: Flows) -> int {
    if f.authorization_code is Some {
        1
    } else {
        0
    }
}

pub open spec fn implicit_flow_matches(o: OAuthFlow, f: ImplicitFlow) -> bool {
    &&& o.kind is Implicit
    &&& o.authorization_url matches Some(u) && u@ == f.authorization_url@
    &&& o.token_url is None
    &&& opt_text(o.refresh_url) == opt_text(f.refresh_url)
    &&& scopes_match(o.scopes@, f.scopes@)
}

pub open spec fn password_flow_matches(o: OAuthFlow, f: PasswordFlow) -> bool {
    &&& o.kind is Password
    &&& o.authorization_url is None
    &&& o.token_url matches Some(u) && u@ == f.token_url@
    &&& opt_text(o.refresh_url) == opt_text(f.refresh_url)
    &&& scopes_match(o.scopes@, f.scopes@)
}

pub open spec fn cc_flow_matches(o: OAuthFlow, f: ClientCredentialsFlow) -> bool {
    &&& o.kind is ClientCredentials
    &&& o.authorization_url is None
    &&& o.token_url matches Some(u) && u@ == f.token_url@
    &&& opt_text(o.refresh_url) == opt_text(f.refresh_url)
    &&& scopes_match(o.scopes@, f.scopes@)
}

pub open spec fn ac_flow_matches(o: OAuthFlow, f: AuthorizationCodeFlow) -> bool {
    &&& o.kind is AuthorizationCode
    &&& o.authorization_url matches Some(u) && u@ == f.authorization_url@
    &&& o.token_url matches Some(u) && u@ == f.token_url@
    &&& opt_text(o.refresh_url) == opt_text(f.refresh_url)
    &&& scopes_match(o.scopes@, f.scopes@)
}

/// Converts the declared OAuth2 flows, in the fixed order implicit,
/// password, client credentials, authorization code.
pub fn convert_oauth_flows(flows: &Flows) -> (r: Vec<OAuthFlow>)
    ensures
        r@.len() == implicit_n(*flows) + password_n(*flows) + cc_n(*flows) + ac_n(*flows),
        flows.implicit matches Some(f) ==> implicit_flow_matches(r@[0], f),
        flows.password matches Some(f) ==> password_flow_matches(r@[implicit_n(*flows)], f),
        flows.client_credentials matches Some(f) ==> cc_flow_matches(
            r@[implicit_n(*flows) + password_n(*flows)],
            f,
        ),
        flows.authorization_code matches Some(f) ==> ac_flow_matches(
            r@[implicit_n(*flows) + password_n(*flows) + cc_n(*flows)],
            f,
        ),
{
    let mut out: Vec<OAuthFlow> = Vec::new();
    match &flows.implicit {
        Some(f) => {
            out.push(
                OAuthFlow {
                    kind: OAuthFlowKind::Implicit,
                    authorization_url: Some(f.authorization_url.clone()),
                    token_url: None,
                    refresh_url: clone_opt_string(&f.refresh_url),
                    scopes: convert_oauth_scopes(&f.scopes),
                },
            );
        },
        None => {},
    }
    match &flows.password {
        Some(f) => {
            out.push(
                OAuthFlow {
                    kind: OAuthFlowKind::Password,
                    authorization_url: None,
                    token_url: Some(f.token_url.clone()),
                    refresh_url: clone_opt_string(&f.refresh_url),
                    scopes: convert_oauth_scopes(&f.scopes),
                },
            );
        },
        None => {},
    }
    match &flows.client_credentials {
        Some(f) => {
            out.push(
                OAuthFlow {
                    kind: OAuthFlowKind::ClientCredentials,
                    authorization_url: None,
                    token_url: Some(f.token_url.clone()),
                    refresh_url: clone_opt_string(&f.refresh_url),
                    scopes: convert_oauth_scopes(&f.scopes),
                },
            );
        },
        None => {},
    }
    match &flows.authorization_code {
        Some(f) => {
            out.push(
                OAuthFlow {
                    kind: OAuthFlowKind::AuthorizationCode,
                    authorization_url: Some(f.authorization_url.clone()),
                    token_url: Some(f.token_url.clone()),
                    refresh_url: clone_opt_string(&f.refresh_url),
                    scopes: convert_oauth_scopes(&f.scopes),
                },
            );
        },
        None => {},
    }
    out
}

/// Where an API key travels, from its declared location word; `header` when
/// the word is not recognized.
pub open spec fn spec_api_key_location(loc: Seq<char>) -> ApiKeyLocation {
    if loc == "query"@ {
        ApiKeyLocation::Query
    } else if loc == "cookie"@ {
        ApiKeyLocation::Cookie
    } else {
        ApiKeyLocation::Header
    }
}

/// One produced auth scheme against its declared source.
pub open spec fn scheme_matches(nm: String, s: SecurityScheme, a: AuthScheme) -> bool {
    &&& a.id@ == nm@
    &&& a.name.canonical@ == nm@
    &&& name_wf(a.name)
    &&& match s {
        SecurityScheme::ApiKey { name: pn, location, description } => {
            &&& a.kind matches AuthKind::ApiKey { location: l, param_name } && param_name@ == pn@
                && l == spec_api_key_location(location@)
            &&& opt_text(a.docs.description) == opt_text(description)
        },
        SecurityScheme::Http { scheme, bearer_format, description } => {
            &&& a.kind matches AuthKind::Http { scheme: sc, bearer_format: bf } && sc@ == scheme@
                && opt_text(bf) == opt_text(bearer_format)
            &&& opt_text(a.docs.description) == opt_text(description)
        },
        SecurityScheme::OAuth2 { flows, description } => {
            &&& a.kind is OAuth2
            &&& opt_text(a.docs.description) == opt_text(description)
        },
        SecurityScheme::OpenIdConnect { url, description } => {
            &&& a.kind matches AuthKind::OpenIdConnect { url: u } && u@ == url@
            &&& opt_text(a.docs.description) == opt_text(description)
        },
        SecurityScheme::MutualTls { .. } => false,
    }
}

/// Whether a declared scheme entry yields an auth scheme: it is inline and
/// of a supported kind.
pub open spec fn scheme_kept(e: (String, SecuritySchemeOrRef)) -> bool {
    e.1 matches SecuritySchemeOrRef::Inline(s) && !(s is MutualTls)
}

/// The produced auth schemes are exactly the kept entries, in table order.
pub open spec fn auth_schemes_match(
    entries: Seq<(String, SecuritySchemeOrRef)>,
    out: Seq<AuthScheme>,
) -> bool
    decreases entries.len(),
{
    if entries.len() == 0 {
        out.len() == 0
    } else if scheme_kept(entries.last()) {
        &&& out.len() > 0
        &&& (entries.last().1 matches SecuritySchemeOrRef::Inline(s) && scheme_matches(
            entries.last().0,
            s,
            out.last(),
        ))
        &&& auth_schemes_match(entries.drop_last(), out.drop_last())
    } else {
        auth_schemes_match(entries.drop_last(), out)
    }
}

/// Converts the declared security schemes.  A reference entry or an
/// unsupported kind is skipped.
#[verifier::loop_isolation(false)]
pub fn convert_security_schemes(components: &Components) -> (r: Vec<AuthScheme>)
    ensures
        auth_schemes_match(components.security_schemes@, r@),
{
    let entries = &components.security_schemes;
    let n = entries.len();
    let mut out: Vec<AuthScheme> = Vec::new();
    let mut i: usize = 0;
    proof {
        assert(entries@.take(0).len() == 0);
    }
    while i < n
        invariant
            i <= n,
            auth_schemes_match(entries@.take(i as int), out@),
        decreases n - i,
    {
        proof {
            assert(entries@.take(i as int + 1).last() == entries@[i as int]);
            assert(entries@.take(i as int + 1).drop_last() =~= entries@.take(i as int));
        }
        let name: &String = &entries[i].0;
        match &entries[i].1 {
            SecuritySchemeOrRef::Inline(scheme) => {
                let kind_opt: Option<AuthKind> = match scheme {
                    SecurityScheme::ApiKey { name: param_name, location, .. } => {
                        let loc = if str_eq(location.as_str(), "query") {
                            ApiKeyLocation::Query
                        } else if str_eq(location.as_str(), "cookie") {
                            ApiKeyLocation::Cookie
                        } else {
                            ApiKeyLocation::Header
                        };
                        Some(AuthKind::ApiKey { location: loc, param_name: param_name.clone() })
                    },
                    SecurityScheme::Http { scheme: sc, bearer_format, .. } => {
                        Some(
                            AuthKind::Http {
                                scheme: sc.clone(),
                                bearer_format: clone_opt_string(bearer_format),
                            },
                        )
                    },
                    SecurityScheme::OAuth2 { flows, .. } => {
                        Some(AuthKind::OAuth2 { flows: convert_oauth_flows(flows) })
                    },
                    SecurityScheme::OpenIdConnect { url, .. } => {
                        Some(AuthKind::OpenIdConnect { url: url.clone() })
                    },
                    SecurityScheme::MutualTls { .. } => None,
                };
                let description: Option<String> = match scheme {
                    SecurityScheme::ApiKey { description, .. } => clone_opt_string(description),
                    SecurityScheme::Http { description, .. } => clone_opt_string(description),
                    SecurityScheme::OAuth2 { description, .. } => clone_opt_string(description),
                    SecurityScheme::OpenIdConnect { description, .. } => clone_opt_string(
                        description,
                    ),
                    SecurityScheme::MutualTls { description } => clone_opt_string(description),
                };
                match kind_opt {
                    Some(kind) => {
                        let ghost prev_out = out@;
                        out.push(
                            AuthScheme {
                                id: StableId::new(name.as_str()),
                                name: CanonicalName::from_string(name.as_str()),
                                kind,
                                docs: Docs {
                                    summary: None,
                                    description,
                                    deprecated: false,
                                    since: None,
                                    examples: Vec::new(),
                                    external_urls: Vec::new(),
                                },
                            },
                        );
                        proof {
                            assert(out@.drop_last() =~= prev_out);
                            assert(scheme_kept(entries@[i as int]));
                            assert(scheme_matches(
                                entries@[i as int].0,
                                entries@[i as int].1->Inline_0,
                                out@.last(),
                            ));
                        }
                    },
                    None => {
                        proof {
                            assert(!scheme_kept(entries@[i as int]));
                        }
                    },
                }
            },
            SecuritySchemeOrRef::Reference(_) => {
                proof {
                    assert(!scheme_kept(entries@[i as int]));
                }
            },
        }
        i = i + 1;
    }
    proof {
        assert(entries@.take(n as int) =~= entries@);
    }
    out
}

/// The HTTP method a method slot stands for.
pub open spec fn spec_method(m: Seq<char>) -> HttpMethod {
    if m == "get"@ {
        HttpMethod::Get
    } else if m == "post"@ {
        HttpMethod::Post
    } else if m == "put"@ {
        HttpMethod::Put
    } else if m == "delete"@ {
        HttpMethod::Delete
    } else if m == "patch"@ {
        HttpMethod::Patch
    } else if m == "head"@ {
        HttpMethod::Head
    } else if m == "options"@ {
        HttpMethod::Options
    } else if m == "trace"@ {
        HttpMethod::Trace
    } else {
        HttpMethod::Get
    }
}

fn method_of(m: &str) -> (r: HttpMethod)
    ensures
        r == spec_method(m@),
{
    if str_eq(m, "get") {
        HttpMethod::Get
    } else if str_eq(m, "post") {
        HttpMethod::Post
    } else if str_eq(m, "put") {
        HttpMethod::Put
    } else if str_eq(m, "delete") {
        HttpMethod::Delete
    } else if str_eq(m, "patch") {
        HttpMethod::Patch
    } else if str_eq(m, "head") {
        HttpMethod::Head
    } else if str_eq(m, "options") {
        HttpMethod::Options
    } else if str_eq(m, "trace") {
        HttpMethod::Trace
    } else {
        HttpMethod::Get
    }
}

/// The path with every `/` replaced by `_`.
pub open spec fn underscored(p: Seq<char>) -> Seq<char> {
    p.map_values(
        |c: char|
            if c == '/' {
                '_'
            } else {
                c
            },
    )
}

/// The effective operation id: the declared one, or
/// `<method>_<path-with-slashes-as-underscores>`.
pub open spec fn spec_op_id(o: OperationObject, method: Seq<char>, path: Seq<char>) -> Seq<char> {
    match o.operation_id {
        Option::Some(s) => s@,
        Option::None => method + seq!['_'] + underscored(path),
    }
}

/// Builds the default operation id.
#[verifier::loop_isolation(false)]
fn default_op_id(method: &str, path: &str) -> (r: String)
    ensures
        r@ == method@ + seq!['_'] + underscored(path@),
{
    let mut out = method.to_owned();
    push_char(&mut out, '_');
    let n = path.unicode_len();
    let mut i: usize = 0;
    proof {
        assert(underscored(path@).take(0) =~= Seq::<char>::empty());
        assert(out@ =~= method@ + seq!['_'] + underscored(path@).take(0));
    }
    while i < n
        invariant
            i <= n,
            out@ == method@ + seq!['_'] + underscored(path@).take(i as int),
        decreases n - i,
    {
        let c = path.get_char(i);
        let rc = if c == '/' {
            '_'
        } else {
            c
        };
        push_char(&mut out, rc);
        proof {
            assert(underscored(path@).take(i as int + 1) =~= underscored(path@).take(
                i as int,
            ).push(rc));
            assert(out@ =~= method@ + seq!['_'] + underscored(path@).take(i as int + 1));
        }
        i = i + 1;
    }
    proof {
        assert(underscored(path@).take(n as int) =~= underscored(path@));
    }
    out
}

/// The four parameter buckets against the declared parameter list: walking
/// the list from the end, a reference contributes nothing, an inline
/// parameter extends exactly the bucket of its location.
pub open spec fn params_post(
    doc: Document,
    ps: Seq<crate::document::ParameterOrRef>,
    pp: Seq<PathParam>,
    q: Seq<QueryParam>,
    h: Seq<HeaderParam>,
    ck: Seq<CookieParam>,
) -> bool
    decreases ps.len(),
{
    if ps.len() == 0 {
        pp.len() == 0 && q.len() == 0 && h.len() == 0 && ck.len() == 0
    } else {
        match ps.last() {
            crate::document::ParameterOrRef::Reference(_) => params_post(
                doc,
                ps.drop_last(),
                pp,
                q,
                h,
                ck,
            ),
            crate::document::ParameterOrRef::Inline(p) => match p.location {
                crate::document::ParameterIn::Path => {
                    &&& pp.len() > 0
                    &&& param_core_matches(pp.last().name, pp.last().wire@, pp.last().docs, p)
                    &&& param_ty_matches(doc, p, pp.last().ty)
                    &&& params_post(doc, ps.drop_last(), pp.drop_last(), q, h, ck)
                },
                crate::document::ParameterIn::Query => {
                    &&& q.len() > 0
                    &&& param_core_matches(q.last().name, q.last().wire@, q.last().docs, p)
                    &&& param_ty_matches(doc, p, q.last().ty)
                    &&& q.last().required == (p.required == Some(true))
                    &&& params_post(doc, ps.drop_last(), pp, q.drop_last(), h, ck)
                },
                crate::document::ParameterIn::Header => {
                    &&& h.len() > 0
                    &&& param_core_matches(h.last().name, h.last().wire@, h.last().docs, p)
                    &&& param_ty_matches(doc, p, h.last().ty)
                    &&& h.last().required == (p.required == Some(true))
                    &&& params_post(doc, ps.drop_last(), pp, q, h.drop_last(), ck)
                },
                crate::document::ParameterIn::Cookie => {
                    &&& ck.len() > 0
                    &&& param_core_matches(ck.last().name, ck.last().wire@, ck.last().docs, p)
                    &&& param_ty_matches(doc, p, ck.last().ty)
                    &&& ck.last().required == (p.required == Some(true))
                    &&& params_post(doc, ps.drop_last(), pp, q, h, ck.drop_last())
                },
            },
        }
    }
}

/// How an operation's body, consumed content types, success payload and
/// produced content types relate to the declared request body and responses:
/// the conversions ran one after the other, starting from the entry context
/// carrying the effective operation id as the naming context, and ending at
/// the final context (whose naming context is cleared again).
pub open spec fn op_io_post(
    doc: Document,
    c_entry: BuildContext,
    c_final: BuildContext,
    oo: OperationObject,
    op_id: Seq<char>,
    r: Operation,
) -> bool {
    exists|ca: BuildContext, cb: BuildContext, cc: BuildContext|
        #![trigger witness_ctx(ca), witness_ctx(cb), witness_ctx(cc)]
        {
            &&& ca.types@ == c_entry.types@
            &&& ca.inline_cache@ == c_entry.inline_cache@
            &&& ca.used_type_names@ == c_entry.used_type_names@
            &&& opt_text(ca.current_operation_id) == Some(op_id)
            &&& match oo.request_body {
                Option::Some(crate::document::RequestBodyOrRef::Inline(rb)) => {
                    &&& body_post(
                        doc,
                        ca,
                        rb.content@,
                        match r.http.body {
                            Option::Some(b) => b.variants@,
                            Option::None => Seq::empty(),
                        },
                        cb,
                    )
                    &&& r.http.consumes@.len() == rb.content@.len()
                    &&& forall|i: int|
                        0 <= i < rb.content@.len() ==> (#[trigger] r.http.consumes@[i])@
                            == rb.content@[i].0@
                    &&& (r.http.body is Some) == exists|i: int|
                        0 <= i < rb.content@.len() && (#[trigger] rb.content@[i]).1.schema is Some
                    &&& r.http.body matches Some(b) ==> b.preferred matches Some(p) && p@
                        == "application/json"@
                },
                _ => {
                    &&& r.http.body is None
                    &&& r.http.consumes@.len() == 0
                    &&& cb == ca
                },
            }
            &&& match oo.responses {
                Option::Some(rs) => {
                    &&& (r.success is Some) == (first_success(rs@) is Some)
                    &&& r.success matches Some(p) ==> payload_step(
                        doc,
                        cb,
                        rs@[first_success(rs@)->Some_0],
                        p,
                        r.http.produces@,
                        cc,
                    )
                    &&& r.success is None ==> cc == cb && r.http.produces@.len() == 0
                },
                Option::None => {
                    &&& r.success is None
                    &&& r.http.produces@.len() == 0
                    &&& cc == cb
                },
            }
            &&& cc.types@ == c_final.types@
            &&& cc.inline_cache@ == c_final.inline_cache@
            &&& cc.used_type_names@ == c_final.used_type_names@
        }
}

/// An operation's derived flags are consistent: idempotency comes from the
/// method alone.
pub open spec fn op_ok(op: Operation) -> bool {
    op.idempotent == (op.http.method is Get || op.http.method is Put || op.http.method is Delete)
}

/// Converts one declared operation into an IR operation: id and name from
/// the declared or defaulted operation id, parameters bucketed by location,
/// request body and first 2xx response converted against the registry, and
/// idempotency derived from the HTTP method alone.
#[verifier::loop_isolation(false)]
pub fn convert_operation(
    doc: &Document,
    ctx: &mut BuildContext,
    path: &String,
    method_name: &str,
    oo: &OperationObject,
) -> (r: Operation)
    requires
        old(ctx).inv(),
        old(ctx).current_operation_id is None,
    ensures
        final(ctx).inv(),
        BuildContext::extends(*old(ctx), *final(ctx)),
        r.http.method == spec_method(method_name@),
        r.idempotent == (r.http.method is Get || r.http.method is Put || r.http.method
            is Delete),
        op_ok(r),
        r.id@ == spec_op_id(*oo, method_name@, path@),
        r.name.canonical@ == spec_op_id(*oo, method_name@, path@),
        name_wf(r.name),
        r.http.path_template@ == path@,
        r.deprecated == (oo.deprecated == Some(true)),
        opt_text(r.docs.summary) == opt_text(oo.summary),
        opt_text(r.docs.description) == opt_text(oo.description),
        r.alt_success@.len() == 0,
        r.errors is Absent,
        r.auth@.len() == 0,
        r.pagination is None,
        params_post(
            *doc,
            oo.parameters@,
            r.http.path_params@,
            r.http.query@,
            r.http.headers@,
            r.http.cookies@,
        ),
        op_io_post(
            *doc,
            *old(ctx),
            *final(ctx),
            *oo,
            spec_op_id(*oo, method_name@, path@),
            r,
        ),
{
    let operation_id: String = match &oo.operation_id {
        Some(s) => s.clone(),
        None => default_op_id(method_name, path.as_str()),
    };
    let ghost ctx0 = *ctx;
    ctx.current_operation_id = Some(operation_id.clone());
    let ghost ctx_named = *ctx;

    let id = StableId::new(operation_id.as_str());
    let name = CanonicalName::from_string(operation_id.as_str());
    let method = method_of(method_name);
    let docs = Docs {
        summary: clone_opt_string(&oo.summary),
        description: clone_opt_string(&oo.description),
        deprecated: deprecated_or_default(&oo.deprecated),
        since: None,
        examples: Vec::new(),
        external_urls: Vec::new(),
    };

    let mut path_params: Vec<PathParam> = Vec::new();
    let mut query: Vec<QueryParam> = Vec::new();
    let mut headers: Vec<HeaderParam> = Vec::new();
    let mut cookies: Vec<CookieParam> = Vec::new();
    let pn = oo.parameters.len();
    let mut pi: usize = 0;
    proof {
        assert(oo.parameters@.take(0).len() == 0);
    }
    while pi < pn
        invariant
            pi <= pn,
            *ctx == ctx_named,
            params_post(
                *doc,
                oo.parameters@.take(pi as int),
                path_params@,
                query@,
                headers@,
                cookies@,
            ),
        decreases pn - pi,
    {
        proof {
            assert(oo.parameters@.take(pi as int + 1).drop_last() =~= oo.parameters@.take(
                pi as int,
            ));
            assert(oo.parameters@.take(pi as int + 1).last() == oo.parameters@[pi as int]);
        }
        let ghost pp0 = path_params@;
        let ghost q0 = query@;
        let ghost h0 = headers@;
        let ghost ck0 = cookies@;
        match &oo.parameters[pi] {
            ParameterOrRef::Inline(param) => {
                convert_parameter(
                    doc,
                    param,
                    &mut path_params,
                    &mut query,
                    &mut headers,
                    &mut cookies,
                );
                proof {
                    match param.location {
                        crate::document::ParameterIn::Path => {
                            assert(path_params@.drop_last() =~= pp0);
                        },
                        crate::document::ParameterIn::Query => {
                            assert(query@.drop_last() =~= q0);
                        },
                        crate::document::ParameterIn::Header => {
                            assert(headers@.drop_last() =~= h0);
                        },
                        crate::document::ParameterIn::Cookie => {
                            assert(cookies@.drop_last() =~= ck0);
                        },
                    }
                    assert(params_post(
                        *doc,
                        oo.parameters@.take(pi as int + 1),
                        path_params@,
                        query@,
                        headers@,
                        cookies@,
                    ));
                }
            },
            ParameterOrRef::Reference(_) => {
                proof {
                    assert(params_post(
                        *doc,
                        oo.parameters@.take(pi as int + 1),
                        path_params@,
                        query@,
                        headers@,
                        cookies@,
                    ));
                }
            },
        }
        pi = pi + 1;
    }
    proof {
        assert(oo.parameters@.take(pn as int) =~= oo.parameters@);
    }

    let (body, consumes): (Option<Body>, Vec<String>) = match &oo.request_body {
        Some(RequestBodyOrRef::Inline(rb)) => convert_request_body(doc, ctx, rb),
        _ => (None, Vec::new()),
    };
    let ghost ctx_body = *ctx;

    let (success, produces): (Option<Payload>, Vec<String>) = match &oo.responses {
        Some(rs) => convert_responses(doc, ctx, rs),
        None => (None, Vec::new()),
    };
    let ghost ctx_resp = *ctx;

    ctx.current_operation_id = None;

    proof {
        BuildContext::lemma_extends_trans(ctx_named, ctx_body, ctx_resp);
        assert(BuildContext::extends(*old(ctx), *ctx)) by {
            assert(ctx_named.types@ == old(ctx).types@);
            assert(ctx_named.inline_cache@ == old(ctx).inline_cache@);
            assert(ctx_named.used_type_names@ == old(ctx).used_type_names@);
            assert(ctx.types@ == ctx_resp.types@);
            assert(ctx.inline_cache@ == ctx_resp.inline_cache@);
            assert(ctx.used_type_names@ == ctx_resp.used_type_names@);
        }
        assert(witness_ctx(ctx_named));
        assert(witness_ctx(ctx_body));
        assert(witness_ctx(ctx_resp));
        assert(opt_text(ctx_named.current_operation_id) == Some(
            spec_op_id(*oo, method_name@, path@),
        ));
    }

    let idempotent = match method {
        HttpMethod::Get | HttpMethod::Put | HttpMethod::Delete => true,
        _ => false,
    };

    let http = HttpShape {
        method,
        path_template: path.clone(),
        segments: Vec::new(),
        query,
        headers,
        cookies,
        path_params,
        body,
        consumes,
        produces,
    };

    Operation {
        id,
        name,
        docs,
        deprecated: deprecated_or_default(&oo.deprecated),
        http,
        success,
        alt_success: Vec::new(),
        errors: ErrorUse::Absent,
        auth: Vec::new(),
        pagination: None,
        idempotent,
        retryable_statuses: Vec::new(),
    }
}

/// Keys of the tag map are strictly sorted, so every tag owns one group.
pub open spec fn map_sorted(m: Seq<(String, Vec<Operation>)>) -> bool {
    forall|i: int, j: int|
        0 <= i < j < m.len() ==> lex_lt((#[trigger] m[i]).0@, (#[trigger] m[j]).0@)
}

/// Every group is non-empty and holds only operations with consistent flags.
pub open spec fn groups_ok(m: Seq<(String, Vec<Operation>)>) -> bool {
    &&& forall|g: int| 0 <= g < m.len() ==> (#[trigger] m[g]).1@.len() > 0
    &&& forall|g: int, k: int|
        0 <= g < m.len() && 0 <= k < m[g].1@.len() ==> op_ok(#[trigger] m[g].1@[k])
}

/// Total number of grouped operations.
pub open spec fn total_ops(m: Seq<(String, Vec<Operation>)>) -> nat
    decreases m.len(),
{
    if m.len() == 0 {
        0
    } else {
        total_ops(m.drop_last()) + m.last().1@.len()
    }
}

proof fn lemma_total_ops_update_push(
    m: Seq<(String, Vec<Operation>)>,
    i: int,
    e: (String, Vec<Operation>),
)
    requires
        0 <= i < m.len(),
        e.1@.len() == m[i].1@.len() + 1,
    ensures
        total_ops(m.update(i, e)) == total_ops(m) + 1,
    decreases m.len(),
{
    if i == m.len() - 1 {
        assert(m.update(i, e).drop_last() =~= m.drop_last());
        assert(m.update(i, e).last() == e);
    } else {
        assert(m.update(i, e).drop_last() =~= m.drop_last().update(i, e));
        assert(m.update(i, e).last() == m.last());
        lemma_total_ops_update_push(m.drop_last(), i, e);
    }
}

proof fn lemma_total_ops_insert(
    m: Seq<(String, Vec<Operation>)>,
    i: int,
    e: (String, Vec<Operation>),
)
    requires
        0 <= i <= m.len(),
    ensures
        total_ops(m.insert(i, e)) == total_ops(m) + e.1@.len(),
    decreases m.len(),
{
    if i == m.len() {
        assert(m.insert(i, e).drop_last() =~= m);
        assert(m.insert(i, e).last() == e);
    } else {
        assert(m.insert(i, e).drop_last() =~= m.drop_last().insert(i, e));
        assert(m.insert(i, e).last() == m.last());
        lemma_total_ops_insert(m.drop_last(), i, e);
    }
}

/// The first declared tag, or `default`.
pub open spec fn spec_first_tag(oo: OperationObject) -> Seq<char> {
    if oo.tags@.len() > 0 {
        oo.tags@[0]@
    } else {
        "default"@
    }
}

/// What inserting one operation does to the tag map: the group keyed by the
/// tag gains the operation at its end and every other group is untouched; a
/// new tag opens a fresh one-operation group, shifting later groups by one.
pub open spec fn grouped_insert(
    m0: Seq<(String, Vec<Operation>)>,
    tag: Seq<char>,
    op: Operation,
    m1: Seq<(String, Vec<Operation>)>,
) -> bool {
    if exists|i: int| 0 <= i < m0.len() && (#[trigger] m0[i]).0@ == tag {
        exists|i: int|
            {
                &&& 0 <= i < m0.len()
                &&& (#[trigger] m0[i]).0@ == tag
                &&& m1.len() == m0.len()
                &&& (forall|j: int| 0 <= j < m0.len() && j != i ==> m1[j] == m0[j])
                &&& m1[i].0@ == tag
                &&& m1[i].1@ == m0[i].1@.push(op)
            }
    } else {
        exists|i: int|
            {
                &&& 0 <= i <= m0.len()
                &&& m1.len() == m0.len() + 1
                &&& (forall|j: int| 0 <= j < i ==> m1[j] == m0[j])
                &&& (forall|j: int| i < j < m1.len() ==> m1[j] == m0[j - 1])
                &&& (#[trigger] m1[i]).0@ == tag
                &&& m1[i].1@ == seq![op]
            }
    }
}

/// The conversion facts the grouping carries for one operation.
pub open spec fn op_from(
    op: Operation,
    path: Seq<char>,
    method: Seq<char>,
    oo: OperationObject,
) -> bool {
    &&& op.id@ == spec_op_id(oo, method, path)
    &&& op.name.canonical@ == spec_op_id(oo, method, path)
    &&& op.http.method == spec_method(method)
    &&& op_ok(op)
    &&& op.http.path_template@ == path
}

/// Appends an operation to its tag's group, creating the group at its sorted
/// position when the tag is new.
#[verifier::loop_isolation(false)]
fn insert_op(services_map: &mut Vec<(String, Vec<Operation>)>, tag: String, op: Operation)
    requires
        map_sorted(old(services_map)@),
        groups_ok(old(services_map)@),
        op_ok(op),
    ensures
        map_sorted(final(services_map)@),
        groups_ok(final(services_map)@),
        total_ops(final(services_map)@) == total_ops(old(services_map)@) + 1,
        grouped_insert(old(services_map)@, tag@, op, final(services_map)@),
{
    let n = services_map.len();
    let mut i: usize = 0;
    while i < n && str_lt(services_map[i].0.as_str(), tag.as_str())
        invariant
            i <= n,
            forall|j: int| 0 <= j < i ==> lex_lt((#[trigger] services_map@[j]).0@, tag@),
        decreases n - i,
    {
        i = i + 1;
    }
    if i < n && str_eq(services_map[i].0.as_str(), tag.as_str()) {
        let ghost m0 = services_map@;
        let mut entry = services_map.remove(i);
        entry.1.push(op);
        let ghost e = entry;
        services_map.insert(i, entry);
        proof {
            assert(services_map@ =~= m0.update(i as int, e));
            lemma_total_ops_update_push(m0, i as int, e);
            assert forall|a: int, b: int|
                0 <= a < b < services_map@.len() implies lex_lt(
                (#[trigger] services_map@[a]).0@,
                (#[trigger] services_map@[b]).0@,
            ) by {
                assert(services_map@[a].0@ == m0[a].0@);
                assert(services_map@[b].0@ == m0[b].0@);
            }
        }
    } else {
        let ghost m0 = services_map@;
        let mut ops: Vec<Operation> = Vec::new();
        ops.push(op);
        let ghost e = (tag, ops);
        proof {
            if i < n {
                if !lex_lt(tag@, m0[i as int].0@) {
                    lemma_lex_connex(m0[i as int].0@, tag@);
                    assert(m0[i as int].0@ == tag@);
                }
                assert(lex_lt(tag@, m0[i as int].0@));
            }
        }
        let tag_for_entry = tag;
        services_map.insert(i, (tag_for_entry, ops));
        proof {
            lemma_total_ops_insert(m0, i as int, e);
            // No group carries the tag yet.
            assert forall|k: int| 0 <= k < m0.len() implies (#[trigger] m0[k]).0@ != tag@ by {
                if k < i as int {
                    assert(lex_lt(m0[k].0@, tag@));
                    if m0[k].0@ == tag@ {
                        lemma_lex_irrefl(tag@);
                    }
                } else {
                    if k > i as int {
                        lemma_lex_trans(tag@, m0[i as int].0@, m0[k].0@);
                    }
                    assert(lex_lt(tag@, m0[k].0@));
                    if m0[k].0@ == tag@ {
                        lemma_lex_irrefl(tag@);
                    }
                }
            }
            assert(services_map@[i as int].0@ == tag@);
            assert(services_map@[i as int].1@ == seq![op]);
            assert(forall|j: int| 0 <= j < i ==> services_map@[j] == m0[j]);
            assert(forall|j: int|
                i < j < services_map@.len() ==> services_map@[j] == m0[j - 1]);
            assert(grouped_insert(m0, tag@, op, services_map@));
            assert forall|a: int, b: int|
                0 <= a < b < services_map@.len() implies lex_lt(
                (#[trigger] services_map@[a]).0@,
                (#[trigger] services_map@[b]).0@,
            ) by {
                let ii = i as int;
                if b < ii {
                    assert(services_map@[a] == m0[a]);
                    assert(services_map@[b] == m0[b]);
                } else if a < ii && b == ii {
                    assert(services_map@[a] == m0[a]);
                } else if a < ii && b > ii {
                    assert(services_map@[a] == m0[a]);
                    assert(services_map@[b] == m0[b - 1]);
                    if a < ii <= b - 1 && ii < m0.len() {
                        if ii <= b - 1 && ii != b - 1 {
                            lemma_lex_trans(m0[a].0@, m0[ii].0@, m0[b - 1].0@);
                        }
                    }
                } else if a == ii {
                    assert(services_map@[b] == m0[b - 1]);
                    if ii < b - 1 {
                        lemma_lex_trans(e.0@, m0[ii].0@, m0[b - 1].0@);
                    }
                } else {
                    assert(services_map@[a] == m0[a - 1]);
                    assert(services_map@[b] == m0[b - 1]);
                }
            }
        }
    }
}

/// Whether some group keyed by the tag holds an operation converted from
/// the given slot.
pub open spec fn map_has_op(
    m: Seq<(String, Vec<Operation>)>,
    tag: Seq<char>,
    path: Seq<char>,
    method: Seq<char>,
    oo: OperationObject,
) -> bool {
    exists|g: int, oi: int|
        #![trigger m[g].1@[oi]]
        {
            &&& 0 <= g < m.len()
            &&& m[g].0@ == tag
            &&& 0 <= oi < m[g].1@.len()
            &&& op_from(m[g].1@[oi], path, method, oo)
        }
}

/// A grouped insert keeps every operation already present findable.
proof fn lemma_grouped_insert_preserves(
    m0: Seq<(String, Vec<Operation>)>,
    tag2: Seq<char>,
    op2: Operation,
    m1: Seq<(String, Vec<Operation>)>,
    tag: Seq<char>,
    path: Seq<char>,
    method: Seq<char>,
    oo: OperationObject,
)
    requires
        grouped_insert(m0, tag2, op2, m1),
        map_has_op(m0, tag, path, method, oo),
    ensures
        map_has_op(m1, tag, path, method, oo),
{
    let (g, oi) = choose|g: int, oi: int|
        #![trigger m0[g].1@[oi]]
        {
            &&& 0 <= g < m0.len()
            &&& m0[g].0@ == tag
            &&& 0 <= oi < m0[g].1@.len()
            &&& op_from(m0[g].1@[oi], path, method, oo)
        };
    if exists|i: int| 0 <= i < m0.len() && (#[trigger] m0[i]).0@ == tag2 {
        let i = choose|i: int|
            {
                &&& 0 <= i < m0.len()
                &&& (#[trigger] m0[i]).0@ == tag2
                &&& m1.len() == m0.len()
                &&& (forall|j: int| 0 <= j < m0.len() && j != i ==> m1[j] == m0[j])
                &&& m1[i].0@ == tag2
                &&& m1[i].1@ == m0[i].1@.push(op2)
            };
        if g == i {
            assert(m1[g].1@[oi] == m0[g].1@[oi]);
        } else {
            assert(m1[g] == m0[g]);
            assert(m1[g].1@[oi] == m0[g].1@[oi]);
        }
    } else {
        let i = choose|i: int|
            {
                &&& 0 <= i <= m0.len()
                &&& m1.len() == m0.len() + 1
                &&& (forall|j: int| 0 <= j < i ==> m1[j] == m0[j])
                &&& (forall|j: int| i < j < m1.len() ==> m1[j] == m0[j - 1])
                &&& (#[trigger] m1[i]).0@ == tag2
                &&& m1[i].1@ == seq![op2]
            };
        if g < i {
            assert(m1[g] == m0[g]);
            assert(m1[g].1@[oi] == m0[g].1@[oi]);
        } else {
            assert(m1[g + 1] == m0[g]);
            assert(m1[g + 1].1@[oi] == m0[g].1@[oi]);
        }
    }
}

/// A grouped insert makes the inserted operation findable under its tag.
proof fn lemma_grouped_insert_adds(
    m0: Seq<(String, Vec<Operation>)>,
    tag: Seq<char>,
    op: Operation,
    m1: Seq<(String, Vec<Operation>)>,
    path: Seq<char>,
    method: Seq<char>,
    oo: OperationObject,
)
    requires
        grouped_insert(m0, tag, op, m1),
        op_from(op, path, method, oo),
    ensures
        map_has_op(m1, tag, path, method, oo),
{
    if exists|i: int| 0 <= i < m0.len() && (#[trigger] m0[i]).0@ == tag {
        let i = choose|i: int|
            {
                &&& 0 <= i < m0.len()
                &&& (#[trigger] m0[i]).0@ == tag
                &&& m1.len() == m0.len()
                &&& (forall|j: int| 0 <= j < m0.len() && j != i ==> m1[j] == m0[j])
                &&& m1[i].0@ == tag
                &&& m1[i].1@ == m0[i].1@.push(op)
            };
        assert(m1[i].1@[m0[i].1@.len() as int] == op);
    } else {
        let i = choose|i: int|
            {
                &&& 0 <= i <= m0.len()
                &&& m1.len() == m0.len() + 1
                &&& (forall|j: int| 0 <= j < i ==> m1[j] == m0[j])
                &&& (forall|j: int| i < j < m1.len() ==> m1[j] == m0[j - 1])
                &&& (#[trigger] m1[i]).0@ == tag
                &&& m1[i].1@ == seq![op]
            };
        assert(m1[i].1@[0] == op);
    }
}

/// Converts one operation slot and groups the result under its first tag.
fn handle_operation(
    doc: &Document,
    ctx: &mut BuildContext,
    path: &String,
    method_name: &str,
    oo: &OperationObject,
    services_map: &mut Vec<(String, Vec<Operation>)>,
)
    requires
        old(ctx).inv(),
        old(ctx).current_operation_id is None,
        map_sorted(old(services_map)@),
        groups_ok(old(services_map)@),
    ensures
        final(ctx).inv(),
        BuildContext::extends(*old(ctx), *final(ctx)),
        final(ctx).current_operation_id is None,
        map_sorted(final(services_map)@),
        groups_ok(final(services_map)@),
        total_ops(final(services_map)@) == total_ops(old(services_map)@) + 1,
        map_has_op(
            final(services_map)@,
            spec_first_tag(*oo),
            path@,
            method_name@,
            *oo,
        ),
        forall|t: Seq<char>, p2: Seq<char>, m2: Seq<char>, o2: OperationObject|
            #[trigger] map_has_op(old(services_map)@, t, p2, m2, o2) ==> map_has_op(
                final(services_map)@,
                t,
                p2,
                m2,
                o2,
            ),
{
    let op = convert_operation(doc, ctx, path, method_name, oo);
    let ghost gop = op;
    let tag: String = if oo.tags.len() > 0 {
        oo.tags[0].clone()
    } else {
        String::from_str("default")
    };
    proof {
        assert(tag@ == spec_first_tag(*oo));
        assert(op_from(gop, path@, method_name@, *oo));
    }
    let ghost m0 = services_map@;
    insert_op(services_map, tag, op);
    proof {
        lemma_grouped_insert_adds(
            m0,
            spec_first_tag(*oo),
            gop,
            services_map@,
            path@,
            method_name@,
            *oo,
        );
        assert forall|t: Seq<char>, p2: Seq<char>, m2: Seq<char>, o2: OperationObject|
            #[trigger] map_has_op(m0, t, p2, m2, o2) implies map_has_op(
            services_map@,
            t,
            p2,
            m2,
            o2,
        ) by {
            lemma_grouped_insert_preserves(
                m0,
                spec_first_tag(*oo),
                gop,
                services_map@,
                t,
                p2,
                m2,
                o2,
            );
        }
    }
}

/// The operation in a path item's `k`-th method slot, in the fixed walk
/// order get, post, put, delete, patch, head, options, trace.
pub open spec fn slot_op(p: PathItem, k: int) -> Option<OperationObject> {
    if k == 0 {
        p.get
    } else if k == 1 {
        p.post
    } else if k == 2 {
        p.put
    } else if k == 3 {
        p.delete
    } else if k == 4 {
        p.patch
    } else if k == 5 {
        p.head
    } else if k == 6 {
        p.options
    } else if k == 7 {
        p.trace
    } else {
        Option::None
    }
}

/// The method name of the `k`-th slot.
pub open spec fn slot_method(k: int) -> Seq<char> {
    if k == 0 {
        "get"@
    } else if k == 1 {
        "post"@
    } else if k == 2 {
        "put"@
    } else if k == 3 {
        "delete"@
    } else if k == 4 {
        "patch"@
    } else if k == 5 {
        "head"@
    } else if k == 6 {
        "options"@
    } else {
        "trace"@
    }
}

/// Operations declared by one path item.
pub open spec fn count_ops_item(p: PathItem) -> nat {
    (if p.get is Some {
        1nat
    } else {
        0nat
    }) + (if p.post is Some {
        1nat
    } else {
        0nat
    }) + (if p.put is Some {
        1nat
    } else {
        0nat
    }) + (if p.delete is Some {
        1nat
    } else {
        0nat
    }) + (if p.patch is Some {
        1nat
    } else {
        0nat
    }) + (if p.head is Some {
        1nat
    } else {
        0nat
    }) + (if p.options is Some {
        1nat
    } else {
        0nat
    }) + (if p.trace is Some {
        1nat
    } else {
        0nat
    })
}

/// Converts the eight method slots of one path.
#[verifier::rlimit(100)]
#[verifier::spinoff_prover]
fn convert_path_item(
    doc: &Document,
    ctx: &mut BuildContext,
    path: &String,
    item: &PathItem,
    services_map: &mut Vec<(String, Vec<Operation>)>,
)
    requires
        old(ctx).inv(),
        old(ctx).current_operation_id is None,
        map_sorted(old(services_map)@),
        groups_ok(old(services_map)@),
    ensures
        final(ctx).inv(),
        BuildContext::extends(*old(ctx), *final(ctx)),
        final(ctx).current_operation_id is None,
        map_sorted(final(services_map)@),
        groups_ok(final(services_map)@),
        total_ops(final(services_map)@) == total_ops(old(services_map)@) + count_ops_item(*item),
        forall|k: int|
            0 <= k < 8 && (#[trigger] slot_op(*item, k)) is Some ==> map_has_op(
                final(services_map)@,
                spec_first_tag(slot_op(*item, k)->Some_0),
                path@,
                slot_method(k),
                slot_op(*item, k)->Some_0,
            ),
        forall|t: Seq<char>, p2: Seq<char>, m2: Seq<char>, o2: OperationObject|
            #[trigger] map_has_op(old(services_map)@, t, p2, m2, o2) ==> map_has_op(
                final(services_map)@,
                t,
                p2,
                m2,
                o2,
            ),
{
    proof {
        lemma_extends_refl(*ctx);
    }
    let ghost c0 = *ctx;
    match &item.get {
        Some(oo) => {
            let ghost cb = *ctx;
            handle_operation(doc, ctx, path, "get", oo, services_map);
            proof {
                BuildContext::lemma_extends_trans(c0, cb, *ctx);
            }
        },
        None => {},
    }
    match &item.post {
        Some(oo) => {
            let ghost cb = *ctx;
            handle_operation(doc, ctx, path, "post", oo, services_map);
            proof {
                BuildContext::lemma_extends_trans(c0, cb, *ctx);
            }
        },
        None => {},
    }
    match &item.put {
        Some(oo) => {
            let ghost cb = *ctx;
            handle_operation(doc, ctx, path, "put", oo, services_map);
            proof {
                BuildContext::lemma_extends_trans(c0, cb, *ctx);
            }
        },
        None => {},
    }
    match &item.delete {
        Some(oo) => {
            let ghost cb = *ctx;
            handle_operation(doc, ctx, path, "delete", oo, services_map);
            proof {
                BuildContext::lemma_extends_trans(c0, cb, *ctx);
            }
        },
        None => {},
    }
    match &item.patch {
        Some(oo) => {
            let ghost cb = *ctx;
            handle_operation(doc, ctx, path, "patch", oo, services_map);
            proof {
                BuildContext::lemma_extends_trans(c0, cb, *ctx);
            }
        },
        None => {},
    }
    match &item.head {
        Some(oo) => {
            let ghost cb = *ctx;
            handle_operation(doc, ctx, path, "head", oo, services_map);
            proof {
                BuildContext::lemma_extends_trans(c0, cb, *ctx);
            }
        },
        None => {},
    }
    match &item.options {
        Some(oo) => {
            let ghost cb = *ctx;
            handle_operation(doc, ctx, path, "options", oo, services_map);
            proof {
                BuildContext::lemma_extends_trans(c0, cb, *ctx);
            }
        },
        None => {},
    }
    match &item.trace {
        Some(oo) => {
            let ghost cb = *ctx;
            handle_operation(doc, ctx, path, "trace", oo, services_map);
            proof {
                BuildContext::lemma_extends_trans(c0, cb, *ctx);
            }
        },
        None => {},
    }
}

/// Operations declared by a path table.
pub open spec fn count_ops(ps: Seq<(String, PathItem)>) -> nat
    decreases ps.len(),
{
    if ps.len() == 0 {
        0
    } else {
        count_ops(ps.drop_last()) + count_ops_item(ps.last().1)
    }
}

/// Whether some service named by the tag holds an operation converted from
/// the given slot.
pub open spec fn services_has_op(
    ss: Seq<Service>,
    tag: Seq<char>,
    path: Seq<char>,
    method: Seq<char>,
    oo: OperationObject,
) -> bool {
    exists|g: int, oi: int|
        #![trigger ss[g].operations@[oi]]
        {
            &&& 0 <= g < ss.len()
            &&& ss[g].name.canonical@ == tag
            &&& 0 <= oi < ss[g].operations@.len()
            &&& op_from(ss[g].operations@[oi], path, method, oo)
        }
}

/// The grouped services: strictly sorted by tag, non-empty, with
/// method-derived idempotency on every operation.
pub open spec fn services_wf(ss: Seq<Service>) -> bool {
    &&& forall|i: int, j: int|
        0 <= i < j < ss.len() ==> lex_lt(
            (#[trigger] ss[i]).name.canonical@,
            (#[trigger] ss[j]).name.canonical@,
        )
    &&& forall|g: int| 0 <= g < ss.len() ==> (#[trigger] ss[g]).operations@.len() > 0
    &&& forall|g: int, k: int|
        0 <= g < ss.len() && 0 <= k < ss[g].operations@.len() ==> op_ok(
            #[trigger] ss[g].operations@[k],
        )
}

/// Total operations across services.
pub open spec fn total_service_ops(ss: Seq<Service>) -> nat
    decreases ss.len(),
{
    if ss.len() == 0 {
        0
    } else {
        total_service_ops(ss.drop_last()) + ss.last().operations@.len()
    }
}

/// Converts every path's operations and groups them into services, one per
/// distinct first tag, emitted in sorted tag order.
#[verifier::loop_isolation(false)]
pub fn convert_paths(
    doc: &Document,
    ctx: &mut BuildContext,
    paths: &Option<Vec<(String, PathItem)>>,
) -> (r: Vec<Service>)
    requires
        old(ctx).inv(),
        old(ctx).current_operation_id is None,
    ensures
        final(ctx).inv(),
        BuildContext::extends(*old(ctx), *final(ctx)),
        services_wf(r@),
        total_service_ops(r@) == match *paths {
            Option::Some(v) => count_ops(v@),
            Option::None => 0,
        },
        *paths matches Some(entries) ==> forall|pi: int, k: int|
            0 <= pi < entries@.len() && 0 <= k < 8 && (#[trigger] slot_op(
                entries@[pi].1,
                k,
            )) is Some ==> services_has_op(
                r@,
                spec_first_tag(slot_op(entries@[pi].1, k)->Some_0),
                entries@[pi].0@,
                slot_method(k),
                slot_op(entries@[pi].1, k)->Some_0,
            ),
{
    let mut services_map: Vec<(String, Vec<Operation>)> = Vec::new();
    proof {
        lemma_extends_refl(*ctx);
    }
    match paths {
        Some(entries) => {
            let n = entries.len();
            let mut i: usize = 0;
            proof {
                assert(entries@.take(0).len() == 0);
            }
            while i < n
                invariant
                    i <= n,
                    ctx.inv(),
                    ctx.current_operation_id is None,
                    BuildContext::extends(*old(ctx), *ctx),
                    map_sorted(services_map@),
                    groups_ok(services_map@),
                    total_ops(services_map@) == count_ops(entries@.take(i as int)),
                    forall|pi: int, k: int|
                        0 <= pi < i && 0 <= k < 8 && (#[trigger] slot_op(
                            entries@[pi].1,
                            k,
                        )) is Some ==> map_has_op(
                            services_map@,
                            spec_first_tag(slot_op(entries@[pi].1, k)->Some_0),
                            entries@[pi].0@,
                            slot_method(k),
                            slot_op(entries@[pi].1, k)->Some_0,
                        ),
                decreases n - i,
            {
                proof {
                    assert(entries@.take(i as int + 1).last() == entries@[i as int]);
                    assert(entries@.take(i as int + 1).drop_last() =~= entries@.take(i as int));
                }
                let ghost cb = *ctx;
                convert_path_item(doc, ctx, &entries[i].0, &entries[i].1, &mut services_map);
                proof {
                    BuildContext::lemma_extends_trans(*old(ctx), cb, *ctx);
                }
                i = i + 1;
            }
            proof {
                assert(entries@.take(n as int) =~= entries@);
            }
        },
        None => {},
    }
    // Turn the ordered groups into services, consuming the map in order.
    let ghost m_orig = services_map@;
    let mut services: Vec<Service> = Vec::new();
    proof {
        assert(services_map@ =~= m_orig.skip(0));
        assert(total_ops(m_orig.take(0)) == 0);
    }
    while services_map.len() > 0
        invariant
            services@.len() + services_map@.len() == m_orig.len(),
            services_map@ == m_orig.skip(services@.len() as int),
            forall|a: int|
                0 <= a < services@.len() ==> (#[trigger] services@[a]).name.canonical@
                    == m_orig[a].0@ && services@[a].operations@ == m_orig[a].1@ && name_wf(
                    services@[a].name,
                ),
            total_service_ops(services@) == total_ops(m_orig.take(services@.len() as int)),
        decreases services_map@.len(),
    {
        let ghost k = services@.len() as int;
        proof {
            assert(services_map@[0] == m_orig[k]);
        }
        let entry = services_map.remove(0);
        proof {
            assert(entry == m_orig[k]);
        }
        let (tag, ops) = entry;
        let ghost prev_services = services@;
        services.push(
            Service {
                id: StableId::new(tag.as_str()),
                name: CanonicalName::from_string(tag.as_str()),
                docs: Docs::empty(),
                server_set: None,
                operations: ops,
            },
        );
        proof {
            assert(services_map@ =~= m_orig.skip(k + 1));
            assert(m_orig.take(k + 1).drop_last() =~= m_orig.take(k));
            assert(m_orig.take(k + 1).last() == m_orig[k]);
            assert(services@.drop_last() =~= prev_services);
            assert(services@.last().operations@ == m_orig[k].1@);
            assert(total_service_ops(services@) == total_ops(m_orig.take(k + 1)));
        }
    }
    proof {
        assert(m_orig.take(m_orig.len() as int) =~= m_orig);
        match paths {
            Some(entries) => {
                assert forall|pi: int, k: int|
                    0 <= pi < entries@.len() && 0 <= k < 8 && (#[trigger] slot_op(
                        entries@[pi].1,
                        k,
                    )) is Some implies services_has_op(
                    services@,
                    spec_first_tag(slot_op(entries@[pi].1, k)->Some_0),
                    entries@[pi].0@,
                    slot_method(k),
                    slot_op(entries@[pi].1, k)->Some_0,
                ) by {
                    let tag = spec_first_tag(slot_op(entries@[pi].1, k)->Some_0);
                    let p2 = entries@[pi].0@;
                    let m2 = slot_method(k);
                    let o2 = slot_op(entries@[pi].1, k)->Some_0;
                    assert(map_has_op(m_orig, tag, p2, m2, o2));
                    let (g, oi) = choose|g: int, oi: int|
                        #![trigger m_orig[g].1@[oi]]
                        {
                            &&& 0 <= g < m_orig.len()
                            &&& m_orig[g].0@ == tag
                            &&& 0 <= oi < m_orig[g].1@.len()
                            &&& op_from(m_orig[g].1@[oi], p2, m2, o2)
                        };
                    assert(services@[g].name.canonical@ == m_orig[g].0@);
                    assert(services@[g].operations@ == m_orig[g].1@);
                    assert(services@[g].operations@[oi] == m_orig[g].1@[oi]);
                }
            },
            None => {},
        }
        assert(services_wf(services@)) by {
            assert forall|i: int, j: int|
                0 <= i < j < services@.len() implies lex_lt(
                (#[trigger] services@[i]).name.canonical@,
                (#[trigger] services@[j]).name.canonical@,
            ) by {
                assert(lex_lt(m_orig[i].0@, m_orig[j].0@));
            }
            assert forall|g: int, k: int|
                0 <= g < services@.len() && 0 <= k < services@[g].operations@.len() implies op_ok(
                #[trigger] services@[g].operations@[k],
            ) by {
                assert(services@[g].operations@ == m_orig[g].1@);
                assert(op_ok(m_orig[g].1@[k]));
            }
        }
    }
    services
}


impl GenIr {
    /// Builds the whole IR from a parsed document: component schemas first
    /// (populating the registry with named types), then servers, security
    /// schemes and paths, with inline types hoisted into the same registry
    /// along the way.  The walk is a single sequential pass, so the same
    /// document always yields the same IR.
    #[verifier::loop_isolation(false)]
    #[verifier::rlimit(60)]
    pub fn from_document(doc: &Document) -> (r: GenIr)
        requires
            doc.wf(),
        ensures
            r.types.wf(),
            r.types@.len() == resolved_count(*doc, doc.spec_schemas().len() as int)
                + count_hoisted(r.types@),
            components_converted(*doc, r.types@, doc.spec_schemas().len() as int),
            r.api.title@ == doc.info.title@,
            r.api.version@ == doc.info.version@,
            r.api.package_name.canonical@ == doc.info.title@,
            name_wf(r.api.package_name),
            services_wf(r.services@),
            total_service_ops(r.services@) == match doc.paths {
                Option::Some(v) => count_ops(v@),
                Option::None => 0,
            },
            doc.paths matches Some(entries) ==> forall|pi: int, k: int|
                0 <= pi < entries@.len() && 0 <= k < 8 && (#[trigger] slot_op(
                    entries@[pi].1,
                    k,
                )) is Some ==> services_has_op(
                    r.services@,
                    spec_first_tag(slot_op(entries@[pi].1, k)->Some_0),
                    entries@[pi].0@,
                    slot_method(k),
                    slot_op(entries@[pi].1, k)->Some_0,
                ),
            doc.servers@.len() == 0 ==> r.server_sets@.len() == 0,
            doc.servers@.len() > 0 ==> r.server_sets@.len() == 1,
            doc.components matches Some(c) ==> auth_schemes_match(
                c.security_schemes@,
                r.auth_schemes@,
            ),
            doc.components is None ==> r.auth_schemes@.len() == 0,
            r.errors@.len() == 0,
    {
        let mut ctx = BuildContext::new();
        // Reserve every declared component name up front, so no hoisted type
        // can ever claim a component's name.
        match &doc.components {
            Some(c) => {
                let n = c.schemas.len();
                let mut j: usize = 0;
                while j < n
                    invariant
                        j <= n,
                        ctx.inv(),
                        ctx.types@.len() == 0,
                        ctx.inline_cache@.len() == 0,
                        ctx.current_operation_id is None,
                        forall|j2: int|
                            0 <= j2 < j ==> name_in(
                                ctx.used_type_names@,
                                (#[trigger] doc.spec_schemas()[j2]).0@,
                            ),
                    decreases n - j,
                {
                    let ghost used0 = ctx.used_type_names@;
                    ctx.reserve_name(c.schemas[j].0.clone());
                    proof {
                        lemma_prefix_push(used0, ctx.used_type_names@.last());
                        assert(ctx.used_type_names@.last()@ == doc.spec_schemas()[j as int].0@);
                        assert(name_in(ctx.used_type_names@, doc.spec_schemas()[j as int].0@));
                        assert forall|j2: int| 0 <= j2 < j implies name_in(
                            ctx.used_type_names@,
                            (#[trigger] doc.spec_schemas()[j2]).0@,
                        ) by {
                            lemma_name_in_prefix(
                                used0,
                                ctx.used_type_names@,
                                doc.spec_schemas()[j2].0@,
                            );
                        }
                    }
                    j = j + 1;
                }
            },
            None => {},
        }
        proof {
            assert(keys_seeded(*doc, ctx.used_type_names@));
        }
        convert_schemas(doc, &mut ctx);
        let ghost ctx_schemas = ctx;

        let api = ApiMeta {
            title: doc.info.title.clone(),
            version: doc.info.version.clone(),
            package_name: CanonicalName::from_string(doc.info.title.as_str()),
            docs: Docs {
                summary: None,
                description: clone_opt_string(&doc.info.description),
                deprecated: false,
                since: None,
                examples: Vec::new(),
                external_urls: Vec::new(),
            },
        };

        let server_sets = convert_servers(&doc.servers);
        let auth_schemes: Vec<AuthScheme> = match &doc.components {
            Some(c) => convert_security_schemes(c),
            None => Vec::new(),
        };

        let services = convert_paths(doc, &mut ctx, &doc.paths);
        let ghost ctx_paths = ctx;

        proof {
            // The path walk appended only hoisted types, so the count
            // equation survives, and every component lookup still lands on
            // its original declaration.
            let tail = ctx_paths.types@.skip(ctx_schemas.types@.len() as int);
            assert(ctx_paths.types@ == ctx_schemas.types@ + tail);
            lemma_count_hoisted_append(ctx_schemas.types@, tail);
            assert forall|t: int| 0 <= t < tail.len() implies (#[trigger] tail[t].origin) == Some(
                crate::ir::TypeOrigin::Hoisted,
            ) by {
                assert(tail[t] == ctx_paths.types@[ctx_schemas.types@.len() + t]);
            }
            lemma_count_hoisted_all(tail);
            assert(components_converted(*doc, ctx_paths.types@, doc.spec_schemas().len() as int))
                by {
                assert forall|j: int|
                    0 <= j < doc.spec_schemas().len() && spec_resolution(
                        *doc,
                        doc.spec_schemas()[j].1,
                    ) is Ok implies (crate::ir::find_decl(
                    ctx_paths.types@,
                    (#[trigger] doc.spec_schemas()[j]).0@,
                ) matches Some(dd) && exists|c_a: BuildContext, c_b: BuildContext|
                    #[trigger] crate::infer::decl_matches(
                        *doc,
                        dd,
                        doc.spec_schemas()[j].0@,
                        spec_resolution(*doc, doc.spec_schemas()[j].1)->Ok_0,
                        crate::ir::TypeOrigin::Component,
                        c_a,
                        c_b,
                    )) by {
                    lemma_find_decl_append(
                        ctx_schemas.types@,
                        tail,
                        doc.spec_schemas()[j].0@,
                    );
                }
            }
        }

        GenIr {
            api,
            types: ctx.types,
            services,
            auth_schemes,
            errors: Vec::new(),
            server_sets,
        }
    }
}

} // verus!
