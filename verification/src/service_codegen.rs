//! Service module code generation: renders one service's operations into a
//! server module with a context type, auth wrappers, per-operation result and
//! error types, a service trait, query structs, handlers, a router and an
//! extension trait.  Every rendering function's contract states the produced
//! text exactly.

use vstd::prelude::*;

use crate::ir::{
    AuthKind, AuthScheme, ErrorUse, ErrorVariant, HttpMethod, Operation, PathParam, QueryParam,
    Service, StatusSpec,
};
use crate::strutil::{push_dec, spec_dec};

verus! {

/// The fixed import block of a generated module.
pub open spec fn imports_text() -> Seq<char> {
    "use axum::{\n    extract::{Path, Query, State},\n    http::{Request, StatusCode},\n    response::{IntoResponse, Response},\n    routing::{delete, get, patch, post, put},\n    Extension, Json, Router,\n};\nuse serde::{Deserialize, Serialize};\n\nuse crate::types;\n\n"@
}

/// The fixed request-context block of a generated module.
pub open spec fn request_context_text() -> Seq<char> {
    "/// Request context containing state and request metadata\npub struct RequestContext<S> {\n    pub state: S,\n    pub method: axum::http::Method,\n    pub uri: axum::http::Uri,\n    pub headers: axum::http::HeaderMap,\n    pub extensions: axum::http::Extensions,\n}\n\nimpl<S> RequestContext<S> {\n    pub fn state(&self) -> &S {\n        &self.state\n    }\n}\n\nimpl<S: Clone> RequestContext<S> {\n    pub(crate) fn from_parts(state: S, parts: axum::http::request::Parts) -> Self {\n        RequestContext {\n            state,\n            method: parts.method,\n            uri: parts.uri,\n            headers: parts.headers,\n            extensions: parts.extensions,\n        }\n    }\n}\n\n"@
}

/// The bearer-token wrapper type.
pub open spec fn bearer_text() -> Seq<char> {
    "/// Bearer authentication token\n#[derive(Clone, Debug)]\npub struct AuthBearer(pub String);\n\n"@
}

/// The API-key wrapper type.
pub open spec fn api_key_text() -> Seq<char> {
    "/// API Key authentication\n#[derive(Clone, Debug)]\npub struct AuthApiKey(pub String);\n\n"@
}

/// The auth wrappers the declared schemes call for: one bearer wrapper the
/// first time an HTTP bearer scheme occurs, one API-key wrapper the first
/// time an API-key scheme occurs.
pub open spec fn auth_text(ss: Seq<AuthScheme>, bearer_done: bool, api_key_done: bool) -> Seq<char>
    decreases ss.len(),
{
    if ss.len() == 0 {
        Seq::empty()
    } else {
        match ss[0].kind {
            AuthKind::Http { scheme, .. } => {
                if scheme@ == "bearer"@ && !bearer_done {
                    bearer_text() + auth_text(ss.drop_first(), true, api_key_done)
                } else {
                    auth_text(ss.drop_first(), bearer_done, api_key_done)
                }
            },
            AuthKind::ApiKey { .. } => {
                if !api_key_done {
                    api_key_text() + auth_text(ss.drop_first(), bearer_done, true)
                } else {
                    auth_text(ss.drop_first(), bearer_done, api_key_done)
                }
            },
            _ => auth_text(ss.drop_first(), bearer_done, api_key_done),
        }
    }
}

/// The success status a handler answers with: the payload's code, `200`
/// when none is declared.
pub open spec fn spec_success_code(op: Operation) -> int {
    match op.success {
        Option::Some(p) => match p.status {
            StatusSpec::Code(c) => c as int,
            StatusSpec::Default => 200,
        },
        Option::None => 200,
    }
}

/// Whether the operation returns a typed payload.
pub open spec fn has_typed_success(op: Operation) -> bool {
    op.success matches Some(p) && p.ty is Some
}

/// The target type of the first request-body variant, if any.
pub open spec fn spec_body_target(op: Operation) -> Option<Seq<char>> {
    match op.http.body {
        Option::Some(b) => if b.variants.len() > 0 {
            Option::Some(b.variants[0].ty.target@)
        } else {
            Option::None
        },
        Option::None => Option::None,
    }
}

/// The word the service trait's doc line uses for a method.
pub open spec fn method_debug(m: HttpMethod) -> Seq<char> {
    match m {
        HttpMethod::Get => "Get"@,
        HttpMethod::Post => "Post"@,
        HttpMethod::Put => "Put"@,
        HttpMethod::Delete => "Delete"@,
        HttpMethod::Patch => "Patch"@,
        HttpMethod::Head => "Head"@,
        HttpMethod::Options => "Options"@,
        HttpMethod::Trace => "Trace"@,
    }
}

/// The axum routing function for a method.
pub open spec fn method_route(m: HttpMethod) -> Seq<char> {
    match m {
        HttpMethod::Get => "get"@,
        HttpMethod::Post => "post"@,
        HttpMethod::Put => "put"@,
        HttpMethod::Delete => "delete"@,
        HttpMethod::Patch => "patch"@,
        HttpMethod::Head => "head"@,
        HttpMethod::Options => "options"@,
        HttpMethod::Trace => "trace"@,
    }
}

fn push_method_debug(out: &mut String, m: &HttpMethod)
    ensures
        final(out)@ == old(out)@ + method_debug(*m),
{
    let word = match m {
        HttpMethod::Get => "Get",
        HttpMethod::Post => "Post",
        HttpMethod::Put => "Put",
        HttpMethod::Delete => "Delete",
        HttpMethod::Patch => "Patch",
        HttpMethod::Head => "Head",
        HttpMethod::Options => "Options",
        HttpMethod::Trace => "Trace",
    };
    out.append(word);
}

fn push_method_route(out: &mut String, m: &HttpMethod)
    ensures
        final(out)@ == old(out)@ + method_route(*m),
{
    let word = match m {
        HttpMethod::Get => "get",
        HttpMethod::Post => "post",
        HttpMethod::Put => "put",
        HttpMethod::Delete => "delete",
        HttpMethod::Patch => "patch",
        HttpMethod::Head => "head",
        HttpMethod::Options => "options",
        HttpMethod::Trace => "trace",
    };
    out.append(word);
}

/// One `pub type …Result` alias: the typed payload when there is one, unit
/// otherwise.
pub open spec fn result_line_text(op: Operation) -> Seq<char> {
    if has_typed_success(op) {
        "pub type "@ + op.name.pascal@ + "Result = Result<types::"@
            + op.success->Some_0.ty->Some_0.target@ + ", "@ + op.name.pascal@ + "Error>;\n\n"@
    } else {
        "pub type "@ + op.name.pascal@ + "Result = Result<(), "@ + op.name.pascal@
            + "Error>;\n\n"@
    }
}

fn push_result_line(out: &mut String, op: &Operation)
    ensures
        final(out)@ == old(out)@ + result_line_text(*op),
{
    out.append("pub type ");
    out.append(op.name.pascal.as_str());
    let typed: Option<&crate::ir::TypeRef> = match &op.success {
        Some(p) => match &p.ty {
            Some(t) => Some(t),
            None => None,
        },
        None => None,
    };
    match typed {
        Some(t) => {
            out.append("Result = Result<types::");
            out.append(t.target.0.as_str());
            out.append(", ");
            out.append(op.name.pascal.as_str());
            out.append("Error>;\n\n");
            proof {
                assert(out@ =~= old(out)@ + result_line_text(*op));
            }
        },
        None => {
            out.append("Result = Result<(), ");
            out.append(op.name.pascal.as_str());
            out.append("Error>;\n\n");
            proof {
                assert(out@ =~= old(out)@ + result_line_text(*op));
            }
        },
    }
}

/// One declared error variant line of the error enum.
pub open spec fn error_variant_line(v: ErrorVariant) -> Seq<char> {
    match v.ty {
        Option::Some(t) => "    "@ + v.name.pascal@ + "(types::"@ + t.target@ + "),\n"@,
        Option::None => "    "@ + v.name.pascal@ + ",\n"@,
    }
}

pub open spec fn error_variant_lines(vs: Seq<ErrorVariant>) -> Seq<char>
    decreases vs.len(),
{
    if vs.len() == 0 {
        Seq::empty()
    } else {
        error_variant_line(vs[0]) + error_variant_lines(vs.drop_first())
    }
}

/// The declared error variants of an operation, none when errors are absent.
pub open spec fn op_error_variants(op: Operation) -> Seq<ErrorVariant> {
    match op.errors {
        ErrorUse::Inline(decl) => decl.variants@,
        ErrorUse::Absent => Seq::empty(),
    }
}

/// The status code an error variant's response carries; `500` when none is
/// declared.
pub open spec fn variant_code(v: ErrorVariant) -> int {
    match v.status {
        StatusSpec::Code(c) => c as int,
        StatusSpec::Default => 500,
    }
}

/// One match arm of the error `IntoResponse` implementation.
pub open spec fn error_arm_text(v: ErrorVariant, pascal: Seq<char>) -> Seq<char> {
    if v.ty is Some {
        "            "@ + pascal + "Error::"@ + v.name.pascal@ + "(err) => {\n"@
            + "                let status = StatusCode::from_u16("@ + spec_dec(
            variant_code(v) as nat,
        ) + ").unwrap_or(StatusCode::INTERNAL_SERVER_ERROR);\n"@
            + "                (status, Json(err)).into_response()\n            }\n"@
    } else {
        "            "@ + pascal + "Error::"@ + v.name.pascal@ + " => {\n"@
            + "                StatusCode::from_u16("@ + spec_dec(variant_code(v) as nat)
            + ").unwrap_or(StatusCode::INTERNAL_SERVER_ERROR).into_response()\n            }\n"@
    }
}

pub open spec fn error_arms_text(vs: Seq<ErrorVariant>, pascal: Seq<char>) -> Seq<char>
    decreases vs.len(),
{
    if vs.len() == 0 {
        Seq::empty()
    } else {
        error_arm_text(vs[0], pascal) + error_arms_text(vs.drop_first(), pascal)
    }
}

/// The per-operation result alias, error enum and `IntoResponse` impl.
pub open spec fn op_types_text(op: Operation) -> Seq<char> {
    result_line_text(op) + "#[derive(Debug)]\npub enum "@ + op.name.pascal@ + "Error {\n"@
        + error_variant_lines(op_error_variants(op))
        + "    InternalError(String),\n}\n\nimpl IntoResponse for "@ + op.name.pascal@
        + "Error {\n    fn into_response(self) -> Response {\n        match self {\n"@
        + error_arms_text(op_error_variants(op), op.name.pascal@) + "            "@
        + op.name.pascal@
        + "Error::InternalError(msg) => {\n                (StatusCode::INTERNAL_SERVER_ERROR, msg).into_response()\n            }\n        }\n    }\n}\n\n"@
}

#[verifier::loop_isolation(false)]
fn push_error_variants(out: &mut String, vs: &Vec<ErrorVariant>)
    ensures
        final(out)@ == old(out)@ + error_variant_lines(vs@),
{
    let n = vs.len();
    let mut i: usize = 0;
    proof {
        assert(vs@.skip(0) =~= vs@);
    }
    while i < n
        invariant
            i <= n,
            out@ + error_variant_lines(vs@.skip(i as int)) == old(out)@ + error_variant_lines(
                vs@,
            ),
        decreases n - i,
    {
        proof {
            assert(vs@.skip(i as int)[0] == vs@[i as int]);
            assert(vs@.skip(i as int).drop_first() =~= vs@.skip(i as int + 1));
        }
        let ghost before = out@;
        out.append("    ");
        out.append(vs[i].name.pascal.as_str());
        match &vs[i].ty {
            Some(t) => {
                out.append("(types::");
                out.append(t.target.0.as_str());
                out.append("),\n");
            },
            None => {
                out.append(",\n");
            },
        }
        proof {
            assert(out@ =~= before + error_variant_line(vs@[i as int]));
            assert(out@ + error_variant_lines(vs@.skip(i as int + 1)) =~= before
                + error_variant_lines(vs@.skip(i as int)));
        }
        i = i + 1;
    }
    proof {
        assert(error_variant_lines(vs@.skip(n as int)) =~= Seq::<char>::empty());
        assert(out@ =~= out@ + error_variant_lines(vs@.skip(n as int)));
    }
}

#[verifier::loop_isolation(false)]
fn push_error_arms(out: &mut String, vs: &Vec<ErrorVariant>, pascal: &str)
    ensures
        final(out)@ == old(out)@ + error_arms_text(vs@, pascal@),
{
    let n = vs.len();
    let mut i: usize = 0;
    proof {
        assert(vs@.skip(0) =~= vs@);
    }
    while i < n
        invariant
            i <= n,
            out@ + error_arms_text(vs@.skip(i as int), pascal@) == old(out)@ + error_arms_text(
                vs@,
                pascal@,
            ),
        decreases n - i,
    {
        proof {
            assert(vs@.skip(i as int)[0] == vs@[i as int]);
            assert(vs@.skip(i as int).drop_first() =~= vs@.skip(i as int + 1));
        }
        let ghost before = out@;
        let code: u16 = match &vs[i].status {
            StatusSpec::Code(c) => *c,
            StatusSpec::Default => 500,
        };
        out.append("            ");
        out.append(pascal);
        out.append("Error::");
        out.append(vs[i].name.pascal.as_str());
        match &vs[i].ty {
            Some(_) => {
                out.append("(err) => {\n");
                out.append("                let status = StatusCode::from_u16(");
                push_dec(out, code as u128);
                out.append(").unwrap_or(StatusCode::INTERNAL_SERVER_ERROR);\n");
                out.append("                (status, Json(err)).into_response()\n            }\n");
            },
            None => {
                out.append(" => {\n");
                out.append("                StatusCode::from_u16(");
                push_dec(out, code as u128);
                out.append(
                    ").unwrap_or(StatusCode::INTERNAL_SERVER_ERROR).into_response()\n            }\n",
                );
            },
        }
        proof {
            assert(out@ =~= before + error_arm_text(vs@[i as int], pascal@));
            assert(out@ + error_arms_text(vs@.skip(i as int + 1), pascal@) =~= before
                + error_arms_text(vs@.skip(i as int), pascal@));
        }
        i = i + 1;
    }
    proof {
        assert(error_arms_text(vs@.skip(n as int), pascal@) =~= Seq::<char>::empty());
        assert(out@ =~= out@ + error_arms_text(vs@.skip(n as int), pascal@));
    }
}

#[verifier::rlimit(100)]
fn push_op_types(out: &mut String, op: &Operation)
    ensures
        final(out)@ == old(out)@ + op_types_text(*op),
{
    push_result_line(out, op);
    let ghost q1 = result_line_text(*op);
    out.append("#[derive(Debug)]\npub enum ");
    out.append(op.name.pascal.as_str());
    out.append("Error {\n");
    proof {
        assert(out@ =~= old(out)@ + (q1 + "#[derive(Debug)]\npub enum "@ + op.name.pascal@
            + "Error {\n"@));
    }
    let ghost q2 = q1 + "#[derive(Debug)]\npub enum "@ + op.name.pascal@ + "Error {\n"@;
    let empty_variants: Vec<ErrorVariant> = Vec::new();
    match &op.errors {
        ErrorUse::Inline(decl) => {
            push_error_variants(out, &decl.variants);
        },
        ErrorUse::Absent => {
            proof {
                assert(error_variant_lines(op_error_variants(*op)) =~= Seq::<char>::empty());
            }
        },
    }
    proof {
        assert(out@ =~= old(out)@ + (q2 + error_variant_lines(op_error_variants(*op))));
    }
    let ghost q3 = q2 + error_variant_lines(op_error_variants(*op));
    out.append("    InternalError(String),\n}\n\nimpl IntoResponse for ");
    out.append(op.name.pascal.as_str());
    out.append("Error {\n    fn into_response(self) -> Response {\n        match self {\n");
    proof {
        assert(out@ =~= old(out)@ + (q3 + "    InternalError(String),\n}\n\nimpl IntoResponse for "@
            + op.name.pascal@
            + "Error {\n    fn into_response(self) -> Response {\n        match self {\n"@));
    }
    let ghost q4 = q3 + "    InternalError(String),\n}\n\nimpl IntoResponse for "@
        + op.name.pascal@
        + "Error {\n    fn into_response(self) -> Response {\n        match self {\n"@;
    match &op.errors {
        ErrorUse::Inline(decl) => {
            push_error_arms(out, &decl.variants, op.name.pascal.as_str());
        },
        ErrorUse::Absent => {
            proof {
                assert(error_arms_text(op_error_variants(*op), op.name.pascal@) =~= Seq::<
                    char,
                >::empty());
            }
        },
    }
    proof {
        assert(out@ =~= old(out)@ + (q4 + error_arms_text(op_error_variants(*op), op.name.pascal@)));
    }
    let ghost q5 = q4 + error_arms_text(op_error_variants(*op), op.name.pascal@);
    out.append("            ");
    out.append(op.name.pascal.as_str());
    out.append(
        "Error::InternalError(msg) => {\n                (StatusCode::INTERNAL_SERVER_ERROR, msg).into_response()\n            }\n        }\n    }\n}\n\n",
    );
    proof {
        assert(out@ =~= old(out)@ + (q5 + "            "@ + op.name.pascal@
            + "Error::InternalError(msg) => {\n                (StatusCode::INTERNAL_SERVER_ERROR, msg).into_response()\n            }\n        }\n    }\n}\n\n"@));
        assert(q5 + "            "@ + op.name.pascal@
            + "Error::InternalError(msg) => {\n                (StatusCode::INTERNAL_SERVER_ERROR, msg).into_response()\n            }\n        }\n    }\n}\n\n"@
            == op_types_text(*op));
    }
}

/// One `name: String,` parameter line of the service trait.
pub open spec fn trait_param_lines(pp: Seq<PathParam>) -> Seq<char>
    decreases pp.len(),
{
    if pp.len() == 0 {
        Seq::empty()
    } else {
        "        "@ + pp[0].name.snake@ + ": String,\n"@ + trait_param_lines(pp.drop_first())
    }
}

/// The `query:` line of a trait method, present when the operation has query
/// parameters.
pub open spec fn trait_query_line(op: Operation) -> Seq<char> {
    if op.http.query.len() > 0 {
        "        query: "@ + op.name.pascal@ + "Query,\n"@
    } else {
        Seq::empty()
    }
}

/// The `body:` line of a trait method, present when the request body has a
/// variant.
pub open spec fn trait_body_line(op: Operation) -> Seq<char> {
    match spec_body_target(op) {
        Option::Some(t) => "        body: types::"@ + t + ",\n"@,
        Option::None => Seq::empty(),
    }
}

/// One method of the service trait.
pub open spec fn trait_op_text(op: Operation) -> Seq<char> {
    "    /// "@ + method_debug(op.http.method) + " "@ + op.http.path_template@
        + "\n    async fn "@ + op.name.snake@ + "(\n        &self,\n        ctx: RequestContext<S>,\n"@
        + trait_param_lines(op.http.path_params@) + trait_query_line(op) + trait_body_line(op)
        + "    ) -> "@ + op.name.pascal@ + "Result;\n\n"@
}

pub open spec fn trait_ops_text(ops: Seq<Operation>) -> Seq<char>
    decreases ops.len(),
{
    if ops.len() == 0 {
        Seq::empty()
    } else {
        trait_op_text(ops[0]) + trait_ops_text(ops.drop_first())
    }
}

/// The whole service trait.
pub open spec fn trait_text(s: Service) -> Seq<char> {
    "/// "@ + s.name.pascal@ + " service trait\npub trait "@ + s.name.pascal@
        + "<S>: Send + Sync {\n"@ + trait_ops_text(s.operations@) + "}\n\n"@
}

/// One field line of a query struct.
pub open spec fn query_field_lines(qs: Seq<QueryParam>) -> Seq<char>
    decreases qs.len(),
{
    if qs.len() == 0 {
        Seq::empty()
    } else {
        "    pub "@ + qs[0].name.snake@ + ": "@ + (if qs[0].required {
            "String"@
        } else {
            "Option<String>"@
        }) + ",\n"@ + query_field_lines(qs.drop_first())
    }
}

/// The query struct of one operation, empty when it has no query parameters.
pub open spec fn query_struct_text(op: Operation) -> Seq<char> {
    if op.http.query.len() > 0 {
        "#[derive(Debug, Deserialize)]\npub struct "@ + op.name.pascal@ + "Query {\n"@
            + query_field_lines(op.http.query@) + "}\n\n"@
    } else {
        Seq::empty()
    }
}

pub open spec fn query_structs_text(ops: Seq<Operation>) -> Seq<char>
    decreases ops.len(),
{
    if ops.len() == 0 {
        Seq::empty()
    } else {
        query_struct_text(ops[0]) + query_structs_text(ops.drop_first())
    }
}

/// `String` repeated `n` times, comma separated.
pub open spec fn strings_list(n: int) -> Seq<char>
    decreases n,
{
    if n <= 1 {
        "String"@
    } else {
        strings_list(n - 1) + ", String"@
    }
}

/// The extractor type of the path parameters: one `String`, or a tuple.
pub open spec fn path_tuple_text(n: int) -> Seq<char> {
    if n == 1 {
        "String"@
    } else {
        "("@ + strings_list(n) + ")"@
    }
}

/// The destructuring name list of several path parameters.
pub open spec fn param_names_list(pp: Seq<PathParam>) -> Seq<char>
    decreases pp.len(),
{
    if pp.len() == 0 {
        Seq::empty()
    } else if pp.len() == 1 {
        pp[0].name.snake@
    } else {
        param_names_list(pp.drop_last()) + ", "@ + pp.last().name.snake@
    }
}

/// The statement that unpacks the extracted path parameters.
pub open spec fn extract_text(pp: Seq<PathParam>) -> Seq<char> {
    if pp.len() == 0 {
        Seq::empty()
    } else if pp.len() == 1 {
        "    let "@ + pp[0].name.snake@ + " = path_params;\n\n"@
    } else {
        "    let ("@ + param_names_list(pp) + ") = path_params;\n\n"@
    }
}

/// The path-parameter arguments of the service call.
pub open spec fn call_arg_lines(pp: Seq<PathParam>) -> Seq<char>
    decreases pp.len(),
{
    if pp.len() == 0 {
        Seq::empty()
    } else {
        "        "@ + pp[0].name.snake@ + ",\n"@ + call_arg_lines(pp.drop_first())
    }
}

/// A generated handler's head: signature, extractors by shape, context
/// assembly and path-parameter unpacking.
pub open spec fn handler_head_text(op: Operation, tp: Seq<char>) -> Seq<char> {
    "async fn "@ + op.name.snake@
        + "_handler<S, H>(\n    State(state): State<S>,\n    Extension(service): Extension<H>,\n"@
        + (if op.http.path_params.len() > 0 {
        "    Path(path_params): Path<"@ + path_tuple_text(op.http.path_params.len() as int)
            + ">,\n"@
    } else {
        Seq::empty()
    }) + (if op.http.query.len() > 0 {
        "    Query(query): Query<"@ + op.name.pascal@ + "Query>,\n"@
    } else {
        Seq::empty()
    }) + (match spec_body_target(op) {
        Option::Some(t) => "    Json(body): Json<types::"@ + t + ">,\n"@,
        Option::None => Seq::empty(),
    })
        + "    req: Request<axum::body::Body>,\n) -> Response\nwhere\n    S: Clone + Send + Sync + 'static,\n    H: "@
        + tp
        + "<S> + Clone + Send + Sync + 'static,\n{\n    let (parts, _body) = req.into_parts();\n    let ctx = RequestContext::from_parts(state, parts);\n\n"@
        + extract_text(op.http.path_params@)
}

/// A generated handler's tail: the service call and the success answer.
pub open spec fn handler_call_text(op: Operation) -> Seq<char> {
    "    match service."@ + op.name.snake@ + "(\n        ctx,\n"@ + call_arg_lines(
        op.http.path_params@,
    ) + (if op.http.query.len() > 0 {
        "        query,\n"@
    } else {
        Seq::empty()
    }) + (if op.http.body is Some {
        "        body,\n"@
    } else {
        Seq::empty()
    }) + "    ).await {\n        Ok(result) => {\n            let status = StatusCode::from_u16("@
        + spec_dec(spec_success_code(op) as nat) + ").unwrap_or(StatusCode::OK);\n"@ + (
    if has_typed_success(op) {
        "            (status, Json(result)).into_response()\n"@
    } else {
        "            status.into_response()\n"@
    }) + "        }\n        Err(e) => e.into_response(),\n    }\n}\n\n"@
}

/// One generated handler.
pub open spec fn handler_text(op: Operation, tp: Seq<char>) -> Seq<char> {
    handler_head_text(op, tp) + handler_call_text(op)
}

pub open spec fn handlers_text(ops: Seq<Operation>, tp: Seq<char>) -> Seq<char>
    decreases ops.len(),
{
    if ops.len() == 0 {
        Seq::empty()
    } else {
        handler_text(ops[0], tp) + handlers_text(ops.drop_first(), tp)
    }
}

/// One route registration of the router.
pub open spec fn route_lines(ops: Seq<Operation>) -> Seq<char>
    decreases ops.len(),
{
    if ops.len() == 0 {
        Seq::empty()
    } else {
        "        .route(\""@ + ops[0].http.path_template@ + "\", "@ + method_route(
            ops[0].http.method,
        ) + "("@ + ops[0].name.snake@ + "_handler::<S, H>))\n"@ + route_lines(ops.drop_first())
    }
}

/// The router function.
pub open spec fn router_text(s: Service) -> Seq<char> {
    "/// Create a router for this service\npub fn router<S, H>(service: H) -> Router<S>\nwhere\n    S: Clone + Send + Sync + 'static,\n    H: "@
        + s.name.pascal@ + "<S> + Clone + Send + Sync + 'static,\n{\n    Router::new()\n"@
        + route_lines(s.operations@) + "        .layer(Extension(service))\n}\n\n"@
}

/// The extension trait for ergonomic router creation.
pub open spec fn ext_trait_text(s: Service) -> Seq<char> {
    "/// Extension trait for ergonomic router creation\npub trait "@ + s.name.pascal@
        + "RouterExt<S>: "@ + s.name.pascal@
        + "<S> + Clone + Send + Sync + 'static\nwhere\n    S: Clone + Send + Sync + 'static,\n{\n    fn router(self) -> Router<S> {\n        router::<S, Self>(self)\n    }\n}\n\nimpl<S, T> "@
        + s.name.pascal@ + "RouterExt<S> for T\nwhere\n    S: Clone + Send + Sync + 'static,\n    T: "@
        + s.name.pascal@ + "<S> + Clone + Send + Sync + 'static,\n{\n}\n"@
}

pub open spec fn op_types_section(ops: Seq<Operation>) -> Seq<char>
    decreases ops.len(),
{
    if ops.len() == 0 {
        Seq::empty()
    } else {
        op_types_text(ops[0]) + op_types_section(ops.drop_first())
    }
}

#[verifier::loop_isolation(false)]
fn push_trait_params(out: &mut String, pp: &Vec<PathParam>)
    ensures
        final(out)@ == old(out)@ + trait_param_lines(pp@),
{
    let n = pp.len();
    let mut i: usize = 0;
    proof {
        assert(pp@.skip(0) =~= pp@);
    }
    while i < n
        invariant
            i <= n,
            out@ + trait_param_lines(pp@.skip(i as int)) == old(out)@ + trait_param_lines(pp@),
        decreases n - i,
    {
        proof {
            assert(pp@.skip(i as int)[0] == pp@[i as int]);
            assert(pp@.skip(i as int).drop_first() =~= pp@.skip(i as int + 1));
        }
        let ghost before = out@;
        out.append("        ");
        out.append(pp[i].name.snake.as_str());
        out.append(": String,\n");
        proof {
            assert(out@ + trait_param_lines(pp@.skip(i as int + 1)) =~= before + trait_param_lines(
                pp@.skip(i as int),
            ));
        }
        i = i + 1;
    }
    proof {
        assert(trait_param_lines(pp@.skip(n as int)) =~= Seq::<char>::empty());
        assert(out@ =~= out@ + trait_param_lines(pp@.skip(n as int)));
    }
}

#[verifier::rlimit(60)]
fn push_trait_op(out: &mut String, op: &Operation)
    ensures
        final(out)@ == old(out)@ + trait_op_text(*op),
{
    out.append("    /// ");
    push_method_debug(out, &op.http.method);
    out.append(" ");
    out.append(op.http.path_template.as_str());
    out.append("\n    async fn ");
    out.append(op.name.snake.as_str());
    out.append("(\n        &self,\n        ctx: RequestContext<S>,\n");
    proof {
        assert(out@ =~= old(out)@ + ("    /// "@ + method_debug(op.http.method) + " "@
            + op.http.path_template@ + "\n    async fn "@ + op.name.snake@
            + "(\n        &self,\n        ctx: RequestContext<S>,\n"@));
    }
    let ghost q1 = "    /// "@ + method_debug(op.http.method) + " "@ + op.http.path_template@
        + "\n    async fn "@ + op.name.snake@
        + "(\n        &self,\n        ctx: RequestContext<S>,\n"@;
    push_trait_params(out, &op.http.path_params);
    if op.http.query.len() > 0 {
        out.append("        query: ");
        out.append(op.name.pascal.as_str());
        out.append("Query,\n");
    }
    proof {
        assert(out@ =~= old(out)@ + (q1 + trait_param_lines(op.http.path_params@)
            + trait_query_line(*op)));
    }
    let ghost q2 = q1 + trait_param_lines(op.http.path_params@) + trait_query_line(*op);
    match &op.http.body {
        Some(b) => {
            if b.variants.len() > 0 {
                out.append("        body: types::");
                out.append(b.variants[0].ty.target.0.as_str());
                out.append(",\n");
            }
        },
        None => {},
    }
    out.append("    ) -> ");
    out.append(op.name.pascal.as_str());
    out.append("Result;\n\n");
    proof {
        assert(out@ =~= old(out)@ + (q2 + trait_body_line(*op) + "    ) -> "@ + op.name.pascal@
            + "Result;\n\n"@));
        assert(q2 + trait_body_line(*op) + "    ) -> "@ + op.name.pascal@ + "Result;\n\n"@
            == trait_op_text(*op));
    }
}

#[verifier::loop_isolation(false)]
fn push_query_struct(out: &mut String, op: &Operation)
    ensures
        final(out)@ == old(out)@ + query_struct_text(*op),
{
    if op.http.query.len() == 0 {
        proof {
            assert(out@ =~= old(out)@ + query_struct_text(*op));
        }
        return ;
    }
    out.append("#[derive(Debug, Deserialize)]\npub struct ");
    out.append(op.name.pascal.as_str());
    out.append("Query {\n");
    let ghost base = out@;
    let qs = &op.http.query;
    let n = qs.len();
    let mut i: usize = 0;
    proof {
        assert(qs@.skip(0) =~= qs@);
    }
    while i < n
        invariant
            i <= n,
            out@ + query_field_lines(qs@.skip(i as int)) == base + query_field_lines(qs@),
        decreases n - i,
    {
        proof {
            assert(qs@.skip(i as int)[0] == qs@[i as int]);
            assert(qs@.skip(i as int).drop_first() =~= qs@.skip(i as int + 1));
        }
        let ghost before = out@;
        out.append("    pub ");
        out.append(qs[i].name.snake.as_str());
        out.append(": ");
        if qs[i].required {
            out.append("String");
        } else {
            out.append("Option<String>");
        }
        out.append(",\n");
        proof {
            assert(out@ + query_field_lines(qs@.skip(i as int + 1)) =~= before + query_field_lines(
                qs@.skip(i as int),
            ));
        }
        i = i + 1;
    }
    out.append("}\n\n");
    proof {
        assert(query_field_lines(qs@.skip(n as int)) =~= Seq::<char>::empty());
        assert(out@ =~= old(out)@ + query_struct_text(*op));
    }
}

#[verifier::loop_isolation(false)]
fn push_path_tuple(out: &mut String, n: usize)
    requires
        n >= 1,
    ensures
        final(out)@ == old(out)@ + path_tuple_text(n as int),
{
    if n == 1 {
        out.append("String");
        proof {
            assert(out@ =~= old(out)@ + path_tuple_text(1));
        }
        return ;
    }
    out.append("(");
    out.append("String");
    proof {
        assert(out@ =~= old(out)@ + "("@ + strings_list(1));
    }
    let mut k: usize = 1;
    while k < n
        invariant
            1 <= k <= n,
            out@ == old(out)@ + "("@ + strings_list(k as int),
        decreases n - k,
    {
        out.append(", String");
        proof {
            assert(out@ =~= old(out)@ + "("@ + strings_list(k as int + 1));
        }
        k = k + 1;
    }
    out.append(")");
    proof {
        assert(out@ =~= old(out)@ + path_tuple_text(n as int));
    }
}

#[verifier::loop_isolation(false)]
fn push_param_names(out: &mut String, pp: &Vec<PathParam>)
    ensures
        final(out)@ == old(out)@ + param_names_list(pp@),
{
    let n = pp.len();
    if n == 0 {
        proof {
            assert(out@ =~= old(out)@ + param_names_list(pp@));
        }
        return ;
    }
    out.append(pp[0].name.snake.as_str());
    proof {
        assert(pp@.take(1).len() == 1);
        assert(pp@.take(1)[0] == pp@[0]);
        assert(out@ =~= old(out)@ + param_names_list(pp@.take(1)));
    }
    let mut i: usize = 1;
    while i < n
        invariant
            1 <= i <= n,
            out@ == old(out)@ + param_names_list(pp@.take(i as int)),
        decreases n - i,
    {
        let ghost before = out@;
        out.append(", ");
        out.append(pp[i].name.snake.as_str());
        proof {
            assert(pp@.take(i as int + 1).drop_last() =~= pp@.take(i as int));
            assert(pp@.take(i as int + 1).last() == pp@[i as int]);
            assert(pp@.take(i as int + 1).len() == i + 1 > 1);
            assert(out@ =~= old(out)@ + param_names_list(pp@.take(i as int + 1)));
        }
        i = i + 1;
    }
    proof {
        assert(pp@.take(n as int) =~= pp@);
    }
}

#[verifier::loop_isolation(false)]
fn push_call_args(out: &mut String, pp: &Vec<PathParam>)
    ensures
        final(out)@ == old(out)@ + call_arg_lines(pp@),
{
    let n = pp.len();
    let mut i: usize = 0;
    proof {
        assert(pp@.skip(0) =~= pp@);
    }
    while i < n
        invariant
            i <= n,
            out@ + call_arg_lines(pp@.skip(i as int)) == old(out)@ + call_arg_lines(pp@),
        decreases n - i,
    {
        proof {
            assert(pp@.skip(i as int)[0] == pp@[i as int]);
            assert(pp@.skip(i as int).drop_first() =~= pp@.skip(i as int + 1));
        }
        let ghost before = out@;
        out.append("        ");
        out.append(pp[i].name.snake.as_str());
        out.append(",\n");
        proof {
            assert(out@ + call_arg_lines(pp@.skip(i as int + 1)) =~= before + call_arg_lines(
                pp@.skip(i as int),
            ));
        }
        i = i + 1;
    }
    proof {
        assert(call_arg_lines(pp@.skip(n as int)) =~= Seq::<char>::empty());
        assert(out@ =~= out@ + call_arg_lines(pp@.skip(n as int)));
    }
}

#[verifier::rlimit(100)]
fn push_handler_head(out: &mut String, op: &Operation, tp: &str)
    ensures
        final(out)@ == old(out)@ + handler_head_text(*op, tp@),
{
    out.append("async fn ");
    out.append(op.name.snake.as_str());
    out.append("_handler<S, H>(\n    State(state): State<S>,\n    Extension(service): Extension<H>,\n");
    proof {
        assert(out@ =~= old(out)@ + ("async fn "@ + op.name.snake@
            + "_handler<S, H>(\n    State(state): State<S>,\n    Extension(service): Extension<H>,\n"@));
    }
    let ghost q1 = "async fn "@ + op.name.snake@
        + "_handler<S, H>(\n    State(state): State<S>,\n    Extension(service): Extension<H>,\n"@;
    if op.http.path_params.len() > 0 {
        out.append("    Path(path_params): Path<");
        push_path_tuple(out, op.http.path_params.len());
        out.append(">,\n");
    }
    let ghost q2 = q1 + (if op.http.path_params.len() > 0 {
        "    Path(path_params): Path<"@ + path_tuple_text(op.http.path_params.len() as int)
            + ">,\n"@
    } else {
        Seq::<char>::empty()
    });
    proof {
        assert(out@ =~= old(out)@ + q2);
    }
    if op.http.query.len() > 0 {
        out.append("    Query(query): Query<");
        out.append(op.name.pascal.as_str());
        out.append("Query>,\n");
    }
    let ghost q3 = q2 + (if op.http.query.len() > 0 {
        "    Query(query): Query<"@ + op.name.pascal@ + "Query>,\n"@
    } else {
        Seq::<char>::empty()
    });
    proof {
        assert(out@ =~= old(out)@ + q3);
    }
    match &op.http.body {
        Some(b) => {
            if b.variants.len() > 0 {
                out.append("    Json(body): Json<types::");
                out.append(b.variants[0].ty.target.0.as_str());
                out.append(">,\n");
            }
        },
        None => {},
    }
    let ghost q4 = q3 + (match spec_body_target(*op) {
        Option::Some(t) => "    Json(body): Json<types::"@ + t + ">,\n"@,
        Option::None => Seq::<char>::empty(),
    });
    proof {
        assert(out@ =~= old(out)@ + q4);
    }
    out.append("    req: Request<axum::body::Body>,\n) -> Response\nwhere\n    S: Clone + Send + Sync + 'static,\n    H: ");
    out.append(tp);
    out.append("<S> + Clone + Send + Sync + 'static,\n{\n    let (parts, _body) = req.into_parts();\n    let ctx = RequestContext::from_parts(state, parts);\n\n");
    let ghost q5 = q4
        + "    req: Request<axum::body::Body>,\n) -> Response\nwhere\n    S: Clone + Send + Sync + 'static,\n    H: "@
        + tp@
        + "<S> + Clone + Send + Sync + 'static,\n{\n    let (parts, _body) = req.into_parts();\n    let ctx = RequestContext::from_parts(state, parts);\n\n"@;
    proof {
        assert(out@ =~= old(out)@ + q5);
    }
    let ppn = op.http.path_params.len();
    if ppn == 1 {
        out.append("    let ");
        out.append(op.http.path_params[0].name.snake.as_str());
        out.append(" = path_params;\n\n");
    } else if ppn > 1 {
        out.append("    let (");
        push_param_names(out, &op.http.path_params);
        out.append(") = path_params;\n\n");
    }
    proof {
        assert(out@ =~= old(out)@ + (q5 + extract_text(op.http.path_params@)));
        assert(q5 + extract_text(op.http.path_params@) == handler_head_text(*op, tp@));
    }
}

#[verifier::rlimit(100)]
fn push_handler_call(out: &mut String, op: &Operation)
    ensures
        final(out)@ == old(out)@ + handler_call_text(*op),
{
    out.append("    match service.");
    out.append(op.name.snake.as_str());
    out.append("(\n        ctx,\n");
    let ghost q1 = "    match service."@ + op.name.snake@ + "(\n        ctx,\n"@;
    proof {
        assert(out@ =~= old(out)@ + q1);
    }
    push_call_args(out, &op.http.path_params);
    if op.http.query.len() > 0 {
        out.append("        query,\n");
    }
    match &op.http.body {
        Some(_) => {
            out.append("        body,\n");
        },
        None => {},
    }
    let ghost q2 = q1 + call_arg_lines(op.http.path_params@) + (if op.http.query.len() > 0 {
        "        query,\n"@
    } else {
        Seq::<char>::empty()
    }) + (if op.http.body is Some {
        "        body,\n"@
    } else {
        Seq::<char>::empty()
    });
    proof {
        assert(out@ =~= old(out)@ + q2);
    }
    let code: u16 = match &op.success {
        Some(p) => match &p.status {
            StatusSpec::Code(c) => *c,
            StatusSpec::Default => 200,
        },
        None => 200,
    };
    out.append("    ).await {\n        Ok(result) => {\n            let status = StatusCode::from_u16(");
    push_dec(out, code as u128);
    out.append(").unwrap_or(StatusCode::OK);\n");
    let ghost q3 = q2
        + "    ).await {\n        Ok(result) => {\n            let status = StatusCode::from_u16("@
        + spec_dec(spec_success_code(*op) as nat) + ").unwrap_or(StatusCode::OK);\n"@;
    proof {
        assert(out@ =~= old(out)@ + q3);
    }
    let typed = match &op.success {
        Some(p) => matches!(&p.ty, Some(_)),
        None => false,
    };
    if typed {
        out.append("            (status, Json(result)).into_response()\n");
    } else {
        out.append("            status.into_response()\n");
    }
    out.append("        }\n        Err(e) => e.into_response(),\n    }\n}\n\n");
    proof {
        assert(out@ =~= old(out)@ + (q3 + (if has_typed_success(*op) {
            "            (status, Json(result)).into_response()\n"@
        } else {
            "            status.into_response()\n"@
        }) + "        }\n        Err(e) => e.into_response(),\n    }\n}\n\n"@));
        assert(q3 + (if has_typed_success(*op) {
            "            (status, Json(result)).into_response()\n"@
        } else {
            "            status.into_response()\n"@
        }) + "        }\n        Err(e) => e.into_response(),\n    }\n}\n\n"@
            == handler_call_text(*op));
    }
}

fn push_handler(out: &mut String, op: &Operation, tp: &str)
    ensures
        final(out)@ == old(out)@ + handler_text(*op, tp@),
{
    push_handler_head(out, op, tp);
    push_handler_call(out, op);
    proof {
        assert(out@ =~= old(out)@ + handler_text(*op, tp@));
    }
}

#[verifier::loop_isolation(false)]
fn push_op_types_all(out: &mut String, ops: &Vec<Operation>)
    ensures
        final(out)@ == old(out)@ + op_types_section(ops@),
{
    let n = ops.len();
    let mut i: usize = 0;
    proof {
        assert(ops@.skip(0) =~= ops@);
    }
    while i < n
        invariant
            i <= n,
            out@ + op_types_section(ops@.skip(i as int)) == old(out)@ + op_types_section(ops@),
        decreases n - i,
    {
        proof {
            assert(ops@.skip(i as int)[0] == ops@[i as int]);
            assert(ops@.skip(i as int).drop_first() =~= ops@.skip(i as int + 1));
        }
        let ghost before = out@;
        push_op_types(out, &ops[i]);
        proof {
            assert(out@ + op_types_section(ops@.skip(i as int + 1)) =~= before + op_types_section(
                ops@.skip(i as int),
            ));
        }
        i = i + 1;
    }
    proof {
        assert(op_types_section(ops@.skip(n as int)) =~= Seq::<char>::empty());
        assert(out@ =~= out@ + op_types_section(ops@.skip(n as int)));
    }
}

#[verifier::loop_isolation(false)]
fn push_trait_ops(out: &mut String, ops: &Vec<Operation>)
    ensures
        final(out)@ == old(out)@ + trait_ops_text(ops@),
{
    let n = ops.len();
    let mut i: usize = 0;
    proof {
        assert(ops@.skip(0) =~= ops@);
    }
    while i < n
        invariant
            i <= n,
            out@ + trait_ops_text(ops@.skip(i as int)) == old(out)@ + trait_ops_text(ops@),
        decreases n - i,
    {
        proof {
            assert(ops@.skip(i as int)[0] == ops@[i as int]);
            assert(ops@.skip(i as int).drop_first() =~= ops@.skip(i as int + 1));
        }
        let ghost before = out@;
        push_trait_op(out, &ops[i]);
        proof {
            assert(out@ + trait_ops_text(ops@.skip(i as int + 1)) =~= before + trait_ops_text(
                ops@.skip(i as int),
            ));
        }
        i = i + 1;
    }
    proof {
        assert(trait_ops_text(ops@.skip(n as int)) =~= Seq::<char>::empty());
        assert(out@ =~= out@ + trait_ops_text(ops@.skip(n as int)));
    }
}

#[verifier::loop_isolation(false)]
fn push_query_structs(out: &mut String, ops: &Vec<Operation>)
    ensures
        final(out)@ == old(out)@ + query_structs_text(ops@),
{
    let n = ops.len();
    let mut i: usize = 0;
    proof {
        assert(ops@.skip(0) =~= ops@);
    }
    while i < n
        invariant
            i <= n,
            out@ + query_structs_text(ops@.skip(i as int)) == old(out)@ + query_structs_text(
                ops@,
            ),
        decreases n - i,
    {
        proof {
            assert(ops@.skip(i as int)[0] == ops@[i as int]);
            assert(ops@.skip(i as int).drop_first() =~= ops@.skip(i as int + 1));
        }
        let ghost before = out@;
        push_query_struct(out, &ops[i]);
        proof {
            assert(out@ + query_structs_text(ops@.skip(i as int + 1)) =~= before
                + query_structs_text(ops@.skip(i as int)));
        }
        i = i + 1;
    }
    proof {
        assert(query_structs_text(ops@.skip(n as int)) =~= Seq::<char>::empty());
        assert(out@ =~= out@ + query_structs_text(ops@.skip(n as int)));
    }
}

#[verifier::loop_isolation(false)]
fn push_handlers(out: &mut String, ops: &Vec<Operation>, tp: &str)
    ensures
        final(out)@ == old(out)@ + handlers_text(ops@, tp@),
{
    let n = ops.len();
    let mut i: usize = 0;
    proof {
        assert(ops@.skip(0) =~= ops@);
    }
    while i < n
        invariant
            i <= n,
            out@ + handlers_text(ops@.skip(i as int), tp@) == old(out)@ + handlers_text(
                ops@,
                tp@,
            ),
        decreases n - i,
    {
        proof {
            assert(ops@.skip(i as int)[0] == ops@[i as int]);
            assert(ops@.skip(i as int).drop_first() =~= ops@.skip(i as int + 1));
        }
        let ghost before = out@;
        push_handler(out, &ops[i], tp);
        proof {
            assert(out@ + handlers_text(ops@.skip(i as int + 1), tp@) =~= before + handlers_text(
                ops@.skip(i as int),
                tp@,
            ));
        }
        i = i + 1;
    }
    proof {
        assert(handlers_text(ops@.skip(n as int), tp@) =~= Seq::<char>::empty());
        assert(out@ =~= out@ + handlers_text(ops@.skip(n as int), tp@));
    }
}

#[verifier::loop_isolation(false)]
fn push_auth_wrappers(out: &mut String, schemes: &Vec<AuthScheme>)
    ensures
        final(out)@ == old(out)@ + auth_text(schemes@, false, false),
{
    let sn = schemes.len();
    let mut bearer_done = false;
    let mut api_key_done = false;
    let mut si: usize = 0;
    proof {
        assert(schemes@.skip(0) =~= schemes@);
    }
    while si < sn
        invariant
            si <= sn,
            out@ + auth_text(schemes@.skip(si as int), bearer_done, api_key_done) == old(out)@
                + auth_text(schemes@, false, false),
        decreases sn - si,
    {
        proof {
            assert(schemes@.skip(si as int)[0] == schemes@[si as int]);
            assert(schemes@.skip(si as int).drop_first() =~= schemes@.skip(si as int + 1));
        }
        let ghost before = out@;
        match &schemes[si].kind {
            AuthKind::Http { scheme, .. } => {
                if crate::strutil::str_eq(scheme.as_str(), "bearer") && !bearer_done {
                    out.append("/// Bearer authentication token\n#[derive(Clone, Debug)]\npub struct AuthBearer(pub String);\n\n");
                    bearer_done = true;
                    proof {
                        assert(out@ =~= before + bearer_text());
                    }
                }
            },
            AuthKind::ApiKey { .. } => {
                if !api_key_done {
                    out.append("/// API Key authentication\n#[derive(Clone, Debug)]\npub struct AuthApiKey(pub String);\n\n");
                    api_key_done = true;
                    proof {
                        assert(out@ =~= before + api_key_text());
                    }
                }
            },
            _ => {},
        }
        si = si + 1;
    }
    proof {
        assert(auth_text(schemes@.skip(sn as int), bearer_done, api_key_done) =~= Seq::<
            char,
        >::empty());
        assert(out@ =~= out@ + auth_text(schemes@.skip(sn as int), bearer_done, api_key_done));
    }
}

#[verifier::loop_isolation(false)]
fn push_route_lines(out: &mut String, ops: &Vec<Operation>)
    ensures
        final(out)@ == old(out)@ + route_lines(ops@),
{
    let n = ops.len();
    let mut i: usize = 0;
    proof {
        assert(ops@.skip(0) =~= ops@);
    }
    while i < n
        invariant
            i <= n,
            out@ + route_lines(ops@.skip(i as int)) == old(out)@ + route_lines(ops@),
        decreases n - i,
    {
        proof {
            assert(ops@.skip(i as int)[0] == ops@[i as int]);
            assert(ops@.skip(i as int).drop_first() =~= ops@.skip(i as int + 1));
        }
        let ghost before = out@;
        out.append("        .route(\"");
        out.append(ops[i].http.path_template.as_str());
        out.append("\", ");
        push_method_route(out, &ops[i].http.method);
        out.append("(");
        out.append(ops[i].name.snake.as_str());
        out.append("_handler::<S, H>))\n");
        proof {
            assert(out@ + route_lines(ops@.skip(i as int + 1)) =~= before + route_lines(
                ops@.skip(i as int),
            ));
        }
        i = i + 1;
    }
    proof {
        assert(route_lines(ops@.skip(n as int)) =~= Seq::<char>::empty());
        assert(out@ =~= out@ + route_lines(ops@.skip(n as int)));
    }
}

/// The generated module up to and including the service trait.
pub open spec fn module_front_text(s: Service, schemes: Seq<AuthScheme>) -> Seq<char> {
    "//! "@ + s.name.pascal@ + " service module\n\n"@ + imports_text() + request_context_text()
        + auth_text(schemes, false, false) + "// Per-operation result and error types\n"@
        + op_types_section(s.operations@) + trait_text(s)
}

/// The generated module from the query structs to the end.
pub open spec fn module_back_text(s: Service) -> Seq<char> {
    "// Query parameter structs\n"@ + query_structs_text(s.operations@) + "// Handlers\n"@
        + handlers_text(s.operations@, s.name.pascal@) + router_text(s) + ext_trait_text(s)
}

/// The whole generated service module.
pub open spec fn module_text(s: Service, schemes: Seq<AuthScheme>) -> Seq<char> {
    module_front_text(s, schemes) + module_back_text(s)
}

#[verifier::rlimit(100)]
fn push_module_front(out: &mut String, service: &Service, schemes: &Vec<AuthScheme>)
    ensures
        final(out)@ == old(out)@ + module_front_text(*service, schemes@),
{
    out.append("//! ");
    out.append(service.name.pascal.as_str());
    out.append(" service module\n\n");
    proof {
        assert(out@ =~= old(out)@ + ("//! "@ + service.name.pascal@ + " service module\n\n"@));
    }
    let ghost q1 = "//! "@ + service.name.pascal@ + " service module\n\n"@;
    out.append("use axum::{\n    extract::{Path, Query, State},\n    http::{Request, StatusCode},\n    response::{IntoResponse, Response},\n    routing::{delete, get, patch, post, put},\n    Extension, Json, Router,\n};\nuse serde::{Deserialize, Serialize};\n\nuse crate::types;\n\n");
    let ghost q2 = q1 + imports_text();
    proof {
        assert(out@ =~= old(out)@ + q2);
    }
    out.append("/// Request context containing state and request metadata\npub struct RequestContext<S> {\n    pub state: S,\n    pub method: axum::http::Method,\n    pub uri: axum::http::Uri,\n    pub headers: axum::http::HeaderMap,\n    pub extensions: axum::http::Extensions,\n}\n\nimpl<S> RequestContext<S> {\n    pub fn state(&self) -> &S {\n        &self.state\n    }\n}\n\nimpl<S: Clone> RequestContext<S> {\n    pub(crate) fn from_parts(state: S, parts: axum::http::request::Parts) -> Self {\n        RequestContext {\n            state,\n            method: parts.method,\n            uri: parts.uri,\n            headers: parts.headers,\n            extensions: parts.extensions,\n        }\n    }\n}\n\n");
    let ghost q3 = q2 + request_context_text();
    proof {
        assert(out@ =~= old(out)@ + q3);
    }
    push_auth_wrappers(out, schemes);
    let ghost q4 = q3 + auth_text(schemes@, false, false);
    proof {
        assert(out@ =~= old(out)@ + q4);
    }
    out.append("// Per-operation result and error types\n");
    let ghost q5 = q4 + "// Per-operation result and error types\n"@;
    proof {
        assert(out@ =~= old(out)@ + q5);
    }
    push_op_types_all(out, &service.operations);
    let ghost q6 = q5 + op_types_section(service.operations@);
    proof {
        assert(out@ =~= old(out)@ + q6);
    }
    out.append("/// ");
    out.append(service.name.pascal.as_str());
    out.append(" service trait\npub trait ");
    out.append(service.name.pascal.as_str());
    out.append("<S>: Send + Sync {\n");
    let ghost q7 = q6 + ("/// "@ + service.name.pascal@ + " service trait\npub trait "@
        + service.name.pascal@ + "<S>: Send + Sync {\n"@);
    proof {
        assert(out@ =~= old(out)@ + q7);
    }
    push_trait_ops(out, &service.operations);
    out.append("}\n\n");
    proof {
        assert(out@ =~= old(out)@ + (q7 + trait_ops_text(service.operations@) + "}\n\n"@));
        assert(q7 + trait_ops_text(service.operations@) + "}\n\n"@ =~= q6 + trait_text(*service));
        assert(q6 + trait_text(*service) == module_front_text(*service, schemes@));
    }
}

#[verifier::rlimit(100)]
fn push_module_back(out: &mut String, service: &Service)
    ensures
        final(out)@ == old(out)@ + module_back_text(*service),
{
    out.append("// Query parameter structs\n");
    let ghost q1 = "// Query parameter structs\n"@;
    proof {
        assert(out@ =~= old(out)@ + q1);
    }
    push_query_structs(out, &service.operations);
    let ghost q2 = q1 + query_structs_text(service.operations@);
    proof {
        assert(out@ =~= old(out)@ + q2);
    }
    out.append("// Handlers\n");
    let ghost q3 = q2 + "// Handlers\n"@;
    proof {
        assert(out@ =~= old(out)@ + q3);
    }
    push_handlers(out, &service.operations, service.name.pascal.as_str());
    let ghost q4 = q3 + handlers_text(service.operations@, service.name.pascal@);
    proof {
        assert(out@ =~= old(out)@ + q4);
    }
    out.append("/// Create a router for this service\npub fn router<S, H>(service: H) -> Router<S>\nwhere\n    S: Clone + Send + Sync + 'static,\n    H: ");
    out.append(service.name.pascal.as_str());
    out.append("<S> + Clone + Send + Sync + 'static,\n{\n    Router::new()\n");
    let ghost q5 = q4
        + ("/// Create a router for this service\npub fn router<S, H>(service: H) -> Router<S>\nwhere\n    S: Clone + Send + Sync + 'static,\n    H: "@
        + service.name.pascal@ + "<S> + Clone + Send + Sync + 'static,\n{\n    Router::new()\n"@);
    proof {
        assert(out@ =~= old(out)@ + q5);
    }
    push_route_lines(out, &service.operations);
    out.append("        .layer(Extension(service))\n}\n\n");
    let ghost q6 = q5 + route_lines(service.operations@)
        + "        .layer(Extension(service))\n}\n\n"@;
    proof {
        assert(out@ =~= old(out)@ + q6);
        assert(q6 =~= q4 + router_text(*service));
    }
    let ghost q7 = q4 + router_text(*service);
    out.append("/// Extension trait for ergonomic router creation\npub trait ");
    out.append(service.name.pascal.as_str());
    out.append("RouterExt<S>: ");
    out.append(service.name.pascal.as_str());
    out.append("<S> + Clone + Send + Sync + 'static\nwhere\n    S: Clone + Send + Sync + 'static,\n{\n    fn router(self) -> Router<S> {\n        router::<S, Self>(self)\n    }\n}\n\nimpl<S, T> ");
    out.append(service.name.pascal.as_str());
    out.append("RouterExt<S> for T\nwhere\n    S: Clone + Send + Sync + 'static,\n    T: ");
    out.append(service.name.pascal.as_str());
    out.append("<S> + Clone + Send + Sync + 'static,\n{\n}\n");
    proof {
        assert(out@ =~= old(out)@ + (q7 + ext_trait_text(*service)));
        assert(q7 + ext_trait_text(*service) == module_back_text(*service));
    }
}

/// Renders one service into a complete server module.
pub struct ServiceModuleGenerator<'a> {
    pub service: &'a Service,
    pub auth_schemes: &'a Vec<AuthScheme>,
}

impl<'a> ServiceModuleGenerator<'a> {
    pub fn new(service: &'a Service, auth_schemes: &'a Vec<AuthScheme>) -> (r:
        ServiceModuleGenerator<'a>)
        ensures
            r.service == service,
            r.auth_schemes == auth_schemes,
    {
        ServiceModuleGenerator { service, auth_schemes }
    }

    /// The whole module text, section by section: header, imports, request
    /// context, auth wrappers, per-operation types, the service trait, query
    /// structs, handlers, the router, and the extension trait.
    pub fn generate(&self) -> (r: String)
        ensures
            r@ == module_text(*self.service, self.auth_schemes@),
    {
        let mut out = String::new();
        push_module_front(&mut out, self.service, self.auth_schemes);
        push_module_back(&mut out, self.service);
        proof {
            assert(out@ =~= module_text(*self.service, self.auth_schemes@));
        }
        out
    }
}

} // verus!
