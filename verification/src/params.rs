//! Conversion of operation pieces: parameters bucketed by location, request
//! bodies with their content-type variants, and the first success response.
//!
//! The document model carries reusable components for schemas and security
//! schemes only, so a reference found in place of a parameter, request body
//! or response is treated as a resolution failure: that piece is skipped and
//! the build continues.

use vstd::prelude::*;

use crate::document::{
    size_sor, Document, MediaType, RequestBody, Response, ResponseOrRef, Parameter, ParameterIn,
    SchemaOrRef,
};
use crate::hoist::{
    generate_inline_type_name, should_hoist_schema, spec_base_name, BuildContext,
};
use crate::infer::{
    chosen_name, clone_opt_string, deprecated_or_default, hoist_inline_schema_with_parent,
    hoist_post, lemma_extends_refl, opt_text, ty_shape_matches, witness_ctx,
};
use crate::ir::{Body, BodyVariant, CookieParam, Docs, HeaderParam, PathParam, Payload, QueryParam, StableId, StatusSpec, TypeRef};
use crate::naming::{name_wf, CanonicalName};
use crate::resolve::{resolve, spec_resolution};
use crate::typeref::{convert_object_schema_to_type_ref, ref_matches, spec_obj_ref, spec_sor_ref};

verus! {

/// Decimal digit.
pub open spec fn spec_is_digit(c: char) -> bool {
    48 <= (c as int) && (c as int) <= 57
}

/// The value of an all-digit string, `None` on any other character.
pub open spec fn digits_val(s: Seq<char>) -> Option<int>
    decreases s.len(),
{
    if s.len() == 0 {
        Option::Some(0)
    } else if !spec_is_digit(s.last()) {
        Option::None
    } else {
        match digits_val(s.drop_last()) {
            Option::Some(v) => Option::Some(v * 10 + ((s.last() as int) - 48)),
            Option::None => Option::None,
        }
    }
}

/// What parsing a status code yields: the numeric value of a non-empty
/// all-digit string that fits in sixteen bits.
pub open spec fn spec_parse_u16(s: Seq<char>) -> Option<u16> {
    if s.len() == 0 {
        Option::None
    } else {
        match digits_val(s) {
            Option::Some(v) => if v <= 65535 {
                Option::Some(v as u16)
            } else {
                Option::None
            },
            Option::None => Option::None,
        }
    }
}

proof fn lemma_digits_val_nonneg(s: Seq<char>)
    ensures
        digits_val(s) matches Some(v) ==> v >= 0,
    decreases s.len(),
{
    if s.len() > 0 {
        lemma_digits_val_nonneg(s.drop_last());
    }
}

/// Parses a decimal status code.
#[verifier::loop_isolation(false)]
pub fn parse_u16(s: &str) -> (r: Option<u16>)
    ensures
        r == spec_parse_u16(s@),
{
    let n = s.unicode_len();
    if n == 0 {
        return None;
    }
    let mut acc: u32 = 0;
    let mut i: usize = 0;
    proof {
        assert(s@.take(0).len() == 0);
    }
    while i < n
        invariant
            i <= n,
            acc <= 70000,
            digits_val(s@.take(i as int)) matches Some(v) && ((v <= 65535 && acc == v) || (v
                > 65535 && acc == 70000)),
        decreases n - i,
    {
        let c = s.get_char(i);
        let u = c as u32;
        proof {
            assert(s@.take(i as int + 1).last() == s@[i as int]);
            assert(s@.take(i as int + 1).drop_last() =~= s@.take(i as int));
            lemma_digits_val_nonneg(s@.take(i as int));
        }
        if !(48 <= u && u <= 57) {
            proof {
                assert(digits_val(s@.take(i as int + 1)) is None);
                lemma_digits_val_prefix_none(s@, i as int + 1);
            }
            return None;
        }
        let d = u - 48;
        if acc > 6553 || (acc == 6553 && d > 5) {
            acc = 70000;
        } else {
            acc = acc * 10 + d;
        }
        i = i + 1;
    }
    proof {
        assert(s@.take(n as int) =~= s@);
    }
    if acc <= 65535 {
        Some(acc as u16)
    } else {
        None
    }
}

/// A non-digit anywhere poisons every longer prefix, and the whole string.
proof fn lemma_digits_val_prefix_none(s: Seq<char>, i: int)
    requires
        0 < i <= s.len(),
        digits_val(s.take(i)) is None,
    ensures
        digits_val(s) is None,
    decreases s.len() - i,
{
    if i == s.len() {
        assert(s.take(i) =~= s);
    } else {
        assert(s.take(i + 1).drop_last() =~= s.take(i));
        assert(digits_val(s.take(i + 1)) is None);
        lemma_digits_val_prefix_none(s, i + 1);
    }
}

/// The produced parameter fields against the declared parameter.
pub open spec fn param_core_matches(
    name: CanonicalName,
    wire: Seq<char>,
    docs: Docs,
    p: Parameter,
) -> bool {
    &&& wire == p.name@
    &&& name.canonical@ == p.name@
    &&& name_wf(name)
    &&& opt_text(docs.description) == opt_text(p.description)
}

/// The type a parameter's schema converts to: the use-site conversion of the
/// resolved schema, or a plain `Any` reference when there is no schema or it
/// does not resolve.
pub open spec fn param_ty_matches(doc: Document, p: Parameter, t: TypeRef) -> bool {
    match p.schema {
        Option::Some(sr) => match spec_resolution(doc, sr) {
            Result::Ok(sch) => ref_matches(t, spec_obj_ref(sch)),
            Result::Err(_) => ref_matches(t, ("Any"@, false, false)),
        },
        Option::None => ref_matches(t, ("Any"@, false, false)),
    }
}

/// Converts one declared parameter and buckets it by its location.  Exactly
/// one of the four lists grows by one; `required` defaults to false.
pub fn convert_parameter(
    doc: &Document,
    param: &Parameter,
    path_params: &mut Vec<PathParam>,
    query: &mut Vec<QueryParam>,
    headers: &mut Vec<HeaderParam>,
    cookies: &mut Vec<CookieParam>,
)
    ensures
        param.location is Path ==> {
            &&& final(path_params)@.len() == old(path_params)@.len() + 1
            &&& old(path_params)@.is_prefix_of(final(path_params)@)
            &&& param_core_matches(
                final(path_params)@.last().name,
                final(path_params)@.last().wire@,
                final(path_params)@.last().docs,
                *param,
            )
            &&& param_ty_matches(*doc, *param, final(path_params)@.last().ty)
            &&& *final(query) == *old(query)
            &&& *final(headers) == *old(headers)
            &&& *final(cookies) == *old(cookies)
        },
        param.location is Query ==> {
            &&& final(query)@.len() == old(query)@.len() + 1
            &&& old(query)@.is_prefix_of(final(query)@)
            &&& param_core_matches(
                final(query)@.last().name,
                final(query)@.last().wire@,
                final(query)@.last().docs,
                *param,
            )
            &&& param_ty_matches(*doc, *param, final(query)@.last().ty)
            &&& final(query)@.last().required == (param.required == Some(true))
            &&& *final(path_params) == *old(path_params)
            &&& *final(headers) == *old(headers)
            &&& *final(cookies) == *old(cookies)
        },
        param.location is Header ==> {
            &&& final(headers)@.len() == old(headers)@.len() + 1
            &&& old(headers)@.is_prefix_of(final(headers)@)
            &&& param_core_matches(
                final(headers)@.last().name,
                final(headers)@.last().wire@,
                final(headers)@.last().docs,
                *param,
            )
            &&& param_ty_matches(*doc, *param, final(headers)@.last().ty)
            &&& final(headers)@.last().required == (param.required == Some(true))
            &&& *final(path_params) == *old(path_params)
            &&& *final(query) == *old(query)
            &&& *final(cookies) == *old(cookies)
        },
        param.location is Cookie ==> {
            &&& final(cookies)@.len() == old(cookies)@.len() + 1
            &&& old(cookies)@.is_prefix_of(final(cookies)@)
            &&& param_core_matches(
                final(cookies)@.last().name,
                final(cookies)@.last().wire@,
                final(cookies)@.last().docs,
                *param,
            )
            &&& param_ty_matches(*doc, *param, final(cookies)@.last().ty)
            &&& final(cookies)@.last().required == (param.required == Some(true))
            &&& *final(path_params) == *old(path_params)
            &&& *final(query) == *old(query)
            &&& *final(headers) == *old(headers)
        },
{
    let name = CanonicalName::from_string(param.name.as_str());
    let docs = Docs {
        summary: None,
        description: clone_opt_string(&param.description),
        deprecated: deprecated_or_default(&param.deprecated),
        since: None,
        examples: Vec::new(),
        external_urls: Vec::new(),
    };
    let ty: TypeRef = match &param.schema {
        Some(schema_ref) => {
            match resolve(doc, schema_ref) {
                Ok(schema) => convert_object_schema_to_type_ref(schema),
                // An unresolvable schema degrades to `Any`, never to a
                // dangling reference.
                Err(_) => TypeRef {
                    target: StableId::new("Any"),
                    optional: false,
                    nullable: false,
                    by_ref: false,
                    modifiers: Vec::new(),
                },
            }
        },
        None => TypeRef {
            target: StableId::new("Any"),
            optional: false,
            nullable: false,
            by_ref: false,
            modifiers: Vec::new(),
        },
    };
    let required = match &param.required {
        Some(b) => *b,
        None => false,
    };
    match param.location {
        ParameterIn::Path => {
            let ghost before = path_params@;
            path_params.push(
                PathParam { name, wire: param.name.clone(), docs, ty },
            );
            proof {
                crate::infer::lemma_prefix_push(before, path_params@.last());
            }
        },
        ParameterIn::Query => {
            let ghost before = query@;
            query.push(
                QueryParam { name, wire: param.name.clone(), docs, ty, required, default: None },
            );
            proof {
                crate::infer::lemma_prefix_push(before, query@.last());
            }
        },
        ParameterIn::Header => {
            let ghost before = headers@;
            headers.push(
                HeaderParam { name, wire: param.name.clone(), docs, ty, required, default: None },
            );
            proof {
                crate::infer::lemma_prefix_push(before, headers@.last());
            }
        },
        ParameterIn::Cookie => {
            let ghost before = cookies@;
            cookies.push(
                CookieParam { name, wire: param.name.clone(), docs, ty, required, default: None },
            );
            proof {
                crate::infer::lemma_prefix_push(before, cookies@.last());
            }
        },
    }
}

/// Structural size of a content entry, for the hoisting recursion.
pub open spec fn size_media(m: MediaType) -> nat {
    match m.schema {
        Option::Some(sr) => 1 + size_sor(sr),
        Option::None => 1,
    }
}

pub open spec fn size_content(cs: Seq<(String, MediaType)>) -> nat
    decreases cs,
{
    if cs.len() == 0 {
        0
    } else {
        size_media(cs[0].1) + size_content(cs.drop_first())
    }
}

proof fn lemma_size_content_drop_last(cs: Seq<(String, MediaType)>)
    requires
        cs.len() > 0,
    ensures
        size_content(cs.drop_last()) < size_content(cs),
    decreases cs.len(),
{
    if cs.len() == 1 {
        assert(cs.drop_last().len() == 0);
        assert(cs.drop_first().len() == 0);
        assert(size_media(cs[0].1) >= 1);
    } else {
        assert(cs.drop_last()[0] == cs[0]);
        assert(cs.drop_last().drop_first() =~= cs.drop_first().drop_last());
        lemma_size_content_drop_last(cs.drop_first());
    }
}

proof fn lemma_size_content_elem(cs: Seq<(String, MediaType)>, i: int)
    requires
        0 <= i < cs.len(),
    ensures
        size_media(cs[i].1) <= size_content(cs),
    decreases cs.len(),
{
    if i > 0 {
        lemma_size_content_elem(cs.drop_first(), i - 1);
        assert(cs.drop_first()[i - 1] == cs[i]);
    }
}

/// One content entry's conversion to a body variant: the content type is the
/// entry's key, and the variant's type is the use-site conversion of the
/// entry's schema node — hoisted under the current operation's `Request`
/// name when it is a hoistable inline object.
pub open spec fn variant_step(
    doc: Document,
    c0: BuildContext,
    e: (String, MediaType),
    v: BodyVariant,
    c1: BuildContext,
) -> bool
    decreases size_media(e.1), 6int,
{
    &&& v.content_type@ == e.0@
    &&& !v.ty.optional
    &&& !v.ty.by_ref
    &&& e.1.schema matches Some(sr) && match sr {
        SchemaOrRef::Reference(_) => c1 == c0 && ty_shape_matches(v.ty, spec_sor_ref(sr)),
        SchemaOrRef::Inline(inline) => {
            if crate::hoist::spec_should_hoist(inline) {
                exists|nm: Seq<char>|
                    {
                        &&& #[trigger] chosen_name(
                            c0.used_type_names@,
                            spec_base_name(
                                opt_text(c0.current_operation_id),
                                Option::None,
                                "Request"@,
                            ),
                            nm,
                        )
                        &&& hoist_post(doc, c0, c1, inline, nm, Some(nm), v.ty.target)
                        &&& v.ty.nullable == inline.spec_nullable()
                        &&& v.ty.modifiers@.len() == 0
                    }
            } else {
                c1 == c0 && ty_shape_matches(v.ty, spec_sor_ref(sr))
            }
        },
    }
}

/// The body variants of a request body: one per content entry that carries
/// a schema, in entry order, with the context threaded left to right.
pub open spec fn body_post(
    doc: Document,
    c0: BuildContext,
    content: Seq<(String, MediaType)>,
    variants: Seq<BodyVariant>,
    c1: BuildContext,
) -> bool
    decreases size_content(content), 8int,
    via body_post_dec
{
    if content.len() == 0 {
        variants.len() == 0 && c1 == c0
    } else if content.last().1.schema is None {
        body_post(doc, c0, content.drop_last(), variants, c1)
    } else {
        &&& variants.len() > 0
        &&& exists|c_mid: BuildContext|
            #[trigger] witness_ctx(c_mid) && body_link(doc, c0, content, variants, c_mid, c1)
    }
}

/// The last content entry's step, after all the earlier ones.
pub open spec fn body_link(
    doc: Document,
    c0: BuildContext,
    content: Seq<(String, MediaType)>,
    variants: Seq<BodyVariant>,
    c_mid: BuildContext,
    c1: BuildContext,
) -> bool
    decreases size_content(content), 7int,
    via body_link_dec
{
    &&& content.len() > 0
    &&& variants.len() > 0
    &&& body_post(doc, c0, content.drop_last(), variants.drop_last(), c_mid)
    &&& variant_step(doc, c_mid, content.last(), variants.last(), c1)
}

#[via_fn]
proof fn body_post_dec(
    doc: Document,
    c0: BuildContext,
    content: Seq<(String, MediaType)>,
    variants: Seq<BodyVariant>,
    c1: BuildContext,
) {
    if content.len() > 0 {
        lemma_size_content_drop_last(content);
    }
}

#[via_fn]
proof fn body_link_dec(
    doc: Document,
    c0: BuildContext,
    content: Seq<(String, MediaType)>,
    variants: Seq<BodyVariant>,
    c_mid: BuildContext,
    c1: BuildContext,
) {
    if content.len() > 0 {
        lemma_size_content_drop_last(content);
        lemma_size_content_elem(content, content.len() - 1);
    }
}

/// Folds one variant step onto an established prefix.
pub proof fn lemma_body_post_snoc(
    doc: Document,
    c0: BuildContext,
    content: Seq<(String, MediaType)>,
    variants: Seq<BodyVariant>,
    c_mid: BuildContext,
    c1: BuildContext,
)
    requires
        content.len() > 0,
        !(content.last().1.schema is None),
        body_link(doc, c0, content, variants, c_mid, c1),
    ensures
        body_post(doc, c0, content, variants, c1),
{
    assert(witness_ctx(c_mid));
}

/// Folds a schema-less content entry onto an established prefix.
pub proof fn lemma_body_post_skip(
    doc: Document,
    c0: BuildContext,
    content: Seq<(String, MediaType)>,
    variants: Seq<BodyVariant>,
    c1: BuildContext,
)
    requires
        content.len() > 0,
        content.last().1.schema is None,
        body_post(doc, c0, content.drop_last(), variants, c1),
    ensures
        body_post(doc, c0, content, variants, c1),
{
}

/// Converts a request body: each content entry becomes a consumed content
/// type; each entry with a schema becomes a body variant, in entry order,
/// hoisting an inline object schema under the current operation's `Request`
/// name.  Whenever at least one variant exists, the preferred content type
/// is `application/json`.
#[verifier::loop_isolation(false)]
#[verifier::rlimit(60)]
pub fn convert_request_body(doc: &Document, ctx: &mut BuildContext, rb: &RequestBody) -> (r: (
    Option<Body>,
    Vec<String>,
))
    requires
        old(ctx).inv(),
    ensures
        final(ctx).inv(),
        BuildContext::extends(*old(ctx), *final(ctx)),
        r.1@.len() == rb.content@.len(),
        forall|i: int| 0 <= i < rb.content@.len() ==> (#[trigger] r.1@[i])@ == rb.content@[i].0@,
        (r.0 is Some) == exists|i: int|
            0 <= i < rb.content@.len() && (#[trigger] rb.content@[i]).1.schema is Some,
        r.0 matches Some(b) ==> b.preferred matches Some(p) && p@ == "application/json"@,
        body_post(
            *doc,
            *old(ctx),
            rb.content@,
            match r.0 {
                Option::Some(b) => b.variants@,
                Option::None => Seq::empty(),
            },
            *final(ctx),
        ),
{
    let mut variants: Vec<BodyVariant> = Vec::new();
    let mut consumes: Vec<String> = Vec::new();
    let n = rb.content.len();
    let mut i: usize = 0;
    proof {
        lemma_extends_refl(*ctx);
        assert(rb.content@.take(0).len() == 0);
    }
    while i < n
        invariant
            i <= n,
            ctx.inv(),
            BuildContext::extends(*old(ctx), *ctx),
            consumes@.len() == i,
            forall|j: int| 0 <= j < i ==> (#[trigger] consumes@[j])@ == rb.content@[j].0@,
            (variants@.len() > 0) == exists|j: int|
                0 <= j < i && (#[trigger] rb.content@[j]).1.schema is Some,
            body_post(*doc, *old(ctx), rb.content@.take(i as int), variants@, *ctx),
        decreases n - i,
    {
        let ghost ctx_before = *ctx;
        let ghost variants_before = variants@;
        proof {
            assert(rb.content@.take(i as int + 1).drop_last() =~= rb.content@.take(i as int));
            assert(rb.content@.take(i as int + 1).last() == rb.content@[i as int]);
        }
        let content_type: &String = &rb.content[i].0;
        consumes.push(content_type.clone());
        match &rb.content[i].1.schema {
            Some(schema_ref) => {
                let ty: TypeRef = match schema_ref {
                    SchemaOrRef::Reference(_) => crate::typeref::convert_sor_to_type_ref(
                        schema_ref,
                    ),
                    SchemaOrRef::Inline(inline) => {
                        if should_hoist_schema(inline) {
                            let op_ref: Option<&String> = match &ctx.current_operation_id {
                                Some(o) => Some(o),
                                None => None,
                            };
                            proof {
                                assert(crate::hoist::opt_view(op_ref) == opt_text(
                                    ctx.current_operation_id,
                                ));
                            }
                            let new_name = generate_inline_type_name(ctx, op_ref, "Request", None);
                            let parent_name = new_name.clone();
                            let nullable = inline.is_nullable_or_default();
                            proof {
                                assert(chosen_name(
                                    ctx_before.used_type_names@,
                                    spec_base_name(
                                        opt_text(ctx_before.current_operation_id),
                                        Option::None,
                                        "Request"@,
                                    ),
                                    new_name@,
                                ));
                            }
                            let type_id = hoist_inline_schema_with_parent(
                                doc,
                                ctx,
                                new_name,
                                inline,
                                Some(&parent_name),
                            );
                            TypeRef {
                                target: type_id,
                                optional: false,
                                nullable,
                                by_ref: false,
                                modifiers: Vec::new(),
                            }
                        } else {
                            crate::typeref::convert_sor_to_type_ref(schema_ref)
                        }
                    },
                };
                let v = BodyVariant {
                    content_type: content_type.clone(),
                    ty,
                    docs: Docs::empty(),
                    encoding: Vec::new(),
                };
                proof {
                    assert(variant_step(
                        *doc,
                        ctx_before,
                        rb.content@[i as int],
                        v,
                        *ctx,
                    ));
                    BuildContext::lemma_extends_trans(*old(ctx), ctx_before, *ctx);
                }
                variants.push(v);
                proof {
                    assert(variants@.drop_last() =~= variants_before);
                    assert(variants@.last() == v);
                    assert(body_link(
                        *doc,
                        *old(ctx),
                        rb.content@.take(i as int + 1),
                        variants@,
                        ctx_before,
                        *ctx,
                    ));
                    lemma_body_post_snoc(
                        *doc,
                        *old(ctx),
                        rb.content@.take(i as int + 1),
                        variants@,
                        ctx_before,
                        *ctx,
                    );
                }
            },
            None => {
                proof {
                    lemma_body_post_skip(
                        *doc,
                        *old(ctx),
                        rb.content@.take(i as int + 1),
                        variants@,
                        *ctx,
                    );
                }
            },
        }
        i = i + 1;
    }
    proof {
        assert(rb.content@.take(n as int) =~= rb.content@);
    }
    if variants.len() > 0 {
        (
            Some(Body { preferred: Some(String::from_str("application/json")), variants }),
            consumes,
        )
    } else {
        proof {
            assert(variants@ =~= Seq::<BodyVariant>::empty());
        }
        (None, consumes)
    }
}

/// The numeric code of a success entry.
pub open spec fn entry_code(e: (String, ResponseOrRef)) -> int {
    spec_parse_u16(e.0@)->Some_0 as int
}

/// The selected response among the first `n` entries: the inline entry with
/// the numerically smallest 2xx status code, the earliest on ties.  Status
/// codes are compared numerically, never by their text, so the choice does
/// not depend on how the response table happens to be ordered.
pub open spec fn first_success_upto(rs: Seq<(String, ResponseOrRef)>, n: int) -> Option<int>
    decreases n,
{
    if n <= 0 {
        Option::None
    } else {
        let prev = first_success_upto(rs, n - 1);
        if is_success_entry(rs[n - 1]) {
            match prev {
                Option::Some(j) => if entry_code(rs[n - 1]) < entry_code(rs[j]) {
                    Option::Some(n - 1)
                } else {
                    prev
                },
                Option::None => Option::Some(n - 1),
            }
        } else {
            prev
        }
    }
}

/// The selected response of the whole table.
pub open spec fn first_success(rs: Seq<(String, ResponseOrRef)>) -> Option<int> {
    first_success_upto(rs, rs.len() as int)
}

/// A found index is in range, marks a success entry, and carries the
/// numerically smallest 2xx code (the earliest such entry on ties).
pub proof fn lemma_first_success_bounds(rs: Seq<(String, ResponseOrRef)>, n: int)
    requires
        0 <= n <= rs.len(),
    ensures
        first_success_upto(rs, n) matches Some(j) ==> 0 <= j < n && is_success_entry(rs[j]),
        first_success_upto(rs, n) is None ==> forall|k: int|
            0 <= k < n ==> !is_success_entry(#[trigger] rs[k]),
    decreases n,
{
    if n > 0 {
        lemma_first_success_bounds(rs, n - 1);
    }
}

pub open spec fn is_success_entry(e: (String, ResponseOrRef)) -> bool {
    &&& spec_parse_u16(e.0@) matches Some(c) && 200 <= c < 300
    &&& e.1 is Inline
}

/// The selected success payload against its response entry: the parsed
/// status code, the response's description, the first content entry's type
/// as the payload type (hoisted under the current operation's `Response`
/// name when it is a hoistable inline object), and the produced content
/// types.
pub open spec fn payload_step(
    doc: Document,
    c0: BuildContext,
    e: (String, ResponseOrRef),
    p: Payload,
    produces: Seq<String>,
    c1: BuildContext,
) -> bool {
    &&& p.status == StatusSpec::Code(spec_parse_u16(e.0@)->Some_0)
    &&& p.headers@.len() == 0
    &&& e.1 matches ResponseOrRef::Inline(resp) && {
        &&& opt_text(p.docs.summary) == opt_text(resp.description)
        &&& if resp.content@.len() > 0 {
            produces.len() == 1 && produces[0]@ == resp.content@[0].0@
        } else {
            produces.len() == 0
        }
        &&& if resp.content@.len() > 0 && resp.content@[0].1.schema is Some {
            &&& p.content_type matches Some(ct) && ct@ == resp.content@[0].0@
            &&& p.ty matches Some(t) && !t.optional && !t.by_ref && match resp.content@[0].1.schema
                ->Some_0 {
                SchemaOrRef::Reference(_) => c1 == c0 && ty_shape_matches(
                    t,
                    spec_sor_ref(resp.content@[0].1.schema->Some_0),
                ),
                SchemaOrRef::Inline(inline) => {
                    if crate::hoist::spec_should_hoist(inline) {
                        exists|nm: Seq<char>|
                            {
                                &&& #[trigger] chosen_name(
                                    c0.used_type_names@,
                                    spec_base_name(
                                        opt_text(c0.current_operation_id),
                                        Option::None,
                                        "Response"@,
                                    ),
                                    nm,
                                )
                                &&& hoist_post(doc, c0, c1, inline, nm, Some(nm), t.target)
                                &&& t.nullable == inline.spec_nullable()
                                &&& t.modifiers@.len() == 0
                            }
                    } else {
                        c1 == c0 && ty_shape_matches(
                            t,
                            spec_sor_ref(resp.content@[0].1.schema->Some_0),
                        )
                    }
                },
            }
        } else {
            p.content_type is None && p.ty is None && c1 == c0
        }
    }
}

/// Selects the operation's success payload: the declared response with the
/// numerically smallest 2xx status code (the earliest on ties).  Its first
/// content entry, if any, supplies the payload type, hoisting an inline
/// schema under the current operation's `Response` name.  Nothing else in
/// the table moves the context.
#[verifier::loop_isolation(false)]
#[verifier::rlimit(60)]
pub fn convert_responses(
    doc: &Document,
    ctx: &mut BuildContext,
    responses: &Vec<(String, ResponseOrRef)>,
) -> (r: (Option<Payload>, Vec<String>))
    requires
        old(ctx).inv(),
    ensures
        final(ctx).inv(),
        BuildContext::extends(*old(ctx), *final(ctx)),
        (r.0 is Some) == (first_success(responses@) is Some),
        r.0 matches Some(p) ==> payload_step(
            *doc,
            *old(ctx),
            responses@[first_success(responses@)->Some_0],
            p,
            r.1@,
            *final(ctx),
        ),
        r.0 is None ==> *final(ctx) == *old(ctx) && r.1@.len() == 0,
{
    let n = responses.len();
    // Select the numerically smallest declared 2xx response.
    let mut best: Option<usize> = None;
    let mut best_code: u16 = 0;
    let mut i: usize = 0;
    proof {
        lemma_extends_refl(*ctx);
    }
    while i < n
        invariant
            i <= n,
            match best {
                Some(b) => {
                    &&& first_success_upto(responses@, i as int) == Some(b as int)
                    &&& b < n
                    &&& spec_parse_u16(responses@[b as int].0@) == Some(best_code)
                },
                None => first_success_upto(responses@, i as int) is None,
            },
        decreases n - i,
    {
        match parse_u16(responses[i].0.as_str()) {
            Some(code) => {
                if 200 <= code && code < 300 {
                    match &responses[i].1 {
                        ResponseOrRef::Inline(_) => {
                            proof {
                                assert(is_success_entry(responses@[i as int]));
                            }
                            match best {
                                Some(_) => {
                                    if code < best_code {
                                        best = Some(i);
                                        best_code = code;
                                    }
                                },
                                None => {
                                    best = Some(i);
                                    best_code = code;
                                },
                            }
                        },
                        ResponseOrRef::Reference(_) => {
                            proof {
                                assert(!is_success_entry(responses@[i as int]));
                            }
                        },
                    }
                } else {
                    proof {
                        assert(!is_success_entry(responses@[i as int]));
                    }
                }
            },
            None => {
                proof {
                    assert(!is_success_entry(responses@[i as int]));
                }
            },
        }
        i = i + 1;
    }
    let b = match best {
        Some(b) => b,
        None => {
            return (None, Vec::new());
        },
    };
    proof {
        lemma_first_success_bounds(responses@, responses@.len() as int);
        assert(first_success(responses@) == Some(b as int));
    }
    let code = best_code;
    let ghost ctx_before = *ctx;
    match &responses[b].1 {
        ResponseOrRef::Inline(response) => {
            let mut produces: Vec<String> = Vec::new();
            if response.content.len() > 0 {
                produces.push(response.content[0].0.clone());
                match &response.content[0].1.schema {
                    Some(schema_ref) => {
                        let ty: TypeRef = match schema_ref {
                            SchemaOrRef::Reference(_) => {
                                crate::typeref::convert_sor_to_type_ref(schema_ref)
                            },
                            SchemaOrRef::Inline(inline) => {
                                if should_hoist_schema(inline) {
                                    let op_ref: Option<&String> = match &ctx.current_operation_id {
                                        Some(o) => Some(o),
                                        None => None,
                                    };
                                    proof {
                                        assert(crate::hoist::opt_view(op_ref) == opt_text(
                                            ctx.current_operation_id,
                                        ));
                                    }
                                    let new_name = generate_inline_type_name(
                                        ctx,
                                        op_ref,
                                        "Response",
                                        None,
                                    );
                                    let parent_name = new_name.clone();
                                    let nullable = inline.is_nullable_or_default();
                                    proof {
                                        assert(chosen_name(
                                            ctx_before.used_type_names@,
                                            spec_base_name(
                                                opt_text(ctx_before.current_operation_id),
                                                Option::None,
                                                "Response"@,
                                            ),
                                            new_name@,
                                        ));
                                    }
                                    let type_id = hoist_inline_schema_with_parent(
                                        doc,
                                        ctx,
                                        new_name,
                                        inline,
                                        Some(&parent_name),
                                    );
                                    TypeRef {
                                        target: type_id,
                                        optional: false,
                                        nullable,
                                        by_ref: false,
                                        modifiers: Vec::new(),
                                    }
                                } else {
                                    crate::typeref::convert_sor_to_type_ref(schema_ref)
                                }
                            },
                        };
                        let payload = Payload {
                            status: StatusSpec::Code(code),
                            content_type: Some(response.content[0].0.clone()),
                            ty: Some(ty),
                            headers: Vec::new(),
                            docs: Docs {
                                summary: clone_opt_string(&response.description),
                                description: None,
                                deprecated: false,
                                since: None,
                                examples: Vec::new(),
                                external_urls: Vec::new(),
                            },
                        };
                        proof {
                            assert(payload_step(
                                *doc,
                                *old(ctx),
                                responses@[b as int],
                                payload,
                                produces@,
                                *ctx,
                            ));
                        }
                        return (Some(payload), produces);
                    },
                    None => {},
                }
            }
            // A success response with no usable content still yields a
            // payload, with no type.
            let payload = Payload {
                status: StatusSpec::Code(code),
                content_type: None,
                ty: None,
                headers: Vec::new(),
                docs: Docs {
                    summary: clone_opt_string(&response.description),
                    description: None,
                    deprecated: false,
                    since: None,
                    examples: Vec::new(),
                    external_urls: Vec::new(),
                },
            };
            proof {
                assert(payload_step(
                    *doc,
                    *old(ctx),
                    responses@[b as int],
                    payload,
                    produces@,
                    *ctx,
                ));
            }
            (Some(payload), produces)
        },
        ResponseOrRef::Reference(_) => {
            proof {
                assert(is_success_entry(responses@[b as int]));
                assert(false);
            }
            (None, Vec::new())
        },
    }
}

} // verus!
