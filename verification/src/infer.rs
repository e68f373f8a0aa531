//! The type-inference and hoisting walk: converts schemas into registered
//! type declarations, promoting inline object schemas to named types and
//! deduplicating them by structural key.

use vstd::prelude::*;

use crate::document::{
    size_props, size_schema, size_sor, BoolOrSchema, Document, JsonLit, Schema, SchemaOrRef,
    SchemaType, TypeSet,
};
use crate::hoist::{
    cache_find, count_hoisted, generate_inline_type_name, lemma_cache_find_push,
    lemma_count_hoisted_push, name_in, opt_view, should_hoist_schema, spec_base_name,
    spec_candidate, spec_should_hoist, BuildContext,
};
use crate::ir::{
    find_decl, Additional, AliasTarget, Composite, Docs, EnumValue, Field, Literal, Primitive,
    StableId, TypeDecl, TypeKind, TypeOrigin, TypeRef,
};
use crate::key::{key_schema, schema_key};
use crate::naming::{name_wf, CanonicalName};
use crate::resolve::{resolve, spec_resolution};
use crate::strutil::{push_dec, spec_dec};
use crate::typeref::{
    convert_bos_to_type_ref, convert_object_schema_to_type_ref, infer_primitive_from_schema,
    ref_matches, spec_bos_ref, spec_obj_ref, spec_primitive,
};

verus! {

/// The text of an optional string.
pub open spec fn opt_text(o: Option<String>) -> Option<Seq<char>> {
    match o {
        Option::Some(s) => Option::Some(s@),
        Option::None => Option::None,
    }
}

/// Copies an optional string.
pub fn clone_opt_string(o: &Option<String>) -> (r: Option<String>)
    ensures
        opt_text(r) == opt_text(*o),
{
    match o {
        Some(s) => Some(s.clone()),
        None => None,
    }
}

/// `deprecated` as the builder reads it: absent means false.
pub open spec fn spec_deprecated(o: Option<bool>) -> bool {
    o == Some(true)
}

pub fn deprecated_or_default(o: &Option<bool>) -> (r: bool)
    ensures
        r == spec_deprecated(*o),
{
    match o {
        Some(b) => *b,
        None => false,
    }
}

/// The name an enum value receives: a string literal names itself, any
/// other literal gets the positional placeholder.
pub open spec fn spec_enum_name(l: JsonLit, idx: int) -> Seq<char> {
    match l {
        JsonLit::Str(s) => s@,
        _ => "Value"@ + spec_dec(idx as nat),
    }
}

/// The wire literal an enum value carries.
pub open spec fn lit_matches(l: JsonLit, w: Literal) -> bool {
    match l {
        JsonLit::Str(s) => w matches Literal::String(t) && t@ == s@,
        JsonLit::Int(i) => w matches Literal::I64(j) && j == i,
        JsonLit::Float(s) => w matches Literal::F64(t) && t@ == s@,
        JsonLit::Bool(b) => w matches Literal::Bool(c) && c == b,
        JsonLit::Null => w is Null,
        JsonLit::Raw(s) => w matches Literal::String(t) && t@ == s@,
    }
}

pub open spec fn enum_value_matches(l: JsonLit, idx: int, ev: EnumValue) -> bool {
    &&& ev.name.canonical@ == spec_enum_name(l, idx)
    &&& name_wf(ev.name)
    &&& lit_matches(l, ev.wire)
}

/// Converts declared enumeration literals into named enum values.
#[verifier::loop_isolation(false)]
#[allow(unused_variables)]
pub fn convert_enum_values(values: &Vec<JsonLit>, base: Primitive) -> (r: Vec<EnumValue>)
    ensures
        r@.len() == values@.len(),
        forall|i: int|
            0 <= i < values@.len() ==> enum_value_matches(values@[i], i, #[trigger] r@[i]),
{
    let n = values.len();
    let mut out: Vec<EnumValue> = Vec::new();
    let mut i: usize = 0;
    while i < n
        invariant
            i <= n,
            out@.len() == i,
            forall|k: int| 0 <= k < i ==> enum_value_matches(values@[k], k, #[trigger] out@[k]),
        decreases n - i,
    {
        let (name, wire): (String, Literal) = match &values[i] {
            JsonLit::Str(s) => (s.clone(), Literal::String(s.clone())),
            JsonLit::Int(v) => {
                let mut nm = String::from_str("Value");
                push_dec(&mut nm, i as u128);
                (nm, Literal::I64(*v))
            },
            JsonLit::Float(s) => {
                let mut nm = String::from_str("Value");
                push_dec(&mut nm, i as u128);
                (nm, Literal::F64(s.clone()))
            },
            JsonLit::Bool(b) => {
                let mut nm = String::from_str("Value");
                push_dec(&mut nm, i as u128);
                (nm, Literal::Bool(*b))
            },
            JsonLit::Null => {
                let mut nm = String::from_str("Value");
                push_dec(&mut nm, i as u128);
                (nm, Literal::Null)
            },
            JsonLit::Raw(s) => {
                let mut nm = String::from_str("Value");
                push_dec(&mut nm, i as u128);
                (nm, Literal::String(s.clone()))
            },
        };
        let ev = EnumValue { name: CanonicalName::from_string(name.as_str()), docs: Docs::empty(), wire };
        proof {
            assert(ev.name.canonical@ == spec_enum_name(values@[i as int], i as int));
        }
        out.push(ev);
        i = i + 1;
    }
    out
}

/// One produced struct field against the property it came from: wire name,
/// canonical name, required-ness and the empty default/const slots.
pub open spec fn field_core(f: Field, p: (String, SchemaOrRef), req: Seq<String>) -> bool {
    &&& f.wire_name@ == p.0@
    &&& f.name.canonical@ == p.0@
    &&& name_wf(f.name)
    &&& f.ty.optional == !name_in(req, p.0@)
    &&& f.default is None
    &&& f.const_value is None
    &&& !f.ty.by_ref
}

/// A field's documentation against the schema its property holds.
pub open spec fn field_docs_match(f: Field, sch: Schema) -> bool {
    &&& opt_text(f.docs.summary) == opt_text(sch.title)
    &&& opt_text(f.docs.description) == opt_text(sch.description)
    &&& f.docs.deprecated == spec_deprecated(sch.deprecated)
    &&& f.deprecated == spec_deprecated(sch.deprecated)
}

/// A field's type against a use-site conversion, ignoring the optional flag
/// (required-ness overrides it).
pub open spec fn ty_shape_matches(t: TypeRef, d: (Seq<char>, bool, bool)) -> bool {
    &&& t.target@ == d.0
    &&& t.nullable == d.1
    &&& !t.by_ref
    &&& if d.2 {
        t.modifiers@.len() == 1 && t.modifiers@[0] is List
    } else {
        t.modifiers@.len() == 0
    }
}

/// The name the hoister was asked for: the first free of the candidates
/// derived from the allocated names.
pub open spec fn chosen_name(used: Seq<String>, base: Seq<char>, nm: Seq<char>) -> bool {
    exists|k: nat|
        {
            &&& 1 <= k
            &&& nm == spec_candidate(base, k)
            &&& !name_in(used, nm)
            &&& forall|j: nat| 1 <= j < k ==> name_in(used, #[trigger] spec_candidate(base, j))
        }
}

/// Always true: quantifiers over intermediate build contexts trigger on
/// this marker, so a witness is introduced by naming it.
pub open spec fn witness_ctx(c: BuildContext) -> bool {
    true
}

/// A property that contributes no field: a reference that does not resolve.
pub open spec fn prop_skipped(doc: Document, p: (String, SchemaOrRef)) -> bool {
    p.1 is Reference && spec_resolution(doc, p.1) is Err
}

/// One property's conversion: the produced field and the context after it,
/// against the property and the context before it.  A resolvable reference
/// converts in place; a hoistable inline schema is hoisted first, under the
/// name derived from the naming context and the property key, and referenced
/// by its id; any other inline schema converts in place.
pub open spec fn prop_step(
    doc: Document,
    c0: BuildContext,
    p: (String, SchemaOrRef),
    req: Seq<String>,
    f: Field,
    c1: BuildContext,
) -> bool
    decreases size_sor(p.1), 3int,
{
    match p.1 {
        SchemaOrRef::Reference(_) => {
            &&& c1 == c0
            &&& spec_resolution(doc, p.1) matches Ok(sch) && {
                &&& field_core(f, p, req)
                &&& field_docs_match(f, sch)
                &&& ty_shape_matches(f.ty, spec_obj_ref(sch))
            }
        },
        SchemaOrRef::Inline(inline) => {
            &&& field_core(f, p, req)
            &&& field_docs_match(f, inline)
            &&& if spec_should_hoist(inline) {
                exists|nm: Seq<char>|
                    {
                        &&& #[trigger] chosen_name(
                            c0.used_type_names@,
                            spec_base_name(
                                opt_text(c0.current_operation_id),
                                Some(p.0@),
                                "Property"@,
                            ),
                            nm,
                        )
                        &&& hoist_post(doc, c0, c1, inline, nm, Option::None, f.ty.target)
                        &&& f.ty.nullable == inline.spec_nullable()
                        &&& f.ty.modifiers@.len() == 0
                    }
            } else {
                &&& c1 == c0
                &&& ty_shape_matches(f.ty, spec_obj_ref(inline))
            }
        },
    }
}

/// The fields of an object schema: one per property whose node resolves, in
/// property order, with the context threaded left to right.
pub open spec fn props_post(
    doc: Document,
    c0: BuildContext,
    props: Seq<(String, SchemaOrRef)>,
    req: Seq<String>,
    fields: Seq<Field>,
    c1: BuildContext,
) -> bool
    decreases size_props(props), 5int,
    via props_post_dec
{
    if props.len() == 0 {
        fields.len() == 0 && c1 == c0
    } else if prop_skipped(doc, props.last()) {
        props_post(doc, c0, props.drop_last(), req, fields, c1)
    } else {
        &&& fields.len() > 0
        &&& exists|c_mid: BuildContext|
            #[trigger] witness_ctx(c_mid) && props_link(doc, c0, props, req, fields, c_mid, c1)
    }
}

/// The last property's step, after all the earlier ones: the witness shape
/// of `props_post`'s recursion.
pub open spec fn props_link(
    doc: Document,
    c0: BuildContext,
    props: Seq<(String, SchemaOrRef)>,
    req: Seq<String>,
    fields: Seq<Field>,
    c_mid: BuildContext,
    c1: BuildContext,
) -> bool
    decreases size_props(props), 4int,
    via props_link_dec
{
    &&& props.len() > 0
    &&& fields.len() > 0
    &&& props_post(doc, c0, props.drop_last(), req, fields.drop_last(), c_mid)
    &&& prop_step(doc, c_mid, props.last(), req, fields.last(), c1)
}

#[via_fn]
proof fn props_link_dec(
    doc: Document,
    c0: BuildContext,
    props: Seq<(String, SchemaOrRef)>,
    req: Seq<String>,
    fields: Seq<Field>,
    c_mid: BuildContext,
    c1: BuildContext,
) {
    if props.len() > 0 {
        lemma_size_props_drop_last(props);
        lemma_size_props_elem(props, props.len() - 1);
    }
}

/// Whether a schema is object-shaped: declared `object`, or no declared type
/// but properties present.
pub open spec fn is_object_like(s: Schema) -> bool {
    (s.schema_type matches Some(TypeSet::One(SchemaType::Object))) || (s.schema_type is None
        && s.properties@.len() > 0)
}

/// `Forbidden` exactly when `additionalProperties` is the literal `false`.
pub open spec fn spec_additional(s: Schema) -> Additional {
    if s.additional_properties matches Some(BoolOrSchema::Boolean(false)) {
        Additional::Forbidden
    } else {
        Additional::Any
    }
}

#[via_fn]
proof fn props_post_dec(
    doc: Document,
    c0: BuildContext,
    props: Seq<(String, SchemaOrRef)>,
    req: Seq<String>,
    fields: Seq<Field>,
    c1: BuildContext,
) {
    if props.len() > 0 {
        lemma_size_props_drop_last(props);
        lemma_size_props_elem(props, props.len() - 1);
    }
}

/// The inference decision tree, first match wins: enumeration, object shape,
/// declared primitive, array, null, unconstrained.  `c0` and `c1` are the
/// contexts around the inference; only an object shape (whose properties may
/// hoist) moves the context.
pub open spec fn kind_matches(
    doc: Document,
    s: Schema,
    k: TypeKind,
    c0: BuildContext,
    c1: BuildContext,
) -> bool
    decreases size_schema(s), 0int,
{
    if s.enum_values@.len() > 0 {
        &&& c1 == c0
        &&& k matches TypeKind::Enum { base, values }
        &&& base == spec_primitive(s)
        &&& values@.len() == s.enum_values@.len()
        &&& forall|i: int|
            0 <= i < values@.len() ==> enum_value_matches(
                s.enum_values@[i],
                i,
                #[trigger] values@[i],
            )
    } else if is_object_like(s) {
        &&& k matches TypeKind::Struct { fields, additional, discriminator }
        &&& discriminator is None
        &&& additional == spec_additional(s)
        &&& props_post(doc, c0, s.properties@, s.required@, fields@, c1)
    } else if s.schema_type matches Some(TypeSet::One(SchemaType::String)) || s.schema_type
        matches Some(TypeSet::One(SchemaType::Integer)) || s.schema_type matches Some(
        TypeSet::One(SchemaType::Number),
    ) || s.schema_type matches Some(TypeSet::One(SchemaType::Boolean)) {
        &&& c1 == c0
        &&& k matches TypeKind::Alias { aliased: AliasTarget::Primitive(p) } && p
            == spec_primitive(s)
    } else if s.schema_type matches Some(TypeSet::One(SchemaType::Array)) {
        &&& c1 == c0
        &&& match s.items {
            Option::Some(it) => k matches TypeKind::Alias {
                aliased: AliasTarget::Composite(Composite::List(inner)),
            } && ref_matches(*inner, spec_bos_ref(it)),
            Option::None => k matches TypeKind::Alias {
                aliased: AliasTarget::Primitive(Primitive::Any),
            },
        }
    } else if s.schema_type matches Some(TypeSet::One(SchemaType::Null)) {
        &&& c1 == c0
        &&& k matches TypeKind::Struct { fields, additional, discriminator }
        &&& fields@.len() == 0
        &&& additional is Forbidden
        &&& discriminator is None
    } else {
        &&& c1 == c0
        &&& k matches TypeKind::Struct { fields, additional, discriminator }
        &&& fields@.len() == 0
        &&& additional is Any
        &&& discriminator is None
    }
}

/// A produced declaration against its source schema; `c0` and `c1` are the
/// contexts around the conversion that built it.
pub open spec fn decl_matches(
    doc: Document,
    d: TypeDecl,
    name: Seq<char>,
    s: Schema,
    origin: TypeOrigin,
    c0: BuildContext,
    c1: BuildContext,
) -> bool
    decreases size_schema(s), 1int,
{
    &&& d.id@ == name
    &&& d.name.canonical@ == name
    &&& name_wf(d.name)
    &&& d.origin == Some(origin)
    &&& opt_text(d.docs.summary) == opt_text(s.title)
    &&& opt_text(d.docs.description) == opt_text(s.description)
    &&& d.docs.deprecated == spec_deprecated(s.deprecated)
    &&& kind_matches(doc, s, d.kind, c0, c1)
}

/// What hoisting promises: a cache hit returns the recorded id and changes
/// nothing; a miss registers the schema under the requested name, records
/// its structural key, and the registered declaration was converted between
/// a context that reserved the name (and, when `op_override` names a
/// parent, carried it as the naming context) and a context whose extension
/// by exactly that declaration and cache entry is the outcome.
pub open spec fn hoist_post(
    doc: Document,
    old_ctx: BuildContext,
    new_ctx: BuildContext,
    s: Schema,
    nm: Seq<char>,
    op_override: Option<Seq<char>>,
    r: StableId,
) -> bool
    decreases size_schema(s), 3int,
{
    match cache_find(old_ctx.inline_cache@, key_schema(s)) {
        Option::Some(id) => {
            &&& new_ctx.types@ == old_ctx.types@
            &&& new_ctx.inline_cache@ == old_ctx.inline_cache@
            &&& new_ctx.used_type_names@ == old_ctx.used_type_names@
            &&& r@ == id
        },
        Option::None => {
            &&& cache_find(new_ctx.inline_cache@, key_schema(s)) == Some(r@)
            &&& r@ == nm
            &&& find_decl(new_ctx.types@, nm) matches Some(d) && exists|
                c_a: BuildContext,
                c_b: BuildContext,
            |
                #![trigger witness_ctx(c_a), witness_ctx(c_b)]
                witness_ctx(c_a) && witness_ctx(c_b) && hoist_registration(
                    doc,
                    old_ctx,
                    new_ctx,
                    s,
                    nm,
                    op_override,
                    c_a,
                    c_b,
                    d,
                )
        },
    }
}

/// The registration a cache miss performs: the declaration was converted
/// between `c_a` (the entry context with the name reserved and, when given,
/// the naming context overridden) and `c_b`, whose extension by exactly this
/// declaration and one cache entry is the outcome.
pub open spec fn hoist_registration(
    doc: Document,
    old_ctx: BuildContext,
    new_ctx: BuildContext,
    s: Schema,
    nm: Seq<char>,
    op_override: Option<Seq<char>>,
    c_a: BuildContext,
    c_b: BuildContext,
    d: TypeDecl,
) -> bool
    decreases size_schema(s), 2int,
{
    &&& decl_matches(doc, d, nm, s, TypeOrigin::Hoisted, c_a, c_b)
    &&& c_a.types@ == old_ctx.types@
    &&& c_a.inline_cache@ == old_ctx.inline_cache@
    &&& old_ctx.used_type_names@.is_prefix_of(c_a.used_type_names@)
    &&& c_a.used_type_names@.len() == old_ctx.used_type_names@.len() + 1
    &&& c_a.used_type_names@.last()@ == nm
    &&& match op_override {
        Option::Some(v) => opt_text(c_a.current_operation_id) == Some(v),
        Option::None => c_a.current_operation_id == old_ctx.current_operation_id,
    }
    &&& new_ctx.types@ == c_b.types@.push(d)
    &&& new_ctx.inline_cache@.len() == c_b.inline_cache@.len() + 1
    &&& c_b.inline_cache@.is_prefix_of(new_ctx.inline_cache@)
    &&& new_ctx.inline_cache@.last().0@ == key_schema(s)
    &&& new_ctx.inline_cache@.last().1@ == nm
}

/// Folds one property step onto an established prefix.
pub proof fn lemma_props_post_snoc(
    doc: Document,
    c0: BuildContext,
    props: Seq<(String, SchemaOrRef)>,
    req: Seq<String>,
    fields: Seq<Field>,
    c_mid: BuildContext,
    c1: BuildContext,
)
    requires
        props.len() > 0,
        !prop_skipped(doc, props.last()),
        props_link(doc, c0, props, req, fields, c_mid, c1),
    ensures
        props_post(doc, c0, props, req, fields, c1),
{
    assert(witness_ctx(c_mid));
}

/// Folds a skipped property onto an established prefix.
pub proof fn lemma_props_post_skip(
    doc: Document,
    c0: BuildContext,
    props: Seq<(String, SchemaOrRef)>,
    req: Seq<String>,
    fields: Seq<Field>,
    c1: BuildContext,
)
    requires
        props.len() > 0,
        prop_skipped(doc, props.last()),
        props_post(doc, c0, props.drop_last(), req, fields, c1),
    ensures
        props_post(doc, c0, props, req, fields, c1),
{
}

/// Assembles the hoisting contract's miss case from its pieces.
pub proof fn lemma_intro_hoist_post(
    doc: Document,
    old_ctx: BuildContext,
    new_ctx: BuildContext,
    s: Schema,
    nm: Seq<char>,
    op_override: Option<Seq<char>>,
    r: StableId,
    d: TypeDecl,
    c_a: BuildContext,
    c_b: BuildContext,
)
    requires
        cache_find(old_ctx.inline_cache@, key_schema(s)) is None,
        cache_find(new_ctx.inline_cache@, key_schema(s)) == Some(r@),
        r@ == nm,
        find_decl(new_ctx.types@, nm) == Some(d),
        hoist_registration(doc, old_ctx, new_ctx, s, nm, op_override, c_a, c_b, d),
    ensures
        hoist_post(doc, old_ctx, new_ctx, s, nm, op_override, r),
{
    assert(find_decl(new_ctx.types@, nm) matches Some(dd) && dd == d);
    assert(witness_ctx(c_a));
    assert(witness_ctx(c_b));
}

/// Dropping the last property strictly shrinks the list's size.
proof fn lemma_size_props_drop_last(ps: Seq<(String, SchemaOrRef)>)
    requires
        ps.len() > 0,
    ensures
        size_props(ps.drop_last()) < size_props(ps),
    decreases ps.len(),
{
    if ps.len() == 1 {
        assert(ps.drop_last().len() == 0);
        assert(size_props(ps) == size_sor(ps[0].1) + size_props(ps.drop_first()));
        assert(ps.drop_first().len() == 0);
        assert(size_sor(ps[0].1) >= 1);
    } else {
        assert(ps.drop_last()[0] == ps[0]);
        assert(ps.drop_last().drop_first() =~= ps.drop_first().drop_last());
        lemma_size_props_drop_last(ps.drop_first());
    }
}

/// An element's size is bounded by its property list's size.
proof fn lemma_size_props_elem(ps: Seq<(String, SchemaOrRef)>, i: int)
    requires
        0 <= i < ps.len(),
    ensures
        size_sor(ps[i].1) <= size_props(ps),
    decreases ps.len(),
{
    if i > 0 {
        lemma_size_props_elem(ps.drop_first(), i - 1);
        assert(ps.drop_first()[i - 1] == ps[i]);
    }
}

/// Lookups found in a prefix survive any extension of the list.
pub proof fn lemma_find_decl_append(s: Seq<TypeDecl>, t: Seq<TypeDecl>, k: Seq<char>)
    ensures
        find_decl(s, k) is Some ==> find_decl(s + t, k) == find_decl(s, k),
        find_decl(s, k) is None ==> find_decl(s + t, k) == find_decl(t, k),
    decreases s.len(),
{
    if s.len() == 0 {
        assert(s + t =~= t);
    } else {
        assert((s + t)[0] == s[0]);
        assert((s + t).drop_first() =~= s.drop_first() + t);
        lemma_find_decl_append(s.drop_first(), t, k);
    }
}

/// Hoisted counts add up over concatenation.
pub proof fn lemma_count_hoisted_append(s: Seq<TypeDecl>, t: Seq<TypeDecl>)
    ensures
        count_hoisted(s + t) == count_hoisted(s) + count_hoisted(t),
    decreases s.len(),
{
    if s.len() == 0 {
        assert(s + t =~= t);
    } else {
        assert((s + t)[0] == s[0]);
        assert((s + t).drop_first() =~= s.drop_first() + t);
        lemma_count_hoisted_append(s.drop_first(), t);
    }
}

/// Prefixes compose.
pub proof fn lemma_prefix_trans<T>(a: Seq<T>, b: Seq<T>, c: Seq<T>)
    requires
        a.is_prefix_of(b),
        b.is_prefix_of(c),
    ensures
        a.is_prefix_of(c),
{
    assert forall|i: int| 0 <= i < a.len() implies a[i] == c[i] by {
        assert(a[i] == b.subrange(0, a.len() as int)[i]);
        assert(b[i] == c.subrange(0, b.len() as int)[i]);
    }
    assert(a =~= c.subrange(0, a.len() as int));
}

/// Appending keeps the original as a prefix.
pub proof fn lemma_prefix_push<T>(a: Seq<T>, x: T)
    ensures
        a.is_prefix_of(a.push(x)),
{
    assert(a =~= a.push(x).subrange(0, a.len() as int));
}

/// `extends` is reflexive.
pub proof fn lemma_extends_refl(c: BuildContext)
    ensures
        BuildContext::extends(c, c),
{
    assert(c.types@.subrange(0, c.types@.len() as int) =~= c.types@);
    assert(c.inline_cache@.subrange(0, c.inline_cache@.len() as int) =~= c.inline_cache@);
    assert(c.used_type_names@.subrange(0, c.used_type_names@.len() as int)
        =~= c.used_type_names@);
}

/// Converts the declared properties of an object schema into struct fields:
/// one field per property whose node resolves, in property order.  A
/// property whose reference does not resolve is skipped; an inline object
/// schema worth a declaration of its own is hoisted first and referenced by
/// its new id.
#[verifier::loop_isolation(false)]
#[verifier::rlimit(60)]
pub fn convert_properties(
    doc: &Document,
    ctx: &mut BuildContext,
    properties: &Vec<(String, SchemaOrRef)>,
    required: &Vec<String>,
) -> (r: Vec<Field>)
    requires
        old(ctx).inv(),
    ensures
        final(ctx).inv(),
        BuildContext::extends(*old(ctx), *final(ctx)),
        props_post(*doc, *old(ctx), properties@, required@, r@, *final(ctx)),
    decreases size_props(properties@), 0int,
{
    let n = properties.len();
    let mut fields: Vec<Field> = Vec::new();
    let mut i: usize = 0;
    proof {
        lemma_extends_refl(*ctx);
        assert(properties@.take(0).len() == 0);
    }
    while i < n
        invariant
            i <= n,
            ctx.inv(),
            BuildContext::extends(*old(ctx), *ctx),
            props_post(*doc, *old(ctx), properties@.take(i as int), required@, fields@, *ctx),
        decreases n - i,
    {
        let ghost ctx_before = *ctx;
        let ghost fields_before = fields@;
        proof {
            assert(properties@.take(i as int + 1).drop_last() =~= properties@.take(i as int));
            assert(properties@.take(i as int + 1).last() == properties@[i as int]);
        }
        let prop_name: &String = &properties[i].0;
        let is_required = crate::hoist::name_used(required, prop_name.as_str());
        match &properties[i].1 {
            SchemaOrRef::Reference(_) => {
                match resolve(doc, &properties[i].1) {
                    Ok(prop_schema) => {
                        let ty = convert_object_schema_to_type_ref(prop_schema);
                        let nullable = prop_schema.is_nullable_or_default();
                        let f = Field {
                            name: CanonicalName::from_string(prop_name.as_str()),
                            docs: Docs {
                                summary: clone_opt_string(&prop_schema.title),
                                description: clone_opt_string(&prop_schema.description),
                                deprecated: deprecated_or_default(&prop_schema.deprecated),
                                since: None,
                                examples: Vec::new(),
                                external_urls: Vec::new(),
                            },
                            ty: TypeRef {
                                target: ty.target,
                                optional: !is_required,
                                nullable,
                                by_ref: false,
                                modifiers: ty.modifiers,
                            },
                            default: None,
                            deprecated: deprecated_or_default(&prop_schema.deprecated),
                            const_value: None,
                            wire_name: prop_name.clone(),
                        };
                        proof {
                            assert(prop_step(
                                *doc,
                                ctx_before,
                                properties@[i as int],
                                required@,
                                f,
                                *ctx,
                            ));
                        }
                        fields.push(f);
                        proof {
                            assert(fields@.drop_last() =~= fields_before);
                            assert(fields@.last() == f);
                            assert(!prop_skipped(*doc, properties@.take(i as int + 1).last()));
                            assert(props_link(
                                *doc,
                                *old(ctx),
                                properties@.take(i as int + 1),
                                required@,
                                fields@,
                                ctx_before,
                                *ctx,
                            ));
                            lemma_props_post_snoc(
                                *doc,
                                *old(ctx),
                                properties@.take(i as int + 1),
                                required@,
                                fields@,
                                ctx_before,
                                *ctx,
                            );
                        }
                    },
                    Err(_) => {
                        proof {
                            assert(prop_skipped(*doc, properties@.take(i as int + 1).last()));
                            lemma_props_post_skip(
                                *doc,
                                *old(ctx),
                                properties@.take(i as int + 1),
                                required@,
                                fields@,
                                *ctx,
                            );
                        }
                    },
                }
            },
            SchemaOrRef::Inline(inline) => {
                let nullable = inline.is_nullable_or_default();
                let ty = if should_hoist_schema(inline) {
                    let op_ref: Option<&String> = match &ctx.current_operation_id {
                        Some(o) => Some(o),
                        None => None,
                    };
                    proof {
                        assert(opt_view(op_ref) == opt_text(ctx.current_operation_id));
                    }
                    let new_name = generate_inline_type_name(ctx, op_ref, "Property", Some(
                        prop_name,
                    ));
                    let ghost nm = new_name@;
                    proof {
                        assert(chosen_name(
                            ctx_before.used_type_names@,
                            spec_base_name(
                                opt_text(ctx_before.current_operation_id),
                                Some(properties@[i as int].0@),
                                "Property"@,
                            ),
                            nm,
                        ));
                        lemma_size_props_elem(properties@, i as int);
                    }
                    let type_id = hoist_inline_schema(doc, ctx, new_name, inline);
                    TypeRef {
                        target: type_id,
                        optional: false,
                        nullable,
                        by_ref: false,
                        modifiers: Vec::new(),
                    }
                } else {
                    convert_object_schema_to_type_ref(inline)
                };
                let f = Field {
                    name: CanonicalName::from_string(prop_name.as_str()),
                    docs: Docs {
                        summary: clone_opt_string(&inline.title),
                        description: clone_opt_string(&inline.description),
                        deprecated: deprecated_or_default(&inline.deprecated),
                        since: None,
                        examples: Vec::new(),
                        external_urls: Vec::new(),
                    },
                    ty: TypeRef {
                        target: ty.target,
                        optional: !is_required,
                        nullable,
                        by_ref: false,
                        modifiers: ty.modifiers,
                    },
                    default: None,
                    deprecated: deprecated_or_default(&inline.deprecated),
                    const_value: None,
                    wire_name: prop_name.clone(),
                };
                proof {
                    assert(prop_step(*doc, ctx_before, properties@[i as int], required@, f, *ctx));
                    BuildContext::lemma_extends_trans(*old(ctx), ctx_before, *ctx);
                }
                fields.push(f);
                proof {
                    assert(fields@.drop_last() =~= fields_before);
                    assert(fields@.last() == f);
                    assert(!prop_skipped(*doc, properties@.take(i as int + 1).last()));
                    assert(props_link(
                        *doc,
                        *old(ctx),
                        properties@.take(i as int + 1),
                        required@,
                        fields@,
                        ctx_before,
                        *ctx,
                    ));
                    lemma_props_post_snoc(
                        *doc,
                        *old(ctx),
                        properties@.take(i as int + 1),
                        required@,
                        fields@,
                        ctx_before,
                        *ctx,
                    );
                }
            },
        }
        i = i + 1;
    }
    proof {
        assert(properties@.take(n as int) =~= properties@);
    }
    fields
}

/// Decides the structural shape of a concrete schema, first match wins:
/// enumeration, object (explicit or implicit), declared primitive, array,
/// null, and a conservative empty struct for anything else.
pub fn infer_type_kind(doc: &Document, ctx: &mut BuildContext, s: &Schema) -> (r: TypeKind)
    requires
        old(ctx).inv(),
    ensures
        final(ctx).inv(),
        BuildContext::extends(*old(ctx), *final(ctx)),
        kind_matches(*doc, *s, r, *old(ctx), *final(ctx)),
    decreases size_schema(*s), 1int,
{
    proof {
        lemma_extends_refl(*ctx);
    }
    if s.enum_values.len() > 0 {
        let base = infer_primitive_from_schema(s);
        let values = convert_enum_values(&s.enum_values, base);
        return TypeKind::Enum { base, values };
    }
    let object_like = match &s.schema_type {
        Some(TypeSet::One(SchemaType::Object)) => true,
        None => s.properties.len() > 0,
        _ => false,
    };
    if object_like {
        let fields = convert_properties(doc, ctx, &s.properties, &s.required);
        let additional = match &s.additional_properties {
            Some(BoolOrSchema::Boolean(false)) => Additional::Forbidden,
            _ => Additional::Any,
        };
        return TypeKind::Struct { fields, additional, discriminator: None };
    }
    match &s.schema_type {
        Some(TypeSet::One(SchemaType::String)) | Some(TypeSet::One(SchemaType::Integer)) | Some(
            TypeSet::One(SchemaType::Number),
        ) | Some(TypeSet::One(SchemaType::Boolean)) => {
            TypeKind::Alias { aliased: AliasTarget::Primitive(infer_primitive_from_schema(s)) }
        },
        Some(TypeSet::One(SchemaType::Array)) => {
            match &s.items {
                Some(items) => {
                    let inner = convert_bos_to_type_ref(items);
                    TypeKind::Alias {
                        aliased: AliasTarget::Composite(Composite::List(Box::new(inner))),
                    }
                },
                None => TypeKind::Alias { aliased: AliasTarget::Primitive(Primitive::Any) },
            }
        },
        Some(TypeSet::One(SchemaType::Null)) => TypeKind::Struct {
            fields: Vec::new(),
            additional: Additional::Forbidden,
            discriminator: None,
        },
        _ => TypeKind::Struct {
            fields: Vec::new(),
            additional: Additional::Any,
            discriminator: None,
        },
    }
}

/// Converts one concrete schema into a declaration under the given name and
/// origin.  Inline types discovered inside are hoisted into the context as a
/// side effect.
pub fn convert_schema_to_type(
    doc: &Document,
    ctx: &mut BuildContext,
    name: &str,
    s: &Schema,
    origin: TypeOrigin,
) -> (r: Option<TypeDecl>)
    requires
        old(ctx).inv(),
    ensures
        final(ctx).inv(),
        BuildContext::extends(*old(ctx), *final(ctx)),
        r matches Some(d) && decl_matches(*doc, d, name@, *s, origin, *old(ctx), *final(ctx)),
    decreases size_schema(*s), 2int,
{
    let id = StableId::new(name);
    let canonical_name = CanonicalName::from_string(name);
    let docs = Docs {
        summary: clone_opt_string(&s.title),
        description: clone_opt_string(&s.description),
        deprecated: deprecated_or_default(&s.deprecated),
        since: None,
        examples: Vec::new(),
        external_urls: Vec::new(),
    };
    let kind = infer_type_kind(doc, ctx, s);
    Some(TypeDecl { id, name: canonical_name, docs, kind, origin: Some(origin) })
}

/// Promotes an inline schema to a named type, deduplicating by structural
/// key.  `parent` temporarily overrides the naming context so that a nested
/// object inherits its parent type's name rather than the operation's.
#[verifier::rlimit(60)]
pub fn hoist_inline_schema_with_parent(
    doc: &Document,
    ctx: &mut BuildContext,
    new_name: String,
    s: &Schema,
    parent: Option<&String>,
) -> (r: StableId)
    requires
        old(ctx).inv(),
        !name_in(old(ctx).used_type_names@, new_name@),
    ensures
        final(ctx).inv(),
        BuildContext::extends(*old(ctx), *final(ctx)),
        hoist_post(*doc, *old(ctx), *final(ctx), *s, new_name@, opt_view(parent), r),
    decreases size_schema(*s), 3int,
{
    let key = schema_key(s);
    match ctx.cache_get(key.as_str()) {
        Some(id) => {
            proof {
                lemma_extends_refl(*ctx);
            }
            return id;
        },
        None => {},
    }
    // Reserve the new name before walking inside, so that no nested hoist
    // can claim it.
    ctx.reserve_name(new_name.clone());
    // Override the naming context with the parent type name for the nested
    // conversion, and restore it afterwards.
    let saved_op: Option<String> = match parent {
        Some(p) => {
            let prev = ctx.current_operation_id.take();
            ctx.current_operation_id = Some(p.clone());
            prev
        },
        None => None,
    };
    let ghost ctx_overridden = *ctx;
    let decl_opt = convert_schema_to_type(doc, ctx, new_name.as_str(), s, TypeOrigin::Hoisted);
    let ghost ctx_converted = *ctx;
    match parent {
        Some(_) => {
            ctx.current_operation_id = saved_op;
        },
        None => {},
    }
    let ghost ctx_restored = *ctx;
    match decl_opt {
        Some(decl) => {
            let ghost d = decl;
            let r_id = decl.id.clone();
            let ghost types_before = ctx.types@;
            let ghost cache_before = ctx.inline_cache@;
            proof {
                // The reserved name is fresh in the registry: ids present at
                // entry lie in the entry's allocated names, and everything
                // the nested walk added avoids the names allocated when it
                // started, which include the reservation.
                assert(!ctx.types.spec_contains(new_name@)) by {
                    if ctx.types.spec_contains(new_name@) {
                        let i = choose|i: int|
                            0 <= i < ctx.types@.len() && ctx.types@[i].id@ == new_name@;
                        if i < old(ctx).types@.len() {
                            assert(old(ctx).types@[i].id@ == new_name@);
                            assert(name_in(old(ctx).used_type_names@, new_name@));
                        } else {
                            assert(!name_in(ctx_overridden.used_type_names@, ctx.types@[i].id@));
                            assert(ctx_overridden.used_type_names@[old(
                                ctx,
                            ).used_type_names@.len() as int]@ == new_name@);
                        }
                    }
                }
            }
            ctx.add_type(decl);
            let ghost ctx_added = *ctx;
            ctx.cache_insert(key, r_id.clone());
            proof {
                lemma_cache_find_push(cache_before, (key, r_id), key_schema(*s));
                crate::ir::lemma_find_decl_push(types_before, d, new_name@);
                crate::ir::lemma_find_decl_contains(types_before, new_name@);
                assert(find_decl(ctx.types@, new_name@) == Some(d));
                // The whole step extends the entry context.
                assert(BuildContext::extends(*old(ctx), *ctx)) by {
                    assert(old(ctx).types@ == ctx_overridden.types@);
                    assert(ctx_restored.types@ == ctx_converted.types@);
                    assert(ctx.types@ == ctx_converted.types@.push(d));
                    lemma_prefix_push(ctx_converted.types@, d);
                    lemma_prefix_trans(old(ctx).types@, ctx_converted.types@, ctx.types@);
                    assert(ctx_overridden.used_type_names@ == old(ctx).used_type_names@.push(
                        new_name,
                    ));
                    lemma_prefix_push(old(ctx).used_type_names@, new_name);
                    lemma_prefix_trans(
                        old(ctx).used_type_names@,
                        ctx_overridden.used_type_names@,
                        ctx_converted.used_type_names@,
                    );
                    lemma_prefix_push(ctx_converted.used_type_names@, d.id.0);
                    lemma_prefix_trans(
                        old(ctx).used_type_names@,
                        ctx_converted.used_type_names@,
                        ctx.used_type_names@,
                    );
                    assert(old(ctx).inline_cache@ == ctx_converted.inline_cache@
                        || old(ctx).inline_cache@.is_prefix_of(ctx_converted.inline_cache@));
                    lemma_prefix_push(ctx_converted.inline_cache@, (key, r_id));
                    lemma_prefix_trans(
                        old(ctx).inline_cache@,
                        ctx_converted.inline_cache@,
                        ctx.inline_cache@,
                    );
                    assert forall|i: int|
                        old(ctx).types@.len() <= i < ctx.types@.len() implies (
                    #[trigger] ctx.types@[i].origin) == Some(TypeOrigin::Hoisted) by {
                        if i < ctx_converted.types@.len() {
                            assert(ctx.types@[i] == ctx_converted.types@[i]);
                        } else {
                            assert(ctx.types@[i] == d);
                        }
                    }
                    assert forall|i: int|
                        old(ctx).types@.len() <= i < ctx.types@.len() implies !name_in(
                        old(ctx).used_type_names@,
                        (#[trigger] ctx.types@[i]).id@,
                    ) by {
                        if i < ctx_converted.types@.len() {
                            assert(ctx.types@[i] == ctx_converted.types@[i]);
                            assert(!name_in(
                                ctx_overridden.used_type_names@,
                                ctx_converted.types@[i].id@,
                            ));
                            if name_in(old(ctx).used_type_names@, ctx.types@[i].id@) {
                                let j = choose|j: int|
                                    0 <= j < old(ctx).used_type_names@.len() && old(
                                        ctx,
                                    ).used_type_names@[j]@ == ctx.types@[i].id@;
                                assert(ctx_overridden.used_type_names@[j] == old(
                                    ctx,
                                ).used_type_names@[j]);
                                assert(name_in(
                                    ctx_overridden.used_type_names@,
                                    ctx.types@[i].id@,
                                ));
                            }
                        } else {
                            assert(ctx.types@[i] == d);
                            assert(d.id@ == new_name@);
                        }
                    }
                }
                // The miss case of the hoisting contract: the conversion ran
                // between the reserved, overridden context and the context
                // whose extension by this declaration and cache entry is the
                // outcome.
                assert(cache_find(ctx.inline_cache@, key_schema(*s)) == Some(r_id@));
                assert(r_id@ == new_name@);
                assert(ctx.types@ == ctx_converted.types@.push(d));
                assert(ctx.inline_cache@ == ctx_converted.inline_cache@.push((key, r_id)));
                lemma_prefix_push(ctx_converted.inline_cache@, (key, r_id));
                assert(ctx.inline_cache@.last().0@ == key_schema(*s));
                assert(ctx.inline_cache@.last().1@ == new_name@);
                assert(ctx_overridden.types@ == old(ctx).types@);
                assert(ctx_overridden.inline_cache@ == old(ctx).inline_cache@);
                assert(ctx_overridden.used_type_names@ == old(ctx).used_type_names@.push(
                    new_name,
                ));
                lemma_prefix_push(old(ctx).used_type_names@, new_name);
                assert(ctx_overridden.used_type_names@.last()@ == new_name@);
                assert(decl_matches(
                    *doc,
                    d,
                    new_name@,
                    *s,
                    TypeOrigin::Hoisted,
                    ctx_overridden,
                    ctx_converted,
                ));
                assert(match opt_view(parent) {
                    Option::Some(v) => opt_text(ctx_overridden.current_operation_id) == Some(v),
                    Option::None => ctx_overridden.current_operation_id == old(
                        ctx,
                    ).current_operation_id,
                });
                assert(hoist_registration(
                    *doc,
                    *old(ctx),
                    *ctx,
                    *s,
                    new_name@,
                    opt_view(parent),
                    ctx_overridden,
                    ctx_converted,
                    d,
                ));
                lemma_intro_hoist_post(
                    *doc,
                    *old(ctx),
                    *ctx,
                    *s,
                    new_name@,
                    opt_view(parent),
                    r_id,
                    d,
                    ctx_overridden,
                    ctx_converted,
                );
                // The context invariant is restored: the new declaration and
                // its cache entry arrive together.
                assert(ctx.inv()) by {
                    assert(count_hoisted(ctx.types@) == ctx.inline_cache@.len());
                    assert forall|i: int| 0 <= i < ctx.types@.len() implies name_in(
                        ctx.used_type_names@,
                        #[trigger] ctx.types@[i].id@,
                    ) by {
                        let j = choose|j: int|
                            0 <= j < ctx_added.used_type_names@.len()
                                && ctx_added.used_type_names@[j]@ == ctx.types@[i].id@;
                        assert(ctx.used_type_names@[j]@ == ctx.types@[i].id@);
                    }
                }
            }
            r_id
        },
        None => {
            proof {
                assert(false);
            }
            StableId::new("Any")
        },
    }
}

/// Promotes an inline schema to a named type, with no parent override.
pub fn hoist_inline_schema(
    doc: &Document,
    ctx: &mut BuildContext,
    new_name: String,
    s: &Schema,
) -> (r: StableId)
    requires
        old(ctx).inv(),
        !name_in(old(ctx).used_type_names@, new_name@),
    ensures
        final(ctx).inv(),
        BuildContext::extends(*old(ctx), *final(ctx)),
        hoist_post(*doc, *old(ctx), *final(ctx), *s, new_name@, Option::None, r),
    decreases size_schema(*s), 4int,
{
    hoist_inline_schema_with_parent(doc, ctx, new_name, s, None)
}

/// How many of the first `i` component schemas resolve to a concrete schema.
pub open spec fn resolved_count(doc: Document, i: int) -> nat
    decreases i,
{
    if i <= 0 {
        0
    } else {
        resolved_count(doc, i - 1) + if spec_resolution(doc, doc.spec_schemas()[i - 1].1) is Ok {
            1nat
        } else {
            0nat
        }
    }
}

/// A run of hoisted declarations counts fully.
pub proof fn lemma_count_hoisted_all(t: Seq<TypeDecl>)
    requires
        forall|i: int| 0 <= i < t.len() ==> (#[trigger] t[i].origin) == Some(TypeOrigin::Hoisted),
    ensures
        count_hoisted(t) == t.len(),
    decreases t.len(),
{
    if t.len() > 0 {
        assert(t[0].origin == Some(TypeOrigin::Hoisted));
        assert forall|i: int|
            0 <= i < t.drop_first().len() implies (#[trigger] t.drop_first()[i].origin) == Some(
            TypeOrigin::Hoisted,
        ) by {
            assert(t.drop_first()[i] == t[i + 1]);
        }
        lemma_count_hoisted_all(t.drop_first());
    }
}

/// Membership among the allocated names survives any extension.
pub proof fn lemma_name_in_prefix(a: Seq<String>, b: Seq<String>, x: Seq<char>)
    requires
        a.is_prefix_of(b),
        name_in(a, x),
    ensures
        name_in(b, x),
{
    let j = choose|j: int| 0 <= j < a.len() && a[j]@ == x;
    assert(b[j] == a.subrange(0, a.len() as int)[j]);
    assert(b[j]@ == x);
}

/// The registry facts the component walk establishes for a prefix of the
/// component table: one declaration per resolvable component, looked up by
/// its own name, carrying its schema's shape and documentation.
pub open spec fn components_converted(doc: Document, types: Seq<TypeDecl>, i: int) -> bool {
    forall|j: int|
        0 <= j < i && spec_resolution(doc, doc.spec_schemas()[j].1) is Ok ==> (find_decl(
            types,
            (#[trigger] doc.spec_schemas()[j]).0@,
        ) matches Some(d) && exists|c_a: BuildContext, c_b: BuildContext|
            #[trigger] decl_matches(
                doc,
                d,
                doc.spec_schemas()[j].0@,
                spec_resolution(doc, doc.spec_schemas()[j].1)->Ok_0,
                TypeOrigin::Component,
                c_a,
                c_b,
            ))
}

/// No hoisted declaration is named like a component schema.
pub open spec fn hoisted_avoid_keys(doc: Document, types: Seq<TypeDecl>) -> bool {
    forall|t: int, j: int|
        0 <= t < types.len() && 0 <= j < doc.spec_schemas().len() && (#[trigger] types[t].origin)
            == Some(TypeOrigin::Hoisted) ==> types[t].id@ != (#[trigger] doc.spec_schemas()[j]).0@
}

/// Every component key is an allocated name.
pub open spec fn keys_seeded(doc: Document, names: Seq<String>) -> bool {
    forall|j: int|
        0 <= j < doc.spec_schemas().len() ==> name_in(
            names,
            (#[trigger] doc.spec_schemas()[j]).0@,
        )
}

/// Converts the document's top-level component schemas, in table order, into
/// registered named types.  A component whose node does not resolve is
/// skipped; everything else is registered under its own name, and inline
/// types found inside are hoisted alongside.
#[verifier::loop_isolation(false)]
#[verifier::rlimit(100)]
pub fn convert_schemas(doc: &Document, ctx: &mut BuildContext)
    requires
        old(ctx).inv(),
        doc.wf(),
        old(ctx).types@.len() == 0,
        old(ctx).inline_cache@.len() == 0,
        keys_seeded(*doc, old(ctx).used_type_names@),
    ensures
        final(ctx).inv(),
        final(ctx).types@.len() == resolved_count(*doc, doc.spec_schemas().len() as int)
            + count_hoisted(final(ctx).types@),
        components_converted(*doc, final(ctx).types@, doc.spec_schemas().len() as int),
        keys_seeded(*doc, final(ctx).used_type_names@),
        final(ctx).current_operation_id == old(ctx).current_operation_id,
{
    let schemas: &Vec<(String, SchemaOrRef)> = match &doc.components {
        Some(c) => &c.schemas,
        None => {
            return ;
        },
    };
    let n = schemas.len();
    let mut i: usize = 0;
    while i < n
        invariant
            i <= n,
            n == doc.spec_schemas().len(),
            schemas@ == doc.spec_schemas(),
            ctx.inv(),
            ctx.types@.len() == resolved_count(*doc, i as int) + count_hoisted(ctx.types@),
            components_converted(*doc, ctx.types@, i as int),
            hoisted_avoid_keys(*doc, ctx.types@),
            keys_seeded(*doc, ctx.used_type_names@),
            forall|t: int|
                0 <= t < ctx.types@.len() && (#[trigger] ctx.types@[t].origin) == Some(
                    TypeOrigin::Component,
                ) ==> exists|j: int| 0 <= j < i && ctx.types@[t].id@ == doc.spec_schemas()[j].0@,
            ctx.current_operation_id == old(ctx).current_operation_id,
        decreases n - i,
    {
        let ghost ctx0 = *ctx;
        match resolve(doc, &schemas[i].1) {
            Ok(schema) => {
                let decl_opt = convert_schema_to_type(
                    doc,
                    ctx,
                    schemas[i].0.as_str(),
                    schema,
                    TypeOrigin::Component,
                );
                let ghost ctx1 = *ctx;
                match decl_opt {
                    Some(decl) => {
                        let ghost d = decl;
                        let ghost ki = doc.spec_schemas()[i as int].0@;
                        proof {
                            // The walk inside added only hoisted types whose
                            // names avoid the seeded component keys.
                            assert forall|t: int, j: int|
                                ctx0.types@.len() <= t < ctx1.types@.len() && 0 <= j
                                    < doc.spec_schemas().len() implies (
                            #[trigger] ctx1.types@[t]).id@ != (
                            #[trigger] doc.spec_schemas()[j]).0@ by {
                                assert(!name_in(ctx0.used_type_names@, ctx1.types@[t].id@));
                                assert(name_in(ctx0.used_type_names@, doc.spec_schemas()[j].0@));
                            }
                            assert(hoisted_avoid_keys(*doc, ctx1.types@)) by {
                                assert forall|t: int, j: int|
                                    0 <= t < ctx1.types@.len() && 0 <= j
                                        < doc.spec_schemas().len() && (
                                #[trigger] ctx1.types@[t].origin) == Some(
                                    TypeOrigin::Hoisted,
                                ) implies ctx1.types@[t].id@ != (
                                #[trigger] doc.spec_schemas()[j]).0@ by {
                                    if t < ctx0.types@.len() {
                                        assert(ctx1.types@[t] == ctx0.types@[t]);
                                    }
                                }
                            }
                            // The component's own name is still free.
                            assert(!ctx.types.spec_contains(ki)) by {
                                if ctx.types.spec_contains(ki) {
                                    let t = choose|t: int|
                                        0 <= t < ctx1.types@.len() && ctx1.types@[t].id@ == ki;
                                    if t < ctx0.types@.len() {
                                        assert(ctx1.types@[t] == ctx0.types@[t]);
                                        if ctx0.types@[t].origin == Some(TypeOrigin::Component) {
                                            let j = choose|j: int|
                                                0 <= j < i && ctx0.types@[t].id@
                                                    == doc.spec_schemas()[j].0@;
                                            assert(doc.spec_schemas()[j].0@
                                                == doc.spec_schemas()[i as int].0@);
                                            assert(false);
                                        } else {
                                            assert(ctx0.types@[t].origin == Some(
                                                TypeOrigin::Hoisted,
                                            ));
                                            assert(false);
                                        }
                                    } else {
                                        assert(ctx1.types@[t].origin == Some(TypeOrigin::Hoisted));
                                        assert(false);
                                    }
                                }
                            }
                        }
                        let ghost types1 = ctx.types@;
                        ctx.add_type(decl);
                        proof {
                            lemma_count_hoisted_push(types1, d);
                            crate::ir::lemma_find_decl_contains(types1, ki);
                            crate::ir::lemma_find_decl_push(types1, d, ki);
                            // Earlier components stay found: the walk only
                            // appended, and appending preserves lookups.
                            assert forall|j: int|
                                0 <= j < i + 1 && spec_resolution(
                                    *doc,
                                    doc.spec_schemas()[j].1,
                                ) is Ok implies (find_decl(
                                ctx.types@,
                                (#[trigger] doc.spec_schemas()[j]).0@,
                            ) matches Some(dd) && exists|c_a: BuildContext, c_b: BuildContext|
                                #[trigger] decl_matches(
                                    *doc,
                                    dd,
                                    doc.spec_schemas()[j].0@,
                                    spec_resolution(*doc, doc.spec_schemas()[j].1)->Ok_0,
                                    TypeOrigin::Component,
                                    c_a,
                                    c_b,
                                )) by {
                                let kj = doc.spec_schemas()[j].0@;
                                if j < i {
                                    assert(find_decl(ctx0.types@, kj) is Some);
                                    assert(ctx1.types@ == ctx0.types@ + ctx1.types@.skip(
                                        ctx0.types@.len() as int,
                                    ));
                                    lemma_find_decl_append(
                                        ctx0.types@,
                                        ctx1.types@.skip(ctx0.types@.len() as int),
                                        kj,
                                    );
                                    crate::ir::lemma_find_decl_push(ctx1.types@, d, kj);
                                } else {
                                    assert(find_decl(ctx.types@, ki) == Some(d));
                                    assert(decl_matches(
                                        *doc,
                                        d,
                                        ki,
                                        spec_resolution(*doc, doc.spec_schemas()[i as int].1)->Ok_0,
                                        TypeOrigin::Component,
                                        ctx0,
                                        ctx1,
                                    ));
                                }
                            }
                            // Seeded names survive the extension.
                            assert forall|j: int|
                                0 <= j < doc.spec_schemas().len() implies name_in(
                                ctx.used_type_names@,
                                (#[trigger] doc.spec_schemas()[j]).0@,
                            ) by {
                                lemma_prefix_push(ctx1.used_type_names@, d.id.0);
                                lemma_prefix_trans(
                                    ctx0.used_type_names@,
                                    ctx1.used_type_names@,
                                    ctx.used_type_names@,
                                );
                                lemma_name_in_prefix(
                                    ctx0.used_type_names@,
                                    ctx.used_type_names@,
                                    doc.spec_schemas()[j].0@,
                                );
                            }
                            // Hoisted entries still avoid component keys.
                            assert(hoisted_avoid_keys(*doc, ctx.types@)) by {
                                assert forall|t: int, j: int|
                                    0 <= t < ctx.types@.len() && 0 <= j
                                        < doc.spec_schemas().len() && (
                                #[trigger] ctx.types@[t].origin) == Some(
                                    TypeOrigin::Hoisted,
                                ) implies ctx.types@[t].id@ != (
                                #[trigger] doc.spec_schemas()[j]).0@ by {
                                    if t < ctx1.types@.len() {
                                        assert(ctx.types@[t] == ctx1.types@[t]);
                                    } else {
                                        assert(ctx.types@[t] == d);
                                        assert(d.origin == Some(TypeOrigin::Component));
                                    }
                                }
                            }
                            // Component ids lie among the keys seen so far.
                            assert forall|t: int|
                                0 <= t < ctx.types@.len() && (#[trigger] ctx.types@[t].origin)
                                    == Some(TypeOrigin::Component) implies exists|j: int|
                                0 <= j < i + 1 && ctx.types@[t].id@
                                    == doc.spec_schemas()[j].0@ by {
                                if t < ctx0.types@.len() {
                                    assert(ctx.types@[t] == ctx0.types@[t]);
                                    let j = choose|j: int|
                                        0 <= j < i && ctx0.types@[t].id@
                                            == doc.spec_schemas()[j].0@;
                                    assert(ctx.types@[t].id@ == doc.spec_schemas()[j].0@);
                                } else if t < ctx1.types@.len() {
                                    assert(ctx.types@[t] == ctx1.types@[t]);
                                    assert(ctx1.types@[t].origin == Some(TypeOrigin::Hoisted));
                                } else {
                                    assert(ctx.types@[t] == d);
                                    assert(ctx.types@[t].id@ == doc.spec_schemas()[i as int].0@);
                                }
                            }
                            // The count equation advances by one resolved
                            // component; hoisted additions appear on both
                            // sides.
                            assert(ctx1.types@ == ctx0.types@ + ctx1.types@.skip(
                                ctx0.types@.len() as int,
                            ));
                            lemma_count_hoisted_append(
                                ctx0.types@,
                                ctx1.types@.skip(ctx0.types@.len() as int),
                            );
                            lemma_count_hoisted_all(ctx1.types@.skip(ctx0.types@.len() as int));
                        }
                    },
                    None => {
                        proof {
                            assert(false);
                        }
                    },
                }
            },
            Err(_) => {
                proof {
                    lemma_extends_refl(*ctx);
                }
            },
        }
        i = i + 1;
    }
}

/// Deduplication law: hoisting two structurally identical inline schemas,
/// one after the other, yields the same stable id, whatever names the two
/// hoists were asked for and wherever in the document the schemas occur.
/// The second hoist finds the first one's structural key in the cache and
/// returns the recorded id without registering anything.
pub proof fn lemma_hoist_dedup(
    doc: Document,
    c0: BuildContext,
    c1: BuildContext,
    c2: BuildContext,
    s1: Schema,
    s2: Schema,
    n1: Seq<char>,
    n2: Seq<char>,
    o1: Option<Seq<char>>,
    o2: Option<Seq<char>>,
    r1: StableId,
    r2: StableId,
)
    requires
        key_schema(s1) == key_schema(s2),
        hoist_post(doc, c0, c1, s1, n1, o1, r1),
        hoist_post(doc, c1, c2, s2, n2, o2, r2),
    ensures
        r2@ == r1@,
        c2.types@ == c1.types@,
        c2.inline_cache@ == c1.inline_cache@,
{
    match cache_find(c0.inline_cache@, key_schema(s1)) {
        Option::Some(id) => {
            assert(c1.inline_cache@ == c0.inline_cache@);
            assert(cache_find(c1.inline_cache@, key_schema(s2)) == Some(id));
        },
        Option::None => {
            assert(cache_find(c1.inline_cache@, key_schema(s2)) == Some(r1@));
        },
    }
}

} // verus!
