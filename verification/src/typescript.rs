//! The TypeScript SDK generator: renders the IR's types as interfaces,
//! enums and type aliases, and one service class per tag, staged into the
//! virtual file system.

use vstd::prelude::*;

use crate::ir::{
    find_decl, AliasTarget, Composite, EnumValue, Field, GenIr, Literal, Operation, Primitive,
    Service, TypeDecl, TypeKind, TypeMod, TypeRef, UnionVariant,
};
use crate::rust_axum::{lemma_size_mods_elem, size_mods, size_tr};
use crate::strutil::{push_char, str_eq};
use crate::vfs::{file_find, VirtualFS};

verus! {

/// The TypeScript type a primitive renders to.
pub open spec fn ts_prim_text(p: Primitive) -> Seq<char> {
    match p {
        Primitive::Any => "any"@,
        Primitive::Bool => "boolean"@,
        Primitive::I32 | Primitive::I64 | Primitive::F32 | Primitive::F64 => "number"@,
        _ => "string"@,
    }
}

pub fn render_primitive(p: Primitive) -> (r: &'static str)
    ensures
        r@ == ts_prim_text(p),
{
    match p {
        Primitive::Any => "any",
        Primitive::Bool => "boolean",
        Primitive::I32 | Primitive::I64 | Primitive::F32 | Primitive::F64 => "number",
        _ => "string",
    }
}

/// The TypeScript type a synthetic primitive id renders to.
pub open spec fn ts_prim_id_text(id: Seq<char>) -> Seq<char> {
    if id == "Primitive_String"@ || id == "Primitive_Uuid"@ || id == "Primitive_Date"@ || id
        == "Primitive_DateTime"@ || id == "Primitive_Bytes"@ || id == "Primitive_Decimal"@ {
        "string"@
    } else if id == "Primitive_Bool"@ {
        "boolean"@
    } else if id == "Primitive_I32"@ || id == "Primitive_I64"@ || id == "Primitive_F32"@ || id
        == "Primitive_F64"@ {
        "number"@
    } else {
        "any"@
    }
}

fn render_primitive_from_id(id: &str) -> (r: &'static str)
    ensures
        r@ == ts_prim_id_text(id@),
{
    if str_eq(id, "Primitive_String") || str_eq(id, "Primitive_Uuid") || str_eq(
        id,
        "Primitive_Date",
    ) || str_eq(id, "Primitive_DateTime") || str_eq(id, "Primitive_Bytes") || str_eq(
        id,
        "Primitive_Decimal",
    ) {
        "string"
    } else if str_eq(id, "Primitive_Bool") {
        "boolean"
    } else if str_eq(id, "Primitive_I32") || str_eq(id, "Primitive_I64") || str_eq(
        id,
        "Primitive_F32",
    ) || str_eq(id, "Primitive_F64") {
        "number"
    } else {
        "any"
    }
}

/// A string literal's text with every double quote escaped.
pub open spec fn escaped_text(s: Seq<char>) -> Seq<char>
    decreases s.len(),
{
    if s.len() == 0 {
        Seq::empty()
    } else {
        (if s[0] == '"' {
            seq!['\\', '"']
        } else {
            seq![s[0]]
        }) + escaped_text(s.drop_first())
    }
}

/// The TypeScript rendering of a wire literal; a float keeps its carried
/// decimal text, composite literals render as null.
pub open spec fn ts_literal_text(l: Literal) -> Seq<char> {
    match l {
        Literal::Null => "null"@,
        Literal::Bool(b) => if b {
            "true"@
        } else {
            "false"@
        },
        Literal::I64(i) => crate::key::key_int(i as int),
        Literal::F64(text) => text@,
        Literal::String(s) => seq!['"'] + escaped_text(s@) + seq!['"'],
        Literal::Array(_) | Literal::Object(_) => "null"@,
    }
}

/// Renders a wire literal.
#[verifier::loop_isolation(false)]
pub fn render_literal(l: &Literal) -> (r: String)
    ensures
        r@ == ts_literal_text(*l),
{
    match l {
        Literal::Null => String::from_str("null"),
        Literal::Bool(b) => {
            if *b {
                String::from_str("true")
            } else {
                String::from_str("false")
            }
        },
        Literal::I64(i) => {
            let mut s = String::new();
            if *i < 0 {
                push_char(&mut s, '-');
                let magnitude: u64 = ((-(*i + 1)) as u64) + 1;
                crate::strutil::push_dec(&mut s, magnitude as u128);
            } else {
                crate::strutil::push_dec(&mut s, *i as u128);
            }
            proof {
                assert(s@ =~= crate::key::key_int(*i as int));
            }
            s
        },
        Literal::F64(text) => text.clone(),
        Literal::String(inner) => {
            let mut s = String::new();
            push_char(&mut s, '"');
            let n = inner.as_str().unicode_len();
            let mut i: usize = 0;
            proof {
                assert(inner@.skip(0) =~= inner@);
            }
            while i < n
                invariant
                    i <= n,
                    s@ + escaped_text(inner@.skip(i as int)) == seq!['"'] + escaped_text(inner@),
                decreases n - i,
            {
                proof {
                    assert(inner@.skip(i as int)[0] == inner@[i as int]);
                    assert(inner@.skip(i as int).drop_first() =~= inner@.skip(i as int + 1));
                }
                let ghost before = s@;
                let c = inner.as_str().get_char(i);
                if c == '"' {
                    push_char(&mut s, '\\');
                    push_char(&mut s, '"');
                } else {
                    push_char(&mut s, c);
                }
                proof {
                    assert(s@ + escaped_text(inner@.skip(i as int + 1)) =~= before + escaped_text(
                        inner@.skip(i as int),
                    ));
                }
                i = i + 1;
            }
            push_char(&mut s, '"');
            proof {
                assert(escaped_text(inner@.skip(n as int)) =~= Seq::<char>::empty());
                assert(s@ =~= seq!['"'] + escaped_text(inner@) + seq!['"']);
            }
            s
        },
        Literal::Array(_) => String::from_str("null"),
        Literal::Object(_) => String::from_str("null"),
    }
}

/// The base name a reference renders to.
pub open spec fn ts_base_text(t: TypeRef, types: Seq<TypeDecl>) -> Seq<char> {
    match find_decl(types, t.target@) {
        Option::Some(d) => d.name.pascal@,
        Option::None => ts_prim_id_text(t.target@),
    }
}

/// The reference text after the first `i` modifiers: arrays and sets wrap
/// the text so far, a map starts over from its value type.
pub open spec fn ts_mods_text(
    base: Seq<char>,
    ms: Seq<TypeMod>,
    i: int,
    types: Seq<TypeDecl>,
) -> Seq<char>
    decreases size_mods(ms), 0int, i,
    via ts_mods_text_dec
{
    if i <= 0 || i > ms.len() {
        base
    } else {
        match ms[i - 1] {
            TypeMod::List => "Array<"@ + ts_mods_text(base, ms, i - 1, types) + ">"@,
            TypeMod::SetOf => "Set<"@ + ts_mods_text(base, ms, i - 1, types) + ">"@,
            TypeMod::MapOf(v) => "Record<string, "@ + ts_tr_text(*v, types) + ">"@,
        }
    }
}

#[via_fn]
proof fn ts_mods_text_dec(base: Seq<char>, ms: Seq<TypeMod>, i: int, types: Seq<TypeDecl>) {
    if 0 < i <= ms.len() {
        lemma_size_mods_elem(ms, i - 1);
    }
}

/// The full rendered TypeScript type of a use-site reference; a nullable
/// reference unions with null.
pub open spec fn ts_tr_text(t: TypeRef, types: Seq<TypeDecl>) -> Seq<char>
    decreases size_tr(t), 1int, 0int,
{
    if t.nullable {
        ts_mods_text(ts_base_text(t, types), t.modifiers@, t.modifiers@.len() as int, types)
            + " | null"@
    } else {
        ts_mods_text(ts_base_text(t, types), t.modifiers@, t.modifiers@.len() as int, types)
    }
}

/// Renders a use-site type reference.
#[verifier::loop_isolation(false)]
pub fn render_type_ref(t: &TypeRef, ir: &GenIr) -> (r: String)
    ensures
        r@ == ts_tr_text(*t, ir.types@),
    decreases size_tr(*t), 1int, 0int,
{
    let mut result: String = match ir.types.get(&t.target) {
        Some(d) => d.name.pascal.clone(),
        None => {
            let text = render_primitive_from_id(t.target.0.as_str());
            text.to_owned()
        },
    };
    proof {
        assert(result@ == ts_base_text(*t, ir.types@));
    }
    let n = t.modifiers.len();
    let mut i: usize = 0;
    while i < n
        invariant
            i <= n,
            result@ == ts_mods_text(ts_base_text(*t, ir.types@), t.modifiers@, i as int, ir.types@),
        decreases n - i,
    {
        proof {
            lemma_size_mods_elem(t.modifiers@, i as int);
        }
        let next: String = match &t.modifiers[i] {
            TypeMod::List => {
                let mut s = String::from_str("Array<");
                s.append(result.as_str());
                s.append(">");
                s
            },
            TypeMod::SetOf => {
                let mut s = String::from_str("Set<");
                s.append(result.as_str());
                s.append(">");
                s
            },
            TypeMod::MapOf(v) => {
                let mut s = String::from_str("Record<string, ");
                let inner = render_type_ref(v, ir);
                s.append(inner.as_str());
                s.append(">");
                s
            },
        };
        result = next;
        proof {
            assert(result@ == ts_mods_text(
                ts_base_text(*t, ir.types@),
                t.modifiers@,
                i as int + 1,
                ir.types@,
            ));
        }
        i = i + 1;
    }
    if t.nullable {
        result.append(" | null");
    }
    result
}

/// The TypeScript type an alias target renders to.
pub open spec fn ts_alias_text(a: AliasTarget, types: Seq<TypeDecl>) -> Seq<char> {
    match a {
        AliasTarget::Primitive(p) => ts_prim_text(p),
        AliasTarget::Composite(Composite::List(inner)) => "Array<"@ + ts_tr_text(*inner, types)
            + ">"@,
        AliasTarget::Composite(Composite::MapOf { value, .. }) => "Record<string, "@ + ts_tr_text(
            *value,
            types,
        ) + ">"@,
        AliasTarget::Composite(Composite::Tuple(ts)) => "["@ + ts_tuple_text(
            ts@,
            ts@.len() as int,
            types,
        ) + "]"@,
        AliasTarget::Reference(t) => ts_tr_text(t, types),
    }
}

/// The first `i` tuple members, comma separated.
pub open spec fn ts_tuple_text(ts: Seq<TypeRef>, i: int, types: Seq<TypeDecl>) -> Seq<char>
    decreases i,
{
    if i <= 0 {
        Seq::empty()
    } else if i == 1 {
        ts_tr_text(ts[0], types)
    } else {
        ts_tuple_text(ts, i - 1, types) + ", "@ + ts_tr_text(ts[i - 1], types)
    }
}

/// Renders an alias target.
#[verifier::loop_isolation(false)]
pub fn render_alias_target(a: &AliasTarget, ir: &GenIr) -> (r: String)
    ensures
        r@ == ts_alias_text(*a, ir.types@),
{
    match a {
        AliasTarget::Primitive(p) => {
            let text = render_primitive(*p);
            text.to_owned()
        },
        AliasTarget::Composite(Composite::List(inner)) => {
            let mut s = String::from_str("Array<");
            let t = render_type_ref(inner, ir);
            s.append(t.as_str());
            s.append(">");
            s
        },
        AliasTarget::Composite(Composite::MapOf { value, .. }) => {
            let mut s = String::from_str("Record<string, ");
            let t = render_type_ref(value, ir);
            s.append(t.as_str());
            s.append(">");
            s
        },
        AliasTarget::Composite(Composite::Tuple(ts)) => {
            let mut s = String::from_str("[");
            let n = ts.len();
            let mut i: usize = 0;
            while i < n
                invariant
                    i <= n,
                    s@ == "["@ + ts_tuple_text(ts@, i as int, ir.types@),
                decreases n - i,
            {
                if i > 0 {
                    s.append(", ");
                }
                let t = render_type_ref(&ts[i], ir);
                s.append(t.as_str());
                proof {
                    assert(s@ == "["@ + ts_tuple_text(ts@, i as int + 1, ir.types@));
                }
                i = i + 1;
            }
            s.append("]");
            s
        },
        AliasTarget::Reference(t) => render_type_ref(t, ir),
    }
}

/// One interface field line.
pub open spec fn ts_field_line(f: Field, types: Seq<TypeDecl>) -> Seq<char> {
    "  "@ + f.name.camel@ + (if f.ty.optional {
        "?"@
    } else {
        Seq::<char>::empty()
    }) + ": "@ + ts_tr_text(f.ty, types) + ";"@
}

pub open spec fn ts_field_lines(fs: Seq<Field>, i: int, types: Seq<TypeDecl>) -> Seq<char>
    decreases i,
{
    if i <= 0 {
        Seq::empty()
    } else if i == 1 {
        ts_field_line(fs[0], types)
    } else {
        ts_field_lines(fs, i - 1, types) + "\n"@ + ts_field_line(fs[i - 1], types)
    }
}

/// One enum member line.
pub open spec fn ts_value_line(v: EnumValue) -> Seq<char> {
    "  "@ + v.name.upper@ + " = "@ + ts_literal_text(v.wire) + ","@
}

pub open spec fn ts_value_lines(vs: Seq<EnumValue>, i: int) -> Seq<char>
    decreases i,
{
    if i <= 0 {
        Seq::empty()
    } else if i == 1 {
        ts_value_line(vs[0])
    } else {
        ts_value_lines(vs, i - 1) + "\n"@ + ts_value_line(vs[i - 1])
    }
}

/// The first `i` union member types, pipe separated.
pub open spec fn ts_union_text(vs: Seq<UnionVariant>, i: int, types: Seq<TypeDecl>) -> Seq<char>
    decreases i,
{
    if i <= 0 {
        Seq::empty()
    } else if i == 1 {
        ts_tr_text(vs[0].ty, types)
    } else {
        ts_union_text(vs, i - 1, types) + " | "@ + ts_tr_text(vs[i - 1].ty, types)
    }
}

/// One rendered type declaration.
pub open spec fn ts_type_text(d: TypeDecl, types: Seq<TypeDecl>) -> Seq<char> {
    match d.kind {
        TypeKind::Struct { fields, .. } => "export interface "@ + d.name.pascal@ + " {\n"@
            + ts_field_lines(fields@, fields@.len() as int, types) + "\n}"@,
        TypeKind::Enum { values, .. } => "export enum "@ + d.name.pascal@ + " {\n"@
            + ts_value_lines(values@, values@.len() as int) + "\n}"@,
        TypeKind::Union { variants } => "export type "@ + d.name.pascal@ + " = "@ + ts_union_text(
            variants@,
            variants@.len() as int,
            types,
        ) + ";"@,
        TypeKind::Alias { aliased } => "export type "@ + d.name.pascal@ + " = "@ + ts_alias_text(
            aliased,
            types,
        ) + ";"@,
    }
}

/// Renders one type declaration.
#[verifier::loop_isolation(false)]
#[verifier::rlimit(60)]
pub fn render_type(d: &TypeDecl, ir: &GenIr) -> (r: String)
    ensures
        r@ == ts_type_text(*d, ir.types@),
{
    match &d.kind {
        TypeKind::Struct { fields, .. } => {
            let mut s = String::from_str("export interface ");
            s.append(d.name.pascal.as_str());
            s.append(" {\n");
            let ghost base = s@;
            let n = fields.len();
            let mut i: usize = 0;
            while i < n
                invariant
                    i <= n,
                    s@ == base + ts_field_lines(fields@, i as int, ir.types@),
                decreases n - i,
            {
                if i > 0 {
                    s.append("\n");
                }
                s.append("  ");
                s.append(fields[i].name.camel.as_str());
                if fields[i].ty.optional {
                    s.append("?");
                }
                s.append(": ");
                let t = render_type_ref(&fields[i].ty, ir);
                s.append(t.as_str());
                s.append(";");
                proof {
                    assert(s@ == base + ts_field_lines(fields@, i as int + 1, ir.types@));
                }
                i = i + 1;
            }
            s.append("\n}");
            s
        },
        TypeKind::Enum { values, .. } => {
            let mut s = String::from_str("export enum ");
            s.append(d.name.pascal.as_str());
            s.append(" {\n");
            let ghost base = s@;
            let n = values.len();
            let mut i: usize = 0;
            while i < n
                invariant
                    i <= n,
                    s@ == base + ts_value_lines(values@, i as int),
                decreases n - i,
            {
                if i > 0 {
                    s.append("\n");
                }
                s.append("  ");
                s.append(values[i].name.upper.as_str());
                s.append(" = ");
                let lit = render_literal(&values[i].wire);
                s.append(lit.as_str());
                s.append(",");
                proof {
                    assert(s@ == base + ts_value_lines(values@, i as int + 1));
                }
                i = i + 1;
            }
            s.append("\n}");
            s
        },
        TypeKind::Union { variants } => {
            let mut s = String::from_str("export type ");
            s.append(d.name.pascal.as_str());
            s.append(" = ");
            let ghost base = s@;
            let n = variants.len();
            let mut i: usize = 0;
            while i < n
                invariant
                    i <= n,
                    s@ == base + ts_union_text(variants@, i as int, ir.types@),
                decreases n - i,
            {
                if i > 0 {
                    s.append(" | ");
                }
                let t = render_type_ref(&variants[i].ty, ir);
                s.append(t.as_str());
                proof {
                    assert(s@ == base + ts_union_text(variants@, i as int + 1, ir.types@));
                }
                i = i + 1;
            }
            s.append(";");
            s
        },
        TypeKind::Alias { aliased } => {
            let mut s = String::from_str("export type ");
            s.append(d.name.pascal.as_str());
            s.append(" = ");
            let t = render_alias_target(aliased, ir);
            s.append(t.as_str());
            s.append(";");
            s
        },
    }
}


/// The first `i` path parameters of a method signature, comma separated.
pub open spec fn ts_pp_params(pp: Seq<crate::ir::PathParam>, i: int, types: Seq<TypeDecl>) -> Seq<
    char,
>
    decreases i,
{
    if i <= 0 {
        Seq::empty()
    } else if i == 1 {
        pp[0].name.camel@ + ": "@ + ts_tr_text(pp[0].ty, types)
    } else {
        ts_pp_params(pp, i - 1, types) + ", "@ + pp[i - 1].name.camel@ + ": "@ + ts_tr_text(
            pp[i - 1].ty,
            types,
        )
    }
}

/// The first `i` query parameters of a method signature, comma separated; an
/// optional parameter carries a question mark.
pub open spec fn ts_q_params(qs: Seq<crate::ir::QueryParam>, i: int, types: Seq<TypeDecl>) -> Seq<
    char,
>
    decreases i,
{
    if i <= 0 {
        Seq::empty()
    } else if i == 1 {
        qs[0].name.camel@ + (if qs[0].required {
            Seq::<char>::empty()
        } else {
            "?"@
        }) + ": "@ + ts_tr_text(qs[0].ty, types)
    } else {
        ts_q_params(qs, i - 1, types) + ", "@ + qs[i - 1].name.camel@ + (if qs[i - 1].required {
            Seq::<char>::empty()
        } else {
            "?"@
        }) + ": "@ + ts_tr_text(qs[i - 1].ty, types)
    }
}

/// Whether a method takes a request body.
pub open spec fn ts_has_body(op: Operation) -> bool {
    op.http.body matches Some(b) && b.variants@.len() > 0
}

/// The body parameter of a method signature, if any.
pub open spec fn ts_body_param(op: Operation, types: Seq<TypeDecl>) -> Seq<char> {
    match op.http.body {
        Option::Some(b) => if b.variants@.len() > 0 {
            "body: "@ + ts_tr_text(b.variants@[0].ty, types)
        } else {
            Seq::empty()
        },
        Option::None => Seq::empty(),
    }
}

/// A method's whole parameter list.
pub open spec fn ts_params_text(op: Operation, types: Seq<TypeDecl>) -> Seq<char> {
    ts_pp_params(op.http.path_params@, op.http.path_params@.len() as int, types) + (
    if op.http.path_params@.len() > 0 && (op.http.query@.len() > 0 || ts_has_body(op)) {
        ", "@
    } else {
        Seq::<char>::empty()
    }) + ts_q_params(op.http.query@, op.http.query@.len() as int, types) + (
    if op.http.query@.len() > 0 && ts_has_body(op) {
        ", "@
    } else {
        Seq::<char>::empty()
    }) + ts_body_param(op, types)
}

/// The promised type of a method: the typed success payload, else void.
pub open spec fn ts_return_text(op: Operation, types: Seq<TypeDecl>) -> Seq<char> {
    match op.success {
        Option::Some(p) => match p.ty {
            Option::Some(t) => ts_tr_text(t, types),
            Option::None => "void"@,
        },
        Option::None => "void"@,
    }
}

/// One generated method: the signature and a placeholder body that reports
/// the transport is not wired up.
pub open spec fn ts_method_text(op: Operation, types: Seq<TypeDecl>) -> Seq<char> {
    "  async "@ + op.name.camel@ + "("@ + ts_params_text(op, types) + "): Promise<"@
        + ts_return_text(op, types)
        + "> {\n    throw new Error(\"transport not wired\");\n  }\n\n"@
}

pub open spec fn ts_methods_text(ops: Seq<Operation>, types: Seq<TypeDecl>) -> Seq<char>
    decreases ops.len(),
{
    if ops.len() == 0 {
        Seq::empty()
    } else {
        ts_method_text(ops[0], types) + ts_methods_text(ops.drop_first(), types)
    }
}

/// One generated service class.
pub open spec fn ts_service_text(s: Service, types: Seq<TypeDecl>) -> Seq<char> {
    "import * as types from \"../types\";\n\nexport class "@ + s.name.pascal@
        + "Service {\n  constructor(private baseUrl: string) {}\n\n"@ + ts_methods_text(
        s.operations@,
        types,
    ) + "}\n"@
}

#[verifier::loop_isolation(false)]
fn push_pp_params(out: &mut String, pp: &Vec<crate::ir::PathParam>, ir: &GenIr)
    ensures
        final(out)@ == old(out)@ + ts_pp_params(pp@, pp@.len() as int, ir.types@),
{
    let ppn = pp.len();
    let mut i: usize = 0;
    proof {
        assert(ts_pp_params(pp@, 0, ir.types@) =~= Seq::<char>::empty());
    }
    while i < ppn
        invariant
            i <= ppn,
            out@ == old(out)@ + ts_pp_params(pp@, i as int, ir.types@),
        decreases ppn - i,
    {
        if i > 0 {
            out.append(", ");
        }
        out.append(pp[i].name.camel.as_str());
        out.append(": ");
        let t = render_type_ref(&pp[i].ty, ir);
        out.append(t.as_str());
        proof {
            assert(out@ == old(out)@ + ts_pp_params(pp@, i as int + 1, ir.types@));
        }
        i = i + 1;
    }
}

#[verifier::loop_isolation(false)]
fn push_q_params(out: &mut String, qs: &Vec<crate::ir::QueryParam>, ir: &GenIr)
    ensures
        final(out)@ == old(out)@ + ts_q_params(qs@, qs@.len() as int, ir.types@),
{
    let qn = qs.len();
    let mut j: usize = 0;
    proof {
        assert(ts_q_params(qs@, 0, ir.types@) =~= Seq::<char>::empty());
    }
    while j < qn
        invariant
            j <= qn,
            out@ == old(out)@ + ts_q_params(qs@, j as int, ir.types@),
        decreases qn - j,
    {
        if j > 0 {
            out.append(", ");
        }
        out.append(qs[j].name.camel.as_str());
        if !qs[j].required {
            out.append("?");
        }
        out.append(": ");
        let t = render_type_ref(&qs[j].ty, ir);
        out.append(t.as_str());
        proof {
            assert(out@ == old(out)@ + ts_q_params(qs@, j as int + 1, ir.types@));
        }
        j = j + 1;
    }
}

#[verifier::rlimit(100)]
fn push_method(out: &mut String, op: &Operation, ir: &GenIr)
    ensures
        final(out)@ == old(out)@ + ts_method_text(*op, ir.types@),
{
    out.append("  async ");
    out.append(op.name.camel.as_str());
    out.append("(");
    let ghost q1 = "  async "@ + op.name.camel@ + "("@;
    proof {
        assert(out@ =~= old(out)@ + q1);
    }
    push_pp_params(out, &op.http.path_params, ir);
    let has_body = match &op.http.body {
        Some(b) => b.variants.len() > 0,
        None => false,
    };
    if op.http.path_params.len() > 0 && (op.http.query.len() > 0 || has_body) {
        out.append(", ");
    }
    let ghost q2 = q1 + ts_pp_params(op.http.path_params@, op.http.path_params@.len() as int, ir.types@)
        + (if op.http.path_params@.len() > 0 && (op.http.query@.len() > 0 || ts_has_body(*op)) {
        ", "@
    } else {
        Seq::<char>::empty()
    });
    proof {
        assert(out@ =~= old(out)@ + q2);
    }
    push_q_params(out, &op.http.query, ir);
    if op.http.query.len() > 0 && has_body {
        out.append(", ");
    }
    let ghost q3 = q2 + ts_q_params(op.http.query@, op.http.query@.len() as int, ir.types@) + (
    if op.http.query@.len() > 0 && ts_has_body(*op) {
        ", "@
    } else {
        Seq::<char>::empty()
    });
    proof {
        assert(out@ =~= old(out)@ + q3);
    }
    match &op.http.body {
        Some(b) => {
            if b.variants.len() > 0 {
                out.append("body: ");
                let t = render_type_ref(&b.variants[0].ty, ir);
                out.append(t.as_str());
            }
        },
        None => {},
    }
    let ghost q4 = q3 + ts_body_param(*op, ir.types@);
    proof {
        assert(out@ =~= old(out)@ + q4);
    }
    out.append("): Promise<");
    match &op.success {
        Some(p) => {
            match &p.ty {
                Some(t) => {
                    let rt = render_type_ref(t, ir);
                    out.append(rt.as_str());
                },
                None => {
                    out.append("void");
                },
            }
        },
        None => {
            out.append("void");
        },
    }
    out.append("> {\n    throw new Error(\"transport not wired\");\n  }\n\n");
    proof {
        assert(out@ =~= old(out)@ + (q4 + "): Promise<"@ + ts_return_text(*op, ir.types@)
            + "> {\n    throw new Error(\"transport not wired\");\n  }\n\n"@));
        assert(q4 + "): Promise<"@ + ts_return_text(*op, ir.types@)
            + "> {\n    throw new Error(\"transport not wired\");\n  }\n\n"@ == ts_method_text(
            *op,
            ir.types@,
        ));
    }
}

/// Renders one service class.
#[verifier::loop_isolation(false)]
pub fn render_service(s: &Service, ir: &GenIr) -> (r: String)
    ensures
        r@ == ts_service_text(*s, ir.types@),
{
    let mut out = String::from_str("import * as types from \"../types\";\n\nexport class ");
    out.append(s.name.pascal.as_str());
    out.append("Service {\n  constructor(private baseUrl: string) {}\n\n");
    let ghost q1 = "import * as types from \"../types\";\n\nexport class "@ + s.name.pascal@
        + "Service {\n  constructor(private baseUrl: string) {}\n\n"@;
    proof {
        assert(out@ =~= q1);
        assert(s.operations@.skip(0) =~= s.operations@);
    }
    let ops = &s.operations;
    let n = ops.len();
    let mut i: usize = 0;
    while i < n
        invariant
            i <= n,
            out@ + ts_methods_text(ops@.skip(i as int), ir.types@) == q1 + ts_methods_text(
                ops@,
                ir.types@,
            ),
        decreases n - i,
    {
        proof {
            assert(ops@.skip(i as int)[0] == ops@[i as int]);
            assert(ops@.skip(i as int).drop_first() =~= ops@.skip(i as int + 1));
        }
        let ghost before = out@;
        push_method(&mut out, &ops[i], ir);
        proof {
            assert(out@ + ts_methods_text(ops@.skip(i as int + 1), ir.types@) =~= before
                + ts_methods_text(ops@.skip(i as int), ir.types@));
        }
        i = i + 1;
    }
    out.append("}\n");
    proof {
        assert(ts_methods_text(ops@.skip(n as int), ir.types@) =~= Seq::<char>::empty());
        assert(out@ =~= q1 + ts_methods_text(ops@, ir.types@) + "}\n"@);
    }
    out
}

/// The first `i` type declarations, blank-line separated.
pub open spec fn ts_types_joined(types: Seq<TypeDecl>, i: int) -> Seq<char>
    decreases i,
{
    if i <= 0 {
        Seq::empty()
    } else if i == 1 {
        ts_type_text(types[0], types)
    } else {
        ts_types_joined(types, i - 1) + "\n\n"@ + ts_type_text(types[i - 1], types)
    }
}

/// The type index module.
pub open spec fn ts_types_index_text(types: Seq<TypeDecl>) -> Seq<char> {
    "// Generated types from the API description\n\n"@ + ts_types_joined(
        types,
        types.len() as int,
    ) + "\n"@
}

/// The ignore file of the generated package.
pub open spec fn ts_gitignore_text() -> Seq<char> {
    "node_modules/\ndist/\n"@
}

/// The path a service class is staged under.
pub open spec fn ts_service_path(s: Service) -> Seq<char> {
    "src/services/"@ + s.name.snake@ + ".ts"@
}

/// TypeScript SDK generator: stages the type index, one service class per
/// tag, and the package scaffolding.
pub struct TypeScriptGenerator;

impl TypeScriptGenerator {
    pub fn new() -> (r: TypeScriptGenerator) {
        TypeScriptGenerator
    }

    /// Rejects an IR with nothing to generate from.
    pub fn validate(&self, ir: &GenIr) -> (r: Result<(), crate::vfs::Error>)
        ensures
            (r is Ok) == (ir.types@.len() > 0 || ir.services@.len() > 0),
    {
        if ir.types.is_empty() && ir.services.len() == 0 {
            Err(
                crate::vfs::Error::ValidationError(
                    String::from_str("IR must contain at least one type or service"),
                ),
            )
        } else {
            Ok(())
        }
    }

    /// Stages the whole SDK.  A service whose module path is reused by a
    /// later service is overwritten, as in any map of files.
    #[verifier::loop_isolation(false)]
    #[verifier::rlimit(100)]
    pub fn generate(&self, ir: &GenIr) -> (v: VirtualFS)
        ensures
            v.wf(),
            file_find(v@, ".gitignore"@) == Some(vstd::utf8::encode_utf8(ts_gitignore_text())),
            file_find(v@, "src/types/index.ts"@) == Some(
                vstd::utf8::encode_utf8(ts_types_index_text(ir.types@)),
            ),
            forall|k: int|
                0 <= k < ir.services@.len() && (forall|l: int|
                    k < l < ir.services@.len() ==> ts_service_path(#[trigger] ir.services@[l])
                        != ts_service_path(ir.services@[k])) ==> #[trigger] file_find(
                    v@,
                    ts_service_path(ir.services@[k]),
                ) == Some(
                    vstd::utf8::encode_utf8(ts_service_text(ir.services@[k], ir.types@)),
                ),
    {
        let mut vfs = VirtualFS::new();

        let n = ir.services.len();
        let mut i: usize = 0;
        while i < n
            invariant
                i <= n,
                vfs.wf(),
                forall|k: int|
                    0 <= k < i && (forall|l: int|
                        k < l < ir.services@.len() ==> ts_service_path(#[trigger] ir.services@[l])
                            != ts_service_path(ir.services@[k])) ==> #[trigger] file_find(
                        vfs@,
                        ts_service_path(ir.services@[k]),
                    ) == Some(
                        vstd::utf8::encode_utf8(ts_service_text(ir.services@[k], ir.types@)),
                    ),
            decreases n - i,
        {
            let service = &ir.services[i];
            let content = render_service(service, ir);
            let mut path = String::from_str("src/services/");
            path.append(service.name.snake.as_str());
            path.append(".ts");
            proof {
                assert(path@ == ts_service_path(ir.services@[i as int]));
            }
            vfs.add_file(path, content);
            i = i + 1;
        }

        let mut index = String::from_str("// Generated types from the API description\n\n");
        let ghost index_base = index@;
        let types = ir.types.entries();
        let tn = types.len();
        let mut t: usize = 0;
        while t < tn
            invariant
                t <= tn,
                index@ == index_base + ts_types_joined(ir.types@, t as int),
            decreases tn - t,
        {
            if t > 0 {
                index.append("\n\n");
            }
            let rendered = render_type(&types[t], ir);
            index.append(rendered.as_str());
            proof {
                assert(index@ == index_base + ts_types_joined(ir.types@, t as int + 1));
            }
            t = t + 1;
        }
        index.append("\n");
        vfs.add_file(String::from_str("src/types/index.ts"), index);
        vfs.add_file(
            String::from_str(".gitignore"),
            String::from_str("node_modules/\ndist/\n"),
        );

        proof {
            reveal_strlit("src/services/");
            reveal_strlit(".ts");
            reveal_strlit("src/types/index.ts");
            reveal_strlit(".gitignore");
            assert("src/types/index.ts"@.len() == 18);
            assert(".gitignore"@.len() == 10);
            assert("src/types/index.ts"@[0] == 's');
            assert(".gitignore"@[0] == '.');
            assert("src/types/index.ts"@ != ".gitignore"@);
            assert forall|k: int|
                0 <= k < ir.services@.len() && (forall|l: int|
                    k < l < ir.services@.len() ==> ts_service_path(#[trigger] ir.services@[l])
                        != ts_service_path(ir.services@[k])) implies #[trigger] file_find(
                vfs@,
                ts_service_path(ir.services@[k]),
            ) == Some(
                vstd::utf8::encode_utf8(ts_service_text(ir.services@[k], ir.types@)),
            ) by {
                let sp = ts_service_path(ir.services@[k]);
                assert(sp[4] == "src/services/"@[4]);
                assert(sp[4] == 's');
                assert("src/types/index.ts"@[4] == 't');
                assert(sp != "src/types/index.ts"@);
                assert(sp[0] == 's');
                assert(sp != ".gitignore"@);
            }
        }
        vfs
    }
}

} // verus!
