//! Pure conversions from schema nodes to type references: primitive
//! inference by declared type and format, synthetic primitive ids, and the
//! reference/inline/boolean schema cases.

use vstd::prelude::*;

use crate::document::{size_opt_bos, size_schema, size_sor, BoolOrSchema, Schema, SchemaOrRef, SchemaType, TypeSet};
use crate::ir::{Primitive, StableId, TypeMod, TypeRef};
use crate::strutil::str_eq;

verus! {

/// The primitive a schema's declared type and format refine to.
pub open spec fn spec_primitive(s: Schema) -> Primitive {
    match s.schema_type {
        Option::Some(TypeSet::One(SchemaType::String)) => {
            if s.format matches Some(f) && f@ == "date"@ {
                Primitive::Date
            } else if s.format matches Some(f) && f@ == "date-time"@ {
                Primitive::DateTime
            } else if s.format matches Some(f) && f@ == "uuid"@ {
                Primitive::Uuid
            } else if s.format matches Some(f) && (f@ == "byte"@ || f@ == "binary"@) {
                Primitive::Bytes
            } else {
                Primitive::String
            }
        },
        Option::Some(TypeSet::One(SchemaType::Integer)) => {
            if s.format matches Some(f) && f@ == "int64"@ {
                Primitive::I64
            } else {
                Primitive::I32
            }
        },
        Option::Some(TypeSet::One(SchemaType::Number)) => {
            if s.format matches Some(f) && f@ == "double"@ {
                Primitive::F64
            } else if s.format matches Some(f) && f@ == "decimal"@ {
                Primitive::Decimal
            } else {
                Primitive::F32
            }
        },
        Option::Some(TypeSet::One(SchemaType::Boolean)) => Primitive::Bool,
        _ => Primitive::Any,
    }
}

pub fn infer_primitive_from_schema(s: &Schema) -> (r: Primitive)
    ensures
        r == spec_primitive(*s),
{
    match &s.schema_type {
        Some(TypeSet::One(SchemaType::String)) => {
            match &s.format {
                Some(f) => {
                    if str_eq(f.as_str(), "date") {
                        Primitive::Date
                    } else if str_eq(f.as_str(), "date-time") {
                        Primitive::DateTime
                    } else if str_eq(f.as_str(), "uuid") {
                        Primitive::Uuid
                    } else if str_eq(f.as_str(), "byte") || str_eq(f.as_str(), "binary") {
                        Primitive::Bytes
                    } else {
                        Primitive::String
                    }
                },
                None => Primitive::String,
            }
        },
        Some(TypeSet::One(SchemaType::Integer)) => {
            match &s.format {
                Some(f) => {
                    if str_eq(f.as_str(), "int64") {
                        Primitive::I64
                    } else {
                        Primitive::I32
                    }
                },
                None => Primitive::I32,
            }
        },
        Some(TypeSet::One(SchemaType::Number)) => {
            match &s.format {
                Some(f) => {
                    if str_eq(f.as_str(), "double") {
                        Primitive::F64
                    } else if str_eq(f.as_str(), "decimal") {
                        Primitive::Decimal
                    } else {
                        Primitive::F32
                    }
                },
                None => Primitive::F32,
            }
        },
        Some(TypeSet::One(SchemaType::Boolean)) => Primitive::Bool,
        _ => Primitive::Any,
    }
}

/// The synthetic registry id that stands for a primitive at use sites.
pub open spec fn spec_primitive_id(p: Primitive) -> Seq<char> {
    match p {
        Primitive::Any => "Primitive_Any"@,
        Primitive::Bool => "Primitive_Bool"@,
        Primitive::I32 => "Primitive_I32"@,
        Primitive::I64 => "Primitive_I64"@,
        Primitive::F32 => "Primitive_F32"@,
        Primitive::F64 => "Primitive_F64"@,
        Primitive::String => "Primitive_String"@,
        Primitive::Bytes => "Primitive_Bytes"@,
        Primitive::Date => "Primitive_Date"@,
        Primitive::DateTime => "Primitive_DateTime"@,
        Primitive::Uuid => "Primitive_Uuid"@,
        Primitive::Decimal => "Primitive_Decimal"@,
    }
}

pub fn primitive_id(p: Primitive) -> (r: StableId)
    ensures
        r@ == spec_primitive_id(p),
{
    match p {
        Primitive::Any => StableId::new("Primitive_Any"),
        Primitive::Bool => StableId::new("Primitive_Bool"),
        Primitive::I32 => StableId::new("Primitive_I32"),
        Primitive::I64 => StableId::new("Primitive_I64"),
        Primitive::F32 => StableId::new("Primitive_F32"),
        Primitive::F64 => StableId::new("Primitive_F64"),
        Primitive::String => StableId::new("Primitive_String"),
        Primitive::Bytes => StableId::new("Primitive_Bytes"),
        Primitive::Date => StableId::new("Primitive_Date"),
        Primitive::DateTime => StableId::new("Primitive_DateTime"),
        Primitive::Uuid => StableId::new("Primitive_Uuid"),
        Primitive::Decimal => StableId::new("Primitive_Decimal"),
    }
}

/// What follows the last `/` of a reference path (the whole path when it has
/// no `/`).
pub open spec fn last_seg(s: Seq<char>) -> Seq<char>
    decreases s.len(),
{
    if s.len() == 0 {
        s
    } else if s.last() == '/' {
        Seq::empty()
    } else {
        last_seg(s.drop_last()).push(s.last())
    }
}

proof fn lemma_last_seg_skip(s: Seq<char>, k: int)
    requires
        0 <= k <= s.len(),
        forall|j: int| k <= j < s.len() ==> s[j] != '/',
        k > 0 ==> s[k - 1] == '/',
    ensures
        last_seg(s) =~= s.skip(k),
    decreases s.len(),
{
    if s.len() == 0 {
    } else if k == s.len() {
        assert(s.last() == '/');
    } else {
        assert(s.last() != '/');
        lemma_last_seg_skip(s.drop_last(), k);
        assert(s.drop_last().skip(k).push(s.last()) =~= s.skip(k));
    }
}

/// Extracts the text after the last `/`.
#[verifier::loop_isolation(false)]
fn after_last_slash<'a>(s: &'a str) -> (r: &'a str)
    ensures
        r@ == last_seg(s@),
{
    let n = s.unicode_len();
    let mut k: usize = n;
    while k > 0
        invariant
            0 <= k <= n,
            forall|j: int| k <= j < n ==> s@[j] != '/',
        decreases k,
    {
        if s.get_char(k - 1) == '/' {
            break ;
        }
        k = k - 1;
    }
    proof {
        lemma_last_seg_skip(s@, k as int);
    }
    s.substring_char(k, n)
}

/// What a use-site conversion produces: the target id's text, the nullable
/// flag, and whether a list modifier wraps the target.
pub open spec fn spec_sor_ref(s: SchemaOrRef) -> (Seq<char>, bool, bool)
    decreases s,
{
    match s {
        SchemaOrRef::Reference(p) => (last_seg(p@), false, false),
        SchemaOrRef::Inline(schema) => spec_obj_ref(schema),
    }
}

pub open spec fn spec_obj_ref(s: Schema) -> (Seq<char>, bool, bool)
    decreases s,
{
    match s.schema_type {
        Option::Some(TypeSet::One(SchemaType::String)) | Option::Some(
            TypeSet::One(SchemaType::Integer),
        ) | Option::Some(TypeSet::One(SchemaType::Number)) | Option::Some(
            TypeSet::One(SchemaType::Boolean),
        ) => (spec_primitive_id(spec_primitive(s)), s.spec_nullable(), false),
        Option::Some(TypeSet::One(SchemaType::Array)) => match s.items {
            Option::Some(it) => (spec_bos_ref(it).0, s.spec_nullable(), true),
            Option::None => ("Any"@, s.spec_nullable(), false),
        },
        _ => ("Any"@, s.spec_nullable(), false),
    }
}

pub open spec fn spec_bos_ref(b: BoolOrSchema) -> (Seq<char>, bool, bool)
    decreases b,
{
    match b {
        BoolOrSchema::Boolean(true) => ("Any"@, false, false),
        BoolOrSchema::Boolean(false) => ("Never"@, false, false),
        BoolOrSchema::Node(n) => spec_sor_ref(*n),
    }
}

/// A produced type reference agrees with the described target, nullability
/// and list shape, is non-optional, and carries no other modifier.
pub open spec fn ref_matches(r: TypeRef, d: (Seq<char>, bool, bool)) -> bool {
    &&& r.target@ == d.0
    &&& !r.optional
    &&& r.nullable == d.1
    &&& !r.by_ref
    &&& if d.2 {
        r.modifiers@.len() == 1 && r.modifiers@[0] is List
    } else {
        r.modifiers@.len() == 0
    }
}

/// Converts an object schema to a use-site type reference: a declared
/// primitive becomes a synthetic primitive id, an array wraps its item type
/// in a list modifier, and anything else falls back to `Any`.
pub fn convert_object_schema_to_type_ref(s: &Schema) -> (r: TypeRef)
    ensures
        ref_matches(r, spec_obj_ref(*s)),
    decreases size_schema(*s), 2int,
{
    let nullable = s.is_nullable_or_default();
    match &s.schema_type {
        Some(TypeSet::One(SchemaType::String)) | Some(TypeSet::One(SchemaType::Integer)) | Some(
            TypeSet::One(SchemaType::Boolean),
        ) | Some(TypeSet::One(SchemaType::Number)) => {
            let p = infer_primitive_from_schema(s);
            TypeRef {
                target: primitive_id(p),
                optional: false,
                nullable,
                by_ref: false,
                modifiers: Vec::new(),
            }
        },
        Some(TypeSet::One(SchemaType::Array)) => {
            match &s.items {
                Some(items) => {
                    let inner = convert_bos_to_type_ref(items);
                    let mut modifiers: Vec<TypeMod> = Vec::new();
                    modifiers.push(TypeMod::List);
                    TypeRef {
                        target: inner.target,
                        optional: false,
                        nullable,
                        by_ref: false,
                        modifiers,
                    }
                },
                None => TypeRef {
                    target: StableId::new("Any"),
                    optional: false,
                    nullable,
                    by_ref: false,
                    modifiers: Vec::new(),
                },
            }
        },
        _ => TypeRef {
            target: StableId::new("Any"),
            optional: false,
            nullable,
            by_ref: false,
            modifiers: Vec::new(),
        },
    }
}

/// Converts a boolean-or-node schema: `true` accepts anything, `false`
/// nothing, a node is converted by its own shape.
pub fn convert_bos_to_type_ref(b: &BoolOrSchema) -> (r: TypeRef)
    ensures
        ref_matches(r, spec_bos_ref(*b)),
    decreases size_opt_bos(Some(*b)), 4int,
{
    match b {
        BoolOrSchema::Boolean(true) => TypeRef {
            target: StableId::new("Any"),
            optional: false,
            nullable: false,
            by_ref: false,
            modifiers: Vec::new(),
        },
        BoolOrSchema::Boolean(false) => TypeRef {
            target: StableId::new("Never"),
            optional: false,
            nullable: false,
            by_ref: false,
            modifiers: Vec::new(),
        },
        BoolOrSchema::Node(node) => convert_sor_to_type_ref(node),
    }
}

/// Converts a schema node: a reference points at the named type (the last
/// path segment), an inline schema is converted by its shape.
pub fn convert_sor_to_type_ref(s: &SchemaOrRef) -> (r: TypeRef)
    ensures
        ref_matches(r, spec_sor_ref(*s)),
    decreases size_sor(*s), 3int,
{
    match s {
        SchemaOrRef::Reference(p) => {
            let name = after_last_slash(p.as_str());
            TypeRef {
                target: StableId::new(name),
                optional: false,
                nullable: false,
                by_ref: false,
                modifiers: Vec::new(),
            }
        },
        SchemaOrRef::Inline(schema) => convert_object_schema_to_type_ref(schema),
    }
}

} // verus!
