//! The Axum server generator: renders the IR's types as serde-ready Rust
//! declarations and stages a complete server crate — type modules, one
//! service module per tag, a manifest and a crate root — into the virtual
//! file system.

use vstd::prelude::*;

use crate::ir::{
    AliasTarget, Composite, EnumValue, Field, GenIr, Primitive, Service, TypeDecl, TypeKind,
    TypeMod, TypeRef, find_decl,
};
use crate::strutil::str_eq;
use crate::vfs::{file_find, VirtualFS};

verus! {

/// The Rust type a synthetic primitive id renders to; anything unknown
/// falls back to a JSON value.
pub open spec fn prim_id_text(id: Seq<char>) -> Seq<char> {
    if id == "Primitive_String"@ || id == "Primitive_Uuid"@ || id == "Primitive_Date"@ || id
        == "Primitive_DateTime"@ || id == "Primitive_Decimal"@ {
        "String"@
    } else if id == "Primitive_Bool"@ {
        "bool"@
    } else if id == "Primitive_I32"@ {
        "i32"@
    } else if id == "Primitive_I64"@ {
        "i64"@
    } else if id == "Primitive_F32"@ {
        "f32"@
    } else if id == "Primitive_F64"@ {
        "f64"@
    } else if id == "Primitive_Bytes"@ {
        "Vec<u8>"@
    } else {
        "serde_json::Value"@
    }
}

fn render_primitive_from_id(id: &str) -> (r: &'static str)
    ensures
        r@ == prim_id_text(id@),
{
    if str_eq(id, "Primitive_String") || str_eq(id, "Primitive_Uuid") || str_eq(
        id,
        "Primitive_Date",
    ) || str_eq(id, "Primitive_DateTime") || str_eq(id, "Primitive_Decimal") {
        "String"
    } else if str_eq(id, "Primitive_Bool") {
        "bool"
    } else if str_eq(id, "Primitive_I32") {
        "i32"
    } else if str_eq(id, "Primitive_I64") {
        "i64"
    } else if str_eq(id, "Primitive_F32") {
        "f32"
    } else if str_eq(id, "Primitive_F64") {
        "f64"
    } else if str_eq(id, "Primitive_Bytes") {
        "Vec<u8>"
    } else {
        "serde_json::Value"
    }
}

/// Structural size of a type reference, for the recursion through map
/// modifiers.
pub open spec fn size_tr(t: TypeRef) -> nat
    decreases t,
{
    1 + size_mods(t.modifiers@)
}

pub open spec fn size_mods(ms: Seq<TypeMod>) -> nat
    decreases ms,
{
    if ms.len() == 0 {
        0
    } else {
        (match ms[0] {
            TypeMod::MapOf(v) => 1 + size_tr(*v),
            _ => 1,
        }) + size_mods(ms.drop_first())
    }
}

pub proof fn lemma_size_mods_elem(ms: Seq<TypeMod>, i: int)
    requires
        0 <= i < ms.len(),
    ensures
        (match ms[i] {
            TypeMod::MapOf(v) => 1 + size_tr(*v),
            _ => 1nat,
        }) <= size_mods(ms),
    decreases ms.len(),
{
    if i > 0 {
        lemma_size_mods_elem(ms.drop_first(), i - 1);
        assert(ms.drop_first()[i - 1] == ms[i]);
    }
}

/// The base name a reference renders to: the declared type's pascal name, or
/// the primitive its synthetic id stands for.
pub open spec fn base_text(t: TypeRef, types: Seq<TypeDecl>) -> Seq<char> {
    match find_decl(types, t.target@) {
        Option::Some(d) => d.name.pascal@,
        Option::None => prim_id_text(t.target@),
    }
}

/// The reference text after applying the first `i` modifiers, innermost
/// first: lists and sets wrap the text so far, a map starts over from its
/// value type.
pub open spec fn mods_text(base: Seq<char>, ms: Seq<TypeMod>, i: int, types: Seq<TypeDecl>) -> Seq<
    char,
>
    decreases size_mods(ms), 0int, i,
    via mods_text_dec
{
    if i <= 0 || i > ms.len() {
        base
    } else {
        match ms[i - 1] {
            TypeMod::List => "Vec<"@ + mods_text(base, ms, i - 1, types) + ">"@,
            TypeMod::SetOf => "std::collections::HashSet<"@ + mods_text(base, ms, i - 1, types)
                + ">"@,
            TypeMod::MapOf(v) => "std::collections::HashMap<String, "@ + tr_text(*v, types)
                + ">"@,
        }
    }
}

#[via_fn]
proof fn mods_text_dec(base: Seq<char>, ms: Seq<TypeMod>, i: int, types: Seq<TypeDecl>) {
    if 0 < i <= ms.len() {
        lemma_size_mods_elem(ms, i - 1);
    }
}

/// The full rendered type of a use-site reference.
pub open spec fn tr_text(t: TypeRef, types: Seq<TypeDecl>) -> Seq<char>
    decreases size_tr(t), 1int, 0int,
{
    if t.optional {
        "Option<"@ + mods_text(base_text(t, types), t.modifiers@, t.modifiers@.len() as int, types)
            + ">"@
    } else {
        mods_text(base_text(t, types), t.modifiers@, t.modifiers@.len() as int, types)
    }
}

/// Renders a use-site type reference.
#[verifier::loop_isolation(false)]
pub fn render_type_ref(t: &TypeRef, ir: &GenIr) -> (r: String)
    ensures
        r@ == tr_text(*t, ir.types@),
    decreases size_tr(*t), 1int, 0int,
{
    let mut result: String = match ir.types.get(&t.target) {
        Some(d) => d.name.pascal.clone(),
        None => {
            let text = render_primitive_from_id(t.target.0.as_str());
            text.to_owned()
        },
    };
    proof {
        assert(result@ == base_text(*t, ir.types@));
    }
    let n = t.modifiers.len();
    let mut i: usize = 0;
    while i < n
        invariant
            i <= n,
            result@ == mods_text(base_text(*t, ir.types@), t.modifiers@, i as int, ir.types@),
        decreases n - i,
    {
        proof {
            lemma_size_mods_elem(t.modifiers@, i as int);
        }
        let next: String = match &t.modifiers[i] {
            TypeMod::List => {
                let mut s = String::from_str("Vec<");
                s.append(result.as_str());
                s.append(">");
                s
            },
            TypeMod::SetOf => {
                let mut s = String::from_str("std::collections::HashSet<");
                s.append(result.as_str());
                s.append(">");
                s
            },
            TypeMod::MapOf(v) => {
                let mut s = String::from_str("std::collections::HashMap<String, ");
                let inner = render_type_ref(v, ir);
                s.append(inner.as_str());
                s.append(">");
                s
            },
        };
        result = next;
        proof {
            assert(result@ == mods_text(
                base_text(*t, ir.types@),
                t.modifiers@,
                i as int + 1,
                ir.types@,
            ));
        }
        i = i + 1;
    }
    if t.optional {
        let mut s = String::from_str("Option<");
        s.append(result.as_str());
        s.append(">");
        s
    } else {
        result
    }
}

/// The Rust type an alias target renders to.
pub open spec fn alias_text(a: AliasTarget, types: Seq<TypeDecl>) -> Seq<char> {
    match a {
        AliasTarget::Primitive(Primitive::String) => "String"@,
        AliasTarget::Primitive(Primitive::Bool) => "bool"@,
        AliasTarget::Primitive(Primitive::I32) => "i32"@,
        AliasTarget::Primitive(Primitive::I64) => "i64"@,
        AliasTarget::Primitive(Primitive::F32) => "f32"@,
        AliasTarget::Primitive(Primitive::F64) => "f64"@,
        AliasTarget::Primitive(_) => "String"@,
        AliasTarget::Composite(Composite::List(inner)) => "Vec<"@ + tr_text(*inner, types) + ">"@,
        AliasTarget::Composite(Composite::MapOf { value, .. }) => "std::collections::HashMap<String, "@
            + tr_text(*value, types) + ">"@,
        AliasTarget::Composite(Composite::Tuple(ts)) => "("@ + tuple_text(ts@, ts@.len() as int, types)
            + ")"@,
        AliasTarget::Reference(t) => tr_text(t, types),
    }
}

/// The first `i` tuple members, comma separated.
pub open spec fn tuple_text(ts: Seq<TypeRef>, i: int, types: Seq<TypeDecl>) -> Seq<char>
    decreases i,
{
    if i <= 0 {
        Seq::empty()
    } else if i == 1 {
        tr_text(ts[0], types)
    } else {
        tuple_text(ts, i - 1, types) + ", "@ + tr_text(ts[i - 1], types)
    }
}

/// Renders an alias target.
#[verifier::loop_isolation(false)]
pub fn render_alias_target(a: &AliasTarget, ir: &GenIr) -> (r: String)
    ensures
        r@ == alias_text(*a, ir.types@),
{
    match a {
        AliasTarget::Primitive(p) => {
            let text = match p {
                Primitive::Bool => "bool",
                Primitive::I32 => "i32",
                Primitive::I64 => "i64",
                Primitive::F32 => "f32",
                Primitive::F64 => "f64",
                _ => "String",
            };
            text.to_owned()
        },
        AliasTarget::Composite(Composite::List(inner)) => {
            let mut s = String::from_str("Vec<");
            let t = render_type_ref(inner, ir);
            s.append(t.as_str());
            s.append(">");
            s
        },
        AliasTarget::Composite(Composite::MapOf { value, .. }) => {
            let mut s = String::from_str("std::collections::HashMap<String, ");
            let t = render_type_ref(value, ir);
            s.append(t.as_str());
            s.append(">");
            s
        },
        AliasTarget::Composite(Composite::Tuple(ts)) => {
            let mut s = String::from_str("(");
            let n = ts.len();
            let mut i: usize = 0;
            while i < n
                invariant
                    i <= n,
                    s@ == "("@ + tuple_text(ts@, i as int, ir.types@),
                decreases n - i,
            {
                if i > 0 {
                    s.append(", ");
                }
                let t = render_type_ref(&ts[i], ir);
                s.append(t.as_str());
                proof {
                    assert(s@ == "("@ + tuple_text(ts@, i as int + 1, ir.types@));
                }
                i = i + 1;
            }
            s.append(")");
            s
        },
        AliasTarget::Reference(t) => render_type_ref(t, ir),
    }
}

/// One rendered struct field.
pub open spec fn field_line(f: Field, types: Seq<TypeDecl>) -> Seq<char> {
    "    pub "@ + f.name.snake@ + ": "@ + tr_text(f.ty, types) + ","@
}

/// The first `i` field lines, newline separated.
pub open spec fn field_lines(fs: Seq<Field>, i: int, types: Seq<TypeDecl>) -> Seq<char>
    decreases i,
{
    if i <= 0 {
        Seq::empty()
    } else if i == 1 {
        field_line(fs[0], types)
    } else {
        field_lines(fs, i - 1, types) + "\n"@ + field_line(fs[i - 1], types)
    }
}

/// One rendered enum variant.
pub open spec fn variant_line(v: EnumValue) -> Seq<char> {
    "    "@ + v.name.pascal@ + ","@
}

/// The first `i` variant lines, newline separated.
pub open spec fn variant_lines(vs: Seq<EnumValue>, i: int) -> Seq<char>
    decreases i,
{
    if i <= 0 {
        Seq::empty()
    } else if i == 1 {
        variant_line(vs[0])
    } else {
        variant_lines(vs, i - 1) + "\n"@ + variant_line(vs[i - 1])
    }
}

/// One rendered type declaration: a serde-ready struct or enum, a type
/// alias, or a JSON value for a union.
pub open spec fn type_text(d: TypeDecl, types: Seq<TypeDecl>) -> Seq<char> {
    match d.kind {
        TypeKind::Struct { fields, .. } => "#[derive(Debug, Clone, Serialize, Deserialize)]\npub struct "@
            + d.name.pascal@ + " {\n"@ + field_lines(fields@, fields@.len() as int, types)
            + "\n}"@,
        TypeKind::Enum { values, .. } => "#[derive(Debug, Clone, Serialize, Deserialize)]\npub enum "@
            + d.name.pascal@ + " {\n"@ + variant_lines(values@, values@.len() as int) + "\n}"@,
        TypeKind::Alias { aliased } => "pub type "@ + d.name.pascal@ + " = "@ + alias_text(
            aliased,
            types,
        ) + ";"@,
        TypeKind::Union { .. } => "pub type "@ + d.name.pascal@ + " = serde_json::Value;"@,
    }
}

/// Renders one type declaration.
#[verifier::loop_isolation(false)]
#[verifier::rlimit(60)]
pub fn render_type(d: &TypeDecl, ir: &GenIr) -> (r: String)
    ensures
        r@ == type_text(*d, ir.types@),
{
    match &d.kind {
        TypeKind::Struct { fields, .. } => {
            let mut s = String::from_str("#[derive(Debug, Clone, Serialize, Deserialize)]\npub struct ");
            s.append(d.name.pascal.as_str());
            s.append(" {\n");
            let ghost base = s@;
            let n = fields.len();
            let mut i: usize = 0;
            while i < n
                invariant
                    i <= n,
                    s@ == base + field_lines(fields@, i as int, ir.types@),
                decreases n - i,
            {
                if i > 0 {
                    s.append("\n");
                }
                s.append("    pub ");
                s.append(fields[i].name.snake.as_str());
                s.append(": ");
                let t = render_type_ref(&fields[i].ty, ir);
                s.append(t.as_str());
                s.append(",");
                proof {
                    assert(s@ == base + field_lines(fields@, i as int + 1, ir.types@));
                }
                i = i + 1;
            }
            s.append("\n}");
            s
        },
        TypeKind::Enum { values, .. } => {
            let mut s = String::from_str("#[derive(Debug, Clone, Serialize, Deserialize)]\npub enum ");
            s.append(d.name.pascal.as_str());
            s.append(" {\n");
            let ghost base = s@;
            let n = values.len();
            let mut i: usize = 0;
            while i < n
                invariant
                    i <= n,
                    s@ == base + variant_lines(values@, i as int),
                decreases n - i,
            {
                if i > 0 {
                    s.append("\n");
                }
                s.append("    ");
                s.append(values[i].name.pascal.as_str());
                s.append(",");
                proof {
                    assert(s@ == base + variant_lines(values@, i as int + 1));
                }
                i = i + 1;
            }
            s.append("\n}");
            s
        },
        TypeKind::Alias { aliased } => {
            let mut s = String::from_str("pub type ");
            s.append(d.name.pascal.as_str());
            s.append(" = ");
            let t = render_alias_target(aliased, ir);
            s.append(t.as_str());
            s.append(";");
            s
        },
        TypeKind::Union { .. } => {
            let mut s = String::from_str("pub type ");
            s.append(d.name.pascal.as_str());
            s.append(" = serde_json::Value;");
            s
        },
    }
}

/// The first `i` type declarations, blank-line separated.
pub open spec fn types_joined(types: Seq<TypeDecl>, i: int) -> Seq<char>
    decreases i,
{
    if i <= 0 {
        Seq::empty()
    } else if i == 1 {
        type_text(types[0], types)
    } else {
        types_joined(types, i - 1) + "\n\n"@ + type_text(types[i - 1], types)
    }
}

/// The module that declares every registered type.
pub open spec fn types_common_text(types: Seq<TypeDecl>) -> Seq<char> {
    "//! Types for the common API\n\nuse serde::{Deserialize, Serialize};\n\n"@ + types_joined(
        types,
        types.len() as int,
    )
}

/// The type-module index.
pub open spec fn types_mod_text() -> Seq<char> {
    "//! API types organized by tag\n\npub mod common;\n"@
}

/// The service-module index: the default service is always compiled, every
/// other service sits behind a feature of its own name.
pub open spec fn services_mod_text(ss: Seq<Service>, i: int) -> Seq<char>
    decreases i,
{
    if i <= 0 {
        "//! Service interfaces organized by tag\n\n"@
    } else {
        services_mod_text(ss, i - 1) + (if ss[i - 1].name.canonical@ == "default"@ {
            "pub mod "@ + ss[i - 1].name.snake@ + ";\n"@
        } else {
            "#[cfg(feature = \""@ + ss[i - 1].name.snake@ + "\")]\npub mod "@ + ss[i
                - 1].name.snake@ + ";\n"@
        })
    }
}

/// The feature list of the generated manifest: one feature per non-default
/// service.
pub open spec fn features_text(ss: Seq<Service>, i: int) -> Seq<char>
    decreases i,
{
    if i <= 0 {
        Seq::empty()
    } else {
        features_text(ss, i - 1) + (if ss[i - 1].name.canonical@ == "default"@ {
            Seq::<char>::empty()
        } else {
            ss[i - 1].name.snake@ + " = []\n"@
        })
    }
}

/// The generated crate manifest.
pub open spec fn cargo_toml_text(ir: GenIr) -> Seq<char> {
    "[package]\nname = \""@ + ir.api.package_name.snake@ + "\"\nversion = \""@
        + ir.api.version@
        + "\"\nedition = \"2021\"\n\n[dependencies]\naxum = \"0.7\"\nserde = { version = \"1\", features = [\"derive\"] }\nserde_json = \"1\"\ntokio = { version = \"1\", features = [\"full\"] }\n\n[features]\n"@
        + features_text(ir.services@, ir.services@.len() as int)
}

/// The generated crate root.
pub open spec fn lib_rs_text() -> Seq<char> {
    "//! Generated Axum API\n\npub mod types;\npub mod services;\n"@
}

/// The path a service module is staged under.
pub open spec fn service_path(s: Service) -> Seq<char> {
    "src/services/"@ + s.name.snake@ + ".rs"@
}

/// A service-module path never collides with the generator's fixed paths.
proof fn lemma_service_path_distinct(s: Service)
    ensures
        service_path(s) != "src/types/common.rs"@,
        service_path(s) != "src/types/mod.rs"@,
        service_path(s) != "Cargo.toml"@,
        service_path(s) != "src/lib.rs"@,
{
    reveal_strlit("src/services/");
    reveal_strlit(".rs");
    reveal_strlit("src/types/common.rs");
    reveal_strlit("src/types/mod.rs");
    reveal_strlit("Cargo.toml");
    reveal_strlit("src/lib.rs");
    assert(service_path(s)[4] == 's');
    assert("src/types/common.rs"@[4] == 't');
    assert("src/types/mod.rs"@[4] == 't');
    assert("Cargo.toml"@[0] == 'C');
    assert(service_path(s)[0] == 's');
    assert("src/lib.rs"@[4] == 'l');
}

/// Rust Axum server generator: stages a complete server crate.
pub struct RustAxumGenerator;

impl RustAxumGenerator {
    pub fn new() -> (r: RustAxumGenerator) {
        RustAxumGenerator
    }

    /// Rejects an IR with nothing to generate from.
    pub fn validate(&self, ir: &GenIr) -> (r: Result<(), crate::vfs::Error>)
        ensures
            (r is Ok) == (ir.types@.len() > 0 || ir.services@.len() > 0),
    {
        if ir.types.is_empty() && ir.services.len() == 0 {
            Err(
                crate::vfs::Error::ValidationError(
                    String::from_str("IR must contain at least one type or service"),
                ),
            )
        } else {
            Ok(())
        }
    }

    /// Stages the whole server crate: one module per service, the type
    /// module, the module indexes, the manifest and the crate root.  A
    /// service whose module path is reused by a later service is
    /// overwritten, as in any map of files.
    #[verifier::loop_isolation(false)]
    #[verifier::rlimit(100)]
    pub fn generate(&self, ir: &GenIr) -> (v: VirtualFS)
        ensures
            v.wf(),
            file_find(v@, "src/lib.rs"@) == Some(vstd::utf8::encode_utf8(lib_rs_text())),
            file_find(v@, "Cargo.toml"@) == Some(vstd::utf8::encode_utf8(cargo_toml_text(*ir))),
            file_find(v@, "src/types/common.rs"@) == Some(
                vstd::utf8::encode_utf8(types_common_text(ir.types@)),
            ),
            file_find(v@, "src/types/mod.rs"@) == Some(
                vstd::utf8::encode_utf8(types_mod_text()),
            ),
            forall|k: int|
                0 <= k < ir.services@.len() && (forall|l: int|
                    k < l < ir.services@.len() ==> service_path(#[trigger] ir.services@[l])
                        != service_path(ir.services@[k])) && ir.services@[k].name.snake@ != "mod"@
                    ==> #[trigger] file_find(v@, service_path(ir.services@[k])) == Some(
                    vstd::utf8::encode_utf8(
                        crate::service_codegen::module_text(ir.services@[k], ir.auth_schemes@),
                    ),
                ),
    {
        let mut vfs = VirtualFS::new();

        // Service modules first.
        let n = ir.services.len();
        let mut i: usize = 0;
        while i < n
            invariant
                i <= n,
                vfs.wf(),
                forall|k: int|
                    0 <= k < i && (forall|l: int|
                        k < l < ir.services@.len() ==> service_path(#[trigger] ir.services@[l])
                            != service_path(ir.services@[k])) ==> #[trigger] file_find(
                        vfs@,
                        service_path(ir.services@[k]),
                    ) == Some(
                        vstd::utf8::encode_utf8(
                            crate::service_codegen::module_text(
                                ir.services@[k],
                                ir.auth_schemes@,
                            ),
                        ),
                    ),
            decreases n - i,
        {
            let service = &ir.services[i];
            let generator = crate::service_codegen::ServiceModuleGenerator::new(
                service,
                &ir.auth_schemes,
            );
            let content = generator.generate();
            let mut path = String::from_str("src/services/");
            path.append(service.name.snake.as_str());
            path.append(".rs");
            proof {
                assert(path@ == service_path(ir.services@[i as int]));
            }
            vfs.add_file(path, content);
            i = i + 1;
        }

        // The service index, the type module, the manifest and the root.
        let mut services_mod = String::from_str("//! Service interfaces organized by tag\n\n");
        let mut g: usize = 0;
        proof {
            assert(services_mod@ == services_mod_text(ir.services@, 0));
        }
        while g < n
            invariant
                g <= n,
                vfs.wf(),
                services_mod@ == services_mod_text(ir.services@, g as int),
                forall|k: int|
                    0 <= k < ir.services@.len() && (forall|l: int|
                        k < l < ir.services@.len() ==> service_path(#[trigger] ir.services@[l])
                            != service_path(ir.services@[k])) ==> #[trigger] file_find(
                        vfs@,
                        service_path(ir.services@[k]),
                    ) == Some(
                        vstd::utf8::encode_utf8(
                            crate::service_codegen::module_text(
                                ir.services@[k],
                                ir.auth_schemes@,
                            ),
                        ),
                    ),
            decreases n - g,
        {
            let service = &ir.services[g];
            if crate::strutil::str_eq(service.name.canonical.as_str(), "default") {
                services_mod.append("pub mod ");
                services_mod.append(service.name.snake.as_str());
                services_mod.append(";\n");
            } else {
                services_mod.append("#[cfg(feature = \"");
                services_mod.append(service.name.snake.as_str());
                services_mod.append("\")]\npub mod ");
                services_mod.append(service.name.snake.as_str());
                services_mod.append(";\n");
            }
            proof {
                assert(services_mod@ == services_mod_text(ir.services@, g as int + 1));
            }
            g = g + 1;
        }
        let ghost before_fixed = vfs@;
        vfs.add_file(String::from_str("src/services/mod.rs"), services_mod);

        let mut common = String::from_str(
            "//! Types for the common API\n\nuse serde::{Deserialize, Serialize};\n\n",
        );
        let types = ir.types.entries();
        let tn = types.len();
        let ghost common_base = common@;
        let mut t: usize = 0;
        while t < tn
            invariant
                t <= tn,
                common@ == common_base + types_joined(ir.types@, t as int),
            decreases tn - t,
        {
            if t > 0 {
                common.append("\n\n");
            }
            let rendered = render_type(&types[t], ir);
            common.append(rendered.as_str());
            proof {
                assert(common@ == common_base + types_joined(ir.types@, t as int + 1));
            }
            t = t + 1;
        }
        vfs.add_file(String::from_str("src/types/common.rs"), common);
        vfs.add_file(
            String::from_str("src/types/mod.rs"),
            String::from_str("//! API types organized by tag\n\npub mod common;\n"),
        );

        let mut manifest = String::from_str("[package]\nname = \"");
        manifest.append(ir.api.package_name.snake.as_str());
        manifest.append("\"\nversion = \"");
        manifest.append(ir.api.version.as_str());
        manifest.append("\"\nedition = \"2021\"\n\n[dependencies]\naxum = \"0.7\"\nserde = { version = \"1\", features = [\"derive\"] }\nserde_json = \"1\"\ntokio = { version = \"1\", features = [\"full\"] }\n\n[features]\n");
        let ghost manifest_base = manifest@;
        let mut f: usize = 0;
        proof {
            assert(manifest@ == manifest_base + features_text(ir.services@, 0));
        }
        while f < n
            invariant
                f <= n,
                manifest@ == manifest_base + features_text(ir.services@, f as int),
            decreases n - f,
        {
            let service = &ir.services[f];
            if !crate::strutil::str_eq(service.name.canonical.as_str(), "default") {
                manifest.append(service.name.snake.as_str());
                manifest.append(" = []\n");
            }
            proof {
                assert(manifest@ == manifest_base + features_text(ir.services@, f as int + 1));
            }
            f = f + 1;
        }
        proof {
            assert(manifest@ == cargo_toml_text(*ir));
        }
        vfs.add_file(String::from_str("Cargo.toml"), manifest);
        vfs.add_file(
            String::from_str("src/lib.rs"),
            String::from_str("//! Generated Axum API\n\npub mod types;\npub mod services;\n"),
        );

        proof {
            reveal_strlit("src/services/mod.rs");
            reveal_strlit("src/types/common.rs");
            reveal_strlit("src/types/mod.rs");
            reveal_strlit("Cargo.toml");
            reveal_strlit("src/lib.rs");
            assert("src/types/common.rs"@.len() == 19);
            assert("src/types/mod.rs"@.len() == 16);
            assert("Cargo.toml"@.len() == 10);
            assert("src/lib.rs"@.len() == 10);
            assert("src/services/mod.rs"@.len() == 19);
            assert("src/types/common.rs"@ != "src/types/mod.rs"@);
            assert("src/types/common.rs"@ != "Cargo.toml"@);
            assert("src/types/common.rs"@ != "src/lib.rs"@);
            assert("src/types/mod.rs"@ != "Cargo.toml"@);
            assert("src/types/mod.rs"@ != "src/lib.rs"@);
            assert("Cargo.toml"@[0] != "src/lib.rs"@[0]);
            assert("Cargo.toml"@ != "src/lib.rs"@);
            assert("src/services/mod.rs"@[6] != "src/types/common.rs"@[6]);
            assert("src/services/mod.rs"@ != "src/types/common.rs"@);
            assert("src/services/mod.rs"@ != "src/types/mod.rs"@);
            assert("src/services/mod.rs"@ != "Cargo.toml"@);
            assert("src/services/mod.rs"@ != "src/lib.rs"@);
            assert forall|k: int|
                0 <= k < ir.services@.len() && (forall|l: int|
                    k < l < ir.services@.len() ==> service_path(#[trigger] ir.services@[l])
                        != service_path(ir.services@[k])) && ir.services@[k].name.snake@ != "mod"@
                    implies #[trigger] file_find(vfs@, service_path(ir.services@[k])) == Some(
                vstd::utf8::encode_utf8(
                    crate::service_codegen::module_text(ir.services@[k], ir.auth_schemes@),
                ),
            ) by {
                lemma_service_path_distinct(ir.services@[k]);
                assert(service_path(ir.services@[k]) != "src/services/mod.rs"@) by {
                    reveal_strlit("src/services/");
                    reveal_strlit(".rs");
                    reveal_strlit("mod");
                    if service_path(ir.services@[k]) == "src/services/mod.rs"@ {
                        let sp = service_path(ir.services@[k]);
                        let snake = ir.services@[k].name.snake@;
                        assert("src/services/"@.len() == 13);
                        assert(".rs"@.len() == 3);
                        assert(sp.len() == 13 + snake.len() + 3);
                        assert("src/services/mod.rs"@.len() == 19);
                        assert(snake.len() == 3);
                        assert(sp[13] == "src/services/mod.rs"@[13]);
                        assert(sp[14] == "src/services/mod.rs"@[14]);
                        assert(sp[15] == "src/services/mod.rs"@[15]);
                        assert("src/services/mod.rs"@[13] == 'm');
                        assert("src/services/mod.rs"@[14] == 'o');
                        assert("src/services/mod.rs"@[15] == 'd');
                        assert(sp[13] == snake[0]);
                        assert(sp[14] == snake[1]);
                        assert(sp[15] == snake[2]);
                        assert("mod"@.len() == 3);
                        assert("mod"@[0] == 'm' && "mod"@[1] == 'o' && "mod"@[2] == 'd');
                        assert(snake =~= "mod"@);
                    }
                }
            }
        }
        vfs
    }
}


} // verus!
