//! The virtual file system, and a small generator walk that renders the
//! type registry into it.

use genir::ir::{
    Additional, ApiMeta, Docs, Field, GenIr, Literal, StableId, TypeDecl, TypeKind, TypeRef,
    TypeRegistry,
};
use genir::naming::CanonicalName;
use genir::vfs::VirtualFS;

#[test]
fn test_vfs_add_and_get() {
    let mut vfs = VirtualFS::new();
    assert!(vfs.is_empty());
    assert_eq!(vfs.len(), 0);

    vfs.add_file("src/lib.rs".to_string(), "hello".to_string());
    assert!(!vfs.is_empty());
    assert_eq!(vfs.len(), 1);
    assert!(vfs.contains("src/lib.rs"));
    assert!(!vfs.contains("src/main.rs"));

    let text = vfs.get_file_str("src/lib.rs").unwrap().unwrap();
    assert_eq!(text, "hello");
    assert_eq!(vfs.get_file("src/lib.rs").unwrap(), b"hello");
    assert!(vfs.get_file("absent").is_none());
    assert!(vfs.get_file_str("absent").is_none());
}

#[test]
fn test_vfs_replaces_existing_path() {
    let mut vfs = VirtualFS::new();
    vfs.add_file("a.txt".to_string(), "one".to_string());
    vfs.add_file("b.txt".to_string(), "keep".to_string());
    vfs.add_file("a.txt".to_string(), "two".to_string());

    assert_eq!(vfs.len(), 2);
    assert_eq!(vfs.get_file_str("a.txt").unwrap().unwrap(), "two");
    assert_eq!(vfs.get_file_str("b.txt").unwrap().unwrap(), "keep");
}

#[test]
fn test_vfs_binary_round_trip() {
    let mut vfs = VirtualFS::new();
    vfs.add_binary("blob.bin".to_string(), vec![0u8, 159, 146, 150]);
    assert_eq!(vfs.get_file("blob.bin").unwrap(), &[0u8, 159, 146, 150][..]);
    // Not valid UTF-8: the text accessor reports the error.
    assert!(vfs.get_file_str("blob.bin").unwrap().is_err());
    let files = vfs.files();
    assert_eq!(files.len(), 1);
    assert_eq!(files[0].0, "blob.bin");
}

fn plain_ref(target: &str) -> TypeRef {
    TypeRef {
        target: StableId::new(target),
        optional: false,
        nullable: false,
        by_ref: false,
        modifiers: vec![],
    }
}

fn field(name: &str, target: &str, const_value: Option<Literal>) -> Field {
    Field {
        name: CanonicalName::from_string(name),
        docs: Docs::empty(),
        ty: plain_ref(target),
        default: None,
        deprecated: false,
        const_value,
        wire_name: name.to_string(),
    }
}

/// Renders every struct type and its const fields into one listing, as a
/// minimal generator would.
fn render_types(ir: &GenIr, vfs: &mut VirtualFS) {
    let mut output = String::new();
    output.push_str("# Generated Types\n\n");

    for type_decl in ir.types.entries() {
        output.push_str(&format!(
            "## Type: {} ({})\n",
            type_decl.name.pascal, type_decl.id.0
        ));

        if let TypeKind::Struct { fields, .. } = &type_decl.kind {
            for f in fields {
                output.push_str(&format!("- {}: {}", f.name.camel, f.ty.target.0));

                if let Some(const_val) = &f.const_value {
                    output.push_str(&format!(" = const {:?}", const_val));
                }

                output.push('\n');
            }
        }

        output.push('\n');
    }

    vfs.add_file("types.txt".to_string(), output);
}

#[test]
fn test_generator_with_const_fields() {
    let mut types = TypeRegistry::new();

    let pet_type = TypeDecl {
        id: StableId::new("Pet"),
        name: CanonicalName::from_string("Pet"),
        docs: Docs::empty(),
        kind: TypeKind::Struct {
            fields: vec![
                field(
                    "type",
                    "String",
                    Some(Literal::String("pet".to_string())),
                ),
                field("name", "String", None),
                field("active", "Boolean", Some(Literal::Bool(true))),
            ],
            additional: Additional::Forbidden,
            discriminator: None,
        },
        origin: None,
    };

    types.insert(pet_type);

    let gen_ir = GenIr {
        api: ApiMeta {
            title: "Test API".to_string(),
            version: "1.0.0".to_string(),
            package_name: CanonicalName::from_string("test-api"),
            docs: Docs::empty(),
        },
        types,
        services: vec![],
        auth_schemes: vec![],
        errors: vec![],
        server_sets: vec![],
    };

    let mut vfs = VirtualFS::new();
    render_types(&gen_ir, &mut vfs);

    let content = vfs.get_file_str("types.txt").unwrap().unwrap();

    assert!(content.contains("Type: Pet"));
    assert!(content.contains("type: String = const String(\"pet\")"));
    assert!(content.contains("name: String\n"));
    assert!(content.contains("active: Boolean = const Bool(true)"));
}
