//! Schema resolution, enum conversion, servers and security schemes.

use genir::document::{
    BoolOrSchema, Components, Document, Flows, ImplicitFlow, Info, JsonLit, Schema, SchemaOrRef,
    SchemaType, SecurityScheme, SecuritySchemeOrRef, Server, TypeSet,
};
use genir::ir::{AuthKind, ApiKeyLocation, GenIr, Literal, StableId, TypeKind};
use genir::resolve::{resolve, ResolveError};

fn base_doc() -> Document {
    Document {
        info: Info {
            title: "Test API".to_string(),
            version: "1.0.0".to_string(),
            description: None,
        },
        servers: Vec::new(),
        paths: Some(Vec::new()),
        components: None,
    }
}

fn typed(t: SchemaType) -> Schema {
    let mut s = Schema::empty();
    s.schema_type = Some(TypeSet::One(t));
    s
}

#[test]
fn test_resolver_follows_component_references() {
    let mut doc = base_doc();
    doc.components = Some(Components {
        schemas: vec![
            (
                "Alias".to_string(),
                SchemaOrRef::Reference("#/components/schemas/Base".to_string()),
            ),
            ("Base".to_string(), SchemaOrRef::Inline(typed(SchemaType::String))),
        ],
        security_schemes: Vec::new(),
    });

    let node = SchemaOrRef::Reference("#/components/schemas/Alias".to_string());
    let resolved = resolve(&doc, &node).expect("reference should resolve");
    assert!(matches!(
        resolved.schema_type,
        Some(TypeSet::One(SchemaType::String))
    ));
}

#[test]
fn test_resolver_reports_each_failure() {
    let mut doc = base_doc();
    doc.components = Some(Components {
        schemas: vec![
            (
                "Loop".to_string(),
                SchemaOrRef::Reference("#/components/schemas/Loop".to_string()),
            ),
        ],
        security_schemes: Vec::new(),
    });

    let missing = SchemaOrRef::Reference("#/components/schemas/Nothing".to_string());
    assert_eq!(resolve(&doc, &missing).unwrap_err(), ResolveError::Missing);

    let malformed = SchemaOrRef::Reference("not a pointer".to_string());
    assert_eq!(
        resolve(&doc, &malformed).unwrap_err(),
        ResolveError::Malformed
    );

    let wrong_kind = SchemaOrRef::Reference("#/components/responses/Ok".to_string());
    assert_eq!(
        resolve(&doc, &wrong_kind).unwrap_err(),
        ResolveError::Malformed
    );

    let circular = SchemaOrRef::Reference("#/components/schemas/Loop".to_string());
    assert_eq!(resolve(&doc, &circular).unwrap_err(), ResolveError::Circular);
}

#[test]
fn test_dangling_component_reference_is_skipped() {
    let mut doc = base_doc();
    doc.components = Some(Components {
        schemas: vec![
            (
                "Broken".to_string(),
                SchemaOrRef::Reference("#/components/schemas/Nowhere".to_string()),
            ),
            ("Pet".to_string(), SchemaOrRef::Inline(typed(SchemaType::Object))),
        ],
        security_schemes: Vec::new(),
    });

    let gen_ir = GenIr::from_document(&doc);
    assert_eq!(gen_ir.types.len(), 1);
    assert!(gen_ir.types.contains_key(&StableId::new("Pet")));
    assert!(!gen_ir.types.contains_key(&StableId::new("Broken")));
}

#[test]
fn test_enum_values_conversion() {
    let mut doc = base_doc();
    let mut status = typed(SchemaType::String);
    status.enum_values = vec![
        JsonLit::Str("active".to_string()),
        JsonLit::Int(42),
        JsonLit::Bool(true),
        JsonLit::Null,
        JsonLit::Float("1.5".to_string()),
    ];
    doc.components = Some(Components {
        schemas: vec![("Status".to_string(), SchemaOrRef::Inline(status))],
        security_schemes: Vec::new(),
    });

    let gen_ir = GenIr::from_document(&doc);
    let decl = gen_ir.types.get(&StableId::new("Status")).unwrap();
    match &decl.kind {
        TypeKind::Enum { base, values } => {
            assert_eq!(*base, genir::ir::Primitive::String);
            assert_eq!(values.len(), 5);
            assert_eq!(values[0].name.canonical, "active");
            assert!(matches!(&values[0].wire, Literal::String(s) if s == "active"));
            assert_eq!(values[1].name.canonical, "Value1");
            assert!(matches!(values[1].wire, Literal::I64(42)));
            assert_eq!(values[2].name.canonical, "Value2");
            assert!(matches!(values[2].wire, Literal::Bool(true)));
            assert_eq!(values[3].name.canonical, "Value3");
            assert!(matches!(values[3].wire, Literal::Null));
            assert_eq!(values[4].name.canonical, "Value4");
            assert!(matches!(&values[4].wire, Literal::F64(s) if s == "1.5"));
        }
        _ => panic!("Expected Enum kind"),
    }
}

#[test]
fn test_decimal_and_binary_formats() {
    let mut doc = base_doc();
    let mut decimal = typed(SchemaType::Number);
    decimal.format = Some("decimal".to_string());
    let mut bytes = typed(SchemaType::String);
    bytes.format = Some("binary".to_string());
    doc.components = Some(Components {
        schemas: vec![
            ("Amount".to_string(), SchemaOrRef::Inline(decimal)),
            ("Blob".to_string(), SchemaOrRef::Inline(bytes)),
        ],
        security_schemes: Vec::new(),
    });

    let gen_ir = GenIr::from_document(&doc);
    match &gen_ir.types.get(&StableId::new("Amount")).unwrap().kind {
        TypeKind::Alias {
            aliased: genir::ir::AliasTarget::Primitive(p),
        } => assert_eq!(*p, genir::ir::Primitive::Decimal),
        _ => panic!("Expected alias"),
    }
    match &gen_ir.types.get(&StableId::new("Blob")).unwrap().kind {
        TypeKind::Alias {
            aliased: genir::ir::AliasTarget::Primitive(p),
        } => assert_eq!(*p, genir::ir::Primitive::Bytes),
        _ => panic!("Expected alias"),
    }
}

#[test]
fn test_servers_become_one_default_set() {
    let mut doc = base_doc();
    doc.servers = vec![
        Server {
            url: "https://api.example.com".to_string(),
            description: None,
        },
        Server {
            url: "https://staging.example.com".to_string(),
            description: None,
        },
    ];

    let gen_ir = GenIr::from_document(&doc);
    assert_eq!(gen_ir.server_sets.len(), 1);
    let set = &gen_ir.server_sets[0];
    assert_eq!(set.name.canonical, "default");
    assert_eq!(set.urls.len(), 2);
    assert_eq!(set.urls[0].template, "https://api.example.com");
    assert_eq!(set.urls[1].template, "https://staging.example.com");

    let bare = GenIr::from_document(&base_doc());
    assert!(bare.server_sets.is_empty());
}

#[test]
fn test_security_schemes_conversion() {
    let mut doc = base_doc();
    doc.components = Some(Components {
        schemas: Vec::new(),
        security_schemes: vec![
            (
                "apiKey".to_string(),
                SecuritySchemeOrRef::Inline(SecurityScheme::ApiKey {
                    name: "X-Key".to_string(),
                    location: "query".to_string(),
                    description: Some("Key auth".to_string()),
                }),
            ),
            (
                "bearer".to_string(),
                SecuritySchemeOrRef::Inline(SecurityScheme::Http {
                    scheme: "bearer".to_string(),
                    bearer_format: Some("JWT".to_string()),
                    description: None,
                }),
            ),
            (
                "mtls".to_string(),
                SecuritySchemeOrRef::Inline(SecurityScheme::MutualTls { description: None }),
            ),
            (
                "oauth".to_string(),
                SecuritySchemeOrRef::Inline(SecurityScheme::OAuth2 {
                    flows: Flows {
                        implicit: Some(ImplicitFlow {
                            authorization_url: "https://auth.example.com".to_string(),
                            refresh_url: None,
                            scopes: vec![("read".to_string(), "Read access".to_string())],
                        }),
                        password: None,
                        client_credentials: None,
                        authorization_code: None,
                    },
                    description: None,
                }),
            ),
        ],
    });

    let gen_ir = GenIr::from_document(&doc);
    // MutualTls is skipped.
    assert_eq!(gen_ir.auth_schemes.len(), 3);

    let api_key = &gen_ir.auth_schemes[0];
    assert_eq!(api_key.id.0, "apiKey");
    match &api_key.kind {
        AuthKind::ApiKey {
            location,
            param_name,
        } => {
            assert_eq!(*location, ApiKeyLocation::Query);
            assert_eq!(param_name, "X-Key");
        }
        _ => panic!("Expected ApiKey kind"),
    }
    assert_eq!(api_key.docs.description, Some("Key auth".to_string()));

    match &gen_ir.auth_schemes[1].kind {
        AuthKind::Http {
            scheme,
            bearer_format,
        } => {
            assert_eq!(scheme, "bearer");
            assert_eq!(bearer_format.as_deref(), Some("JWT"));
        }
        _ => panic!("Expected Http kind"),
    }

    match &gen_ir.auth_schemes[2].kind {
        AuthKind::OAuth2 { flows } => {
            assert_eq!(flows.len(), 1);
            assert_eq!(
                flows[0].authorization_url.as_deref(),
                Some("https://auth.example.com")
            );
            assert_eq!(flows[0].scopes.len(), 1);
            assert_eq!(flows[0].scopes[0].name, "read");
        }
        _ => panic!("Expected OAuth2 kind"),
    }
}

#[test]
fn test_null_and_unconstrained_schemas() {
    let mut doc = base_doc();
    doc.components = Some(Components {
        schemas: vec![
            ("Anything".to_string(), SchemaOrRef::Inline(Schema::empty())),
            ("Nothing".to_string(), SchemaOrRef::Inline(typed(SchemaType::Null))),
        ],
        security_schemes: Vec::new(),
    });

    let gen_ir = GenIr::from_document(&doc);
    match &gen_ir.types.get(&StableId::new("Anything")).unwrap().kind {
        TypeKind::Struct {
            fields, additional, ..
        } => {
            assert!(fields.is_empty());
            assert_eq!(*additional, genir::ir::Additional::Any);
        }
        _ => panic!("Expected empty struct"),
    }
    match &gen_ir.types.get(&StableId::new("Nothing")).unwrap().kind {
        TypeKind::Struct {
            fields, additional, ..
        } => {
            assert!(fields.is_empty());
            assert_eq!(*additional, genir::ir::Additional::Forbidden);
        }
        _ => panic!("Expected empty struct"),
    }
}

#[test]
fn test_additional_properties_false_is_forbidden() {
    let mut doc = base_doc();
    let mut closed = typed(SchemaType::Object);
    closed.properties = vec![(
        "id".to_string(),
        SchemaOrRef::Inline(typed(SchemaType::String)),
    )];
    closed.additional_properties = Some(BoolOrSchema::Boolean(false));
    let mut open = typed(SchemaType::Object);
    open.properties = vec![(
        "id".to_string(),
        SchemaOrRef::Inline(typed(SchemaType::String)),
    )];
    open.additional_properties = Some(BoolOrSchema::Boolean(true));
    doc.components = Some(Components {
        schemas: vec![
            ("Closed".to_string(), SchemaOrRef::Inline(closed)),
            ("Open".to_string(), SchemaOrRef::Inline(open)),
        ],
        security_schemes: Vec::new(),
    });

    let gen_ir = GenIr::from_document(&doc);
    match &gen_ir.types.get(&StableId::new("Closed")).unwrap().kind {
        TypeKind::Struct { additional, .. } => {
            assert_eq!(*additional, genir::ir::Additional::Forbidden)
        }
        _ => panic!("Expected struct"),
    }
    match &gen_ir.types.get(&StableId::new("Open")).unwrap().kind {
        TypeKind::Struct { additional, .. } => {
            assert_eq!(*additional, genir::ir::Additional::Any)
        }
        _ => panic!("Expected struct"),
    }
}

#[test]
fn test_array_component_becomes_list_alias() {
    let mut doc = base_doc();
    let mut arr = typed(SchemaType::Array);
    arr.items = Some(BoolOrSchema::Node(Box::new(SchemaOrRef::Reference(
        "#/components/schemas/Pet".to_string(),
    ))));
    doc.components = Some(Components {
        schemas: vec![
            ("PetList".to_string(), SchemaOrRef::Inline(arr)),
            ("Pet".to_string(), SchemaOrRef::Inline(typed(SchemaType::Object))),
        ],
        security_schemes: Vec::new(),
    });

    let gen_ir = GenIr::from_document(&doc);
    match &gen_ir.types.get(&StableId::new("PetList")).unwrap().kind {
        TypeKind::Alias {
            aliased: genir::ir::AliasTarget::Composite(genir::ir::Composite::List(inner)),
        } => {
            assert_eq!(inner.target.0, "Pet");
        }
        _ => panic!("Expected list alias"),
    }
}
