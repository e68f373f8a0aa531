//! The document-to-IR build: metadata, named types, primitives, service
//! grouping, HTTP methods and idempotency.

use genir::document::{
    Components, Document, Info, OperationObject, PathItem, Response, ResponseOrRef, Schema,
    SchemaOrRef, SchemaType, TypeSet,
};
use genir::ir::{AliasTarget, Additional, GenIr, HttpMethod, Primitive, StableId, TypeKind};

fn base_doc() -> Document {
    Document {
        info: Info {
            title: "Test API".to_string(),
            version: "1.0.0".to_string(),
            description: None,
        },
        servers: Vec::new(),
        paths: Some(Vec::new()),
        components: None,
    }
}

fn object_schema(description: &str) -> Schema {
    let mut s = Schema::empty();
    s.schema_type = Some(TypeSet::One(SchemaType::Object));
    s.description = Some(description.to_string());
    s
}

fn typed_schema(t: SchemaType, format: Option<&str>) -> Schema {
    let mut s = Schema::empty();
    s.schema_type = Some(TypeSet::One(t));
    s.format = format.map(|f| f.to_string());
    s
}

fn success_op(id: &str, tags: &[&str], status: &str) -> OperationObject {
    let mut op = OperationObject::empty();
    op.operation_id = Some(id.to_string());
    op.tags = tags.iter().map(|t| t.to_string()).collect();
    op.responses = Some(vec![(
        status.to_string(),
        ResponseOrRef::Inline(Response {
            description: Some("Success".to_string()),
            content: Vec::new(),
        }),
    )]);
    op
}

#[test]
fn test_from_openapi() {
    let mut doc = base_doc();
    doc.info.description = Some("A test API".to_string());

    let gen_ir = GenIr::from_document(&doc);

    assert_eq!(gen_ir.api.title, "Test API");
    assert_eq!(gen_ir.api.version, "1.0.0");
    assert_eq!(gen_ir.api.package_name.canonical, "Test API");
    assert_eq!(gen_ir.api.package_name.snake, "test_api");
    assert_eq!(gen_ir.api.package_name.pascal, "TestApi");
}

#[test]
fn lib_test_from_openapi() {
    let mut doc = base_doc();
    doc.info.description = Some("A test API".to_string());

    let gen_ir = GenIr::from_document(&doc);

    assert_eq!(gen_ir.api.title, "Test API");
    assert_eq!(gen_ir.api.version, "1.0.0");
    assert_eq!(gen_ir.api.package_name.canonical, "Test API");
    assert_eq!(gen_ir.api.package_name.snake, "test_api");
    assert_eq!(gen_ir.api.package_name.pascal, "TestApi");
}

fn disambiguation_doc() -> Document {
    let mut doc = base_doc();
    doc.components = Some(Components {
        schemas: vec![
            (
                "USER".to_string(),
                SchemaOrRef::Inline(object_schema("Uppercase user type")),
            ),
            (
                "User".to_string(),
                SchemaOrRef::Inline(object_schema("Main user type")),
            ),
            (
                "user".to_string(),
                SchemaOrRef::Inline(object_schema("Lowercase user type")),
            ),
        ],
        security_schemes: Vec::new(),
    });
    doc
}

#[test]
fn test_name_disambiguation() {
    let gen_ir = GenIr::from_document(&disambiguation_doc());

    assert_eq!(gen_ir.types.len(), 3);

    let user_id = StableId::new("User");
    let user_lower_id = StableId::new("user");
    let user_upper_id = StableId::new("USER");

    assert!(gen_ir.types.contains_key(&user_id));
    assert!(gen_ir.types.contains_key(&user_lower_id));
    assert!(gen_ir.types.contains_key(&user_upper_id));

    assert_eq!(
        gen_ir.types.get(&user_id).unwrap().docs.description,
        Some("Main user type".to_string())
    );
    assert_eq!(
        gen_ir.types.get(&user_lower_id).unwrap().docs.description,
        Some("Lowercase user type".to_string())
    );
    assert_eq!(
        gen_ir.types.get(&user_upper_id).unwrap().docs.description,
        Some("Uppercase user type".to_string())
    );
}

#[test]
fn lib_test_name_disambiguation() {
    let gen_ir = GenIr::from_document(&disambiguation_doc());

    assert_eq!(gen_ir.types.len(), 3);
    assert!(gen_ir.types.contains_key(&StableId::new("User")));
    assert!(gen_ir.types.contains_key(&StableId::new("user")));
    assert!(gen_ir.types.contains_key(&StableId::new("USER")));
    assert_eq!(
        gen_ir
            .types
            .get(&StableId::new("User"))
            .unwrap()
            .docs
            .description,
        Some("Main user type".to_string())
    );
}

fn three_empty_objects(a: &str, b: &str, c: &str) -> Document {
    let mut doc = base_doc();
    let mut names = vec![a.to_string(), b.to_string(), c.to_string()];
    names.sort();
    doc.components = Some(Components {
        schemas: names
            .into_iter()
            .map(|n| {
                let d = format!("{} type", n);
                (n, SchemaOrRef::Inline(object_schema(&d)))
            })
            .collect(),
        security_schemes: Vec::new(),
    });
    doc
}

#[test]
fn test_nested_references() {
    let gen_ir = GenIr::from_document(&three_empty_objects("Address", "Person", "Company"));

    assert_eq!(gen_ir.types.len(), 3);

    assert!(gen_ir.types.contains_key(&StableId::new("Address")));
    assert!(gen_ir.types.contains_key(&StableId::new("Person")));
    assert!(gen_ir.types.contains_key(&StableId::new("Company")));

    for type_decl in gen_ir.types.entries() {
        match &type_decl.kind {
            TypeKind::Struct {
                fields,
                additional,
                discriminator,
            } => {
                assert_eq!(fields.len(), 0);
                assert!(matches!(additional, Additional::Any));
                assert!(discriminator.is_none());
            }
            _ => panic!("Expected Struct type"),
        }
    }
}

#[test]
fn lib_test_nested_references() {
    let gen_ir = GenIr::from_document(&three_empty_objects("Address", "Person", "Company"));
    assert_eq!(gen_ir.types.len(), 3);
    for type_decl in gen_ir.types.entries() {
        assert!(matches!(type_decl.kind, TypeKind::Struct { .. }));
    }
}

#[test]
fn test_discriminated_union_structure() {
    let gen_ir = GenIr::from_document(&three_empty_objects("Cat", "Dog", "Bird"));

    assert_eq!(gen_ir.types.len(), 3);

    assert!(gen_ir.types.contains_key(&StableId::new("Cat")));
    assert!(gen_ir.types.contains_key(&StableId::new("Dog")));
    assert!(gen_ir.types.contains_key(&StableId::new("Bird")));
}

#[test]
fn lib_test_discriminated_union_structure() {
    let gen_ir = GenIr::from_document(&three_empty_objects("Cat", "Dog", "Bird"));
    assert_eq!(gen_ir.types.len(), 3);
    assert!(gen_ir.types.contains_key(&StableId::new("Bird")));
}

fn primitives_doc() -> Document {
    let mut doc = base_doc();
    doc.components = Some(Components {
        schemas: vec![
            (
                "BoolType".to_string(),
                SchemaOrRef::Inline(typed_schema(SchemaType::Boolean, None)),
            ),
            (
                "DateTimeType".to_string(),
                SchemaOrRef::Inline(typed_schema(SchemaType::String, Some("date-time"))),
            ),
            (
                "DateType".to_string(),
                SchemaOrRef::Inline(typed_schema(SchemaType::String, Some("date"))),
            ),
            (
                "DoubleType".to_string(),
                SchemaOrRef::Inline(typed_schema(SchemaType::Number, Some("double"))),
            ),
            (
                "FloatType".to_string(),
                SchemaOrRef::Inline(typed_schema(SchemaType::Number, Some("float"))),
            ),
            (
                "Int64Type".to_string(),
                SchemaOrRef::Inline(typed_schema(SchemaType::Integer, Some("int64"))),
            ),
            (
                "IntType".to_string(),
                SchemaOrRef::Inline(typed_schema(SchemaType::Integer, None)),
            ),
            (
                "StringType".to_string(),
                SchemaOrRef::Inline(typed_schema(SchemaType::String, None)),
            ),
            (
                "UuidType".to_string(),
                SchemaOrRef::Inline(typed_schema(SchemaType::String, Some("uuid"))),
            ),
        ],
        security_schemes: Vec::new(),
    });
    doc
}

fn assert_primitive_alias(gen_ir: &GenIr, name: &str, expected: Primitive, message: &str) {
    let decl = gen_ir.types.get(&StableId::new(name)).unwrap();
    match &decl.kind {
        TypeKind::Alias {
            aliased: AliasTarget::Primitive(p),
        } if *p == expected => {}
        _ => panic!("{}", message),
    }
}

#[test]
fn test_primitive_type_conversion() {
    let gen_ir = GenIr::from_document(&primitives_doc());

    assert_eq!(gen_ir.types.len(), 9);

    assert_primitive_alias(
        &gen_ir,
        "StringType",
        Primitive::String,
        "Expected String primitive alias",
    );
    assert_primitive_alias(
        &gen_ir,
        "DateType",
        Primitive::Date,
        "Expected Date primitive alias",
    );
    assert_primitive_alias(
        &gen_ir,
        "DateTimeType",
        Primitive::DateTime,
        "Expected DateTime primitive alias",
    );
    assert_primitive_alias(
        &gen_ir,
        "UuidType",
        Primitive::Uuid,
        "Expected Uuid primitive alias",
    );
    assert_primitive_alias(
        &gen_ir,
        "IntType",
        Primitive::I32,
        "Expected I32 primitive alias",
    );
    assert_primitive_alias(
        &gen_ir,
        "Int64Type",
        Primitive::I64,
        "Expected I64 primitive alias",
    );
    assert_primitive_alias(
        &gen_ir,
        "DoubleType",
        Primitive::F64,
        "Expected F64 primitive alias",
    );
    assert_primitive_alias(
        &gen_ir,
        "BoolType",
        Primitive::Bool,
        "Expected Bool primitive alias",
    );
}

#[test]
fn lib_test_primitive_type_conversion() {
    let gen_ir = GenIr::from_document(&primitives_doc());
    assert_eq!(gen_ir.types.len(), 9);
    assert_primitive_alias(
        &gen_ir,
        "FloatType",
        Primitive::F32,
        "Expected F32 primitive alias",
    );
    assert_primitive_alias(
        &gen_ir,
        "DoubleType",
        Primitive::F64,
        "Expected F64 primitive alias",
    );
}

fn grouping_doc() -> Document {
    let mut doc = base_doc();
    let mut users_item = PathItem::empty();
    users_item.get = Some(success_op("listUsers", &["Users"], "200"));
    let mut user_item = PathItem::empty();
    user_item.get = Some(success_op("getUser", &["Users"], "200"));
    let mut products_item = PathItem::empty();
    products_item.get = Some(success_op("listProducts", &["Products"], "200"));
    doc.paths = Some(vec![
        ("/products".to_string(), products_item),
        ("/users".to_string(), users_item),
        ("/users/{id}".to_string(), user_item),
    ]);
    doc
}

#[test]
fn test_service_grouping_by_tags() {
    let gen_ir = GenIr::from_document(&grouping_doc());

    assert_eq!(gen_ir.services.len(), 2);

    let users_service = gen_ir
        .services
        .iter()
        .find(|s| s.name.canonical == "Users")
        .expect("Users service not found");

    assert_eq!(users_service.operations.len(), 2);
    assert!(users_service
        .operations
        .iter()
        .any(|op| op.name.canonical == "listUsers"));
    assert!(users_service
        .operations
        .iter()
        .any(|op| op.name.canonical == "getUser"));

    let products_service = gen_ir
        .services
        .iter()
        .find(|s| s.name.canonical == "Products")
        .expect("Products service not found");

    assert_eq!(products_service.operations.len(), 1);
    assert_eq!(products_service.operations[0].name.canonical, "listProducts");
}

#[test]
fn lib_test_service_grouping_by_tags() {
    let gen_ir = GenIr::from_document(&grouping_doc());
    assert_eq!(gen_ir.services.len(), 2);
    // Services come out sorted by tag.
    assert_eq!(gen_ir.services[0].name.canonical, "Products");
    assert_eq!(gen_ir.services[1].name.canonical, "Users");
}

fn methods_doc(with_head_options: bool) -> Document {
    let mut doc = base_doc();
    let mut item = PathItem::empty();
    item.get = Some(success_op("getResource", &[], "200"));
    item.post = Some(success_op("createResource", &[], "201"));
    item.put = Some(success_op("updateResource", &[], "200"));
    item.delete = Some(success_op("deleteResource", &[], "204"));
    item.patch = Some(success_op("patchResource", &[], "200"));
    if with_head_options {
        item.head = Some(success_op("headResource", &[], "200"));
        item.options = Some(success_op("optionsResource", &[], "200"));
    }
    doc.paths = Some(vec![("/resource".to_string(), item)]);
    doc
}

#[test]
fn test_http_method_conversion() {
    let gen_ir = GenIr::from_document(&methods_doc(true));

    assert_eq!(gen_ir.services.len(), 1);
    let service = &gen_ir.services[0];
    assert_eq!(service.operations.len(), 7);

    let methods = vec![
        ("getResource", HttpMethod::Get),
        ("createResource", HttpMethod::Post),
        ("updateResource", HttpMethod::Put),
        ("deleteResource", HttpMethod::Delete),
        ("patchResource", HttpMethod::Patch),
        ("headResource", HttpMethod::Head),
        ("optionsResource", HttpMethod::Options),
    ];

    for (op_id, expected_method) in methods {
        let op = service
            .operations
            .iter()
            .find(|o| o.name.canonical == op_id)
            .unwrap_or_else(|| panic!("Operation {} not found", op_id));

        assert_eq!(op.http.method, expected_method);
    }
}

#[test]
fn lib_test_http_method_conversion() {
    let gen_ir = GenIr::from_document(&methods_doc(true));
    let service = &gen_ir.services[0];
    assert_eq!(service.operations.len(), 7);
}

#[test]
fn test_idempotent_operations() {
    let gen_ir = GenIr::from_document(&methods_doc(false));

    let service = &gen_ir.services[0];

    let get_op = service
        .operations
        .iter()
        .find(|o| o.name.canonical == "getResource")
        .unwrap();
    assert!(get_op.idempotent);

    let put_op = service
        .operations
        .iter()
        .find(|o| o.name.canonical == "updateResource")
        .unwrap();
    assert!(put_op.idempotent);

    let delete_op = service
        .operations
        .iter()
        .find(|o| o.name.canonical == "deleteResource")
        .unwrap();
    assert!(delete_op.idempotent);

    let post_op = service
        .operations
        .iter()
        .find(|o| o.name.canonical == "createResource")
        .unwrap();
    assert!(!post_op.idempotent);

    let patch_op = service
        .operations
        .iter()
        .find(|o| o.name.canonical == "patchResource")
        .unwrap();
    assert!(!patch_op.idempotent);
}

#[test]
fn lib_test_idempotent_operations() {
    let gen_ir = GenIr::from_document(&methods_doc(false));
    let service = &gen_ir.services[0];
    for op in &service.operations {
        let expected = matches!(
            op.http.method,
            HttpMethod::Get | HttpMethod::Put | HttpMethod::Delete
        );
        assert_eq!(op.idempotent, expected);
    }
}

#[test]
fn test_untagged_operations_group_under_default() {
    let gen_ir = GenIr::from_document(&methods_doc(false));
    assert_eq!(gen_ir.services.len(), 1);
    assert_eq!(gen_ir.services[0].name.canonical, "default");
}

#[test]
fn test_default_operation_id_from_method_and_path() {
    let mut doc = base_doc();
    let mut item = PathItem::empty();
    item.get = Some({
        let mut op = OperationObject::empty();
        op.responses = Some(vec![(
            "200".to_string(),
            ResponseOrRef::Inline(Response {
                description: Some("Success".to_string()),
                content: Vec::new(),
            }),
        )]);
        op
    });
    doc.paths = Some(vec![("/pets/{id}".to_string(), item)]);

    let gen_ir = GenIr::from_document(&doc);
    let op = &gen_ir.services[0].operations[0];
    assert_eq!(op.id.0, "get__pets_{id}");
    assert_eq!(op.http.path_template, "/pets/{id}");
}

#[test]
fn test_success_payload_smallest_2xx_and_status() {
    let mut doc = base_doc();
    let mut item = PathItem::empty();
    let mut op = OperationObject::empty();
    op.operation_id = Some("probe".to_string());
    op.responses = Some(vec![
        (
            "404".to_string(),
            ResponseOrRef::Inline(Response {
                description: Some("Missing".to_string()),
                content: Vec::new(),
            }),
        ),
        (
            "204".to_string(),
            ResponseOrRef::Inline(Response {
                description: Some("No Content".to_string()),
                content: Vec::new(),
            }),
        ),
        (
            "200".to_string(),
            ResponseOrRef::Inline(Response {
                description: Some("Late".to_string()),
                content: Vec::new(),
            }),
        ),
    ]);
    item.delete = Some(op);
    doc.paths = Some(vec![("/things".to_string(), item)]);

    let gen_ir = GenIr::from_document(&doc);
    let converted = &gen_ir.services[0].operations[0];
    let payload = converted.success.as_ref().expect("success payload");
    // The numerically smallest declared 2xx wins, whatever the table order.
    assert_eq!(payload.status, genir::ir::StatusSpec::Code(200));
    assert!(payload.ty.is_none());
    assert!(payload.content_type.is_none());
}
