//! Inline-schema hoisting: promotion to named types, structural
//! deduplication, nested property naming, name collisions and the bare
//! object that is never hoisted.

use genir::document::{
    BoolOrSchema, Components, Document, Info, MediaType, OperationObject, PathItem, RequestBody,
    RequestBodyOrRef, Response, ResponseOrRef, Schema, SchemaOrRef, SchemaType, TypeSet,
};
use genir::ir::{GenIr, StableId, TypeKind, TypeOrigin};

fn base_doc() -> Document {
    Document {
        info: Info {
            title: "Test API".to_string(),
            version: "1.0.0".to_string(),
            description: None,
        },
        servers: Vec::new(),
        paths: Some(Vec::new()),
        components: None,
    }
}

fn typed(t: SchemaType) -> Schema {
    let mut s = Schema::empty();
    s.schema_type = Some(TypeSet::One(t));
    s
}

fn object_with(properties: Vec<(&str, Schema)>, required: &[&str]) -> Schema {
    let mut s = typed(SchemaType::Object);
    s.properties = properties
        .into_iter()
        .map(|(n, p)| (n.to_string(), SchemaOrRef::Inline(p)))
        .collect();
    s.required = required.iter().map(|r| r.to_string()).collect();
    s
}

fn post_with_body(op_id: &str, body_schema: Schema) -> PathItem {
    let mut op = OperationObject::empty();
    op.operation_id = Some(op_id.to_string());
    op.request_body = Some(RequestBodyOrRef::Inline(RequestBody {
        description: None,
        required: None,
        content: vec![(
            "application/json".to_string(),
            MediaType {
                schema: Some(SchemaOrRef::Inline(body_schema)),
            },
        )],
    }));
    op.responses = Some(vec![(
        "201".to_string(),
        ResponseOrRef::Inline(Response {
            description: Some("Created".to_string()),
            content: Vec::new(),
        }),
    )]);
    let mut item = PathItem::empty();
    item.post = Some(op);
    item
}

#[test]
fn test_inline_schema_hoisting_request_body() {
    let mut doc = base_doc();
    let body = object_with(
        vec![
            ("name", typed(SchemaType::String)),
            ("age", typed(SchemaType::Integer)),
        ],
        &["name"],
    );
    doc.paths = Some(vec![("/test".to_string(), post_with_body("createTest", body))]);

    let gen_ir = GenIr::from_document(&doc);

    let request_type_id = StableId::new("CreateTestRequest");
    assert!(
        gen_ir.types.contains_key(&request_type_id),
        "CreateTestRequest type should be generated"
    );

    let request_type = gen_ir.types.get(&request_type_id).unwrap();
    match &request_type.kind {
        TypeKind::Struct { fields, .. } => {
            assert_eq!(fields.len(), 2);
            assert!(fields.iter().any(|f| f.name.canonical == "name"));
            assert!(fields.iter().any(|f| f.name.canonical == "age"));

            let name_field = fields.iter().find(|f| f.name.canonical == "name").unwrap();
            assert!(!name_field.ty.optional);

            let age_field = fields.iter().find(|f| f.name.canonical == "age").unwrap();
            assert!(age_field.ty.optional);
        }
        _ => panic!("Expected Struct type"),
    }

    let op = &gen_ir.services[0].operations[0];
    let body_type = op.http.body.as_ref().unwrap().variants[0].ty.target.clone();
    assert_eq!(body_type, request_type_id);
}

#[test]
fn test_inline_schema_hoisting_response() {
    let mut doc = base_doc();
    let mut users_array = typed(SchemaType::Array);
    users_array.items = Some(BoolOrSchema::Node(Box::new(SchemaOrRef::Inline(typed(
        SchemaType::String,
    )))));
    let payload = object_with(
        vec![("users", users_array), ("total", typed(SchemaType::Integer))],
        &[],
    );
    let mut op = OperationObject::empty();
    op.operation_id = Some("listUsers".to_string());
    op.responses = Some(vec![(
        "200".to_string(),
        ResponseOrRef::Inline(Response {
            description: Some("Success".to_string()),
            content: vec![(
                "application/json".to_string(),
                MediaType {
                    schema: Some(SchemaOrRef::Inline(payload)),
                },
            )],
        }),
    )]);
    let mut item = PathItem::empty();
    item.get = Some(op);
    doc.paths = Some(vec![("/users".to_string(), item)]);

    let gen_ir = GenIr::from_document(&doc);

    let response_type_id = StableId::new("ListUsersResponse");
    assert!(
        gen_ir.types.contains_key(&response_type_id),
        "ListUsersResponse type should be generated"
    );

    let response_type = gen_ir.types.get(&response_type_id).unwrap();
    match &response_type.kind {
        TypeKind::Struct { fields, .. } => {
            assert_eq!(fields.len(), 2);
            assert!(fields.iter().any(|f| f.name.canonical == "users"));
            assert!(fields.iter().any(|f| f.name.canonical == "total"));
        }
        _ => panic!("Expected Struct type"),
    }

    let op = &gen_ir.services[0].operations[0];
    let payload_type = op
        .success
        .as_ref()
        .unwrap()
        .ty
        .as_ref()
        .unwrap()
        .target
        .clone();
    assert_eq!(payload_type, response_type_id);
}

#[test]
fn test_inline_schema_hoisting_nested_properties() {
    let mut doc = base_doc();
    let settings = object_with(
        vec![
            ("theme", typed(SchemaType::String)),
            ("notifications", typed(SchemaType::Boolean)),
        ],
        &[],
    );
    let body = object_with(
        vec![("name", typed(SchemaType::String)), ("settings", settings)],
        &[],
    );
    doc.paths = Some(vec![(
        "/accounts".to_string(),
        post_with_body("createAccount", body),
    )]);

    let gen_ir = GenIr::from_document(&doc);

    let request_type_id = StableId::new("CreateAccountRequest");
    let settings_type_id = StableId::new("CreateAccountRequestSettings");

    assert!(
        gen_ir.types.contains_key(&request_type_id),
        "CreateAccountRequest type should be generated"
    );
    assert!(
        gen_ir.types.contains_key(&settings_type_id),
        "CreateAccountRequestSettings type should be generated for nested object"
    );

    let settings_type = gen_ir.types.get(&settings_type_id).unwrap();
    match &settings_type.kind {
        TypeKind::Struct { fields, .. } => {
            assert_eq!(fields.len(), 2);
            assert!(fields.iter().any(|f| f.name.canonical == "theme"));
            assert!(fields.iter().any(|f| f.name.canonical == "notifications"));
        }
        _ => panic!("Expected Struct type for settings"),
    }

    let request_type = gen_ir.types.get(&request_type_id).unwrap();
    match &request_type.kind {
        TypeKind::Struct { fields, .. } => {
            let settings_field = fields
                .iter()
                .find(|f| f.name.canonical == "settings")
                .unwrap();
            assert_eq!(settings_field.ty.target, settings_type_id);
        }
        _ => panic!("Expected Struct type for request"),
    }
}

#[test]
fn test_inline_schema_deduplication() {
    let mut doc = base_doc();
    let body_a = object_with(vec![("name", typed(SchemaType::String))], &[]);
    let body_b = object_with(vec![("name", typed(SchemaType::String))], &[]);
    doc.paths = Some(vec![
        (
            "/accounts".to_string(),
            post_with_body("createAccount", body_b),
        ),
        ("/users".to_string(), post_with_body("createUser", body_a)),
    ]);

    let gen_ir = GenIr::from_document(&doc);

    let user_op = gen_ir.services[0]
        .operations
        .iter()
        .find(|o| o.name.canonical == "createUser")
        .unwrap();
    let account_op = gen_ir.services[0]
        .operations
        .iter()
        .find(|o| o.name.canonical == "createAccount")
        .unwrap();

    let user_body_type = user_op.http.body.as_ref().unwrap().variants[0]
        .ty
        .target
        .clone();
    let account_body_type = account_op.http.body.as_ref().unwrap().variants[0]
        .ty
        .target
        .clone();

    assert_eq!(user_body_type, account_body_type);
}

#[test]
fn test_inline_schema_name_collision_handling() {
    let mut doc = base_doc();
    doc.components = Some(Components {
        schemas: vec![(
            "CreateTestRequest".to_string(),
            SchemaOrRef::Inline({
                let mut s = typed(SchemaType::Object);
                s.description = Some("Pre-existing type with the same name".to_string());
                s
            }),
        )],
        security_schemes: Vec::new(),
    });

    let gen_ir = GenIr::from_document(&doc);

    let existing_type_id = StableId::new("CreateTestRequest");
    assert!(gen_ir.types.contains_key(&existing_type_id));
}

#[test]
fn test_preempted_inline_name_gets_suffix() {
    // An inline body under operation `createTest` wants the name
    // `CreateTestRequest`, but a component already owns it: the hoisted type
    // must come out as `CreateTestRequest_2` and the component must survive
    // untouched.
    let mut doc = base_doc();
    doc.components = Some(Components {
        schemas: vec![(
            "CreateTestRequest".to_string(),
            SchemaOrRef::Inline({
                let mut s = typed(SchemaType::Object);
                s.description = Some("Pre-existing type with the same name".to_string());
                s
            }),
        )],
        security_schemes: Vec::new(),
    });
    let body = object_with(vec![("name", typed(SchemaType::String))], &[]);
    doc.paths = Some(vec![("/test".to_string(), post_with_body("createTest", body))]);

    let gen_ir = GenIr::from_document(&doc);

    let component = gen_ir
        .types
        .get(&StableId::new("CreateTestRequest"))
        .unwrap();
    assert_eq!(
        component.docs.description,
        Some("Pre-existing type with the same name".to_string())
    );
    assert_eq!(component.origin, Some(TypeOrigin::Component));

    let hoisted_id = StableId::new("CreateTestRequest_2");
    assert!(gen_ir.types.contains_key(&hoisted_id));
    let op = &gen_ir.services[0].operations[0];
    let body_type = op.http.body.as_ref().unwrap().variants[0].ty.target.clone();
    assert_eq!(body_type, hoisted_id);
}

#[test]
fn test_empty_inline_objects_not_hoisted() {
    let mut doc = base_doc();
    let body = typed(SchemaType::Object);
    doc.paths = Some(vec![("/test".to_string(), post_with_body("createTest", body))]);

    let gen_ir = GenIr::from_document(&doc);

    let op = &gen_ir.services[0].operations[0];
    let body_type = &op.http.body.as_ref().unwrap().variants[0].ty.target;

    assert_eq!(body_type, &StableId::new("Any"));
    assert_eq!(gen_ir.types.len(), 0);
}

#[test]
fn test_types_count_components_plus_hoisted() {
    // One component, one hoisted request body, one hoisted nested property,
    // and a duplicate inline schema that must not add a fourth type.
    let mut doc = base_doc();
    doc.components = Some(Components {
        schemas: vec![("Pet".to_string(), SchemaOrRef::Inline(typed(SchemaType::Object)))],
        security_schemes: Vec::new(),
    });
    let settings = object_with(vec![("theme", typed(SchemaType::String))], &[]);
    let body = object_with(
        vec![("name", typed(SchemaType::String)), ("settings", settings)],
        &[],
    );
    let dup = object_with(
        vec![("name", typed(SchemaType::String)), (
            "settings",
            object_with(vec![("theme", typed(SchemaType::String))], &[]),
        )],
        &[],
    );
    doc.paths = Some(vec![
        ("/a".to_string(), post_with_body("createAccount", body)),
        ("/b".to_string(), post_with_body("createBackup", dup)),
    ]);

    let gen_ir = GenIr::from_document(&doc);

    // Pet + CreateAccountRequest + CreateAccountRequestSettings; the second
    // body deduplicates onto the first.
    assert_eq!(gen_ir.types.len(), 3);
    assert!(gen_ir.types.contains_key(&StableId::new("Pet")));
    assert!(gen_ir
        .types
        .contains_key(&StableId::new("CreateAccountRequest")));
    assert!(gen_ir
        .types
        .contains_key(&StableId::new("CreateAccountRequestSettings")));
}
