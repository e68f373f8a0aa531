//! The service module generator: one rendered module per service.

use genir::document::{
    Document, Info, MediaType, OperationObject, PathItem, Parameter, ParameterIn, ParameterOrRef,
    RequestBody, RequestBodyOrRef, Response, ResponseOrRef, Schema, SchemaOrRef, SchemaType,
    TypeSet,
};
use genir::ir::GenIr;
use genir::rust_axum::RustAxumGenerator;
use genir::service_codegen::ServiceModuleGenerator;
use genir::typescript::TypeScriptGenerator;

fn sample_doc() -> Document {
    let mut op = OperationObject::empty();
    op.operation_id = Some("createPet".to_string());
    op.tags = vec!["Pets".to_string()];
    op.parameters = vec![
        ParameterOrRef::Inline(Parameter {
            name: "id".to_string(),
            location: ParameterIn::Path,
            description: None,
            deprecated: None,
            required: Some(true),
            schema: None,
        }),
        ParameterOrRef::Inline(Parameter {
            name: "verbose".to_string(),
            location: ParameterIn::Query,
            description: None,
            deprecated: None,
            required: None,
            schema: None,
        }),
    ];
    let mut body_schema = Schema::empty();
    body_schema.schema_type = Some(TypeSet::One(SchemaType::Object));
    body_schema.properties = vec![(
        "name".to_string(),
        SchemaOrRef::Inline({
            let mut s = Schema::empty();
            s.schema_type = Some(TypeSet::One(SchemaType::String));
            s
        }),
    )];
    op.request_body = Some(RequestBodyOrRef::Inline(RequestBody {
        description: None,
        required: None,
        content: vec![(
            "application/json".to_string(),
            MediaType {
                schema: Some(SchemaOrRef::Inline(body_schema)),
            },
        )],
    }));
    op.responses = Some(vec![(
        "201".to_string(),
        ResponseOrRef::Inline(Response {
            description: Some("Created".to_string()),
            content: Vec::new(),
        }),
    )]);
    let mut item = PathItem::empty();
    item.post = Some(op);

    Document {
        info: Info {
            title: "Pet API".to_string(),
            version: "1.0.0".to_string(),
            description: None,
        },
        servers: Vec::new(),
        paths: Some(vec![("/pets/{id}".to_string(), item)]),
        components: None,
    }
}

#[test]
fn test_service_module_generation() {
    let gen_ir = GenIr::from_document(&sample_doc());
    assert_eq!(gen_ir.services.len(), 1);
    let service = &gen_ir.services[0];

    let generator = ServiceModuleGenerator::new(service, &gen_ir.auth_schemes);
    let module = generator.generate();

    assert!(module.starts_with("//! Pets service module\n\n"));
    assert!(module.contains("pub struct RequestContext<S>"));
    assert!(module.contains("pub type CreatePetResult = Result<(), CreatePetError>;"));
    assert!(module.contains("pub enum CreatePetError {\n    InternalError(String),\n}"));
    assert!(module.contains("pub trait Pets<S>: Send + Sync {"));
    assert!(module.contains("    async fn create_pet(\n        &self,\n        ctx: RequestContext<S>,\n        id: String,\n        query: CreatePetQuery,\n        body: types::CreatePetRequest,\n    ) -> CreatePetResult;"));
    assert!(module.contains("pub struct CreatePetQuery {\n    pub verbose: Option<String>,\n}"));
    assert!(module.contains("async fn create_pet_handler<S, H>("));
    assert!(module.contains("    Path(path_params): Path<String>,"));
    assert!(module.contains("StatusCode::from_u16(201).unwrap_or(StatusCode::OK)"));
    assert!(module
        .contains("        .route(\"/pets/{id}\", post(create_pet_handler::<S, H>))"));
    assert!(module.contains("pub trait PetsRouterExt<S>:"));
}

#[test]
fn test_service_module_untyped_operation() {
    let mut op = OperationObject::empty();
    op.operation_id = Some("ping".to_string());
    op.responses = Some(vec![(
        "204".to_string(),
        ResponseOrRef::Inline(Response {
            description: Some("No Content".to_string()),
            content: Vec::new(),
        }),
    )]);
    let mut item = PathItem::empty();
    item.get = Some(op);
    let doc = Document {
        info: Info {
            title: "Ping API".to_string(),
            version: "0.1.0".to_string(),
            description: None,
        },
        servers: Vec::new(),
        paths: Some(vec![("/ping".to_string(), item)]),
        components: None,
    };

    let gen_ir = GenIr::from_document(&doc);
    let generator = ServiceModuleGenerator::new(&gen_ir.services[0], &gen_ir.auth_schemes);
    let module = generator.generate();

    assert!(module.contains("pub type PingResult = Result<(), PingError>;"));
    assert!(module.contains("StatusCode::from_u16(204).unwrap_or(StatusCode::OK)"));
    assert!(module.contains("            status.into_response()\n"));
    assert!(!module.contains("Json(result)"));
    assert!(module.contains("        .route(\"/ping\", get(ping_handler::<S, H>))"));
}

#[test]
fn test_rust_axum_generator_stages_crate() {
    let gen_ir = GenIr::from_document(&sample_doc());
    let generator = RustAxumGenerator::new();
    assert!(generator.validate(&gen_ir).is_ok());

    let vfs = generator.generate(&gen_ir);
    assert!(vfs.contains("src/lib.rs"));
    assert!(vfs.contains("Cargo.toml"));
    assert!(vfs.contains("src/types/common.rs"));
    assert!(vfs.contains("src/types/mod.rs"));
    assert!(vfs.contains("src/services/mod.rs"));
    assert!(vfs.contains("src/services/pets.rs"));

    let types = vfs.get_file_str("src/types/common.rs").unwrap().unwrap();
    assert!(types.contains("#[derive(Debug, Clone, Serialize, Deserialize)]
pub struct CreatePetRequest {
    pub name: Option<String>,
}"));

    let manifest = vfs.get_file_str("Cargo.toml").unwrap().unwrap();
    assert!(manifest.contains("name = \"pet_api\""));
    assert!(manifest.contains("pets = []"));

    let services_mod = vfs.get_file_str("src/services/mod.rs").unwrap().unwrap();
    assert!(services_mod.contains("pub mod pets;"));

    let service = vfs.get_file_str("src/services/pets.rs").unwrap().unwrap();
    assert!(service.contains("pub trait Pets<S>: Send + Sync {"));
}

#[test]
fn test_rust_axum_generator_rejects_empty_ir() {
    let doc = Document {
        info: Info {
            title: "Empty".to_string(),
            version: "0.0.1".to_string(),
            description: None,
        },
        servers: Vec::new(),
        paths: Some(Vec::new()),
        components: None,
    };
    let gen_ir = GenIr::from_document(&doc);
    assert!(RustAxumGenerator::new().validate(&gen_ir).is_err());
    assert!(TypeScriptGenerator::new().validate(&gen_ir).is_err());
}

#[test]
fn test_typescript_generator_stages_sdk() {
    let gen_ir = GenIr::from_document(&sample_doc());
    let generator = TypeScriptGenerator::new();
    assert!(generator.validate(&gen_ir).is_ok());

    let vfs = generator.generate(&gen_ir);
    assert!(vfs.contains(".gitignore"));
    assert!(vfs.contains("src/types/index.ts"));
    assert!(vfs.contains("src/services/pets.ts"));

    let types = vfs.get_file_str("src/types/index.ts").unwrap().unwrap();
    assert!(types.contains("export interface CreatePetRequest {
  name?: string;
}"));

    let service = vfs.get_file_str("src/services/pets.ts").unwrap().unwrap();
    assert!(service.contains("export class PetsService {"));
    assert!(service.contains(
        "  async createPet(id: any, verbose?: any, body: CreatePetRequest): Promise<void> {"
    ));
}
