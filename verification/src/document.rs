//! The parsed document model the builder consumes: schemas, paths,
//! operations, parameters, bodies, responses, servers and security schemes,
//! all held as plain values.
//!
//! Maps of the source document are carried as key/value vectors.  Callers
//! hand them over in sorted key order, so the build walks every map in a
//! stable order and its output is reproducible.

use vstd::prelude::*;

verus! {

/// A JSON literal of the document, as the builder reads it.  Numbers that are
/// not 64-bit integers, and composite values, are carried as text.
#[derive(Debug)]
pub enum JsonLit {
    Null,
    Bool(bool),
    Int(i64),
    /// A non-integral number, as its decimal text.
    Float(String),
    Str(String),
    /// Any other value (an array, an object, an out-of-range integer),
    /// rendered as JSON text.
    Raw(String),
}

/// A declared schema type.
#[derive(Debug, Clone, Copy, PartialEq, Eq, Structural)]
pub enum SchemaType {
    Object,
    String,
    Integer,
    Number,
    Boolean,
    Array,
    Null,
}

/// The `type` keyword: one type or a set of types.
#[derive(Debug)]
pub enum TypeSet {
    One(SchemaType),
    Many(Vec<SchemaType>),
}

/// A schema node: either a reference (`$ref` path) or an inline schema.
#[derive(Debug)]
pub enum SchemaOrRef {
    Reference(String),
    Inline(Schema),
}

/// A boolean JSON schema or a schema node, as found under `items` and
/// `additionalProperties`.
#[derive(Debug)]
pub enum BoolOrSchema {
    Boolean(bool),
    Node(Box<SchemaOrRef>),
}

/// An object schema of the document.
#[derive(Debug)]
pub struct Schema {
    pub title: Option<String>,
    pub description: Option<String>,
    pub deprecated: Option<bool>,
    pub schema_type: Option<TypeSet>,
    pub format: Option<String>,
    pub enum_values: Vec<JsonLit>,
    pub properties: Vec<(String, SchemaOrRef)>,
    pub required: Vec<String>,
    pub additional_properties: Option<BoolOrSchema>,
    pub items: Option<BoolOrSchema>,
}

/// Structural size of a schema; recursive conversions decrease on it.
pub open spec fn size_schema(s: Schema) -> nat
    decreases s,
{
    1 + size_props(s.properties@) + size_opt_bos(s.items) + size_opt_bos(s.additional_properties)
}

pub open spec fn size_props(ps: Seq<(String, SchemaOrRef)>) -> nat
    decreases ps,
{
    if ps.len() == 0 {
        0
    } else {
        size_sor(ps[0].1) + size_props(ps.drop_first())
    }
}

pub open spec fn size_sor(s: SchemaOrRef) -> nat
    decreases s,
{
    match s {
        SchemaOrRef::Reference(_) => 1,
        SchemaOrRef::Inline(schema) => 1 + size_schema(schema),
    }
}

pub open spec fn size_opt_bos(b: Option<BoolOrSchema>) -> nat
    decreases b,
{
    match b {
        Option::None => 0,
        Option::Some(BoolOrSchema::Boolean(_)) => 1,
        Option::Some(BoolOrSchema::Node(n)) => 1 + size_sor(*n),
    }
}

impl Schema {
    /// Whether `null` appears among the declared types; `false` when no
    /// type is declared.
    pub open spec fn spec_nullable(&self) -> bool {
        match self.schema_type {
            Option::None => false,
            Option::Some(TypeSet::One(t)) => t is Null,
            Option::Some(TypeSet::Many(ts)) => exists|i: int|
                0 <= i < ts@.len() && ts@[i] is Null,
        }
    }

    /// Whether `null` appears among the declared types, `false` when no type
    /// is declared.
    #[verifier::loop_isolation(false)]
    pub fn is_nullable_or_default(&self) -> (r: bool)
        ensures
            r == self.spec_nullable(),
    {
        match &self.schema_type {
            Option::None => false,
            Option::Some(TypeSet::One(t)) => match t {
                SchemaType::Null => true,
                _ => false,
            },
            Option::Some(TypeSet::Many(ts)) => {
                let n = ts.len();
                let mut i: usize = 0;
                while i < n
                    invariant
                        i <= n,
                        n == ts@.len(),
                        forall|j: int| 0 <= j < i ==> !(ts@[j] is Null),
                    decreases n - i,
                {
                    match ts[i] {
                        SchemaType::Null => {
                            proof {
                                assert(ts@[i as int] is Null);
                                assert(exists|j: int| 0 <= j < ts@.len() && ts@[j] is Null);
                            }
                            return true;
                        },
                        _ => {},
                    }
                    i = i + 1;
                }
                false
            },
        }
    }
}

impl Schema {
    /// A schema with nothing declared.
    pub fn empty() -> (r: Schema)
        ensures
            r.title is None,
            r.description is None,
            r.deprecated is None,
            r.schema_type is None,
            r.format is None,
            r.enum_values@.len() == 0,
            r.properties@.len() == 0,
            r.required@.len() == 0,
            r.additional_properties is None,
            r.items is None,
    {
        Schema {
            title: None,
            description: None,
            deprecated: None,
            schema_type: None,
            format: None,
            enum_values: Vec::new(),
            properties: Vec::new(),
            required: Vec::new(),
            additional_properties: None,
            items: None,
        }
    }
}

/// Where a parameter travels.
#[derive(Debug, Clone, Copy, PartialEq, Eq, Structural)]
pub enum ParameterIn {
    Path,
    Query,
    Header,
    Cookie,
}

/// One declared operation parameter.
#[derive(Debug)]
pub struct Parameter {
    pub name: String,
    pub location: ParameterIn,
    pub description: Option<String>,
    pub deprecated: Option<bool>,
    pub required: Option<bool>,
    pub schema: Option<SchemaOrRef>,
}

/// A parameter node: reference or inline.
#[derive(Debug)]
pub enum ParameterOrRef {
    Reference(String),
    Inline(Parameter),
}

/// One content-type entry of a body or response.
#[derive(Debug)]
pub struct MediaType {
    pub schema: Option<SchemaOrRef>,
}

/// A declared request body.
#[derive(Debug)]
pub struct RequestBody {
    pub description: Option<String>,
    pub required: Option<bool>,
    pub content: Vec<(String, MediaType)>,
}

/// A request-body node: reference or inline.
#[derive(Debug)]
pub enum RequestBodyOrRef {
    Reference(String),
    Inline(RequestBody),
}

/// A declared response.
#[derive(Debug)]
pub struct Response {
    pub description: Option<String>,
    pub content: Vec<(String, MediaType)>,
}

/// A response node: reference or inline.
#[derive(Debug)]
pub enum ResponseOrRef {
    Reference(String),
    Inline(Response),
}

/// One operation of a path item, keyed by its HTTP method slot.
#[derive(Debug)]
pub struct OperationObject {
    pub operation_id: Option<String>,
    pub summary: Option<String>,
    pub description: Option<String>,
    pub deprecated: Option<bool>,
    pub tags: Vec<String>,
    pub parameters: Vec<ParameterOrRef>,
    pub request_body: Option<RequestBodyOrRef>,
    pub responses: Option<Vec<(String, ResponseOrRef)>>,
}

impl OperationObject {
    /// An operation with nothing declared.
    pub fn empty() -> (r: OperationObject)
        ensures
            r.operation_id is None,
            r.summary is None,
            r.description is None,
            r.deprecated is None,
            r.tags@.len() == 0,
            r.parameters@.len() == 0,
            r.request_body is None,
            r.responses is None,
    {
        OperationObject {
            operation_id: None,
            summary: None,
            description: None,
            deprecated: None,
            tags: Vec::new(),
            parameters: Vec::new(),
            request_body: None,
            responses: None,
        }
    }
}

/// The eight per-method operation slots of one path.
#[derive(Debug)]
pub struct PathItem {
    pub get: Option<OperationObject>,
    pub post: Option<OperationObject>,
    pub put: Option<OperationObject>,
    pub delete: Option<OperationObject>,
    pub patch: Option<OperationObject>,
    pub head: Option<OperationObject>,
    pub options: Option<OperationObject>,
    pub trace: Option<OperationObject>,
}

impl PathItem {
    /// A path item with no operation declared.
    pub fn empty() -> (r: PathItem)
        ensures
            r.get is None,
            r.post is None,
            r.put is None,
            r.delete is None,
            r.patch is None,
            r.head is None,
            r.options is None,
            r.trace is None,
    {
        PathItem {
            get: None,
            post: None,
            put: None,
            delete: None,
            patch: None,
            head: None,
            options: None,
            trace: None,
        }
    }
}

/// OAuth2 scopes: name to description.
pub type ScopeMap = Vec<(String, String)>;

/// The implicit OAuth2 flow.
#[derive(Debug)]
pub struct ImplicitFlow {
    pub authorization_url: String,
    pub refresh_url: Option<String>,
    pub scopes: ScopeMap,
}

/// The resource-owner password OAuth2 flow.
#[derive(Debug)]
pub struct PasswordFlow {
    pub token_url: String,
    pub refresh_url: Option<String>,
    pub scopes: ScopeMap,
}

/// The client-credentials OAuth2 flow.
#[derive(Debug)]
pub struct ClientCredentialsFlow {
    pub token_url: String,
    pub refresh_url: Option<String>,
    pub scopes: ScopeMap,
}

/// The authorization-code OAuth2 flow.
#[derive(Debug)]
pub struct AuthorizationCodeFlow {
    pub authorization_url: String,
    pub token_url: String,
    pub refresh_url: Option<String>,
    pub scopes: ScopeMap,
}

/// The declared OAuth2 flows of a scheme.
#[derive(Debug)]
pub struct Flows {
    pub implicit: Option<ImplicitFlow>,
    pub password: Option<PasswordFlow>,
    pub client_credentials: Option<ClientCredentialsFlow>,
    pub authorization_code: Option<AuthorizationCodeFlow>,
}

/// A declared security scheme.
#[derive(Debug)]
pub enum SecurityScheme {
    ApiKey { name: String, location: String, description: Option<String> },
    Http { scheme: String, bearer_format: Option<String>, description: Option<String> },
    OAuth2 { flows: Flows, description: Option<String> },
    OpenIdConnect { url: String, description: Option<String> },
    MutualTls { description: Option<String> },
}

/// A security-scheme node: reference or inline.
#[derive(Debug)]
pub enum SecuritySchemeOrRef {
    Reference(String),
    Inline(SecurityScheme),
}

/// The document's reusable components.
#[derive(Debug)]
pub struct Components {
    pub schemas: Vec<(String, SchemaOrRef)>,
    pub security_schemes: Vec<(String, SecuritySchemeOrRef)>,
}

/// API metadata of the document.
#[derive(Debug)]
pub struct Info {
    pub title: String,
    pub version: String,
    pub description: Option<String>,
}

/// One declared server.
#[derive(Debug)]
pub struct Server {
    pub url: String,
    pub description: Option<String>,
}

/// A parsed, structurally valid document.
#[derive(Debug)]
pub struct Document {
    pub info: Info,
    pub servers: Vec<Server>,
    pub paths: Option<Vec<(String, PathItem)>>,
    pub components: Option<Components>,
}

impl Document {
    /// The top-level component schemas, an empty map when none are declared.
    pub open spec fn spec_schemas(&self) -> Seq<(String, SchemaOrRef)> {
        match self.components {
            Option::Some(c) => c.schemas@,
            Option::None => Seq::empty(),
        }
    }

    /// Component schema keys are pairwise distinct, as in any parsed map.
    pub open spec fn wf(&self) -> bool {
        forall|i: int, j: int|
            0 <= i < j < self.spec_schemas().len() ==> self.spec_schemas()[i].0@
                != self.spec_schemas()[j].0@
    }
}

} // verus!
