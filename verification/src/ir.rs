//! The intermediate representation (IR): the type graph and operation graph
//! produced from a document and handed to code generators.

use vstd::prelude::*;

use crate::naming::CanonicalName;

verus! {

/// An opaque, case-sensitive identifier that uniquely keys a type in the
/// registry.  Two wire names that differ only by case are distinct ids.
#[derive(Debug)]
pub struct StableId(pub String);

impl StableId {
    pub fn new(text: &str) -> (r: StableId)
        ensures
            r@ == text@,
    {
        StableId(text.to_owned())
    }
}

impl View for StableId {
    type V = Seq<char>;

    open spec fn view(&self) -> Seq<char> {
        self.0@
    }
}

impl Clone for StableId {
    fn clone(&self) -> (r: Self)
        ensures
            r == *self,
    {
        StableId(self.0.clone())
    }
}

impl PartialEq for StableId {
    fn eq(&self, other: &Self) -> (r: bool) {
        self.0 == other.0
    }
}

impl vstd::std_specs::cmp::PartialEqSpecImpl for StableId {
    open spec fn obeys_eq_spec() -> bool {
        true
    }

    open spec fn eq_spec(&self, other: &Self) -> bool {
        self.0@ == other.0@
    }
}

/// Documentation attached to a declaration.
#[derive(Debug)]
pub struct Docs {
    pub summary: Option<String>,
    pub description: Option<String>,
    pub deprecated: bool,
    pub since: Option<String>,
    pub examples: Vec<String>,
    pub external_urls: Vec<String>,
}

impl Docs {
    /// Empty documentation.
    pub fn empty() -> (r: Docs)
        ensures
            r.summary is None,
            r.description is None,
            !r.deprecated,
            r.since is None,
            r.examples@.len() == 0,
            r.external_urls@.len() == 0,
    {
        Docs {
            summary: None,
            description: None,
            deprecated: false,
            since: None,
            examples: Vec::new(),
            external_urls: Vec::new(),
        }
    }
}

impl Default for Docs {
    fn default() -> (r: Docs)
        ensures
            r.summary is None,
            r.description is None,
            !r.deprecated,
    {
        Docs::empty()
    }
}

/// The closed set of primitive types.
#[derive(Debug, Clone, Copy, PartialEq, Eq, Structural)]
pub enum Primitive {
    Any,
    Bool,
    I32,
    I64,
    F32,
    F64,
    String,
    Bytes,
    Date,
    DateTime,
    Uuid,
    Decimal,
}

/// A wire literal.  Floating-point values are carried as their decimal text,
/// exactly as they stood in the document.
#[derive(Debug)]
pub enum Literal {
    Null,
    Bool(bool),
    I64(i64),
    F64(String),
    String(String),
    Array(Vec<Literal>),
    Object(Vec<(String, Literal)>),
}

/// Collection modifiers applied to a type reference, innermost first.
#[derive(Debug)]
pub enum TypeMod {
    List,
    SetOf,
    MapOf(Box<TypeRef>),
}

/// A usage-site pointer to a declared type, by stable id, with modifiers.
/// `optional` (may be absent from its container) and `nullable` (the wire
/// value may be `null`) are independent axes.
#[derive(Debug)]
pub struct TypeRef {
    pub target: StableId,
    pub optional: bool,
    pub nullable: bool,
    pub by_ref: bool,
    pub modifiers: Vec<TypeMod>,
}

/// A composite shape an alias can point at.
#[derive(Debug)]
pub enum Composite {
    List(Box<TypeRef>),
    MapOf { key: Box<TypeRef>, value: Box<TypeRef> },
    Tuple(Vec<TypeRef>),
}

/// What an alias declaration stands for.
#[derive(Debug)]
pub enum AliasTarget {
    Primitive(Primitive),
    Composite(Composite),
    Reference(TypeRef),
}

/// Whether a struct admits properties beyond the declared ones.
#[derive(Debug, Clone, Copy, PartialEq, Eq, Structural)]
pub enum Additional {
    Any,
    Forbidden,
}

/// One field of a struct.  `wire_name` is the literal on-the-wire property
/// key; `name` is its canonicalized form.
#[derive(Debug)]
pub struct Field {
    pub name: CanonicalName,
    pub docs: Docs,
    pub ty: TypeRef,
    pub default: Option<Literal>,
    pub deprecated: bool,
    pub const_value: Option<Literal>,
    pub wire_name: String,
}

/// One value of an enum declaration.
#[derive(Debug)]
pub struct EnumValue {
    pub name: CanonicalName,
    pub docs: Docs,
    pub wire: Literal,
}

/// One variant of a union declaration.
#[derive(Debug)]
pub struct UnionVariant {
    pub name: CanonicalName,
    pub ty: TypeRef,
}

/// The structural shape of a declared type.
#[derive(Debug)]
pub enum TypeKind {
    Struct { fields: Vec<Field>, additional: Additional, discriminator: Option<String> },
    Enum { base: Primitive, values: Vec<EnumValue> },
    Alias { aliased: AliasTarget },
    Union { variants: Vec<UnionVariant> },
}

/// Where a registered type came from.
#[derive(Debug, Clone, Copy, PartialEq, Eq, Structural)]
pub enum TypeOrigin {
    /// Declared as a named top-level component schema.
    Component,
    /// Promoted from an inline schema by the hoister.
    Hoisted,
}

/// A declared type, owned exclusively by the registry.
#[derive(Debug)]
pub struct TypeDecl {
    pub id: StableId,
    pub name: CanonicalName,
    pub docs: Docs,
    pub kind: TypeKind,
    pub origin: Option<TypeOrigin>,
}

/// Spec-level lookup of the first declaration with the given id.
pub open spec fn find_decl(s: Seq<TypeDecl>, k: Seq<char>) -> Option<TypeDecl>
    decreases s.len(),
{
    if s.len() == 0 {
        None
    } else if s[0].id@ == k {
        Some(s[0])
    } else {
        find_decl(s.drop_first(), k)
    }
}

/// The type registry: a uniquely-keyed map from stable id to declaration,
/// iterated in registration order (which the builder makes deterministic).
#[derive(Debug)]
pub struct TypeRegistry {
    entries: Vec<TypeDecl>,
}

impl View for TypeRegistry {
    type V = Seq<TypeDecl>;

    closed spec fn view(&self) -> Seq<TypeDecl> {
        self.entries@
    }
}

impl TypeRegistry {
    /// All registered ids are pairwise distinct.
    pub open spec fn wf(self) -> bool {
        forall|i: int, j: int|
            0 <= i < j < self@.len() ==> self@[i].id@ != self@[j].id@
    }

    /// Whether some declaration carries the given id.
    pub open spec fn spec_contains(self, k: Seq<char>) -> bool {
        exists|i: int| 0 <= i < self@.len() && self@[i].id@ == k
    }

    pub fn new() -> (r: TypeRegistry)
        ensures
            r@ =~= Seq::<TypeDecl>::empty(),
            r.wf(),
    {
        TypeRegistry { entries: Vec::new() }
    }

    pub fn len(&self) -> (r: usize)
        ensures
            r == self@.len(),
    {
        self.entries.len()
    }

    pub fn is_empty(&self) -> (r: bool)
        ensures
            r == (self@.len() == 0),
    {
        self.entries.len() == 0
    }

    /// Direct access to the declarations, in registration order.
    pub fn entries(&self) -> (r: &Vec<TypeDecl>)
        ensures
            r@ == self@,
    {
        &self.entries
    }

    pub fn index(&self, i: usize) -> (r: &TypeDecl)
        requires
            i < self@.len(),
        ensures
            *r == self@[i as int],
    {
        &self.entries[i]
    }

    /// Looks a declaration up by id.
    pub fn get(&self, id: &StableId) -> (r: Option<&TypeDecl>)
        ensures
            match r {
                Some(d) => find_decl(self@, id@) == Some(*d),
                None => find_decl(self@, id@) is None,
            },
    {
        let n = self.entries.len();
        let mut i: usize = 0;
        proof {
            assert(self@.skip(0) =~= self@);
        }
        while i < n
            invariant
                i <= n,
                n == self@.len(),
                find_decl(self@, id@) == find_decl(self@.skip(i as int), id@),
            decreases n - i,
        {
            proof {
                assert(self@.skip(i as int)[0] == self@[i as int]);
                assert(self@.skip(i as int).drop_first() =~= self@.skip(i as int + 1));
            }
            if self.entries[i].id.0 == id.0 {
                return Some(&self.entries[i]);
            }
            i = i + 1;
        }
        proof {
            assert(self@.skip(n as int).len() == 0);
        }
        None
    }

    pub fn contains_key(&self, id: &StableId) -> (r: bool)
        ensures
            r == self.spec_contains(id@),
    {
        proof {
            lemma_find_decl_contains(self@, id@);
        }
        match self.get(id) {
            Some(_) => true,
            None => false,
        }
    }

    /// Registers a fresh declaration.  The caller guarantees the id is not
    /// taken; the registry never overwrites.
    pub fn insert(&mut self, decl: TypeDecl)
        requires
            !old(self).spec_contains(decl.id@),
        ensures
            final(self)@ == old(self)@.push(decl),
            old(self).wf() ==> final(self).wf(),
    {
        proof {
            if old(self).wf() {
                assert(forall|i: int|
                    0 <= i < self@.len() ==> self@[i].id@ != decl.id@);
            }
        }
        self.entries.push(decl);
    }
}

/// `find_decl` succeeds exactly on the keys some entry carries.
pub proof fn lemma_find_decl_contains(s: Seq<TypeDecl>, k: Seq<char>)
    ensures
        (find_decl(s, k) is Some) == (exists|i: int| 0 <= i < s.len() && s[i].id@ == k),
        find_decl(s, k) matches Some(d) ==> exists|i: int|
            0 <= i < s.len() && s[i] == d && s[i].id@ == k,
    decreases s.len(),
{
    if s.len() > 0 {
        if s[0].id@ == k {
            assert(s[0].id@ == k);
        } else {
            lemma_find_decl_contains(s.drop_first(), k);
            if find_decl(s.drop_first(), k) is Some {
                let i = choose|i: int|
                    0 <= i < s.drop_first().len() && s.drop_first()[i] == find_decl(
                        s.drop_first(),
                        k,
                    )->Some_0 && s.drop_first()[i].id@ == k;
                assert(s[i + 1] == s.drop_first()[i]);
            }
            if exists|i: int| 0 <= i < s.len() && s[i].id@ == k {
                let i = choose|i: int| 0 <= i < s.len() && s[i].id@ == k;
                assert(i != 0);
                assert(s.drop_first()[i - 1].id@ == k);
            }
        }
    }
}

/// Appending a declaration with a fresh id leaves every other lookup as it
/// was and makes the new id resolve to the new declaration.
pub proof fn lemma_find_decl_push(s: Seq<TypeDecl>, d: TypeDecl, k: Seq<char>)
    ensures
        d.id@ == k && find_decl(s, k) is None ==> find_decl(s.push(d), k) == Some(d),
        find_decl(s, k) is Some ==> find_decl(s.push(d), k) == find_decl(s, k),
        d.id@ != k && find_decl(s, k) is None ==> find_decl(s.push(d), k) is None,
    decreases s.len(),
{
    if s.len() == 0 {
        assert(s.push(d)[0] == d);
        assert(s.push(d).drop_first() =~= Seq::<TypeDecl>::empty());
        assert(find_decl(Seq::<TypeDecl>::empty(), k) is None);
    } else {
        assert(s.push(d)[0] == s[0]);
        assert(s.push(d).drop_first() =~= s.drop_first().push(d));
        lemma_find_decl_push(s.drop_first(), d, k);
    }
}

/// API metadata of the document.
#[derive(Debug)]
pub struct ApiMeta {
    pub title: String,
    pub version: String,
    pub package_name: CanonicalName,
    pub docs: Docs,
}

/// HTTP methods.
#[derive(Debug, Clone, Copy, PartialEq, Eq, Structural)]
pub enum HttpMethod {
    Get,
    Post,
    Put,
    Delete,
    Patch,
    Head,
    Options,
    Trace,
}

/// A path parameter of an operation.
#[derive(Debug)]
pub struct PathParam {
    pub name: CanonicalName,
    pub wire: String,
    pub docs: Docs,
    pub ty: TypeRef,
}

/// A query parameter of an operation.
#[derive(Debug)]
pub struct QueryParam {
    pub name: CanonicalName,
    pub wire: String,
    pub docs: Docs,
    pub ty: TypeRef,
    pub required: bool,
    pub default: Option<Literal>,
}

/// A header parameter of an operation.
#[derive(Debug)]
pub struct HeaderParam {
    pub name: CanonicalName,
    pub wire: String,
    pub docs: Docs,
    pub ty: TypeRef,
    pub required: bool,
    pub default: Option<Literal>,
}

/// A cookie parameter of an operation.
#[derive(Debug)]
pub struct CookieParam {
    pub name: CanonicalName,
    pub wire: String,
    pub docs: Docs,
    pub ty: TypeRef,
    pub required: bool,
    pub default: Option<Literal>,
}

/// One request-body variant, keyed by content type.
#[derive(Debug)]
pub struct BodyVariant {
    pub content_type: String,
    pub ty: TypeRef,
    pub docs: Docs,
    pub encoding: Vec<String>,
}

/// The request body of an operation.
#[derive(Debug)]
pub struct Body {
    pub preferred: Option<String>,
    pub variants: Vec<BodyVariant>,
}

/// Which status codes a payload matches.
#[derive(Debug, Clone, Copy, PartialEq, Eq, Structural)]
pub enum StatusSpec {
    Code(u16),
    Default,
}

/// The success response shape of an operation.
#[derive(Debug)]
pub struct Payload {
    pub status: StatusSpec,
    pub content_type: Option<String>,
    pub ty: Option<TypeRef>,
    pub headers: Vec<HeaderParam>,
    pub docs: Docs,
}

/// The HTTP shape of an operation.
#[derive(Debug)]
pub struct HttpShape {
    pub method: HttpMethod,
    pub path_template: String,
    pub segments: Vec<String>,
    pub query: Vec<QueryParam>,
    pub headers: Vec<HeaderParam>,
    pub cookies: Vec<CookieParam>,
    pub path_params: Vec<PathParam>,
    pub body: Option<Body>,
    pub consumes: Vec<String>,
    pub produces: Vec<String>,
}

/// One error variant an operation may return.
#[derive(Debug)]
pub struct ErrorVariant {
    pub name: CanonicalName,
    pub ty: Option<TypeRef>,
    pub status: StatusSpec,
}

/// A set of error variants.
#[derive(Debug)]
pub struct ErrorDecl {
    pub variants: Vec<ErrorVariant>,
}

/// How an operation reports errors.
#[derive(Debug)]
pub enum ErrorUse {
    Absent,
    Inline(ErrorDecl),
}

/// Pagination style of an operation.
#[derive(Debug, Clone, Copy, PartialEq, Eq, Structural)]
pub enum Pagination {
    Cursor,
    Page,
    Offset,
}

/// One converted operation.
#[derive(Debug)]
pub struct Operation {
    pub id: StableId,
    pub name: CanonicalName,
    pub docs: Docs,
    pub deprecated: bool,
    pub http: HttpShape,
    pub success: Option<Payload>,
    pub alt_success: Vec<Payload>,
    pub errors: ErrorUse,
    pub auth: Vec<StableId>,
    pub pagination: Option<Pagination>,
    pub idempotent: bool,
    pub retryable_statuses: Vec<u16>,
}

/// A named grouping of operations, keyed by the first declared tag.
#[derive(Debug)]
pub struct Service {
    pub id: StableId,
    pub name: CanonicalName,
    pub docs: Docs,
    pub server_set: Option<StableId>,
    pub operations: Vec<Operation>,
}

/// Where an API key parameter travels.
#[derive(Debug, Clone, Copy, PartialEq, Eq, Structural)]
pub enum ApiKeyLocation {
    Query,
    Header,
    Cookie,
}

/// One OAuth2 scope.
#[derive(Debug)]
pub struct OAuthScope {
    pub name: String,
    pub description: Option<String>,
}

/// The kind of an OAuth2 flow.
#[derive(Debug, Clone, Copy, PartialEq, Eq, Structural)]
pub enum OAuthFlowKind {
    Implicit,
    Password,
    ClientCredentials,
    AuthorizationCode,
}

/// One OAuth2 flow.
#[derive(Debug)]
pub struct OAuthFlow {
    pub kind: OAuthFlowKind,
    pub authorization_url: Option<String>,
    pub token_url: Option<String>,
    pub refresh_url: Option<String>,
    pub scopes: Vec<OAuthScope>,
}

/// The kind of an authentication scheme.
#[derive(Debug)]
pub enum AuthKind {
    ApiKey { location: ApiKeyLocation, param_name: String },
    Http { scheme: String, bearer_format: Option<String> },
    OAuth2 { flows: Vec<OAuthFlow> },
    OpenIdConnect { url: String },
}

/// One authentication scheme.
#[derive(Debug)]
pub struct AuthScheme {
    pub id: StableId,
    pub name: CanonicalName,
    pub kind: AuthKind,
    pub docs: Docs,
}

/// One server URL of a server set.
#[derive(Debug)]
pub struct ServerUrl {
    pub template: String,
    pub resolved_preview: String,
    pub variables: Vec<(String, String)>,
}

/// A named set of server URLs.
#[derive(Debug)]
pub struct ServerSet {
    pub name: CanonicalName,
    pub urls: Vec<ServerUrl>,
}

/// The root of the IR: everything a code generator consumes.
#[derive(Debug)]
pub struct GenIr {
    pub api: ApiMeta,
    pub types: TypeRegistry,
    pub services: Vec<Service>,
    pub auth_schemes: Vec<AuthScheme>,
    pub errors: Vec<ErrorDecl>,
    pub server_sets: Vec<ServerSet>,
}

} // verus!
