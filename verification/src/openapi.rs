//! The document model: typed structures for the assembled description,
//! together with their specification-level mirrors. Maps are ordered
//! key/value vectors, so a document serialises the same way every time it
//! is assembled from the same inputs.

use vstd::prelude::*;

verus! {

/// Specification view of an optional viewable value.
pub open spec fn opt_view<T: View>(o: Option<T>) -> Option<T::V> {
    match o {
        Some(v) => Some(v@),
        None => None,
    }
}

/// Specification view of an ordered key/value vector.
pub open spec fn pair_views<T: View>(v: Seq<(String, T)>) -> Seq<(Seq<char>, T::V)> {
    Seq::new(v.len(), |i: int| (v[i].0@, v[i].1@))
}

/// Either a reference to a named component or an inline value.
pub enum ReferenceOr<T> {
    /// A reference to a component, e.g. `#/components/schemas/User`.
    Reference { reference: String },
    /// An inline value.
    Item(T),
}

/// Mirror of [`ReferenceOr`].
pub ghost enum ReferenceOrView<V> {
    Reference(Seq<char>),
    Item(V),
}

impl<T: View> View for ReferenceOr<T> {
    type V = ReferenceOrView<T::V>;

    open spec fn view(&self) -> ReferenceOrView<T::V> {
        match self {
            ReferenceOr::Reference { reference } => ReferenceOrView::Reference(reference@),
            ReferenceOr::Item(t) => ReferenceOrView::Item(t@),
        }
    }
}

impl<T: View> ReferenceOr<T> {
    /// A new reference to the given target.
    pub fn new_ref(reference: &str) -> (r: ReferenceOr<T>)
        ensures
            r@ == ReferenceOrView::<T::V>::Reference(reference@),
    {
        ReferenceOr::Reference { reference: reference.to_owned() }
    }

    /// A new inline value.
    pub fn new_item(item: T) -> (r: ReferenceOr<T>)
        ensures
            r@ == ReferenceOrView::Item(item@),
    {
        ReferenceOr::Item(item)
    }

    /// Is this a reference?
    pub fn is_ref(&self) -> (r: bool)
        ensures
            r == (self@ is Reference),
    {
        match self {
            ReferenceOr::Reference { .. } => true,
            ReferenceOr::Item(_) => false,
        }
    }

    /// The reference string, when this is a reference.
    pub fn as_ref_str(&self) -> (r: Option<&str>)
        ensures
            match r {
                Some(s) => self@ is Reference && s@ == self@->Reference_0,
                None => self@ is Item,
            },
    {
        match self {
            ReferenceOr::Reference { reference } => Some(reference.as_str()),
            ReferenceOr::Item(_) => None,
        }
    }

    /// The inline value, when this is one.
    pub fn as_item(&self) -> (r: Option<&T>)
        ensures
            match r {
                Some(t) => self@ is Item && t@ == self@->Item_0,
                None => self@ is Reference,
            },
    {
        match self {
            ReferenceOr::Reference { .. } => None,
            ReferenceOr::Item(item) => Some(item),
        }
    }
}

/// The assembled document: version marker, info section, paths keyed by
/// brace-syntax path, optional components, optional tag list.
pub struct OpenAPI {
    pub openapi: String,
    pub info: Info,
    pub paths: Vec<(String, PathItem)>,
    pub components: Option<Components>,
    pub tags: Option<Vec<Tag>>,
}

/// Mirror of [`OpenAPI`].
pub ghost struct OpenAPIView {
    pub openapi: Seq<char>,
    pub info: InfoView,
    pub paths: Seq<(Seq<char>, PathItemView)>,
    pub components: Option<ComponentsView>,
    pub tags: Option<Seq<TagView>>,
}

impl View for OpenAPI {
    type V = OpenAPIView;

    open spec fn view(&self) -> OpenAPIView {
        OpenAPIView {
            openapi: self.openapi@,
            info: self.info@,
            paths: pair_views(self.paths@),
            components: opt_view(self.components),
            tags: match self.tags {
                Some(ts) => Some(Seq::new(ts@.len(), |i: int| ts@[i]@)),
                None => None,
            },
        }
    }
}

/// The info section of the assembled document.
pub struct Info {
    pub title: String,
    pub version: String,
    pub description: Option<String>,
    pub terms_of_service: Option<String>,
    pub contact: Option<Contact>,
    pub license: Option<License>,
}

/// Mirror of [`Info`].
pub ghost struct InfoView {
    pub title: Seq<char>,
    pub version: Seq<char>,
    pub description: Option<Seq<char>>,
    pub terms_of_service: Option<Seq<char>>,
    pub contact: Option<ContactView>,
    pub license: Option<LicenseView>,
}

impl View for Info {
    type V = InfoView;

    open spec fn view(&self) -> InfoView {
        InfoView {
            title: self.title@,
            version: self.version@,
            description: opt_view(self.description),
            terms_of_service: opt_view(self.terms_of_service),
            contact: opt_view(self.contact),
            license: opt_view(self.license),
        }
    }
}

/// Contact information for the API.
pub struct Contact {
    pub name: Option<String>,
    pub url: Option<String>,
    pub email: Option<String>,
}

/// Mirror of [`Contact`].
pub ghost struct ContactView {
    pub name: Option<Seq<char>>,
    pub url: Option<Seq<char>>,
    pub email: Option<Seq<char>>,
}

impl View for Contact {
    type V = ContactView;

    open spec fn view(&self) -> ContactView {
        ContactView {
            name: opt_view(self.name),
            url: opt_view(self.url),
            email: opt_view(self.email),
        }
    }
}

/// License information for the API.
pub struct License {
    pub name: String,
    pub url: Option<String>,
}

/// Mirror of [`License`].
pub ghost struct LicenseView {
    pub name: Seq<char>,
    pub url: Option<Seq<char>>,
}

impl View for License {
    type V = LicenseView;

    open spec fn view(&self) -> LicenseView {
        LicenseView { name: self.name@, url: opt_view(self.url) }
    }
}

/// A tag in the assembled document.
pub struct Tag {
    pub name: String,
    pub description: Option<String>,
    pub external_docs: Option<ExternalDocs>,
}

/// Mirror of [`Tag`].
pub ghost struct TagView {
    pub name: Seq<char>,
    pub description: Option<Seq<char>>,
    pub external_docs: Option<ExternalDocsView>,
}

impl View for Tag {
    type V = TagView;

    open spec fn view(&self) -> TagView {
        TagView {
            name: self.name@,
            description: opt_view(self.description),
            external_docs: opt_view(self.external_docs),
        }
    }
}

/// A link to documentation kept outside the document.
pub struct ExternalDocs {
    pub url: String,
    pub description: Option<String>,
}

/// Mirror of [`ExternalDocs`].
pub ghost struct ExternalDocsView {
    pub url: Seq<char>,
    pub description: Option<Seq<char>>,
}

impl View for ExternalDocs {
    type V = ExternalDocsView;

    open spec fn view(&self) -> ExternalDocsView {
        ExternalDocsView { url: self.url@, description: opt_view(self.description) }
    }
}

/// The operations registered under one path, one slot per HTTP method.
pub struct PathItem {
    pub get: Option<Operation>,
    pub post: Option<Operation>,
    pub put: Option<Operation>,
    pub delete: Option<Operation>,
    pub patch: Option<Operation>,
    pub head: Option<Operation>,
    pub options: Option<Operation>,
}

/// Mirror of [`PathItem`].
pub ghost struct PathItemView {
    pub get: Option<OperationView>,
    pub post: Option<OperationView>,
    pub put: Option<OperationView>,
    pub delete: Option<OperationView>,
    pub patch: Option<OperationView>,
    pub head: Option<OperationView>,
    pub options: Option<OperationView>,
}

impl View for PathItem {
    type V = PathItemView;

    open spec fn view(&self) -> PathItemView {
        PathItemView {
            get: opt_view(self.get),
            post: opt_view(self.post),
            put: opt_view(self.put),
            delete: opt_view(self.delete),
            patch: opt_view(self.patch),
            head: opt_view(self.head),
            options: opt_view(self.options),
        }
    }
}

impl PathItem {
    /// A path item with no operation in any method slot.
    pub fn empty() -> (r: PathItem)
        ensures
            r@ == (PathItemView {
                get: None::<OperationView>,
                post: None::<OperationView>,
                put: None::<OperationView>,
                delete: None::<OperationView>,
                patch: None::<OperationView>,
                head: None::<OperationView>,
                options: None::<OperationView>,
            }),
    {
        PathItem {
            get: None,
            post: None,
            put: None,
            delete: None,
            patch: None,
            head: None,
            options: None,
        }
    }
}

/// One operation of the assembled document.
pub struct Operation {
    pub summary: Option<String>,
    pub description: Option<String>,
    pub handler_function: Option<String>,
    pub tags: Vec<String>,
    pub parameters: Vec<Parameter>,
    pub request_body: Option<RequestBody>,
    pub responses: Vec<(String, Response)>,
    pub security: Option<Vec<SecurityRequirement>>,
}

/// Mirror of [`Operation`].
pub ghost struct OperationView {
    pub summary: Option<Seq<char>>,
    pub description: Option<Seq<char>>,
    pub handler_function: Option<Seq<char>>,
    pub tags: Seq<Seq<char>>,
    pub parameters: Seq<ParameterView>,
    pub request_body: Option<RequestBodyView>,
    pub responses: Seq<(Seq<char>, ResponseView)>,
    pub security: Option<Seq<SecurityRequirementView>>,
}

impl View for Operation {
    type V = OperationView;

    open spec fn view(&self) -> OperationView {
        OperationView {
            summary: opt_view(self.summary),
            description: opt_view(self.description),
            handler_function: opt_view(self.handler_function),
            tags: Seq::new(self.tags@.len(), |i: int| self.tags@[i]@),
            parameters: Seq::new(self.parameters@.len(), |i: int| self.parameters@[i]@),
            request_body: opt_view(self.request_body),
            responses: pair_views(self.responses@),
            security: match self.security {
                Some(reqs) => Some(Seq::new(reqs@.len(), |i: int| reqs@[i]@)),
                None => None,
            },
        }
    }
}

/// A security requirement attached to an operation: the name of a scheme
/// declared under the components section, with its required scopes.
pub struct SecurityRequirement {
    pub scheme: String,
    pub scopes: Vec<String>,
}

/// Mirror of [`SecurityRequirement`].
pub ghost struct SecurityRequirementView {
    pub scheme: Seq<char>,
    pub scopes: Seq<Seq<char>>,
}

impl View for SecurityRequirement {
    type V = SecurityRequirementView;

    open spec fn view(&self) -> SecurityRequirementView {
        SecurityRequirementView {
            scheme: self.scheme@,
            scopes: Seq::new(self.scopes@.len(), |i: int| self.scopes@[i]@),
        }
    }
}

/// One request parameter of an operation.
pub struct Parameter {
    pub name: String,
    pub location: String,
    pub description: Option<String>,
    pub required: bool,
    pub schema: ReferenceOr<Schema>,
}

/// Mirror of [`Parameter`].
pub ghost struct ParameterView {
    pub name: Seq<char>,
    pub location: Seq<char>,
    pub description: Option<Seq<char>>,
    pub required: bool,
    pub schema: ReferenceOrView<SchemaView>,
}

impl View for Parameter {
    type V = ParameterView;

    open spec fn view(&self) -> ParameterView {
        ParameterView {
            name: self.name@,
            location: self.location@,
            description: opt_view(self.description),
            required: self.required,
            schema: self.schema@,
        }
    }
}

/// The request body of an operation.
pub struct RequestBody {
    pub description: Option<String>,
    pub content: Vec<(String, MediaType)>,
    pub required: bool,
}

/// Mirror of [`RequestBody`].
pub ghost struct RequestBodyView {
    pub description: Option<Seq<char>>,
    pub content: Seq<(Seq<char>, MediaTypeView)>,
    pub required: bool,
}

impl View for RequestBody {
    type V = RequestBodyView;

    open spec fn view(&self) -> RequestBodyView {
        RequestBodyView {
            description: opt_view(self.description),
            content: pair_views(self.content@),
            required: self.required,
        }
    }
}

/// One response of an operation, keyed by status code.
pub struct Response {
    pub description: String,
    pub content: Option<Vec<(String, MediaType)>>,
}

/// Mirror of [`Response`].
pub ghost struct ResponseView {
    pub description: Seq<char>,
    pub content: Option<Seq<(Seq<char>, MediaTypeView)>>,
}

impl View for Response {
    type V = ResponseView;

    open spec fn view(&self) -> ResponseView {
        ResponseView {
            description: self.description@,
            content: match self.content {
                Some(c) => Some(pair_views(c@)),
                None => None,
            },
        }
    }
}

/// The payload description under one content type.
pub struct MediaType {
    pub schema: Option<ReferenceOr<Schema>>,
}

/// Mirror of [`MediaType`].
pub ghost struct MediaTypeView {
    pub schema: Option<ReferenceOrView<SchemaView>>,
}

impl View for MediaType {
    type V = MediaTypeView;

    open spec fn view(&self) -> MediaTypeView {
        MediaTypeView { schema: opt_view(self.schema) }
    }
}

/// The components section of the assembled document. Schemas are kept as
/// raw JSON text, exactly as registered; security schemes are typed.
pub struct Components {
    pub schemas: Vec<(String, String)>,
    pub security_schemes: Option<Vec<(String, SecurityScheme)>>,
}

/// Mirror of [`Components`].
pub ghost struct ComponentsView {
    pub schemas: Seq<(Seq<char>, Seq<char>)>,
    pub security_schemes: Option<Seq<(Seq<char>, SecuritySchemeView)>>,
}

impl View for Components {
    type V = ComponentsView;

    open spec fn view(&self) -> ComponentsView {
        ComponentsView {
            schemas: pair_views(self.schemas@),
            security_schemes: match self.security_schemes {
                Some(s) => Some(pair_views(s@)),
                None => None,
            },
        }
    }
}

/// A security scheme definition for API authentication.
pub struct SecurityScheme {
    /// The kind of scheme: `apiKey`, `http`, `oauth2` or `openIdConnect`.
    pub scheme_type: String,
    /// A short description of the scheme.
    pub description: Option<String>,
    /// The parameter name carrying the key (`apiKey` schemes only).
    pub name: Option<String>,
    /// Where the key travels: `query`, `header` or `cookie` (`apiKey` only).
    pub location: Option<String>,
    /// The HTTP authorization scheme name (`http` schemes only).
    pub scheme: Option<String>,
    /// How a bearer token is formatted (`http` bearer only).
    pub bearer_format: Option<String>,
}

/// Mirror of [`SecurityScheme`].
pub ghost struct SecuritySchemeView {
    pub scheme_type: Seq<char>,
    pub description: Option<Seq<char>>,
    pub name: Option<Seq<char>>,
    pub location: Option<Seq<char>>,
    pub scheme: Option<Seq<char>>,
    pub bearer_format: Option<Seq<char>>,
}

impl View for SecurityScheme {
    type V = SecuritySchemeView;

    open spec fn view(&self) -> SecuritySchemeView {
        SecuritySchemeView {
            scheme_type: self.scheme_type@,
            description: opt_view(self.description),
            name: opt_view(self.name),
            location: opt_view(self.location),
            scheme: opt_view(self.scheme),
            bearer_format: opt_view(self.bearer_format),
        }
    }
}

impl SecurityScheme {
    /// An API-key scheme carried in the named parameter at the named place.
    pub fn api_key(name: &str, location: &str) -> (r: SecurityScheme)
        ensures
            r@ == (SecuritySchemeView {
                scheme_type: ("apiKey")@,
                description: None::<Seq<char>>,
                name: Some(name@),
                location: Some(location@),
                scheme: None::<Seq<char>>,
                bearer_format: None::<Seq<char>>,
            }),
    {
        SecurityScheme {
            scheme_type: ("apiKey").to_owned(),
            description: None,
            name: Some(name.to_owned()),
            location: Some(location.to_owned()),
            scheme: None,
            bearer_format: None,
        }
    }

    /// An HTTP scheme with the given authorization scheme name.
    pub fn http(scheme: &str) -> (r: SecurityScheme)
        ensures
            r@ == (SecuritySchemeView {
                scheme_type: ("http")@,
                description: None::<Seq<char>>,
                name: None::<Seq<char>>,
                location: None::<Seq<char>>,
                scheme: Some(scheme@),
                bearer_format: None::<Seq<char>>,
            }),
    {
        SecurityScheme {
            scheme_type: ("http").to_owned(),
            description: None,
            name: None,
            location: None,
            scheme: Some(scheme.to_owned()),
            bearer_format: None,
        }
    }

    /// An HTTP bearer-token scheme, optionally naming the token format.
    pub fn bearer(bearer_format: Option<&str>) -> (r: SecurityScheme)
        ensures
            r@ == (SecuritySchemeView {
                scheme_type: ("http")@,
                description: None::<Seq<char>>,
                name: None::<Seq<char>>,
                location: None::<Seq<char>>,
                scheme: Some(("bearer")@),
                bearer_format: match bearer_format {
                    Some(f) => Some(f@),
                    None => None,
                },
            }),
    {
        SecurityScheme {
            scheme_type: ("http").to_owned(),
            description: None,
            name: None,
            location: None,
            scheme: Some(("bearer").to_owned()),
            bearer_format: match bearer_format {
                Some(f) => Some(f.to_owned()),
                None => None,
            },
        }
    }

    /// The same scheme with the given description attached.
    pub fn with_description(self, description: &str) -> (r: SecurityScheme)
        ensures
            r@ == (SecuritySchemeView { description: Some(description@), ..self@ }),
    {
        SecurityScheme { description: Some(description.to_owned()), ..self }
    }
}

/// A JSON Schema value constructed by the assembler. The assembler builds
/// only flat object and string schemas, so properties hold non-recursive
/// property schemas.
pub struct Schema {
    pub schema_type: Option<String>,
    pub title: Option<String>,
    pub description: Option<String>,
    pub properties: Option<Vec<(String, PropertySchema)>>,
    pub required: Option<Vec<String>>,
    /// A `$ref` to another schema, as an alternative to an inline value.
    pub reference: Option<String>,
    /// An example value, kept on string schemas built from parameters.
    pub example: Option<String>,
    /// A default value, kept on string schemas built from parameters.
    pub default_value: Option<String>,
}

/// Mirror of [`Schema`].
pub ghost struct SchemaView {
    pub schema_type: Option<Seq<char>>,
    pub title: Option<Seq<char>>,
    pub description: Option<Seq<char>>,
    pub properties: Option<Seq<(Seq<char>, PropertySchemaView)>>,
    pub required: Option<Seq<Seq<char>>>,
    pub reference: Option<Seq<char>>,
    pub example: Option<Seq<char>>,
    pub default_value: Option<Seq<char>>,
}

impl View for Schema {
    type V = SchemaView;

    open spec fn view(&self) -> SchemaView {
        SchemaView {
            schema_type: opt_view(self.schema_type),
            title: opt_view(self.title),
            description: opt_view(self.description),
            properties: match self.properties {
                Some(ps) => Some(pair_views(ps@)),
                None => None,
            },
            required: match self.required {
                Some(rs) => Some(Seq::new(rs@.len(), |i: int| rs@[i]@)),
                None => None,
            },
            reference: opt_view(self.reference),
            example: opt_view(self.example),
            default_value: opt_view(self.default_value),
        }
    }
}

/// The mirror of the default schema: a generic object.
pub open spec fn default_schema_view() -> SchemaView {
    SchemaView {
        schema_type: Some(("object")@),
        title: None,
        description: None,
        properties: None,
        required: None,
        reference: None,
        example: None,
        default_value: None,
    }
}

impl Default for Schema {
    /// A generic object schema with nothing else set.
    fn default() -> (r: Schema)
        ensures
            r@ == default_schema_view(),
    {
        Schema {
            schema_type: Some(("object").to_owned()),
            title: None,
            description: None,
            properties: None,
            required: None,
            reference: None,
            example: None,
            default_value: None,
        }
    }
}

/// One property of a flat object schema: its type and its description.
pub struct PropertySchema {
    pub schema_type: String,
    pub description: String,
}

/// Mirror of [`PropertySchema`].
pub ghost struct PropertySchemaView {
    pub schema_type: Seq<char>,
    pub description: Seq<char>,
}

impl View for PropertySchema {
    type V = PropertySchemaView;

    open spec fn view(&self) -> PropertySchemaView {
        PropertySchemaView { schema_type: self.schema_type@, description: self.description@ }
    }
}

impl OpenAPI {
    /// A fresh document with the given title and version, the fixed
    /// version marker, no paths, no components and no tags.
    pub fn new(title: &str, version: &str) -> (r: OpenAPI)
        ensures
            r@ == (OpenAPIView {
                openapi: ("3.0.0")@,
                info: InfoView {
                    title: title@,
                    version: version@,
                    description: None::<Seq<char>>,
                    terms_of_service: None::<Seq<char>>,
                    contact: None::<ContactView>,
                    license: None::<LicenseView>,
                },
                paths: Seq::<(Seq<char>, PathItemView)>::empty(),
                components: None::<ComponentsView>,
                tags: None::<Seq<TagView>>,
            }),
    {
        let r = OpenAPI {
            openapi: ("3.0.0").to_owned(),
            info: Info {
                title: title.to_owned(),
                version: version.to_owned(),
                description: None,
                terms_of_service: None,
                contact: None,
                license: None,
            },
            paths: Vec::new(),
            components: None,
            tags: None,
        };
        proof {
            assert(pair_views(r.paths@) =~= Seq::<(Seq<char>, PathItemView)>::empty());
        }
        r
    }
}

} // verus!
