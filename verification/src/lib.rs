//! Assembles an OpenAPI-style document from two append-only registries
//! (handler metadata and data schemas) and an ordered route table.
//!
//! The crate is organised around three verified subsystems:
//! a lenient line parser for the semi-structured handler metadata,
//! a schema-usage resolver that closes the used-schema set over `$ref`
//! occurrences, and a deterministic document assembler that emits the
//! final JSON text.

use vstd::prelude::*;
use vstd::string::StringExecFns;

pub mod laws;
pub mod emit;
pub mod parse;
pub mod resolve;
pub mod router;
pub mod trusted;
pub mod openapi;
pub mod strings;

pub use router::{ApiRouter, MethodHandlers};
pub use strings::sanitize_type_for_identifier;

verus! {

/// Root document value kept by the assembler while routes are registered:
/// the info section, the set of registered path strings, the components
/// section once assembled, and the declared tag list.
pub struct OpenAPI {
    pub info: Info,
    pub paths: Vec<String>,
    pub components: Option<Components>,
    pub tags: Vec<Tag>,
}

impl OpenAPI {
    /// A fresh document with the given title and version and nothing else.
    pub fn new(title: &str, version: &str) -> (r: OpenAPI)
        ensures
            r.info.title@ == title@,
            r.info.version@ == version@,
            r.info.description is None,
            r.info.terms_of_service is None,
            r.info.contact is None,
            r.info.license is None,
            r.paths@.len() == 0,
            r.components is None,
            r.tags@.len() == 0,
    {
        OpenAPI {
            info: Info {
                title: title.to_owned(),
                version: version.to_owned(),
                description: None,
                terms_of_service: None,
                contact: None,
                license: None,
            },
            paths: Vec::new(),
            components: None,
            tags: Vec::new(),
        }
    }
}

impl OpenAPI {
    /// The minimal JSON rendering of the root document: the fixed version
    /// marker, the title and version, and an empty paths section.
    pub fn to_json(&self) -> (r: String)
        ensures
            r@ == ("{\"openapi\":\"3.0.0\",\"info\":{\"title\":\"")@ + self.info.title@ + (
            "\",\"version\":\"")@ + self.info.version@ + ("\"},\"paths\":{}}")@,
    {
        let mut out = ("{\"openapi\":\"3.0.0\",\"info\":{\"title\":\"").to_owned();
        out.append(self.info.title.as_str());
        out.append("\",\"version\":\"");
        out.append(self.info.version.as_str());
        out.append("\"},\"paths\":{}}");
        out
    }

    /// The minimal YAML rendering of the root document.
    pub fn to_yaml(&self) -> (r: String)
        ensures
            r@ == ("openapi: 3.0.0\ninfo:\n  title: ")@ + self.info.title@ + (
            "\n  version: ")@ + self.info.version@ + ("\npaths: {}\n")@,
    {
        let mut out = ("openapi: 3.0.0\ninfo:\n  title: ").to_owned();
        out.append(self.info.title.as_str());
        out.append("\n  version: ");
        out.append(self.info.version.as_str());
        out.append("\npaths: {}\n");
        out
    }
}

/// The info section of the root document.
pub struct Info {
    pub title: String,
    pub version: String,
    pub description: Option<String>,
    pub terms_of_service: Option<String>,
    pub contact: Option<Contact>,
    pub license: Option<License>,
}

/// Contact information for the API.
pub struct Contact {
    pub name: Option<String>,
    pub url: Option<String>,
    pub email: Option<String>,
}

/// License information for the API.
pub struct License {
    pub name: String,
    pub url: Option<String>,
}

/// A declared tag: a name with an optional description and documentation link.
pub struct Tag {
    pub name: String,
    pub description: Option<String>,
    pub external_docs: Option<ExternalDocs>,
}

/// A link to documentation kept outside the document.
pub struct ExternalDocs {
    pub description: Option<String>,
    pub url: String,
}

/// The components section of the root document: schema names paired with
/// their JSON text.
pub struct Components {
    pub schemas: Vec<(String, String)>,
}

/// A routed endpoint: path in placeholder syntax (`:name` segments),
/// upper-case HTTP method, and the name of the handler function, with an
/// optional summary fallback used when the handler has no registered
/// documentation.
pub struct RouteInfo {
    pub path: String,
    pub method: String,
    pub function_name: String,
    pub summary: Option<String>,
    pub description: Option<String>,
}

/// One registry record of handler metadata. The four raw fields hold a
/// JSON-encoded array of strings each, in the metadata line grammar.
pub struct HandlerDocumentation {
    pub function_name: String,
    pub summary: String,
    pub description: String,
    pub parameters: String,
    pub responses: String,
    pub request_body: String,
    pub tags: String,
}

/// One registry record of a documented data type: the `$ref` target name
/// and the raw JSON Schema text, which may itself contain `$ref` strings
/// naming other registered types.
pub struct SchemaRegistration {
    pub name: String,
    pub schema_json: String,
}

impl View for SchemaRegistration {
    type V = (Seq<char>, Seq<char>);

    open spec fn view(&self) -> (Seq<char>, Seq<char>) {
        (self.name@, self.schema_json@)
    }
}

/// Mirror of [`HandlerDocumentation`].
pub ghost struct HandlerDocumentationView {
    pub function_name: Seq<char>,
    pub summary: Seq<char>,
    pub description: Seq<char>,
    pub parameters: Seq<char>,
    pub responses: Seq<char>,
    pub request_body: Seq<char>,
    pub tags: Seq<char>,
}

impl View for HandlerDocumentation {
    type V = HandlerDocumentationView;

    open spec fn view(&self) -> HandlerDocumentationView {
        HandlerDocumentationView {
            function_name: self.function_name@,
            summary: self.summary@,
            description: self.description@,
            parameters: self.parameters@,
            responses: self.responses@,
            request_body: self.request_body@,
            tags: self.tags@,
        }
    }
}

/// Mirror of [`RouteInfo`].
pub ghost struct RouteInfoView {
    pub path: Seq<char>,
    pub method: Seq<char>,
    pub function_name: Seq<char>,
    pub summary: Option<Seq<char>>,
    pub description: Option<Seq<char>>,
}

impl View for RouteInfo {
    type V = RouteInfoView;

    open spec fn view(&self) -> RouteInfoView {
        RouteInfoView {
            path: self.path@,
            method: self.method@,
            function_name: self.function_name@,
            summary: crate::openapi::opt_view(self.summary),
            description: crate::openapi::opt_view(self.description),
        }
    }
}

/// A documented data type can state its own JSON Schema text; the default
/// is a generic object schema.
pub trait OpenApiSchema {
    fn schema() -> (r: String) {
        let s: &str = "{\"type\":\"object\"}";
        s.to_owned()
    }
}

} // verus!
