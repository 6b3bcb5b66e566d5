// Tests of the document model and its JSON rendering.

use machined_openapi_gen::openapi::{Components, Info, OpenAPI, ReferenceOr, Schema,
    SecurityScheme, Tag, ExternalDocs};

#[test]
fn test_schema_default() {
    let schema = Schema::default();

    assert_eq!(schema.schema_type, Some("object".to_string()));
    assert_eq!(schema.title, None);
    assert_eq!(schema.description, None);
    assert!(schema.properties.is_none());
    assert!(schema.required.is_none());
}

#[test]
fn test_openapi_with_security_schemes() {
    let mut security_schemes = Vec::new();
    security_schemes.push(("bearerAuth".to_string(), SecurityScheme::bearer(Some("JWT"))));

    let components = Components { schemas: Vec::new(), security_schemes: Some(security_schemes) };

    let openapi = OpenAPI {
        openapi: "3.0.0".to_string(),
        info: Info {
            title: "Test API".to_string(),
            version: "1.0.0".to_string(),
            description: None,
            terms_of_service: None,
            contact: None,
            license: None,
        },
        paths: Vec::new(),
        components: Some(components),
        tags: None,
    };

    let json_result = openapi.to_json();
    assert!(json_result.is_ok());

    let json_str = json_result.unwrap();
    assert!(json_str.contains("securitySchemes"));
    assert!(json_str.contains("bearerAuth"));
}

#[test]
fn test_openapi_full_info() {
    let openapi = OpenAPI {
        openapi: "3.0.0".to_string(),
        info: Info {
            title: "Complete API".to_string(),
            version: "2.0.0".to_string(),
            description: Some("A complete API example".to_string()),
            terms_of_service: Some("https://example.com/terms".to_string()),
            contact: Some(machined_openapi_gen::openapi::Contact {
                name: Some("Support Team".to_string()),
                url: Some("https://example.com/support".to_string()),
                email: Some("support@example.com".to_string()),
            }),
            license: Some(machined_openapi_gen::openapi::License {
                name: "Apache 2.0".to_string(),
                url: Some("https://www.apache.org/licenses/LICENSE-2.0.html".to_string()),
            }),
        },
        paths: Vec::new(),
        components: None,
        tags: None,
    };

    let json_result = openapi.to_json();
    assert!(json_result.is_ok());

    let json_str = json_result.unwrap();
    assert!(json_str.contains("Complete API"));
    assert!(json_str.contains("termsOfService"));
    assert!(json_str.contains("Support Team"));
    assert!(json_str.contains("Apache 2.0"));
}

#[test]
fn test_minimal_openapi_serialization() {
    let api = OpenAPI::new("Test API", "1.0.0");

    let json_result = api.to_json().unwrap();
    let parsed: serde_json::Value = serde_json::from_str(&json_result).unwrap();

    assert_eq!(parsed["openapi"], "3.0.0");
    assert_eq!(parsed["info"]["title"], "Test API");
    assert_eq!(parsed["info"]["version"], "1.0.0");
    assert!(parsed["paths"].is_object());
    assert!(parsed["paths"].as_object().unwrap().is_empty());
}

#[test]
fn test_security_scheme_api_key() {
    let scheme = SecurityScheme::api_key("x-api-key", "header");

    assert_eq!(scheme.scheme_type, "apiKey");
    assert_eq!(scheme.name, Some("x-api-key".to_string()));
    assert_eq!(scheme.location, Some("header".to_string()));
    assert_eq!(scheme.scheme, None);
    assert_eq!(scheme.bearer_format, None);
}

#[test]
fn test_security_scheme_api_key_with_description() {
    let scheme = SecurityScheme::api_key("x-session-secret", "header")
        .with_description("API session token for authentication");

    assert_eq!(scheme.description, Some("API session token for authentication".to_string()));
}

#[test]
fn test_security_scheme_http_basic() {
    let scheme = SecurityScheme::http("basic");

    assert_eq!(scheme.scheme_type, "http");
    assert_eq!(scheme.scheme, Some("basic".to_string()));
    assert_eq!(scheme.name, None);
    assert_eq!(scheme.location, None);
}

#[test]
fn test_security_scheme_bearer() {
    let scheme = SecurityScheme::bearer(Some("JWT"));

    assert_eq!(scheme.scheme_type, "http");
    assert_eq!(scheme.scheme, Some("bearer".to_string()));
    assert_eq!(scheme.bearer_format, Some("JWT".to_string()));
}

#[test]
fn test_security_scheme_bearer_no_format() {
    let scheme: SecurityScheme = SecurityScheme::bearer(None);

    assert_eq!(scheme.bearer_format, None);
}

#[test]
fn test_reference_or_helpers() {
    let r: ReferenceOr<Schema> = ReferenceOr::new_ref("#/components/schemas/User");
    assert!(r.is_ref());
    assert_eq!(r.as_ref_str(), Some("#/components/schemas/User"));
    assert!(r.as_item().is_none());

    let item: ReferenceOr<Schema> = ReferenceOr::new_item(Schema::default());
    assert!(!item.is_ref());
    assert!(item.as_ref_str().is_none());
    assert!(item.as_item().is_some());
}

#[test]
fn test_document_tag_rendering() {
    let mut api = OpenAPI::new("Tagged API", "1.0.0");
    api.tags = Some(vec![
        Tag {
            name: "users".to_string(),
            description: Some("User operations".to_string()),
            external_docs: Some(ExternalDocs {
                url: "https://example.com/users".to_string(),
                description: Some("User API docs".to_string()),
            }),
        },
        Tag { name: "products".to_string(), description: None, external_docs: None },
    ]);

    let parsed: serde_json::Value =
        serde_json::from_str(&api.to_json().unwrap()).unwrap();
    assert_eq!(parsed["tags"][0]["name"], "users");
    assert_eq!(parsed["tags"][0]["description"], "User operations");
    assert_eq!(parsed["tags"][0]["externalDocs"]["url"], "https://example.com/users");
    assert_eq!(parsed["tags"][1]["name"], "products");
    assert!(!parsed["tags"][1].as_object().unwrap().contains_key("externalDocs"));
}

#[test]
fn test_json_escaping_in_document() {
    let api = OpenAPI::new("Quote \" and backslash \\ and\nnewline", "1.0.0");
    let text = api.to_json().unwrap();
    let parsed: serde_json::Value = serde_json::from_str(&text).unwrap();
    assert_eq!(parsed["info"]["title"], "Quote \" and backslash \\ and\nnewline");
}

#[test]
fn test_simple_struct_schema() {
    let schema_json = r#"{"type":"object","properties":{"id":{"type":"integer"},"name":{"type":"string"}},"required":["id","name"]}"#;
    assert!(!"UserResponse".is_empty());
    assert!(schema_json.contains("type"));

    assert!(schema_json.contains(r#""type":"object""#));
    assert!(schema_json.contains(r#""properties""#));
    assert!(schema_json.contains(r#""required""#));
}

#[test]
fn test_optional_fields_schema() {
    let schema_json = r#"{"type":"object","properties":{"id":{"type":"integer"},"nickname":{"type":"string"}},"required":["id"]}"#;
    assert!(!"ProfileResponse".is_empty());
    assert!(schema_json.contains("type"));

    assert!(schema_json.contains(r#""required":["id"]"#));
    assert!(
        !schema_json.contains("nickname") || !schema_json.contains(r#""required":["id","nickname"]"#)
    );
}

#[test]
fn test_nested_struct_schema() {
    let schema_json = r#"{"type":"object","properties":{"user":{"type":"object"},"preferences":{"type":"object"}},"required":["user","preferences"]}"#;
    assert!(!"UserWithPreferences".is_empty());
    assert!(schema_json.contains("type"));

    assert!(schema_json.contains(r#""user":{"type":"object"}"#));
    assert!(schema_json.contains(r#""preferences":{"type":"object"}"#));
}

#[test]
fn test_array_field_schema() {
    let schema_json =
        r#"{"type":"object","properties":{"items":{"type":"array"}},"required":["items"]}"#;
    assert!(!"ItemList".is_empty());
    assert!(schema_json.contains("type"));

    assert!(schema_json.contains(r#""type":"array""#));
}

#[test]
fn test_numeric_types_schema() {
    let schema_json = r#"{"type":"object","properties":{"age":{"type":"integer"},"height":{"type":"number"},"weight":{"type":"number"}},"required":["age","height","weight"]}"#;
    assert!(!"PersonMetrics".is_empty());
    assert!(schema_json.contains("type"));

    assert!(schema_json.contains(r#""age":{"type":"integer"}"#));
    assert!(schema_json.contains(r#""height":{"type":"number"}"#));
}

#[test]
fn test_boolean_field_schema() {
    let schema_json = r#"{"type":"object","properties":{"active":{"type":"boolean"},"verified":{"type":"boolean"}},"required":["active","verified"]}"#;
    assert!(!"UserStatus".is_empty());
    assert!(schema_json.contains("type"));

    assert!(schema_json.contains(r#""type":"boolean""#));
}
