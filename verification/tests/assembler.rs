// Tests of the assembler: route tracking, grouping, path conversion and
// whole-document assembly.

use machined_openapi_gen::{ApiRouter, HandlerDocumentation, MethodHandlers, RouteInfo,
    SchemaRegistration};
use machined_openapi_gen::router::{build_components, build_method, build_path,
    build_security_schemes, convert_path_to_openapi, group_routes_by_path, has_auth_endpoints,
    normalize_prefix};

fn route_info(path: &str, method: &str, name: &str, summary: &str) -> RouteInfo {
    RouteInfo {
        path: path.to_string(),
        method: method.to_string(),
        function_name: name.to_string(),
        summary: Some(summary.to_string()),
        description: None,
    }
}

fn handler_doc(
    name: &str,
    summary: &str,
    description: &str,
    parameters: &str,
    responses: &str,
    request_body: &str,
    tags: &str,
) -> HandlerDocumentation {
    HandlerDocumentation {
        function_name: name.to_string(),
        summary: summary.to_string(),
        description: description.to_string(),
        parameters: parameters.to_string(),
        responses: responses.to_string(),
        request_body: request_body.to_string(),
        tags: tags.to_string(),
    }
}

#[test]
fn test_route_tracking() {
    let router = ApiRouter::new("Test API", "1.0.0");

    assert_eq!(router.routes.len(), 0);
}

#[test]
fn test_api_router_creation() {
    let router = ApiRouter::new("Test API", "1.0.0");
    let spec = router.openapi_spec();

    assert_eq!(spec.info.title, "Test API");
    assert_eq!(spec.info.version, "1.0.0");
}

#[test]
fn test_api_description() {
    let router = ApiRouter::new("Test API", "1.0.0").description("Test API for testing");

    let spec = router.openapi_spec();
    assert_eq!(spec.info.description, Some("Test API for testing".to_string()));
}

#[test]
fn test_terms_of_service() {
    let router = ApiRouter::new("Test API", "1.0.0").terms_of_service("https://example.com/terms");

    let spec = router.openapi_spec();
    assert_eq!(spec.info.terms_of_service, Some("https://example.com/terms".to_string()));
}

#[test]
fn test_contact_info() {
    let router = ApiRouter::new("Test API", "1.0.0").contact(
        Some("Test Team"),
        Some("https://example.com"),
        Some("test@example.com"),
    );

    let spec = router.openapi_spec();
    assert!(spec.info.contact.is_some());

    let contact = spec.info.contact.as_ref().unwrap();
    assert_eq!(contact.name, Some("Test Team".to_string()));
    assert_eq!(contact.url, Some("https://example.com".to_string()));
    assert_eq!(contact.email, Some("test@example.com".to_string()));
}

#[test]
fn test_contact_email_only() {
    let router = ApiRouter::new("Test API", "1.0.0").contact_email("test@example.com");

    let spec = router.openapi_spec();
    assert!(spec.info.contact.is_some());

    let contact = spec.info.contact.as_ref().unwrap();
    assert_eq!(contact.email, Some("test@example.com".to_string()));
    assert_eq!(contact.name, None);
    assert_eq!(contact.url, None);
}

#[test]
fn test_license() {
    let router =
        ApiRouter::new("Test API", "1.0.0").license("MIT", Some("https://opensource.org/licenses/MIT"));

    let spec = router.openapi_spec();
    assert!(spec.info.license.is_some());

    let license = spec.info.license.as_ref().unwrap();
    assert_eq!(license.name, "MIT");
    assert_eq!(license.url, Some("https://opensource.org/licenses/MIT".to_string()));
}

#[test]
fn test_tag_addition() {
    let router = ApiRouter::new("Test API", "1.0.0")
        .tag("users", Some("User operations"))
        .tag("admin", None);

    let spec = router.openapi_spec();
    assert_eq!(spec.tags.len(), 2);

    assert_eq!(spec.tags[0].name, "users");
    assert_eq!(spec.tags[0].description, Some("User operations".to_string()));

    assert_eq!(spec.tags[1].name, "admin");
    assert_eq!(spec.tags[1].description, None);
}

#[test]
fn test_tag_with_external_docs() {
    let router = ApiRouter::new("Test API", "1.0.0").tag_with_docs(
        "users",
        Some("User operations"),
        Some("Learn more"),
        "https://example.com/docs",
    );

    let spec = router.openapi_spec();
    assert_eq!(spec.tags.len(), 1);

    let tag = &spec.tags[0];
    assert_eq!(tag.name, "users");
    assert_eq!(tag.description, Some("User operations".to_string()));
    assert!(tag.external_docs.is_some());

    let docs = tag.external_docs.as_ref().unwrap();
    assert_eq!(docs.description, Some("Learn more".to_string()));
    assert_eq!(docs.url, "https://example.com/docs");
}

#[test]
fn test_convert_path_to_openapi() {
    assert_eq!(convert_path_to_openapi("/users/:id"), "/users/{id}");
    assert_eq!(convert_path_to_openapi("/users/:id/posts/:post_id"), "/users/{id}/posts/{post_id}");
    assert_eq!(convert_path_to_openapi("/static"), "/static");
    assert_eq!(convert_path_to_openapi("/"), "/");
}

#[test]
fn test_with_openapi_routes_prefix_normalization() {
    assert_eq!(normalize_prefix(""), "/openapi");
    assert_eq!(normalize_prefix("/openapi"), "/openapi");
    assert_eq!(normalize_prefix("openapi"), "/openapi");
    assert_eq!(normalize_prefix("/api/docs"), "/api/docs");
    assert_eq!(normalize_prefix("/api/docs/"), "/api/docs");
    assert_eq!(normalize_prefix("api/docs"), "/api/docs");
    assert_eq!(normalize_prefix("api/docs/"), "/api/docs");
}

#[test]
fn test_handler_name_tracking() {
    let router: ApiRouter =
        ApiRouter::new("Test API", "1.0.0").route("/test", MethodHandlers::new().get("test_handler"));

    assert_eq!(router.routes.len(), 1);
    let route = &router.routes[0];
    assert_eq!(route.path, "/test");
    assert_eq!(route.method, "GET");
    assert_eq!(route.function_name, "test_handler");
}

#[test]
fn test_multiple_methods_tracking() {
    let router: ApiRouter = ApiRouter::new("Test API", "1.0.0")
        .route("/items", MethodHandlers::new().get("get_items").post("create_item"));

    assert_eq!(router.routes.len(), 2);

    let get_route = router.routes.iter().find(|r| r.method == "GET").unwrap();
    assert_eq!(get_route.function_name, "get_items");

    let post_route = router.routes.iter().find(|r| r.method == "POST").unwrap();
    assert_eq!(post_route.function_name, "create_item");
}

#[test]
fn test_openapi_includes_handler_names() {
    let mut router: ApiRouter =
        ApiRouter::new("Test API", "1.0.0").route("/users", MethodHandlers::new().get("list_users"));

    let openapi_json = router.openapi_json();

    assert!(openapi_json.contains("\"/users\""));
    assert!(openapi_json.contains("GET /users"));
}

#[test]
fn test_group_routes_by_path() {
    let routes = vec![
        route_info("/users", "GET", "get_users", "Get all users"),
        route_info("/users", "POST", "create_user", "Create a user"),
        route_info("/users/:id", "GET", "get_user", "Get a user"),
    ];

    let grouped = group_routes_by_path(&routes);

    assert_eq!(grouped.len(), 2);
    assert_eq!(grouped[0].0, "/users");
    assert_eq!(grouped[0].1.len(), 2);
    assert_eq!(grouped[1].0, "/users/:id");
    assert_eq!(grouped[1].1.len(), 1);
}

#[test]
fn test_build_method() {
    let registry: Vec<SchemaRegistration> = Vec::new();
    let route = route_info("/test", "GET", "test_handler", "Test summary");

    let operation = build_method(&route, None, &registry);

    assert_eq!(operation.summary, Some("Test summary".to_string()));
    assert_eq!(operation.handler_function, Some("test_handler".to_string()));
    assert_eq!(operation.responses.len(), 1);
    assert_eq!(operation.responses[0].0, "200");
    assert_eq!(operation.responses[0].1.description, "Successful response");
}

#[test]
fn test_build_path() {
    let registry: Vec<SchemaRegistration> = Vec::new();
    let handlers: Vec<HandlerDocumentation> = Vec::new();
    let group = vec![
        route_info("/users", "GET", "get_users", "Get all users"),
        route_info("/users", "POST", "create_user", "Create a user"),
    ];

    let path_item = build_path(&group, &handlers, &registry);

    assert!(path_item.get.is_some());
    assert!(path_item.post.is_some());
    assert_eq!(path_item.get.as_ref().unwrap().summary, Some("Get all users".to_string()));
    assert_eq!(path_item.post.as_ref().unwrap().summary, Some("Create a user".to_string()));
}

#[test]
fn test_build_paths() {
    let registry: Vec<SchemaRegistration> = Vec::new();
    let handlers: Vec<HandlerDocumentation> = Vec::new();
    let routes = vec![
        route_info("/users", "GET", "get_users", "Get all users"),
        route_info("/items/:id", "GET", "get_item", "Get an item"),
    ];

    let paths = machined_openapi_gen::router::build_paths(&routes, &handlers, &registry);

    assert_eq!(paths.len(), 2);
    assert_eq!(paths[0].0, "/users");
    assert_eq!(paths[1].0, "/items/{id}");
    assert!(paths[0].1.get.is_some());
    assert!(paths[1].1.get.is_some());
}

#[test]
fn test_has_auth_endpoints() {
    let handlers = vec![handler_doc(
        "secure_handler",
        "Secure",
        "Needs a session",
        r#"["__REQUIRES_AUTH__"]"#,
        "[]",
        "[]",
        "[]",
    )];
    let routes = vec![route_info("/secure", "GET", "secure_handler", "GET /secure")];
    assert!(has_auth_endpoints(&routes, &handlers));

    let open_routes = vec![route_info("/open", "GET", "open_handler", "GET /open")];
    assert!(!has_auth_endpoints(&open_routes, &handlers));
}

#[test]
fn test_build_security_schemes() {
    let schemes = build_security_schemes();

    assert_eq!(schemes.len(), 1);
    assert_eq!(schemes[0].0, "sessionAuth");
    let session_auth = &schemes[0].1;
    assert_eq!(session_auth.scheme_type, "apiKey");
    assert_eq!(session_auth.name, Some("x-session-secret".to_string()));
    assert_eq!(session_auth.location, Some("header".to_string()));
}

#[test]
fn test_build_components() {
    let registry: Vec<SchemaRegistration> = Vec::new();
    let used: Vec<String> = Vec::new();

    let components_empty = build_components(&registry, &used, false);
    assert!(components_empty.is_none());

    let components_auth = build_components(&registry, &used, true);
    assert!(components_auth.is_some());
    let comp = components_auth.unwrap();
    assert!(comp.security_schemes.is_some());
    assert_eq!(comp.security_schemes.as_ref().unwrap()[0].0, "sessionAuth");
}

#[test]
fn test_openapi_json_structure() {
    let mut router = ApiRouter::new("Test API", "1.0.0")
        .description("Test Description")
        .tag("test", Some("Test operations"));

    let json = router.openapi_json();

    assert!(json.contains(r#""openapi":"3.0.0""#));
    assert!(json.contains(r#""title":"Test API""#));
    assert!(json.contains(r#""version":"1.0.0""#));
    assert!(json.contains(r#""description":"Test Description""#));
    assert!(json.contains(r#""paths":{"#));
    assert!(json.contains(r#""tags":["#));
}

#[test]
fn test_empty_input_determinism() {
    let mut router = ApiRouter::new("Empty API", "0.1.0");
    let json = router.openapi_json();
    let parsed: serde_json::Value = serde_json::from_str(&json).unwrap();

    assert!(parsed["paths"].as_object().unwrap().is_empty());
    assert!(!parsed.as_object().unwrap().contains_key("components"));
    assert!(!parsed.as_object().unwrap().contains_key("tags"));
}

#[test]
fn test_assembly_idempotent() {
    let mut router = ApiRouter::new("Stable API", "1.0.0").tag("users", None);
    router.register_schema(SchemaRegistration {
        name: "User".to_string(),
        schema_json: r#"{"type":"object"}"#.to_string(),
    });
    router.register_handler(HandlerDocumentation {
        function_name: "get_user".to_string(),
        summary: "Get user".to_string(),
        description: "Gets one user".to_string(),
        parameters: r#"["id (path): The user ID"]"#.to_string(),
        responses: r#"["200: Returns the User record"]"#.to_string(),
        request_body: "[]".to_string(),
        tags: r#"["users"]"#.to_string(),
    });
    let mut router = router.route("/users/:id", MethodHandlers::new().get("get_user"));

    let first = router.openapi_json();
    let second = router.openapi_json();
    assert_eq!(first, second);
}

#[test]
fn test_transitive_schema_dependencies() {
    let mut router = ApiRouter::new("Chained API", "1.0.0");
    router.register_schema(SchemaRegistration {
        name: "A".to_string(),
        schema_json: r##"{"type":"object","properties":{"b":{"$ref":"#/components/schemas/B"}}}"##
            .to_string(),
    });
    router.register_schema(SchemaRegistration {
        name: "B".to_string(),
        schema_json: r##"{"type":"object","properties":{"c":{"$ref":"#/components/schemas/C"}}}"##
            .to_string(),
    });
    router.register_schema(SchemaRegistration {
        name: "C".to_string(),
        schema_json: r#"{"type":"object"}"#.to_string(),
    });
    router.register_schema(SchemaRegistration {
        name: "Unrelated".to_string(),
        schema_json: r#"{"type":"object"}"#.to_string(),
    });
    router.register_handler(HandlerDocumentation {
        function_name: "make_a".to_string(),
        summary: "Make an A".to_string(),
        description: "Builds one A".to_string(),
        parameters: "[]".to_string(),
        responses: r#"["201: Created"]"#.to_string(),
        request_body: r#"["Type: A"]"#.to_string(),
        tags: "[]".to_string(),
    });
    let mut router = router.route("/a", MethodHandlers::new().post("make_a"));

    let json = router.openapi_json();
    let parsed: serde_json::Value = serde_json::from_str(&json).unwrap();
    let schemas = parsed["components"]["schemas"].as_object().unwrap();
    assert!(schemas.contains_key("A"));
    assert!(schemas.contains_key("B"));
    assert!(schemas.contains_key("C"));
    assert!(!schemas.contains_key("Unrelated"));

    let unused = router.get_unused_schemas_current();
    assert_eq!(unused, vec!["Unrelated".to_string()]);
}

#[test]
fn test_unused_schema_detection() {
    let mut router = ApiRouter::new("Test", "1.0");
    for (name, json) in [
        ("UserResponse", r#"{"type":"object"}"#),
        ("GetUserError", r#"{"type":"object"}"#),
        ("CreateUserRequest", r#"{"type":"object"}"#),
        ("UpdateUserRequest", r#"{"type":"object"}"#),
    ] {
        router.register_schema(SchemaRegistration {
            name: name.to_string(),
            schema_json: json.to_string(),
        });
    }
    router.register_handler(HandlerDocumentation {
        function_name: "get_user".to_string(),
        summary: "Get".to_string(),
        description: "Gets".to_string(),
        parameters: "[]".to_string(),
        responses: r#"["200: Successfully retrieved UserResponse information", "404: User not found GetUserError"]"#
            .to_string(),
        request_body: "[]".to_string(),
        tags: "[]".to_string(),
    });
    let mut router = router.route("/users/:id", MethodHandlers::new().get("get_user"));

    let unused = router.get_unused_schemas();

    assert!(!unused.is_empty());
    assert!(unused.len() < 4);
    assert!(!unused.contains(&"UserResponse".to_string()));
    assert!(!unused.contains(&"GetUserError".to_string()));
    assert!(unused.contains(&"CreateUserRequest".to_string()));
    assert!(unused.contains(&"UpdateUserRequest".to_string()));
    // The report is sorted.
    let mut sorted = unused.clone();
    sorted.sort();
    assert_eq!(unused, sorted);
}

#[test]
fn test_openapi_only_includes_used_schemas() {
    let mut router = ApiRouter::new("Test", "1.0");
    for name in ["GreetResponse", "GreetError", "DeleteUserError", "CreateUserError", "UserResponse"] {
        router.register_schema(SchemaRegistration {
            name: name.to_string(),
            schema_json: r#"{"type":"object"}"#.to_string(),
        });
    }

    let openapi_json = router.openapi_json();

    // No routes are registered, so no schema is included.
    assert!(!openapi_json.contains("GreetResponse"));
    assert!(!openapi_json.contains("GreetError"));
    assert!(!openapi_json.contains("DeleteUserError"));
    assert!(!openapi_json.contains("CreateUserError"));
    assert!(!openapi_json.contains("UserResponse"));

    assert!(openapi_json.contains(r#""paths":{}"#));
}

#[test]
fn test_auth_sentinel_end_to_end() {
    let mut router = ApiRouter::new("Secure API", "1.0.0");
    router.register_handler(HandlerDocumentation {
        function_name: "secret".to_string(),
        summary: "Secret".to_string(),
        description: "Needs a session".to_string(),
        parameters: r#"["__REQUIRES_AUTH__", "id (path): The record ID"]"#.to_string(),
        responses: r#"["200: Found it"]"#.to_string(),
        request_body: "[]".to_string(),
        tags: "[]".to_string(),
    });
    let mut router = router.route("/secret/:id", MethodHandlers::new().get("secret"));

    let json = router.openapi_json();
    let parsed: serde_json::Value = serde_json::from_str(&json).unwrap();
    let op = &parsed["paths"]["/secret/{id}"]["get"];

    // (a) the sentinel does not appear among the parameters
    let params = op["parameters"].as_array().unwrap();
    assert_eq!(params.len(), 1);
    assert_eq!(params[0]["name"], "id");

    // (b) an unauthorised response was appended
    assert!(op["responses"].as_object().unwrap().contains_key("401"));

    // (c) the security requirement is attached
    assert_eq!(op["security"][0]["sessionAuth"].as_array().unwrap().len(), 0);

    // (d) the security schemes section is present and non-empty
    let schemes = parsed["components"]["securitySchemes"].as_object().unwrap();
    assert!(schemes.contains_key("sessionAuth"));
    assert_eq!(schemes["sessionAuth"]["type"], "apiKey");
    assert_eq!(schemes["sessionAuth"]["name"], "x-session-secret");
    assert_eq!(schemes["sessionAuth"]["in"], "header");
}

#[test]
fn test_invalid_schema_text_degrades_to_object() {
    let mut router = ApiRouter::new("Broken API", "1.0.0");
    router.register_schema(SchemaRegistration {
        name: "Broken".to_string(),
        schema_json: "this is not json".to_string(),
    });
    router.register_handler(HandlerDocumentation {
        function_name: "make_broken".to_string(),
        summary: "Make".to_string(),
        description: "Makes".to_string(),
        parameters: "[]".to_string(),
        responses: "[]".to_string(),
        request_body: r#"["Type: Broken"]"#.to_string(),
        tags: "[]".to_string(),
    });
    let mut router = router.route("/broken", MethodHandlers::new().post("make_broken"));

    let json = router.openapi_json();
    let parsed: serde_json::Value = serde_json::from_str(&json).unwrap();
    assert_eq!(parsed["components"]["schemas"]["Broken"]["type"], "object");
}

#[test]
fn test_merge_routers() {
    let a = ApiRouter::new("A", "1.0").tag("shared", None).route(
        "/a",
        MethodHandlers::new().get("ha"),
    );
    let b = ApiRouter::new("B", "1.0").tag("shared", None).tag("extra", None).route(
        "/b",
        MethodHandlers::new().get("hb"),
    );
    let merged = a.merge(b);
    assert_eq!(merged.routes.len(), 2);
    assert_eq!(merged.openapi.info.title, "A");
    // Tag names are not repeated.
    assert_eq!(merged.openapi.tags.len(), 2);
}

#[test]
fn test_root_document_renderings() {
    let doc = machined_openapi_gen::OpenAPI::new("Tiny", "0.1.0");
    assert_eq!(
        doc.to_json(),
        r#"{"openapi":"3.0.0","info":{"title":"Tiny","version":"0.1.0"},"paths":{}}"#
    );
    assert_eq!(
        doc.to_yaml(),
        "openapi: 3.0.0\ninfo:\n  title: Tiny\n  version: 0.1.0\npaths: {}\n"
    );
}

#[test]
fn test_serde_based_functions() {
    let mut router = ApiRouter::new("Complete API", "1.0.0")
        .description("A complete test")
        .contact(Some("API Team"), Some("https://api.example.com"), Some("api@example.com"))
        .license("Apache 2.0", Some("https://www.apache.org/licenses/LICENSE-2.0"))
        .tag("users", Some("User operations"))
        .tag_with_docs(
            "admin",
            Some("Admin operations"),
            Some("More info"),
            "https://docs.example.com/admin",
        );

    let openapi_json = router.openapi_json();

    let parsed: serde_json::Value =
        serde_json::from_str(&openapi_json).expect("Should generate valid JSON");

    assert_eq!(parsed["openapi"], "3.0.0");
    assert_eq!(parsed["info"]["title"], "Complete API");
    assert_eq!(parsed["info"]["version"], "1.0.0");
    assert_eq!(parsed["info"]["description"], "A complete test");
    assert_eq!(parsed["info"]["contact"]["name"], "API Team");
    assert_eq!(parsed["info"]["contact"]["url"], "https://api.example.com");
    assert_eq!(parsed["info"]["contact"]["email"], "api@example.com");
    assert_eq!(parsed["info"]["license"]["name"], "Apache 2.0");
    assert_eq!(parsed["info"]["license"]["url"], "https://www.apache.org/licenses/LICENSE-2.0");

    assert!(parsed["tags"].is_array());
    assert_eq!(parsed["tags"][0]["name"], "users");
    assert_eq!(parsed["tags"][0]["description"], "User operations");
    assert_eq!(parsed["tags"][1]["name"], "admin");
    assert_eq!(parsed["tags"][1]["description"], "Admin operations");
    assert_eq!(parsed["tags"][1]["externalDocs"]["url"], "https://docs.example.com/admin");
    assert_eq!(parsed["tags"][1]["externalDocs"]["description"], "More info");
}
