// Tests of handler metadata records and their raw encoded fields.

use machined_openapi_gen::{ApiRouter, HandlerDocumentation, MethodHandlers, RouteInfo,
    SchemaRegistration};
use machined_openapi_gen::router::{build_method, find_doc, parse_parameters_raw};
use machined_openapi_gen::resolve::parse_request_body_raw;

fn record(
    function_name: &str,
    summary: &str,
    description: &str,
    parameters: &str,
    responses: &str,
    request_body: &str,
    tags: &str,
) -> HandlerDocumentation {
    HandlerDocumentation {
        function_name: function_name.to_string(),
        summary: summary.to_string(),
        description: description.to_string(),
        parameters: parameters.to_string(),
        responses: responses.to_string(),
        request_body: request_body.to_string(),
        tags: tags.to_string(),
    }
}

#[test]
fn test_simple_get_handler_no_params() {
    let docs = record(
        "list_items",
        "List all items",
        "Returns a list of all available items",
        "[]",
        r#"["200: Returns list of items"]"#,
        "[]",
        r#"["items"]"#,
    );

    assert_eq!(docs.function_name, "list_items");
    assert_eq!(docs.summary, "List all items");
    assert!(docs.parameters.contains("[]"));
    assert!(docs.request_body.contains("[]"));
}

#[test]
fn test_get_handler_with_path_param() {
    let docs = record(
        "get_user",
        "Get user by ID",
        "Retrieves a specific user by their ID",
        r#"["id (path): The user's unique identifier"]"#,
        r#"["200: User found", "404: User not found"]"#,
        "[]",
        r#"["users"]"#,
    );

    assert!(docs.parameters.contains("id (path)"));
    assert!(docs.responses.contains("404: User not found"));
}

#[test]
fn test_post_handler_with_json_body() {
    let docs = record(
        "create_user",
        "Create new user",
        "Creates a new user account",
        "[]",
        r#"["201: User created", "400: Invalid input"]"#,
        r#"["Type: CreateUserRequest", "Content-Type: application/json", "User creation data"]"#,
        r#"["users", "admin"]"#,
    );

    assert!(docs.request_body.contains("Type: CreateUserRequest"));
    assert!(docs.request_body.contains("application/json"));
    assert!(docs.tags.contains("admin"));
}

#[test]
fn test_handler_with_query_params() {
    let docs = record(
        "search_users",
        "Search users",
        "Search for users with filters",
        r#"["q (query): Search query", "limit (query): Maximum results", "offset (query): Pagination offset"]"#,
        r#"["200: Search results"]"#,
        "[]",
        r#"["users", "search"]"#,
    );

    assert!(docs.parameters.contains("q (query)"));
    assert!(docs.parameters.contains("limit (query)"));
    assert!(docs.parameters.contains("offset (query)"));
}

#[test]
fn test_handler_with_multiple_path_params() {
    let docs = record(
        "get_org_user",
        "Get organization user",
        "Get a specific user within an organization",
        r#"["org_id (path): Organization ID", "user_id (path): User ID"]"#,
        r#"["200: User details", "404: Not found", "403: Access denied"]"#,
        "[]",
        r#"["organizations", "users"]"#,
    );

    assert!(docs.parameters.contains("org_id (path)"));
    assert!(docs.parameters.contains("user_id (path)"));
    assert!(docs.responses.contains("403: Access denied"));
}

#[test]
fn test_handler_with_header_params() {
    let docs = record(
        "authenticated_endpoint",
        "Authenticated endpoint",
        "Requires authentication token",
        r#"["Authorization (header): Bearer token", "X-Request-ID (header): Request tracking ID"]"#,
        r#"["200: Success", "401: Unauthorized"]"#,
        "[]",
        r#"["auth"]"#,
    );

    assert!(docs.parameters.contains("Authorization (header)"));
    assert!(docs.parameters.contains("X-Request-ID (header)"));
    assert!(docs.responses.contains("401: Unauthorized"));
}

#[test]
fn test_delete_handler_with_responses() {
    let docs = record(
        "delete_user",
        "Delete user",
        "Permanently delete a user account",
        r#"["id (path): User ID to delete"]"#,
        r#"["204: User deleted", "404: User not found", "403: Cannot delete admin"]"#,
        "[]",
        r#"["users", "admin"]"#,
    );

    assert!(docs.responses.contains("204: User deleted"));
    assert!(!docs.responses.contains("200"));
}

#[test]
fn test_put_handler_with_body() {
    let docs = record(
        "update_user",
        "Update user",
        "Update an existing user",
        r#"["id (path): User ID"]"#,
        r#"["200: User updated", "404: User not found", "400: Invalid data"]"#,
        r#"["Type: UpdateUserRequest", "Content-Type: application/json", "Updated user data"]"#,
        r#"["users"]"#,
    );

    assert!(docs.request_body.contains("Type: UpdateUserRequest"));
    assert!(docs.responses.contains("200: User updated"));
}

#[test]
fn test_patch_handler_partial_update() {
    let docs = record(
        "patch_user",
        "Partially update user",
        "Update specific fields of a user",
        r#"["id (path): User ID"]"#,
        r#"["200: User updated", "404: User not found"]"#,
        r#"["Type: PatchUserRequest", "Content-Type: application/json", "Partial user data"]"#,
        r#"["users"]"#,
    );

    assert!(docs.request_body.contains("Partial user data"));
}

#[test]
fn test_handler_with_complex_responses() {
    let docs = record(
        "complex_endpoint",
        "Complex endpoint",
        "Endpoint with detailed responses",
        "[]",
        r#"["200: Success with data", "400: Bad request with validation errors", "401: Authentication required", "403: Insufficient permissions", "500: Internal server error"]"#,
        "[]",
        r#"["complex"]"#,
    );

    assert!(docs.responses.contains("200:"));
    assert!(docs.responses.contains("400:"));
    assert!(docs.responses.contains("401:"));
    assert!(docs.responses.contains("403:"));
    assert!(docs.responses.contains("500:"));
}

#[test]
fn test_handler_without_documentation() {
    let docs = record("undocumented_handler", "No summary", "No description", "[]", "[]", "[]", "[]");

    assert_eq!(docs.summary, "No summary");
    assert_eq!(docs.description, "No description");
    assert_eq!(docs.parameters, "[]");
    assert_eq!(docs.responses, "[]");
}

#[test]
fn test_handler_with_all_param_types() {
    let docs = record(
        "complex_params",
        "Complex parameters",
        "Handler with all parameter types",
        r#"["id (path): Resource ID", "filter (query): Filter criteria", "sort (query): Sort order", "Authorization (header): Auth token"]"#,
        r#"["200: Success"]"#,
        r#"["Type: FilterRequest", "Content-Type: application/json"]"#,
        r#"["complex"]"#,
    );

    assert!(docs.parameters.contains("(path)"));
    assert!(docs.parameters.contains("(query)"));
    assert!(docs.parameters.contains("(header)"));
}

#[test]
fn test_parse_parameters_from_rustdoc() {
    let params_raw = r#"["id (path): The unique user identifier", "include_deleted (query): Include soft-deleted records"]"#;
    let (params, _) = parse_parameters_raw(params_raw);

    assert_eq!(params[0].name, "id");
    assert_eq!(params[0].location, "path");
    assert_eq!(params[1].name, "include_deleted");
    assert_eq!(params[1].location, "query");
}

#[test]
fn test_parse_request_body_from_rustdoc() {
    let registry = vec![SchemaRegistration {
        name: "CreateUserRequest".to_string(),
        schema_json: r#"{"type":"object"}"#.to_string(),
    }];
    let body_raw = r#"["Type: CreateUserRequest", "Content-Type: application/json", "User information for account creation", "- name (string): The user's full name", "- email (string): Valid email address", "- age (number): User's age in years"]"#;
    let (body, used) = parse_request_body_raw(body_raw, &registry);

    assert_eq!(used.as_deref(), Some("CreateUserRequest"));
    assert!(body.required);
}

#[test]
fn test_parse_responses_with_status_codes() {
    let registry: Vec<SchemaRegistration> = Vec::new();
    let responses = r#"["200: User successfully created", "201: Resource created", "400: Invalid request data", "500: Internal server error"]"#;
    let (rs, _) = machined_openapi_gen::resolve::parse_responses_raw(responses, &registry);

    let codes: Vec<&str> = rs.iter().map(|(c, _)| c.as_str()).collect();
    assert_eq!(codes, vec!["200", "201", "400", "500"]);
}

#[test]
fn test_collect_handler_docs() {
    let handlers = vec![
        record("first", "First", "First handler", "[]", "[]", "[]", "[]"),
        record("second", "Second", "Second handler", "[]", "[]", "[]", "[]"),
    ];

    assert!(find_doc(&handlers, "first").is_some());
    assert!(find_doc(&handlers, "second").is_some());
    assert!(find_doc(&handlers, "third").is_none());
}

#[test]
fn test_openapi_json_generation_with_handlers() {
    let mut router = ApiRouter::new("Handler Test API", "1.0.0");
    router.routes.push(RouteInfo {
        path: "/users".to_string(),
        method: "GET".to_string(),
        function_name: "list_users".to_string(),
        summary: Some("List users".to_string()),
        description: None,
    });
    router.routes.push(RouteInfo {
        path: "/users/:id".to_string(),
        method: "GET".to_string(),
        function_name: "get_user".to_string(),
        summary: Some("Get user".to_string()),
        description: None,
    });

    let json = router.openapi_json();

    assert!(json.contains(r#""/users""#));
    assert!(json.contains(r#""/users/{id}""#));
    assert!(json.contains(r#""get":"#));
}

#[test]
fn test_build_method_with_documented_handler() {
    let registry: Vec<SchemaRegistration> = Vec::new();
    let doc = record(
        "get_user",
        "Get user by ID",
        "Retrieves one user",
        r#"["id (path): The user ID"]"#,
        r#"["200: Found", "404: Not found"]"#,
        "[]",
        r#"["users"]"#,
    );
    let route = RouteInfo {
        path: "/users/:id".to_string(),
        method: "GET".to_string(),
        function_name: "get_user".to_string(),
        summary: Some("GET /users/:id".to_string()),
        description: None,
    };

    let op = build_method(&route, Some(&doc), &registry);
    assert_eq!(op.summary.as_deref(), Some("Get user by ID"));
    assert_eq!(op.description.as_deref(), Some("Retrieves one user"));
    assert_eq!(op.tags, vec!["users".to_string()]);
    assert_eq!(op.parameters.len(), 1);
    assert!(op.request_body.is_none());
    assert_eq!(op.responses.len(), 2);
    assert!(op.security.is_none());
}

#[test]
fn test_empty_prefix_handling() {
    let router = ApiRouter::new("Handler Test API", "1.0.0");
    // The default documentation prefix applies when none is given.
    assert_eq!(machined_openapi_gen::router::normalize_prefix(""), "/openapi");
    assert_eq!(router.routes.len(), 0);
}

#[test]
fn test_route_builder_dedups_paths() {
    let router = ApiRouter::new("Test", "1.0")
        .route("/a", MethodHandlers::new().get("ga"))
        .route("/a", MethodHandlers::new().post("pa"));
    assert_eq!(router.routes.len(), 2);
    assert_eq!(router.openapi.paths.len(), 1);
}
