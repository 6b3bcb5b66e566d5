// Tests of the metadata line parser and the schema usage resolver.

use machined_openapi_gen::SchemaRegistration;
use machined_openapi_gen::openapi::ReferenceOr;
use machined_openapi_gen::parse::parse_tags_raw;
use machined_openapi_gen::resolve::{extract_schema_references, parse_request_body_raw,
    parse_responses_raw};
use machined_openapi_gen::router::parse_parameters_raw;
use machined_openapi_gen::sanitize_type_for_identifier;

fn test_registry() -> Vec<SchemaRegistration> {
    vec![
        SchemaRegistration {
            name: "UserData".to_string(),
            schema_json: r#"{"type": "object", "properties": {"name": {"type": "string"}, "email": {"type": "string"}}, "required": ["name", "email"]}"#.to_string(),
        },
        SchemaRegistration {
            name: "CreateUserRequest".to_string(),
            schema_json: r#"{"type": "object", "properties": {"name": {"type": "string"}, "email": {"type": "string"}, "age": {"type": "number"}}, "required": ["name", "email", "age"]}"#.to_string(),
        },
        SchemaRegistration {
            name: "UpdateUserRequest".to_string(),
            schema_json: r#"{"type": "object", "properties": {"name": {"type": "string"}, "email": {"type": "string"}}, "required": ["name", "email"]}"#.to_string(),
        },
        SchemaRegistration {
            name: "GreetResponse".to_string(),
            schema_json: r#"{"type": "object", "properties": {"message": {"type": "string"}, "style": {"type": "string"}}, "required": ["message", "style"]}"#.to_string(),
        },
        SchemaRegistration {
            name: "DeleteUserError".to_string(),
            schema_json: r#"{"type": "object", "properties": {"error": {"type": "object"}}}"#.to_string(),
        },
        SchemaRegistration {
            name: "GreetError".to_string(),
            schema_json: r#"{"type": "object", "properties": {"error": {"type": "object"}}}"#.to_string(),
        },
        SchemaRegistration {
            name: "UserResponse".to_string(),
            schema_json: r#"{"type": "object", "properties": {"id": {"type": "integer"}, "name": {"type": "string"}, "email": {"type": "string"}}, "required": ["id", "name", "email"]}"#.to_string(),
        },
        SchemaRegistration {
            name: "GetUserError".to_string(),
            schema_json: r#"{"type": "object", "properties": {"error": {"type": "object"}}}"#.to_string(),
        },
        SchemaRegistration {
            name: "CreateUserError".to_string(),
            schema_json: r#"{"type": "object", "properties": {"error": {"type": "object"}}}"#.to_string(),
        },
    ]
}

fn response_ref(rs: &[(String, machined_openapi_gen::openapi::Response)], code: &str) -> Option<String> {
    for (c, r) in rs {
        if c == code {
            let content = r.content.as_ref()?;
            let (_, mt) = &content[0];
            return match mt.schema.as_ref()? {
                ReferenceOr::Reference { reference } => Some(reference.clone()),
                ReferenceOr::Item(_) => None,
            };
        }
    }
    None
}

#[test]
fn test_sanitize_type_for_identifier() {
    assert_eq!(sanitize_type_for_identifier("Vec<String>"), "Vec_String");
    assert_eq!(sanitize_type_for_identifier("HashMap<String, Value>"), "HashMap_String_Value");
    assert_eq!(sanitize_type_for_identifier("Option<User>"), "Option_User");
    assert_eq!(sanitize_type_for_identifier("Result<T, E>"), "Result_T_E");
    assert_eq!(sanitize_type_for_identifier("&str"), "str");
    assert_eq!(sanitize_type_for_identifier("*const u8"), "const_u8");
}

#[test]
fn test_parse_parameters_to_openapi() {
    // Empty parameters.
    let (params, _) = parse_parameters_raw("[]");
    assert!(params.is_empty());

    // A path parameter.
    let (params, _) = parse_parameters_raw(r#"["id (path): The user ID"]"#);
    assert_eq!(params.len(), 1);
    assert_eq!(params[0].name, "id");
    assert_eq!(params[0].location, "path");
    assert!(params[0].required);

    // A query parameter.
    let (params, _) = parse_parameters_raw(r#"["filter (query): Filter results"]"#);
    assert_eq!(params.len(), 1);
    assert_eq!(params[0].name, "filter");
    assert_eq!(params[0].location, "query");
    assert!(!params[0].required);
}

#[test]
fn test_parameter_descriptions_and_metadata() {
    let (params, _) =
        parse_parameters_raw(r#"["limit (query): Maximum results [example: 10, default: 20]"]"#);
    assert_eq!(params.len(), 1);
    assert_eq!(params[0].description.as_deref(), Some("Maximum results"));
    match &params[0].schema {
        ReferenceOr::Item(s) => {
            assert_eq!(s.example.as_deref(), Some("10"));
            assert_eq!(s.default_value.as_deref(), Some("20"));
        },
        _ => panic!("expected inline schema"),
    }

    // A default on a path parameter is dropped.
    let (params, _) =
        parse_parameters_raw(r#"["id (path): The user ID [default: 1]"]"#);
    match &params[0].schema {
        ReferenceOr::Item(s) => assert!(s.default_value.is_none()),
        _ => panic!("expected inline schema"),
    }
}

#[test]
fn test_malformed_parameter_handling() {
    let (params, _) = parse_parameters_raw(
        r#"["invalid param without type", "id: missing location", "valid (query): This one is good"]"#,
    );
    // Every item yields exactly one parameter; malformed items degrade.
    assert_eq!(params.len(), 3);
    assert_eq!(params[0].name, "unknown");
    assert_eq!(params[1].name, "unknown");
    assert_eq!(params[2].name, "valid");
}

#[test]
fn test_fallback_parameter_for_malformed_item() {
    let (params, _) = parse_parameters_raw(r#"["no grammar here"]"#);
    assert_eq!(params.len(), 1);
    assert_eq!(params[0].name, "unknown");
    assert_eq!(params[0].location, "query");
    assert_eq!(params[0].description.as_deref(), Some("no grammar here"));
    assert!(!params[0].required);
}

#[test]
fn test_auth_sentinel_filtered_from_parameters() {
    let (params, auth) =
        parse_parameters_raw(r#"["__REQUIRES_AUTH__", "id (path): The user ID"]"#);
    assert!(auth);
    assert_eq!(params.len(), 1);
    assert_eq!(params[0].name, "id");
}

#[test]
fn test_parse_responses_to_openapi() {
    let registry = test_registry();

    // Empty responses give the default success response.
    let (rs, _) = parse_responses_raw("[]", &registry);
    assert_eq!(rs.len(), 1);
    assert_eq!(rs[0].0, "200");
    assert_eq!(rs[0].1.description, "Successful response");
    assert!(rs[0].1.content.is_none());

    // Simple responses.
    let (rs, _) = parse_responses_raw(r#"["200: Success", "404: Not found"]"#, &registry);
    assert_eq!(rs.len(), 2);
    assert_eq!(rs[0].0, "200");
    assert_eq!(rs[0].1.description, "Success");
    assert!(rs[0].1.content.is_some());
    assert_eq!(rs[1].0, "404");
    assert_eq!(rs[1].1.description, "Not found");
    assert!(rs[1].1.content.is_none());
}

#[test]
fn test_special_status_codes() {
    let registry = test_registry();
    let (rs, _) = parse_responses_raw(
        r#"["204: No content", "201: Created with Location header", "202: Accepted for processing"]"#,
        &registry,
    );
    assert_eq!(rs[0].0, "204");
    assert!(rs[0].1.content.is_none());
    assert_eq!(rs[1].0, "201");
    assert!(rs[1].1.content.is_some());
    assert_eq!(rs[2].0, "202");
    assert!(rs[2].1.content.is_some());
}

#[test]
fn test_error_response_parsing() {
    let registry = test_registry();
    let (rs, _) = parse_responses_raw(
        r#"["400: Validation failed", "409: Conflict with existing resource", "422: Unprocessable entity"]"#,
        &registry,
    );
    // No registered error schema matches: description-only responses.
    assert_eq!(rs[0].1.description, "Validation failed");
    assert!(rs[0].1.content.is_none());
    assert_eq!(rs[1].1.description, "Conflict with existing resource");
    assert!(rs[1].1.content.is_none());
    assert_eq!(rs[2].1.description, "Unprocessable entity");
    assert!(rs[2].1.content.is_none());
}

#[test]
fn test_response_schema_references() {
    let registry = test_registry();
    let (rs, used) = parse_responses_raw(
        r#"["200: Returns a personalized GreetResponse message"]"#,
        &registry,
    );
    assert_eq!(
        response_ref(&rs, "200").as_deref(),
        Some("#/components/schemas/GreetResponse")
    );
    assert!(used.contains(&"GreetResponse".to_string()));
}

#[test]
fn test_error_response_schema_references() {
    let registry = test_registry();
    let (rs, _) = parse_responses_raw(
        r#"["404: User not found DeleteUserError", "403: Insufficient permissions DeleteUserError"]"#,
        &registry,
    );
    assert_eq!(
        response_ref(&rs, "404").as_deref(),
        Some("#/components/schemas/DeleteUserError")
    );
    assert_eq!(
        response_ref(&rs, "403").as_deref(),
        Some("#/components/schemas/DeleteUserError")
    );
}

#[test]
fn test_user_response_schema_references() {
    let registry = test_registry();
    let (rs, _) = parse_responses_raw(
        r#"["200: Successfully retrieved UserResponse information", "201: User successfully created UserResponse"]"#,
        &registry,
    );
    assert_eq!(
        response_ref(&rs, "200").as_deref(),
        Some("#/components/schemas/UserResponse")
    );
    assert_eq!(
        response_ref(&rs, "201").as_deref(),
        Some("#/components/schemas/UserResponse")
    );
}

#[test]
fn test_mixed_response_types() {
    let registry = test_registry();
    let (rs, _) = parse_responses_raw(
        r#"["200: Returns GreetResponse", "400: Invalid request GreetError"]"#,
        &registry,
    );
    assert_eq!(
        response_ref(&rs, "200").as_deref(),
        Some("#/components/schemas/GreetResponse")
    );
    assert_eq!(
        response_ref(&rs, "400").as_deref(),
        Some("#/components/schemas/GreetError")
    );
}

#[test]
fn test_get_user_error_schema_references() {
    let registry = test_registry();
    let (rs, _) = parse_responses_raw(
        r#"["404: User not found for the given ID GetUserError", "400: Invalid user ID format GetUserError"]"#,
        &registry,
    );
    assert_eq!(
        response_ref(&rs, "404").as_deref(),
        Some("#/components/schemas/GetUserError")
    );
    assert_eq!(
        response_ref(&rs, "400").as_deref(),
        Some("#/components/schemas/GetUserError")
    );
}

#[test]
fn test_create_user_error_schema_references() {
    let registry = test_registry();
    let (rs, _) = parse_responses_raw(
        r#"["400: Invalid input data provided CreateUserError", "500: Internal server error occurred CreateUserError"]"#,
        &registry,
    );
    assert_eq!(
        response_ref(&rs, "400").as_deref(),
        Some("#/components/schemas/CreateUserError")
    );
    assert_eq!(
        response_ref(&rs, "500").as_deref(),
        Some("#/components/schemas/CreateUserError")
    );
}

#[test]
fn test_all_error_types_coverage() {
    let registry = test_registry();
    let (rs, _) = parse_responses_raw(
        r#"["400: GetUserError response", "401: CreateUserError response", "403: DeleteUserError response", "422: GreetError response"]"#,
        &registry,
    );
    assert_eq!(response_ref(&rs, "400").as_deref(), Some("#/components/schemas/GetUserError"));
    assert_eq!(
        response_ref(&rs, "401").as_deref(),
        Some("#/components/schemas/CreateUserError")
    );
    assert_eq!(
        response_ref(&rs, "403").as_deref(),
        Some("#/components/schemas/DeleteUserError")
    );
    assert_eq!(response_ref(&rs, "422").as_deref(), Some("#/components/schemas/GreetError"));
}

#[test]
fn test_declared_error_type_with_alias() {
    let registry = vec![SchemaRegistration {
        name: "ErrorResponse".to_string(),
        schema_json: r#"{"type":"object"}"#.to_string(),
    }];
    let (rs, used) = parse_responses_raw(
        r#"["ErrorType: AppError", "500: Something broke"]"#,
        &registry,
    );
    assert_eq!(rs.len(), 1);
    assert_eq!(
        response_ref(&rs, "500").as_deref(),
        Some("#/components/schemas/ErrorResponse")
    );
    assert!(used.contains(&"ErrorResponse".to_string()));
}

#[test]
fn test_generic_error_mention_matches_error_schema() {
    let registry = test_registry();
    let (rs, _) = parse_responses_raw(r#"["500: An unexpected error occurred"]"#, &registry);
    // The first registered name with the error suffix wins.
    assert_eq!(
        response_ref(&rs, "500").as_deref(),
        Some("#/components/schemas/DeleteUserError")
    );
}

#[test]
fn test_parse_tags_to_openapi() {
    assert!(parse_tags_raw("[]").is_empty());
    assert!(parse_tags_raw("").is_empty());

    let tags = parse_tags_raw(r#"["users"]"#);
    assert_eq!(tags, vec!["users".to_string()]);

    let tags = parse_tags_raw(r#"["users", "admin"]"#);
    assert_eq!(tags, vec!["users".to_string(), "admin".to_string()]);
}

#[test]
fn test_multiple_tags_parsing() {
    let tags = parse_tags_raw(r#"["users", "admin", "v2"]"#);
    assert_eq!(tags, vec!["users".to_string(), "admin".to_string(), "v2".to_string()]);
}

#[test]
fn test_request_body_parsing() {
    let mut registry = test_registry();
    registry.push(SchemaRegistration {
        name: "PatchUserRequest".to_string(),
        schema_json: r#"{"type":"object"}"#.to_string(),
    });

    let json_body = r#"["Type: UserData", "Content-Type: application/json", "- name (string): User name", "- email (string): User email"]"#;
    let (body, used) = parse_request_body_raw(json_body, &registry);

    assert!(body.required);
    assert_eq!(used.as_deref(), Some("UserData"));
    let (ct, mt) = &body.content[0];
    assert_eq!(ct, "application/json");
    match mt.schema.as_ref().unwrap() {
        ReferenceOr::Reference { reference } => {
            assert_eq!(reference, "#/components/schemas/UserData");
        },
        _ => panic!("expected a reference"),
    }
}

#[test]
fn test_request_body_inline_fields() {
    let registry: Vec<SchemaRegistration> = Vec::new();
    let raw = r#"["Content-Type: application/json", "User information", "- name (string): The user's full name", "- age (number): Age in years"]"#;
    let (body, used) = parse_request_body_raw(raw, &registry);
    assert!(used.is_none());
    assert!(body.required);
    assert_eq!(body.description.as_deref(), Some("User information"));
    let (_, mt) = &body.content[0];
    match mt.schema.as_ref().unwrap() {
        ReferenceOr::Item(s) => {
            let props = s.properties.as_ref().unwrap();
            assert_eq!(props.len(), 2);
            assert_eq!(props[0].0, "name");
            assert_eq!(props[0].1.schema_type, "string");
            assert_eq!(props[0].1.description, "The user's full name");
            assert_eq!(props[1].0, "age");
        },
        _ => panic!("expected an inline schema"),
    }
}

#[test]
fn test_request_body_empty_defaults() {
    let registry: Vec<SchemaRegistration> = Vec::new();
    let (body, used) = parse_request_body_raw("[]", &registry);
    assert!(used.is_none());
    assert!(body.required);
    assert!(body.description.is_none());
    let (ct, mt) = &body.content[0];
    assert_eq!(ct, "application/json");
    match mt.schema.as_ref().unwrap() {
        ReferenceOr::Item(s) => {
            assert_eq!(s.schema_type.as_deref(), Some("object"));
            assert!(s.properties.is_none());
        },
        _ => panic!("expected an inline schema"),
    }
}

#[test]
fn test_extract_schema_references() {
    let text = r##"{"allOf":[{"$ref":"#/components/schemas/Base"},{"$ref":"#/components/schemas/Extra"}]}"##;
    let refs = extract_schema_references(text);
    assert_eq!(refs, vec!["Base".to_string(), "Extra".to_string()]);

    let none = extract_schema_references(r#"{"type":"object"}"#);
    assert!(none.is_empty());
}
