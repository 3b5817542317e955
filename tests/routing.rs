use raps_mock::config::MockMode;
use raps_mock::dispatch::{build_route_table, RouteTarget, ServerCore, StatefulEndpoint};
use raps_mock::loader::{is_spec_extension, logical_name};
use raps_mock::openapi::{
    Components, HttpMethod, Info, MediaType, OpenApiSpec, Operation, PathItem, Response, RouteDefinition, Schema,
};
use raps_mock::resolver::{GenericHandler, Resolution};
use raps_mock::routes::{synthesize_routes, OpenApiParser};
use std::sync::Arc;

fn json(text: &str) -> serde_json::Value {
    serde_json::from_str(text).unwrap()
}

fn operation(responses: Vec<(String, Response)>) -> Operation {
    Operation {
        operation_id: Some("op".to_string()),
        summary: None,
        description: None,
        parameters: None,
        request_body: None,
        responses,
        tags: None,
        security: None,
    }
}

fn media(example: Option<serde_json::Value>) -> MediaType {
    MediaType { schema: None, example, examples: None }
}

fn defined(content: Option<Vec<(String, MediaType)>>) -> Response {
    Response::Definition { description: "OK".to_string(), content }
}

fn route(op: Operation, components: Option<Components>) -> RouteDefinition {
    RouteDefinition {
        method: HttpMethod::Get,
        path: "/hello".to_string(),
        operation: Arc::new(op),
        path_pattern: "/hello".to_string(),
        components: components.map(Arc::new),
    }
}

fn item(get: Option<Operation>, post: Option<Operation>) -> PathItem {
    PathItem { get: get.map(Arc::new), post: post.map(Arc::new), put: None, delete: None, patch: None }
}

fn document(paths: Vec<(String, PathItem)>) -> OpenApiSpec {
    OpenApiSpec {
        openapi: "3.0.0".to_string(),
        info: Info { title: "Test API".to_string(), version: "1.0.0".to_string(), description: None },
        servers: None,
        paths,
        components: None,
    }
}

#[test]
fn pattern_rewrites_camel_case_parameter() {
    let p = OpenApiParser::convert_path_to_pattern("/buckets/{bucketKey}");
    assert_eq!(p, "/buckets/:bucket_key");
}

#[test]
fn differently_cased_parameters_share_one_pattern() {
    let a = OpenApiParser::convert_path_to_pattern("/project/v1/hubs/{hubId}/projects/{projectId}");
    let b = OpenApiParser::convert_path_to_pattern("/project/v1/hubs/{HubId}/projects/{ProjectId}");
    assert_eq!(a, b);
    assert_eq!(a, "/project/v1/hubs/:hub_id/projects/:project_id");
}

#[test]
fn pattern_keeps_segment_count_and_stray_braces() {
    assert_eq!(OpenApiParser::convert_path_to_pattern("/a/{}/b/{x"), "/a/{}/b/{x");
    assert_eq!(OpenApiParser::convert_path_to_pattern("/a/{x}/{y}"), "/a/:x/:y");
    assert_eq!(OpenApiParser::convert_path_to_pattern("/items/{item_id}"), "/items/:item_id");
}

#[test]
fn extract_routes_gives_one_route_per_method() {
    let doc = document(vec![
        ("/hello".to_string(), item(Some(operation(vec![])), Some(operation(vec![])))),
        ("/hubs/{hubId}".to_string(), item(Some(operation(vec![])), None)),
    ]);
    let routes = OpenApiParser::extract_routes(&doc);
    assert_eq!(routes.len(), 3);
    assert_eq!(routes[0].method, HttpMethod::Get);
    assert_eq!(routes[1].method, HttpMethod::Post);
    assert_eq!(routes[2].path, "/hubs/{hubId}");
    assert_eq!(routes[2].path_pattern, "/hubs/:hub_id");
}

#[test]
fn no_documents_no_synthesized_routes() {
    let specs: Vec<(String, OpenApiSpec)> = Vec::new();
    assert!(synthesize_routes(&specs).is_empty());
    let core = ServerCore::new(&specs, MockMode::Stateful);
    assert!(core.routes.is_empty());
    assert_eq!(core.table.len(), 14);
    assert!(core.state.is_some());
    let stateless = ServerCore::new(&specs, MockMode::Stateless);
    assert!(stateless.state.is_none());
}

#[test]
fn synthesized_route_wins_over_fixed_endpoint() {
    let doc = document(vec![("/oss/v2/buckets".to_string(), item(Some(operation(vec![])), None))]);
    let routes = synthesize_routes(&vec![("oss".to_string(), doc)]);
    let table = build_route_table(&routes);
    assert_eq!(table.len(), 14);
    assert_eq!(table[0].target, RouteTarget::Synthesized(0));
    assert_eq!(table[0].pattern, "/oss/v2/buckets");
    assert!(table.iter().all(|e| e.target != RouteTarget::Stateful(StatefulEndpoint::ListBuckets)));
    assert!(table.iter().any(|e| e.target == RouteTarget::Stateful(StatefulEndpoint::CreateBucket)));
}

#[test]
fn duplicate_synthesized_routes_keep_the_first() {
    let a = document(vec![("/x/{aB}".to_string(), item(Some(operation(vec![])), None))]);
    let b = document(vec![("/x/{a_B}".to_string(), item(Some(operation(vec![])), None))]);
    let routes = synthesize_routes(&vec![("a".to_string(), a), ("b".to_string(), b)]);
    assert_eq!(routes.len(), 2);
    let table = build_route_table(&routes);
    assert_eq!(table.len(), 15);
    assert_eq!(table[0].target, RouteTarget::Synthesized(0));
    assert_eq!(table[1].target, RouteTarget::Stateful(StatefulEndpoint::IssueToken));
}

#[test]
fn inline_example_is_served_with_status_200() {
    let op = operation(vec![(
        "200".to_string(),
        defined(Some(vec![("application/json".to_string(), media(Some(json(r#"{"message":"Hello, world!"}"#))))])),
    )]);
    let handler = GenericHandler::new(route(op, None));
    match handler.handle() {
        Resolution::Example(v) => assert_eq!(v["message"], "Hello, world!"),
        _ => panic!("expected an example"),
    }
}

#[test]
fn resolving_twice_gives_identical_output() {
    let op = operation(vec![(
        "201".to_string(),
        defined(Some(vec![("application/json".to_string(), media(Some(json(r#"{"id":7,"tags":["a"]}"#))))])),
    )]);
    let handler = GenericHandler::new(route(op, None));
    let first = match handler.handle() {
        Resolution::Example(v) => serde_json::to_string(v).unwrap(),
        _ => panic!("expected an example"),
    };
    let second = match handler.handle() {
        Resolution::Example(v) => serde_json::to_string(v).unwrap(),
        _ => panic!("expected an example"),
    };
    assert_eq!(first, second);
}

#[test]
fn content_free_200_gives_empty_200_and_204_gives_204() {
    let only_200 = GenericHandler::new(route(operation(vec![("200".to_string(), defined(None))]), None));
    assert!(matches!(only_200.handle(), Resolution::Empty { status: 200 }));
    let only_204 = GenericHandler::new(route(operation(vec![("204".to_string(), defined(None))]), None));
    assert!(matches!(only_204.handle(), Resolution::Empty { status: 204 }));
    let default_only = GenericHandler::new(route(operation(vec![("default".to_string(), defined(None))]), None));
    assert!(matches!(default_only.handle(), Resolution::Empty { status: 200 }));
}

#[test]
fn no_success_response_is_not_implemented() {
    let handler = GenericHandler::new(route(operation(vec![("404".to_string(), defined(None))]), None));
    assert!(matches!(handler.handle(), Resolution::NotImplemented));
    assert_eq!(handler.not_implemented_message(), "No example response available for GET /hello");
}

#[test]
fn unresolved_reference_falls_through_to_next_code() {
    let op = operation(vec![
        ("200".to_string(), Response::Ref { ref_path: "#/components/responses/Missing".to_string() }),
        ("204".to_string(), defined(None)),
    ]);
    let handler = GenericHandler::new(route(op, None));
    assert!(matches!(handler.handle(), Resolution::Empty { status: 204 }));
}

#[test]
fn referenced_response_and_schema_example_resolve() {
    let schema = Schema::Object {
        schema_type: Some("object".to_string()),
        format: None,
        items: None,
        properties: None,
        required: None,
        enum_values: None,
        example: Some(json(r#"{"from":"schema"}"#)),
    };
    let components = Components {
        schemas: Some(vec![("Thing".to_string(), schema)]),
        responses: Some(vec![(
            "Ok".to_string(),
            defined(Some(vec![(
                "application/vnd.api+json".to_string(),
                MediaType {
                    schema: Some(Schema::Ref { ref_path: "#/components/schemas/Thing".to_string() }),
                    example: None,
                    examples: None,
                },
            )])),
        )]),
        security_schemes: None,
    };
    let op = operation(vec![("200".to_string(), Response::Ref { ref_path: "#/components/responses/Ok".to_string() })]);
    let handler = GenericHandler::new(route(op, Some(components)));
    match handler.handle() {
        Resolution::Example(v) => assert_eq!(v["from"], "schema"),
        _ => panic!("expected the schema example"),
    }
}

#[test]
fn named_example_used_when_no_inline_example() {
    let mt = MediaType {
        schema: None,
        example: None,
        examples: Some(vec![(
            "first".to_string(),
            raps_mock::openapi::Example { summary: None, description: None, value: Some(json("[1,2]")) },
        )]),
    };
    let op = operation(vec![("202".to_string(), defined(Some(vec![("application/json".to_string(), mt)])))]);
    let handler = GenericHandler::new(route(op, None));
    match handler.handle() {
        Resolution::Example(v) => assert_eq!(v, &json("[1,2]")),
        _ => panic!("expected the named example"),
    }
}

#[test]
fn spec_file_names_and_extensions() {
    assert!(is_spec_extension("yaml"));
    assert!(is_spec_extension("yml"));
    assert!(is_spec_extension("json"));
    assert!(!is_spec_extension("txt"));
    assert_eq!(logical_name("oss\\v2\\buckets.yaml"), "oss/v2/buckets");
    assert_eq!(logical_name("dm/hubs.yml"), "dm/hubs");
    assert_eq!(logical_name("a.json"), "a");
    assert_eq!(logical_name("notes"), "notes");
}

#[test]
fn method_names() {
    assert_eq!(HttpMethod::Get.as_str(), "GET");
    assert_eq!(HttpMethod::Delete.as_str(), "DELETE");
    assert_eq!(HttpMethod::Patch.as_str(), "PATCH");
}

#[test]
fn mode_parses_in_any_case() {
    assert_eq!(MockMode::parse("STATEFUL"), Ok(MockMode::Stateful));
    assert_eq!(MockMode::parse("Stateless"), Ok(MockMode::Stateless));
    assert_eq!(
        MockMode::parse("bogus"),
        Err("Invalid mode: bogus. Use 'stateless' or 'stateful'".to_string())
    );
    assert_eq!("stateful".parse::<MockMode>(), Ok(MockMode::Stateful));
}

#[test]
fn default_configuration() {
    let c = raps_mock::config::MockServerConfig::default();
    assert_eq!(c.mode, MockMode::Stateful);
    assert_eq!(c.openapi_dir, "../aps-sdk-openapi");
    assert_eq!(c.host, "0.0.0.0");
    assert_eq!(c.port, 3000);
    assert!(c.state_file.is_none());
    assert!(!c.verbose);
}

#[test]
fn mode_from_lowered_text() {
    assert_eq!(MockMode::from_lowercase("stateless", "StateLess"), Ok(MockMode::Stateless));
    assert_eq!(MockMode::from_lowercase("stateful", "STATEFUL"), Ok(MockMode::Stateful));
    assert_eq!(
        MockMode::from_lowercase("other", "Other"),
        Err("Invalid mode: Other. Use 'stateless' or 'stateful'".to_string())
    );
}

#[test]
fn placeholder_of_a_parameter_name() {
    assert_eq!(raps_mock::routes::param_placeholder("hubId"), ":hub_id");
    assert_eq!(raps_mock::routes::param_placeholder("HubId"), ":hub_id");
    assert_eq!(raps_mock::routes::param_placeholder("URN"), ":urn");
    assert_eq!(raps_mock::routes::param_placeholder("aBC"), ":a_bc");
}

#[test]
fn only_the_first_present_media_type_counts() {
    let op = operation(vec![(
        "200".to_string(),
        defined(Some(vec![
            ("application/json".to_string(), media(None)),
            ("application/vnd.api+json".to_string(), media(Some(json(r#"{"data":1}"#)))),
        ])),
    )]);
    let handler = GenericHandler::new(route(op, None));
    assert!(matches!(handler.handle(), Resolution::Empty { status: 200 }));
    let vnd_only = operation(vec![(
        "200".to_string(),
        defined(Some(vec![("application/vnd.api+json".to_string(), media(Some(json(r#"{"data":1}"#))))])),
    )]);
    let handler = GenericHandler::new(route(vnd_only, None));
    match handler.handle() {
        Resolution::Example(v) => assert_eq!(v["data"], 1),
        _ => panic!("expected the vnd.api+json example"),
    }
}
