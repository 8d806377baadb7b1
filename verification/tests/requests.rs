use ferrox::adaptor::{body_or_null, dispatch, respond, string_object, Outcome};
use ferrox::method::Method;
use ferrox::registry::{RouteRegistration, RouteRegistry};
use serde_json::Value;

type Handler = Box<dyn Fn(Value, Value, Value) -> Value + Send + Sync>;

fn pairs(items: &[(&str, &str)]) -> Vec<(String, String)> {
    items.iter().map(|(k, v)| (k.to_string(), v.to_string())).collect()
}

fn parse(text: &str) -> Value {
    serde_json::from_str(text).unwrap()
}

fn item_handler() -> Handler {
    Box::new(|path: Value, _query: Value, _body: Value| {
        let mut members = serde_json::Map::new();
        members.insert("id".to_string(), path["id"].clone());
        Value::Object(members)
    })
}

fn echo_handler() -> Handler {
    Box::new(|_path: Value, _query: Value, body: Value| body)
}

fn arguments_handler() -> Handler {
    Box::new(|path: Value, query: Value, body: Value| Value::Array(vec![path, query, body]))
}

fn constant_handler(text: &'static str) -> Handler {
    Box::new(move |_path: Value, _query: Value, _body: Value| Value::String(text.to_string()))
}

fn first_handler() -> Handler {
    constant_handler("first")
}

fn second_handler() -> Handler {
    constant_handler("second")
}

fn declaration(
    method: &'static str,
    path: &'static str,
    handler_fn: fn() -> Handler,
) -> RouteRegistration<fn() -> Handler> {
    RouteRegistration { method, path, handler_fn }
}

fn table(declarations: Vec<RouteRegistration<fn() -> Handler>>) -> RouteRegistry<Handler> {
    let mut registry = RouteRegistry::new();
    registry.populate(&declarations);
    registry
}

fn handled(outcome: Outcome) -> Value {
    match outcome {
        Outcome::Handled(value) => value,
        Outcome::NotFound(envelope) => panic!("not found: {}", envelope.message),
    }
}

#[test]
fn item_route_returns_the_id_as_a_string() {
    let registry = table(vec![declaration("GET", "/items/{id}", item_handler)]);
    let outcome = dispatch(&registry, "GET", "/items/{id}", &pairs(&[("id", "7")]), &vec![], None);
    assert_eq!(handled(outcome), parse(r#"{"id": "7"}"#));
}

#[test]
fn undeclared_route_gets_the_not_found_envelope() {
    let registry = table(vec![declaration("GET", "/items/{id}", item_handler)]);
    let outcome =
        dispatch(&registry, "DELETE", "/items/7", &pairs(&[("id", "7")]), &vec![], None);
    match outcome {
        Outcome::NotFound(envelope) => {
            assert!(!envelope.success);
            assert_eq!(envelope.data, None);
            assert_eq!(envelope.message, "Route /items/7 not found");
            assert_eq!(
                envelope.to_json(),
                parse(r#"{"success": false, "data": null, "message": "Route /items/7 not found"}"#)
            );
        }
        Outcome::Handled(value) => panic!("handled: {}", value),
    }
}

#[test]
fn empty_table_finds_nothing() {
    let registry: RouteRegistry<Handler> = RouteRegistry::new();
    assert_eq!(registry.len(), 0);
    assert!(registry.lookup("GET", "/").is_none());
    let outcome = dispatch(&registry, "GET", "/", &vec![], &vec![], None);
    assert!(matches!(outcome, Outcome::NotFound(_)));
}

#[test]
fn echo_returns_the_body_unchanged() {
    let registry = table(vec![declaration("POST", "/echo", echo_handler)]);
    let body = parse(r#"{"x": 1}"#);
    let outcome = dispatch(&registry, "POST", "/echo", &vec![], &vec![], Some(body.clone()));
    assert_eq!(handled(outcome), body);
}

#[test]
fn echo_without_a_body_returns_null() {
    let registry = table(vec![declaration("POST", "/echo", echo_handler)]);
    let outcome = dispatch(&registry, "POST", "/echo", &vec![], &vec![], None);
    let response = handled(outcome);
    assert_eq!(response, Value::Null);
    assert_eq!(serde_json::to_string(&response).unwrap(), "null");
}

#[test]
fn handler_value_is_not_wrapped() {
    let handler = constant_handler("plain");
    let response = respond(&handler, &vec![], &vec![], None);
    assert_eq!(response, Value::String("plain".to_string()));
}

#[test]
fn handler_gets_path_query_and_body_in_that_order() {
    let handler = arguments_handler();
    let response = respond(
        &handler,
        &pairs(&[("id", "7")]),
        &pairs(&[("page", "2"), ("sort", "asc")]),
        Some(parse("[1, true]")),
    );
    assert_eq!(response, parse(r#"[{"id": "7"}, {"page": "2", "sort": "asc"}, [1, true]]"#));
}

#[test]
fn body_of_any_kind_reaches_the_handler() {
    let handler = echo_handler();
    for text in ["null", "true", "12", "-3.5", "\"s\"", "[1, [2]]", r#"{"a": {"b": null}}"#] {
        let body = parse(text);
        assert_eq!(respond(&handler, &vec![], &vec![], Some(body.clone())), body);
    }
}

#[test]
fn missing_body_is_null() {
    assert_eq!(body_or_null(None), Value::Null);
    assert_eq!(body_or_null(Some(Value::Bool(false))), Value::Bool(false));
    assert_eq!(body_or_null(Some(Value::Null)), Value::Null);
}

#[test]
fn path_values_stay_strings() {
    let object = string_object(&pairs(&[("id", "42"), ("flag", "true"), ("none", "null")]));
    assert_eq!(object["id"], Value::String("42".to_string()));
    assert!(object["id"].is_string());
    assert!(!object["id"].is_number());
    assert!(object["flag"].is_string());
    assert!(!object["flag"].is_boolean());
    assert!(object["none"].is_string());
    assert_eq!(object, parse(r#"{"id": "42", "flag": "true", "none": "null"}"#));
}

#[test]
fn no_pairs_make_an_empty_object() {
    let object = string_object(&vec![]);
    assert_eq!(object, parse("{}"));
    assert!(object.is_object());
}

#[test]
fn repeated_key_keeps_the_last_value() {
    let object = string_object(&pairs(&[("tag", "a"), ("page", "1"), ("tag", "b")]));
    assert_eq!(object, parse(r#"{"tag": "b", "page": "1"}"#));
    assert_eq!(object.as_object().unwrap().len(), 2);
}

#[test]
fn text_is_kept_character_for_character() {
    let object = string_object(&pairs(&[("q", "a \"b\" \\ é\n")]));
    assert_eq!(object["q"].as_str(), Some("a \"b\" \\ é\n"));
}

#[test]
fn last_declaration_for_a_route_wins() {
    let registry = table(vec![
        declaration("GET", "/x", first_handler),
        declaration("GET", "/y", first_handler),
        declaration("GET", "/x", second_handler),
    ]);
    assert_eq!(registry.len(), 2);
    let outcome = dispatch(&registry, "GET", "/x", &vec![], &vec![], None);
    assert_eq!(handled(outcome), Value::String("second".to_string()));
    let outcome = dispatch(&registry, "GET", "/y", &vec![], &vec![], None);
    assert_eq!(handled(outcome), Value::String("first".to_string()));
}

#[test]
fn populate_keeps_what_no_declaration_names() {
    let mut registry: RouteRegistry<Handler> = RouteRegistry::new();
    registry.register("GET".to_string(), "/kept".to_string(), first_handler());
    registry.register("GET".to_string(), "/taken".to_string(), first_handler());
    registry.populate(&vec![declaration("GET", "/taken", second_handler)]);
    assert_eq!(registry.len(), 2);
    let kept = registry.lookup("GET", "/kept").unwrap();
    assert_eq!(kept(Value::Null, Value::Null, Value::Null), Value::String("first".to_string()));
    let taken = registry.lookup("GET", "/taken").unwrap();
    assert_eq!(taken(Value::Null, Value::Null, Value::Null), Value::String("second".to_string()));
}

#[test]
fn register_replaces_the_handler_of_a_route() {
    let mut registry: RouteRegistry<Handler> = RouteRegistry::new();
    registry.register("PUT".to_string(), "/a".to_string(), first_handler());
    registry.register("PUT".to_string(), "/a".to_string(), second_handler());
    assert_eq!(registry.len(), 1);
    let found = registry.lookup("PUT", "/a").unwrap();
    assert_eq!(found(Value::Null, Value::Null, Value::Null), Value::String("second".to_string()));
}

#[test]
fn routes_are_keyed_verbatim() {
    let registry = table(vec![declaration("GET", "/a", first_handler)]);
    assert!(registry.lookup("GET", "/a").is_some());
    assert!(registry.lookup("GET", "/a/").is_none());
    assert!(registry.lookup("GET", "/A").is_none());
    assert!(registry.lookup("get", "/a").is_none());
    assert!(registry.lookup("POST", "/a").is_none());
    assert!(registry.lookup("/a", "GET").is_none());
}

#[test]
fn same_path_under_two_methods_is_two_routes() {
    let registry = table(vec![
        declaration("GET", "/a", first_handler),
        declaration("POST", "/a", second_handler),
    ]);
    assert_eq!(registry.len(), 2);
    let get = registry.lookup("GET", "/a").unwrap();
    assert_eq!(get(Value::Null, Value::Null, Value::Null), Value::String("first".to_string()));
    let post = registry.lookup("POST", "/a").unwrap();
    assert_eq!(post(Value::Null, Value::Null, Value::Null), Value::String("second".to_string()));
}

#[test]
fn each_route_is_bound_once_with_its_handler() {
    let registry = table(vec![
        declaration("GET", "/x", first_handler),
        declaration("POST", "/y", first_handler),
        declaration("GET", "/x", second_handler),
    ]);
    let bound = registry.bindings();
    assert_eq!(bound.len(), 2);
    assert_eq!(bound[0].method, Method::Get);
    assert_eq!(bound[0].path, "/x");
    let response = (bound[0].handler)(Value::Null, Value::Null, Value::Null);
    assert_eq!(response, Value::String("second".to_string()));
    assert_eq!(bound[1].method, Method::Post);
    assert_eq!(bound[1].path, "/y");
    let response = (bound[1].handler)(Value::Null, Value::Null, Value::Null);
    assert_eq!(response, Value::String("first".to_string()));
}

#[test]
fn route_under_an_unknown_method_is_kept_and_left_unbound() {
    let registry = table(vec![
        declaration("TRACE", "/t", first_handler),
        declaration("DELETE", "/d", second_handler),
        declaration("get", "/lower", first_handler),
    ]);
    assert_eq!(registry.len(), 3);
    assert!(registry.lookup("TRACE", "/t").is_some());
    let bound = registry.bindings();
    assert_eq!(bound.len(), 1);
    assert_eq!(bound[0].method, Method::Delete);
    assert_eq!(bound[0].path, "/d");
}

#[test]
fn empty_table_binds_nothing() {
    let registry: RouteRegistry<Handler> = RouteRegistry::new();
    assert!(registry.bindings().is_empty());
}

#[test]
fn all_seven_methods_are_bound() {
    let registry = table(vec![
        declaration("GET", "/r", first_handler),
        declaration("POST", "/r", first_handler),
        declaration("PUT", "/r", first_handler),
        declaration("PATCH", "/r", first_handler),
        declaration("DELETE", "/r", first_handler),
        declaration("HEAD", "/r", first_handler),
        declaration("OPTIONS", "/r", first_handler),
    ]);
    let bound = registry.bindings();
    let methods: Vec<Method> = bound.iter().map(|binding| binding.method).collect();
    assert_eq!(
        methods,
        vec![
            Method::Get,
            Method::Post,
            Method::Put,
            Method::Patch,
            Method::Delete,
            Method::Head,
            Method::Options,
        ]
    );
}
