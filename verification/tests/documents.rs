use mcp_gateway::json::{normalize_3_0, normalize_value, str_field, string_array, Json, Member};
use mcp_gateway::lower::{is_binary_body, is_streaming, select_json_content};

fn s(v: &str) -> Json {
    Json::Str(v.to_string())
}

fn num(v: &str) -> Json {
    Json::Number(v.to_string())
}

fn arr(items: Vec<Json>) -> Json {
    Json::Array(items)
}

/// An object with its members in the given order (callers list keys sorted,
/// as a parsed document holds them).
fn obj(members: Vec<(&str, Json)>) -> Json {
    Json::Object(members.into_iter().map(|(k, v)| Member { key: k.to_string(), value: v }).collect())
}

fn same(a: &Json, b: &Json) -> bool {
    a.equals(b)
}

#[test]
fn nullable_type_becomes_type_array() {
    let mut v = obj(vec![("nullable", Json::Bool(true)), ("type", s("string"))]);
    normalize_3_0(&mut v);
    assert!(same(v.get("type").unwrap(), &arr(vec![s("string"), s("null")])));
    assert!(v.get("nullable").is_none());
}

#[test]
fn nullable_ref_wraps_any_of() {
    let mut v = obj(vec![("$ref", s("#/components/schemas/Foo")), ("nullable", Json::Bool(true))]);
    normalize_3_0(&mut v);
    let expected = obj(vec![(
        "anyOf",
        arr(vec![
            obj(vec![("$ref", s("#/components/schemas/Foo"))]),
            obj(vec![("type", s("null"))]),
        ]),
    )]);
    assert!(same(&v, &expected));
}

#[test]
fn exclusive_minimum_true() {
    let mut v = obj(vec![("exclusiveMinimum", Json::Bool(true)), ("minimum", num("1"))]);
    normalize_3_0(&mut v);
    assert!(same(v.get("exclusiveMinimum").unwrap(), &num("1")));
    assert!(v.get("minimum").is_none());
}

#[test]
fn exclusive_minimum_false() {
    let mut v = obj(vec![("exclusiveMinimum", Json::Bool(false)), ("minimum", num("1"))]);
    normalize_3_0(&mut v);
    assert!(same(v.get("minimum").unwrap(), &num("1")));
    assert!(v.get("exclusiveMinimum").is_none());
}

#[test]
fn example_becomes_examples() {
    let mut v = obj(vec![("example", s("hi")), ("type", s("string"))]);
    normalize_3_0(&mut v);
    assert!(same(v.get("examples").unwrap(), &arr(vec![s("hi")])));
    assert!(v.get("example").is_none());
}

#[test]
fn existing_examples_kept() {
    let mut v = obj(vec![
        ("example", s("a")),
        ("examples", arr(vec![s("b")])),
        ("type", s("string")),
    ]);
    normalize_3_0(&mut v);
    assert!(same(v.get("examples").unwrap(), &arr(vec![s("b")])));
    assert!(v.get("example").is_none());
}

#[test]
fn nullable_allof_without_type_is_wrapped() {
    let mut v = obj(vec![
        ("allOf", arr(vec![obj(vec![("type", s("object"))])])),
        ("nullable", Json::Bool(true)),
    ]);
    normalize_3_0(&mut v);
    let any_of = v.get("anyOf").unwrap();
    match any_of {
        Json::Array(items) => assert!(same(&items[1], &obj(vec![("type", s("null"))]))),
        _ => panic!("anyOf is not an array"),
    }
    assert!(v.get("nullable").is_none());
}

#[test]
fn nullable_type_array_gains_null_once() {
    let mut v = obj(vec![
        ("nullable", Json::Bool(true)),
        ("type", arr(vec![s("string"), s("null")])),
    ]);
    normalize_3_0(&mut v);
    assert!(same(v.get("type").unwrap(), &arr(vec![s("string"), s("null")])));
    let mut w = obj(vec![("nullable", Json::Bool(true)), ("type", arr(vec![s("integer")]))]);
    normalize_3_0(&mut w);
    assert!(same(w.get("type").unwrap(), &arr(vec![s("integer"), s("null")])));
}

#[test]
fn exclusive_maximum_without_bound_is_dropped() {
    let mut v = obj(vec![("exclusiveMaximum", Json::Bool(true)), ("type", s("number"))]);
    normalize_3_0(&mut v);
    assert!(v.get("exclusiveMaximum").is_none());
    assert!(same(v.get("type").unwrap(), &s("number")));
}

#[test]
fn normalize_reaches_nested_schemas() {
    let doc = obj(vec![(
        "properties",
        obj(vec![("name", obj(vec![("example", s("x")), ("type", s("string"))]))]),
    )]);
    let out = normalize_value(&doc);
    let name = out.get("properties").unwrap().get("name").unwrap();
    assert!(same(name.get("examples").unwrap(), &arr(vec![s("x")])));
    assert!(name.get("example").is_none());
}

#[test]
fn nullable_false_is_removed() {
    let mut v = obj(vec![("nullable", Json::Bool(false)), ("type", s("string"))]);
    normalize_3_0(&mut v);
    assert!(v.get("nullable").is_none());
    assert!(same(v.get("type").unwrap(), &s("string")));
}

#[test]
fn normalize_is_stable_on_its_output() {
    let doc = obj(vec![
        ("example", s("a")),
        ("exclusiveMinimum", Json::Bool(true)),
        ("minimum", num("0")),
        ("nullable", Json::Bool(true)),
        ("type", s("integer")),
    ]);
    let once = normalize_value(&doc);
    let twice = normalize_value(&once);
    assert!(same(&once, &twice));
}

#[test]
fn str_field_and_string_array_read_documents() {
    let doc = obj(vec![
        ("tags", arr(vec![s("a"), num("1"), s("b")])),
        ("title", s("Pets")),
    ]);
    assert_eq!(str_field(&doc, "title"), Some("Pets".to_string()));
    assert_eq!(str_field(&doc, "tags"), None);
    assert_eq!(str_field(&doc, "missing"), None);
    assert_eq!(string_array(doc.get("tags")), vec!["a".to_string(), "b".to_string()]);
    assert!(string_array(doc.get("title")).is_empty());
    assert!(string_array(None).is_empty());
}

fn op_with_response_content(ct: &str) -> Json {
    obj(vec![(
        "responses",
        obj(vec![("200", obj(vec![("content", obj(vec![(ct, obj(vec![]))]))]))]),
    )])
}

#[test]
fn event_stream_response_streams() {
    assert!(is_streaming(&op_with_response_content("text/event-stream; charset=utf-8")));
    assert!(is_streaming(&op_with_response_content("Application/JSON-seq")));
    assert!(!is_streaming(&op_with_response_content("application/json")));
}

#[test]
fn streaming_request_body_streams() {
    let op = obj(vec![(
        "requestBody",
        obj(vec![("content", obj(vec![("application/websocket", obj(vec![]))]))]),
    )]);
    assert!(is_streaming(&op));
    assert!(!is_streaming(&obj(vec![])));
}

#[test]
fn prose_mentioning_event_stream_does_not_stream() {
    let op = obj(vec![
        ("description", s("Mentions text/event-stream in prose but returns JSON.")),
        (
            "responses",
            obj(vec![(
                "200",
                obj(vec![("content", obj(vec![("application/json", obj(vec![]))]))]),
            )]),
        ),
    ]);
    assert!(!is_streaming(&op));
}

fn op_with_body(ct: &str) -> Json {
    obj(vec![("requestBody", obj(vec![("content", obj(vec![(ct, obj(vec![]))]))]))])
}

#[test]
fn binary_bodies_are_recognised() {
    assert!(is_binary_body(&op_with_body("multipart/form-data")));
    assert!(is_binary_body(&op_with_body("application/octet-stream")));
    assert!(is_binary_body(&op_with_body(" IMAGE/png ")));
    assert!(!is_binary_body(&op_with_body("application/json")));
    assert!(!is_binary_body(&op_with_response_content("multipart/form-data")));
}

fn members(j: Json) -> Vec<Member> {
    match j {
        Json::Object(m) => m,
        _ => panic!("not an object"),
    }
}

#[test]
fn json_content_is_preferred_over_form() {
    let content = members(obj(vec![
        ("application/problem+json", obj(vec![("schema", s("p"))])),
        ("application/x-www-form-urlencoded", obj(vec![("schema", s("f"))])),
    ]));
    let (ct, v) = select_json_content(&content).unwrap();
    assert_eq!(ct, "application/problem+json");
    assert!(same(v, &obj(vec![("schema", s("p"))])));
}

#[test]
fn form_content_is_the_fallback() {
    let content = members(obj(vec![
        ("application/x-www-form-urlencoded; charset=utf-8", obj(vec![])),
        ("text/plain", obj(vec![])),
    ]));
    let (ct, _) = select_json_content(&content).unwrap();
    assert_eq!(ct, "application/x-www-form-urlencoded; charset=utf-8");
    let none = members(obj(vec![("text/plain", obj(vec![]))]));
    assert!(select_json_content(&none).is_none());
}
