use mcp_gateway::bundle::{
    dangling_defs, gather_def_names, merge_defs_into, ref_def_name_exec, rewrite_schema_refs,
};
use mcp_gateway::json::{Json, Member, Obj};
use mcp_gateway::refs::{accept_remote, remote_source, RefError, RemoteSource};
use mcp_gateway::resolve::{resolve_openapi_object, Resolution, REF_CHAIN_DEPTH};

fn s(v: &str) -> Json {
    Json::Str(v.to_string())
}

/// An object with its members in key order, as a parsed document holds them.
fn obj(members: Vec<(&str, Json)>) -> Json {
    let mut ms: Vec<Member> = members.into_iter().map(|(k, v)| Member { key: k.to_string(), value: v }).collect();
    ms.sort_by(|a, b| a.key.cmp(&b.key));
    Json::Object(ms)
}

fn reference(r: &str) -> Json {
    obj(vec![("$ref", s(r))])
}

fn members_of(j: &Json) -> Obj {
    match j {
        Json::Object(m) => Obj::of_members(m),
        _ => panic!("not an object"),
    }
}

#[test]
fn component_refs_become_defs_refs() {
    let schema = obj(vec![
        ("items", reference("#/components/schemas/Pet")),
        ("definitions", obj(vec![("Tag", reference("#/definitions/Tag"))])),
        ("other", reference("https://example.com/s.json")),
    ]);
    let out = rewrite_schema_refs(&schema);
    let expected = obj(vec![
        ("items", reference("#/$defs/Pet")),
        ("$defs", obj(vec![("Tag", reference("#/$defs/Tag"))])),
        ("other", reference("https://example.com/s.json")),
    ]);
    assert!(out.equals(&expected));
}

#[test]
fn def_names_are_read_from_refs() {
    assert_eq!(ref_def_name_exec("#/$defs/Pet/properties/id"), Some("Pet".to_string()));
    assert_eq!(ref_def_name_exec("#/$defs/a~1b"), Some("a/b".to_string()));
    assert_eq!(ref_def_name_exec("#/$defs/"), None);
    assert_eq!(ref_def_name_exec("#/components/schemas/Pet"), None);
    let schema = obj(vec![
        ("a", reference("#/$defs/Pet")),
        ("b", Json::Array(vec![reference("#/$defs/Tag"), reference("#/$defs/Pet")])),
    ]);
    assert_eq!(gather_def_names(&schema), vec!["Pet".to_string(), "Tag".to_string(), "Pet".to_string()]);
}

#[test]
fn dangling_refs_are_listed() {
    let schema = obj(vec![
        ("$defs", obj(vec![("Pet", obj(vec![]))])),
        ("a", reference("#/$defs/Pet")),
        ("b", reference("#/$defs/Missing")),
        ("c", reference("#/components/schemas/X")),
        ("d", reference("https://example.com/x")),
    ]);
    assert_eq!(
        dangling_defs(&schema),
        vec!["#/$defs/Missing".to_string(), "#/components/schemas/X".to_string()]
    );
}

#[test]
fn merged_defs_keep_what_was_there() {
    let mut target = members_of(&obj(vec![
        ("type", s("object")),
        ("$defs", obj(vec![("Pet", s("mine"))])),
    ]));
    let incoming = members_of(&obj(vec![("Pet", s("theirs")), ("Tag", s("tag"))]));
    merge_defs_into(&mut target, incoming);
    let expected = obj(vec![
        ("type", s("object")),
        ("$defs", obj(vec![("Pet", s("mine")), ("Tag", s("tag"))])),
    ]);
    assert!(target.into_json().equals(&expected));

    let mut bare = members_of(&obj(vec![("type", s("object"))]));
    merge_defs_into(&mut bare, members_of(&obj(vec![("A", s("a"))])));
    assert!(bare.into_json().equals(&obj(vec![("type", s("object")), ("$defs", obj(vec![("A", s("a"))]))])));

    let mut untouched = members_of(&obj(vec![("type", s("object"))]));
    merge_defs_into(&mut untouched, members_of(&obj(vec![])));
    assert!(untouched.into_json().equals(&obj(vec![("type", s("object"))])));
}

fn param_doc() -> Json {
    obj(vec![(
        "components",
        obj(vec![(
            "parameters",
            obj(vec![
                ("Limit", obj(vec![("in", s("query")), ("name", s("limit"))])),
                ("Alias", reference("#/components/parameters/Limit")),
                ("Loop", reference("#/components/parameters/Loop")),
            ]),
        )]),
    )])
}

#[test]
fn local_refs_resolve_with_siblings_over_them() {
    let doc = param_doc();
    let value = obj(vec![("$ref", s("#/components/parameters/Alias")), ("description", s("max"))]);
    match resolve_openapi_object(&doc, &value, &Vec::new()) {
        Resolution::Found(j) => assert!(j.equals(&obj(vec![
            ("in", s("query")),
            ("name", s("limit")),
            ("description", s("max")),
        ]))),
        _ => panic!("expected a resolved parameter"),
    }
    let plain = obj(vec![("name", s("x"))]);
    match resolve_openapi_object(&doc, &plain, &Vec::new()) {
        Resolution::Found(j) => assert!(j.equals(&plain)),
        _ => panic!("a value without $ref is itself"),
    }
}

#[test]
fn cyclic_and_missing_refs_are_unresolved() {
    let doc = param_doc();
    match resolve_openapi_object(&doc, &reference("#/components/parameters/Loop"), &Vec::new()) {
        Resolution::Unresolved(e) => assert_eq!(e, "cyclic $ref #/components/parameters/Loop"),
        _ => panic!("expected a cycle"),
    }
    match resolve_openapi_object(&doc, &reference("#/components/parameters/None"), &Vec::new()) {
        Resolution::Unresolved(e) => assert_eq!(e, "#/components/parameters/None"),
        _ => panic!("expected a missing target"),
    }
    match resolve_openapi_object(&doc, &reference("other.yaml#/x"), &Vec::new()) {
        Resolution::Unresolved(e) => assert_eq!(e, "other.yaml#/x"),
        _ => panic!("relative references are not followed"),
    }
}

#[test]
fn long_chains_stop_at_the_depth_limit() {
    let n = REF_CHAIN_DEPTH + 2;
    let mut members = Vec::new();
    for i in 0..n {
        let target = format!("#/components/parameters/P{}", i + 1);
        members.push(Member { key: format!("P{}", i), value: reference(&target) });
    }
    members.push(Member { key: format!("P{}", n), value: obj(vec![("name", s("end"))]) });
    members.sort_by(|a, b| a.key.cmp(&b.key));
    let doc = obj(vec![("components", obj(vec![("parameters", Json::Object(members))]))]);
    match resolve_openapi_object(&doc, &reference("#/components/parameters/P0"), &Vec::new()) {
        Resolution::Unresolved(e) => assert_eq!(e, "max $ref depth"),
        _ => panic!("expected the depth limit"),
    }
    match resolve_openapi_object(&doc, &reference("#/components/parameters/P4"), &Vec::new()) {
        Resolution::Found(j) => assert!(j.equals(&obj(vec![("name", s("end"))]))),
        _ => panic!("a short chain resolves"),
    }
}

#[test]
fn remote_refs_ask_for_the_document_then_use_it() {
    let doc = param_doc();
    let r = reference("https://example.com/common.json#/Limit");
    match resolve_openapi_object(&doc, &r, &Vec::new()) {
        Resolution::NeedsFetch(u) => assert_eq!(u, "https://example.com/common.json"),
        _ => panic!("expected a fetch"),
    }
    let remote = obj(vec![
        ("Limit", reference("#/Base")),
        ("Base", obj(vec![("name", s("limit"))])),
    ]);
    let cache = vec![("https://example.com/common.json".to_string(), remote)];
    match resolve_openapi_object(&doc, &r, &cache) {
        Resolution::Found(j) => assert!(j.equals(&obj(vec![("name", s("limit"))]))),
        _ => panic!("expected the remote target"),
    }
}

#[test]
fn openapi_parameter_ref_resolves() {
    let doc = obj(vec![(
        "components",
        obj(vec![(
            "parameters",
            obj(vec![(
                "Owner",
                obj(vec![
                    ("name", s("owner")),
                    ("in", s("path")),
                    ("required", Json::Bool(true)),
                    ("schema", obj(vec![("type", s("string"))])),
                ]),
            )]),
        )]),
    )]);
    let param = reference("#/components/parameters/Owner");
    match resolve_openapi_object(&doc, &param, &Vec::new()) {
        Resolution::Found(resolved) => {
            assert!(matches!(resolved.get("name"), Some(Json::Str(n)) if n == "owner"));
            assert!(matches!(resolved.get("in"), Some(Json::Str(n)) if n == "path"));
        }
        _ => panic!("expected the parameter"),
    }
}

#[test]
fn rewriting_twice_is_rewriting_once() {
    let schema = obj(vec![
        ("definitions", obj(vec![("A", reference("#/definitions/B"))])),
        ("items", Json::Array(vec![reference("#/components/schemas/Pet"), s("x")])),
        ("$ref", s("#/components/schemas/Root")),
    ]);
    let once = rewrite_schema_refs(&schema);
    let twice = rewrite_schema_refs(&once);
    assert!(twice.equals(&once));
    assert!(matches!(once.get("$ref"), Some(Json::Str(r)) if r == "#/$defs/Root"));
}

#[test]
fn remote_documents_come_from_https_or_files_and_must_be_containers() {
    assert_eq!(remote_source("https://example.com/a.json"), RemoteSource::Https);
    assert_eq!(remote_source("file:///tmp/a.yaml"), RemoteSource::File);
    assert_eq!(remote_source("http://example.com/a.json"), RemoteSource::Other);
    assert!(accept_remote(obj(vec![])).is_ok());
    assert!(accept_remote(Json::Array(vec![])).is_ok());
    match accept_remote(s("text")) {
        Err(RefError::Unresolved(m)) => assert_eq!(m, "remote $ref did not parse as a JSON object or array"),
        _ => panic!("a scalar is refused"),
    }
}
