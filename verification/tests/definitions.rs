use mcp_gateway::bundle::{dangling_defs, rewrite_schema_refs};
use mcp_gateway::collect::{skip_unresolved_path, take_operation};
use mcp_gateway::defs::{bundle_root, collect_needed_defs, defs_have_cycle, gather_targets};
use mcp_gateway::json::{Json, Member, Obj};
use mcp_gateway::warnings::WarningCode;

fn s(v: &str) -> Json {
    Json::Str(v.to_string())
}

/// An object with its members in key order, as a parsed document holds them.
fn obj(members: Vec<(&str, Json)>) -> Json {
    let mut ms: Vec<Member> = members.into_iter().map(|(k, v)| Member { key: k.to_string(), value: v }).collect();
    ms.sort_by(|a, b| a.key.cmp(&b.key));
    Json::Object(ms)
}

fn reference(r: &str) -> Json {
    obj(vec![("$ref", s(r))])
}

fn pet_doc() -> Json {
    obj(vec![
        (
            "components",
            obj(vec![(
                "schemas",
                obj(vec![
                    ("Pet", obj(vec![("properties", obj(vec![("tag", reference("#/components/schemas/Tag"))]))])),
                    ("Tag", obj(vec![("type", s("string"))])),
                    ("Unused", obj(vec![("type", s("integer"))])),
                ]),
            )]),
        ),
        ("definitions", obj(vec![("Legacy", obj(vec![("items", reference("#/definitions/Pet"))]))])),
    ])
}

#[test]
fn needed_defs_follow_references_transitively() {
    let doc = pet_doc();
    let schema = rewrite_schema_refs(&obj(vec![
        ("a", reference("#/components/schemas/Pet")),
        ("b", reference("#/components/schemas/Missing")),
    ]));
    let defs = collect_needed_defs(&doc, &schema);
    assert_eq!(defs.keys, vec!["Pet".to_string(), "Tag".to_string()]);
    assert!(defs.vals[0].equals(&obj(vec![("properties", obj(vec![("tag", reference("#/$defs/Tag"))]))])));
    assert!(defs.vals[1].equals(&obj(vec![("type", s("string"))])));
}

#[test]
fn needed_defs_reach_the_definitions_section() {
    let doc = pet_doc();
    let schema = rewrite_schema_refs(&reference("#/definitions/Legacy"));
    let defs = collect_needed_defs(&doc, &schema);
    assert_eq!(defs.keys, vec!["Legacy".to_string(), "Pet".to_string(), "Tag".to_string()]);
    assert!(defs.vals[0].equals(&obj(vec![("items", reference("#/$defs/Pet"))])));
}

#[test]
fn no_refs_need_no_defs() {
    let defs = collect_needed_defs(&pet_doc(), &obj(vec![("type", s("string"))]));
    assert!(defs.keys.is_empty());
}

#[test]
fn bundle_root_merges_or_wraps() {
    let defs = Obj::of_members(&match obj(vec![("Tag", s("t"))]) {
        Json::Object(m) => m,
        _ => unreachable!(),
    });
    let root = bundle_root(&obj(vec![("type", s("object"))]), defs);
    assert!(root.equals(&obj(vec![("$defs", obj(vec![("Tag", s("t"))])), ("type", s("object"))])));

    let defs = Obj::of_members(&match obj(vec![("Tag", s("t"))]) {
        Json::Object(m) => m,
        _ => unreachable!(),
    });
    let wrapped = bundle_root(&Json::Bool(true), defs);
    assert!(wrapped.equals(&obj(vec![
        ("$defs", obj(vec![("Tag", s("t"))])),
        ("allOf", Json::Array(vec![Json::Bool(true)])),
    ])));

    let empty = Obj { keys: Vec::new(), vals: Vec::new() };
    let bare = bundle_root(&Json::Bool(true), empty);
    assert!(bare.equals(&obj(vec![("allOf", Json::Array(vec![Json::Bool(true)]))])));
}

#[test]
fn targets_keep_the_first_segment_as_written() {
    let v = obj(vec![
        ("a", reference("#/$defs/A~1b/properties/x")),
        ("b", Json::Array(vec![reference("#/$defs/"), reference("#/components/schemas/C")])),
    ]);
    assert_eq!(gather_targets(&v), vec!["A~1b".to_string(), String::new()]);
}

#[test]
fn mutual_references_are_a_cycle() {
    let schema = obj(vec![(
        "$defs",
        obj(vec![
            ("A", obj(vec![("items", reference("#/$defs/B"))])),
            ("B", obj(vec![("properties", obj(vec![("a", reference("#/$defs/A"))]))])),
        ]),
    )]);
    assert!(defs_have_cycle(&schema));
    let own = obj(vec![("$defs", obj(vec![("Node", obj(vec![("next", reference("#/$defs/Node"))]))]))]);
    assert!(defs_have_cycle(&own));
}

#[test]
fn chains_and_missing_targets_are_no_cycle() {
    let chain = obj(vec![(
        "$defs",
        obj(vec![
            ("A", reference("#/$defs/B")),
            ("B", reference("#/$defs/C")),
            ("C", obj(vec![("type", s("string"))])),
            ("D", reference("#/$defs/Missing")),
        ]),
    )]);
    assert!(!defs_have_cycle(&chain));
    assert!(!defs_have_cycle(&obj(vec![("type", s("object"))])));
    assert!(!defs_have_cycle(&obj(vec![("$defs", s("x"))])));
}

#[test]
fn unresolved_parts_skip_the_operation() {
    let path = "/pets".to_string();
    let op = obj(vec![("operationId", s("listPets")), ("requestBody", reference("#/components/requestBodies/X"))]);
    let (mut seen, mut skipped, mut ws) = (Vec::new(), Vec::new(), Vec::new());
    let mut total = 0u32;
    let r = take_operation(&path, &"post".to_string(), op, &obj(vec![]), Some(None), None, &mut total, &mut seen, &mut skipped, &mut ws);
    assert!(r.is_none());
    assert_eq!(skipped.len(), 1);
    assert_eq!(skipped[0].method, "POST");
    assert_eq!(skipped[0].operation_id.as_deref(), Some("listPets"));
    assert!(matches!(skipped[0].codes[..], [WarningCode::UnresolvedRef]));
    assert_eq!(ws[0].message, "unresolved requestBody $ref");

    let op = obj(vec![("operationId", s("getPet"))]);
    let responses = vec![("200".to_string(), Some(obj(vec![]))), ("404".to_string(), None)];
    let r = take_operation(&path, &"get".to_string(), op, &obj(vec![]), None, Some(responses), &mut total, &mut seen, &mut skipped, &mut ws);
    assert!(r.is_none());
    assert_eq!(total, 2);
    skip_unresolved_path("/broken", &mut total, &mut skipped, &mut ws);
    assert_eq!(total, 3);
    assert_eq!(skipped[2].method, "GET");
    assert_eq!(ws[2].message, "unresolved path item $ref");
    assert_eq!(ws[1].message, "unresolved response $ref");
    assert!(seen.is_empty());
}

#[test]
fn resolved_parts_are_put_into_the_draft() {
    let path = "/pets".to_string();
    let op = obj(vec![
        ("operationId", s("createPet")),
        ("requestBody", reference("#/components/requestBodies/Pet")),
        ("responses", obj(vec![("201", reference("#/components/responses/Created"))])),
    ]);
    let body = obj(vec![("content", obj(vec![]))]);
    let created = obj(vec![("description", s("created"))]);
    let (mut seen, mut skipped, mut ws) = (Vec::new(), Vec::new(), Vec::new());
    let mut total = 0u32;
    let d = take_operation(
        &path,
        &"post".to_string(),
        op,
        &obj(vec![]),
        Some(Some(body.duplicate())),
        Some(vec![("201".to_string(), Some(created.duplicate()))]),
        &mut total,
        &mut seen,
        &mut skipped,
        &mut ws,
    )
    .unwrap();
    let expected = obj(vec![
        ("operationId", s("createPet")),
        ("requestBody", body),
        ("responses", obj(vec![("201", created)])),
    ]);
    assert!(d.op.equals(&expected));
    assert_eq!(d.method, "POST");
    assert_eq!(seen, vec!["createPet".to_string()]);
    assert!(skipped.is_empty());
}

/// The library's side of bundling a schema: the root with the definitions
/// it needs, then its dangling references and reference loops. A document
/// with only local references gives `jsonschema` nothing to embed, so the
/// root is what gets checked.
fn bundle_locally(doc: &Json, schema: &Json) -> (Json, Vec<String>, bool) {
    let rewritten = rewrite_schema_refs(schema);
    let defs = collect_needed_defs(doc, &rewritten);
    let root = bundle_root(&rewritten, defs);
    let unresolved = dangling_defs(&root);
    let had_cycle = defs_have_cycle(&root);
    (root, unresolved, had_cycle)
}

#[test]
fn cycle_leaves_ref_to_defs() {
    let doc = obj(vec![(
        "components",
        obj(vec![(
            "schemas",
            obj(vec![(
                "Node",
                obj(vec![
                    ("type", s("object")),
                    ("properties", obj(vec![("child", reference("#/components/schemas/Node"))])),
                ]),
            )]),
        )]),
    )]);
    let schema = reference("#/components/schemas/Node");
    let (root, unresolved, had_cycle) = bundle_locally(&doc, &schema);
    assert!(unresolved.is_empty(), "{:?}", unresolved);
    assert!(had_cycle);
    let node = root.get("$defs").and_then(|d| d.get("Node")).expect("Node in $defs");
    let child = node.get("properties").and_then(|p| p.get("child")).and_then(|c| c.get("$ref"));
    assert!(matches!(child, Some(Json::Str(r)) if r == "#/$defs/Node"));
    assert!(matches!(root.get("$ref"), Some(Json::Str(r)) if r == "#/$defs/Node"));
}

#[test]
fn unresolved_recorded() {
    let doc = obj(vec![]);
    let schema = reference("#/components/schemas/Missing");
    let (root, unresolved, _) = bundle_locally(&doc, &schema);
    assert!(!unresolved.is_empty() || root.get("$ref").is_some());
    assert_eq!(unresolved, vec!["#/$defs/Missing".to_string()]);
}

#[test]
fn root_holds_every_needed_definition_beside_its_own() {
    let doc = pet_doc();
    let schema = rewrite_schema_refs(&obj(vec![
        ("$defs", obj(vec![("Own", obj(vec![("type", s("boolean"))])), ("Tag", s("mine"))])),
        ("items", reference("#/components/schemas/Pet")),
    ]));
    let defs = collect_needed_defs(&doc, &schema);
    let (root, unresolved, had_cycle) = {
        let root = bundle_root(&schema, defs);
        let unresolved = dangling_defs(&root);
        let had_cycle = defs_have_cycle(&root);
        (root, unresolved, had_cycle)
    };
    let top = match root.get("$defs") {
        Some(Json::Object(m)) => m.iter().map(|m| m.key.clone()).collect::<Vec<_>>(),
        _ => panic!("no $defs"),
    };
    assert_eq!(top, vec!["Own".to_string(), "Pet".to_string(), "Tag".to_string()]);
    assert!(matches!(root.get("$defs").and_then(|d| d.get("Tag")), Some(Json::Str(t)) if t == "mine"));
    assert!(unresolved.is_empty());
    assert!(!had_cycle);
}
