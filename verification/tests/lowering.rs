use mcp_gateway::body::{bind_body, body_plan, fold_arg, lower_body_bundled, BodyMode};
use mcp_gateway::collect::{op_draft, path_operations, skip_webhooks};
use mcp_gateway::compile::{
    count_enabled, doc_description, doc_title, document_servers, note_collisions, tool_explosion,
};
use mcp_gateway::destructive::classify;
use mcp_gateway::draft::{apply_bundle, note_schema, BundleOutcome, Draft, SchemaSink};
use mcp_gateway::json::{Json, Member, Obj};
use mcp_gateway::lower::{first_schema_name, operation_id, title_case};
use mcp_gateway::operation::{check_blocked, finish_operation, input_schema, note_input};
use mcp_gateway::params::{
    bind_param, merge_parameters, param_plan, raw_params, ParamLocation, ParamsOut,
};
use mcp_gateway::refs::{parse_usize, pointer};
use mcp_gateway::responses::{lower_responses_bundled, response_plans};
use mcp_gateway::schema::{flatten_allof, hoist_defs};
use mcp_gateway::security::{
    effective_security, parse_security_schemes, security_supported, ApiKeyLocation,
    SecurityScheme,
};
use mcp_gateway::servers::{effective_servers, parse_server};
use mcp_gateway::style::Style;
use mcp_gateway::warnings::{skip, warn, Severity, WarningCode};

fn s(v: &str) -> Json {
    Json::Str(v.to_string())
}

fn arr(items: Vec<Json>) -> Json {
    Json::Array(items)
}

/// An object with its members in the given order (callers list keys sorted,
/// as a parsed document holds them).
fn obj(members: Vec<(&str, Json)>) -> Json {
    Json::Object(members.into_iter().map(|(k, v)| Member { key: k.to_string(), value: v }).collect())
}

fn same(a: &Json, b: &Json) -> bool {
    a.equals(b)
}

fn empty_obj() -> Obj {
    Obj { keys: Vec::new(), vals: Vec::new() }
}

fn draft(method: &str, path: &str, op: Json) -> Draft {
    Draft {
        method: method.to_string(),
        path: path.to_string(),
        operation_id: Some("op".to_string()),
        summary: None,
        description: None,
        tags: vec![],
        deprecated: false,
        op,
        path_item: obj(vec![]),
        class: classify(method, path, Some("op")),
        candidate_name: "op".to_string(),
    }
}

fn bundle(schema: Json) -> BundleOutcome {
    BundleOutcome { schema, had_cycle: false, unresolved: vec![] }
}

// --- servers -----------------------------------------------------------------

#[test]
fn server_reads_url_variables_and_description() {
    let v = obj(vec![
        ("description", s("prod")),
        ("url", s("https://{region}.example.com")),
        (
            "variables",
            obj(vec![(
                "region",
                obj(vec![("default", s("eu")), ("enum", arr(vec![s("eu"), s("us")]))]),
            )]),
        ),
    ]);
    let srv = parse_server(&v).unwrap();
    assert_eq!(srv.url_template, "https://{region}.example.com");
    assert_eq!(srv.description, Some("prod".to_string()));
    assert_eq!(srv.variables.len(), 1);
    assert_eq!(srv.variables[0].0, "region");
    assert_eq!(srv.variables[0].1.default, Some("eu".to_string()));
    assert_eq!(srv.variables[0].1.enum_values, Some(vec!["eu".to_string(), "us".to_string()]));
    assert!(parse_server(&obj(vec![("url", Json::Bool(true))])).is_none());
}

#[test]
fn operation_servers_win_over_path_and_document() {
    let doc = obj(vec![("servers", arr(vec![obj(vec![("url", s("https://doc"))])]))]);
    let item = obj(vec![("servers", arr(vec![obj(vec![("url", s("https://item"))])]))]);
    let op = obj(vec![("servers", arr(vec![obj(vec![("url", s("https://op"))]), s("junk")]))]);
    let r = effective_servers(&doc, &item, &op);
    assert_eq!(r.len(), 1);
    assert_eq!(r[0].url_template, "https://op");
    let r = effective_servers(&doc, &item, &obj(vec![]));
    assert_eq!(r[0].url_template, "https://item");
    let r = effective_servers(&doc, &obj(vec![]), &obj(vec![]));
    assert_eq!(r[0].url_template, "https://doc");
    let not_array = obj(vec![("servers", s("x"))]);
    assert!(effective_servers(&doc, &obj(vec![]), &not_array).is_empty());
}

// --- security ----------------------------------------------------------------

fn secured_doc() -> Json {
    obj(vec![
        (
            "components",
            obj(vec![(
                "securitySchemes",
                obj(vec![
                    ("basic", obj(vec![("scheme", s("basic")), ("type", s("http"))])),
                    ("bearer", obj(vec![("scheme", s("Bearer")), ("type", s("http"))])),
                    ("key", obj(vec![("in", s("header")), ("name", s("X-Key")), ("type", s("apiKey"))])),
                    ("oauth", obj(vec![("type", s("oauth2"))])),
                ]),
            )]),
        ),
        ("security", arr(vec![obj(vec![("bearer", arr(vec![]))])])),
    ])
}

#[test]
fn security_comes_from_operation_else_document() {
    let doc = secured_doc();
    let reqs = effective_security(&doc, &obj(vec![]));
    assert_eq!(reqs.len(), 1);
    assert_eq!(reqs[0].schemes[0].0, "bearer");
    let op = obj(vec![(
        "security",
        arr(vec![obj(vec![("oauth", arr(vec![s("read"), s("write")]))]), s("junk")]),
    )]);
    let reqs = effective_security(&doc, &op);
    assert_eq!(reqs.len(), 1);
    assert_eq!(reqs[0].schemes[0].1, vec!["read".to_string(), "write".to_string()]);
}

#[test]
fn bearer_and_header_keys_are_supported() {
    let doc = secured_doc();
    assert!(security_supported(&doc, &effective_security(&doc, &obj(vec![]))));
    let oauth_only = obj(vec![("security", arr(vec![obj(vec![("oauth", arr(vec![]))])]))]);
    assert!(!security_supported(&doc, &effective_security(&doc, &oauth_only)));
    let either = obj(vec![(
        "security",
        arr(vec![obj(vec![("basic", arr(vec![]))]), obj(vec![("key", arr(vec![]))])]),
    )]);
    assert!(security_supported(&doc, &effective_security(&doc, &either)));
    let unknown = obj(vec![("security", arr(vec![obj(vec![("nope", arr(vec![]))])]))]);
    assert!(!security_supported(&doc, &effective_security(&doc, &unknown)));
    assert!(security_supported(&doc, &vec![]));
}

#[test]
fn declared_schemes_are_read_with_defaults() {
    let doc = secured_doc();
    let schemes = parse_security_schemes(&doc);
    assert_eq!(schemes.len(), 4);
    match &schemes[1].1 {
        SecurityScheme::Http { scheme, bearer_format } => {
            assert_eq!(scheme, "Bearer");
            assert!(bearer_format.is_none());
        }
        _ => panic!("expected http"),
    }
    match &schemes[2].1 {
        SecurityScheme::ApiKey { name, location } => {
            assert_eq!(name, "X-Key");
            assert_eq!(*location, ApiKeyLocation::Header);
        }
        _ => panic!("expected api key"),
    }
    match &schemes[3].1 {
        SecurityScheme::OAuth2 { flows } => assert!(same(flows, &obj(vec![]))),
        _ => panic!("expected oauth2"),
    }
    let other = obj(vec![(
        "components",
        obj(vec![(
            "securitySchemes",
            obj(vec![
                ("k", obj(vec![("in", s("query")), ("type", s("apiKey"))])),
                ("t", obj(vec![("type", s("mutualTLS"))])),
                ("x", obj(vec![("type", s("other"))])),
            ]),
        )]),
    )]);
    let schemes = parse_security_schemes(&other);
    assert_eq!(schemes.len(), 2);
    match &schemes[0].1 {
        SecurityScheme::ApiKey { name, location } => {
            assert_eq!(name, "k");
            assert_eq!(*location, ApiKeyLocation::Query);
        }
        _ => panic!("expected api key"),
    }
    assert!(matches!(schemes[1].1, SecurityScheme::MutualTls));
}

// --- pointers and small texts -------------------------------------------------

#[test]
fn json_pointer_walks_objects_and_arrays() {
    let doc = obj(vec![
        ("a/b", obj(vec![("c~d", s("x"))])),
        ("list", arr(vec![s("zero"), s("one")])),
    ]);
    assert!(same(pointer(&doc, "/a~1b/c~0d").unwrap(), &s("x")));
    assert!(same(pointer(&doc, "/list/1").unwrap(), &s("one")));
    assert!(same(pointer(&doc, "/list/+0").unwrap(), &s("zero")));
    assert!(pointer(&doc, "/list/2").is_none());
    assert!(pointer(&doc, "/list/x").is_none());
    assert!(same(pointer(&doc, "").unwrap(), &doc));
    assert!(same(pointer(&doc, "/").unwrap(), &doc));
    assert!(pointer(&doc, "/missing").is_none());
}

#[test]
fn usize_parsing_follows_std() {
    let p = |t: &str| parse_usize(&t.chars().collect());
    assert_eq!(p("42"), Some(42));
    assert_eq!(p("+7"), Some(7));
    assert_eq!(p("007"), Some(7));
    assert_eq!(p(""), None);
    assert_eq!(p("+"), None);
    assert_eq!(p("-1"), None);
    assert_eq!(p("1a"), None);
    assert_eq!(p("99999999999999999999999"), None);
}

#[test]
fn operation_ids_hash_method_and_path() {
    assert_eq!(operation_id("GET", "/pets"), "op_0f8d008c7b3330b4");
    assert_eq!(operation_id("POST", "/repos/{owner}/{repo}"), "op_d7db95be986b072d");
    assert_ne!(operation_id("GET", "/pets"), operation_id("POST", "/pets"));
}

#[test]
fn titles_capitalize_words() {
    assert_eq!(title_case("list_pets"), "List Pets");
    assert_eq!(title_case("__get__user_"), "Get User");
    assert_eq!(title_case(""), "");
}

#[test]
fn schema_name_comes_from_body_then_ok_response() {
    let body_ref = obj(vec![(
        "requestBody",
        obj(vec![(
            "content",
            obj(vec![(
                "application/json",
                obj(vec![("schema", obj(vec![("$ref", s("#/components/schemas/Pet"))]))]),
            )]),
        )]),
    )]);
    assert_eq!(first_schema_name(&body_ref), Some("Pet".to_string()));
    let resp_ref = obj(vec![(
        "responses",
        obj(vec![(
            "200",
            obj(vec![(
                "content",
                obj(vec![("application/json", obj(vec![("schema", obj(vec![("$ref", s("Plain"))]))]))]),
            )]),
        )]),
    )]);
    assert_eq!(first_schema_name(&resp_ref), Some("Plain".to_string()));
    assert_eq!(first_schema_name(&obj(vec![])), None);
}

// --- schema clean-up ------------------------------------------------------------

#[test]
fn allof_of_objects_is_flattened() {
    let mut v = obj(vec![(
        "allOf",
        arr(vec![
            obj(vec![
                ("properties", obj(vec![("a", obj(vec![("type", s("string"))]))])),
                ("required", arr(vec![s("a")])),
            ]),
            obj(vec![
                ("properties", obj(vec![("b", obj(vec![("type", s("integer"))]))])),
                ("required", arr(vec![s("b"), s("a")])),
                ("type", s("object")),
            ]),
        ]),
    )]);
    assert!(!flatten_allof(&mut v));
    assert!(v.get("allOf").is_none());
    let props = v.get("properties").unwrap();
    assert!(props.get("a").is_some() && props.get("b").is_some());
    assert!(same(v.get("required").unwrap(), &arr(vec![s("a"), s("b")])));
    assert!(same(v.get("type").unwrap(), &s("object")));
}

#[test]
fn allof_with_ref_or_conflict_is_left() {
    let original = obj(vec![(
        "allOf",
        arr(vec![obj(vec![("$ref", s("#/$defs/A"))]), obj(vec![("type", s("object"))])]),
    )]);
    let mut v = obj(vec![(
        "allOf",
        arr(vec![obj(vec![("$ref", s("#/$defs/A"))]), obj(vec![("type", s("object"))])]),
    )]);
    assert!(flatten_allof(&mut v));
    assert!(same(&v, &original));
    let mut c = obj(vec![(
        "allOf",
        arr(vec![
            obj(vec![("properties", obj(vec![("a", obj(vec![("type", s("string"))]))]))]),
            obj(vec![("properties", obj(vec![("a", obj(vec![("type", s("integer"))]))]))]),
        ]),
    )]);
    assert!(flatten_allof(&mut c));
    assert!(c.get("allOf").is_some());
    let mut none = obj(vec![("type", s("string"))]);
    assert!(!flatten_allof(&mut none));
}

#[test]
fn definitions_are_hoisted_into_the_sink() {
    let mut v = obj(vec![
        ("$defs", obj(vec![("A", obj(vec![("$defs", obj(vec![("B", s("b"))])), ("type", s("a"))]))])),
        ("definitions", obj(vec![("A", s("ignored")), ("C", s("c"))])),
        ("properties", obj(vec![("x", obj(vec![("$defs", obj(vec![("D", s("d"))]))]))])),
    ]);
    let mut sink = empty_obj();
    hoist_defs(&mut v, &mut sink);
    assert_eq!(sink.keys, vec!["A", "B", "C", "D"]);
    assert!(same(&sink.vals[0], &obj(vec![("type", s("a"))])));
    assert!(v.get("$defs").is_none() && v.get("definitions").is_none());
    assert!(same(v.get("properties").unwrap(), &obj(vec![("x", obj(vec![]))])));
}

#[test]
fn bundles_with_unresolved_refs_fail() {
    let mut defs = empty_obj();
    let mut cyc = false;
    let bad = BundleOutcome {
        schema: obj(vec![]),
        had_cycle: true,
        unresolved: vec!["#/x".to_string()],
    };
    assert_eq!(apply_bundle(bad, &mut defs, &mut cyc).err(), Some(vec!["#/x".to_string()]));
    assert!(cyc);
    let (sch, left) = apply_bundle(bundle(obj(vec![("type", s("string"))])), &mut defs, &mut cyc).unwrap();
    assert!(!left);
    assert!(same(&sch, &obj(vec![("type", s("string"))])));
}

#[test]
fn schema_notes_flag_allof_and_discriminator() {
    let d = draft("GET", "/x", obj(vec![]));
    let mut ws = Vec::new();
    note_schema(&obj(vec![("discriminator", obj(vec![]))]), true, &d, &mut ws);
    assert_eq!(ws.len(), 2);
    assert_eq!(ws[0].code, WarningCode::AllOfUnflattened);
    assert_eq!(ws[1].code, WarningCode::Discriminator);
    assert_eq!(ws[1].message, "discriminator present");
}

// --- request bodies ---------------------------------------------------------------

#[test]
fn body_args_avoid_taken_names() {
    let names = vec!["id".to_string(), "body_id".to_string(), "body_id_2".to_string()];
    assert_eq!(fold_arg(&names, "name"), "name");
    assert_eq!(fold_arg(&names, "id"), "body_id_3");
    let fewer = vec!["id".to_string()];
    assert_eq!(fold_arg(&fewer, "id"), "body_id");
}

#[test]
fn body_fold_collision_keeps_wire_name() {
    let mut props = empty_obj();
    props.insert("id", obj(vec![("type", s("string"))]));
    let mut required = vec!["id".to_string()];
    let schema = obj(vec![
        ("properties", obj(vec![("id", obj(vec![("type", s("integer"))])), ("name", s("n"))])),
        ("required", arr(vec![s("id"), s("name")])),
        ("type", s("object")),
    ]);
    let (rb, bb, msgs) = bind_body("application/json".to_string(), true, schema, &mut props, &mut required);
    assert!(rb.folded_into_input);
    assert_eq!(bb.mode, BodyMode::Fold);
    assert_eq!(bb.folded_keys.len(), 2);
    assert_eq!(bb.folded_keys[0].arg_name, "body_id");
    assert_eq!(bb.folded_keys[0].wire_name, "id");
    assert_eq!(msgs, vec!["body property id collided; renamed body_id".to_string()]);
    assert_eq!(required, vec!["id".to_string(), "body_id".to_string(), "name".to_string()]);
    assert_eq!(props.keys, vec!["body_id", "id", "name"]);
}

#[test]
fn non_object_and_form_bodies_are_one_argument() {
    let mut props = empty_obj();
    let mut required = Vec::new();
    let (rb, bb, msgs) =
        bind_body("application/json".to_string(), true, obj(vec![("type", s("array"))]), &mut props, &mut required);
    assert!(!rb.folded_into_input);
    assert_eq!(bb.mode, BodyMode::Whole);
    assert_eq!(bb.arg_name, Some("body".to_string()));
    assert!(msgs.is_empty());
    assert_eq!(required, vec!["body".to_string()]);
    let mut props = empty_obj();
    let mut required = Vec::new();
    let (_, bb, _) = bind_body(
        "application/x-www-form-urlencoded".to_string(),
        false,
        obj(vec![("type", s("object"))]),
        &mut props,
        &mut required,
    );
    assert_eq!(bb.mode, BodyMode::FormUrlencoded);
    assert!(required.is_empty());
    assert_eq!(props.keys, vec!["body"]);
}

#[test]
fn body_plans_pick_json_and_note_missing_parts() {
    let op = obj(vec![(
        "requestBody",
        obj(vec![
            ("content", obj(vec![("application/json", obj(vec![]))])),
            ("required", Json::Bool(true)),
        ]),
    )]);
    let d = draft("POST", "/pets", op);
    let mut ws = Vec::new();
    let plan = body_plan(&d, &mut ws).unwrap();
    assert_eq!(plan.content_type, "application/json");
    assert!(plan.required);
    assert!(same(&plan.schema, &obj(vec![("type", s("object"))])));
    assert_eq!(ws.len(), 1);
    assert_eq!(ws[0].message, "body required but schema absent");
    let d = draft("POST", "/pets", obj(vec![("requestBody", obj(vec![]))]));
    let mut ws = Vec::new();
    assert!(body_plan(&d, &mut ws).is_none());
    assert_eq!(ws[0].code, WarningCode::MissingRequestSchema);
    assert_eq!(ws[0].message, "request body has no content");
    let d = draft("POST", "/pets", obj(vec![]));
    let mut ws = Vec::new();
    assert!(body_plan(&d, &mut ws).is_none());
    assert!(ws.is_empty());
}

#[test]
fn unresolved_body_blocks_the_operation() {
    let d = draft("POST", "/pets", obj(vec![]));
    let mut sink = SchemaSink::new();
    let plan = mcp_gateway::body::BodyPlan {
        content_type: "application/json".to_string(),
        required: false,
        schema: obj(vec![]),
    };
    let bad = BundleOutcome { schema: obj(vec![]), had_cycle: false, unresolved: vec!["#/x".to_string()] };
    let (rb, bb) = lower_body_bundled(plan, bad, &d, &mut sink);
    assert!(rb.is_none() && bb.is_none());
    assert_eq!(sink.blocking_codes, vec![WarningCode::UnresolvedRef]);
    assert_eq!(sink.warnings[0].message, "unresolved $ref in request body");
    assert!(check_blocked(&d, &sink).is_some());
}

// --- responses ----------------------------------------------------------------------

fn json_response(schema: Option<Json>) -> Json {
    let media = match schema {
        Some(x) => obj(vec![("schema", x)]),
        None => obj(vec![]),
    };
    obj(vec![("content", obj(vec![("application/json", media)]))])
}

#[test]
fn output_schema_prefers_200_then_201_then_2xx() {
    let op = obj(vec![(
        "responses",
        obj(vec![
            ("201", json_response(Some(s("created")))),
            ("202", json_response(Some(s("accepted")))),
            ("404", json_response(Some(s("missing")))),
        ]),
    )]);
    let d = draft("POST", "/x", op);
    let plans = response_plans(&d.op).unwrap();
    assert_eq!(plans.len(), 3);
    let bundles = plans.iter().map(|p| p.schema.as_ref().map(|x| bundle(x.duplicate()))).collect();
    let mut ws = Vec::new();
    let out = lower_responses_bundled(&d, Some(plans), bundles, &mut ws);
    assert!(same(out.output_schema.as_ref().unwrap(), &s("created")));
    assert!(out.json_response);
    assert!(out.blocking.is_none());
    assert_eq!(out.responses.len(), 3);
}

#[test]
fn non_json_success_and_unresolved_responses() {
    let op = obj(vec![(
        "responses",
        obj(vec![
            ("200", obj(vec![("content", obj(vec![("text/plain", obj(vec![]))]))])),
            ("default", json_response(Some(s("err")))),
        ]),
    )]);
    let d = draft("GET", "/x", op);
    let plans = response_plans(&d.op).unwrap();
    let bundles = vec![
        None,
        Some(BundleOutcome { schema: s("err"), had_cycle: false, unresolved: vec!["#/e".to_string()] }),
    ];
    let mut ws = Vec::new();
    let out = lower_responses_bundled(&d, Some(plans), bundles, &mut ws);
    assert!(out.json_response);
    assert!(out.output_schema.is_none());
    assert_eq!(out.blocking, Some(vec![WarningCode::UnresolvedRef]));
    assert_eq!(ws[0].message, "unresolved $ref in response default");
    let d = draft("GET", "/x", obj(vec![]));
    let none = lower_responses_bundled(&d, response_plans(&d.op), vec![], &mut ws);
    assert!(!none.json_response && none.responses.is_empty());
}

// --- parameters -------------------------------------------------------------------------

fn param(name: &str, loc: &str) -> Json {
    obj(vec![("in", s(loc)), ("name", s(name))])
}

#[test]
fn operation_parameters_override_path_parameters() {
    let d = draft("GET", "/x", obj(vec![]));
    let item = obj(vec![("parameters", arr(vec![param("id", "path"), param("q", "query")]))]);
    let path_raw = raw_params(&item);
    let path_res: Vec<Option<Json>> = path_raw.iter().map(|p| Some(p.duplicate())).collect();
    let op_raw = vec![obj(vec![("$ref", s("#/bad"))]), obj(vec![("in", s("query")), ("name", s("q")), ("x", s("op"))])];
    let op_res = vec![None, Some(op_raw[1].duplicate())];
    let mut ws = Vec::new();
    let merged = merge_parameters(&d, &path_raw, &path_res, &op_raw, &op_res, &mut ws);
    assert_eq!(merged.len(), 3);
    assert!(same(&merged[0], &param("id", "path")));
    assert!(same(&merged[2], &op_raw[1]));
    assert_eq!(ws.len(), 1);
    assert_eq!(ws[0].message, "unresolved parameter $ref");
}

#[test]
fn parameters_are_planned_and_bound() {
    let d = draft("GET", "/pets/{id}", obj(vec![]));
    let mut sink = SchemaSink::new();
    let plan = param_plan(&param("id", "path"), &d, &mut sink).unwrap();
    assert!(plan.required);
    assert_eq!(plan.location, ParamLocation::Path);
    assert_eq!(plan.style, Style::Simple);
    assert!(same(&plan.schema, &obj(vec![("type", s("string"))])));
    let mut out = ParamsOut::new();
    let schema = plan.schema.duplicate();
    bind_param(plan, bundle(schema), &d, &mut sink, &mut out);
    assert_eq!(out.path_bindings.len(), 1);
    assert_eq!(out.path_bindings[0].arg_name, "id");
    assert_eq!(sink.required, vec!["id".to_string()]);
    assert_eq!(sink.properties.keys, vec!["id"]);
    let schema = input_schema(&sink);
    assert!(same(schema.get("additionalProperties").unwrap(), &Json::Bool(false)));
    assert!(same(schema.get("required").unwrap(), &arr(vec![s("id")])));
    assert!(schema.get("$defs").is_none());
}

#[test]
fn bad_parameters_are_findings() {
    let d = draft("GET", "/x", obj(vec![]));
    let mut sink = SchemaSink::new();
    assert!(param_plan(&obj(vec![("in", s("query"))]), &d, &mut sink).is_none());
    assert_eq!(sink.blocking_codes, vec![WarningCode::UnresolvedRef]);
    let mut sink = SchemaSink::new();
    assert!(param_plan(&param("a", "body"), &d, &mut sink).is_none());
    assert_eq!(sink.warnings[0].message, "unknown parameter in=\"body\" for a");
    assert!(sink.blocking_codes.is_empty());
    let mut sink = SchemaSink::new();
    let deep = obj(vec![("in", s("query")), ("name", s("f")), ("required", Json::Bool(true)), ("style", s("deepObject"))]);
    assert!(param_plan(&deep, &d, &mut sink).is_none());
    assert_eq!(sink.warnings[0].severity, Some(Severity::Blocking));
    assert_eq!(sink.blocking_codes, vec![WarningCode::UnsupportedStyle]);
}

// --- operations ---------------------------------------------------------------------------

#[test]
fn finished_operations_carry_their_findings() {
    let doc = obj(vec![("servers", arr(vec![obj(vec![("url", s("https://api"))])]))]);
    let mut d = draft("DELETE", "/pets/{id}", obj(vec![]));
    d.summary = Some("Delete a pet".to_string());
    let mut sink = SchemaSink::new();
    note_input(&d, &mut sink, 70000);
    assert_eq!(sink.warnings[0].code, WarningCode::LargeSchema);
    let resp = lower_responses_bundled(&d, None, vec![], &mut sink.warnings);
    let schema = input_schema(&sink);
    let mut ws = sink.warnings;
    let op = finish_operation(&doc, &d, "delete_pet".to_string(), &mut ws, ParamsOut::new(), None, None, schema, resp).ok().unwrap();
    assert_eq!(op.id, operation_id("DELETE", "/pets/{id}"));
    assert_eq!(op.tool.title, "Delete a pet");
    assert_eq!(op.tool.description, "Delete a pet");
    assert!(op.destructive && !op.enabled_by_default);
    assert_eq!(op.execution_plan.accept, "application/json");
    assert_eq!(op.execution_plan.timeout_ms, 15000);
    let codes: Vec<WarningCode> = ws.iter().map(|w| w.code).collect();
    assert_eq!(
        codes,
        vec![
            WarningCode::LargeSchema,
            WarningCode::NoJsonResponse,
            WarningCode::MissingResponseSchema,
            WarningCode::Destructive,
            WarningCode::WeakDescription,
        ]
    );
}

// --- collection -------------------------------------------------------------------------------

#[test]
fn path_items_list_their_operations_in_method_order() {
    let item = obj(vec![("parameters", arr(vec![])), ("post", obj(vec![])), ("get", obj(vec![])), ("put", s("x"))]);
    let ops = path_operations(&item);
    let methods: Vec<&str> = ops.iter().map(|(m, _)| m.as_str()).collect();
    assert_eq!(methods, vec!["get", "post"]);
}

#[test]
fn webhooks_are_skipped() {
    let doc = obj(vec![("webhooks", obj(vec![("newPet", obj(vec![("post", obj(vec![]))]))]))]);
    let mut total = 0u32;
    let mut skipped = Vec::new();
    let mut ws = Vec::new();
    skip_webhooks(&doc, &mut total, &mut skipped, &mut ws);
    assert_eq!(total, 1);
    assert_eq!(skipped[0].method, "POST");
    assert_eq!(skipped[0].path, "webhooks/newPet");
    assert_eq!(ws[0].code, WarningCode::Streaming);
    assert_eq!(ws[0].message, "webhook is not compiled");
}

#[test]
fn drafts_skip_unsupported_operations() {
    let mut seen = Vec::new();
    let mut skipped = Vec::new();
    let mut ws = Vec::new();
    let path = "/events".to_string();
    let r = op_draft(&path, &"trace".to_string(), obj(vec![]), &obj(vec![]), &mut seen, &mut skipped, &mut ws);
    assert!(r.is_none());
    assert_eq!(skipped[0].codes, vec![WarningCode::UnsupportedMethod]);
    let streaming = obj(vec![(
        "responses",
        obj(vec![("200", obj(vec![("content", obj(vec![("text/event-stream", obj(vec![]))]))]))]),
    )]);
    assert!(op_draft(&path, &"get".to_string(), streaming, &obj(vec![]), &mut seen, &mut skipped, &mut ws).is_none());
    assert_eq!(skipped[1].codes, vec![WarningCode::Streaming]);
}

#[test]
fn drafts_note_duplicate_and_missing_operation_ids() {
    let mut seen = Vec::new();
    let mut skipped = Vec::new();
    let mut ws = Vec::new();
    let path = "/pets".to_string();
    let op = obj(vec![("operationId", s("listPets")), ("tags", arr(vec![s("pets")]))]);
    let d = op_draft(&path, &"get".to_string(), op, &obj(vec![]), &mut seen, &mut skipped, &mut ws).unwrap();
    assert_eq!(d.method, "GET");
    assert_eq!(d.candidate_name, "list_pets");
    assert_eq!(d.tags, vec!["pets".to_string()]);
    assert!(ws.is_empty());
    let again = obj(vec![("operationId", s("listPets"))]);
    op_draft(&path, &"post".to_string(), again, &obj(vec![]), &mut seen, &mut skipped, &mut ws).unwrap();
    assert_eq!(ws[0].code, WarningCode::DuplicateOperationId);
    assert_eq!(ws[0].message, "duplicate operationId listPets");
    let anonymous = obj(vec![]);
    let d = op_draft(&path, &"put".to_string(), anonymous, &obj(vec![]), &mut seen, &mut skipped, &mut ws).unwrap();
    assert_eq!(ws[1].code, WarningCode::MissingOperationId);
    assert_eq!(d.candidate_name, "put_pets");
    assert_eq!(seen, vec!["listPets".to_string()]);
}

// --- document level ------------------------------------------------------------------------------

#[test]
fn renamed_tools_are_findings() {
    let drafts = vec![draft("GET", "/a", obj(vec![])), draft("GET", "/b", obj(vec![]))];
    let names = vec!["op".to_string(), "op_2".to_string()];
    let mut ws = Vec::new();
    note_collisions(&drafts, &names, &mut ws);
    assert_eq!(ws.len(), 1);
    assert_eq!(ws[0].message, "name collision; assigned op_2");
}

#[test]
fn many_tools_are_findings() {
    assert!(tool_explosion(64).is_none());
    let w = tool_explosion(65).unwrap();
    assert_eq!(w.severity, Some(Severity::Info));
    assert_eq!(w.message, "65 tools compiled");
    let w = tool_explosion(129).unwrap();
    assert_eq!(w.severity, None);
    assert_eq!(w.code, WarningCode::ToolExplosion);
    assert_eq!(count_enabled(&vec![]), 0);
}

#[test]
fn document_title_and_servers() {
    let doc = obj(vec![("info", obj(vec![("description", s("d")), ("title", s("Pets"))]))]);
    assert_eq!(doc_title(&doc), "Pets");
    assert_eq!(doc_description(&doc), Some("d".to_string()));
    assert_eq!(doc_title(&obj(vec![])), "Untitled");
    let servers = document_servers(&doc, Some("https://api.example.com/spec/openapi.json"));
    assert_eq!(servers.len(), 1);
    assert_eq!(servers[0].url_template, "https://api.example.com/");
    assert!(document_servers(&doc, None).is_empty());
}

#[test]
fn warnings_and_skips_are_recorded() {
    let w = warn(WarningCode::Deprecated, None, Some("GET"), Some("/x"), "m".to_string());
    assert_eq!(w.method, Some("GET".to_string()));
    assert!(w.severity.is_none());
    let mut skipped = Vec::new();
    let mut ws = Vec::new();
    skip(&mut skipped, &mut ws, "GET", "/x", None, WarningCode::BinaryBody, "why");
    assert_eq!(skipped[0].codes, vec![WarningCode::BinaryBody]);
    assert_eq!(ws[0].message, "why");
}
