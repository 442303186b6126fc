//! An operation lowered into a tool: its input schema, the checks between
//! the steps, and the tool with its HTTP binding and execution plan.
use vstd::prelude::*;
use crate::body::{BodyBinding, RequestBody};
use crate::destructive::{self, ToolAnnotations};
use crate::draft::{Draft, SchemaSink, draft_warn};
use crate::json::{self, Json, JsonView, Obj};
use crate::params::{ArgBinding, Parameter, ParamsOut};
use crate::responses::{ResponseBody, ResponsesOut};
use crate::schema::strings_view;
use crate::security::{self, SecurityRequirement};
use crate::servers::{self, Server};
use crate::text;
use crate::urls::opt_str_view;
use crate::warnings::{SkippedOperation, SkippedView, Warning, WarningCode, WarningView, warnings_view};

verus! {

/// The input schema of a tool: a closed JSON Schema 2020-12 object of the
/// gathered properties and required names, with the shared definitions
/// under `$defs` when there are any. Keys in order.
pub open spec fn input_schema_spec(
    pk: Seq<Seq<char>>,
    pv: Seq<JsonView>,
    req: Seq<Seq<char>>,
    dk: Seq<Seq<char>>,
    dv: Seq<JsonView>,
) -> JsonView {
    let rest_k = seq!["$schema"@, "additionalProperties"@, "properties"@, "required"@, "type"@];
    let rest_v = seq![
        JsonView::Str("https://json-schema.org/draft/2020-12/schema"@),
        JsonView::Bool(false),
        JsonView::Object(pk, pv),
        JsonView::Array(crate::schema::str_items(req)),
        JsonView::Str("object"@),
    ];
    if dk.len() == 0 {
        JsonView::Object(rest_k, rest_v)
    } else {
        JsonView::Object(seq!["$defs"@] + rest_k, seq![JsonView::Object(dk, dv)] + rest_v)
    }
}

fn str_items_of(req: &Vec<String>) -> (r: Vec<Json>)
    ensures
        json::value_views(r@) == crate::schema::str_items(strings_view(req@)),
{
    let mut out: Vec<Json> = Vec::new();
    let mut i: usize = 0;
    while i < req.len()
        invariant
            i <= req@.len(),
            out@.len() == i,
            forall|k: int| 0 <= k < i ==> #[trigger] out@[k]@ == JsonView::Str(req@[k]@),
        decreases req@.len() - i,
    {
        out.push(Json::Str(req[i].clone()));
        i = i + 1;
    }
    assert(json::value_views(out@) =~= crate::schema::str_items(strings_view(req@)));
    out
}

fn obj_copy(o: &Obj) -> (r: Json)
    requires
        o.wf(),
    ensures
        r@ == JsonView::Object(o.ks(), o.vs()),
{
    let mut c = Obj { keys: Vec::new(), vals: Vec::new() };
    let mut i: usize = 0;
    while i < o.keys.len()
        invariant
            o.wf(),
            c.wf(),
            i <= o.keys@.len(),
            c.keys@.len() == i,
            forall|k: int| 0 <= k < i ==> #[trigger] c.keys@[k]@ == o.keys@[k]@,
            forall|k: int| 0 <= k < i ==> #[trigger] c.vals@[k]@ == o.vals@[k]@,
        decreases o.keys@.len() - i,
    {
        c.keys.push(o.keys[i].clone());
        c.vals.push(o.vals[i].duplicate());
        i = i + 1;
    }
    assert(c.ks() =~= o.ks());
    assert(c.vs() =~= o.vs());
    c.into_json()
}

/// The input schema of the gathered sink (`input_schema_spec`).
pub fn input_schema(sink: &SchemaSink) -> (r: Json)
    requires
        sink.wf(),
    ensures
        r@ == input_schema_spec(
            sink.properties.ks(),
            sink.properties.vs(),
            strings_view(sink.required@),
            sink.defs.ks(),
            sink.defs.vs(),
        ),
{
    let mut keys: Vec<String> = Vec::new();
    let mut vals: Vec<Json> = Vec::new();
    if sink.defs.keys.len() > 0 {
        keys.push("$defs".to_owned());
        vals.push(obj_copy(&sink.defs));
    }
    keys.push("$schema".to_owned());
    vals.push(Json::Str("https://json-schema.org/draft/2020-12/schema".to_owned()));
    keys.push("additionalProperties".to_owned());
    vals.push(Json::Bool(false));
    keys.push("properties".to_owned());
    vals.push(obj_copy(&sink.properties));
    keys.push("required".to_owned());
    let items = str_items_of(&sink.required);
    let arr = Json::Array(items);
    assert(arr@->Array_0 =~= json::value_views(items@));
    vals.push(arr);
    keys.push("type".to_owned());
    vals.push(Json::Str("object".to_owned()));
    let o = Obj { keys, vals };
    proof {
        let want = input_schema_spec(
            sink.properties.ks(),
            sink.properties.vs(),
            strings_view(sink.required@),
            sink.defs.ks(),
            sink.defs.vs(),
        );
        assert(o.ks() =~= want->Object_0);
        assert(o.vs() =~= want->Object_1);
    }
    o.into_json()
}

/// The operation skipped for the codes gathered, if any.
pub open spec fn skipped_for(d: Draft, codes: Seq<WarningCode>) -> SkippedView {
    SkippedView {
        method: d.method@,
        path: d.path@,
        operation_id: opt_str_view(d.operation_id),
        codes,
    }
}

fn skipped_of(d: &Draft, codes: Vec<WarningCode>) -> (r: SkippedOperation)
    ensures
        r@ == skipped_for(*d, codes@),
{
    SkippedOperation {
        method: d.method.clone(),
        path: d.path.clone(),
        operation_id: match &d.operation_id {
            Some(s) => Some(s.clone()),
            None => None,
        },
        codes,
    }
}

/// The operation is skipped when its parameters or body blocked it.
pub fn check_blocked(d: &Draft, sink: &SchemaSink) -> (r: Option<SkippedOperation>)
    ensures
        match r {
            Some(s) => sink.blocking_codes@.len() > 0 && s@ == skipped_for(*d, sink.blocking_codes@),
            None => sink.blocking_codes@.len() == 0,
        },
{
    if sink.blocking_codes.len() > 0 {
        let mut codes: Vec<WarningCode> = Vec::new();
        let mut i: usize = 0;
        while i < sink.blocking_codes.len()
            invariant
                i <= sink.blocking_codes@.len(),
                codes@ == sink.blocking_codes@.take(i as int),
            decreases sink.blocking_codes@.len() - i,
        {
            codes.push(sink.blocking_codes[i]);
            assert(codes@ =~= sink.blocking_codes@.take(i + 1));
            i = i + 1;
        }
        assert(codes@ =~= sink.blocking_codes@);
        Some(skipped_of(d, codes))
    } else {
        None
    }
}

/// The largest input schema, as JSON text, that is not a finding: 64 KiB.
pub const INPUT_SCHEMA_LIMIT: usize = 65536;

/// The findings about the input: a definition that refers to itself, and an
/// input schema whose JSON text is over the limit.
pub open spec fn input_notes(d: Draft, had_cycle: bool, text_len: nat) -> Seq<WarningView> {
    let a = if had_cycle {
        seq![draft_warn(d, WarningCode::RecursiveSchema, "circular $ref left in $defs"@)]
    } else {
        Seq::empty()
    };
    if text_len > INPUT_SCHEMA_LIMIT {
        a.push(draft_warn(d, WarningCode::LargeSchema, "inlined input_schema exceeds 64 KiB"@))
    } else {
        a
    }
}

/// Records the findings about the input (`input_notes`); `text_len` is the
/// length in bytes of the input schema as JSON text.
pub fn note_input(d: &Draft, sink: &mut SchemaSink, text_len: usize)
    ensures
        final(sink).properties == old(sink).properties,
        final(sink).required@ == old(sink).required@,
        final(sink).defs == old(sink).defs,
        final(sink).had_cycle == old(sink).had_cycle,
        final(sink).blocking_codes@ == old(sink).blocking_codes@,
        warnings_view(final(sink).warnings@) == warnings_view(old(sink).warnings@) + input_notes(
            *d,
            old(sink).had_cycle,
            text_len as nat,
        ),
{
    let ghost w0 = warnings_view(sink.warnings@);
    if sink.had_cycle {
        sink.warnings.push(
            crate::draft::warn_for(d, WarningCode::RecursiveSchema, "circular $ref left in $defs"),
        );
    }
    let ghost w1 = warnings_view(sink.warnings@);
    assert(w1 =~= w0 + (if sink.had_cycle {
        seq![draft_warn(*d, WarningCode::RecursiveSchema, "circular $ref left in $defs"@)]
    } else {
        Seq::empty()
    }));
    if text_len > INPUT_SCHEMA_LIMIT {
        sink.warnings.push(
            crate::draft::warn_for(d, WarningCode::LargeSchema, "inlined input_schema exceeds 64 KiB"),
        );
        assert(warnings_view(sink.warnings@) =~= w1.push(sink.warnings@.last()@));
    }
}

} // verus!
verus! {

/// The MCP tool of an operation.
pub struct McpTool {
    pub name: String,
    pub title: String,
    pub description: String,
    pub input_schema: Json,
    pub output_schema: Option<Json>,
    pub annotations: ToolAnnotations,
}

/// Where the operation came from.
pub struct OperationSource {
    pub operation_id: Option<String>,
    pub method: String,
    pub path_template: String,
}

/// How the operation is sent over HTTP.
pub struct HttpBinding {
    pub method: String,
    pub path_template: String,
    pub effective_servers: Vec<Server>,
    pub parameters: Vec<Parameter>,
    pub request_body: Option<RequestBody>,
    pub responses: Vec<(String, ResponseBody)>,
}

/// How a call of the tool is carried out.
pub struct ExecutionPlan {
    pub method: String,
    pub path_template: String,
    pub path_params: Vec<ArgBinding>,
    pub query_params: Vec<ArgBinding>,
    pub header_params: Vec<ArgBinding>,
    pub cookie_params: Vec<ArgBinding>,
    pub body: Option<BodyBinding>,
    pub accept: String,
    pub timeout_ms: u64,
}

/// A compiled operation.
pub struct Operation {
    pub id: String,
    pub tool: McpTool,
    pub source: OperationSource,
    pub http: HttpBinding,
    pub security: Vec<SecurityRequirement>,
    pub tags: Vec<String>,
    pub category: String,
    pub deprecated: bool,
    pub destructive: bool,
    pub enabled_by_default: bool,
    pub execution_plan: ExecutionPlan,
}

/// The tool's title: the summary when it is not empty, else the tool name
/// in title case.
pub open spec fn title_spec(summary: Option<Seq<char>>, name: Seq<char>) -> Seq<char> {
    match summary {
        Some(s) => if s.len() > 0 {
            s
        } else {
            crate::lower::title_case_spec(name)
        },
        None => crate::lower::title_case_spec(name),
    }
}

/// The tool's description: the description unless blank, else the summary,
/// else `{method} {path}`.
pub open spec fn description_spec(d: Draft) -> Seq<char> {
    match d.description {
        Some(s) if text::trim_ws(s@).len() > 0 => s@,
        _ => match d.summary {
            Some(s) => s@,
            None => d.method@ + " "@ + d.path@,
        },
    }
}

/// A description under 24 bytes, or the tool name itself, is weak.
pub open spec fn weak_description(desc: Seq<char>, name: Seq<char>) -> bool {
    vstd::utf8::encode_utf8(desc).len() < 24 || desc == name
}

/// Whether the gateway can meet the operation's security.
pub open spec fn auth_ok_spec(doc: JsonView, d: Draft) -> bool {
    security::security_supported_spec(doc, security::effective_security_spec(doc, d.op@))
}

pub open spec fn when(c: bool, w: WarningView) -> Seq<WarningView> {
    if c {
        seq![w]
    } else {
        Seq::empty()
    }
}

/// The findings about a compiled operation, in order: no JSON success
/// response, no output schema, no servers, unsupported security,
/// deprecated, destructive, weak description.
pub open spec fn final_notes(
    doc: JsonView,
    d: Draft,
    name: Seq<char>,
    json_response: bool,
    has_output: bool,
) -> Seq<WarningView> {
    when(!json_response, draft_warn(d, WarningCode::NoJsonResponse, "success response is not JSON"@))
        + when(!has_output, draft_warn(d, WarningCode::MissingResponseSchema, "no JSON 2xx schema"@))
        + when(
        servers::effective_servers_spec(doc, d.path_item@, d.op@).len() == 0,
        draft_warn(d, WarningCode::NoServers, "no effective servers"@),
    ) + when(
        !auth_ok_spec(doc, d),
        draft_warn(d, WarningCode::AuthUnsupported, "security scheme is not bearer/apiKey header"@),
    ) + when(d.deprecated, draft_warn(d, WarningCode::Deprecated, "operation is deprecated"@))
        + when(
        d.class.destructive,
        draft_warn(d, WarningCode::Destructive, "classified as destructive"@),
    ) + when(
        weak_description(description_spec(d), name),
        draft_warn(d, WarningCode::WeakDescription, "weak description"@),
    )
}

fn push_when(c: bool, d: &Draft, code: WarningCode, msg: &str, ws: &mut Vec<Warning>)
    ensures
        warnings_view(final(ws)@) == warnings_view(old(ws)@) + when(c, draft_warn(*d, code, msg@)),
{
    let ghost w0 = warnings_view(ws@);
    if c {
        ws.push(crate::draft::warn_for(d, code, msg));
        assert(warnings_view(ws@) =~= w0.push(ws@.last()@));
    } else {
        assert(warnings_view(ws@) =~= w0 + Seq::<WarningView>::empty());
    }
}

fn description_of(d: &Draft) -> (r: String)
    ensures
        r@ == description_spec(*d),
{
    match &d.description {
        Some(s) => {
            let t = text::trim(s.as_str());
            if t.len() > 0 {
                return s.clone();
            }
        },
        None => {},
    }
    match &d.summary {
        Some(s) => s.clone(),
        None => text::cat3(d.method.as_str(), " ", d.path.as_str()),
    }
}

fn title_of(d: &Draft, name: &str) -> (r: String)
    ensures
        r@ == title_spec(opt_str_view(d.summary), name@),
{
    match &d.summary {
        Some(s) => {
            if s.as_str().unicode_len() > 0 {
                return s.clone();
            }
        },
        None => {},
    }
    crate::lower::title_case(name)
}

fn str_clone_opt(o: &Option<String>) -> (r: Option<String>)
    ensures
        opt_str_view(r) == opt_str_view(*o),
{
    match o {
        Some(s) => Some(s.clone()),
        None => None,
    }
}

fn clone_strings(v: &Vec<String>) -> (r: Vec<String>)
    ensures
        strings_view(r@) == strings_view(v@),
{
    let mut out: Vec<String> = Vec::new();
    let mut i: usize = 0;
    while i < v.len()
        invariant
            i <= v@.len(),
            out@.len() == i,
            forall|k: int| 0 <= k < i ==> #[trigger] out@[k]@ == v@[k]@,
        decreases v@.len() - i,
    {
        out.push(v[i].clone());
        i = i + 1;
    }
    assert(strings_view(out@) =~= strings_view(v@));
    out
}

/// The operation compiled once its parts are lowered: skipped when its
/// responses block it; else the tool with its findings recorded
/// (`final_notes`). It is enabled by default unless destructive,
/// deprecated, or of security the gateway cannot meet.
#[verifier::rlimit(60)]
pub fn finish_operation(
    doc: &Json,
    d: &Draft,
    tool_name: String,
    warnings: &mut Vec<Warning>,
    params: ParamsOut,
    request_body: Option<RequestBody>,
    body_binding: Option<BodyBinding>,
    input_schema: Json,
    responses: ResponsesOut,
) -> (r: Result<Operation, SkippedOperation>)
    ensures
        match responses.blocking {
            Some(codes) => {
                &&& r matches Err(s) && s@ == skipped_for(*d, codes@)
                &&& final(warnings)@ == old(warnings)@
            },
            None => {
                &&& warnings_view(final(warnings)@) == warnings_view(old(warnings)@) + final_notes(
                    doc@,
                    *d,
                    tool_name@,
                    responses.json_response,
                    responses.output_schema is Some,
                )
                &&& r matches Ok(op) && {
                    &&& op.id@ == crate::lower::operation_id_spec(d.method@, d.path@)
                    &&& op.tool.name@ == tool_name@
                    &&& op.tool.title@ == title_spec(opt_str_view(d.summary), tool_name@)
                    &&& op.tool.description@ == description_spec(*d)
                    &&& op.tool.input_schema == input_schema
                    &&& op.tool.output_schema == responses.output_schema
                    &&& op.tool.annotations == destructive::annotations_spec(d.class)
                    &&& opt_str_view(op.source.operation_id) == opt_str_view(d.operation_id)
                    &&& op.source.method@ == d.method@
                    &&& op.source.path_template@ == d.path@
                    &&& op.http.method@ == d.method@
                    &&& op.http.path_template@ == d.path@
                    &&& servers::servers_view(op.http.effective_servers@)
                        == servers::effective_servers_spec(doc@, d.path_item@, d.op@)
                    &&& op.http.parameters@ == params.ir_params@
                    &&& op.http.request_body == request_body
                    &&& op.http.responses@ == responses.responses@
                    &&& security::requirements_view(op.security@) == security::effective_security_spec(
                        doc@,
                        d.op@,
                    )
                    &&& strings_view(op.tags@) == strings_view(d.tags@)
                    &&& op.category@ == crate::category::category_spec(
                        crate::category::views(d.tags@),
                        d.path@,
                        crate::lower::first_schema_name_spec(d.op@),
                    )
                    &&& op.deprecated == d.deprecated
                    &&& op.destructive == d.class.destructive
                    &&& op.enabled_by_default == (!d.class.destructive && !d.deprecated
                        && auth_ok_spec(doc@, *d))
                    &&& op.execution_plan.method@ == d.method@
                    &&& op.execution_plan.path_template@ == d.path@
                    &&& op.execution_plan.path_params@ == params.path_bindings@
                    &&& op.execution_plan.query_params@ == params.query_bindings@
                    &&& op.execution_plan.header_params@ == params.header_bindings@
                    &&& op.execution_plan.cookie_params@ == params.cookie_bindings@
                    &&& op.execution_plan.body == body_binding
                    &&& op.execution_plan.accept@ == "application/json"@
                    &&& op.execution_plan.timeout_ms == 15000
                }
            },
        },
{
    let codes = match responses.blocking {
        Some(c) => {
            return Err(skipped_of(d, c));
        },
        None => {},
    };
    let ghost w0 = warnings_view(warnings@);
    let ghost n1 = when(!responses.json_response, draft_warn(*d, WarningCode::NoJsonResponse, "success response is not JSON"@));
    push_when(!responses.json_response, d, WarningCode::NoJsonResponse, "success response is not JSON", warnings);
    let ghost n2 = when(responses.output_schema is None, draft_warn(*d, WarningCode::MissingResponseSchema, "no JSON 2xx schema"@));
    push_when(responses.output_schema.is_none(), d, WarningCode::MissingResponseSchema, "no JSON 2xx schema", warnings);
    assert(warnings_view(warnings@) =~= w0 + (n1 + n2));
    let srv = servers::effective_servers(doc, &d.path_item, &d.op);
    let ghost n3 = when(srv@.len() == 0, draft_warn(*d, WarningCode::NoServers, "no effective servers"@));
    push_when(srv.len() == 0, d, WarningCode::NoServers, "no effective servers", warnings);
    assert(warnings_view(warnings@) =~= w0 + (n1 + n2 + n3));
    let security = security::effective_security(doc, &d.op);
    let auth_ok = security::security_supported(doc, &security);
    let ghost n4 = when(!auth_ok, draft_warn(*d, WarningCode::AuthUnsupported, "security scheme is not bearer/apiKey header"@));
    push_when(!auth_ok, d, WarningCode::AuthUnsupported, "security scheme is not bearer/apiKey header", warnings);
    assert(warnings_view(warnings@) =~= w0 + (n1 + n2 + n3 + n4));
    let ghost n5 = when(d.deprecated, draft_warn(*d, WarningCode::Deprecated, "operation is deprecated"@));
    push_when(d.deprecated, d, WarningCode::Deprecated, "operation is deprecated", warnings);
    assert(warnings_view(warnings@) =~= w0 + (n1 + n2 + n3 + n4 + n5));
    let ghost n6 = when(d.class.destructive, draft_warn(*d, WarningCode::Destructive, "classified as destructive"@));
    push_when(d.class.destructive, d, WarningCode::Destructive, "classified as destructive", warnings);
    assert(warnings_view(warnings@) =~= w0 + (n1 + n2 + n3 + n4 + n5 + n6));
    let title = title_of(d, tool_name.as_str());
    let description = description_of(d);
    let weak = description.as_str().as_bytes().len() < 24 || text::str_eq(description.as_str(), tool_name.as_str());
    let ghost n7 = when(weak, draft_warn(*d, WarningCode::WeakDescription, "weak description"@));
    push_when(weak, d, WarningCode::WeakDescription, "weak description", warnings);
    assert(warnings_view(warnings@) =~= w0 + (n1 + n2 + n3 + n4 + n5 + n6 + n7));
    proof {
        assert(weak == weak_description(description_spec(*d), tool_name@));
        assert(n1 + n2 + n3 + n4 + n5 + n6 + n7 == final_notes(
            doc@,
            *d,
            tool_name@,
            responses.json_response,
            responses.output_schema is Some,
        ));
    }
    let schema_ref = crate::lower::first_schema_name(&d.op);
    let category = match &schema_ref {
        Some(s) => crate::category::category(d.tags.as_slice(), d.path.as_str(), Some(s.as_str())),
        None => crate::category::category(d.tags.as_slice(), d.path.as_str(), None),
    };
    let enabled = !d.class.destructive && !d.deprecated && auth_ok;
    let tool = McpTool {
        name: tool_name,
        title,
        description,
        input_schema,
        output_schema: responses.output_schema,
        annotations: destructive::annotations(d.class),
    };
    let source = OperationSource {
        operation_id: str_clone_opt(&d.operation_id),
        method: d.method.clone(),
        path_template: d.path.clone(),
    };
    let http = HttpBinding {
        method: d.method.clone(),
        path_template: d.path.clone(),
        effective_servers: srv,
        parameters: params.ir_params,
        request_body,
        responses: responses.responses,
    };
    let plan = ExecutionPlan {
        method: d.method.clone(),
        path_template: d.path.clone(),
        path_params: params.path_bindings,
        query_params: params.query_bindings,
        header_params: params.header_bindings,
        cookie_params: params.cookie_bindings,
        body: body_binding,
        accept: "application/json".to_owned(),
        timeout_ms: 15000,
    };
    Ok(
        Operation {
            id: crate::lower::operation_id(d.method.as_str(), d.path.as_str()),
            tool,
            source,
            http,
            security,
            tags: clone_strings(&d.tags),
            category,
            deprecated: d.deprecated,
            destructive: d.class.destructive,
            enabled_by_default: enabled,
            execution_plan: plan,
        },
    )
}

} // verus!
