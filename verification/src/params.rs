//! The parameters of an operation as tool input: the path item's and the
//! operation's merged (the operation's win), then each bound by its location
//! and style. References are resolved, and schemas bundled, between steps.
use vstd::prelude::*;
use crate::commands::debug_text;
use crate::draft::{self, BundleOutcome, Draft, SchemaSink, draft_warn};
use crate::json::{self, obj_insert, Json, JsonView, Obj};
use crate::schema::strings_view;
use crate::style::{self, Style, StyleSupport};
use crate::text;
use crate::urls::opt_str_view;
use crate::warnings::{Severity, Warning, WarningCode, WarningView, warnings_view};

verus! {

pub open spec fn values_view(v: Seq<Json>) -> Seq<JsonView> {
    json::value_views(v)
}

/// The `parameters` array of a path item or operation; none for anything
/// else.
pub open spec fn raw_params_spec(v: JsonView) -> Seq<JsonView> {
    match json::get_spec(v, "parameters"@) {
        Some(JsonView::Array(a)) => a,
        _ => Seq::empty(),
    }
}

/// The `parameters` array of a path item or operation (`raw_params_spec`),
/// to be resolved.
pub fn raw_params(v: &Json) -> (r: Vec<Json>)
    ensures
        values_view(r@) == raw_params_spec(v@),
{
    match v.get("parameters") {
        Some(Json::Array(a)) => {
            let mut out: Vec<Json> = Vec::new();
            let mut i: usize = 0;
            while i < a.len()
                invariant
                    i <= a@.len(),
                    out@.len() == i,
                    forall|k: int| 0 <= k < i ==> #[trigger] out@[k]@ == a@[k]@,
                decreases a@.len() - i,
            {
                out.push(a[i].duplicate());
                i = i + 1;
            }
            proof {
                let av = json::get_spec(v@, "parameters"@)->Some_0;
                assert(av->Array_0 =~= values_view(out@));
            }
            out
        },
        _ => {
            assert(values_view(Seq::<Json>::empty()) =~= Seq::<JsonView>::empty());
            Vec::new()
        },
    }
}

/// A parameter as resolved: the resolved object, or the raw one (with a
/// finding) when its reference could not be followed.
pub open spec fn resolved_or_raw(raw: JsonView, res: Option<JsonView>) -> JsonView {
    match res {
        Some(v) => v,
        None => raw,
    }
}

/// Whether two parameters have the same `name` and `in` (as strings,
/// absent counting as such).
pub open spec fn same_param(a: JsonView, b: JsonView) -> bool {
    json::str_field_spec(a, "name"@) == json::str_field_spec(b, "name"@) && json::str_field_spec(
        a,
        "in"@,
    ) == json::str_field_spec(b, "in"@)
}

/// `out` without the parameters that `p` overrides.
pub open spec fn without_same(out: Seq<JsonView>, p: JsonView) -> Seq<JsonView> {
    out.filter(|e: JsonView| !same_param(e, p))
}

/// The path item's parameters, in order.
pub open spec fn merge_path(raw: Seq<JsonView>, res: Seq<Option<JsonView>>) -> Seq<JsonView> {
    Seq::new(raw.len(), |i: int| resolved_or_raw(raw[i], res[i]))
}

/// The operation's parameters added in order, each replacing the earlier
/// ones with its name and location.
pub open spec fn merge_op(out: Seq<JsonView>, raw: Seq<JsonView>, res: Seq<Option<JsonView>>, n: int) -> Seq<JsonView>
    decreases n,
{
    if n <= 0 {
        out
    } else {
        let o = merge_op(out, raw, res, n - 1);
        let p = resolved_or_raw(raw[n - 1], res[n - 1]);
        without_same(o, p).push(p)
    }
}

/// A finding for each parameter whose reference could not be followed.
pub open spec fn unresolved_warnings(d: Draft, res: Seq<Option<JsonView>>) -> Seq<WarningView>
    decreases res.len(),
{
    if res.len() == 0 {
        Seq::empty()
    } else {
        let w = unresolved_warnings(d, res.drop_last());
        if res.last() is None {
            w.push(draft_warn(d, WarningCode::UnresolvedRef, "unresolved parameter $ref"@))
        } else {
            w
        }
    }
}

pub open spec fn res_view(v: Seq<Option<Json>>) -> Seq<Option<JsonView>> {
    Seq::new(
        v.len(),
        |i: int| match v[i] {
            Some(j) => Some(j@),
            None => None,
        },
    )
}

fn str_opt_eq(a: &Option<String>, b: &Option<String>) -> (r: bool)
    ensures
        r == (opt_str_view(*a) == opt_str_view(*b)),
{
    match (a, b) {
        (Some(x), Some(y)) => text::str_eq(x.as_str(), y.as_str()),
        (None, None) => true,
        _ => false,
    }
}

fn drop_same(out: &mut Vec<Json>, p: &Json)
    ensures
        values_view(final(out)@) == without_same(values_view(old(out)@), p@),
{
    let ghost ov = values_view(out@);
    let name = json::str_field(p, "name");
    let loc = json::str_field(p, "in");
    let mut kept: Vec<Json> = Vec::new();
    let mut i: usize = 0;
    assert(ov.take(0).filter(|e: JsonView| !same_param(e, p@)) =~= Seq::<JsonView>::empty()) by {
        reveal(Seq::filter);
    }
    while i < out.len()
        invariant
            ov == values_view(out@),
            i <= out@.len(),
            opt_str_view(name) == json::str_field_spec(p@, "name"@),
            opt_str_view(loc) == json::str_field_spec(p@, "in"@),
            values_view(kept@) == ov.take(i as int).filter(|e: JsonView| !same_param(e, p@)),
        decreases out@.len() - i,
    {
        let n2 = json::str_field(&out[i], "name");
        let l2 = json::str_field(&out[i], "in");
        let ghost before = values_view(kept@);
        assert(ov.take(i + 1).drop_last() =~= ov.take(i as int));
        assert(ov.take(i + 1).last() == out@[i as int]@);
        proof {
            reveal(Seq::filter);
            assert(ov.take(i + 1).filter(|e: JsonView| !same_param(e, p@)) == (if !same_param(
                out@[i as int]@,
                p@,
            ) {
                ov.take(i as int).filter(|e: JsonView| !same_param(e, p@)).push(out@[i as int]@)
            } else {
                ov.take(i as int).filter(|e: JsonView| !same_param(e, p@))
            }));
        }
        if !(str_opt_eq(&n2, &name) && str_opt_eq(&l2, &loc)) {
            kept.push(out[i].duplicate());
            assert(values_view(kept@) =~= before.push(out@[i as int]@));
        }
        i = i + 1;
    }
    assert(ov.take(out@.len() as int) =~= ov);
    *out = kept;
}

/// The merged parameters of an operation, from the path item's and the
/// operation's raw parameters and what their references resolved to
/// (`None` where one could not be followed): the path item's first, then
/// the operation's, each replacing earlier ones of the same name and
/// location. A finding is recorded for each unresolved reference, the path
/// item's first.
pub fn merge_parameters(
    d: &Draft,
    path_raw: &Vec<Json>,
    path_res: &Vec<Option<Json>>,
    op_raw: &Vec<Json>,
    op_res: &Vec<Option<Json>>,
    warnings: &mut Vec<Warning>,
) -> (r: Vec<Json>)
    requires
        path_raw@.len() == path_res@.len(),
        op_raw@.len() == op_res@.len(),
    ensures
        values_view(r@) == merge_op(
            merge_path(values_view(path_raw@), res_view(path_res@)),
            values_view(op_raw@),
            res_view(op_res@),
            op_raw@.len() as int,
        ),
        warnings_view(final(warnings)@) == warnings_view(old(warnings)@) + unresolved_warnings(
            *d,
            res_view(path_res@),
        ) + unresolved_warnings(*d, res_view(op_res@)),
{
    let ghost w0 = warnings_view(warnings@);
    let ghost pr = res_view(path_res@);
    let ghost orr = res_view(op_res@);
    let mut out: Vec<Json> = Vec::new();
    let mut i: usize = 0;
    assert(pr.take(0) =~= Seq::<Option<JsonView>>::empty());
    while i < path_raw.len()
        invariant
            path_raw@.len() == path_res@.len(),
            pr == res_view(path_res@),
            w0 == warnings_view(old(warnings)@),
            i <= path_raw@.len(),
            out@.len() == i,
            forall|k: int| 0 <= k < i ==> #[trigger] out@[k]@ == resolved_or_raw(
                path_raw@[k]@,
                pr[k],
            ),
            warnings_view(warnings@) == w0 + unresolved_warnings(*d, pr.take(i as int)),
        decreases path_raw@.len() - i,
    {
        let ghost wb = warnings_view(warnings@);
        assert(pr.take(i + 1).drop_last() =~= pr.take(i as int));
        match &path_res[i] {
            Some(v) => {
                out.push(v.duplicate());
            },
            None => {
                warnings.push(draft::warn_for(d, WarningCode::UnresolvedRef, "unresolved parameter $ref"));
                assert(warnings_view(warnings@) =~= wb.push(warnings@.last()@));
                out.push(path_raw[i].duplicate());
            },
        }
        i = i + 1;
    }
    assert(pr.take(path_raw@.len() as int) =~= pr);
    assert(values_view(out@) =~= merge_path(values_view(path_raw@), pr));
    let ghost base = values_view(out@);
    let ghost w1 = warnings_view(warnings@);
    let mut j: usize = 0;
    assert(orr.take(0) =~= Seq::<Option<JsonView>>::empty());
    while j < op_raw.len()
        invariant
            op_raw@.len() == op_res@.len(),
            orr == res_view(op_res@),
            w1 == w0 + unresolved_warnings(*d, pr),
            j <= op_raw@.len(),
            values_view(out@) == merge_op(base, values_view(op_raw@), orr, j as int),
            warnings_view(warnings@) == w1 + unresolved_warnings(*d, orr.take(j as int)),
        decreases op_raw@.len() - j,
    {
        let ghost wb = warnings_view(warnings@);
        assert(orr.take(j + 1).drop_last() =~= orr.take(j as int));
        let p = match &op_res[j] {
            Some(v) => v.duplicate(),
            None => {
                warnings.push(draft::warn_for(d, WarningCode::UnresolvedRef, "unresolved parameter $ref"));
                assert(warnings_view(warnings@) =~= wb.push(warnings@.last()@));
                op_raw[j].duplicate()
            },
        };
        drop_same(&mut out, &p);
        let ghost o2 = values_view(out@);
        out.push(p);
        assert(values_view(out@) =~= o2.push(out@.last()@));
        j = j + 1;
    }
    assert(orr.take(op_raw@.len() as int) =~= orr);
    out
}

} // verus!
verus! {

/// Where a parameter goes.
#[derive(Clone, Copy, Debug, PartialEq, Eq, Structural)]
pub enum ParamLocation {
    Path,
    Query,
    Header,
    Cookie,
}

/// A parameter as found before bundling: its name, location, whether it is
/// required, its style, the schema to bundle and its description.
pub struct ParamPlan {
    pub name: String,
    pub location: ParamLocation,
    pub required: bool,
    pub style: Style,
    pub explode: bool,
    pub schema: Json,
    pub description: Option<String>,
}

pub struct ParamPlanView {
    pub name: Seq<char>,
    pub location: ParamLocation,
    pub required: bool,
    pub style: Style,
    pub explode: bool,
    pub schema: JsonView,
    pub description: Option<Seq<char>>,
}

impl View for ParamPlan {
    type V = ParamPlanView;

    open spec fn view(&self) -> ParamPlanView {
        ParamPlanView {
            name: self.name@,
            location: self.location,
            required: self.required,
            style: self.style,
            explode: self.explode,
            schema: self.schema@,
            description: opt_str_view(self.description),
        }
    }
}

pub open spec fn or_empty(o: Option<Seq<char>>) -> Seq<char> {
    match o {
        Some(s) => s,
        None => Seq::empty(),
    }
}

pub open spec fn location_of(l: Seq<char>) -> Option<ParamLocation> {
    if l == "path"@ {
        Some(ParamLocation::Path)
    } else if l == "header"@ {
        Some(ParamLocation::Header)
    } else if l == "cookie"@ {
        Some(ParamLocation::Cookie)
    } else if l == "query"@ {
        Some(ParamLocation::Query)
    } else {
        None
    }
}

/// `{"type": "string"}`.
pub open spec fn string_type() -> JsonView {
    JsonView::Object(seq!["type"@], seq![JsonView::Str("string"@)])
}

pub open spec fn explode_of(p: JsonView) -> Option<bool> {
    match json::get_spec(p, "explode"@) {
        Some(JsonView::Bool(b)) => Some(b),
        _ => None,
    }
}

/// A parameter read for binding, with the findings and blocking codes on
/// the way: without a name it is an unresolved reference (blocking); an
/// unknown location is a finding (blocking when required or empty); an
/// unsupported style is a finding, blocking when required. A path parameter
/// is always required; the schema defaults to `{"type": "string"}`.
#[verifier::opaque]
pub open spec fn param_plan_spec(p: JsonView, d: Draft) -> (Option<ParamPlanView>, Seq<WarningView>, Seq<WarningCode>) {
    let name = or_empty(json::str_field_spec(p, "name"@));
    let location = or_empty(json::str_field_spec(p, "in"@));
    let required = json::get_spec(p, "required"@) == Some(JsonView::Bool(true)) || location
        == "path"@;
    if name.len() == 0 {
        (
            None,
            seq![draft_warn(d, WarningCode::UnresolvedRef, "parameter is missing name (unresolved $ref?)"@)],
            seq![WarningCode::UnresolvedRef],
        )
    } else {
        match location_of(location) {
            None => (
                None,
                seq![
                    draft_warn(
                        d,
                        WarningCode::UnsupportedStyle,
                        "unknown parameter in="@ + debug_text(location) + " for "@ + name,
                    ),
                ],
                if required || location.len() == 0 {
                    seq![WarningCode::UnsupportedStyle]
                } else {
                    Seq::empty()
                },
            ),
            Some(loc) => match style::parse_style_spec(
                location,
                json::str_field_spec(p, "style"@),
                explode_of(p),
            ) {
                StyleSupport::Unsupported { blocking_if_required } => {
                    let blocks = blocking_if_required && required;
                    (
                        None,
                        seq![
                            WarningView {
                                code: WarningCode::UnsupportedStyle,
                                severity: Some(
                                    if blocks {
                                        Severity::Blocking
                                    } else {
                                        Severity::Warn
                                    },
                                ),
                                operation_id: opt_str_view(d.operation_id),
                                method: Some(d.method@),
                                path: Some(d.path@),
                                message: "unsupported style for parameter "@ + name,
                            },
                        ],
                        if blocks {
                            seq![WarningCode::UnsupportedStyle]
                        } else {
                            Seq::empty()
                        },
                    )
                },
                StyleSupport::Supported(st, ex) => (
                    Some(
                        ParamPlanView {
                            name,
                            location: loc,
                            required,
                            style: st,
                            explode: ex,
                            schema: match json::get_spec(p, "schema"@) {
                                Some(s) => s,
                                None => string_type(),
                            },
                            description: json::str_field_spec(p, "description"@),
                        },
                    ),
                    Seq::empty(),
                    Seq::empty(),
                ),
            },
        }
    }
}

fn string_type_json() -> (r: Json)
    ensures
        r@ == string_type(),
{
    let mut o = Obj { keys: Vec::new(), vals: Vec::new() };
    o.keys.push("type".to_owned());
    o.vals.push(Json::Str("string".to_owned()));
    assert(o.ks() =~= seq!["type"@]);
    assert(o.vs() =~= seq![JsonView::Str("string"@)]);
    o.into_json()
}

fn owned_or_empty(o: Option<String>) -> (r: String)
    ensures
        r@ == or_empty(opt_str_view(o)),
{
    match o {
        Some(s) => s,
        None => {
            let e = String::new();
            assert(e@ =~= Seq::<char>::empty());
            e
        },
    }
}

/// A parameter read for binding (`param_plan_spec`); its findings and
/// blocking codes are recorded.
#[verifier::rlimit(60)]
pub fn param_plan(p: &Json, d: &Draft, sink: &mut SchemaSink) -> (r: Option<ParamPlan>)
    ensures
        final(sink).properties == old(sink).properties,
        final(sink).required@ == old(sink).required@,
        final(sink).defs == old(sink).defs,
        final(sink).had_cycle == old(sink).had_cycle,
        ({
            let (plan, ws, codes) = param_plan_spec(p@, *d);
            &&& warnings_view(final(sink).warnings@) == warnings_view(old(sink).warnings@) + ws
            &&& final(sink).blocking_codes@ == old(sink).blocking_codes@ + codes
            &&& match r {
                Some(x) => plan == Some(x@),
                None => plan is None,
            }
        }),
{
    reveal(param_plan_spec);
    let ghost w0 = warnings_view(sink.warnings@);
    let ghost b0 = sink.blocking_codes@;
    let name = owned_or_empty(json::str_field(p, "name"));
    let location = owned_or_empty(json::str_field(p, "in"));
    let req_flag = match p.get("required") {
        Some(Json::Bool(b)) => *b,
        _ => false,
    };
    let required = req_flag || text::str_eq(location.as_str(), "path");
    if name.as_str().unicode_len() == 0 {
        sink.blocking_codes.push(WarningCode::UnresolvedRef);
        sink.warnings.push(
            draft::warn_for(d, WarningCode::UnresolvedRef, "parameter is missing name (unresolved $ref?)"),
        );
        assert(warnings_view(sink.warnings@) =~= w0.push(sink.warnings@.last()@));
        assert(sink.blocking_codes@ =~= b0 + seq![WarningCode::UnresolvedRef]);
        return None;
    }
    let loc = if text::str_eq(location.as_str(), "path") {
        Some(ParamLocation::Path)
    } else if text::str_eq(location.as_str(), "header") {
        Some(ParamLocation::Header)
    } else if text::str_eq(location.as_str(), "cookie") {
        Some(ParamLocation::Cookie)
    } else if text::str_eq(location.as_str(), "query") {
        Some(ParamLocation::Query)
    } else {
        None
    };
    let loc = match loc {
        Some(l) => l,
        None => {
            let q = crate::commands::debug_quote(location.as_str());
            let msg = text::cat(
                text::cat(text::cat("unknown parameter in=", q.as_str()).as_str(), " for ").as_str(),
                name.as_str(),
            );
            sink.warnings.push(draft::warn_for(d, WarningCode::UnsupportedStyle, msg.as_str()));
            assert(warnings_view(sink.warnings@) =~= w0.push(sink.warnings@.last()@));
            if required || location.as_str().unicode_len() == 0 {
                sink.blocking_codes.push(WarningCode::UnsupportedStyle);
                assert(sink.blocking_codes@ =~= b0 + seq![WarningCode::UnsupportedStyle]);
            } else {
                assert(sink.blocking_codes@ =~= b0 + Seq::<WarningCode>::empty());
            }
            return None;
        },
    };
    let style_raw = json::str_field(p, "style");
    let explode = match p.get("explode") {
        Some(Json::Bool(b)) => Some(*b),
        _ => None,
    };
    let support = match &style_raw {
        Some(s) => style::parse_style(location.as_str(), Some(s.as_str()), explode),
        None => style::parse_style(location.as_str(), None, explode),
    };
    match support {
        StyleSupport::Unsupported { blocking_if_required } => {
            let blocks = blocking_if_required && required;
            if blocks {
                sink.blocking_codes.push(WarningCode::UnsupportedStyle);
                assert(sink.blocking_codes@ =~= b0 + seq![WarningCode::UnsupportedStyle]);
            } else {
                assert(sink.blocking_codes@ =~= b0 + Seq::<WarningCode>::empty());
            }
            let id = match &d.operation_id {
                Some(s) => Some(s.clone()),
                None => None,
            };
            sink.warnings.push(
                Warning {
                    code: WarningCode::UnsupportedStyle,
                    severity: Some(
                        if blocks {
                            Severity::Blocking
                        } else {
                            Severity::Warn
                        },
                    ),
                    operation_id: id,
                    method: Some(d.method.clone()),
                    path: Some(d.path.clone()),
                    message: text::cat("unsupported style for parameter ", name.as_str()),
                },
            );
            assert(warnings_view(sink.warnings@) =~= w0.push(sink.warnings@.last()@));
            None
        },
        StyleSupport::Supported(st, ex) => {
            let schema = match p.get("schema") {
                Some(s) => s.duplicate(),
                None => string_type_json(),
            };
            assert(warnings_view(sink.warnings@) =~= w0 + Seq::<WarningView>::empty());
            assert(sink.blocking_codes@ =~= b0 + Seq::<WarningCode>::empty());
            Some(
                ParamPlan {
                    name,
                    location: loc,
                    required,
                    style: st,
                    explode: ex,
                    schema,
                    description: json::str_field(p, "description"),
                },
            )
        },
    }
}

} // verus!
verus! {

/// A parameter of the operation.
pub struct Parameter {
    pub name: String,
    pub location: ParamLocation,
    pub required: bool,
    pub schema: Json,
    pub style: Style,
    pub explode: bool,
    pub description: Option<String>,
}

/// How an argument goes on the wire.
pub struct ArgBinding {
    pub arg_name: String,
    pub wire_name: String,
    pub style: Style,
    pub explode: bool,
    pub required: bool,
}

/// The parameters, and the bindings by location.
pub struct ParamsOut {
    pub ir_params: Vec<Parameter>,
    pub path_bindings: Vec<ArgBinding>,
    pub query_bindings: Vec<ArgBinding>,
    pub header_bindings: Vec<ArgBinding>,
    pub cookie_bindings: Vec<ArgBinding>,
}

impl View for Parameter {
    type V = ParamPlanView;

    /// A parameter has the shape of its plan, with the lowered schema.
    open spec fn view(&self) -> ParamPlanView {
        ParamPlanView {
            name: self.name@,
            location: self.location,
            required: self.required,
            style: self.style,
            explode: self.explode,
            schema: self.schema@,
            description: opt_str_view(self.description),
        }
    }
}

pub struct ArgBindingView {
    pub arg_name: Seq<char>,
    pub wire_name: Seq<char>,
    pub style: Style,
    pub explode: bool,
    pub required: bool,
}

impl View for ArgBinding {
    type V = ArgBindingView;

    open spec fn view(&self) -> ArgBindingView {
        ArgBindingView {
            arg_name: self.arg_name@,
            wire_name: self.wire_name@,
            style: self.style,
            explode: self.explode,
            required: self.required,
        }
    }
}

pub open spec fn parameters_view(v: Seq<Parameter>) -> Seq<ParamPlanView> {
    Seq::new(v.len(), |i: int| v[i]@)
}

pub open spec fn bindings_view(v: Seq<ArgBinding>) -> Seq<ArgBindingView> {
    Seq::new(v.len(), |i: int| v[i]@)
}

impl ParamsOut {
    pub fn new() -> (r: ParamsOut)
        ensures
            r.ir_params@.len() == 0,
            r.path_bindings@.len() == 0,
            r.query_bindings@.len() == 0,
            r.header_bindings@.len() == 0,
            r.cookie_bindings@.len() == 0,
    {
        ParamsOut {
            ir_params: Vec::new(),
            path_bindings: Vec::new(),
            query_bindings: Vec::new(),
            header_bindings: Vec::new(),
            cookie_bindings: Vec::new(),
        }
    }

    /// The bindings for one location.
    pub open spec fn bindings_at(&self, loc: ParamLocation) -> Seq<ArgBinding> {
        match loc {
            ParamLocation::Path => self.path_bindings@,
            ParamLocation::Query => self.query_bindings@,
            ParamLocation::Header => self.header_bindings@,
            ParamLocation::Cookie => self.cookie_bindings@,
        }
    }
}

/// The binding of a parameter: its name on both sides.
pub open spec fn binding_of(p: ParamPlanView) -> ArgBindingView {
    ArgBindingView {
        arg_name: p.name,
        wire_name: p.name,
        style: p.style,
        explode: p.explode,
        required: p.required,
    }
}

/// A parameter bound once its schema is bundled (`apply_bundle_spec`):
/// unresolved references block the operation, with a finding; else the
/// schema's findings are recorded, the parameter and its binding added, and
/// its schema becomes an input property (required when it is).
pub fn bind_param(plan: ParamPlan, bundled: BundleOutcome, d: &Draft, sink: &mut SchemaSink, out: &mut ParamsOut)
    requires
        old(sink).wf(),
    ensures
        final(sink).wf(),
        final(sink).had_cycle == (old(sink).had_cycle || bundled.had_cycle),
        ({
            let (res, dd) = draft::apply_bundle_spec(
                bundled.schema@,
                bundled.unresolved@.len() > 0,
                (old(sink).defs.ks(), old(sink).defs.vs()),
            );
            let pv = plan@;
            &&& (final(sink).defs.ks(), final(sink).defs.vs()) == dd
            &&& match res {
                None => {
                    &&& final(sink).blocking_codes@ == old(sink).blocking_codes@.push(WarningCode::UnresolvedRef)
                    &&& warnings_view(final(sink).warnings@) == warnings_view(old(sink).warnings@).push(
                        draft_warn(*d, WarningCode::UnresolvedRef, "unresolved $ref in parameter "@ + pv.name),
                    )
                    &&& final(sink).properties == old(sink).properties
                    &&& final(sink).required@ == old(sink).required@
                    &&& parameters_view(final(out).ir_params@) == parameters_view(old(out).ir_params@)
                    &&& forall|l: ParamLocation| bindings_view(#[trigger] final(out).bindings_at(l)) == bindings_view(old(out).bindings_at(l))
                },
                Some((s, left)) => {
                    let lowered = ParamPlanView { schema: s, ..pv };
                    &&& final(sink).blocking_codes@ == old(sink).blocking_codes@
                    &&& warnings_view(final(sink).warnings@) == warnings_view(old(sink).warnings@)
                        + draft::schema_notes(s, left, *d)
                    &&& (final(sink).properties.ks(), final(sink).properties.vs()) == obj_insert(
                        old(sink).properties.ks(),
                        old(sink).properties.vs(),
                        pv.name,
                        s,
                    )
                    &&& strings_view(final(sink).required@) == (if pv.required {
                        strings_view(old(sink).required@).push(pv.name)
                    } else {
                        strings_view(old(sink).required@)
                    })
                    &&& parameters_view(final(out).ir_params@) == parameters_view(old(out).ir_params@).push(lowered)
                    &&& forall|l: ParamLocation| bindings_view(#[trigger] final(out).bindings_at(l)) == if l == pv.location {
                        bindings_view(old(out).bindings_at(l)).push(binding_of(lowered))
                    } else {
                        bindings_view(old(out).bindings_at(l))
                    }
                },
            }
        }),
{
    let ghost pv = plan@;
    match draft::apply_bundle(bundled, &mut sink.defs, &mut sink.had_cycle) {
        Err(_) => {
            sink.blocking_codes.push(WarningCode::UnresolvedRef);
            let ghost w0 = warnings_view(sink.warnings@);
            let msg = text::cat("unresolved $ref in parameter ", plan.name.as_str());
            sink.warnings.push(draft::warn_for(d, WarningCode::UnresolvedRef, msg.as_str()));
            assert(warnings_view(sink.warnings@) =~= w0.push(sink.warnings@.last()@));
        },
        Ok((s, leftover)) => {
            draft::note_schema(&s, leftover, d, &mut sink.warnings);
            let binding = ArgBinding {
                arg_name: plan.name.clone(),
                wire_name: plan.name.clone(),
                style: plan.style,
                explode: plan.explode,
                required: plan.required,
            };
            let ghost p0 = parameters_view(out.ir_params@);
            let ghost bp = bindings_view(out.path_bindings@);
            let ghost bq = bindings_view(out.query_bindings@);
            let ghost bh = bindings_view(out.header_bindings@);
            let ghost bc = bindings_view(out.cookie_bindings@);
            match plan.location {
                ParamLocation::Path => {
                    out.path_bindings.push(binding);
                    assert(bindings_view(out.path_bindings@) =~= bp.push(out.path_bindings@.last()@));
                },
                ParamLocation::Query => {
                    out.query_bindings.push(binding);
                    assert(bindings_view(out.query_bindings@) =~= bq.push(out.query_bindings@.last()@));
                },
                ParamLocation::Header => {
                    out.header_bindings.push(binding);
                    assert(bindings_view(out.header_bindings@) =~= bh.push(out.header_bindings@.last()@));
                },
                ParamLocation::Cookie => {
                    out.cookie_bindings.push(binding);
                    assert(bindings_view(out.cookie_bindings@) =~= bc.push(out.cookie_bindings@.last()@));
                },
            }
            sink.properties.insert(plan.name.as_str(), s.duplicate());
            if plan.required {
                let ghost r0 = strings_view(sink.required@);
                sink.required.push(plan.name.clone());
                assert(strings_view(sink.required@) =~= r0.push(pv.name));
            }
            out.ir_params.push(
                Parameter {
                    name: plan.name,
                    location: plan.location,
                    required: plan.required,
                    schema: s,
                    style: plan.style,
                    explode: plan.explode,
                    description: plan.description,
                },
            );
            assert(parameters_view(out.ir_params@) =~= p0.push(out.ir_params@.last()@));
        },
    }
}

} // verus!
