//! The responses of an operation: the JSON (or form) content of each, and
//! the output schema of the tool. Schemas are bundled between the two
//! steps, one per response that has one.
use vstd::prelude::*;
use crate::draft::{self, BundleOutcome, Draft, draft_warn};
use crate::json::{self, Json, JsonView, Member, Obj};
use crate::schema::{member_keys, member_values};
use crate::text;
use crate::urls::opt_str_view;
use crate::warnings::{Warning, WarningCode, WarningView, warnings_view};

verus! {

/// A response's content as found before bundling: its status, the media
/// type chosen (JSON, else form), and the schema to bundle.
pub struct ResponsePlan {
    pub status: String,
    pub content_type: Option<String>,
    pub schema: Option<Json>,
}

pub open spec fn opt_json(o: Option<Json>) -> Option<JsonView> {
    match o {
        Some(j) => Some(j@),
        None => None,
    }
}

pub type PlanView = (Seq<char>, Option<Seq<char>>, Option<JsonView>);

impl View for ResponsePlan {
    type V = PlanView;

    open spec fn view(&self) -> PlanView {
        (self.status@, opt_str_view(self.content_type), opt_json(self.schema))
    }
}

pub open spec fn plans_view(v: Seq<ResponsePlan>) -> Seq<PlanView> {
    Seq::new(v.len(), |i: int| v[i]@)
}

/// The plan for one response.
pub open spec fn plan_of(status: Seq<char>, resp: JsonView) -> PlanView {
    match json::get_spec(resp, "content"@) {
        Some(JsonView::Object(cks, cvs)) => match crate::lower::select_json_spec(cks) {
            Some(j) => (status, Some(cks[j]), json::get_spec(cvs[j], "schema"@)),
            None => (status, None, None),
        },
        _ => (status, None, None),
    }
}

/// The plans of an operation's responses, in order; nothing when
/// `responses` is not an object.
pub open spec fn response_plans_spec(op: JsonView) -> Option<Seq<PlanView>> {
    match json::get_spec(op, "responses"@) {
        Some(JsonView::Object(ks, vs)) => Some(Seq::new(ks.len(), |i: int| plan_of(ks[i], vs[i]))),
        _ => None,
    }
}

fn plan_one(status: &String, resp: &Json) -> (r: ResponsePlan)
    ensures
        r@ == plan_of(status@, resp@),
{
    let content = match resp.get("content") {
        Some(Json::Object(m)) => m,
        _ => {
            return ResponsePlan { status: status.clone(), content_type: None, schema: None };
        },
    };
    proof {
        let cv = json::get_spec(resp@, "content"@)->Some_0;
        assert(cv->Object_0 =~= Seq::new(content@.len(), |i: int| content@[i].key@));
        assert(cv->Object_1 =~= member_values(content@));
    }
    match crate::lower::select_json_content(content) {
        Some((ct, media)) => {
            let schema = match media.get("schema") {
                Some(x) => Some(x.duplicate()),
                None => None,
            };
            ResponsePlan { status: status.clone(), content_type: Some(ct), schema }
        },
        None => ResponsePlan { status: status.clone(), content_type: None, schema: None },
    }
}

/// The plans of an operation's responses (`response_plans_spec`).
pub fn response_plans(op: &Json) -> (r: Option<Vec<ResponsePlan>>)
    ensures
        match r {
            Some(v) => response_plans_spec(op@) == Some(plans_view(v@)),
            None => response_plans_spec(op@) is None,
        },
{
    let m = match op.get("responses") {
        Some(Json::Object(m)) => m,
        _ => return None,
    };
    let ghost ks = member_keys(m@);
    let ghost vs = member_values(m@);
    proof {
        let rv = json::get_spec(op@, "responses"@)->Some_0;
        assert(rv->Object_0 =~= ks);
        assert(rv->Object_1 =~= vs);
    }
    let mut out: Vec<ResponsePlan> = Vec::new();
    let mut i: usize = 0;
    while i < m.len()
        invariant
            ks == member_keys(m@),
            vs == member_values(m@),
            i <= m@.len(),
            out@.len() == i,
            forall|k: int| 0 <= k < i ==> #[trigger] out@[k]@ == plan_of(ks[k], vs[k]),
        decreases m@.len() - i,
    {
        out.push(plan_one(&m[i].key, &m[i].value));
        i = i + 1;
    }
    assert(plans_view(out@) =~= Seq::new(ks.len(), |i: int| plan_of(ks[i], vs[i])));
    Some(out)
}

// ---------------------------------------------------------------------------
// After bundling.
// ---------------------------------------------------------------------------

/// A response of the tool: the media type chosen and the lowered schema.
pub struct ResponseBody {
    pub content_type: Option<String>,
    pub schema: Option<Json>,
}

pub type EntryView = (Seq<char>, Option<Seq<char>>, Option<JsonView>);

pub open spec fn entries_view(v: Seq<(String, ResponseBody)>) -> Seq<EntryView> {
    Seq::new(
        v.len(),
        |i: int| (v[i].0@, opt_str_view(v[i].1.content_type), opt_json(v[i].1.schema)),
    )
}

/// What the responses give: the responses by status, the output schema,
/// whether a success (2xx or default) response is JSON, and the codes that
/// block the operation.
pub struct ResponsesOut {
    pub responses: Vec<(String, ResponseBody)>,
    pub output_schema: Option<Json>,
    pub json_response: bool,
    pub blocking: Option<Vec<WarningCode>>,
}

/// The state of the pass over the responses: the entries, whether a JSON
/// success response was seen, the blocking codes, the findings, and the
/// definitions gathered (which stay with the responses).
pub type RespState = (Seq<EntryView>, bool, Seq<WarningCode>, Seq<WarningView>, crate::schema::Props);

/// A success status: `2xx` or `default`.
pub open spec fn success_status(s: Seq<char>) -> bool {
    text::has_prefix(s, "2"@) || s == "default"@
}

/// One response after its schema was bundled (`b`, present exactly when the
/// plan has a schema).
pub open spec fn resp_step(d: Draft, st: RespState, p: PlanView, b: Option<(JsonView, bool)>) -> RespState {
    let (es, ok, bl, ws, defs) = st;
    let (status, ct, sch) = p;
    let ok2 = ok || (ct is Some && success_status(status));
    match b {
        Some((bs, unresolved)) => {
            let (out, dd) = draft::apply_bundle_spec(bs, unresolved, defs);
            match out {
                Some((s, left)) => (
                    es.push((status, ct, Some(s))),
                    ok2,
                    bl,
                    ws + draft::schema_notes(s, left, d),
                    dd,
                ),
                None => (
                    es.push((status, ct, None)),
                    ok2,
                    bl.push(WarningCode::UnresolvedRef),
                    ws.push(
                        draft_warn(d, WarningCode::UnresolvedRef, "unresolved $ref in response "@ + status),
                    ),
                    dd,
                ),
            }
        },
        None => (es.push((status, ct, None)), ok2, bl, ws, defs),
    }
}

/// The first `n` responses, in order.
pub open spec fn resp_fold(d: Draft, ps: Seq<PlanView>, bs: Seq<Option<(JsonView, bool)>>, n: int, st: RespState) -> RespState
    decreases n,
{
    if n <= 0 {
        st
    } else {
        resp_step(d, resp_fold(d, ps, bs, n - 1, st), ps[n - 1], bs[n - 1])
    }
}

/// The schema of the response with that status, if any.
#[verifier::opaque]
pub open spec fn schema_at(es: Seq<EntryView>, status: Seq<char>) -> Option<JsonView> {
    match json::find_key(Seq::new(es.len(), |i: int| es[i].0), status) {
        Some(i) => es[i].2,
        None => None,
    }
}

/// The first 2xx response, in order, with a schema.
pub open spec fn first_2xx(es: Seq<EntryView>, n: int) -> Option<JsonView>
    decreases n,
{
    if n <= 0 {
        None
    } else {
        match first_2xx(es, n - 1) {
            Some(s) => Some(s),
            None => if text::has_prefix(es[n - 1].0, "2"@) {
                schema_at(es, es[n - 1].0)
            } else {
                None
            },
        }
    }
}

/// The output schema: that of `200`, else `201`, else of the first 2xx
/// response with one.
pub open spec fn output_spec(es: Seq<EntryView>) -> Option<JsonView> {
    match schema_at(es, "200"@) {
        Some(s) => Some(s),
        None => match schema_at(es, "201"@) {
            Some(s) => Some(s),
            None => first_2xx(es, es.len() as int),
        },
    }
}

pub open spec fn bundled_view(v: Seq<Option<BundleOutcome>>) -> Seq<Option<(JsonView, bool)>> {
    Seq::new(
        v.len(),
        |i: int| match v[i] {
            Some(b) => Some((b.schema@, b.unresolved@.len() > 0)),
            None => None,
        },
    )
}

/// The bundles line up with the plans: one for each plan with a schema.
pub open spec fn bundles_match(plans: Seq<ResponsePlan>, bundled: Seq<Option<BundleOutcome>>) -> bool {
    &&& plans.len() == bundled.len()
    &&& forall|i: int| 0 <= i < plans.len() ==> (#[trigger] plans[i].schema is Some <==> bundled[i] is Some)
}

fn entry_schema_at(es: &Vec<(String, ResponseBody)>, status: &str) -> (r: Option<Json>)
    ensures
        opt_json(r) == schema_at(entries_view(es@), status@),
{
    reveal(schema_at);
    let ghost ev = entries_view(es@);
    let ghost ks = Seq::new(ev.len(), |i: int| ev[i].0);
    let mut i: usize = 0;
    while i < es.len()
        invariant
            ev == entries_view(es@),
            ks == Seq::new(ev.len(), |i: int| ev[i].0),
            i <= es@.len(),
            forall|j: int| 0 <= j < i ==> ks[j] != status@,
        decreases es@.len() - i,
    {
        if text::str_eq(es[i].0.as_str(), status) {
            proof {
                reveal(schema_at);
                assert(ks[i as int] == status@);
                let c = choose|k: int|
                    0 <= k < ks.len() && ks[k] == status@ && forall|j: int| 0 <= j < k ==> ks[j] != status@;
                assert(0 <= i < ks.len() && ks[i as int] == status@ && forall|j: int|
                    0 <= j < i ==> ks[j] != status@);
                if c < i {
                    assert(ks[c] != status@);
                } else if c > i {
                    assert(ks[i as int] != status@);
                }
            }
            return match &es[i].1.schema {
                Some(s) => Some(s.duplicate()),
                None => None,
            };
        }
        i = i + 1;
    }
    None
}

fn output_exec(es: &Vec<(String, ResponseBody)>) -> (r: Option<Json>)
    ensures
        opt_json(r) == output_spec(entries_view(es@)),
{
    let ghost ev = entries_view(es@);
    match entry_schema_at(es, "200") {
        Some(s) => return Some(s),
        None => {},
    }
    match entry_schema_at(es, "201") {
        Some(s) => return Some(s),
        None => {},
    }
    let mut i: usize = 0;
    while i < es.len()
        invariant
            ev == entries_view(es@),
            i <= es@.len(),
            first_2xx(ev, i as int) is None,
            schema_at(ev, "200"@) is None,
            schema_at(ev, "201"@) is None,
        decreases es@.len() - i,
    {
        let k = text::chars_of(es[i].0.as_str());
        let two = text::chars_of("2");
        assert(ev[i as int].0 == es@[i as int].0@);
        if text::vec_has_prefix(&k, &two) {
            let s = entry_schema_at(es, es[i].0.as_str());
            match s {
                Some(x) => {
                    proof {
                        assert(first_2xx(ev, i + 1) == schema_at(ev, ev[i as int].0));
                        lemma_first_2xx_extends(ev, i + 1);
                    }
                    return Some(x);
                },
                None => {},
            }
        }
        i = i + 1;
    }
    None
}

/// Once found, the first 2xx schema stays the same over longer prefixes.
proof fn lemma_first_2xx_extends(es: Seq<EntryView>, n: int)
    requires
        0 <= n <= es.len(),
        first_2xx(es, n) is Some,
    ensures
        first_2xx(es, es.len() as int) == first_2xx(es, n),
    decreases es.len() - n,
{
    if n < es.len() {
        lemma_first_2xx_extends(es, n + 1);
    }
}

/// The responses lowered once their schemas are bundled (`resp_fold` from
/// an empty state, with the output schema by `output_spec`); without
/// `responses`, nothing.
pub fn lower_responses_bundled(
    d: &Draft,
    plans: Option<Vec<ResponsePlan>>,
    bundled: Vec<Option<BundleOutcome>>,
    warnings: &mut Vec<Warning>,
) -> (r: ResponsesOut)
    requires
        match plans {
            Some(p) => bundles_match(p@, bundled@),
            None => true,
        },
    ensures
        match plans {
            None => {
                &&& r.responses@.len() == 0
                &&& r.output_schema is None
                &&& !r.json_response
                &&& r.blocking is None
                &&& final(warnings)@ == old(warnings)@
            },
            Some(p) => {
                let (es, ok, bl, ws, _) = resp_fold(
                    *d,
                    plans_view(p@),
                    bundled_view(bundled@),
                    p@.len() as int,
                    (Seq::empty(), false, Seq::empty(), warnings_view(old(warnings)@), (Seq::empty(), Seq::empty())),
                );
                &&& entries_view(r.responses@) == es
                &&& opt_json(r.output_schema) == output_spec(es)
                &&& r.json_response == ok
                &&& match r.blocking {
                    Some(v) => bl.len() > 0 && v@ == bl,
                    None => bl.len() == 0,
                }
                &&& warnings_view(final(warnings)@) == ws
            },
        },
{
    let plans = match plans {
        Some(p) => p,
        None => {
            return ResponsesOut {
                responses: Vec::new(),
                output_schema: None,
                json_response: false,
                blocking: None,
            };
        },
    };
    let ghost pv = plans_view(plans@);
    let ghost bv = bundled_view(bundled@);
    let ghost st0: RespState = (
        Seq::empty(),
        false,
        Seq::empty(),
        warnings_view(warnings@),
        (Seq::empty(), Seq::empty()),
    );
    let mut out: Vec<(String, ResponseBody)> = Vec::new();
    let mut ok = false;
    let mut blocking: Vec<WarningCode> = Vec::new();
    let mut defs = Obj { keys: Vec::new(), vals: Vec::new() };
    let mut had_cycle = false;
    let mut bundled = bundled;
    let mut i: usize = 0;
    assert(entries_view(out@) =~= Seq::<EntryView>::empty());
    assert(defs.ks() =~= Seq::<Seq<char>>::empty());
    assert(defs.vs() =~= Seq::<JsonView>::empty());
    while i < plans.len()
        invariant
            pv == plans_view(plans@),
            bundled@.len() == plans@.len(),
            bv.len() == plans@.len(),
            forall|k: int| i <= k < plans@.len() ==> #[trigger] bundled_view(bundled@)[k] == bv[k],
            defs.wf(),
            i <= plans@.len(),
            resp_fold(*d, pv, bv, i as int, st0) == (
                entries_view(out@),
                ok,
                blocking@,
                warnings_view(warnings@),
                (defs.ks(), defs.vs()),
            ),
        decreases plans@.len() - i,
    {
        let p = &plans[i];
        let ghost before = entries_view(out@);
        let ghost w0 = warnings_view(warnings@);
        let json_ct = p.content_type.is_some();
        if json_ct {
            let k = text::chars_of(p.status.as_str());
            let two = text::chars_of("2");
            if text::vec_has_prefix(&k, &two) || text::str_eq(p.status.as_str(), "default") {
                ok = true;
            }
        }
        let ct = match &p.content_type {
            Some(c) => Some(c.clone()),
            None => None,
        };
        let ghost bb = bundled_view(bundled@);
        assert(bb[i as int] == bv[i as int]);
        let b = bundled.remove(i);
        bundled.insert(i, None);
        assert forall|k: int| i < k < plans@.len() implies #[trigger] bundled_view(bundled@)[k] == bv[k] by {
            assert(bundled_view(bundled@)[k] == bb[k]);
        }
        let schema = match b {
            Some(b) => {
                match draft::apply_bundle(b, &mut defs, &mut had_cycle) {
                    Ok((s, leftover)) => {
                        draft::note_schema(&s, leftover, d, warnings);
                        Some(s)
                    },
                    Err(_) => {
                        blocking.push(WarningCode::UnresolvedRef);
                        let msg = text::cat("unresolved $ref in response ", p.status.as_str());
                        warnings.push(draft::warn_for(d, WarningCode::UnresolvedRef, msg.as_str()));
                        assert(warnings_view(warnings@) =~= w0.push(warnings@.last()@));
                        None
                    },
                }
            },
            None => None,
        };
        out.push((p.status.clone(), ResponseBody { content_type: ct, schema }));
        assert(entries_view(out@) =~= before.push(entries_view(out@).last()));
        i = i + 1;
    }
    let output = output_exec(&out);
    let blocking = if blocking.len() == 0 {
        None
    } else {
        Some(blocking)
    };
    ResponsesOut { responses: out, output_schema: output, json_response: ok, blocking }
}

} // verus!
