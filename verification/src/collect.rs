//! Gathering the operations of a document: webhooks are skipped, each
//! method of a path item becomes a draft or is skipped with a reason.
//! References of path items, bodies and responses are resolved before the
//! per-operation step.
use vstd::prelude::*;
use crate::destructive::{self, Classification};
use crate::draft::Draft;
use crate::json::{self, Json, JsonView, Member, Obj};
use crate::names::{self, NameKind, NameSource};
use crate::schema::{contains_string, member_keys, member_values, strings_view};
use crate::text;
use crate::urls::opt_str_view;
use crate::warnings::{self, SkippedOperation, SkippedView, Warning, WarningCode, WarningView, skipped_view, warn_spec, warnings_view};

verus! {

/// The HTTP methods of a path item, in the order they are compiled.
pub open spec fn methods() -> Seq<Seq<char>> {
    seq!["get"@, "put"@, "post"@, "delete"@, "options"@, "head"@, "patch"@, "trace"@]
}

fn methods_exec() -> (r: Vec<String>)
    ensures
        strings_view(r@) == methods(),
{
    let mut v: Vec<String> = Vec::new();
    v.push("get".to_owned());
    v.push("put".to_owned());
    v.push("post".to_owned());
    v.push("delete".to_owned());
    v.push("options".to_owned());
    v.push("head".to_owned());
    v.push("patch".to_owned());
    v.push("trace".to_owned());
    assert(strings_view(v@) =~= methods());
    v
}

/// The methods of a path item whose value is an object, in method order.
pub open spec fn present_methods(item: JsonView) -> Seq<Seq<char>> {
    methods().filter(|m: Seq<char>| json::get_spec(item, m) matches Some(JsonView::Object(_, _)))
}

/// The operations of a path item: each present method (`present_methods`)
/// with its operation object.
pub fn path_operations(item: &Json) -> (r: Vec<(String, Json)>)
    ensures
        Seq::new(r@.len(), |i: int| r@[i].0@) == present_methods(item@),
        forall|i: int| 0 <= i < r@.len() ==> json::get_spec(item@, #[trigger] r@[i].0@) == Some(r@[i].1@),
{
    let ms = methods_exec();
    let ghost mv = methods();
    let mut out: Vec<(String, Json)> = Vec::new();
    let mut i: usize = 0;
    assert(mv.take(0).filter(|m: Seq<char>| json::get_spec(item@, m) matches Some(JsonView::Object(_, _)))
        =~= Seq::<Seq<char>>::empty()) by {
        reveal(Seq::filter);
    }
    while i < ms.len()
        invariant
            mv == methods(),
            strings_view(ms@) == mv,
            i <= ms@.len(),
            Seq::new(out@.len(), |k: int| out@[k].0@) == mv.take(i as int).filter(
                |m: Seq<char>| json::get_spec(item@, m) matches Some(JsonView::Object(_, _)),
            ),
            forall|k: int| 0 <= k < out@.len() ==> json::get_spec(item@, #[trigger] out@[k].0@) == Some(out@[k].1@),
        decreases ms@.len() - i,
    {
        let ghost before = Seq::new(out@.len(), |k: int| out@[k].0@);
        proof {
            reveal(Seq::filter);
            assert(mv.take(i + 1).drop_last() =~= mv.take(i as int));
            assert(mv.take(i + 1).last() == ms@[i as int]@);
        }
        match item.get(ms[i].as_str()) {
            Some(op) => match op {
                Json::Object(_) => {
                    out.push((ms[i].clone(), op.duplicate()));
                    assert(Seq::new(out@.len(), |k: int| out@[k].0@) =~= before.push(ms@[i as int]@));
                },
                _ => {},
            },
            None => {},
        }
        i = i + 1;
    }
    assert(mv.take(ms@.len() as int) =~= mv);
    out
}

/// The findings and skips for the webhooks of a document: each present
/// method of each webhook is counted and skipped as `webhooks/{name}`.
#[verifier::opaque]
pub open spec fn webhook_skips(names_: Seq<Seq<char>>, items: Seq<JsonView>, n: int) -> Seq<(Seq<char>, Seq<char>)>
    decreases n,
{
    if n <= 0 || n > names_.len() || n > items.len() {
        Seq::empty()
    } else {
        webhook_skips(names_, items, n - 1) + hook_skips(names_[n - 1], items[n - 1])
    }
}

/// The webhooks of the document, when an object.
pub open spec fn webhooks_spec(doc: JsonView) -> Seq<(Seq<char>, Seq<char>)> {
    match json::get_spec(doc, "webhooks"@) {
        Some(JsonView::Object(ks, vs)) => webhook_skips(ks, vs, ks.len() as int),
        _ => Seq::empty(),
    }
}

pub open spec fn webhook_warning(s: (Seq<char>, Seq<char>)) -> WarningView {
    warn_spec(WarningCode::Streaming, None, Some(s.0), Some(s.1), "webhook is not compiled"@)
}

pub open spec fn webhook_skipped(s: (Seq<char>, Seq<char>)) -> SkippedView {
    SkippedView { method: s.0, path: s.1, operation_id: None, codes: seq![WarningCode::Streaming] }
}

fn upper_string(s: &String) -> (r: String)
    ensures
        r@ == text::upper_seq(s@),
{
    let v = text::chars_of(s.as_str());
    let mut out: Vec<char> = Vec::new();
    let mut i: usize = 0;
    while i < v.len()
        invariant
            i <= v@.len(),
            out@ == text::upper_seq(v@).take(i as int),
        decreases v@.len() - i,
    {
        out.push(text::to_upper(v[i]));
        assert(out@ =~= text::upper_seq(v@).take(i + 1));
        i = i + 1;
    }
    assert(out@ =~= text::upper_seq(v@));
    text::string_of(&out)
}

/// Skips the webhooks of the document (`webhooks_spec`): each is counted,
/// recorded as skipped and given a finding, in order.
#[verifier::rlimit(80)]
#[verifier::spinoff_prover]
pub fn skip_webhooks(doc: &Json, operations_total: &mut u32, skipped: &mut Vec<SkippedOperation>, warnings: &mut Vec<Warning>)
    requires
        *old(operations_total) + webhooks_spec(doc@).len() <= u32::MAX,
    ensures
        *final(operations_total) == *old(operations_total) + webhooks_spec(doc@).len(),
        warnings_view(final(warnings)@) == warnings_view(old(warnings)@) + webhooks_spec(doc@).map_values(
            |s: (Seq<char>, Seq<char>)| webhook_warning(s),
        ),
        skipped_view(final(skipped)@) == skipped_view(old(skipped)@) + webhooks_spec(doc@).map_values(
            |s: (Seq<char>, Seq<char>)| webhook_skipped(s),
        ),
{
    let hooks = match doc.get("webhooks") {
        Some(Json::Object(m)) => m,
        _ => {
            assert(warnings_view(warnings@) =~= warnings_view(warnings@) + Seq::<WarningView>::empty());
            assert(skipped_view(skipped@) =~= skipped_view(skipped@) + Seq::<SkippedView>::empty());
            return;
        },
    };
    let ghost ks = member_keys(hooks@);
    let ghost vs = member_values(hooks@);
    proof {
        let hv = json::get_spec(doc@, "webhooks"@)->Some_0;
        assert(hv->Object_0 =~= ks);
        assert(hv->Object_1 =~= vs);
    }
    assert(webhook_skips(ks, vs, 0) =~= Seq::<(Seq<char>, Seq<char>)>::empty()) by {
        reveal(webhook_skips);
    }
    let ghost t0 = *operations_total as int;
    let ghost w0 = warnings_view(warnings@);
    let ghost s0 = skipped_view(skipped@);
    let ghost all = webhook_skips(ks, vs, ks.len() as int);
    let mut i: usize = 0;
    while i < hooks.len()
        invariant
            ks == member_keys(hooks@),
            vs == member_values(hooks@),
            all == webhook_skips(ks, vs, ks.len() as int),
            t0 + all.len() <= u32::MAX,
            i <= hooks@.len(),
            *operations_total == t0 + webhook_skips(ks, vs, i as int).len(),
            warnings_view(warnings@) == w0 + webhook_skips(ks, vs, i as int).map_values(
                |s: (Seq<char>, Seq<char>)| webhook_warning(s),
            ),
            skipped_view(skipped@) == s0 + webhook_skips(ks, vs, i as int).map_values(
                |s: (Seq<char>, Seq<char>)| webhook_skipped(s),
            ),
        decreases hooks@.len() - i,
    {
        proof {
            lemma_webhook_skips_grow(ks, vs, i as int + 1, ks.len() as int);
        }
        let ghost before = webhook_skips(ks, vs, i as int);
        let ghost add = hook_skips(ks[i as int], vs[i as int]);
        proof {
            lemma_skips_step(ks, vs, i as int);
        }
        let ghost wa = warnings_view(warnings@);
        let ghost sa = skipped_view(skipped@);
        skip_hook(&hooks[i].key, &hooks[i].value, operations_total, skipped, warnings);
        proof {
            lemma_map_add(before, add);
        }
        i = i + 1;
    }
}

/// The skips of one webhook: `(METHOD, webhooks/{name})` for each present
/// method.
pub open spec fn hook_skips(name: Seq<char>, item: JsonView) -> Seq<(Seq<char>, Seq<char>)> {
    Seq::new(
        present_methods(item).len(),
        |k: int| (text::upper_seq(present_methods(item)[k]), "webhooks/"@ + name),
    )
}

fn skip_hook(name: &String, item: &Json, operations_total: &mut u32, skipped: &mut Vec<SkippedOperation>, warnings: &mut Vec<Warning>)
    requires
        *old(operations_total) + present_methods(item@).len() <= u32::MAX,
    ensures
        *final(operations_total) == *old(operations_total) + present_methods(item@).len(),
        warnings_view(final(warnings)@) == warnings_view(old(warnings)@) + hook_skips(name@, item@).map_values(
            |s: (Seq<char>, Seq<char>)| webhook_warning(s),
        ),
        skipped_view(final(skipped)@) == skipped_view(old(skipped)@) + hook_skips(name@, item@).map_values(
            |s: (Seq<char>, Seq<char>)| webhook_skipped(s),
        ),
{
    let ops = path_operations(item);
    let path = text::cat("webhooks/", name.as_str());
    let ghost pm = present_methods(item@);
    let ghost t1 = *operations_total;
    let ghost wa = warnings_view(warnings@);
    let ghost sa = skipped_view(skipped@);
    let ghost hs = hook_skips(name@, item@);
    let mut j: usize = 0;
    while j < ops.len()
        invariant
            Seq::new(ops@.len(), |k: int| ops@[k].0@) == pm,
            pm == present_methods(item@),
            hs == hook_skips(name@, item@),
            path@ == "webhooks/"@ + name@,
            j <= ops@.len(),
            t1 + pm.len() <= u32::MAX,
            *operations_total == t1 + j,
            warnings_view(warnings@) == wa + hs.take(j as int).map_values(
                |s: (Seq<char>, Seq<char>)| webhook_warning(s),
            ),
            skipped_view(skipped@) == sa + hs.take(j as int).map_values(
                |s: (Seq<char>, Seq<char>)| webhook_skipped(s),
            ),
        decreases ops@.len() - j,
    {
        *operations_total = *operations_total + 1;
        let m = upper_string(&ops[j].0);
        assert(ops@[j as int].0@ == pm[j as int]);
        let ghost wb = warnings_view(warnings@);
        let ghost sb = skipped_view(skipped@);
        warnings::skip(
            skipped,
            warnings,
            m.as_str(),
            path.as_str(),
            None,
            WarningCode::Streaming,
            "webhook is not compiled",
        );
        assert(hs.take(j + 1) =~= hs.take(j as int).push(hs[j as int]));
        assert(warnings_view(warnings@) =~= wa + hs.take(j + 1).map_values(
            |s: (Seq<char>, Seq<char>)| webhook_warning(s),
        ));
        assert(skipped_view(skipped@) =~= sa + hs.take(j + 1).map_values(
            |s: (Seq<char>, Seq<char>)| webhook_skipped(s),
        ));
        j = j + 1;
    }
    assert(hs.take(ops@.len() as int) =~= hs);
}

proof fn lemma_map_add(a: Seq<(Seq<char>, Seq<char>)>, b: Seq<(Seq<char>, Seq<char>)>)
    ensures
        (a + b).map_values(|s: (Seq<char>, Seq<char>)| webhook_warning(s)) == a.map_values(
            |s: (Seq<char>, Seq<char>)| webhook_warning(s),
        ) + b.map_values(|s: (Seq<char>, Seq<char>)| webhook_warning(s)),
        (a + b).map_values(|s: (Seq<char>, Seq<char>)| webhook_skipped(s)) == a.map_values(
            |s: (Seq<char>, Seq<char>)| webhook_skipped(s),
        ) + b.map_values(|s: (Seq<char>, Seq<char>)| webhook_skipped(s)),
{
    assert((a + b).map_values(|s: (Seq<char>, Seq<char>)| webhook_warning(s)) =~= a.map_values(
        |s: (Seq<char>, Seq<char>)| webhook_warning(s),
    ) + b.map_values(|s: (Seq<char>, Seq<char>)| webhook_warning(s)));
    assert((a + b).map_values(|s: (Seq<char>, Seq<char>)| webhook_skipped(s)) =~= a.map_values(
        |s: (Seq<char>, Seq<char>)| webhook_skipped(s),
    ) + b.map_values(|s: (Seq<char>, Seq<char>)| webhook_skipped(s)));
}

proof fn lemma_skips_step(ks: Seq<Seq<char>>, vs: Seq<JsonView>, i: int)
    requires
        0 <= i < ks.len(),
        ks.len() == vs.len(),
    ensures
        webhook_skips(ks, vs, i + 1) == webhook_skips(ks, vs, i) + hook_skips(ks[i], vs[i]),
{
    reveal(webhook_skips);
}

/// The skips of more webhooks are at least as many.
proof fn lemma_webhook_skips_grow(ks: Seq<Seq<char>>, vs: Seq<JsonView>, n: int, m: int)
    requires
        0 <= n <= m <= ks.len(),
        ks.len() == vs.len(),
    ensures
        webhook_skips(ks, vs, n).len() <= webhook_skips(ks, vs, m).len(),
    decreases m - n,
{
    reveal(webhook_skips);
    if n < m {
        lemma_webhook_skips_grow(ks, vs, n, m - 1);
    }
}

} // verus!
verus! {

/// Why an operation is not compiled, before anything else is read of it:
/// its method, a streaming media type, a binary body.
#[verifier::opaque]
pub open spec fn skip_reason(method_u: Seq<char>, path: Seq<char>, op: JsonView) -> Option<(WarningCode, Seq<char>)> {
    let id = json::str_field_spec(op, "operationId"@);
    let class = destructive::classify_spec(method_u, destructive::keyword_hit_spec(path, id));
    if class.skip {
        Some((WarningCode::UnsupportedMethod, "method is not compiled"@))
    } else if crate::lower::is_streaming_spec(op) {
        Some((WarningCode::Streaming, "streaming / websocket / event-stream is not compiled"@))
    } else if crate::lower::is_binary_body_spec(op) {
        Some((WarningCode::BinaryBody, "binary or multipart request body is not compiled"@))
    } else {
        None
    }
}

/// The findings for a compiled operation: a duplicate operationId (one
/// already seen), and a name not taken from the operationId.
#[verifier::opaque]
pub open spec fn draft_notes(
    method_u: Seq<char>,
    path: Seq<char>,
    op: JsonView,
    seen: Seq<Seq<char>>,
) -> Seq<WarningView> {
    let id = json::str_field_spec(op, "operationId"@);
    let (_, kind) = names::candidate_spec(
        id,
        json::str_field_spec(op, "summary"@),
        json::str_field_spec(op, "description"@),
        method_u,
        path,
    );
    let dup = match id {
        Some(i) => if seen.contains(i) {
            seq![warn_spec(WarningCode::DuplicateOperationId, id, Some(method_u), Some(path), "duplicate operationId "@ + i)]
        } else {
            Seq::empty()
        },
        None => Seq::empty(),
    };
    if kind != NameKind::OperationId {
        dup.push(
            warn_spec(
                WarningCode::MissingOperationId,
                id,
                Some(method_u),
                Some(path),
                "no operationId; name synthesised"@,
            ),
        )
    } else {
        dup
    }
}

/// The operationIds seen, with this one added.
pub open spec fn seen_after(seen: Seq<Seq<char>>, op: JsonView) -> Seq<Seq<char>> {
    match json::str_field_spec(op, "operationId"@) {
        Some(i) => if seen.contains(i) {
            seen
        } else {
            seen.push(i)
        },
        None => seen,
    }
}

fn clone_opt(o: &Option<String>) -> (r: Option<String>)
    ensures
        opt_str_view(r) == opt_str_view(*o),
{
    match o {
        Some(s) => Some(s.clone()),
        None => None,
    }
}

fn as_opt_str(o: &Option<String>) -> (r: Option<&str>)
    ensures
        names::opt_view(r) == opt_str_view(*o),
{
    match o {
        Some(s) => Some(s.as_str()),
        None => None,
    }
}

fn reason_of(method_u: &String, path: &String, op: &Json) -> (r: Option<(WarningCode, &'static str)>)
    ensures
        match r {
            Some((c, m)) => skip_reason(method_u@, path@, op@) == Some((c, m@)),
            None => skip_reason(method_u@, path@, op@) is None,
        },
{
    reveal(skip_reason);
    let operation_id = json::str_field(op, "operationId");
    let class = destructive::classify(method_u.as_str(), path.as_str(), as_opt_str(&operation_id));
    if class.skip {
        Some((WarningCode::UnsupportedMethod, "method is not compiled"))
    } else if crate::lower::is_streaming(op) {
        Some((WarningCode::Streaming, "streaming / websocket / event-stream is not compiled"))
    } else if crate::lower::is_binary_body(op) {
        Some((WarningCode::BinaryBody, "binary or multipart request body is not compiled"))
    } else {
        None
    }
}

fn note_draft(
    method_u: &String,
    path: &String,
    op: &Json,
    operation_id: &Option<String>,
    kind: NameKind,
    seen_ids: &mut Vec<String>,
    warnings: &mut Vec<Warning>,
)
    requires
        opt_str_view(*operation_id) == json::str_field_spec(op@, "operationId"@),
        kind == names::candidate_spec(
            json::str_field_spec(op@, "operationId"@),
            json::str_field_spec(op@, "summary"@),
            json::str_field_spec(op@, "description"@),
            method_u@,
            path@,
        ).1,
    ensures
        warnings_view(final(warnings)@) == warnings_view(old(warnings)@) + draft_notes(
            method_u@,
            path@,
            op@,
            strings_view(old(seen_ids)@),
        ),
        strings_view(final(seen_ids)@) == seen_after(strings_view(old(seen_ids)@), op@),
{
    reveal(draft_notes);
    let ghost w0 = warnings_view(warnings@);
    let ghost s0 = strings_view(seen_ids@);
    match operation_id {
        Some(id) => {
            if contains_string(seen_ids, id.as_str()) {
                let msg = text::cat("duplicate operationId ", id.as_str());
                warnings.push(
                    warnings::warn(
                        WarningCode::DuplicateOperationId,
                        clone_opt(operation_id),
                        Some(method_u.as_str()),
                        Some(path.as_str()),
                        msg,
                    ),
                );
                assert(warnings_view(warnings@) =~= w0.push(warnings@.last()@));
            } else {
                seen_ids.push(id.clone());
                assert(strings_view(seen_ids@) =~= s0.push(id@));
            }
        },
        None => {},
    }
    let ghost w1 = warnings_view(warnings@);
    if kind != NameKind::OperationId {
        warnings.push(
            warnings::warn(
                WarningCode::MissingOperationId,
                clone_opt(operation_id),
                Some(method_u.as_str()),
                Some(path.as_str()),
                "no operationId; name synthesised".to_owned(),
            ),
        );
        assert(warnings_view(warnings@) =~= w1.push(warnings@.last()@));
    } else {
        assert(warnings_view(warnings@) =~= w1);
    }
}

/// What making a draft of one operation does: skipped (`skip_reason`), with
/// a finding, or made a draft, with its findings (`draft_notes`) and its
/// operationId noted as seen. `w`, `sk` and `seen` are the findings, the
/// skipped operations and the operationIds seen, before (`0`) and after
/// (`1`).
pub open spec fn draft_outcome(
    path: Seq<char>,
    method: Seq<char>,
    op: JsonView,
    path_item: JsonView,
    seen0: Seq<Seq<char>>,
    seen1: Seq<Seq<char>>,
    sk0: Seq<SkippedView>,
    sk1: Seq<SkippedView>,
    w0: Seq<WarningView>,
    w1: Seq<WarningView>,
    r: Option<Draft>,
) -> bool {
    let method_u = text::upper_seq(method);
    let id = json::str_field_spec(op, "operationId"@);
    match skip_reason(method_u, path, op) {
        Some((code, msg)) => {
            &&& r is None
            &&& w1 == w0.push(warn_spec(code, id, Some(method_u), Some(path), msg))
            &&& sk1 == sk0.push(SkippedView { method: method_u, path: path, operation_id: id, codes: seq![code] })
            &&& seen1 == seen0
        },
        None => {
            &&& sk1 == sk0
            &&& w1 == w0 + draft_notes(method_u, path, op, seen0)
            &&& seen1 == seen_after(seen0, op)
            &&& r matches Some(d) && {
                &&& d.method@ == method_u
                &&& d.path@ == path
                &&& opt_str_view(d.operation_id) == id
                &&& opt_str_view(d.summary) == json::str_field_spec(op, "summary"@)
                &&& opt_str_view(d.description) == json::str_field_spec(op, "description"@)
                &&& strings_view(d.tags@) == json::string_array_spec(json::get_spec(op, "tags"@))
                &&& d.deprecated == (json::get_spec(op, "deprecated"@) == Some(JsonView::Bool(true)))
                &&& d.op@ == op
                &&& d.path_item@ == path_item
                &&& d.class == destructive::classify_spec(method_u, destructive::keyword_hit_spec(path, id))
                &&& d.candidate_name@ == names::candidate_spec(
                    id,
                    json::str_field_spec(op, "summary"@),
                    json::str_field_spec(op, "description"@),
                    method_u,
                    path,
                ).0
            }
        },
    }
}

/// One operation of a path item, with its body and responses resolved,
/// made a draft or skipped (`draft_outcome`).
#[verifier::rlimit(100)]
pub fn op_draft(
    path: &String,
    method: &String,
    op: Json,
    path_item: &Json,
    seen_ids: &mut Vec<String>,
    skipped: &mut Vec<SkippedOperation>,
    warnings: &mut Vec<Warning>,
) -> (r: Option<Draft>)
    ensures
        draft_outcome(
            path@,
            method@,
            op@,
            path_item@,
            strings_view(old(seen_ids)@),
            strings_view(final(seen_ids)@),
            skipped_view(old(skipped)@),
            skipped_view(final(skipped)@),
            warnings_view(old(warnings)@),
            warnings_view(final(warnings)@),
            r,
        ),
{
    let method_u = upper_string(method);
    let operation_id = json::str_field(&op, "operationId");
    let class = destructive::classify(method_u.as_str(), path.as_str(), as_opt_str(&operation_id));
    match reason_of(&method_u, path, &op) {
        Some((code, msg)) => {
            warnings::skip(skipped, warnings, method_u.as_str(), path.as_str(), operation_id, code, msg);
            return None;
        },
        None => {},
    }
    let summary = json::str_field(&op, "summary");
    let description = json::str_field(&op, "description");
    let tags = json::string_array(op.get("tags"));
    let deprecated = match op.get("deprecated") {
        Some(Json::Bool(b)) => *b,
        _ => false,
    };
    let named = names::candidate_name(
        &NameSource {
            operation_id: as_opt_str(&operation_id),
            summary: as_opt_str(&summary),
            description: as_opt_str(&description),
            method: method_u.as_str(),
            path_template: path.as_str(),
        },
    );
    note_draft(&method_u, path, &op, &operation_id, named.source_kind, seen_ids, warnings);
    Some(
        Draft {
            method: method_u,
            path: path.clone(),
            operation_id,
            summary,
            description,
            tags,
            deprecated,
            op,
            path_item: path_item.duplicate(),
            class,
            candidate_name: named.name,
        },
    )
}

/// An object with one member set (`Map::insert`); anything else unchanged.
pub open spec fn put_member(op: JsonView, key: Seq<char>, v: JsonView) -> JsonView {
    match op {
        JsonView::Object(ks, vs) => {
            let (a, b) = json::obj_insert(ks, vs, key, v);
            JsonView::Object(a, b)
        },
        other => other,
    }
}

fn put_member_exec(op: Json, key: &str, v: Json) -> (r: Json)
    ensures
        r@ == put_member(op@, key@, v@),
{
    match op {
        Json::Object(m) => {
            let ghost ov = op@;
            let mut o = Obj::of_members(&m);
            assert(o.ks() =~= ov->Object_0);
            assert(o.vs() =~= ov->Object_1);
            o.insert(key, v);
            o.into_json()
        },
        other => other,
    }
}

pub open spec fn opt_json_view(o: Option<Json>) -> Option<JsonView> {
    match o {
        Some(j) => Some(j@),
        None => None,
    }
}

/// Each response by status, with what resolving it gave.
pub open spec fn parts_view(rs: Seq<(String, Option<Json>)>) -> Seq<(Seq<char>, Option<JsonView>)> {
    Seq::new(rs.len(), |i: int| (rs[i].0@, opt_json_view(rs[i].1)))
}

/// The responses object rebuilt from the first `n` resolved responses.
pub open spec fn resolved_responses(rs: Seq<(Seq<char>, Option<JsonView>)>, n: int) -> (Seq<Seq<char>>, Seq<JsonView>)
    decreases n,
{
    if n <= 0 || n > rs.len() {
        (Seq::empty(), Seq::empty())
    } else {
        let (a, b) = resolved_responses(rs, n - 1);
        json::obj_insert(a, b, rs[n - 1].0, rs[n - 1].1->Some_0)
    }
}

pub open spec fn body_view(body: Option<Option<Json>>) -> Option<Option<JsonView>> {
    match body {
        Some(b) => Some(opt_json_view(b)),
        None => None,
    }
}

pub open spec fn responses_view(responses: Option<Vec<(String, Option<Json>)>>) -> Option<Seq<(Seq<char>, Option<JsonView>)>> {
    match responses {
        Some(rs) => Some(parts_view(rs@)),
        None => None,
    }
}

/// An operation with its resolved request body and responses put in, or
/// the message for the part that could not be resolved. `body` is absent
/// when the operation has none, `responses` when it has no responses
/// object.
pub open spec fn with_parts(
    op: JsonView,
    body: Option<Option<JsonView>>,
    responses: Option<Seq<(Seq<char>, Option<JsonView>)>>,
) -> Result<JsonView, Seq<char>> {
    if body == Some(None::<JsonView>) {
        Err("unresolved requestBody $ref"@)
    } else {
        let op1 = match body {
            Some(Some(b)) => put_member(op, "requestBody"@, b),
            _ => op,
        };
        match responses {
            None => Ok(op1),
            Some(rs) => if exists|i: int| 0 <= i < rs.len() && rs[i].1 is None {
                Err("unresolved response $ref"@)
            } else {
                let (a, b) = resolved_responses(rs, rs.len() as int);
                Ok(put_member(op1, "responses"@, JsonView::Object(a, b)))
            },
        }
    }
}

/// The responses object rebuilt from resolved responses; `None` when one
/// could not be resolved.
fn rebuild_responses(rs: &Vec<(String, Option<Json>)>) -> (r: Option<Obj>)
    ensures
        match r {
            None => exists|j: int| 0 <= j < rs@.len() && parts_view(rs@)[j].1 is None,
            Some(o) => {
                &&& o.wf()
                &&& forall|j: int| 0 <= j < rs@.len() ==> parts_view(rs@)[j].1 is Some
                &&& (o.ks(), o.vs()) == resolved_responses(parts_view(rs@), rs@.len() as int)
            },
        },
{
    let ghost pv = parts_view(rs@);
    let mut o = Obj { keys: Vec::new(), vals: Vec::new() };
    assert(o.ks() =~= Seq::<Seq<char>>::empty());
    assert(o.vs() =~= Seq::<JsonView>::empty());
    let mut i: usize = 0;
    while i < rs.len()
        invariant
            pv == parts_view(rs@),
            o.wf(),
            i <= rs@.len(),
            forall|j: int| 0 <= j < i ==> pv[j].1 is Some,
            (o.ks(), o.vs()) == resolved_responses(pv, i as int),
        decreases rs@.len() - i,
    {
        match &rs[i].1 {
            None => {
                assert(pv[i as int].1 is None);
                return None;
            },
            Some(v) => {
                o.insert(rs[i].0.as_str(), v.duplicate());
            },
        }
        i = i + 1;
    }
    Some(o)
}

/// A path item whose `$ref` could not be resolved: counted as one operation
/// and skipped as `GET` with an unresolved-reference finding.
pub fn skip_unresolved_path(
    path: &str,
    operations_total: &mut u32,
    skipped: &mut Vec<SkippedOperation>,
    warnings: &mut Vec<Warning>,
)
    requires
        *old(operations_total) < u32::MAX,
    ensures
        *final(operations_total) == *old(operations_total) + 1,
        warnings_view(final(warnings)@) == warnings_view(old(warnings)@).push(
            warn_spec(WarningCode::UnresolvedRef, None, Some("GET"@), Some(path@), "unresolved path item $ref"@),
        ),
        skipped_view(final(skipped)@) == skipped_view(old(skipped)@).push(
            SkippedView { method: "GET"@, path: path@, operation_id: None, codes: seq![WarningCode::UnresolvedRef] },
        ),
{
    warnings::skip(skipped, warnings, "GET", path, None, WarningCode::UnresolvedRef, "unresolved path item $ref");
    *operations_total = *operations_total + 1;
}

/// One operation of a path item, counted, given what resolving its request
/// body and responses gave: skipped as unresolved when one of them failed,
/// else made a draft or skipped (`draft_outcome`) with those parts put in.
pub fn take_operation(
    path: &String,
    method: &String,
    op: Json,
    path_item: &Json,
    body: Option<Option<Json>>,
    responses: Option<Vec<(String, Option<Json>)>>,
    operations_total: &mut u32,
    seen_ids: &mut Vec<String>,
    skipped: &mut Vec<SkippedOperation>,
    warnings: &mut Vec<Warning>,
) -> (r: Option<Draft>)
    requires
        *old(operations_total) < u32::MAX,
    ensures
        *final(operations_total) == *old(operations_total) + 1,
        ({
            let method_u = text::upper_seq(method@);
            let id = json::str_field_spec(op@, "operationId"@);
            match with_parts(op@, body_view(body), responses_view(responses)) {
                Err(msg) => {
                    &&& r is None
                    &&& warnings_view(final(warnings)@) == warnings_view(old(warnings)@).push(
                        warn_spec(WarningCode::UnresolvedRef, id, Some(method_u), Some(path@), msg),
                    )
                    &&& skipped_view(final(skipped)@) == skipped_view(old(skipped)@).push(
                        SkippedView {
                            method: method_u,
                            path: path@,
                            operation_id: id,
                            codes: seq![WarningCode::UnresolvedRef],
                        },
                    )
                    &&& strings_view(final(seen_ids)@) == strings_view(old(seen_ids)@)
                },
                Ok(op2) => draft_outcome(
                    path@,
                    method@,
                    op2,
                    path_item@,
                    strings_view(old(seen_ids)@),
                    strings_view(final(seen_ids)@),
                    skipped_view(old(skipped)@),
                    skipped_view(final(skipped)@),
                    warnings_view(old(warnings)@),
                    warnings_view(final(warnings)@),
                    r,
                ),
            }
        }),
{
    *operations_total = *operations_total + 1;
    let ghost op0 = op@;
    let ghost bv = body_view(body);
    let ghost rv = responses_view(responses);
    let method_u = upper_string(method);
    let operation_id = json::str_field(&op, "operationId");
    let mut op = op;
    match body {
        Some(None) => {
            warnings::skip(
                skipped,
                warnings,
                method_u.as_str(),
                path.as_str(),
                operation_id,
                WarningCode::UnresolvedRef,
                "unresolved requestBody $ref",
            );
            return None;
        },
        Some(Some(b)) => {
            op = put_member_exec(op, "requestBody", b);
        },
        None => {},
    }
    let ghost op1 = op@;
    assert(bv != Some(None::<JsonView>));
    assert(op1 == match bv {
        Some(Some(b)) => put_member(op0, "requestBody"@, b),
        _ => op0,
    });
    match responses {
        None => {
            assert(with_parts(op0, bv, rv) == Ok::<JsonView, Seq<char>>(op@));
        },
        Some(rs) => {
            let ghost pv = parts_view(rs@);
            assert(rv == Some(pv));
            match rebuild_responses(&rs) {
                None => {
                    assert(with_parts(op0, bv, rv) == Err::<JsonView, Seq<char>>("unresolved response $ref"@));
                    warnings::skip(
                        skipped,
                        warnings,
                        method_u.as_str(),
                        path.as_str(),
                        operation_id,
                        WarningCode::UnresolvedRef,
                        "unresolved response $ref",
                    );
                    return None;
                },
                Some(o) => {
                    op = put_member_exec(op, "responses", o.into_json());
                    assert(with_parts(op0, bv, rv) == Ok::<JsonView, Seq<char>>(op@));
                },
            }
        },
    }
    op_draft(path, method, op, path_item, seen_ids, skipped, warnings)
}

} // verus!
