//! The request body of an operation as tool input: an object schema is
//! folded into the input's properties, anything else becomes one `body`
//! argument.
use vstd::prelude::*;
use crate::json::{self, obj_insert, Json, JsonView, Member, Obj};
use crate::names::suffixed;
use crate::schema::{contains_string, strings_view};
use crate::text;
use crate::draft::{self, BundleOutcome, Draft, SchemaSink, draft_warn};
use crate::warnings::{Warning, WarningCode, WarningView, warnings_view};

verus! {

/// A body property folded into the input: its argument name and the name it
/// has on the wire.
pub struct FoldedKey {
    pub arg_name: String,
    pub wire_name: String,
}

/// How the body is built from the arguments.
#[derive(Clone, Copy, Debug, PartialEq, Eq, Structural)]
pub enum BodyMode {
    Fold,
    Whole,
    FormUrlencoded,
}

/// How the body is bound to the arguments.
pub struct BodyBinding {
    pub mode: BodyMode,
    pub content_type: String,
    pub arg_name: Option<String>,
    pub folded_keys: Vec<FoldedKey>,
}

/// The request body of the operation.
pub struct RequestBody {
    pub required: bool,
    pub content_type: String,
    pub schema: Json,
    pub folded_into_input: bool,
}

pub open spec fn folded_view(v: Seq<FoldedKey>) -> Seq<(Seq<char>, Seq<char>)> {
    Seq::new(v.len(), |i: int| (v[i].arg_name@, v[i].wire_name@))
}

pub struct RequestBodyView {
    pub required: bool,
    pub content_type: Seq<char>,
    pub schema: JsonView,
    pub folded_into_input: bool,
}

pub struct BodyBindingView {
    pub mode: BodyMode,
    pub content_type: Seq<char>,
    pub arg_name: Option<Seq<char>>,
    pub folded_keys: Seq<(Seq<char>, Seq<char>)>,
}

impl View for RequestBody {
    type V = RequestBodyView;

    open spec fn view(&self) -> RequestBodyView {
        RequestBodyView {
            required: self.required,
            content_type: self.content_type@,
            schema: self.schema@,
            folded_into_input: self.folded_into_input,
        }
    }
}

impl View for BodyBinding {
    type V = BodyBindingView;

    open spec fn view(&self) -> BodyBindingView {
        BodyBindingView {
            mode: self.mode,
            content_type: self.content_type@,
            arg_name: crate::urls::opt_str_view(self.arg_name),
            folded_keys: folded_view(self.folded_keys@),
        }
    }
}

/// `s` is the first suffix from 2 upwards whose `{x}_{s}` is not taken.
pub open spec fn first_free_at(names: Seq<Seq<char>>, x: Seq<char>, s: nat) -> bool {
    &&& s >= 2
    &&& !names.contains(suffixed(x, s))
    &&& forall|t: nat| 2 <= t < s ==> names.contains(#[trigger] suffixed(x, t))
}

/// The argument for a body property: its own name if free, else
/// `body_{name}` if free, else `body_{name}_{n}` with the first free `n`
/// from 2.
pub open spec fn fold_arg_spec(names: Seq<Seq<char>>, key: Seq<char>) -> Seq<char> {
    let b = "body_"@ + key;
    if !names.contains(key) {
        key
    } else if !names.contains(b) {
        b
    } else {
        suffixed(b, choose|s: nat| first_free_at(names, b, s))
    }
}

proof fn lemma_first_free_unique(names: Seq<Seq<char>>, x: Seq<char>, s: nat, t: nat)
    requires
        first_free_at(names, x, s),
        first_free_at(names, x, t),
    ensures
        s == t,
{
    if s < t {
        assert(names.contains(suffixed(x, s)));
    } else if t < s {
        assert(names.contains(suffixed(x, t)));
    }
}

/// The first free suffix for `x` among `names` (`first_free_at`).
fn first_free(names: &Vec<String>, x: &Vec<char>) -> (s: u64)
    requires
        names@.len() < 0xffff_0000,
    ensures
        first_free_at(strings_view(names@), x@, s as nat),
{
    let ghost nv = strings_view(names@);
    let ghost n: int = names@.len() as int;
    let mut s: u64 = 2;
    let ghost mut hit: Set<int> = Set::empty();
    loop
        invariant
            nv == strings_view(names@),
            n == names@.len(),
            n < 0xffff_0000,
            2 <= s,
            hit.finite(),
            hit.subset_of(vstd::set_lib::set_int_range(0, n)),
            hit.len() == s - 2,
            forall|j: int| #[trigger]
                hit.contains(j) ==> exists|t: nat| 2 <= t < s && nv[j] == suffixed(x@, t),
            forall|t: nat| 2 <= t < s ==> nv.contains(#[trigger] suffixed(x@, t)),
        decreases n + 2 - s,
    {
        proof {
            vstd::set_lib::lemma_int_range(0, n);
            vstd::set_lib::lemma_len_subset(hit, vstd::set_lib::set_int_range(0, n));
        }
        let mut cand: Vec<char> = Vec::new();
        text::append_chars(&mut cand, x);
        cand.push('_');
        let d = text::dec_vec(s);
        text::append_chars(&mut cand, &d);
        assert(cand@ == suffixed(x@, s as nat));
        let cs = text::string_of(&cand);
        if !contains_string(names, cs.as_str()) {
            return s;
        }
        proof {
            let j = choose|j: int| 0 <= j < nv.len() && nv[j] == cand@;
            if hit.contains(j) {
                let t = choose|t: nat| 2 <= t < s && nv[j] == suffixed(x@, t);
                crate::names::lemma_suffixed_injective(x@, s as nat, x@, t);
            }
            hit = hit.insert(j);
            vstd::set_lib::lemma_len_subset(hit, vstd::set_lib::set_int_range(0, n));
            assert forall|t: nat| 2 <= t < s + 1 implies nv.contains(#[trigger] suffixed(x@, t)) by {
                if t == s {
                    assert(nv[j] == suffixed(x@, t));
                }
            }
        }
        s = s + 1;
    }
}

/// The argument for a body property (`fold_arg_spec`).
pub fn fold_arg(names: &Vec<String>, key: &str) -> (r: String)
    requires
        names@.len() < 0xffff_0000,
    ensures
        r@ == fold_arg_spec(strings_view(names@), key@),
{
    if !contains_string(names, key) {
        return key.to_owned();
    }
    let b = text::cat("body_", key);
    if !contains_string(names, b.as_str()) {
        return b;
    }
    let bv = text::chars_of(b.as_str());
    let s = first_free(names, &bv);
    proof {
        let c = choose|t: nat| first_free_at(strings_view(names@), b@, t);
        lemma_first_free_unique(strings_view(names@), b@, s as nat, c);
    }
    let mut out: Vec<char> = Vec::new();
    text::append_chars(&mut out, &bv);
    out.push('_');
    let d = text::dec_vec(s);
    text::append_chars(&mut out, &d);
    text::string_of(&out)
}

/// The finding for a renamed body property.
pub open spec fn collision_msg(key: Seq<char>, arg: Seq<char>) -> Seq<char> {
    "body property "@ + key + " collided; renamed "@ + arg
}

/// What folding gives: the input's properties (keys and schemas), the
/// folded keys as (argument, wire name), and the collision messages.
pub type Folded = (Seq<Seq<char>>, Seq<JsonView>, Seq<(Seq<char>, Seq<char>)>, Seq<Seq<char>>);

/// One body property folded into the input.
#[verifier::opaque]
pub open spec fn fold_step(st: Folded, key: Seq<char>, val: JsonView) -> Folded {
    let (pk, pv, f, w) = st;
    let arg = fold_arg_spec(pk, key);
    let (a, b) = obj_insert(pk, pv, arg, val);
    (a, b, f.push((arg, key)), if pk.contains(key) {
        w.push(collision_msg(key, arg))
    } else {
        w
    })
}

/// The body properties folded into the input, in order.
pub open spec fn fold_props_spec(pk: Seq<Seq<char>>, pv: Seq<JsonView>, ks: Seq<Seq<char>>, vs: Seq<JsonView>) -> Folded
    decreases ks.len(),
{
    if ks.len() == 0 {
        (pk, pv, Seq::empty(), Seq::empty())
    } else {
        let n = ks.len() - 1;
        fold_step(fold_props_spec(pk, pv, ks.drop_last(), vs.take(n)), ks[n], vs[n])
    }
}

/// The argument a wire name was folded into: the first folded key with that
/// wire name; the wire name itself when there is none.
pub open spec fn wire_to_arg(f: Seq<(Seq<char>, Seq<char>)>, wire: Seq<char>) -> Seq<char>
    decreases f.len(),
{
    if f.len() == 0 {
        wire
    } else if f[0].1 == wire {
        f[0].0
    } else {
        wire_to_arg(f.drop_first(), wire)
    }
}

/// The body's required names, as arguments, appended unless there.
pub open spec fn add_required_names(req: Seq<Seq<char>>, items: Seq<JsonView>, f: Seq<(Seq<char>, Seq<char>)>) -> Seq<Seq<char>>
    decreases items.len(),
{
    if items.len() == 0 {
        req
    } else {
        let r = add_required_names(req, items.drop_last(), f);
        match items.last() {
            JsonView::Str(w) => {
                let n = wire_to_arg(f, w);
                if r.contains(n) {
                    r
                } else {
                    r.push(n)
                }
            },
            _ => r,
        }
    }
}

/// How many input properties the suffix search supports: it counts
/// suffixes in 32 bits.
pub open spec fn props_fit(n: nat) -> bool {
    n < 0xffff_0000
}

fn fold_props(props: &mut Obj, m: &Vec<Member>) -> (r: (Vec<FoldedKey>, Vec<String>))
    requires
        old(props).wf(),
        props_fit(old(props).keys@.len() + m@.len()),
    ensures
        final(props).wf(),
        final(props).keys@.len() <= old(props).keys@.len() + m@.len(),
        (final(props).ks(), final(props).vs(), folded_view(r.0@), strings_view(r.1@))
            == fold_props_spec(
            old(props).ks(),
            old(props).vs(),
            crate::schema::member_keys(m@),
            crate::schema::member_values(m@),
        ),
{
    let ghost (pk, pv) = (props.ks(), props.vs());
    let ghost ks = crate::schema::member_keys(m@);
    let ghost vs = crate::schema::member_values(m@);
    let mut folded: Vec<FoldedKey> = Vec::new();
    let mut msgs: Vec<String> = Vec::new();
    let mut i: usize = 0;
    assert(ks.take(0) =~= Seq::<Seq<char>>::empty());
    assert(folded_view(folded@) =~= Seq::<(Seq<char>, Seq<char>)>::empty());
    assert(strings_view(msgs@) =~= Seq::<Seq<char>>::empty());
    while i < m.len()
        invariant
            props.wf(),
            ks == crate::schema::member_keys(m@),
            vs == crate::schema::member_values(m@),
            pk == old(props).ks(),
            pv == old(props).vs(),
            i <= m@.len(),
            props.keys@.len() <= old(props).keys@.len() + i,
            props_fit(old(props).keys@.len() + m@.len()),
            (props.ks(), props.vs(), folded_view(folded@), strings_view(msgs@)) == fold_props_spec(
                pk,
                pv,
                ks.take(i as int),
                vs.take(i as int),
            ),
        decreases m@.len() - i,
    {
        proof {
            assert(ks.take(i + 1).drop_last() =~= ks.take(i as int));
            assert(vs.take(i + 1).take(i as int) =~= vs.take(i as int));
            assert(ks.take(i + 1)[i as int] == m@[i as int].key@);
            assert(vs.take(i + 1)[i as int] == m@[i as int].value@);
            assert(strings_view(props.keys@) =~= props.ks());
        }
        let ghost before = (props.ks(), props.vs(), folded_view(folded@), strings_view(msgs@));
        let key = &m[i].key;
        let collided = contains_string(&props.keys, key.as_str());
        let arg = fold_arg(&props.keys, key.as_str());
        if collided {
            let msg = text::cat(
                text::cat(text::cat("body property ", key.as_str()).as_str(), " collided; renamed ").as_str(),
                arg.as_str(),
            );
            msgs.push(msg);
        }
        props.insert(arg.as_str(), m[i].value.duplicate());
        folded.push(FoldedKey { arg_name: arg, wire_name: key.clone() });
        proof {
            assert(folded_view(folded@) =~= before.2.push((folded@.last().arg_name@, key@)));
            if collided {
                assert(strings_view(msgs@) =~= before.3.push(msgs@.last()@));
            } else {
                assert(strings_view(msgs@) =~= before.3);
            }
            lemma_insert_len(before.0, before.1, folded@.last().arg_name@, m@[i as int].value@);
            reveal(fold_step);
        }
        i = i + 1;
    }
    assert(ks.take(m@.len() as int) =~= ks);
    assert(vs.take(m@.len() as int) =~= vs);
    (folded, msgs)
}

/// Inserting into an object adds at most one key.
proof fn lemma_insert_len(ks: Seq<Seq<char>>, vs: Seq<JsonView>, k: Seq<char>, v: JsonView)
    ensures
        obj_insert(ks, vs, k, v).0.len() <= ks.len() + 1,
{
    reveal(json::obj_insert);
    lemma_count_less_bound(ks, k);
}

proof fn lemma_count_less_bound(ks: Seq<Seq<char>>, k: Seq<char>)
    ensures
        json::count_less(ks, k) <= ks.len(),
    decreases ks.len(),
{
    if ks.len() > 0 {
        lemma_count_less_bound(ks.drop_last(), k);
    }
}

fn wire_to_arg_exec(f: &Vec<FoldedKey>, wire: &str) -> (r: String)
    ensures
        r@ == wire_to_arg(folded_view(f@), wire@),
{
    let ghost fv = folded_view(f@);
    let mut i: usize = 0;
    assert(fv.skip(0) =~= fv);
    while i < f.len()
        invariant
            fv == folded_view(f@),
            i <= f@.len(),
            wire_to_arg(fv.skip(i as int), wire@) == wire_to_arg(fv, wire@),
        decreases f@.len() - i,
    {
        let ghost rest = fv.skip(i as int);
        assert(rest[0] == fv[i as int]);
        assert(rest.drop_first() =~= fv.skip(i + 1));
        if text::str_eq(f[i].wire_name.as_str(), wire) {
            return f[i].arg_name.clone();
        }
        i = i + 1;
    }
    assert(fv.skip(i as int) =~= Seq::<(Seq<char>, Seq<char>)>::empty());
    wire.to_owned()
}

fn add_required_names_exec(req: &mut Vec<String>, items: &Vec<Json>, f: &Vec<FoldedKey>)
    ensures
        strings_view(final(req)@) == add_required_names(
            strings_view(old(req)@),
            json::value_views(items@),
            folded_view(f@),
        ),
{
    let ghost r0 = strings_view(req@);
    let ghost iv = json::value_views(items@);
    let mut i: usize = 0;
    assert(iv.take(0) =~= Seq::<JsonView>::empty());
    while i < items.len()
        invariant
            iv == json::value_views(items@),
            r0 == strings_view(old(req)@),
            i <= items@.len(),
            strings_view(req@) == add_required_names(r0, iv.take(i as int), folded_view(f@)),
        decreases items@.len() - i,
    {
        assert(iv.take(i + 1).drop_last() =~= iv.take(i as int));
        assert(iv.take(i + 1).last() == items@[i as int]@);
        match &items[i] {
            Json::Str(w) => {
                let name = wire_to_arg_exec(f, w.as_str());
                if !contains_string(req, name.as_str()) {
                    let ghost before = strings_view(req@);
                    req.push(name);
                    assert(strings_view(req@) =~= before.push(req@.last()@));
                }
            },
            _ => {},
        }
        i = i + 1;
    }
    assert(iv.take(items@.len() as int) =~= iv);
}

/// A form body (`application/x-www-form-urlencoded`).
pub open spec fn is_form_spec(ct: Seq<char>) -> bool {
    crate::media::media_type_base_spec(ct) == "application/x-www-form-urlencoded"@
}

/// An object schema: `type: object`, or properties.
pub open spec fn is_object_schema(s: JsonView) -> bool {
    json::str_field_spec(s, "type"@) == Some("object"@) || json::get_spec(s, "properties"@) is Some
}

/// The body is folded into the input: an object schema that is not a form.
pub open spec fn body_folds(ct: Seq<char>, s: JsonView) -> bool {
    is_object_schema(s) && !is_form_spec(ct)
}

/// The properties of a schema, when they are an object.
pub open spec fn schema_props(s: JsonView) -> (Seq<Seq<char>>, Seq<JsonView>) {
    match json::get_spec(s, "properties"@) {
        Some(JsonView::Object(k, v)) => (k, v),
        _ => (Seq::empty(), Seq::empty()),
    }
}

/// The `required` items of a schema, when they are an array.
pub open spec fn schema_required(s: JsonView) -> Seq<JsonView> {
    match json::get_spec(s, "required"@) {
        Some(JsonView::Array(a)) => a,
        _ => Seq::empty(),
    }
}

pub open spec fn body_mode_spec(ct: Seq<char>, s: JsonView) -> BodyMode {
    if body_folds(ct, s) {
        BodyMode::Fold
    } else if is_form_spec(ct) {
        BodyMode::FormUrlencoded
    } else {
        BodyMode::Whole
    }
}

/// What binding a (bundled) body schema gives: the input's properties
/// (keys and schemas) and required names, the collision messages, the
/// request body and its binding. An object schema that is not a form is
/// folded in property by property; anything else is one `body` argument.
pub open spec fn bind_spec(
    ct: Seq<char>,
    required: bool,
    s: JsonView,
    pk: Seq<Seq<char>>,
    pv: Seq<JsonView>,
    req: Seq<Seq<char>>,
) -> (Seq<Seq<char>>, Seq<JsonView>, Seq<Seq<char>>, Seq<Seq<char>>, RequestBodyView, BodyBindingView) {
    if body_folds(ct, s) {
        let (a, b, f, w) = fold_props_spec(pk, pv, schema_props(s).0, schema_props(s).1);
        (
            a,
            b,
            add_required_names(req, schema_required(s), f),
            w,
            RequestBodyView { required, content_type: ct, schema: s, folded_into_input: true },
            BodyBindingView { mode: BodyMode::Fold, content_type: ct, arg_name: None, folded_keys: f },
        )
    } else {
        let (a, b) = obj_insert(pk, pv, "body"@, s);
        (
            a,
            b,
            if required {
                req.push("body"@)
            } else {
                req
            },
            Seq::empty(),
            RequestBodyView { required, content_type: ct, schema: s, folded_into_input: false },
            BodyBindingView {
                mode: body_mode_spec(ct, s),
                content_type: ct,
                arg_name: Some("body"@),
                folded_keys: Seq::empty(),
            },
        )
    }
}

/// Binds a (bundled) body schema into the input (`bind_spec`): the request
/// body, its binding and the collision messages; the input's properties and
/// required names are updated.
#[verifier::rlimit(80)]
pub fn bind_body(
    content_type: String,
    required_flag: bool,
    schema: Json,
    props: &mut Obj,
    required: &mut Vec<String>,
) -> (r: (RequestBody, BodyBinding, Vec<String>))
    requires
        old(props).wf(),
        props_fit(old(props).keys@.len() + schema_props(schema@).0.len()),
    ensures
        final(props).wf(),
        ({
            let (a, b, rq, w, rb, bb) = bind_spec(
                content_type@,
                required_flag,
                schema@,
                old(props).ks(),
                old(props).vs(),
                strings_view(old(required)@),
            );
            &&& final(props).ks() == a
            &&& final(props).vs() == b
            &&& strings_view(final(required)@) == rq
            &&& strings_view(r.2@) == w
            &&& r.0@ == rb
            &&& r.1@ == bb
        }),
{
    let base = crate::media::media_type_base(content_type.as_str());
    let form = text::str_eq(base.as_str(), "application/x-www-form-urlencoded");
    let is_object = match json::str_field(&schema, "type") {
        Some(t) => text::str_eq(t.as_str(), "object"),
        None => false,
    } || schema.get("properties").is_some();
    if is_object && !form {
        let (folded, msgs) = match schema.get("properties") {
            Some(Json::Object(m)) => {
                proof {
                    let pv = json::get_spec(schema@, "properties"@)->Some_0;
                    assert(pv->Object_0 =~= crate::schema::member_keys(m@));
                    assert(pv->Object_1 =~= crate::schema::member_values(m@));
                }
                fold_props(props, m)
            },
            _ => {
                let f: Vec<FoldedKey> = Vec::new();
                let w: Vec<String> = Vec::new();
                assert(folded_view(f@) =~= Seq::<(Seq<char>, Seq<char>)>::empty());
                assert(strings_view(w@) =~= Seq::<Seq<char>>::empty());
                (f, w)
            },
        };
        match schema.get("required") {
            Some(Json::Array(items)) => {
                proof {
                    let rv = json::get_spec(schema@, "required"@)->Some_0;
                    assert(rv->Array_0 =~= json::value_views(items@));
                }
                add_required_names_exec(required, items, &folded);
            },
            _ => {},
        }
        let body = RequestBody {
            required: required_flag,
            content_type: content_type.clone(),
            schema,
            folded_into_input: true,
        };
        let binding = BodyBinding {
            mode: BodyMode::Fold,
            content_type,
            arg_name: None,
            folded_keys: folded,
        };
        (body, binding, msgs)
    } else {
        props.insert("body", schema.duplicate());
        if required_flag {
            let ghost before = strings_view(required@);
            required.push("body".to_owned());
            assert(strings_view(required@) =~= before.push("body"@));
        }
        let mode = if form {
            BodyMode::FormUrlencoded
        } else {
            BodyMode::Whole
        };
        let body = RequestBody {
            required: required_flag,
            content_type: content_type.clone(),
            schema,
            folded_into_input: false,
        };
        let binding = BodyBinding {
            mode,
            content_type,
            arg_name: Some("body".to_owned()),
            folded_keys: Vec::new(),
        };
        let msgs: Vec<String> = Vec::new();
        assert(binding@.folded_keys =~= Seq::<(Seq<char>, Seq<char>)>::empty());
        assert(strings_view(msgs@) =~= Seq::<Seq<char>>::empty());
        (body, binding, msgs)
    }
}

/// The body as found before bundling: its media type, whether it is
/// required, and the schema to bundle.
pub struct BodyPlan {
    pub content_type: String,
    pub required: bool,
    pub schema: Json,
}

/// `{"type": "object"}`.
pub open spec fn object_type() -> JsonView {
    JsonView::Object(seq!["type"@], seq![JsonView::Str("object"@)])
}

/// The plan for a body's `content` object: the first JSON (else form)
/// media type; a required body without a schema is a finding, and its
/// schema is `{"type": "object"}`.
#[verifier::opaque]
pub open spec fn plan_of_content(d: Draft, body: JsonView, ks: Seq<Seq<char>>, vs: Seq<JsonView>) -> (Option<(Seq<char>, bool, JsonView)>, Seq<WarningView>) {
    match crate::lower::select_json_spec(ks) {
        Some(i) => {
            let required = json::get_spec(body, "required"@) == Some(JsonView::Bool(true));
            let sch = json::get_spec(vs[i], "schema"@);
            let ws = if sch is None && required {
                seq![draft_warn(d, WarningCode::MissingRequestSchema, "body required but schema absent"@)]
            } else {
                Seq::empty()
            };
            (Some((ks[i], required, match sch {
                Some(x) => x,
                None => object_type(),
            })), ws)
        },
        None => (None, Seq::empty()),
    }
}

/// The body plan of an operation, and the findings on the way: no body or
/// no JSON or form content give no plan; a body without a content object
/// is a finding too.
pub open spec fn body_plan_spec(d: Draft) -> (Option<(Seq<char>, bool, JsonView)>, Seq<WarningView>) {
    match json::get_spec(d.op@, "requestBody"@) {
        Some(body) => match json::get_spec(body, "content"@) {
            Some(JsonView::Object(ks, vs)) => plan_of_content(d, body, ks, vs),
            _ => (
                None,
                seq![draft_warn(d, WarningCode::MissingRequestSchema, "request body has no content"@)],
            ),
        },
        None => (None, Seq::empty()),
    }
}

fn object_type_json() -> (r: Json)
    ensures
        r@ == object_type(),
{
    let mut o = Obj { keys: Vec::new(), vals: Vec::new() };
    o.keys.push("type".to_owned());
    o.vals.push(Json::Str("object".to_owned()));
    assert(o.ks() =~= seq!["type"@]);
    assert(o.vs() =~= seq![JsonView::Str("object"@)]);
    o.into_json()
}

/// The body plan of an operation (`body_plan_spec`); its findings are
/// recorded.
fn plan_content(d: &Draft, body: &Json, content: &Vec<Member>, ws: &mut Vec<Warning>) -> (r: Option<BodyPlan>)
    ensures
        ({
            let (p, w) = plan_of_content(
                *d,
                body@,
                crate::schema::member_keys(content@),
                crate::schema::member_values(content@),
            );
            &&& warnings_view(final(ws)@) == warnings_view(old(ws)@) + w
            &&& match r {
                Some(x) => p == Some((x.content_type@, x.required, x.schema@)),
                None => p is None,
            }
        }),
{
    reveal(plan_of_content);
    let ghost w0 = warnings_view(ws@);
    let ghost ks = crate::schema::member_keys(content@);
    let ghost vs = crate::schema::member_values(content@);
    assert(ks =~= Seq::new(content@.len(), |i: int| content@[i].key@));
    let (ct, media) = match crate::lower::select_json_content(content) {
        Some(x) => x,
        None => {
            assert(warnings_view(ws@) =~= w0 + Seq::<WarningView>::empty());
            return None;
        },
    };
    let required = match body.get("required") {
        Some(Json::Bool(b)) => *b,
        _ => false,
    };
    let sch = match media.get("schema") {
        Some(x) => Some(x.duplicate()),
        None => None,
    };
    if sch.is_none() && required {
        ws.push(draft::warn_for(d, WarningCode::MissingRequestSchema, "body required but schema absent"));
        assert(warnings_view(ws@) =~= w0.push(ws@.last()@));
    } else {
        assert(warnings_view(ws@) =~= w0 + Seq::<WarningView>::empty());
    }
    let schema = match sch {
        Some(x) => x,
        None => object_type_json(),
    };
    Some(BodyPlan { content_type: ct, required, schema })
}

/// The body plan of an operation (`body_plan_spec`); its findings are
/// recorded.
pub fn body_plan(d: &Draft, ws: &mut Vec<Warning>) -> (r: Option<BodyPlan>)
    ensures
        warnings_view(final(ws)@) == warnings_view(old(ws)@) + body_plan_spec(*d).1,
        match r {
            Some(p) => body_plan_spec(*d).0 == Some((p.content_type@, p.required, p.schema@)),
            None => body_plan_spec(*d).0 is None,
        },
{
    let ghost w0 = warnings_view(ws@);
    let body = match d.op.get("requestBody") {
        Some(b) => b,
        None => {
            assert(warnings_view(ws@) =~= w0 + Seq::<WarningView>::empty());
            return None;
        },
    };
    let content = match body.get("content") {
        Some(Json::Object(m)) => m,
        _ => {
            ws.push(draft::warn_for(d, WarningCode::MissingRequestSchema, "request body has no content"));
            assert(warnings_view(ws@) =~= w0.push(ws@.last()@));
            return None;
        },
    };
    proof {
        let cv = json::get_spec(body@, "content"@)->Some_0;
        assert(cv->Object_0 =~= crate::schema::member_keys(content@));
        assert(cv->Object_1 =~= crate::schema::member_values(content@));
    }
    plan_content(d, body, content, ws)
}

/// The findings for renamed body properties.
pub open spec fn collision_warnings(d: Draft, msgs: Seq<Seq<char>>) -> Seq<WarningView> {
    Seq::new(msgs.len(), |i: int| draft_warn(d, WarningCode::NameCollision, msgs[i]))
}

fn push_collisions(d: &Draft, msgs: &Vec<String>, ws: &mut Vec<Warning>)
    ensures
        warnings_view(final(ws)@) == warnings_view(old(ws)@) + collision_warnings(*d, strings_view(msgs@)),
{
    let ghost w0 = warnings_view(ws@);
    let mut i: usize = 0;
    while i < msgs.len()
        invariant
            w0 == warnings_view(old(ws)@),
            i <= msgs@.len(),
            warnings_view(ws@) == w0 + collision_warnings(*d, strings_view(msgs@.take(i as int))),
        decreases msgs@.len() - i,
    {
        let ghost before = warnings_view(ws@);
        ws.push(draft::warn_for(d, WarningCode::NameCollision, msgs[i].as_str()));
        assert(collision_warnings(*d, strings_view(msgs@.take(i + 1))) =~= collision_warnings(
            *d,
            strings_view(msgs@.take(i as int)),
        ).push(draft_warn(*d, WarningCode::NameCollision, msgs@[i as int]@)));
        assert(warnings_view(ws@) =~= before.push(ws@.last()@));
        i = i + 1;
    }
    assert(msgs@.take(msgs@.len() as int) =~= msgs@);
}

/// The request body lowered once its schema is bundled: the bundle applied
/// (`apply_bundle_spec`); unresolved references block the operation, with
/// a finding; else the schema's findings are recorded and the body bound
/// into the input (`bind_spec`), with a finding for each renamed property.
pub fn lower_body_bundled(plan: BodyPlan, bundled: BundleOutcome, d: &Draft, sink: &mut SchemaSink) -> (r: (Option<RequestBody>, Option<BodyBinding>))
    requires
        old(sink).wf(),
        draft::apply_bundle_spec(
            bundled.schema@,
            bundled.unresolved@.len() > 0,
            (old(sink).defs.ks(), old(sink).defs.vs()),
        ).0 matches Some((s, _)) ==> props_fit(old(sink).properties.keys@.len() + schema_props(s).0.len()),
    ensures
        final(sink).wf(),
        final(sink).had_cycle == (old(sink).had_cycle || bundled.had_cycle),
        ({
            let (out, dd) = draft::apply_bundle_spec(
                bundled.schema@,
                bundled.unresolved@.len() > 0,
                (old(sink).defs.ks(), old(sink).defs.vs()),
            );
            &&& (final(sink).defs.ks(), final(sink).defs.vs()) == dd
            &&& match out {
                None => {
                    &&& final(sink).blocking_codes@ == old(sink).blocking_codes@.push(WarningCode::UnresolvedRef)
                    &&& warnings_view(final(sink).warnings@) == warnings_view(old(sink).warnings@).push(
                        draft_warn(*d, WarningCode::UnresolvedRef, "unresolved $ref in request body"@),
                    )
                    &&& final(sink).properties.ks() == old(sink).properties.ks()
                    &&& final(sink).properties.vs() == old(sink).properties.vs()
                    &&& final(sink).required@ == old(sink).required@
                    &&& r.0 is None
                    &&& r.1 is None
                },
                Some((s, left)) => {
                    let (a, b, rq, w, rb, bb) = bind_spec(
                        plan.content_type@,
                        plan.required,
                        s,
                        old(sink).properties.ks(),
                        old(sink).properties.vs(),
                        strings_view(old(sink).required@),
                    );
                    &&& final(sink).properties.ks() == a
                    &&& final(sink).properties.vs() == b
                    &&& strings_view(final(sink).required@) == rq
                    &&& final(sink).blocking_codes@ == old(sink).blocking_codes@
                    &&& warnings_view(final(sink).warnings@) == warnings_view(old(sink).warnings@)
                        + draft::schema_notes(s, left, *d) + collision_warnings(*d, w)
                    &&& r.0 matches Some(x) && x@ == rb
                    &&& r.1 matches Some(y) && y@ == bb
                },
            }
        }),
{
    match draft::apply_bundle(bundled, &mut sink.defs, &mut sink.had_cycle) {
        Ok((s, leftover)) => {
            let ghost w0 = warnings_view(sink.warnings@);
            draft::note_schema(&s, leftover, d, &mut sink.warnings);
            let (body, binding, msgs) = bind_body(
                plan.content_type,
                plan.required,
                s,
                &mut sink.properties,
                &mut sink.required,
            );
            let ghost w1 = warnings_view(sink.warnings@);
            push_collisions(d, &msgs, &mut sink.warnings);
            (Some(body), Some(binding))
        },
        Err(_) => {
            sink.blocking_codes.push(WarningCode::UnresolvedRef);
            let ghost w0 = warnings_view(sink.warnings@);
            sink.warnings.push(
                draft::warn_for(d, WarningCode::UnresolvedRef, "unresolved $ref in request body"),
            );
            assert(warnings_view(sink.warnings@) =~= w0.push(sink.warnings@.last()@));
            (None, None)
        },
    }
}

} // verus!
verus! {

proof fn lemma_fold_wires(pk: Seq<Seq<char>>, pv: Seq<JsonView>, ks: Seq<Seq<char>>, vs: Seq<JsonView>)
    ensures
        fold_props_spec(pk, pv, ks, vs).2.len() == ks.len(),
        forall|i: int| 0 <= i < ks.len() ==> (#[trigger] fold_props_spec(pk, pv, ks, vs).2[i]).1 == ks[i],
    decreases ks.len(),
{
    reveal(fold_step);
    if ks.len() > 0 {
        let n = ks.len() - 1;
        lemma_fold_wires(pk, pv, ks.drop_last(), vs.take(n));
        let f = fold_props_spec(pk, pv, ks, vs).2;
        assert forall|i: int| 0 <= i < ks.len() implies (#[trigger] f[i]).1 == ks[i] by {
            if i < n {
                assert(f[i] == fold_props_spec(pk, pv, ks.drop_last(), vs.take(n)).2[i]);
                assert(ks.drop_last()[i] == ks[i]);
            }
        }
    }
}

/// When a body is folded: a schema with a `properties` member, or with
/// `type: object`, is folded into the input (mode `Fold`, no `body`
/// argument, one folded key per property, in order, carrying its wire
/// name) unless the content type is a form; a form gets one `body`
/// argument in form mode; any other schema gets one `body` argument, whole,
/// added to the required names when the body is required.
pub proof fn law_body_folding(
    ct: Seq<char>,
    required: bool,
    s: JsonView,
    pk: Seq<Seq<char>>,
    pv: Seq<JsonView>,
    req: Seq<Seq<char>>,
)
    ensures
        ({
            let r = bind_spec(ct, required, s, pk, pv, req);
            let object = json::get_spec(s, "properties"@) is Some || json::str_field_spec(s, "type"@) == Some(
                "object"@,
            );
            &&& object && !is_form_spec(ct) ==> r.5.mode == BodyMode::Fold && r.4.folded_into_input
                && r.5.arg_name is None && r.5.folded_keys.len() == schema_props(s).0.len() && forall|i: int|
                0 <= i < schema_props(s).0.len() ==> (#[trigger] r.5.folded_keys[i]).1 == schema_props(s).0[i]
            &&& is_form_spec(ct) ==> r.5.mode == BodyMode::FormUrlencoded && !r.4.folded_into_input
                && r.5.arg_name == Some("body"@)
            &&& !object && !is_form_spec(ct) ==> r.5.mode == BodyMode::Whole && !r.4.folded_into_input
                && r.5.arg_name == Some("body"@) && r.2 == if required {
                req.push("body"@)
            } else {
                req
            }
            &&& r.4.schema == s && r.4.required == required && r.4.content_type == ct
        }),
{
    let object = json::get_spec(s, "properties"@) is Some || json::str_field_spec(s, "type"@) == Some(
        "object"@,
    );
    assert(is_object_schema(s) == object);
    assert(body_folds(ct, s) == (object && !is_form_spec(ct)));
    lemma_fold_wires(pk, pv, schema_props(s).0, schema_props(s).1);
}

} // verus!
