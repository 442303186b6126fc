//! Schema clean-up after bundling: `allOf` of plain object schemas folded
//! into one object schema.
use vstd::prelude::*;
use crate::json::{self, obj_get, obj_insert, obj_remove, Json, JsonView, Member, Obj};
use crate::text;

verus! {

/// Properties, as keys and values side by side.
pub type Props = (Seq<Seq<char>>, Seq<JsonView>);

/// The properties of one branch added to those gathered so far, in order:
/// a new name is added; a name already there with another schema is a
/// conflict (nothing).
pub open spec fn add_props(pk: Seq<Seq<char>>, pv: Seq<JsonView>, qk: Seq<Seq<char>>, qv: Seq<JsonView>) -> Option<Props>
    decreases qk.len(),
{
    if qk.len() == 0 {
        Some((pk, pv))
    } else {
        let n = qk.len() - 1;
        props_step(add_props(pk, pv, qk.drop_last(), qv.take(n)), qk[n], qv[n])
    }
}

/// One property added: a new name is inserted; the same schema again is
/// kept; another schema under a name already there is a conflict.
#[verifier::opaque]
pub open spec fn props_step(st: Option<Props>, k: Seq<char>, v: JsonView) -> Option<Props> {
    match st {
        Some((a, b)) => match obj_get(a, b, k) {
            Some(e) => if e == v {
                Some((a, b))
            } else {
                None
            },
            None => Some(obj_insert(a, b, k, v)),
        },
        None => None,
    }
}

/// The strings of `items` appended to `req`, in order, each once.
pub open spec fn add_required(req: Seq<Seq<char>>, items: Seq<JsonView>) -> Seq<Seq<char>>
    decreases items.len(),
{
    if items.len() == 0 {
        req
    } else {
        let r = add_required(req, items.drop_last());
        match items.last() {
            JsonView::Str(s) => if r.contains(s) {
                r
            } else {
                r.push(s)
            },
            _ => r,
        }
    }
}

/// The state of the fold: properties gathered and required names.
pub type Gathered = (Seq<Seq<char>>, Seq<JsonView>, Seq<Seq<char>>);

/// A branch that is an object schema without `$ref` and of no type other
/// than `object`.
pub open spec fn plain_object_branch(b: JsonView) -> bool {
    b is Object && json::get_spec(b, "$ref"@) is None && match json::get_spec(b, "type"@) {
        Some(JsonView::Str(t)) => t == "object"@,
        _ => true,
    }
}

/// One branch folded in; nothing once a branch cannot be folded.
#[verifier::opaque]
pub open spec fn branch_step(st: Option<Gathered>, b: JsonView) -> Option<Gathered> {
    match st {
        Some((pk, pv, req)) => if plain_object_branch(b) {
            let p2 = match json::get_spec(b, "properties"@) {
                Some(JsonView::Object(qk, qv)) => add_props(pk, pv, qk, qv),
                _ => Some((pk, pv)),
            };
            match p2 {
                Some((a, c)) => Some(
                    (
                        a,
                        c,
                        match json::get_spec(b, "required"@) {
                            Some(JsonView::Array(items)) => add_required(req, items),
                            _ => req,
                        },
                    ),
                ),
                None => None,
            }
        } else {
            None
        },
        None => None,
    }
}

/// All branches folded in, in order.
pub open spec fn fold_branches(bs: Seq<JsonView>) -> Option<Gathered>
    decreases bs.len(),
{
    if bs.len() == 0 {
        Some((Seq::empty(), Seq::empty(), Seq::empty()))
    } else {
        branch_step(fold_branches(bs.drop_last()), bs.last())
    }
}

/// The gathered properties added where the schema lacks them.
pub open spec fn merge_absent(ek: Seq<Seq<char>>, ev: Seq<JsonView>, pk: Seq<Seq<char>>, pv: Seq<JsonView>) -> Props
    decreases pk.len(),
{
    if pk.len() == 0 {
        (ek, ev)
    } else {
        let n = pk.len() - 1;
        let (a, b) = merge_absent(ek, ev, pk.drop_last(), pv.take(n));
        if obj_get(a, b, pk[n]) is Some {
            (a, b)
        } else {
            obj_insert(a, b, pk[n], pv[n])
        }
    }
}

/// The required names appended to a `required` array unless there.
pub open spec fn push_missing(ea: Seq<JsonView>, req: Seq<Seq<char>>) -> Seq<JsonView>
    decreases req.len(),
{
    if req.len() == 0 {
        ea
    } else {
        let a = push_missing(ea, req.drop_last());
        let r = JsonView::Str(req.last());
        if a.contains(r) {
            a
        } else {
            a.push(r)
        }
    }
}

pub open spec fn str_items(req: Seq<Seq<char>>) -> Seq<JsonView> {
    Seq::new(req.len(), |i: int| JsonView::Str(req[i]))
}

/// The schema with `allOf` removed and what was gathered merged in: the
/// properties (existing ones win), the required names, and `type: object`
/// where properties are there and no type is.
pub open spec fn finish_spec(ks: Seq<Seq<char>>, vs: Seq<JsonView>, g: Gathered) -> JsonView {
    let (pk, pv, req) = g;
    let (k1, v1) = obj_remove(ks, vs, "allOf"@);
    let (k2, v2) = if pk.len() == 0 {
        (k1, v1)
    } else {
        match obj_get(k1, v1, "properties"@) {
            Some(JsonView::Object(ek, ev)) => {
                let (mk, mv) = merge_absent(ek, ev, pk, pv);
                obj_insert(k1, v1, "properties"@, JsonView::Object(mk, mv))
            },
            _ => obj_insert(k1, v1, "properties"@, JsonView::Object(pk, pv)),
        }
    };
    let (k3, v3) = if req.len() == 0 {
        (k2, v2)
    } else {
        match obj_get(k2, v2, "required"@) {
            Some(JsonView::Array(ea)) => obj_insert(
                k2,
                v2,
                "required"@,
                JsonView::Array(push_missing(ea, req)),
            ),
            _ => obj_insert(k2, v2, "required"@, JsonView::Array(str_items(req))),
        }
    };
    if obj_get(k3, v3, "type"@) is None && obj_get(k3, v3, "properties"@) is Some {
        let (k4, v4) = obj_insert(k3, v3, "type"@, JsonView::Str("object"@));
        JsonView::Object(k4, v4)
    } else {
        JsonView::Object(k3, v3)
    }
}

/// `allOf` of plain object schemas folded into the schema; the result and
/// whether an `allOf` is left (then the schema is unchanged).
pub open spec fn flatten_spec(j: JsonView) -> (JsonView, bool) {
    match j {
        JsonView::Object(ks, vs) => match obj_get(ks, vs, "allOf"@) {
            Some(JsonView::Array(bs)) => match fold_branches(bs) {
                Some(g) => (finish_spec(ks, vs, g), false),
                None => (j, true),
            },
            _ => (j, false),
        },
        _ => (j, false),
    }
}

pub open spec fn member_keys(m: Seq<Member>) -> Seq<Seq<char>> {
    Seq::new(m.len(), |i: int| m[i].key@)
}

pub open spec fn member_values(m: Seq<Member>) -> Seq<JsonView> {
    Seq::new(m.len(), |i: int| m[i].value@)
}

fn add_props_exec(acc: &mut Obj, m: &Vec<Member>) -> (ok: bool)
    requires
        old(acc).wf(),
    ensures
        final(acc).wf(),
        ok ==> add_props(old(acc).ks(), old(acc).vs(), member_keys(m@), member_values(m@)) == Some(
            (final(acc).ks(), final(acc).vs()),
        ),
        !ok ==> add_props(old(acc).ks(), old(acc).vs(), member_keys(m@), member_values(m@)) is None,
{
    let ghost (pk, pv) = (acc.ks(), acc.vs());
    let ghost qk = member_keys(m@);
    let ghost qv = member_values(m@);
    let mut i: usize = 0;
    assert(qk.take(0) =~= Seq::<Seq<char>>::empty());
    while i < m.len()
        invariant
            acc.wf(),
            qk == member_keys(m@),
            qv == member_values(m@),
            pk == old(acc).ks(),
            pv == old(acc).vs(),
            i <= m@.len(),
            add_props(pk, pv, qk.take(i as int), qv.take(i as int)) == Some((acc.ks(), acc.vs())),
        decreases m@.len() - i,
    {
        proof {
            let k1 = qk.take(i + 1);
            assert(k1.drop_last() =~= qk.take(i as int));
            assert(qv.take(i + 1).take(i as int) =~= qv.take(i as int));
            assert(k1[i as int] == m@[i as int].key@);
            assert(qv.take(i + 1)[i as int] == m@[i as int].value@);
        }
        let hit = match acc.get(m[i].key.as_str()) {
            Some(e) => Some(e.equals(&m[i].value)),
            None => None,
        };
        let ghost st = Some((acc.ks(), acc.vs()));
        match hit {
            Some(true) => {
                assert(props_step(st, m@[i as int].key@, m@[i as int].value@) == st) by {
                    reveal(props_step);
                }
            },
            Some(false) => {
                assert(props_step(st, m@[i as int].key@, m@[i as int].value@) is None) by {
                    reveal(props_step);
                }
                proof {
                    lemma_add_props_none(pk, pv, qk, qv, i + 1);
                }
                return false;
            },
            None => {
                acc.insert(m[i].key.as_str(), m[i].value.duplicate());
                assert(props_step(st, m@[i as int].key@, m@[i as int].value@) == Some(
                    (acc.ks(), acc.vs()),
                )) by {
                    reveal(props_step);
                }
            },
        }
        i = i + 1;
    }
    assert(qk.take(m@.len() as int) =~= qk);
    assert(qv.take(m@.len() as int) =~= qv);
    true
}

/// Once the fold of a prefix fails, the fold of the whole fails.
proof fn lemma_add_props_none(pk: Seq<Seq<char>>, pv: Seq<JsonView>, qk: Seq<Seq<char>>, qv: Seq<JsonView>, n: int)
    requires
        0 <= n <= qk.len(),
        qk.len() == qv.len(),
        add_props(pk, pv, qk.take(n), qv.take(n)) is None,
    ensures
        add_props(pk, pv, qk, qv) is None,
    decreases qk.len() - n,
{
    if n < qk.len() {
        let k1 = qk.take(n + 1);
        assert(k1.drop_last() =~= qk.take(n));
        assert(qv.take(n + 1).take(n) =~= qv.take(n));
        reveal(props_step);
        lemma_add_props_none(pk, pv, qk, qv, n + 1);
    } else {
        assert(qk.take(n) =~= qk);
        assert(qv.take(n) =~= qv);
    }
}

pub open spec fn strings_view(v: Seq<String>) -> Seq<Seq<char>> {
    Seq::new(v.len(), |i: int| v[i]@)
}

pub fn contains_string(v: &Vec<String>, s: &str) -> (r: bool)
    ensures
        r == strings_view(v@).contains(s@),
{
    let ghost sv = strings_view(v@);
    let mut i: usize = 0;
    while i < v.len()
        invariant
            sv == strings_view(v@),
            i <= v@.len(),
            forall|k: int| 0 <= k < i ==> sv[k] != s@,
        decreases v@.len() - i,
    {
        if text::str_eq(v[i].as_str(), s) {
            assert(sv[i as int] == s@);
            return true;
        }
        i = i + 1;
    }
    false
}

fn add_required_exec(req: &mut Vec<String>, items: &Vec<Json>)
    ensures
        strings_view(final(req)@) == add_required(strings_view(old(req)@), json::value_views(items@)),
{
    let ghost r0 = strings_view(req@);
    let ghost iv = json::value_views(items@);
    let mut i: usize = 0;
    assert(iv.take(0) =~= Seq::<JsonView>::empty());
    while i < items.len()
        invariant
            iv == json::value_views(items@),
            r0 == strings_view(old(req)@),
            i <= items@.len(),
            strings_view(req@) == add_required(r0, iv.take(i as int)),
        decreases items@.len() - i,
    {
        assert(iv.take(i + 1).drop_last() =~= iv.take(i as int));
        assert(iv.take(i + 1).last() == items@[i as int]@);
        match &items[i] {
            Json::Str(s) => {
                if !contains_string(req, s.as_str()) {
                    let ghost before = strings_view(req@);
                    req.push(s.clone());
                    assert(strings_view(req@) =~= before.push(s@));
                }
            },
            _ => {},
        }
        i = i + 1;
    }
    assert(iv.take(items@.len() as int) =~= iv);
}

fn plain_object_exec(b: &Json) -> (r: bool)
    ensures
        r == plain_object_branch(b@),
{
    match b {
        Json::Object(_) => {
            if b.get("$ref").is_some() {
                return false;
            }
            match b.get("type") {
                Some(Json::Str(t)) => text::str_eq(t.as_str(), "object"),
                _ => true,
            }
        },
        _ => false,
    }
}

/// One branch folded in (`branch_step`); false once it cannot be.
#[verifier::rlimit(60)]
fn branch_exec(acc: &mut Obj, req: &mut Vec<String>, b: &Json) -> (ok: bool)
    requires
        old(acc).wf(),
    ensures
        final(acc).wf(),
        ok ==> branch_step(Some((old(acc).ks(), old(acc).vs(), strings_view(old(req)@))), b@)
            == Some((final(acc).ks(), final(acc).vs(), strings_view(final(req)@))),
        !ok ==> branch_step(Some((old(acc).ks(), old(acc).vs(), strings_view(old(req)@))), b@) is None,
{
    reveal(branch_step);
    if !plain_object_exec(b) {
        return false;
    }
    match b.get("properties") {
        Some(Json::Object(m)) => {
            let ok = add_props_exec(acc, m);
            proof {
                let pv = json::get_spec(b@, "properties"@)->Some_0;
                assert(pv->Object_0 =~= member_keys(m@));
                assert(pv->Object_1 =~= member_values(m@));
            }
            if !ok {
                return false;
            }
        },
        _ => {},
    }
    match b.get("required") {
        Some(Json::Array(items)) => {
            proof {
                let rv = json::get_spec(b@, "required"@)->Some_0;
                assert(rv->Array_0 =~= json::value_views(items@));
            }
            add_required_exec(req, items);
        },
        _ => {},
    }
    true
}

/// Adds the members of `p` whose keys `e` lacks (`merge_absent`).
pub fn merge_absent_into(e: &mut Obj, p: &Obj)
    requires
        old(e).wf(),
        p.wf(),
    ensures
        final(e).wf(),
        (final(e).ks(), final(e).vs()) == merge_absent(old(e).ks(), old(e).vs(), p.ks(), p.vs()),
{
    let ghost (ek, ev) = (e.ks(), e.vs());
    let mut i: usize = 0;
    assert(p.ks().take(0) =~= Seq::<Seq<char>>::empty());
    while i < p.keys.len()
        invariant
            e.wf(),
            p.wf(),
            ek == old(e).ks(),
            ev == old(e).vs(),
            i <= p.keys@.len(),
            (e.ks(), e.vs()) == merge_absent(ek, ev, p.ks().take(i as int), p.vs().take(i as int)),
        decreases p.keys@.len() - i,
    {
        proof {
            assert(p.ks().take(i + 1).drop_last() =~= p.ks().take(i as int));
            assert(p.vs().take(i + 1).take(i as int) =~= p.vs().take(i as int));
        }
        if e.get(p.keys[i].as_str()).is_none() {
            e.insert(p.keys[i].as_str(), p.vals[i].duplicate());
        }
        i = i + 1;
    }
    assert(p.ks().take(p.keys@.len() as int) =~= p.ks());
    assert(p.vs().take(p.keys@.len() as int) =~= p.vs());
}

fn contains_str_item(a: &Vec<Json>, r: &str) -> (found: bool)
    ensures
        found == json::value_views(a@).contains(JsonView::Str(r@)),
{
    let ghost av = json::value_views(a@);
    let mut j: usize = 0;
    while j < a.len()
        invariant
            av == json::value_views(a@),
            j <= a@.len(),
            forall|k: int| 0 <= k < j ==> av[k] != JsonView::Str(r@),
        decreases a@.len() - j,
    {
        match &a[j] {
            Json::Str(s) => {
                if text::str_eq(s.as_str(), r) {
                    assert(av[j as int] == JsonView::Str(r@));
                    return true;
                }
            },
            _ => {},
        }
        j = j + 1;
    }
    false
}

fn push_missing_exec(ea: &mut Vec<Json>, req: &Vec<String>)
    ensures
        json::value_views(final(ea)@) == push_missing(json::value_views(old(ea)@), strings_view(req@)),
{
    let ghost a0 = json::value_views(ea@);
    let ghost rv = strings_view(req@);
    let mut i: usize = 0;
    assert(rv.take(0) =~= Seq::<Seq<char>>::empty());
    while i < req.len()
        invariant
            a0 == json::value_views(old(ea)@),
            rv == strings_view(req@),
            i <= req@.len(),
            json::value_views(ea@) == push_missing(a0, rv.take(i as int)),
        decreases req@.len() - i,
    {
        assert(rv.take(i + 1).drop_last() =~= rv.take(i as int));
        assert(rv.take(i + 1).last() == req@[i as int]@);
        if !contains_str_item(ea, req[i].as_str()) {
            let ghost before = json::value_views(ea@);
            ea.push(Json::Str(req[i].clone()));
            assert(json::value_views(ea@) =~= before.push(JsonView::Str(req@[i as int]@)));
        }
        i = i + 1;
    }
    assert(rv.take(req@.len() as int) =~= rv);
}

fn copy_items(a: &Vec<Json>) -> (r: Vec<Json>)
    ensures
        json::value_views(r@) == json::value_views(a@),
{
    let mut out: Vec<Json> = Vec::new();
    let mut i: usize = 0;
    while i < a.len()
        invariant
            i <= a@.len(),
            out@.len() == i,
            forall|k: int| 0 <= k < i ==> #[trigger] out@[k]@ == a@[k]@,
        decreases a@.len() - i,
    {
        out.push(a[i].duplicate());
        i = i + 1;
    }
    assert(json::value_views(out@) =~= json::value_views(a@));
    out
}

fn str_items_exec(req: &Vec<String>) -> (r: Vec<Json>)
    ensures
        json::value_views(r@) == str_items(strings_view(req@)),
{
    let mut out: Vec<Json> = Vec::new();
    let mut i: usize = 0;
    while i < req.len()
        invariant
            i <= req@.len(),
            out@.len() == i,
            forall|k: int| 0 <= k < i ==> #[trigger] out@[k]@ == JsonView::Str(req@[k]@),
        decreases req@.len() - i,
    {
        out.push(Json::Str(req[i].clone()));
        i = i + 1;
    }
    assert(json::value_views(out@) =~= str_items(strings_view(req@)));
    out
}

/// The branches folded in, in order (`fold_branches`): the gathered
/// properties and required names, or nothing.
fn fold_exec(bs: &Vec<Json>) -> (r: Option<(Obj, Vec<String>)>)
    ensures
        match r {
            Some((acc, req)) => acc.wf() && fold_branches(json::value_views(bs@)) == Some(
                (acc.ks(), acc.vs(), strings_view(req@)),
            ),
            None => fold_branches(json::value_views(bs@)) is None,
        },
{
    let ghost bv = json::value_views(bs@);
    let mut acc = Obj { keys: Vec::new(), vals: Vec::new() };
    let mut req: Vec<String> = Vec::new();
    assert(bv.take(0) =~= Seq::<JsonView>::empty());
    assert(acc.ks() =~= Seq::<Seq<char>>::empty());
    assert(acc.vs() =~= Seq::<JsonView>::empty());
    assert(strings_view(req@) =~= Seq::<Seq<char>>::empty());
    let mut i: usize = 0;
    while i < bs.len()
        invariant
            bv == json::value_views(bs@),
            acc.wf(),
            i <= bs@.len(),
            fold_branches(bv.take(i as int)) == Some((acc.ks(), acc.vs(), strings_view(req@))),
        decreases bs@.len() - i,
    {
        assert(bv.take(i + 1).drop_last() =~= bv.take(i as int));
        assert(bv.take(i + 1).last() == bs@[i as int]@);
        if !branch_exec(&mut acc, &mut req, &bs[i]) {
            proof {
                lemma_fold_none(bv, i + 1);
            }
            return None;
        }
        i = i + 1;
    }
    assert(bv.take(bs@.len() as int) =~= bv);
    Some((acc, req))
}

/// Once the fold of a prefix fails, the fold of the whole fails.
proof fn lemma_fold_none(bs: Seq<JsonView>, n: int)
    requires
        0 <= n <= bs.len(),
        fold_branches(bs.take(n)) is None,
    ensures
        fold_branches(bs) is None,
    decreases bs.len() - n,
{
    if n < bs.len() {
        assert(bs.take(n + 1).drop_last() =~= bs.take(n));
        reveal(branch_step);
        lemma_fold_none(bs, n + 1);
    } else {
        assert(bs.take(n) =~= bs);
    }
}

fn finish_props(o: &mut Obj, acc: Obj)
    requires
        old(o).wf(),
        acc.wf(),
    ensures
        final(o).wf(),
        (final(o).ks(), final(o).vs()) == (if acc.ks().len() == 0 {
            (old(o).ks(), old(o).vs())
        } else {
            match obj_get(old(o).ks(), old(o).vs(), "properties"@) {
                Some(JsonView::Object(ek, ev)) => {
                    let (mk, mv) = merge_absent(ek, ev, acc.ks(), acc.vs());
                    obj_insert(old(o).ks(), old(o).vs(), "properties"@, JsonView::Object(mk, mv))
                },
                _ => obj_insert(
                    old(o).ks(),
                    old(o).vs(),
                    "properties"@,
                    JsonView::Object(acc.ks(), acc.vs()),
                ),
            }
        }),
{
    if acc.keys.len() == 0 {
        return;
    }
    let existing: Option<Obj> = match o.get("properties") {
        Some(Json::Object(em)) => Some(Obj::of_members(em)),
        _ => None,
    };
    match existing {
        Some(mut e) => {
            proof {
                let pv = obj_get(o.ks(), o.vs(), "properties"@)->Some_0;
                assert(pv->Object_0 =~= e.ks());
                assert(pv->Object_1 =~= e.vs());
            }
            merge_absent_into(&mut e, &acc);
            o.insert("properties", e.into_json());
        },
        None => {
            o.insert("properties", acc.into_json());
        },
    }
}

fn finish_required(o: &mut Obj, req: &Vec<String>)
    requires
        old(o).wf(),
    ensures
        final(o).wf(),
        (final(o).ks(), final(o).vs()) == (if req@.len() == 0 {
            (old(o).ks(), old(o).vs())
        } else {
            match obj_get(old(o).ks(), old(o).vs(), "required"@) {
                Some(JsonView::Array(ea)) => obj_insert(
                    old(o).ks(),
                    old(o).vs(),
                    "required"@,
                    JsonView::Array(push_missing(ea, strings_view(req@))),
                ),
                _ => obj_insert(
                    old(o).ks(),
                    old(o).vs(),
                    "required"@,
                    JsonView::Array(str_items(strings_view(req@))),
                ),
            }
        }),
{
    if req.len() == 0 {
        return;
    }
    let existing: Option<Vec<Json>> = match o.get("required") {
        Some(Json::Array(ea)) => Some(copy_items(ea)),
        _ => None,
    };
    match existing {
        Some(mut ea) => {
            proof {
                let rv = obj_get(o.ks(), o.vs(), "required"@)->Some_0;
                assert(rv->Array_0 =~= json::value_views(ea@));
            }
            push_missing_exec(&mut ea, req);
            let arr = Json::Array(ea);
            assert(arr@->Array_0 =~= json::value_views(ea@));
            o.insert("required", arr);
        },
        None => {
            let items = str_items_exec(req);
            let arr = Json::Array(items);
            assert(arr@->Array_0 =~= json::value_views(items@));
            o.insert("required", arr);
        },
    }
}

fn finish_type(o: &mut Obj)
    requires
        old(o).wf(),
    ensures
        final(o).wf(),
        (final(o).ks(), final(o).vs()) == (if obj_get(old(o).ks(), old(o).vs(), "type"@) is None
            && obj_get(old(o).ks(), old(o).vs(), "properties"@) is Some {
            obj_insert(old(o).ks(), old(o).vs(), "type"@, JsonView::Str("object"@))
        } else {
            (old(o).ks(), old(o).vs())
        }),
{
    if o.get("type").is_none() && o.get("properties").is_some() {
        o.insert("type", Json::Str("object".to_owned()));
    }
}

/// Folds `allOf` of plain object schemas into the schema (`flatten_spec`);
/// true when an `allOf` is left, and the schema is then unchanged.
pub fn flatten_allof(schema: &mut Json) -> (left: bool)
    ensures
        (final(schema)@, left) == flatten_spec(old(schema)@),
{
    let (o0, bs_copy) = match &*schema {
        Json::Object(m) => {
            let o0 = Obj::of_members(m);
            let b = match o0.get("allOf") {
                Some(Json::Array(bs)) => Some(copy_items(bs)),
                _ => None,
            };
            (o0, b)
        },
        _ => return false,
    };
    proof {
        assert(schema@->Object_0 =~= o0.ks());
        assert(schema@->Object_1 =~= o0.vs());
    }
    let bs = match bs_copy {
        Some(bs) => bs,
        None => return false,
    };
    proof {
        let av = obj_get(o0.ks(), o0.vs(), "allOf"@)->Some_0;
        assert(av->Array_0 =~= json::value_views(bs@));
    }
    match fold_exec(&bs) {
        None => true,
        Some((acc, req)) => {
            let ghost g = (acc.ks(), acc.vs(), strings_view(req@));
            let mut o = o0;
            o.remove("allOf");
            finish_props(&mut o, acc);
            finish_required(&mut o, &req);
            finish_type(&mut o);
            *schema = o.into_json();
            proof {
                assert(schema@ == finish_spec(old(schema)@->Object_0, old(schema)@->Object_1, g));
            }
            false
        },
    }
}

} // verus!
verus! {

// ---------------------------------------------------------------------------
// `$defs` and `definitions` hoisted out of a bundled schema.
// ---------------------------------------------------------------------------

/// `entry(k).or_insert(v)`: the key is added unless there.
pub open spec fn or_insert(s: Props, k: Seq<char>, v: JsonView) -> Props {
    if obj_get(s.0, s.1, k) is Some {
        s
    } else {
        obj_insert(s.0, s.1, k, v)
    }
}

/// A schema with every `$defs` and `definitions` object, at any depth,
/// moved into the sink: each definition is itself hoisted first, then added
/// to the sink unless its name is there. An object's own `$defs` come
/// first, then its `definitions`, then its other members in order; the two
/// keys leave the object whatever they hold.
pub open spec fn hoist_spec(j: JsonView, sink: Props) -> (JsonView, Props)
    decreases j, 0nat,
{
    match j {
        JsonView::Array(a) => {
            let (na, s) = hoist_seq(a, a.len() as int, sink);
            (JsonView::Array(na), s)
        },
        JsonView::Object(ks, vs) => {
            let d1 = json::find_key(ks, "$defs"@);
            let d2 = json::find_key(ks, "definitions"@);
            let s1 = hoist_slot(vs, d1, sink);
            let s2 = hoist_slot(vs, d2, s1);
            let (rk, rv, s3) = hoist_rest(ks, vs, d1, d2, vs.len() as int, s2);
            (JsonView::Object(rk, rv), s3)
        },
        _ => (j, sink),
    }
}

/// The definitions of the member at `d`, when it is an object, hoisted.
pub open spec fn hoist_slot(vs: Seq<JsonView>, d: Option<int>, sink: Props) -> Props
    decreases vs, 0nat,
{
    match d {
        Some(i) => if 0 <= i < vs.len() {
            match vs[i] {
                JsonView::Object(dk, dv) => hoist_members(dk, dv, dv.len() as int, sink),
                _ => sink,
            }
        } else {
            sink
        },
        None => sink,
    }
}

/// The first `n` items hoisted in turn.
pub open spec fn hoist_seq(a: Seq<JsonView>, n: int, sink: Props) -> (Seq<JsonView>, Props)
    decreases a, n,
{
    if n <= 0 || n > a.len() {
        (Seq::empty(), sink)
    } else {
        let (p, s) = hoist_seq(a, n - 1, sink);
        let (v, s2) = hoist_spec(a[n - 1], s);
        (p.push(v), s2)
    }
}

/// The first `n` definitions hoisted, each added to the sink unless there.
pub open spec fn hoist_members(dk: Seq<Seq<char>>, dv: Seq<JsonView>, n: int, sink: Props) -> Props
    decreases dv, n,
{
    if n <= 0 || n > dv.len() || n > dk.len() {
        sink
    } else {
        let s = hoist_members(dk, dv, n - 1, sink);
        let (v, s2) = hoist_spec(dv[n - 1], s);
        or_insert(s2, dk[n - 1], v)
    }
}

/// The first `n` members other than those at `d1` and `d2`, their values
/// hoisted in turn.
pub open spec fn hoist_rest(
    ks: Seq<Seq<char>>,
    vs: Seq<JsonView>,
    d1: Option<int>,
    d2: Option<int>,
    n: int,
    sink: Props,
) -> (Seq<Seq<char>>, Seq<JsonView>, Props)
    decreases vs, n,
{
    if n <= 0 || n > vs.len() || n > ks.len() {
        (Seq::empty(), Seq::empty(), sink)
    } else {
        let (k0, v0, s) = hoist_rest(ks, vs, d1, d2, n - 1, sink);
        if d1 == Some(n - 1) || d2 == Some(n - 1) {
            (k0, v0, s)
        } else {
            let (v, s2) = hoist_spec(vs[n - 1], s);
            (k0.push(ks[n - 1]), v0.push(v), s2)
        }
    }
}

fn find_member(m: &Vec<Member>, key: &str) -> (r: Option<usize>)
    ensures
        match r {
            Some(i) => json::find_key(member_keys(m@), key@) == Some(i as int) && i < m@.len(),
            None => json::find_key(member_keys(m@), key@) is None,
        },
{
    let ghost ks = member_keys(m@);
    let mut i: usize = 0;
    while i < m.len()
        invariant
            ks == member_keys(m@),
            i <= m@.len(),
            forall|j: int| 0 <= j < i ==> ks[j] != key@,
        decreases m@.len() - i,
    {
        if text::str_eq(m[i].key.as_str(), key) {
            proof {
                assert(ks[i as int] == key@);
                let c = choose|k: int|
                    0 <= k < ks.len() && ks[k] == key@ && forall|j: int| 0 <= j < k ==> ks[j] != key@;
                assert(0 <= i < ks.len() && ks[i as int] == key@ && forall|j: int|
                    0 <= j < i ==> ks[j] != key@);
                if c < i {
                    assert(ks[c] != key@);
                } else if c > i {
                    assert(ks[i as int] != key@);
                }
            }
            return Some(i);
        }
        i = i + 1;
    }
    None
}

fn hoist_value(j: &Json, sink: &mut Obj) -> (r: Json)
    requires
        old(sink).wf(),
    ensures
        final(sink).wf(),
        (r@, (final(sink).ks(), final(sink).vs())) == hoist_spec(j@, (old(sink).ks(), old(sink).vs())),
    decreases j, 2nat,
{
    match j {
        Json::Array(a) => {
            proof {
                assert(decreases_to!(*j => *a));
            }
            let items = hoist_items(a, sink);
            let r = Json::Array(items);
            proof {
                assert(json::value_views(a@) =~= j@->Array_0);
                assert(r@->Array_0 =~= json::value_views(items@));
            }
            r
        },
        Json::Object(m) => {
            proof {
                assert(decreases_to!(*j => *m));
                assert(member_keys(m@) =~= j@->Object_0);
                assert(member_values(m@) =~= j@->Object_1);
            }
            hoist_object(m, sink)
        },
        _ => j.duplicate(),
    }
}

fn hoist_items(a: &Vec<Json>, sink: &mut Obj) -> (r: Vec<Json>)
    requires
        old(sink).wf(),
    ensures
        final(sink).wf(),
        (json::value_views(r@), (final(sink).ks(), final(sink).vs())) == hoist_seq(
            json::value_views(a@),
            a@.len() as int,
            (old(sink).ks(), old(sink).vs()),
        ),
    decreases a, 1nat,
{
    let ghost av = json::value_views(a@);
    let ghost s0 = (sink.ks(), sink.vs());
    let mut out: Vec<Json> = Vec::new();
    let mut i: usize = 0;
    assert(json::value_views(out@) =~= Seq::<JsonView>::empty());
    while i < a.len()
        invariant
            av == json::value_views(a@),
            s0 == (old(sink).ks(), old(sink).vs()),
            sink.wf(),
            i <= a@.len(),
            (json::value_views(out@), (sink.ks(), sink.vs())) == hoist_seq(av, i as int, s0),
        decreases a@.len() - i,
    {
        proof {
            assert(decreases_to!(*a => a@[i as int]));
        }
        let ghost before = json::value_views(out@);
        let v = hoist_value(&a[i], sink);
        out.push(v);
        assert(json::value_views(out@) =~= before.push(out@.last()@));
        i = i + 1;
    }
    out
}

fn hoist_defs_members(m: &Vec<Member>, sink: &mut Obj)
    requires
        old(sink).wf(),
    ensures
        final(sink).wf(),
        (final(sink).ks(), final(sink).vs()) == hoist_members(
            member_keys(m@),
            member_values(m@),
            m@.len() as int,
            (old(sink).ks(), old(sink).vs()),
        ),
    decreases m, 1nat,
{
    let ghost dk = member_keys(m@);
    let ghost dv = member_values(m@);
    let ghost s0 = (sink.ks(), sink.vs());
    let mut i: usize = 0;
    while i < m.len()
        invariant
            dk == member_keys(m@),
            dv == member_values(m@),
            s0 == (old(sink).ks(), old(sink).vs()),
            sink.wf(),
            i <= m@.len(),
            (sink.ks(), sink.vs()) == hoist_members(dk, dv, i as int, s0),
        decreases m@.len() - i,
    {
        proof {
            assert(decreases_to!(*m => m@[i as int]));
            assert(decreases_to!(m@[i as int] => m@[i as int].value));
        }
        let v = hoist_value(&m[i].value, sink);
        if sink.get(m[i].key.as_str()).is_none() {
            sink.insert(m[i].key.as_str(), v);
        }
        i = i + 1;
    }
}

fn hoist_slot_exec(m: &Vec<Member>, d: Option<usize>, sink: &mut Obj)
    requires
        old(sink).wf(),
        match d {
            Some(i) => i < m@.len(),
            None => true,
        },
    ensures
        final(sink).wf(),
        (final(sink).ks(), final(sink).vs()) == hoist_slot(
            member_values(m@),
            match d {
                Some(i) => Some(i as int),
                None => None,
            },
            (old(sink).ks(), old(sink).vs()),
        ),
    decreases m, 2nat,
{
    let ghost vs = member_values(m@);
    match d {
        Some(i) => match &m[i].value {
            Json::Object(dm) => {
                proof {
                    assert(decreases_to!(*m => m@[i as int]));
                    assert(decreases_to!(m@[i as int] => m@[i as int].value));
                    assert(member_keys(dm@) =~= vs[i as int]->Object_0);
                    assert(member_values(dm@) =~= vs[i as int]->Object_1);
                }
                hoist_defs_members(dm, sink);
            },
            _ => {},
        },
        None => {},
    }
}

fn hoist_rest_exec(m: &Vec<Member>, d1: Option<usize>, d2: Option<usize>, sink: &mut Obj) -> (r: Vec<Member>)
    requires
        old(sink).wf(),
    ensures
        final(sink).wf(),
        (member_keys(r@), member_values(r@), (final(sink).ks(), final(sink).vs())) == hoist_rest(
            member_keys(m@),
            member_values(m@),
            match d1 {
                Some(i) => Some(i as int),
                None => None,
            },
            match d2 {
                Some(i) => Some(i as int),
                None => None,
            },
            m@.len() as int,
            (old(sink).ks(), old(sink).vs()),
        ),
    decreases m, 2nat,
{
    let ghost ks = member_keys(m@);
    let ghost vs = member_values(m@);
    let ghost s0 = (sink.ks(), sink.vs());
    let ghost g1: Option<int> = match d1 {
        Some(i) => Some(i as int),
        None => None,
    };
    let ghost g2: Option<int> = match d2 {
        Some(i) => Some(i as int),
        None => None,
    };
    let mut out: Vec<Member> = Vec::new();
    let mut k: usize = 0;
    assert(member_keys(out@) =~= Seq::<Seq<char>>::empty());
    assert(member_values(out@) =~= Seq::<JsonView>::empty());
    while k < m.len()
        invariant
            ks == member_keys(m@),
            vs == member_values(m@),
            s0 == (old(sink).ks(), old(sink).vs()),
            g1 == (match d1 {
                Some(i) => Some(i as int),
                None => None,
            }),
            g2 == (match d2 {
                Some(i) => Some(i as int),
                None => None,
            }),
            sink.wf(),
            k <= m@.len(),
            (member_keys(out@), member_values(out@), (sink.ks(), sink.vs())) == hoist_rest(
                ks,
                vs,
                g1,
                g2,
                k as int,
                s0,
            ),
        decreases m@.len() - k,
    {
        proof {
            assert(decreases_to!(*m => m@[k as int]));
            assert(decreases_to!(m@[k as int] => m@[k as int].value));
        }
        let skip = match d1 {
            Some(i) => i == k,
            None => false,
        } || match d2 {
            Some(i) => i == k,
            None => false,
        };
        if !skip {
            let ghost bk = member_keys(out@);
            let ghost bv = member_values(out@);
            let v = hoist_value(&m[k].value, sink);
            out.push(Member { key: m[k].key.clone(), value: v });
            assert(member_keys(out@) =~= bk.push(ks[k as int]));
            assert(member_values(out@) =~= bv.push(out@.last().value@));
        }
        k = k + 1;
    }
    out
}

fn hoist_object(m: &Vec<Member>, sink: &mut Obj) -> (r: Json)
    requires
        old(sink).wf(),
    ensures
        final(sink).wf(),
        (r@, (final(sink).ks(), final(sink).vs())) == hoist_spec(
            JsonView::Object(member_keys(m@), member_values(m@)),
            (old(sink).ks(), old(sink).vs()),
        ),
    decreases m, 3nat,
{
    let d1 = find_member(m, "$defs");
    let d2 = find_member(m, "definitions");
    hoist_slot_exec(m, d1, sink);
    hoist_slot_exec(m, d2, sink);
    let out = hoist_rest_exec(m, d1, d2, sink);
    let r = Json::Object(out);
    proof {
        assert(r@->Object_0 =~= member_keys(out@));
        assert(r@->Object_1 =~= member_values(out@));
    }
    r
}

/// Moves every `$defs` and `definitions` of the schema into the sink
/// (`hoist_spec`).
pub fn hoist_defs(schema: &mut Json, sink: &mut Obj)
    requires
        old(sink).wf(),
    ensures
        final(sink).wf(),
        (final(schema)@, (final(sink).ks(), final(sink).vs())) == hoist_spec(
            old(schema)@,
            (old(sink).ks(), old(sink).vs()),
        ),
{
    let r = hoist_value(schema, sink);
    *schema = r;
}

} // verus!
