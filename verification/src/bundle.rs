//! Preparing a schema for bundling and checking what bundling gave: the
//! component references rewritten to `$defs`, the definitions it names,
//! and the references left dangling.
use vstd::prelude::*;
use crate::json::{self, obj_get, obj_insert, Json, JsonView, Member, Obj};
use crate::refs::{self, rewrite_ref_spec, unescape_spec};
use crate::schema::{member_keys, member_values, Props, strings_view};
use crate::text;

verus! {

// ---------------------------------------------------------------------------
// Rewriting component references.
// ---------------------------------------------------------------------------

/// A schema with every string `$ref` rewritten (`rewrite_ref_spec`) and
/// every `definitions` key renamed `$defs`, at any depth. The members of an
/// object are rebuilt in key order; a later member wins over an earlier one
/// of the same (renamed) key.
pub open spec fn rewrite_refs_spec(j: JsonView) -> JsonView
    decreases j, 0nat,
{
    match j {
        JsonView::Array(a) => JsonView::Array(rewrite_items(a, a.len() as int)),
        JsonView::Object(ks, vs) => {
            let (rk, rv) = rewrite_members(ks, vs, vs.len() as int);
            JsonView::Object(rk, rv)
        },
        _ => j,
    }
}

/// The first `n` items rewritten.
pub open spec fn rewrite_items(a: Seq<JsonView>, n: int) -> Seq<JsonView>
    decreases a, n,
{
    if n <= 0 || n > a.len() {
        Seq::empty()
    } else {
        rewrite_items(a, n - 1).push(rewrite_refs_spec(a[n - 1]))
    }
}

/// The first `n` members rewritten into a new object.
pub open spec fn rewrite_members(ks: Seq<Seq<char>>, vs: Seq<JsonView>, n: int) -> Props
    decreases vs, n,
{
    if n <= 0 || n > vs.len() || n > ks.len() {
        (Seq::empty(), Seq::empty())
    } else {
        let (a, b) = rewrite_members(ks, vs, n - 1);
        let k = ks[n - 1];
        let v = vs[n - 1];
        match v {
            JsonView::Str(s) if k == "$ref"@ => obj_insert(a, b, k, JsonView::Str(rewrite_ref_spec(s))),
            _ => obj_insert(
                a,
                b,
                if k == "definitions"@ {
                    "$defs"@
                } else {
                    k
                },
                rewrite_refs_spec(v),
            ),
        }
    }
}

fn rewrite_value(j: &Json) -> (r: Json)
    ensures
        r@ == rewrite_refs_spec(j@),
    decreases j, 2nat,
{
    match j {
        Json::Array(a) => {
            proof {
                assert(decreases_to!(*j => *a));
            }
            let items = rewrite_array(a);
            let r = Json::Array(items);
            proof {
                assert(json::value_views(a@) =~= j@->Array_0);
                assert(r@->Array_0 =~= json::value_views(items@));
            }
            r
        },
        Json::Object(m) => {
            proof {
                assert(decreases_to!(*j => *m));
                assert(member_keys(m@) =~= j@->Object_0);
                assert(member_values(m@) =~= j@->Object_1);
            }
            let o = rewrite_object(m);
            o.into_json()
        },
        _ => j.duplicate(),
    }
}

fn rewrite_array(a: &Vec<Json>) -> (r: Vec<Json>)
    ensures
        json::value_views(r@) == rewrite_items(json::value_views(a@), a@.len() as int),
    decreases a, 1nat,
{
    let ghost av = json::value_views(a@);
    let mut out: Vec<Json> = Vec::new();
    let mut i: usize = 0;
    assert(json::value_views(out@) =~= Seq::<JsonView>::empty());
    while i < a.len()
        invariant
            av == json::value_views(a@),
            i <= a@.len(),
            json::value_views(out@) == rewrite_items(av, i as int),
        decreases a@.len() - i,
    {
        proof {
            assert(decreases_to!(*a => a@[i as int]));
        }
        let ghost before = json::value_views(out@);
        out.push(rewrite_value(&a[i]));
        assert(json::value_views(out@) =~= before.push(out@.last()@));
        i = i + 1;
    }
    out
}

fn rewrite_object(m: &Vec<Member>) -> (r: Obj)
    ensures
        r.wf(),
        (r.ks(), r.vs()) == rewrite_members(member_keys(m@), member_values(m@), m@.len() as int),
    decreases m, 1nat,
{
    let ghost ks = member_keys(m@);
    let ghost vs = member_values(m@);
    let mut o = Obj { keys: Vec::new(), vals: Vec::new() };
    let mut i: usize = 0;
    assert(o.ks() =~= Seq::<Seq<char>>::empty());
    assert(o.vs() =~= Seq::<JsonView>::empty());
    while i < m.len()
        invariant
            ks == member_keys(m@),
            vs == member_values(m@),
            o.wf(),
            i <= m@.len(),
            (o.ks(), o.vs()) == rewrite_members(ks, vs, i as int),
        decreases m@.len() - i,
    {
        proof {
            assert(decreases_to!(*m => m@[i as int]));
            assert(decreases_to!(m@[i as int] => m@[i as int].value));
        }
        let k = &m[i].key;
        let is_ref = text::str_eq(k.as_str(), "$ref");
        match &m[i].value {
            Json::Str(s) if is_ref => {
                o.insert(k.as_str(), Json::Str(refs::rewrite_ref_str(s.as_str())));
            },
            _ => {
                let v = rewrite_value(&m[i].value);
                if text::str_eq(k.as_str(), "definitions") {
                    o.insert("$defs", v);
                } else {
                    o.insert(k.as_str(), v);
                }
            },
        }
        i = i + 1;
    }
    o
}

/// A schema with its component references rewritten (`rewrite_refs_spec`).
pub fn rewrite_schema_refs(j: &Json) -> (r: Json)
    ensures
        r@ == rewrite_refs_spec(j@),
{
    rewrite_value(j)
}

// ---------------------------------------------------------------------------
// Rewriting twice.
// ---------------------------------------------------------------------------

proof fn lemma_rewrite_ref_idem(s: Seq<char>)
    ensures
        rewrite_ref_spec(rewrite_ref_spec(s)) == rewrite_ref_spec(s),
{
    let a = "#/components/schemas/"@;
    let b = "#/definitions/"@;
    let d = "#/$defs/"@;
    reveal_strlit("#/components/schemas/");
    reveal_strlit("#/definitions/");
    reveal_strlit("#/$defs/");
    if text::has_prefix(s, a) || text::has_prefix(s, b) {
        let r = rewrite_ref_spec(s);
        let rest = if text::has_prefix(s, a) { s.skip(a.len() as int) } else { s.skip(b.len() as int) };
        assert(r == d + rest);
        assert(r[2] == '$');
        if text::has_prefix(r, a) {
            assert(r.subrange(0, a.len() as int)[2] == a[2]);
        }
        if text::has_prefix(r, b) {
            assert(r.subrange(0, b.len() as int)[2] == b[2]);
        }
    }
}

/// The value a member gets in a rewritten object.
pub open spec fn member_step(k: Seq<char>, v: JsonView) -> JsonView {
    match v {
        JsonView::Str(s) if k == "$ref"@ => JsonView::Str(rewrite_ref_spec(s)),
        _ => rewrite_refs_spec(v),
    }
}

/// The key a member gets in a rewritten object.
pub open spec fn member_key(k: Seq<char>) -> Seq<char> {
    if k == "definitions"@ {
        "$defs"@
    } else {
        k
    }
}

/// A member that rewriting leaves as it is.
pub open spec fn settled_member(k: Seq<char>, v: JsonView) -> bool {
    k != "definitions"@ && member_step(k, v) == v
}

proof fn lemma_members_step(ks: Seq<Seq<char>>, vs: Seq<JsonView>, n: int)
    requires
        0 < n <= vs.len(),
        n <= ks.len(),
    ensures
        rewrite_members(ks, vs, n) == obj_insert(
            rewrite_members(ks, vs, n - 1).0,
            rewrite_members(ks, vs, n - 1).1,
            member_key(ks[n - 1]),
            member_step(ks[n - 1], vs[n - 1]),
        ),
{
    let k = ks[n - 1];
    let v = vs[n - 1];
    match v {
        JsonView::Str(s) => {
            if k == "$ref"@ {
                assert(member_key(k) == k) by {
                    reveal_strlit("$ref");
                    reveal_strlit("definitions");
                    assert(k[0] == '$');
                }
            }
        },
        _ => {},
    }
}

proof fn lemma_items_shape(a: Seq<JsonView>, n: int)
    requires
        0 <= n <= a.len(),
    ensures
        rewrite_items(a, n).len() == n,
        forall|i: int| 0 <= i < n ==> #[trigger] rewrite_items(a, n)[i] == rewrite_refs_spec(a[i]),
    decreases n,
{
    if n > 0 {
        lemma_items_shape(a, n - 1);
    }
}

/// The pairs of an object all keep a property through an insert.
proof fn lemma_insert_pairs(
    ks: Seq<Seq<char>>,
    vs: Seq<JsonView>,
    k: Seq<char>,
    v: JsonView,
    p: spec_fn(Seq<char>, JsonView) -> bool,
)
    requires
        ks.len() == vs.len(),
        forall|i: int| 0 <= i < ks.len() ==> p(ks[i], vs[i]),
        p(k, v),
    ensures
        obj_insert(ks, vs, k, v).0.len() == obj_insert(ks, vs, k, v).1.len(),
        forall|i: int|
            0 <= i < obj_insert(ks, vs, k, v).0.len() ==> p(obj_insert(ks, vs, k, v).0[i], obj_insert(ks, vs, k, v).1[i]),
{
    reveal(obj_insert);
    match json::find_key(ks, k) {
        Some(i) => {
            crate::defs::lemma_found_key(ks, k);
            let w = choose|w: int| 0 <= w < ks.len() && ks[w] == k;
            crate::defs::lemma_first_index(ks, k, w);
            assert(0 <= i < ks.len() && ks[i] == k);
        },
        None => {
            let pos = json::count_less(ks, k) as int;
            crate::defs::lemma_count_less_bound(ks, k);
            let k2 = ks.insert(pos, k);
            let v2 = vs.insert(pos, v);
            assert forall|i: int| 0 <= i < k2.len() implies p(k2[i], v2[i]) by {
                if i < pos {
                    assert(k2[i] == ks[i] && v2[i] == vs[i]);
                } else if i > pos {
                    assert(k2[i] == ks[i - 1] && v2[i] == vs[i - 1]);
                }
            }
        },
    }
}

proof fn lemma_insert_key_set(ks: Seq<Seq<char>>, vs: Seq<JsonView>, k: Seq<char>, v: JsonView)
    requires
        crate::defs::keys_sorted(ks),
    ensures
        crate::defs::keys_sorted(obj_insert(ks, vs, k, v).0),
        forall|x: Seq<char>| #[trigger] obj_insert(ks, vs, k, v).0.contains(x) <==> (ks.contains(x) || x == k),
{
    reveal(obj_insert);
    assert forall|x: Seq<char>| #[trigger] obj_insert(ks, vs, k, v).0.contains(x) <==> (ks.contains(x) || x == k) by {
        crate::defs::lemma_insert_keys(ks, vs, k, v, x);
    }
    if json::find_key(ks, k) is None {
        if ks.contains(k) {
            let w = choose|w: int| 0 <= w < ks.len() && ks[w] == k;
            assert(exists|i: int| 0 <= i < ks.len() && ks[i] == k);
        }
        crate::defs::lemma_insert_sorted(ks, k);
    }
}

/// What rewriting the first `n` members builds: keys in order, none named
/// `definitions`, each member settled.
proof fn lemma_members_shape(ks: Seq<Seq<char>>, vs: Seq<JsonView>, n: int)
    requires
        forall|i: int|
            0 <= i < vs.len() ==> rewrite_refs_spec(#[trigger] rewrite_refs_spec(vs[i])) == rewrite_refs_spec(vs[i]),
    ensures
        ({
            let (a, b) = rewrite_members(ks, vs, n);
            &&& a.len() == b.len()
            &&& crate::defs::keys_sorted(a)
            &&& forall|i: int| 0 <= i < a.len() ==> settled_member(a[i], b[i])
        }),
    decreases n,
{
    if n <= 0 || n > vs.len() || n > ks.len() {
    } else {
        lemma_members_shape(ks, vs, n - 1);
        lemma_members_step(ks, vs, n);
        let (a, b) = rewrite_members(ks, vs, n - 1);
        let k = ks[n - 1];
        let v = vs[n - 1];
        let k2 = member_key(k);
        let v2 = member_step(k, v);
        assert(settled_member(k2, v2)) by {
            reveal_strlit("definitions");
            reveal_strlit("$defs");
            reveal_strlit("$ref");
            assert(k2 != "definitions"@) by {
                if k == "definitions"@ {
                    assert(k2[1] == 'd');
                    assert("definitions"@[1] == 'e');
                }
            }
            match v {
                JsonView::Str(s) => {
                    if k == "$ref"@ {
                        lemma_rewrite_ref_idem(s);
                        assert(k2 == k);
                    } else {
                        assert(v2 == v);
                        if k2 == "$ref"@ {
                            assert(k2[0] == '$');
                            assert(k == k2);
                        }
                    }
                },
                _ => {
                    assert(rewrite_refs_spec(rewrite_refs_spec(vs[n - 1])) == rewrite_refs_spec(vs[n - 1]));
                    assert(!(v2 is Str));
                },
            }
        }
        let p = |kk: Seq<char>, vv: JsonView| settled_member(kk, vv);
        assert forall|i: int| 0 <= i < a.len() implies p(a[i], b[i]) by {}
        lemma_insert_pairs(a, b, k2, v2, p);
        lemma_insert_key_set(a, b, k2, v2);
        let (a2, b2) = obj_insert(a, b, k2, v2);
        assert forall|i: int| 0 <= i < a2.len() implies settled_member(a2[i], b2[i]) by {
            assert(p(a2[i], b2[i]));
        }
    }
}

/// Rewriting settled members in key order rebuilds them.
proof fn lemma_members_rebuild(ks: Seq<Seq<char>>, vs: Seq<JsonView>, m: int)
    requires
        ks.len() == vs.len(),
        crate::defs::keys_sorted(ks),
        forall|i: int| 0 <= i < ks.len() ==> settled_member(ks[i], vs[i]),
        0 <= m <= ks.len(),
    ensures
        rewrite_members(ks, vs, m) == (ks.take(m), vs.take(m)),
    decreases m,
{
    if m > 0 {
        lemma_members_rebuild(ks, vs, m - 1);
        lemma_members_step(ks, vs, m);
        let k = ks[m - 1];
        let pre = ks.take(m - 1);
        assert(member_key(k) == k);
        assert(member_step(k, vs[m - 1]) == vs[m - 1]);
        assert(crate::defs::keys_sorted(pre));
        assert(!pre.contains(k)) by {
            if pre.contains(k) {
                let j = choose|j: int| 0 <= j < pre.len() && pre[j] == k;
                assert(crate::names::seq_lt(ks[j], ks[m - 1]));
                crate::names::lemma_seq_lt_irrefl(k);
            }
        }
        assert(json::find_key(pre, k) is None);
        let c = json::count_less(pre, k);
        crate::defs::lemma_count_less_bound(pre, k);
        if m - 1 > 0 {
            crate::defs::lemma_count_less_sorted(pre, k, m - 2);
        }
        assert(c == m - 1);
        reveal(obj_insert);
        assert(pre.insert(m - 1, k) =~= ks.take(m));
        assert(vs.take(m - 1).insert(m - 1, vs[m - 1]) =~= vs.take(m));
    }
}

/// Rewriting references twice is rewriting them once.
pub proof fn law_rewrite_idempotent(j: JsonView)
    ensures
        rewrite_refs_spec(rewrite_refs_spec(j)) == rewrite_refs_spec(j),
    decreases j,
{
    match j {
        JsonView::Array(a) => {
            lemma_items_shape(a, a.len() as int);
            let r = rewrite_items(a, a.len() as int);
            lemma_items_shape(r, r.len() as int);
            assert forall|i: int| 0 <= i < a.len() implies rewrite_refs_spec(r[i]) == r[i] by {
                assert(decreases_to!(j => a[i]));
                law_rewrite_idempotent(a[i]);
            }
            assert(rewrite_items(r, r.len() as int) =~= r);
        },
        JsonView::Object(ks, vs) => {
            assert forall|i: int| 0 <= i < vs.len() implies rewrite_refs_spec(
                #[trigger] rewrite_refs_spec(vs[i]),
            ) == rewrite_refs_spec(vs[i]) by {
                assert(decreases_to!(j => vs[i]));
                law_rewrite_idempotent(vs[i]);
            }
            lemma_members_shape(ks, vs, vs.len() as int);
            let (a, b) = rewrite_members(ks, vs, vs.len() as int);
            lemma_members_rebuild(a, b, a.len() as int);
            assert(a.take(a.len() as int) =~= a);
            assert(b.take(b.len() as int) =~= b);
        },
        _ => {},
    }
}

// ---------------------------------------------------------------------------
// The definitions a schema names.
// ---------------------------------------------------------------------------

/// What comes before the first `/`.
pub open spec fn before_slash(s: Seq<char>) -> Seq<char>
    decreases s.len(),
{
    if s.len() == 0 || s[0] == '/' {
        Seq::empty()
    } else {
        seq![s[0]] + before_slash(s.drop_first())
    }
}

/// The definition a reference names: the first segment after `#/$defs/`,
/// unescaped; nothing for other references or an empty segment.
pub open spec fn ref_def_name(r: Seq<char>) -> Option<Seq<char>> {
    if text::has_prefix(r, "#/$defs/"@) {
        let name = before_slash(r.skip(8));
        if name.len() > 0 {
            Some(unescape_spec(name))
        } else {
            None
        }
    } else {
        None
    }
}

pub(crate) fn before_slash_exec(s: &Vec<char>, from: usize) -> (r: Vec<char>)
    requires
        from <= s@.len(),
    ensures
        r@ == before_slash(s@.skip(from as int)),
{
    let mut out: Vec<char> = Vec::new();
    let mut i: usize = from;
    assert(out@ + before_slash(s@.skip(i as int)) =~= before_slash(s@.skip(from as int)));
    while i < s.len() && s[i] != '/'
        invariant
            from <= i <= s@.len(),
            out@ + before_slash(s@.skip(i as int)) == before_slash(s@.skip(from as int)),
        decreases s@.len() - i,
    {
        let ghost rest = s@.skip(i as int);
        assert(rest[0] == s@[i as int]);
        assert(rest.drop_first() =~= s@.skip(i + 1));
        out.push(s[i]);
        assert(out@ + before_slash(s@.skip(i + 1)) =~= before_slash(s@.skip(from as int)));
        i = i + 1;
    }
    proof {
        let rest = s@.skip(i as int);
        if rest.len() > 0 {
            assert(rest[0] == s@[i as int]);
        }
        assert(before_slash(rest) =~= Seq::<char>::empty());
        assert(out@ + Seq::<char>::empty() =~= out@);
    }
    out
}

/// The definition a reference names (`ref_def_name`).
pub fn ref_def_name_exec(r: &str) -> (out: Option<String>)
    ensures
        crate::urls::opt_str_view(out) == ref_def_name(r@),
{
    let v = text::chars_of(r);
    let p = text::chars_of("#/$defs/");
    proof {
        reveal_strlit("#/$defs/");
    }
    if !text::vec_has_prefix(&v, &p) {
        return None;
    }
    let name = before_slash_exec(&v, 8);
    if name.len() == 0 {
        return None;
    }
    let u = refs::unescape(&name);
    Some(text::string_of(&u))
}

} // verus!
verus! {

/// The string `$ref` of an object, if any.
pub open spec fn ref_of(j: JsonView) -> Option<Seq<char>> {
    match j {
        JsonView::Object(ks, vs) => match obj_get(ks, vs, "$ref"@) {
            Some(JsonView::Str(r)) => Some(r),
            _ => None,
        },
        _ => None,
    }
}

/// The definitions a schema names (`ref_def_name` of each `$ref`), at any
/// depth, in document order; a name may come more than once.
pub open spec fn def_names_spec(j: JsonView) -> Seq<Seq<char>>
    decreases j, 0nat,
{
    match j {
        JsonView::Array(a) => def_names_items(a, a.len() as int),
        JsonView::Object(ks, vs) => {
            let own = match ref_of(j) {
                Some(r) => match ref_def_name(r) {
                    Some(n) => seq![n],
                    None => Seq::empty(),
                },
                None => Seq::empty(),
            };
            own + def_names_items(vs, vs.len() as int)
        },
        _ => Seq::empty(),
    }
}

pub open spec fn def_names_items(a: Seq<JsonView>, n: int) -> Seq<Seq<char>>
    decreases a, n,
{
    if n <= 0 || n > a.len() {
        Seq::empty()
    } else {
        def_names_items(a, n - 1) + def_names_spec(a[n - 1])
    }
}

pub(crate) fn own_ref(m: &Vec<Member>) -> (r: Option<String>)
    ensures
        crate::urls::opt_str_view(r) == ref_of(JsonView::Object(member_keys(m@), member_values(m@))),
{
    let o = Obj::of_members(m);
    match o.get("$ref") {
        Some(Json::Str(s)) => Some(s.clone()),
        _ => None,
    }
}

fn names_value(j: &Json, out: &mut Vec<String>)
    ensures
        strings_view(final(out)@) == strings_view(old(out)@) + def_names_spec(j@),
    decreases j, 2nat,
{
    match j {
        Json::Array(a) => {
            proof {
                assert(decreases_to!(*j => *a));
                assert(json::value_views(a@) =~= j@->Array_0);
            }
            names_array(a, out);
        },
        Json::Object(m) => {
            proof {
                assert(decreases_to!(*j => *m));
                assert(member_keys(m@) =~= j@->Object_0);
                assert(member_values(m@) =~= j@->Object_1);
            }
            let ghost o0 = strings_view(out@);
            match own_ref(m) {
                Some(r) => match ref_def_name_exec(r.as_str()) {
                    Some(n) => {
                        out.push(n);
                        assert(strings_view(out@) =~= o0.push(out@.last()@));
                    },
                    None => {},
                },
                None => {},
            }
            let ghost o1 = strings_view(out@);
            names_members(m, out);
            assert(strings_view(out@) =~= o0 + def_names_spec(j@));
        },
        _ => {
            assert(strings_view(out@) =~= strings_view(out@) + Seq::<Seq<char>>::empty());
        },
    }
}

fn names_array(a: &Vec<Json>, out: &mut Vec<String>)
    ensures
        strings_view(final(out)@) == strings_view(old(out)@) + def_names_items(
            json::value_views(a@),
            a@.len() as int,
        ),
    decreases a, 1nat,
{
    let ghost av = json::value_views(a@);
    let ghost o0 = strings_view(out@);
    let mut i: usize = 0;
    assert(o0 + Seq::<Seq<char>>::empty() =~= o0);
    while i < a.len()
        invariant
            av == json::value_views(a@),
            o0 == strings_view(old(out)@),
            i <= a@.len(),
            strings_view(out@) == o0 + def_names_items(av, i as int),
        decreases a@.len() - i,
    {
        proof {
            assert(decreases_to!(*a => a@[i as int]));
        }
        names_value(&a[i], out);
        assert(o0 + def_names_items(av, i + 1) =~= o0 + def_names_items(av, i as int)
            + def_names_spec(av[i as int]));
        i = i + 1;
    }
}

fn names_members(m: &Vec<Member>, out: &mut Vec<String>)
    ensures
        strings_view(final(out)@) == strings_view(old(out)@) + def_names_items(
            member_values(m@),
            m@.len() as int,
        ),
    decreases m, 1nat,
{
    let ghost vs = member_values(m@);
    let ghost o0 = strings_view(out@);
    let mut i: usize = 0;
    assert(o0 + Seq::<Seq<char>>::empty() =~= o0);
    while i < m.len()
        invariant
            vs == member_values(m@),
            o0 == strings_view(old(out)@),
            i <= m@.len(),
            strings_view(out@) == o0 + def_names_items(vs, i as int),
        decreases m@.len() - i,
    {
        proof {
            assert(decreases_to!(*m => m@[i as int]));
            assert(decreases_to!(m@[i as int] => m@[i as int].value));
        }
        names_value(&m[i].value, out);
        assert(o0 + def_names_items(vs, i + 1) =~= o0 + def_names_items(vs, i as int)
            + def_names_spec(vs[i as int]));
        i = i + 1;
    }
}

/// The definitions a schema names (`def_names_spec`).
pub fn gather_def_names(j: &Json) -> (r: Vec<String>)
    ensures
        strings_view(r@) == def_names_spec(j@),
{
    let mut out: Vec<String> = Vec::new();
    names_value(j, &mut out);
    assert(strings_view(out@) =~= def_names_spec(j@));
    out
}

} // verus!
verus! {

// ---------------------------------------------------------------------------
// After bundling.
// ---------------------------------------------------------------------------

/// A reference left dangling, given the names under the top-level `$defs`:
/// a `#/$defs/` reference whose first segment is not one of them, or a
/// reference into `#/components/` or `#/definitions/`.
pub open spec fn dangling_ref(r: Seq<char>, defs: Seq<Seq<char>>) -> bool {
    if text::has_prefix(r, "#/$defs/"@) {
        !defs.contains(before_slash(r.skip(8)))
    } else {
        text::has_prefix(r, "#/components/"@) || text::has_prefix(r, "#/definitions/"@)
    }
}

/// The dangling references of a schema, at any depth, in document order.
pub open spec fn dangling_spec(j: JsonView, defs: Seq<Seq<char>>) -> Seq<Seq<char>>
    decreases j, 0nat,
{
    match j {
        JsonView::Array(a) => dangling_items(a, a.len() as int, defs),
        JsonView::Object(ks, vs) => {
            let own = match ref_of(j) {
                Some(r) => if dangling_ref(r, defs) {
                    seq![r]
                } else {
                    Seq::empty()
                },
                None => Seq::empty(),
            };
            own + dangling_items(vs, vs.len() as int, defs)
        },
        _ => Seq::empty(),
    }
}

pub open spec fn dangling_items(a: Seq<JsonView>, n: int, defs: Seq<Seq<char>>) -> Seq<Seq<char>>
    decreases a, n,
{
    if n <= 0 || n > a.len() {
        Seq::empty()
    } else {
        dangling_items(a, n - 1, defs) + dangling_spec(a[n - 1], defs)
    }
}

/// The names under a schema's top-level `$defs`.
pub open spec fn top_defs(j: JsonView) -> Seq<Seq<char>> {
    match json::get_spec(j, "$defs"@) {
        Some(JsonView::Object(ks, _)) => ks,
        _ => Seq::empty(),
    }
}

fn dangling_ref_exec(r: &str, defs: &Vec<String>) -> (b: bool)
    ensures
        b == dangling_ref(r@, strings_view(defs@)),
{
    let v = text::chars_of(r);
    proof {
        reveal_strlit("#/$defs/");
    }
    if text::vec_has_prefix(&v, &text::chars_of("#/$defs/")) {
        let name = before_slash_exec(&v, 8);
        !crate::schema::contains_string(defs, text::string_of(&name).as_str())
    } else {
        text::vec_has_prefix(&v, &text::chars_of("#/components/")) || text::vec_has_prefix(
            &v,
            &text::chars_of("#/definitions/"),
        )
    }
}

fn dangling_value(j: &Json, defs: &Vec<String>, out: &mut Vec<String>)
    ensures
        strings_view(final(out)@) == strings_view(old(out)@) + dangling_spec(j@, strings_view(defs@)),
    decreases j, 2nat,
{
    let ghost dv = strings_view(defs@);
    match j {
        Json::Array(a) => {
            proof {
                assert(decreases_to!(*j => *a));
                assert(json::value_views(a@) =~= j@->Array_0);
            }
            dangling_array(a, defs, out);
        },
        Json::Object(m) => {
            proof {
                assert(decreases_to!(*j => *m));
                assert(member_keys(m@) =~= j@->Object_0);
                assert(member_values(m@) =~= j@->Object_1);
            }
            let ghost o0 = strings_view(out@);
            match own_ref(m) {
                Some(r) => {
                    if dangling_ref_exec(r.as_str(), defs) {
                        out.push(r);
                        assert(strings_view(out@) =~= o0.push(out@.last()@));
                    }
                },
                None => {},
            }
            dangling_members(m, defs, out);
            assert(strings_view(out@) =~= o0 + dangling_spec(j@, dv));
        },
        _ => {
            assert(strings_view(out@) =~= strings_view(out@) + Seq::<Seq<char>>::empty());
        },
    }
}

fn dangling_array(a: &Vec<Json>, defs: &Vec<String>, out: &mut Vec<String>)
    ensures
        strings_view(final(out)@) == strings_view(old(out)@) + dangling_items(
            json::value_views(a@),
            a@.len() as int,
            strings_view(defs@),
        ),
    decreases a, 1nat,
{
    let ghost av = json::value_views(a@);
    let ghost dv = strings_view(defs@);
    let ghost o0 = strings_view(out@);
    let mut i: usize = 0;
    assert(o0 + Seq::<Seq<char>>::empty() =~= o0);
    while i < a.len()
        invariant
            av == json::value_views(a@),
            dv == strings_view(defs@),
            o0 == strings_view(old(out)@),
            i <= a@.len(),
            strings_view(out@) == o0 + dangling_items(av, i as int, dv),
        decreases a@.len() - i,
    {
        proof {
            assert(decreases_to!(*a => a@[i as int]));
        }
        dangling_value(&a[i], defs, out);
        assert(o0 + dangling_items(av, i + 1, dv) =~= o0 + dangling_items(av, i as int, dv)
            + dangling_spec(av[i as int], dv));
        i = i + 1;
    }
}

fn dangling_members(m: &Vec<Member>, defs: &Vec<String>, out: &mut Vec<String>)
    ensures
        strings_view(final(out)@) == strings_view(old(out)@) + dangling_items(
            member_values(m@),
            m@.len() as int,
            strings_view(defs@),
        ),
    decreases m, 1nat,
{
    let ghost vs = member_values(m@);
    let ghost dv = strings_view(defs@);
    let ghost o0 = strings_view(out@);
    let mut i: usize = 0;
    assert(o0 + Seq::<Seq<char>>::empty() =~= o0);
    while i < m.len()
        invariant
            vs == member_values(m@),
            dv == strings_view(defs@),
            o0 == strings_view(old(out)@),
            i <= m@.len(),
            strings_view(out@) == o0 + dangling_items(vs, i as int, dv),
        decreases m@.len() - i,
    {
        proof {
            assert(decreases_to!(*m => m@[i as int]));
            assert(decreases_to!(m@[i as int] => m@[i as int].value));
        }
        dangling_value(&m[i].value, defs, out);
        assert(o0 + dangling_items(vs, i + 1, dv) =~= o0 + dangling_items(vs, i as int, dv)
            + dangling_spec(vs[i as int], dv));
        i = i + 1;
    }
}

/// The references a bundled schema leaves dangling (`dangling_spec`
/// against its top-level `$defs`).
pub fn dangling_defs(schema: &Json) -> (r: Vec<String>)
    ensures
        strings_view(r@) == dangling_spec(schema@, top_defs(schema@)),
{
    let defs: Vec<String> = match schema.get("$defs") {
        Some(Json::Object(m)) => {
            let o = Obj::of_members(m);
            proof {
                let dv = json::get_spec(schema@, "$defs"@)->Some_0;
                assert(dv->Object_0 =~= o.ks());
                assert(strings_view(o.keys@) =~= o.ks());
            }
            o.keys
        },
        _ => {
            assert(strings_view(Seq::<String>::empty()) =~= Seq::<Seq<char>>::empty());
            Vec::new()
        },
    };
    let mut out: Vec<String> = Vec::new();
    dangling_value(schema, &defs, &mut out);
    assert(strings_view(out@) =~= dangling_spec(schema@, top_defs(schema@)));
    out
}

/// Definitions merged into a schema object: into its `$defs` object, where
/// absent; else as a new `$defs`. Nothing when there are none.
pub open spec fn merge_defs_spec(ks: Seq<Seq<char>>, vs: Seq<JsonView>, dk: Seq<Seq<char>>, dv: Seq<JsonView>) -> Props {
    if dk.len() == 0 {
        (ks, vs)
    } else {
        match obj_get(ks, vs, "$defs"@) {
            Some(JsonView::Object(ek, ev)) => {
                let (mk, mv) = crate::schema::merge_absent(ek, ev, dk, dv);
                obj_insert(ks, vs, "$defs"@, JsonView::Object(mk, mv))
            },
            _ => obj_insert(ks, vs, "$defs"@, JsonView::Object(dk, dv)),
        }
    }
}

/// Merges definitions into a schema object (`merge_defs_spec`).
pub fn merge_defs_into(target: &mut Obj, incoming: Obj)
    requires
        old(target).wf(),
        incoming.wf(),
    ensures
        final(target).wf(),
        (final(target).ks(), final(target).vs()) == merge_defs_spec(
            old(target).ks(),
            old(target).vs(),
            incoming.ks(),
            incoming.vs(),
        ),
{
    if incoming.keys.len() == 0 {
        return;
    }
    let existing: Option<Obj> = match target.get("$defs") {
        Some(Json::Object(em)) => Some(Obj::of_members(em)),
        _ => None,
    };
    match existing {
        Some(mut e) => {
            proof {
                let pv = obj_get(target.ks(), target.vs(), "$defs"@)->Some_0;
                assert(pv->Object_0 =~= e.ks());
                assert(pv->Object_1 =~= e.vs());
            }
            crate::schema::merge_absent_into(&mut e, &incoming);
            target.insert("$defs", e.into_json());
        },
        None => {
            target.insert("$defs", incoming.into_json());
        },
    }
}

} // verus!
