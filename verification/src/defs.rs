//! The component definitions a schema needs before bundling, and the
//! definitions of a bundled schema that refer to each other in a loop.
use vstd::prelude::*;
use crate::bundle::{
    before_slash, before_slash_exec, def_names_spec, gather_def_names, own_ref, ref_of, rewrite_refs_spec,
    rewrite_schema_refs,
};
use crate::json::{self, count_less, find_key, obj_insert, Json, JsonView, Member, Obj};
use crate::schema::{contains_string, member_keys, member_values, strings_view};
use crate::text;

verus! {

// ---------------------------------------------------------------------------
// The definitions a value points at.
// ---------------------------------------------------------------------------

/// The definition a `#/$defs/` reference points at: its first segment as
/// written (not unescaped, possibly empty).
pub open spec fn def_target(r: Seq<char>) -> Option<Seq<char>> {
    if text::has_prefix(r, "#/$defs/"@) {
        Some(before_slash(r.skip(8)))
    } else {
        None
    }
}

/// The definitions a value points at (`def_target` of each `$ref`), at any
/// depth, in document order.
pub open spec fn targets_spec(j: JsonView) -> Seq<Seq<char>>
    decreases j, 0nat,
{
    match j {
        JsonView::Array(a) => targets_items(a, a.len() as int),
        JsonView::Object(ks, vs) => {
            let own = match ref_of(j) {
                Some(r) => match def_target(r) {
                    Some(n) => seq![n],
                    None => Seq::empty(),
                },
                None => Seq::empty(),
            };
            own + targets_items(vs, vs.len() as int)
        },
        _ => Seq::empty(),
    }
}

pub open spec fn targets_items(a: Seq<JsonView>, n: int) -> Seq<Seq<char>>
    decreases a, n,
{
    if n <= 0 || n > a.len() {
        Seq::empty()
    } else {
        targets_items(a, n - 1) + targets_spec(a[n - 1])
    }
}

fn target_exec(r: &str) -> (out: Option<String>)
    ensures
        crate::urls::opt_str_view(out) == def_target(r@),
{
    let v = text::chars_of(r);
    let p = text::chars_of("#/$defs/");
    proof {
        reveal_strlit("#/$defs/");
    }
    if !text::vec_has_prefix(&v, &p) {
        return None;
    }
    let name = before_slash_exec(&v, 8);
    Some(text::string_of(&name))
}

fn targets_value(j: &Json, out: &mut Vec<String>)
    ensures
        strings_view(final(out)@) == strings_view(old(out)@) + targets_spec(j@),
    decreases j, 2nat,
{
    match j {
        Json::Array(a) => {
            proof {
                assert(decreases_to!(*j => *a));
                assert(json::value_views(a@) =~= j@->Array_0);
            }
            targets_array(a, out);
        },
        Json::Object(m) => {
            proof {
                assert(decreases_to!(*j => *m));
                assert(member_keys(m@) =~= j@->Object_0);
                assert(member_values(m@) =~= j@->Object_1);
            }
            let ghost o0 = strings_view(out@);
            match own_ref(m) {
                Some(r) => match target_exec(r.as_str()) {
                    Some(n) => {
                        out.push(n);
                        assert(strings_view(out@) =~= o0.push(out@.last()@));
                    },
                    None => {},
                },
                None => {},
            }
            targets_members(m, out);
            assert(strings_view(out@) =~= o0 + targets_spec(j@));
        },
        _ => {
            assert(strings_view(out@) =~= strings_view(out@) + Seq::<Seq<char>>::empty());
        },
    }
}

fn targets_array(a: &Vec<Json>, out: &mut Vec<String>)
    ensures
        strings_view(final(out)@) == strings_view(old(out)@) + targets_items(
            json::value_views(a@),
            a@.len() as int,
        ),
    decreases a, 1nat,
{
    let ghost av = json::value_views(a@);
    let ghost o0 = strings_view(out@);
    let mut i: usize = 0;
    assert(o0 + Seq::<Seq<char>>::empty() =~= o0);
    while i < a.len()
        invariant
            av == json::value_views(a@),
            o0 == strings_view(old(out)@),
            i <= a@.len(),
            strings_view(out@) == o0 + targets_items(av, i as int),
        decreases a@.len() - i,
    {
        proof {
            assert(decreases_to!(*a => a@[i as int]));
        }
        targets_value(&a[i], out);
        assert(o0 + targets_items(av, i + 1) =~= o0 + targets_items(av, i as int) + targets_spec(
            av[i as int],
        ));
        i = i + 1;
    }
}

fn targets_members(m: &Vec<Member>, out: &mut Vec<String>)
    ensures
        strings_view(final(out)@) == strings_view(old(out)@) + targets_items(
            member_values(m@),
            m@.len() as int,
        ),
    decreases m, 1nat,
{
    let ghost vs = member_values(m@);
    let ghost o0 = strings_view(out@);
    let mut i: usize = 0;
    assert(o0 + Seq::<Seq<char>>::empty() =~= o0);
    while i < m.len()
        invariant
            vs == member_values(m@),
            o0 == strings_view(old(out)@),
            i <= m@.len(),
            strings_view(out@) == o0 + targets_items(vs, i as int),
        decreases m@.len() - i,
    {
        proof {
            assert(decreases_to!(*m => m@[i as int]));
            assert(decreases_to!(m@[i as int] => m@[i as int].value));
        }
        targets_value(&m[i].value, out);
        assert(o0 + targets_items(vs, i + 1) =~= o0 + targets_items(vs, i as int) + targets_spec(
            vs[i as int],
        ));
        i = i + 1;
    }
}

/// The definitions a value points at (`targets_spec`).
pub fn gather_targets(j: &Json) -> (r: Vec<String>)
    ensures
        strings_view(r@) == targets_spec(j@),
{
    let mut out: Vec<String> = Vec::new();
    targets_value(j, &mut out);
    assert(strings_view(out@) =~= targets_spec(j@));
    out
}

// ---------------------------------------------------------------------------
// Reference loops among definitions.
// ---------------------------------------------------------------------------

/// Definition `i` points at definition `j` (by name).
#[verifier::opaque]
pub open spec fn refers(ks: Seq<Seq<char>>, vs: Seq<JsonView>, i: int, j: int) -> bool {
    0 <= j < ks.len() && targets_spec(vs[i]).contains(ks[j])
}

/// A set of definitions each of which points at one in the set.
pub open spec fn self_referring(ks: Seq<Seq<char>>, vs: Seq<JsonView>, s: Set<int>) -> bool {
    forall|i: int|
        #[trigger] s.contains(i) ==> 0 <= i < ks.len() && exists|j: int| s.contains(j) && refers(ks, vs, i, j)
}

/// Some definitions refer to each other in a loop: a non-empty set of them
/// each points at one in the set (in a finite graph, the same as a cycle).
#[verifier::opaque]
pub open spec fn has_ref_loop(ks: Seq<Seq<char>>, vs: Seq<JsonView>) -> bool {
    exists|s: Set<int>, i: int| s.contains(i) && self_referring(ks, vs, s)
}

/// The definitions under a schema's top-level `$defs` refer to each other
/// in a loop; `false` without such an object.
pub open spec fn defs_cycle_spec(schema: JsonView) -> bool {
    match json::get_spec(schema, "$defs"@) {
        Some(JsonView::Object(ks, vs)) => has_ref_loop(ks, vs),
        _ => false,
    }
}

pub open spec fn alive_count(a: Seq<bool>) -> nat
    decreases a.len(),
{
    if a.len() == 0 {
        0
    } else {
        alive_count(a.drop_last()) + if a.last() {
            1nat
        } else {
            0nat
        }
    }
}

proof fn lemma_count_clear(a: Seq<bool>, i: int)
    requires
        0 <= i < a.len(),
        a[i],
    ensures
        alive_count(a.update(i, false)) + 1 == alive_count(a),
    decreases a.len(),
{
    if i == a.len() - 1 {
        assert(a.update(i, false).drop_last() =~= a.drop_last());
    } else {
        lemma_count_clear(a.drop_last(), i);
        assert(a.update(i, false).drop_last() =~= a.drop_last().update(i, false));
    }
}

proof fn lemma_count_bound(a: Seq<bool>)
    ensures
        alive_count(a) <= a.len(),
    decreases a.len(),
{
    if a.len() > 0 {
        lemma_count_bound(a.drop_last());
    }
}

/// Some definition `j` still in play that definition `i` points at.
pub open spec fn live_target(ks: Seq<Seq<char>>, vs: Seq<JsonView>, alive: Seq<bool>, i: int) -> bool {
    exists|j: int| 0 <= j < alive.len() && alive[j] && refers(ks, vs, i, j)
}

fn has_live_target(m: &Vec<Member>, tg: &Vec<String>, alive: &Vec<bool>) -> (r: bool)
    requires
        alive@.len() == m@.len(),
    ensures
        r == exists|j: int|
            0 <= j < m@.len() && alive@[j] && strings_view(tg@).contains(member_keys(m@)[j]),
{
    let ghost ks = member_keys(m@);
    let ghost tv = strings_view(tg@);
    let mut t: usize = 0;
    while t < tg.len()
        invariant
            ks == member_keys(m@),
            tv == strings_view(tg@),
            alive@.len() == m@.len(),
            t <= tg@.len(),
            forall|a: int, k: int| 0 <= a < t && 0 <= k < m@.len() && alive@[k] ==> tv[a] != ks[k],
        decreases tg@.len() - t,
    {
        let mut k: usize = 0;
        while k < m.len()
            invariant
                ks == member_keys(m@),
                tv == strings_view(tg@),
                alive@.len() == m@.len(),
                t < tg@.len(),
                k <= m@.len(),
                forall|a: int, k2: int| 0 <= a < t && 0 <= k2 < m@.len() && alive@[k2] ==> tv[a] != ks[k2],
                forall|k2: int| 0 <= k2 < k && alive@[k2] ==> tv[t as int] != ks[k2],
            decreases m@.len() - k,
        {
            if alive[k] && text::str_eq(m[k].key.as_str(), tg[t].as_str()) {
                assert(tv[t as int] == ks[k as int]);
                assert(tv.contains(ks[k as int]));
                return true;
            }
            k = k + 1;
        }
        t = t + 1;
    }
    proof {
        assert forall|j: int| 0 <= j < m@.len() && alive@[j] implies !tv.contains(ks[j]) by {
            if tv.contains(ks[j]) {
                let a = choose|a: int| 0 <= a < tv.len() && tv[a] == ks[j];
                assert(tv[a] != ks[j]);
            }
        }
    }
    false
}

/// What setting aside leaves: each remaining definition points at one that
/// remains, and every self-referring set remains.
#[verifier::opaque]
pub open spec fn settled(ks: Seq<Seq<char>>, vs: Seq<JsonView>, alive: Seq<bool>) -> bool {
    &&& alive.len() == ks.len()
    &&& forall|k: int| 0 <= k < alive.len() && alive[k] ==> live_target(ks, vs, alive, k)
    &&& forall|s: Set<int>, k: int| #[trigger] self_referring(ks, vs, s) && #[trigger] s.contains(k) ==> alive[k]
}

/// Sets aside the definitions that point at no definition still in play,
/// until none is left to set aside. What remains each points at one that
/// remains, and every self-referring set remains.
fn settle(m: &Vec<Member>, targets: &Vec<Vec<String>>) -> (alive: Vec<bool>)
    requires
        targets@.len() == m@.len(),
        forall|k: int|
            0 <= k < m@.len() ==> strings_view(#[trigger] targets@[k]@) == targets_spec(
                member_values(m@)[k],
            ),
    ensures
        alive@.len() == m@.len(),
        settled(member_keys(m@), member_values(m@), alive@),
{
    let ghost ks = member_keys(m@);
    let ghost vs = member_values(m@);
    let n = m.len();
    let mut alive: Vec<bool> = Vec::new();
    let mut i: usize = 0;
    while i < n
        invariant
            n == m@.len(),
            i <= n,
            alive@.len() == i,
            alive_count(alive@) == i,
            forall|k: int| 0 <= k < i ==> alive@[k],
        decreases n - i,
    {
        let ghost before = alive@;
        alive.push(true);
        assert(alive@.drop_last() =~= before);
        i = i + 1;
    }
    let mut count: usize = n;
    let mut done = false;
    while !done
        invariant
            n == m@.len(),
            ks == member_keys(m@),
            vs == member_values(m@),
            targets@.len() == n,
            alive@.len() == n,
            count == alive_count(alive@),
            forall|k: int| 0 <= k < n ==> strings_view(#[trigger] targets@[k]@) == targets_spec(vs[k]),
            forall|s: Set<int>, k: int| #[trigger] self_referring(ks, vs, s) && #[trigger] s.contains(k) ==> alive@[k],
            done ==> forall|k: int| 0 <= k < n && alive@[k] ==> live_target(ks, vs, alive@, k),
        decreases count + if done {
            0int
        } else {
            1int
        },
    {
        let ghost start = alive@;
        let ghost count0 = count;
        let mut removed = false;
        let mut i: usize = 0;
        while i < n
            invariant
                n == m@.len(),
                ks == member_keys(m@),
                vs == member_values(m@),
                targets@.len() == n,
                alive@.len() == n,
                i <= n,
                count == alive_count(alive@),
                forall|k: int| 0 <= k < n ==> strings_view(#[trigger] targets@[k]@) == targets_spec(vs[k]),
                forall|s: Set<int>, k: int|
                    #[trigger] self_referring(ks, vs, s) && #[trigger] s.contains(k) ==> alive@[k],
                !removed ==> alive@ == start && count == count0,
                removed ==> count < count0,
                !removed ==> forall|k: int| 0 <= k < i && alive@[k] ==> live_target(ks, vs, alive@, k),
            decreases n - i,
        {
            if alive[i] {
                let keep = has_live_target(m, &targets[i], &alive);
                proof {
                    reveal(refers);
                    assert(strings_view(targets@[i as int]@) == targets_spec(vs[i as int]));
                    if keep {
                        let j = choose|j: int|
                            0 <= j < m@.len() && alive@[j] && strings_view(targets@[i as int]@).contains(
                                member_keys(m@)[j],
                            );
                        assert(refers(ks, vs, i as int, j));
                    }
                }
                if !keep {
                    proof {
                        reveal(refers);
                        assert forall|s: Set<int>, k: int|
                            #[trigger] self_referring(ks, vs, s) && #[trigger] s.contains(k) implies k != i by {
                            if k == i {
                                let j = choose|j: int| s.contains(j) && refers(ks, vs, i as int, j);
                                assert(alive@[j]);
                                assert(strings_view(targets@[i as int]@).contains(ks[j]));
                            }
                        }
                        lemma_count_clear(alive@, i as int);
                    }
                    alive.set(i, false);
                    count = count - 1;
                    removed = true;
                } else {
                    assert(live_target(ks, vs, alive@, i as int));
                }
            }
            i = i + 1;
        }
        if !removed {
            done = true;
        }
    }
    proof {
        reveal(settled);
    }
    alive
}

/// The definitions under a schema's top-level `$defs` refer to each other
/// in a loop (`defs_cycle_spec`).
pub fn defs_have_cycle(schema: &Json) -> (r: bool)
    ensures
        r == defs_cycle_spec(schema@),
{
    let m = match schema.get("$defs") {
        Some(Json::Object(m)) => m,
        _ => return false,
    };
    let ghost ks = member_keys(m@);
    let ghost vs = member_values(m@);
    proof {
        let dv = json::get_spec(schema@, "$defs"@)->Some_0;
        assert(ks =~= dv->Object_0);
        assert(vs =~= dv->Object_1);
    }
    let n = m.len();
    let mut targets: Vec<Vec<String>> = Vec::new();
    let mut i: usize = 0;
    while i < n
        invariant
            n == m@.len(),
            vs == member_values(m@),
            i <= n,
            targets@.len() == i,
            forall|k: int| 0 <= k < i ==> strings_view(#[trigger] targets@[k]@) == targets_spec(vs[k]),
        decreases n - i,
    {
        targets.push(gather_targets(&m[i].value));
        i = i + 1;
    }
    let alive = settle(m, &targets);
    assert(defs_cycle_spec(schema@) == has_ref_loop(ks, vs));
    let mut k: usize = 0;
    while k < n
        invariant
            n == m@.len(),
            ks == member_keys(m@),
            vs == member_values(m@),
            alive@.len() == n,
            settled(ks, vs, alive@),
            defs_cycle_spec(schema@) == has_ref_loop(ks, vs),
            k <= n,
            forall|k2: int| 0 <= k2 < k ==> !alive@[k2],
        decreases n - k,
    {
        if alive[k] {
            proof {
                lemma_remaining_loop(ks, vs, alive@, k as int);
            }
            return true;
        }
        k = k + 1;
    }
    proof {
        lemma_none_remaining(ks, vs, alive@);
    }
    false
}

proof fn lemma_settled_len(ks: Seq<Seq<char>>, vs: Seq<JsonView>, alive: Seq<bool>)
    requires
        settled(ks, vs, alive),
    ensures
        alive.len() == ks.len(),
{
    reveal(settled);
}

proof fn lemma_settled_live(ks: Seq<Seq<char>>, vs: Seq<JsonView>, alive: Seq<bool>, x: int)
    requires
        settled(ks, vs, alive),
        0 <= x < alive.len(),
        alive[x],
    ensures
        live_target(ks, vs, alive, x),
{
    reveal(settled);
}

proof fn lemma_remaining_loop(ks: Seq<Seq<char>>, vs: Seq<JsonView>, alive: Seq<bool>, k: int)
    requires
        settled(ks, vs, alive),
        0 <= k < alive.len(),
        alive[k],
    ensures
        has_ref_loop(ks, vs),
{
    let s = Set::new(|x: int| 0 <= x < alive.len() && alive[x]);
    lemma_settled_len(ks, vs, alive);
    assert forall|x: int| #[trigger] s.contains(x) implies 0 <= x < ks.len() && exists|j: int|
        s.contains(j) && refers(ks, vs, x, j) by {
        lemma_settled_live(ks, vs, alive, x);
        let j = choose|j: int| 0 <= j < alive.len() && alive[j] && refers(ks, vs, x, j);
        assert(s.contains(j));
    }
    assert(self_referring(ks, vs, s));
    assert(s.contains(k));
    reveal(has_ref_loop);
}

proof fn lemma_none_remaining(ks: Seq<Seq<char>>, vs: Seq<JsonView>, alive: Seq<bool>)
    requires
        settled(ks, vs, alive),
        forall|x: int| 0 <= x < alive.len() ==> !alive[x],
    ensures
        !has_ref_loop(ks, vs),
{
    reveal(settled);
    reveal(has_ref_loop);
    if has_ref_loop(ks, vs) {
        let (s, x) = choose|s: Set<int>, x: int| s.contains(x) && self_referring(ks, vs, s);
        assert(alive[x]);
        assert(0 <= x < ks.len());
    }
}

// ---------------------------------------------------------------------------
// The definitions a schema needs.
// ---------------------------------------------------------------------------

/// The `components.schemas` object of a document, if any.
pub open spec fn schemas_of(doc: JsonView) -> Option<JsonView> {
    match json::get_spec(doc, "components"@) {
        Some(c) => json::get_spec(c, "schemas"@),
        None => None,
    }
}

pub open spec fn member_of(o: Option<JsonView>, name: Seq<char>) -> Option<JsonView> {
    match o {
        Some(v) => json::get_spec(v, name),
        None => None,
    }
}

/// A component schema by name: under `components.schemas`, else under
/// `definitions`.
pub open spec fn component(doc: JsonView, name: Seq<char>) -> Option<JsonView> {
    match member_of(schemas_of(doc), name) {
        Some(v) => Some(v),
        None => member_of(json::get_spec(doc, "definitions"@), name),
    }
}

/// The definitions a component names once its references are rewritten.
pub open spec fn needs(doc: JsonView, name: Seq<char>) -> Seq<Seq<char>> {
    def_names_spec(rewrite_refs_spec(component(doc, name)->Some_0))
}

/// A set of names that holds every component the schema names and every
/// component a member of the set names.
pub open spec fn closed_for(doc: JsonView, schema: JsonView, c: Set<Seq<char>>) -> bool {
    &&& forall|n: Seq<char>|
        #[trigger] def_names_spec(schema).contains(n) && component(doc, n) is Some ==> c.contains(n)
    &&& forall|k: Seq<char>, n: Seq<char>|
        c.contains(k) && component(doc, k) is Some && #[trigger] needs(doc, k).contains(n) && component(
            doc,
            n,
        ) is Some ==> c.contains(n)
}

/// A definition of the result: the component of that name with its
/// references rewritten.
pub open spec fn rewritten_component(doc: JsonView, k: Seq<char>, v: JsonView) -> bool {
    component(doc, k) is Some && v == rewrite_refs_spec(component(doc, k)->Some_0)
}

pub open spec fn obj_keys(o: Option<JsonView>) -> Seq<Seq<char>> {
    match o {
        Some(JsonView::Object(ks, _)) => ks,
        _ => Seq::empty(),
    }
}

/// Every component name is a key of one of the two objects.
pub open spec fn component_names(doc: JsonView) -> Seq<Seq<char>> {
    obj_keys(schemas_of(doc)) + obj_keys(json::get_spec(doc, "definitions"@))
}

pub(crate) proof fn lemma_found_key(ks: Seq<Seq<char>>, key: Seq<char>)
    requires
        find_key(ks, key) is Some,
    ensures
        ks.contains(key),
{
    if !ks.contains(key) {
        assert(!(exists|i: int| 0 <= i < ks.len() && ks[i] == key));
    }
}

proof fn lemma_component_named(doc: JsonView, name: Seq<char>)
    requires
        component(doc, name) is Some,
    ensures
        component_names(doc).contains(name),
{
    let a = obj_keys(schemas_of(doc));
    let b = obj_keys(json::get_spec(doc, "definitions"@));
    let all = component_names(doc);
    if member_of(schemas_of(doc), name) is Some {
        lemma_found_key(a, name);
        let i = choose|i: int| 0 <= i < a.len() && a[i] == name;
        assert(all[i] == name);
    } else {
        lemma_found_key(b, name);
        let i = choose|i: int| 0 <= i < b.len() && b[i] == name;
        assert(all[a.len() + i] == name);
    }
}

proof fn lemma_distinct_within(s: Seq<Seq<char>>, c: Seq<Seq<char>>)
    requires
        s.no_duplicates(),
        forall|x: Seq<char>| s.contains(x) ==> c.contains(x),
    ensures
        s.len() <= c.len(),
{
    broadcast use vstd::seq_lib::seq_to_set_is_finite;

    s.unique_seq_to_set();
    c.lemma_cardinality_of_set();
    assert(s.to_set().subset_of(c.to_set()));
    vstd::set_lib::lemma_len_subset(s.to_set(), c.to_set());
}

pub(crate) proof fn lemma_count_less_bound(keys: Seq<Seq<char>>, key: Seq<char>)
    ensures
        count_less(keys, key) <= keys.len(),
    decreases keys.len(),
{
    if keys.len() > 0 {
        lemma_count_less_bound(keys.drop_last(), key);
    }
}

/// Keys in strictly increasing order.
pub open spec fn keys_sorted(ks: Seq<Seq<char>>) -> bool {
    forall|i: int, j: int| 0 <= i < j < ks.len() ==> crate::names::seq_lt(ks[i], ks[j])
}

pub(crate) proof fn lemma_count_less_sorted(ks: Seq<Seq<char>>, key: Seq<char>, i: int)
    requires
        keys_sorted(ks),
        0 <= i < ks.len(),
    ensures
        (i < count_less(ks, key)) <==> crate::names::seq_lt(ks[i], key),
    decreases ks.len(),
{
    let m = ks.len() - 1;
    let rest = ks.drop_last();
    lemma_count_less_bound(rest, key);
    assert(keys_sorted(rest));
    if crate::names::seq_lt(ks[m], key) && m > 0 {
        lemma_count_less_sorted(rest, key, m - 1);
        crate::names::lemma_seq_lt_trans(ks[m - 1], ks[m], key);
    }
    if i < m {
        lemma_count_less_sorted(rest, key, i);
        if crate::names::seq_lt(ks[m], key) {
            crate::names::lemma_seq_lt_trans(ks[i], ks[m], key);
        }
    }
}

pub(crate) proof fn lemma_insert_sorted(ks: Seq<Seq<char>>, key: Seq<char>)
    requires
        keys_sorted(ks),
        !ks.contains(key),
    ensures
        keys_sorted(ks.insert(count_less(ks, key) as int, key)),
{
    let p = count_less(ks, key) as int;
    lemma_count_less_bound(ks, key);
    let k2 = ks.insert(p, key);
    assert forall|i: int, j: int| 0 <= i < j < k2.len() implies crate::names::seq_lt(k2[i], k2[j]) by {
        if i == p {
            lemma_count_less_sorted(ks, key, j - 1);
            assert(ks[j - 1] != key);
            crate::names::lemma_seq_lt_total(ks[j - 1], key);
        } else if j == p {
            lemma_count_less_sorted(ks, key, i);
        } else {
            let a = if i < p { i } else { i - 1 };
            let b = if j < p { j } else { j - 1 };
            assert(k2[i] == ks[a] && k2[j] == ks[b]);
        }
    }
}

/// Inserting a new key into an object: one more member, the same pairs and
/// the new one, still without duplicate keys.
proof fn lemma_insert_new(
    ks: Seq<Seq<char>>,
    vs: Seq<JsonView>,
    key: Seq<char>,
    val: JsonView,
    p: spec_fn(Seq<char>, JsonView) -> bool,
)
    requires
        ks.len() == vs.len(),
        ks.no_duplicates(),
        find_key(ks, key) is None,
        forall|i: int| 0 <= i < ks.len() ==> p(ks[i], vs[i]),
        p(key, val),
    ensures
        ({
            let (k2, v2) = obj_insert(ks, vs, key, val);
            &&& k2.len() == ks.len() + 1
            &&& v2.len() == k2.len()
            &&& k2.no_duplicates()
            &&& forall|x: Seq<char>| k2.contains(x) <==> (ks.contains(x) || x == key)
            &&& forall|i: int| 0 <= i < k2.len() ==> p(k2[i], v2[i])
        }),
{
    reveal(obj_insert);
    let pos = count_less(ks, key) as int;
    lemma_count_less_bound(ks, key);
    let k2 = ks.insert(pos, key);
    let v2 = vs.insert(pos, val);
    assert(!ks.contains(key));
    assert forall|i: int| 0 <= i < k2.len() implies p(k2[i], v2[i]) by {
        if i < pos {
            assert(k2[i] == ks[i] && v2[i] == vs[i]);
        } else if i > pos {
            assert(k2[i] == ks[i - 1] && v2[i] == vs[i - 1]);
        }
    }
    assert forall|x: Seq<char>| k2.contains(x) <==> (ks.contains(x) || x == key) by {
        if k2.contains(x) {
            let i = choose|i: int| 0 <= i < k2.len() && k2[i] == x;
            if i < pos {
                assert(ks[i] == x);
            } else if i > pos {
                assert(ks[i - 1] == x);
            }
        }
        if ks.contains(x) {
            let j = choose|j: int| 0 <= j < ks.len() && ks[j] == x;
            if j < pos {
                assert(k2[j] == x);
            } else {
                assert(k2[j + 1] == x);
            }
        }
        if x == key {
            assert(k2[pos] == x);
        }
    }
    assert forall|i: int, j: int| 0 <= i < k2.len() && 0 <= j < k2.len() && i != j implies k2[i] != k2[j] by {
        if i != pos && j != pos {
            let a = if i < pos { i } else { i - 1 };
            let b = if j < pos { j } else { j - 1 };
            assert(k2[i] == ks[a] && k2[j] == ks[b]);
        } else if i == pos {
            let b = if j < pos { j } else { j - 1 };
            assert(k2[j] == ks[b]);
        } else {
            let a = if i < pos { i } else { i - 1 };
            assert(k2[i] == ks[a]);
        }
    }
}

fn component_exec<'a>(doc: &'a Json, name: &str) -> (r: Option<&'a Json>)
    ensures
        json::opt_view(r) == component(doc@, name@),
{
    let in_schemas = match doc.get("components") {
        Some(c) => match c.get("schemas") {
            Some(s) => s.get(name),
            None => None,
        },
        None => None,
    };
    match in_schemas {
        Some(v) => Some(v),
        None => match doc.get("definitions") {
            Some(d) => d.get(name),
            None => None,
        },
    }
}

/// The names of `nv` not in `ks` and other than `name`, in order.
pub open spec fn fresh_names(nv: Seq<Seq<char>>, ks: Seq<Seq<char>>, name: Seq<char>) -> Seq<Seq<char>>
    decreases nv.len(),
{
    if nv.len() == 0 {
        Seq::empty()
    } else {
        let x = nv.last();
        fresh_names(nv.drop_last(), ks, name) + if !ks.contains(x) && x != name {
            seq![x]
        } else {
            Seq::empty()
        }
    }
}

proof fn lemma_fresh_names(nv: Seq<Seq<char>>, ks: Seq<Seq<char>>, name: Seq<char>, x: Seq<char>)
    ensures
        fresh_names(nv, ks, name).contains(x) <==> (nv.contains(x) && !ks.contains(x) && x != name),
    decreases nv.len(),
{
    if nv.len() > 0 {
        let r = fresh_names(nv.drop_last(), ks, name);
        lemma_fresh_names(nv.drop_last(), ks, name, x);
        let last = nv.last();
        let tail: Seq<Seq<char>> = if !ks.contains(last) && last != name {
            seq![last]
        } else {
            Seq::empty()
        };
        assert(fresh_names(nv, ks, name) == r + tail);
        if (r + tail).contains(x) {
            let i = choose|i: int| 0 <= i < (r + tail).len() && (r + tail)[i] == x;
            if i < r.len() {
                assert(r[i] == x);
                let j = choose|j: int| 0 <= j < nv.drop_last().len() && nv.drop_last()[j] == x;
                assert(nv[j] == x);
            } else {
                assert(nv[nv.len() - 1] == x);
            }
        }
        if nv.contains(x) && !ks.contains(x) && x != name {
            let j = choose|j: int| 0 <= j < nv.len() && nv[j] == x;
            if j == nv.len() - 1 {
                assert((r + tail)[r.len() as int] == x);
            } else {
                assert(nv.drop_last()[j] == x);
                let i = choose|i: int| 0 <= i < r.len() && r[i] == x;
                assert((r + tail)[i] == x);
            }
        }
    }
}

/// Pushes the names not yet defined and other than `name`.
fn push_new(stack: &mut Vec<String>, nested: &Vec<String>, defs: &Obj, name: &str)
    requires
        defs.wf(),
    ensures
        strings_view(final(stack)@) == strings_view(old(stack)@) + fresh_names(
            strings_view(nested@),
            defs.ks(),
            name@,
        ),
{
    let ghost s0 = strings_view(stack@);
    let ghost nv = strings_view(nested@);
    let mut t: usize = 0;
    assert(nv.take(0) =~= Seq::<Seq<char>>::empty());
    assert(s0 + Seq::<Seq<char>>::empty() =~= s0);
    while t < nested.len()
        invariant
            defs.wf(),
            s0 == strings_view(old(stack)@),
            nv == strings_view(nested@),
            t <= nested@.len(),
            strings_view(stack@) == s0 + fresh_names(nv.take(t as int), defs.ks(), name@),
        decreases nested@.len() - t,
    {
        let ghost before = strings_view(stack@);
        assert(strings_view(defs.keys@) =~= defs.ks());
        let fresh = !contains_string(&defs.keys, nested[t].as_str()) && !text::str_eq(nested[t].as_str(), name);
        assert(nv.take(t + 1).drop_last() =~= nv.take(t as int));
        assert(nv.take(t + 1).last() == nv[t as int]);
        if fresh {
            stack.push(nested[t].clone());
            assert(strings_view(stack@) =~= before.push(nv[t as int]));
        }
        assert(strings_view(stack@) =~= s0 + fresh_names(nv.take(t + 1), defs.ks(), name@));
        t = t + 1;
    }
    assert(nv.take(t as int) =~= nv);
}

/// The collected definitions: rewritten components, without duplicate
/// names, no more than there are component names.
#[verifier::opaque]
pub open spec fn collect_shape(d: JsonView, ks: Seq<Seq<char>>, vs: Seq<JsonView>) -> bool {
    &&& ks.len() == vs.len()
    &&& ks.no_duplicates()
    &&& ks.len() <= component_names(d).len()
    &&& keys_sorted(ks)
    &&& forall|i: int| 0 <= i < ks.len() ==> rewritten_component(d, ks[i], vs[i])
}

/// Every needed name with a component is collected or pending on `st`.
#[verifier::opaque]
pub open spec fn collect_pending(d: JsonView, schema: JsonView, ks: Seq<Seq<char>>, st: Seq<Seq<char>>) -> bool {
    &&& forall|n: Seq<char>|
        #[trigger] def_names_spec(schema).contains(n) && component(d, n) is Some ==> ks.contains(n)
            || st.contains(n)
    &&& forall|k: Seq<char>, n: Seq<char>|
        ks.contains(k) && #[trigger] needs(d, k).contains(n) && component(d, n) is Some ==> ks.contains(n)
            || st.contains(n)
}

/// Every set closed for the schema holds what was collected and what is
/// pending.
#[verifier::opaque]
pub open spec fn collect_least(d: JsonView, schema: JsonView, ks: Seq<Seq<char>>, st: Seq<Seq<char>>) -> bool {
    forall|c: Set<Seq<char>>|
        #[trigger] closed_for(d, schema, c) ==> (forall|k: Seq<char>| ks.contains(k) ==> c.contains(k)) && (
        forall|x: Seq<char>| st.contains(x) && component(d, x) is Some ==> c.contains(x))
}

/// What collecting keeps true.
pub open spec fn collecting(
    d: JsonView,
    schema: JsonView,
    ks: Seq<Seq<char>>,
    vs: Seq<JsonView>,
    st: Seq<Seq<char>>,
) -> bool {
    &&& collect_shape(d, ks, vs)
    &&& collect_pending(d, schema, ks, st)
    &&& collect_least(d, schema, ks, st)
}

proof fn lemma_collect_start(d: JsonView, schema: JsonView)
    ensures
        collecting(d, schema, Seq::empty(), Seq::empty(), def_names_spec(schema)),
{
    reveal(collect_shape);
    reveal(collect_pending);
    reveal(collect_least);
}

proof fn lemma_pushed(st: Seq<Seq<char>>, name: Seq<char>, x: Seq<char>)
    ensures
        st.push(name).contains(x) <==> (st.contains(x) || x == name),
{
    let s1 = st.push(name);
    if s1.contains(x) && x != name {
        let i = choose|i: int| 0 <= i < s1.len() && s1[i] == x;
        assert(st[i] == x);
    }
    if st.contains(x) {
        let i = choose|i: int| 0 <= i < st.len() && st[i] == x;
        assert(s1[i] == x);
    }
    if x == name {
        assert(s1[st.len() as int] == x);
    }
}

proof fn lemma_joined(a: Seq<Seq<char>>, b: Seq<Seq<char>>, x: Seq<char>)
    ensures
        (a + b).contains(x) <==> (a.contains(x) || b.contains(x)),
{
    let s = a + b;
    if s.contains(x) {
        let i = choose|i: int| 0 <= i < s.len() && s[i] == x;
        if i < a.len() {
            assert(a[i] == x);
        } else {
            assert(b[i - a.len()] == x);
        }
    }
    if a.contains(x) {
        let i = choose|i: int| 0 <= i < a.len() && a[i] == x;
        assert(s[i] == x);
    }
    if b.contains(x) {
        let i = choose|i: int| 0 <= i < b.len() && b[i] == x;
        assert(s[a.len() + i] == x);
    }
}

proof fn lemma_collect_skip(
    d: JsonView,
    schema: JsonView,
    ks: Seq<Seq<char>>,
    vs: Seq<JsonView>,
    st: Seq<Seq<char>>,
    name: Seq<char>,
)
    requires
        collecting(d, schema, ks, vs, st.push(name)),
        ks.contains(name) || component(d, name) is None,
    ensures
        collecting(d, schema, ks, vs, st),
{
    reveal(collect_pending);
    reveal(collect_least);
    assert forall|x: Seq<char>| #[trigger] st.push(name).contains(x) <==> (st.contains(x) || x == name) by {
        lemma_pushed(st, name, x);
    }
}

proof fn lemma_add_shape(d: JsonView, ks: Seq<Seq<char>>, vs: Seq<JsonView>, name: Seq<char>, rv: JsonView)
    requires
        collect_shape(d, ks, vs),
        !ks.contains(name),
        component(d, name) is Some,
        rv == rewrite_refs_spec(component(d, name)->Some_0),
    ensures
        ({
            let (k1, v1) = obj_insert(ks, vs, name, rv);
            &&& k1.len() == ks.len() + 1
            &&& collect_shape(d, k1, v1)
            &&& forall|x: Seq<char>| #[trigger] k1.contains(x) <==> (ks.contains(x) || x == name)
        }),
{
    reveal(collect_shape);
    let p = |k: Seq<char>, v: JsonView| rewritten_component(d, k, v);
    lemma_insert_new(ks, vs, name, rv, p);
    lemma_insert_sorted(ks, name);
    assert(obj_insert(ks, vs, name, rv).0 == ks.insert(count_less(ks, name) as int, name)) by {
        reveal(obj_insert);
    }
    let (k1, v1) = obj_insert(ks, vs, name, rv);
    assert forall|x: Seq<char>| k1.contains(x) implies component_names(d).contains(x) by {
        if x != name {
            let i = choose|i: int| 0 <= i < ks.len() && ks[i] == x;
            assert(rewritten_component(d, ks[i], vs[i]));
        }
        lemma_component_named(d, x);
    }
    lemma_distinct_within(k1, component_names(d));
    assert forall|i: int| 0 <= i < k1.len() implies rewritten_component(d, k1[i], v1[i]) by {
        assert(p(k1[i], v1[i]));
    }
}

proof fn lemma_add_pending(
    d: JsonView,
    schema: JsonView,
    ks: Seq<Seq<char>>,
    k1: Seq<Seq<char>>,
    st: Seq<Seq<char>>,
    name: Seq<char>,
)
    requires
        collect_pending(d, schema, ks, st.push(name)),
        forall|x: Seq<char>| #[trigger] k1.contains(x) <==> (ks.contains(x) || x == name),
    ensures
        collect_pending(d, schema, k1, st + fresh_names(needs(d, name), ks, name)),
{
    reveal(collect_pending);
    let fr = fresh_names(needs(d, name), ks, name);
    let st2 = st + fr;
    assert forall|x: Seq<char>| #[trigger] st.push(name).contains(x) <==> (st.contains(x) || x == name) by {
        lemma_pushed(st, name, x);
    }
    assert forall|x: Seq<char>| #[trigger] st2.contains(x) <==> (st.contains(x) || fr.contains(x)) by {
        lemma_joined(st, fr, x);
    }
    assert forall|k: Seq<char>, n: Seq<char>|
        k1.contains(k) && #[trigger] needs(d, k).contains(n) && component(d, n) is Some implies k1.contains(n)
            || st2.contains(n) by {
        if k == name {
            lemma_fresh_names(needs(d, name), ks, name, n);
        }
    }
}

proof fn lemma_add_least(
    d: JsonView,
    schema: JsonView,
    ks: Seq<Seq<char>>,
    k1: Seq<Seq<char>>,
    st: Seq<Seq<char>>,
    name: Seq<char>,
)
    requires
        collect_least(d, schema, ks, st.push(name)),
        component(d, name) is Some,
        forall|x: Seq<char>| #[trigger] k1.contains(x) <==> (ks.contains(x) || x == name),
    ensures
        collect_least(d, schema, k1, st + fresh_names(needs(d, name), ks, name)),
{
    reveal(collect_least);
    let fr = fresh_names(needs(d, name), ks, name);
    let st2 = st + fr;
    assert forall|x: Seq<char>| #[trigger] st.push(name).contains(x) <==> (st.contains(x) || x == name) by {
        lemma_pushed(st, name, x);
    }
    assert forall|x: Seq<char>| #[trigger] st2.contains(x) <==> (st.contains(x) || fr.contains(x)) by {
        lemma_joined(st, fr, x);
    }
    assert forall|c: Set<Seq<char>>| #[trigger] closed_for(d, schema, c) implies (forall|k: Seq<char>|
        k1.contains(k) ==> c.contains(k)) && (forall|x: Seq<char>|
        st2.contains(x) && component(d, x) is Some ==> c.contains(x)) by {
        assert(st.push(name).contains(name));
        assert(c.contains(name));
        assert forall|x: Seq<char>| st2.contains(x) && component(d, x) is Some implies c.contains(x) by {
            if !st.contains(x) {
                lemma_fresh_names(needs(d, name), ks, name, x);
                assert(needs(d, name).contains(x));
            }
        }
    }
}

proof fn lemma_collect_done(d: JsonView, schema: JsonView, ks: Seq<Seq<char>>, vs: Seq<JsonView>)
    requires
        collecting(d, schema, ks, vs, Seq::empty()),
    ensures
        ks.len() == vs.len(),
        ks.no_duplicates(),
        keys_sorted(ks),
        forall|i: int| 0 <= i < ks.len() ==> rewritten_component(d, ks[i], vs[i]),
        closed_for(d, schema, ks.to_set()),
        forall|c: Set<Seq<char>>| closed_for(d, schema, c) ==> ks.to_set().subset_of(c),
{
    reveal(collect_shape);
    reveal(collect_pending);
    reveal(collect_least);
    assert forall|c: Set<Seq<char>>| closed_for(d, schema, c) implies ks.to_set().subset_of(c) by {
        assert(closed_for(d, schema, c));
    }
}

/// The component definitions a schema needs (its references already
/// rewritten): the least set of names that holds every component the schema
/// names and every component those name, in key order, each with its
/// definition rewritten. Names without a component are left out.
#[verifier::spinoff_prover]
pub fn collect_needed_defs(doc: &Json, schema: &Json) -> (defs: Obj)
    ensures
        defs.wf(),
        defs.ks().no_duplicates(),
        keys_sorted(defs.ks()),
        forall|i: int| 0 <= i < defs.ks().len() ==> rewritten_component(doc@, defs.ks()[i], defs.vs()[i]),
        closed_for(doc@, schema@, defs.ks().to_set()),
        forall|c: Set<Seq<char>>| closed_for(doc@, schema@, c) ==> defs.ks().to_set().subset_of(c),
{
    let ghost d = doc@;
    let ghost bound = component_names(d).len();
    let mut defs = Obj { keys: Vec::new(), vals: Vec::new() };
    let mut stack = gather_def_names(schema);
    proof {
        assert(defs.ks() =~= Seq::<Seq<char>>::empty());
        assert(defs.vs() =~= Seq::<JsonView>::empty());
        lemma_collect_start(d, schema@);
        reveal(collect_shape);
    }
    while stack.len() > 0
        invariant
            d == doc@,
            bound == component_names(d).len(),
            defs.wf(),
            collecting(d, schema@, defs.ks(), defs.vs(), strings_view(stack@)),
            defs.ks().len() <= bound,
        decreases bound - defs.ks().len(), stack@.len(),
    {
        let ghost s_before = strings_view(stack@);
        let name = stack.pop().unwrap();
        assert(s_before =~= strings_view(stack@).push(name@));
        assert(strings_view(defs.keys@) =~= defs.ks());
        if contains_string(&defs.keys, name.as_str()) {
            proof {
                lemma_collect_skip(d, schema@, defs.ks(), defs.vs(), strings_view(stack@), name@);
            }
            continue;
        }
        match component_exec(doc, name.as_str()) {
            None => {
                proof {
                    lemma_collect_skip(d, schema@, defs.ks(), defs.vs(), strings_view(stack@), name@);
                }
            },
            Some(src) => {
                let rewritten = rewrite_schema_refs(src);
                let nested = gather_def_names(&rewritten);
                let ghost k0 = defs.ks();
                let ghost v0 = defs.vs();
                let ghost st0 = strings_view(stack@);
                proof {
                    assert(strings_view(nested@) == needs(d, name@));
                    lemma_add_shape(d, k0, v0, name@, rewritten@);
                    let k1 = obj_insert(k0, v0, name@, rewritten@).0;
                    lemma_add_pending(d, schema@, k0, k1, st0, name@);
                    lemma_add_least(d, schema@, k0, k1, st0, name@);
                    reveal(collect_shape);
                }
                push_new(&mut stack, &nested, &defs, name.as_str());
                defs.insert(name.as_str(), rewritten);
            },
        }
    }
    proof {
        assert(strings_view(stack@) =~= Seq::<Seq<char>>::empty());
        lemma_collect_done(d, schema@, defs.ks(), defs.vs());
    }
    defs
}

// ---------------------------------------------------------------------------
// The schema handed to bundling.
// ---------------------------------------------------------------------------

/// The root to bundle: an object schema with the definitions merged into
/// its `$defs` (`merge_defs_spec`); any other schema wrapped as the one
/// branch of an `allOf`, with the definitions beside it when there are any.
pub open spec fn root_spec(s: JsonView, dk: Seq<Seq<char>>, dv: Seq<JsonView>) -> JsonView {
    match s {
        JsonView::Object(ks, vs) => {
            let (a, b) = crate::bundle::merge_defs_spec(ks, vs, dk, dv);
            JsonView::Object(a, b)
        },
        other => {
            let (a0, b0) = obj_insert(Seq::empty(), Seq::empty(), "allOf"@, JsonView::Array(seq![other]));
            if dk.len() == 0 {
                JsonView::Object(a0, b0)
            } else {
                let (a, b) = obj_insert(a0, b0, "$defs"@, JsonView::Object(dk, dv));
                JsonView::Object(a, b)
            }
        },
    }
}

/// The root to bundle (`root_spec`) from a rewritten schema and the
/// definitions it needs.
pub fn bundle_root(rewritten: &Json, defs: Obj) -> (r: Json)
    requires
        defs.wf(),
    ensures
        r@ == root_spec(rewritten@, defs.ks(), defs.vs()),
{
    let ghost (dk, dv) = (defs.ks(), defs.vs());
    match rewritten {
        Json::Object(m) => {
            let mut o = Obj::of_members(m);
            assert(o.ks() =~= rewritten@->Object_0);
            assert(o.vs() =~= rewritten@->Object_1);
            crate::bundle::merge_defs_into(&mut o, defs);
            o.into_json()
        },
        other => {
            let mut wrap = Obj { keys: Vec::new(), vals: Vec::new() };
            assert(wrap.ks() =~= Seq::<Seq<char>>::empty());
            assert(wrap.vs() =~= Seq::<JsonView>::empty());
            let mut items: Vec<Json> = Vec::new();
            items.push(other.duplicate());
            let arr = Json::Array(items);
            assert(arr@->Array_0 =~= seq![rewritten@]);
            wrap.insert("allOf", arr);
            if defs.keys.len() > 0 {
                wrap.insert("$defs", defs.into_json());
            }
            let out = wrap.into_json();
            assert(out@ == root_spec(rewritten@, dk, dv));
            out
        },
    }
}

// ---------------------------------------------------------------------------
// What the root holds.
// ---------------------------------------------------------------------------

pub(crate) proof fn lemma_insert_keys(ks: Seq<Seq<char>>, vs: Seq<JsonView>, k: Seq<char>, v: JsonView, x: Seq<char>)
    ensures
        obj_insert(ks, vs, k, v).0.contains(x) <==> (ks.contains(x) || x == k),
{
    reveal(obj_insert);
    match find_key(ks, k) {
        Some(_) => {
            lemma_found_key(ks, k);
        },
        None => {
            let p = count_less(ks, k) as int;
            lemma_count_less_bound(ks, k);
            let k2 = ks.insert(p, k);
            if k2.contains(x) {
                let i = choose|i: int| 0 <= i < k2.len() && k2[i] == x;
                if i < p {
                    assert(ks[i] == x);
                } else if i > p {
                    assert(ks[i - 1] == x);
                }
            }
            if ks.contains(x) {
                let j = choose|j: int| 0 <= j < ks.len() && ks[j] == x;
                if j < p {
                    assert(k2[j] == x);
                } else {
                    assert(k2[j + 1] == x);
                }
            }
            if x == k {
                assert(k2[p] == x);
            }
        },
    }
}

proof fn lemma_insert_len(ks: Seq<Seq<char>>, vs: Seq<JsonView>, k: Seq<char>, v: JsonView)
    requires
        ks.len() == vs.len(),
    ensures
        obj_insert(ks, vs, k, v).0.len() == obj_insert(ks, vs, k, v).1.len(),
{
    reveal(obj_insert);
    match find_key(ks, k) {
        Some(i) => {
            lemma_found_key(ks, k);
            let w = choose|w: int| 0 <= w < ks.len() && ks[w] == k;
            lemma_first_index(ks, k, w);
            assert(0 <= i < ks.len());
        },
        None => {
            lemma_count_less_bound(ks, k);
            let p = count_less(ks, k) as int;
            assert(ks.insert(p, k).len() == ks.len() + 1);
            assert(vs.insert(p, v).len() == vs.len() + 1);
        },
    }
}

/// A key that occurs has a first occurrence.
pub(crate) proof fn lemma_first_index(ks: Seq<Seq<char>>, k: Seq<char>, w: int)
    requires
        0 <= w < ks.len(),
        ks[w] == k,
    ensures
        exists|m: int| 0 <= m < ks.len() && ks[m] == k && forall|j: int| 0 <= j < m ==> ks[j] != k,
    decreases w,
{
    if exists|j: int| 0 <= j < w && ks[j] == k {
        let j = choose|j: int| 0 <= j < w && ks[j] == k;
        lemma_first_index(ks, k, j);
    } else {
        assert(forall|j: int| 0 <= j < w ==> ks[j] != k);
    }
}

proof fn lemma_get_inserted(ks: Seq<Seq<char>>, vs: Seq<JsonView>, k: Seq<char>, v: JsonView)
    requires
        ks.len() == vs.len(),
    ensures
        ({
            let (a, b) = obj_insert(ks, vs, k, v);
            json::obj_get(a, b, k) == Some(v)
        }),
{
    reveal(obj_insert);
    reveal(json::obj_get);
    match find_key(ks, k) {
        Some(i) => {
            lemma_found_key(ks, k);
            let w = choose|w: int| 0 <= w < ks.len() && ks[w] == k;
            lemma_first_index(ks, k, w);
            assert(0 <= i < ks.len() && ks[i] == k);
            assert(vs.update(i, v)[i] == v);
        },
        None => {
            let p = count_less(ks, k) as int;
            lemma_count_less_bound(ks, k);
            let k2 = ks.insert(p, k);
            assert(!ks.contains(k));
            assert(k2[p] == k);
            assert forall|j: int| 0 <= j < k2.len() && k2[j] == k implies j == p by {
                if j < p {
                    assert(ks[j] == k);
                } else if j > p {
                    assert(ks[j - 1] == k);
                }
            }
            assert(forall|j: int| 0 <= j < p ==> k2[j] != k);
        },
    }
}

proof fn lemma_merge_absent_keys(
    ek: Seq<Seq<char>>,
    ev: Seq<JsonView>,
    pk: Seq<Seq<char>>,
    pv: Seq<JsonView>,
    x: Seq<char>,
)
    requires
        pk.contains(x),
    ensures
        crate::schema::merge_absent(ek, ev, pk, pv).0.contains(x),
    decreases pk.len(),
{
    reveal(json::obj_get);
    let n = pk.len() - 1;
    let (a, b) = crate::schema::merge_absent(ek, ev, pk.drop_last(), pv.take(n));
    if x == pk[n] {
        if json::obj_get(a, b, pk[n]) is Some {
            lemma_found_key(a, pk[n]);
        } else {
            lemma_insert_keys(a, b, pk[n], pv[n], x);
        }
    } else {
        let i = choose|i: int| 0 <= i < pk.len() && pk[i] == x;
        assert(pk.drop_last()[i] == x);
        lemma_merge_absent_keys(ek, ev, pk.drop_last(), pv.take(n), x);
        if json::obj_get(a, b, pk[n]) is None {
            lemma_insert_keys(a, b, pk[n], pv[n], x);
        }
    }
}

/// The root handed to bundling holds, under its top-level `$defs`, every
/// component the schema names, once the definitions are a set closed for
/// the schema (as `collect_needed_defs` gives).
pub proof fn law_root_holds_needed(doc: JsonView, s: JsonView, dk: Seq<Seq<char>>, dv: Seq<JsonView>, n: Seq<char>)
    requires
        s matches JsonView::Object(ks, vs) ==> ks.len() == vs.len(),
        closed_for(doc, s, dk.to_set()),
        def_names_spec(s).contains(n),
        component(doc, n) is Some,
    ensures
        crate::bundle::top_defs(root_spec(s, dk, dv)).contains(n),
{
    reveal(json::obj_get);
    assert(dk.to_set().contains(n));
    assert(dk.contains(n));
    match s {
        JsonView::Object(ks, vs) => {
            match json::obj_get(ks, vs, "$defs"@) {
                Some(JsonView::Object(ek, ev)) => {
                    let (mk, mv) = crate::schema::merge_absent(ek, ev, dk, dv);
                    lemma_merge_absent_keys(ek, ev, dk, dv, n);
                    lemma_get_inserted(ks, vs, "$defs"@, JsonView::Object(mk, mv));
                },
                _ => {
                    lemma_get_inserted(ks, vs, "$defs"@, JsonView::Object(dk, dv));
                },
            }
        },
        other => {
            let (a0, b0) = obj_insert(Seq::empty(), Seq::empty(), "allOf"@, JsonView::Array(seq![other]));
            lemma_insert_len(Seq::empty(), Seq::empty(), "allOf"@, JsonView::Array(seq![other]));
            lemma_get_inserted(a0, b0, "$defs"@, JsonView::Object(dk, dv));
        },
    }
}

} // verus!
