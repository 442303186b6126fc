//! JSON documents as plain values, and the reads the compiler makes of them.
use vstd::prelude::*;
use crate::text;

verus! {

/// A JSON value. An object keeps its members in order, each key once.
pub enum Json {
    Null,
    Bool(bool),
    /// A number, as its JSON text.
    Number(String),
    Str(String),
    Array(Vec<Json>),
    Object(Vec<Member>),
}

/// One member of a JSON object.
pub struct Member {
    pub key: String,
    pub value: Json,
}

/// The mathematical value of a JSON document.
pub enum JsonView {
    Null,
    Bool(bool),
    Number(Seq<char>),
    Str(Seq<char>),
    Array(Seq<JsonView>),
    /// Keys and values, in member order.
    Object(Seq<Seq<char>>, Seq<JsonView>),
}

impl View for Json {
    type V = JsonView;

    open spec fn view(&self) -> JsonView
        decreases self,
    {
        match self {
            Json::Null => JsonView::Null,
            Json::Bool(b) => JsonView::Bool(*b),
            Json::Number(n) => JsonView::Number(n@),
            Json::Str(s) => JsonView::Str(s@),
            Json::Array(v) => JsonView::Array(
                Seq::new(
                    v@.len(),
                    |i: int|
                        {
                            if 0 <= i < v@.len() {
                                proof {
                                    assert(decreases_to!(v => v@[i]));
                                }
                                v@[i].view()
                            } else {
                                JsonView::Null
                            }
                        },
                ),
            ),
            Json::Object(m) => JsonView::Object(
                Seq::new(m@.len(), |i: int| m@[i].key@),
                Seq::new(
                    m@.len(),
                    |i: int|
                        {
                            if 0 <= i < m@.len() {
                                proof {
                                    assert(decreases_to!(m => m@[i].value));
                                }
                                m@[i].value.view()
                            } else {
                                JsonView::Null
                            }
                        },
                ),
            ),
        }
    }
}

} // verus!
verus! {

/// The position of the first key equal to `key`.
pub open spec fn find_key(keys: Seq<Seq<char>>, key: Seq<char>) -> Option<int> {
    if exists|i: int| 0 <= i < keys.len() && keys[i] == key {
        Some(
            choose|i: int|
                0 <= i < keys.len() && keys[i] == key && forall|j: int| 0 <= j < i ==> keys[j] != key,
        )
    } else {
        None
    }
}

/// The value under a key of an object; nothing for other values.
pub open spec fn get_spec(v: JsonView, key: Seq<char>) -> Option<JsonView> {
    match v {
        JsonView::Object(ks, vs) => match find_key(ks, key) {
            Some(i) => Some(vs[i]),
            None => None,
        },
        _ => None,
    }
}

/// The string under a key.
pub open spec fn str_field_spec(v: JsonView, key: Seq<char>) -> Option<Seq<char>> {
    match get_spec(v, key) {
        Some(JsonView::Str(s)) => Some(s),
        _ => None,
    }
}

/// The strings of an array, in order, skipping other items; nothing for
/// anything but an array.
pub open spec fn strings_of(items: Seq<JsonView>) -> Seq<Seq<char>>
    decreases items.len(),
{
    if items.len() == 0 {
        Seq::empty()
    } else {
        let rest = strings_of(items.drop_last());
        match items.last() {
            JsonView::Str(s) => rest.push(s),
            _ => rest,
        }
    }
}

pub open spec fn string_array_spec(v: Option<JsonView>) -> Seq<Seq<char>> {
    match v {
        Some(JsonView::Array(items)) => strings_of(items),
        _ => Seq::empty(),
    }
}

impl Json {
    /// A deep copy.
    pub fn duplicate(&self) -> (r: Json)
        ensures
            r@ == self@,
        decreases self,
    {
        match self {
            Json::Null => {
                assert(self@ == JsonView::Null);
                Json::Null
            },
            Json::Bool(b) => Json::Bool(*b),
            Json::Number(n) => Json::Number(n.clone()),
            Json::Str(s) => Json::Str(s.clone()),
            Json::Array(v) => {
                proof {
                    assert(decreases_to!(*self => *v));
                }
                let mut out: Vec<Json> = Vec::new();
                let mut i: usize = 0;
                while i < v.len()
                    invariant
                        *self == Json::Array(*v),
                        decreases_to!(*self => *v),
                        i <= v.len(),
                        out@.len() == i,
                        forall|k: int| 0 <= k < i ==> #[trigger] out@[k]@ == v@[k]@,
                    decreases v.len() - i,
                {
                    proof {
                        assert(decreases_to!(*v => v@[i as int]));
                    }
                    out.push(v[i].duplicate());
                    i = i + 1;
                }
                let r = Json::Array(out);
                proof {
                    let ra = r@->Array_0;
                    let sa = self@->Array_0;
                    assert(ra.len() == sa.len());
                    assert forall|k: int| 0 <= k < ra.len() implies ra[k] == sa[k] by {
                        assert(out@[k]@ == v@[k]@);
                    }
                    assert(ra =~= sa);
                }
                r
            },
            Json::Object(m) => {
                proof {
                    assert(decreases_to!(*self => *m));
                }
                let mut out: Vec<Member> = Vec::new();
                let mut i: usize = 0;
                while i < m.len()
                    invariant
                        *self == Json::Object(*m),
                        decreases_to!(*self => *m),
                        i <= m.len(),
                        out@.len() == i,
                        forall|k: int| 0 <= k < i ==> #[trigger] out@[k].key@ == m@[k].key@,
                        forall|k: int| 0 <= k < i ==> #[trigger] out@[k].value@ == m@[k].value@,
                    decreases m.len() - i,
                {
                    proof {
                        assert(decreases_to!(*m => m@[i as int]));
                        assert(decreases_to!(m@[i as int] => m@[i as int].value));
                    }
                    let value = m[i].value.duplicate();
                    let key = m[i].key.clone();
                    let ghost before = out@;
                    out.push(Member { key, value });
                    assert(out@[i as int].key@ == m@[i as int].key@);
                    assert(out@[i as int].value@ == m@[i as int].value@);
                    assert forall|k: int| 0 <= k < i implies #[trigger] out@[k].value@ == m@[k].value@ by {
                        assert(out@[k] == before[k]);
                        assert(before[k].value@ == m@[k].value@);
                    }
                    assert forall|k: int| 0 <= k < i implies #[trigger] out@[k].key@ == m@[k].key@ by {
                        assert(out@[k] == before[k]);
                        assert(before[k].key@ == m@[k].key@);
                    }
                    i = i + 1;
                }
                let r = Json::Object(out);
                proof {
                    let (rk, rv) = (r@->Object_0, r@->Object_1);
                    let (sk, sv) = (self@->Object_0, self@->Object_1);
                    assert(rk =~= sk);
                    assert forall|k: int| 0 <= k < rv.len() implies rv[k] == sv[k] by {
                        assert(out@[k].value@ == m@[k].value@);
                    }
                    assert(rv =~= sv);
                }
                r
            },
        }
    }
}

} // verus!
verus! {

pub open spec fn key_views(keys: Seq<String>) -> Seq<Seq<char>> {
    Seq::new(keys.len(), |i: int| keys[i]@)
}

pub open spec fn value_views(vals: Seq<Json>) -> Seq<JsonView> {
    Seq::new(vals.len(), |i: int| vals[i]@)
}

/// How many keys come before `key` in key order.
pub open spec fn count_less(keys: Seq<Seq<char>>, key: Seq<char>) -> nat
    decreases keys.len(),
{
    if keys.len() == 0 {
        0
    } else {
        count_less(keys.drop_last(), key) + if crate::names::seq_lt(keys.last(), key) {
            1nat
        } else {
            0nat
        }
    }
}

/// `Map::insert`: an existing key gets the new value in place; a new key goes
/// in key order (after every smaller key).
#[verifier::opaque]
pub open spec fn obj_insert(ks: Seq<Seq<char>>, vs: Seq<JsonView>, key: Seq<char>, val: JsonView) -> (Seq<Seq<char>>, Seq<JsonView>) {
    match find_key(ks, key) {
        Some(i) => (ks, vs.update(i, val)),
        None => {
            let p = count_less(ks, key) as int;
            (ks.insert(p, key), vs.insert(p, val))
        },
    }
}

/// `Map::remove`.
#[verifier::opaque]
pub open spec fn obj_remove(ks: Seq<Seq<char>>, vs: Seq<JsonView>, key: Seq<char>) -> (Seq<Seq<char>>, Seq<JsonView>) {
    match find_key(ks, key) {
        Some(i) => (ks.remove(i), vs.remove(i)),
        None => (ks, vs),
    }
}

/// `Map::get`.
#[verifier::opaque]
pub open spec fn obj_get(ks: Seq<Seq<char>>, vs: Seq<JsonView>, key: Seq<char>) -> Option<JsonView> {
    match find_key(ks, key) {
        Some(i) => Some(vs[i]),
        None => None,
    }
}

/// An object under construction: keys and values side by side.
pub struct Obj {
    pub keys: Vec<String>,
    pub vals: Vec<Json>,
}

impl Obj {
    pub open spec fn ks(&self) -> Seq<Seq<char>> {
        key_views(self.keys@)
    }

    pub open spec fn vs(&self) -> Seq<JsonView> {
        value_views(self.vals@)
    }

    pub open spec fn wf(&self) -> bool {
        self.keys@.len() == self.vals@.len()
    }

    /// The position of the first member with that key.
    pub fn find(&self, key: &str) -> (r: Option<usize>)
        requires
            self.wf(),
        ensures
            match r {
                Some(i) => find_key(self.ks(), key@) == Some(i as int) && i < self.keys@.len(),
                None => find_key(self.ks(), key@) is None,
            },
    {
        let ghost ks = self.ks();
        let mut i: usize = 0;
        while i < self.keys.len()
            invariant
                ks == self.ks(),
                i <= self.keys@.len(),
                forall|j: int| 0 <= j < i ==> ks[j] != key@,
            decreases self.keys@.len() - i,
        {
            if text::str_eq(self.keys[i].as_str(), key) {
                proof {
                    assert(ks[i as int] == key@);
                    let c = choose|k: int|
                        0 <= k < ks.len() && ks[k] == key@ && forall|j: int| 0 <= j < k ==> ks[j] != key@;
                    assert(0 <= i < ks.len() && ks[i as int] == key@ && forall|j: int|
                        0 <= j < i ==> ks[j] != key@);
                    if c < i {
                        assert(ks[c] != key@);
                    } else if c > i {
                        assert(ks[i as int] != key@);
                    }
                }
                return Some(i);
            }
            i = i + 1;
        }
        None
    }

    /// The value under a key.
    pub fn get(&self, key: &str) -> (r: Option<&Json>)
        requires
            self.wf(),
        ensures
            match r {
                Some(v) => obj_get(self.ks(), self.vs(), key@) == Some(v@),
                None => obj_get(self.ks(), self.vs(), key@) is None,
            },
    {
        reveal(obj_get);
        match self.find(key) {
            Some(i) => Some(&self.vals[i]),
            None => None,
        }
    }

    /// `Map::remove`: the value that was under the key.
    pub fn remove(&mut self, key: &str) -> (r: Option<Json>)
        requires
            old(self).wf(),
        ensures
            final(self).wf(),
            (final(self).ks(), final(self).vs()) == obj_remove(old(self).ks(), old(self).vs(), key@),
            match r {
                Some(v) => obj_get(old(self).ks(), old(self).vs(), key@) == Some(v@),
                None => obj_get(old(self).ks(), old(self).vs(), key@) is None,
            },
    {
        reveal(obj_get);
        reveal(obj_remove);
        match self.find(key) {
            Some(i) => {
                let ghost (ks, vs) = (self.ks(), self.vs());
                self.keys.remove(i);
                let v = self.vals.remove(i);
                assert(self.ks() =~= ks.remove(i as int));
                assert(self.vs() =~= vs.remove(i as int));
                Some(v)
            },
            None => None,
        }
    }

    /// `Map::insert`.
    pub fn insert(&mut self, key: &str, val: Json)
        requires
            old(self).wf(),
        ensures
            final(self).wf(),
            (final(self).ks(), final(self).vs()) == obj_insert(old(self).ks(), old(self).vs(), key@, val@),
    {
        reveal(obj_insert);
        let ghost (ks, vs) = (self.ks(), self.vs());
        match self.find(key) {
            Some(i) => {
                self.vals.set(i, val);
                assert(self.ks() =~= ks);
                assert(self.vs() =~= vs.update(i as int, val@));
            },
            None => {
                let k = text::chars_of(key);
                let mut p: usize = 0;
                let mut n: usize = 0;
                while n < self.keys.len()
                    invariant
                        ks == self.ks(),
                        k@ == key@,
                        self.wf(),
                        n <= self.keys@.len(),
                        p <= n,
                        p == count_less(ks.take(n as int), key@),
                    decreases self.keys@.len() - n,
                {
                    assert(ks.take(n + 1).drop_last() =~= ks.take(n as int));
                    let kn = text::chars_of(self.keys[n].as_str());
                    assert(ks.take(n + 1).last() == ks[n as int]);
                    assert(kn@ == ks[n as int]);
                    if crate::names::seq_lt_pub(&kn, &k) {
                        p = p + 1;
                    }
                    n = n + 1;
                }
                assert(ks.take(n as int) =~= ks);
                self.keys.insert(p, key.to_owned());
                self.vals.insert(p, val);
                assert(self.ks() =~= ks.insert(p as int, key@));
                assert(self.vs() =~= vs.insert(p as int, val@));
            },
        }
    }
}

} // verus!
verus! {

impl Obj {
    /// The members of an object, copied.
    pub fn of_members(m: &Vec<Member>) -> (r: Obj)
        ensures
            r.wf(),
            r.ks() == Seq::new(m@.len(), |i: int| m@[i].key@),
            r.vs() == Seq::new(m@.len(), |i: int| m@[i].value@),
    {
        let mut keys: Vec<String> = Vec::new();
        let mut vals: Vec<Json> = Vec::new();
        let mut i: usize = 0;
        while i < m.len()
            invariant
                i <= m@.len(),
                keys@.len() == i,
                vals@.len() == i,
                forall|k: int| 0 <= k < i ==> #[trigger] keys@[k]@ == m@[k].key@,
                forall|k: int| 0 <= k < i ==> #[trigger] vals@[k]@ == m@[k].value@,
            decreases m@.len() - i,
        {
            keys.push(m[i].key.clone());
            vals.push(m[i].value.duplicate());
            i = i + 1;
        }
        let r = Obj { keys, vals };
        assert(r.ks() =~= Seq::new(m@.len(), |i: int| m@[i].key@));
        assert(r.vs() =~= Seq::new(m@.len(), |i: int| m@[i].value@));
        r
    }

    /// The object as a JSON value.
    pub fn into_json(self) -> (r: Json)
        requires
            self.wf(),
        ensures
            r@ == JsonView::Object(self.ks(), self.vs()),
    {
        let mut out: Vec<Member> = Vec::new();
        let mut i: usize = 0;
        while i < self.keys.len()
            invariant
                self.wf(),
                i <= self.keys@.len(),
                out@.len() == i,
                forall|k: int| 0 <= k < i ==> #[trigger] out@[k].key@ == self.keys@[k]@,
                forall|k: int| 0 <= k < i ==> #[trigger] out@[k].value@ == self.vals@[k]@,
            decreases self.keys@.len() - i,
        {
            let key = self.keys[i].clone();
            let value = self.vals[i].duplicate();
            let ghost before = out@;
            out.push(Member { key, value });
            assert forall|k: int| 0 <= k < i + 1 implies #[trigger] out@[k].key@ == self.keys@[k]@ by {
                if k < i {
                    assert(out@[k] == before[k]);
                }
            }
            assert forall|k: int| 0 <= k < i + 1 implies #[trigger] out@[k].value@ == self.vals@[k]@ by {
                if k < i {
                    assert(out@[k] == before[k]);
                }
            }
            i = i + 1;
        }
        let r = Json::Object(out);
        proof {
            assert(r@->Object_0 =~= self.ks());
            assert forall|k: int| 0 <= k < out@.len() implies r@->Object_1[k] == self.vs()[k] by {
                assert(out@[k].value@ == self.vals@[k]@);
            }
            assert(r@->Object_1 =~= self.vs());
        }
        r
    }
}

} // verus!
verus! {

// ---------------------------------------------------------------------------
// OpenAPI 3.0 schemas rewritten into the 3.1 (JSON Schema 2020-12) shape.
// ---------------------------------------------------------------------------

/// `{"type": "null"}`.
pub open spec fn null_type() -> JsonView {
    JsonView::Object(seq!["type"@], seq![JsonView::Str("null"@)])
}

pub open spec fn has_null(a: Seq<JsonView>) -> bool {
    exists|i: int| 0 <= i < a.len() && a[i] == JsonView::Str("null"@)
}

/// `exclusiveMinimum: true` takes the value of `minimum`, which goes (or is
/// dropped without one); `false` is dropped; anything else stays.
pub open spec fn exclusive_spec(ks: Seq<Seq<char>>, vs: Seq<JsonView>, ex: Seq<char>, bound: Seq<char>) -> (Seq<Seq<char>>, Seq<JsonView>) {
    match obj_get(ks, vs, ex) {
        Some(JsonView::Bool(true)) => match obj_get(ks, vs, bound) {
            Some(b) => {
                let (k2, v2) = obj_remove(ks, vs, bound);
                obj_insert(k2, v2, ex, b)
            },
            None => obj_remove(ks, vs, ex),
        },
        Some(JsonView::Bool(false)) => obj_remove(ks, vs, ex),
        _ => (ks, vs),
    }
}

/// After the `nullable` handling: `nullable` dropped, both exclusive bounds
/// rewritten, and `example` moved into `examples` unless that is there.
pub open spec fn rest_spec(ks: Seq<Seq<char>>, vs: Seq<JsonView>) -> (Seq<Seq<char>>, Seq<JsonView>) {
    let (k1, v1) = obj_remove(ks, vs, "nullable"@);
    let (k2, v2) = exclusive_spec(k1, v1, "exclusiveMinimum"@, "minimum"@);
    let (k3, v3) = exclusive_spec(k2, v2, "exclusiveMaximum"@, "maximum"@);
    match obj_get(k3, v3, "example"@) {
        Some(e) => {
            let (k4, v4) = obj_remove(k3, v3, "example"@);
            if obj_get(k4, v4, "examples"@) is Some {
                (k4, v4)
            } else {
                obj_insert(k4, v4, "examples"@, JsonView::Array(seq![e]))
            }
        },
        None => (k3, v3),
    }
}

/// A nullable schema that cannot carry `null` in its `type`: `anyOf` of the
/// schema (rewritten, without `nullable`) and `{"type": "null"}`.
pub open spec fn wrap_spec(ks: Seq<Seq<char>>, vs: Seq<JsonView>) -> JsonView {
    let (ik, iv) = obj_remove(ks, vs, "nullable"@);
    let (rk, rv) = rest_spec(ik, iv);
    JsonView::Object(
        seq!["anyOf"@],
        seq![JsonView::Array(seq![JsonView::Object(rk, rv), null_type()])],
    )
}

/// One schema object rewritten: `nullable: true` adds `null` to a string or
/// array `type`, and wraps a `$ref` or any other schema in `anyOf`.
pub open spec fn rewrite_spec(ks: Seq<Seq<char>>, vs: Seq<JsonView>) -> JsonView {
    if obj_get(ks, vs, "nullable"@) == Some(JsonView::Bool(true)) {
        if obj_get(ks, vs, "$ref"@) is Some {
            wrap_spec(ks, vs)
        } else {
            match obj_get(ks, vs, "type"@) {
                Some(JsonView::Str(t)) => {
                    let (k1, v1) = obj_insert(
                        ks,
                        vs,
                        "type"@,
                        JsonView::Array(seq![JsonView::Str(t), JsonView::Str("null"@)]),
                    );
                    let (k2, v2) = rest_spec(k1, v1);
                    JsonView::Object(k2, v2)
                },
                Some(JsonView::Array(a)) => {
                    let na = if has_null(a) {
                        a
                    } else {
                        a.push(JsonView::Str("null"@))
                    };
                    let (k1, v1) = obj_insert(ks, vs, "type"@, JsonView::Array(na));
                    let (k2, v2) = rest_spec(k1, v1);
                    JsonView::Object(k2, v2)
                },
                _ => wrap_spec(ks, vs),
            }
        }
    } else {
        let (k2, v2) = rest_spec(ks, vs);
        JsonView::Object(k2, v2)
    }
}

/// A 3.0 document rewritten into the 3.1 shape: every object, innermost
/// first, by `rewrite_spec`.
pub open spec fn normalize_spec(j: JsonView) -> JsonView
    decreases j, 1nat,
{
    match j {
        JsonView::Array(a) => JsonView::Array(normalized_items(a)),
        JsonView::Object(ks, vs) => rewrite_spec(ks, normalized_items(vs)),
        _ => j,
    }
}

/// Each item of a sequence rewritten by `normalize_spec`.
pub open spec fn normalized_items(a: Seq<JsonView>) -> Seq<JsonView>
    decreases a, 0nat,
{
    Seq::new(
        a.len(),
        |i: int|
            if 0 <= i < a.len() {
                normalize_spec(a[i])
            } else {
                JsonView::Null
            },
    )
}

fn str_value(s: &str) -> (r: Json)
    ensures
        r@ == JsonView::Str(s@),
{
    Json::Str(s.to_owned())
}

fn null_type_json() -> (r: Json)
    ensures
        r@ == null_type(),
{
    let mut o = Obj { keys: Vec::new(), vals: Vec::new() };
    o.keys.push("type".to_owned());
    o.vals.push(str_value("null"));
    assert(o.ks() =~= seq!["type"@]);
    assert(o.vs() =~= seq![JsonView::Str("null"@)]);
    o.into_json()
}

fn rewrite_exclusive(o: &mut Obj, ex: &str, bound: &str)
    requires
        old(o).wf(),
    ensures
        final(o).wf(),
        (final(o).ks(), final(o).vs()) == exclusive_spec(old(o).ks(), old(o).vs(), ex@, bound@),
{
    reveal(obj_get);
    reveal(obj_remove);
    let flag: Option<bool> = match o.get(ex) {
        Some(Json::Bool(b)) => Some(*b),
        _ => None,
    };
    match flag {
        Some(true) => {
            let ghost (ks, vs) = (o.ks(), o.vs());
            match o.remove(bound) {
                Some(b) => {
                    o.insert(ex, b);
                },
                None => {
                    o.remove(ex);
                    assert((o.ks(), o.vs()) == obj_remove(ks, vs, ex@));
                },
            }
        },
        Some(false) => {
            o.remove(ex);
        },
        None => {},
    }
}

fn rewrite_rest(o: &mut Obj)
    requires
        old(o).wf(),
    ensures
        final(o).wf(),
        (final(o).ks(), final(o).vs()) == rest_spec(old(o).ks(), old(o).vs()),
{
    reveal(obj_get);
    reveal(obj_remove);
    o.remove("nullable");
    rewrite_exclusive(o, "exclusiveMinimum", "minimum");
    rewrite_exclusive(o, "exclusiveMaximum", "maximum");
    match o.remove("example") {
        Some(e) => {
            if o.get("examples").is_none() {
                let mut items: Vec<Json> = Vec::new();
                items.push(e);
                let arr = Json::Array(items);
                assert(arr@ == JsonView::Array(seq![e@])) by {
                    assert(arr@->Array_0 =~= seq![e@]);
                }
                o.insert("examples", arr);
            }
        },
        None => {},
    }
}

fn wrap(o: Obj) -> (r: Json)
    requires
        o.wf(),
    ensures
        r@ == wrap_spec(o.ks(), o.vs()),
{
    let mut inner = o;
    inner.remove("nullable");
    rewrite_rest(&mut inner);
    let inner_json = inner.into_json();
    let mut items: Vec<Json> = Vec::new();
    items.push(inner_json);
    items.push(null_type_json());
    let arr = Json::Array(items);
    assert(arr@->Array_0 =~= seq![items@[0]@, items@[1]@]);
    let mut outer = Obj { keys: Vec::new(), vals: Vec::new() };
    outer.keys.push("anyOf".to_owned());
    outer.vals.push(arr);
    assert(outer.ks() =~= seq!["anyOf"@]);
    assert(outer.vs() =~= seq![outer.vals@[0]@]);
    outer.into_json()
}

fn has_null_exec(a: &Vec<Json>) -> (r: bool)
    ensures
        r == has_null(value_views(a@)),
{
    let ghost av = value_views(a@);
    let mut i: usize = 0;
    while i < a.len()
        invariant
            av == value_views(a@),
            i <= a@.len(),
            forall|j: int| 0 <= j < i ==> av[j] != JsonView::Str("null"@),
        decreases a@.len() - i,
    {
        match &a[i] {
            Json::Str(s) => {
                if text::str_eq(s.as_str(), "null") {
                    assert(av[i as int] == JsonView::Str("null"@));
                    return true;
                }
            },
            _ => {},
        }
        i = i + 1;
    }
    false
}

/// The `type` of a nullable schema with `null` added: for a string or an
/// array type; nothing for any other.
pub open spec fn nullable_type_spec(t: Option<JsonView>) -> Option<JsonView> {
    match t {
        Some(JsonView::Str(s)) => Some(JsonView::Array(seq![JsonView::Str(s), JsonView::Str("null"@)])),
        Some(JsonView::Array(a)) => Some(
            JsonView::Array(
                if has_null(a) {
                    a
                } else {
                    a.push(JsonView::Str("null"@))
                },
            ),
        ),
        _ => None,
    }
}

fn nullable_type(t: Option<&Json>) -> (r: Option<Json>)
    ensures
        match r {
            Some(v) => nullable_type_spec(match t {
                Some(x) => Some(x@),
                None => None,
            }) == Some(v@),
            None => nullable_type_spec(match t {
                Some(x) => Some(x@),
                None => None,
            }) is None,
        },
{
    match t {
        Some(Json::Str(s)) => {
            let mut items: Vec<Json> = Vec::new();
            items.push(Json::Str(s.clone()));
            items.push(str_value("null"));
            let arr = Json::Array(items);
            assert(arr@->Array_0 =~= seq![JsonView::Str(s@), JsonView::Str("null"@)]);
            Some(arr)
        },
        Some(Json::Array(a)) => {
            let mut items: Vec<Json> = Vec::new();
            let mut i: usize = 0;
            while i < a.len()
                invariant
                    i <= a@.len(),
                    items@.len() == i,
                    forall|k: int| 0 <= k < i ==> #[trigger] items@[k]@ == a@[k]@,
                decreases a@.len() - i,
            {
                items.push(a[i].duplicate());
                i = i + 1;
            }
            let ghost av = value_views(a@);
            assert(av =~= t.unwrap()@->Array_0);
            if !has_null_exec(a) {
                items.push(str_value("null"));
                let arr = Json::Array(items);
                proof {
                    let ra = arr@->Array_0;
                    let want = av.push(JsonView::Str("null"@));
                    assert(ra.len() == want.len());
                    assert forall|k: int| 0 <= k < ra.len() implies ra[k] == want[k] by {
                        if k < av.len() {
                            assert(items@[k]@ == a@[k]@);
                        }
                    }
                    assert(ra =~= want);
                }
                Some(arr)
            } else {
                let arr = Json::Array(items);
                proof {
                    let ra = arr@->Array_0;
                    assert forall|k: int| 0 <= k < ra.len() implies ra[k] == av[k] by {
                        assert(items@[k]@ == a@[k]@);
                    }
                    assert(ra =~= av);
                }
                Some(arr)
            }
        },
        _ => None,
    }
}

/// One schema object rewritten (`rewrite_spec`).
#[verifier::rlimit(40)]
fn rewrite_node(o: Obj) -> (r: Json)
    requires
        o.wf(),
    ensures
        r@ == rewrite_spec(o.ks(), o.vs()),
{
    let nullable = match o.get("nullable") {
        Some(Json::Bool(true)) => true,
        _ => false,
    };
    if !nullable {
        let mut o2 = o;
        rewrite_rest(&mut o2);
        return o2.into_json();
    }
    if o.get("$ref").is_some() {
        return wrap(o);
    }
    let new_type = nullable_type(o.get("type"));
    match new_type {
        Some(t) => {
            let mut o2 = o;
            o2.insert("type", t);
            rewrite_rest(&mut o2);
            o2.into_json()
        },
        None => wrap(o),
    }
}

fn normalize_items(a: &Vec<Json>) -> (r: Vec<Json>)
    ensures
        value_views(r@) == normalized_items(value_views(a@)),
    decreases a,
{
    let mut items: Vec<Json> = Vec::new();
    let mut i: usize = 0;
    while i < a.len()
        invariant
            i <= a@.len(),
            items@.len() == i,
            forall|k: int| 0 <= k < i ==> #[trigger] items@[k]@ == normalize_spec(a@[k]@),
        decreases a@.len() - i,
    {
        proof {
            assert(decreases_to!(*a => a@[i as int]));
        }
        items.push(normalize_value(&a[i]));
        i = i + 1;
    }
    assert(value_views(items@) =~= normalized_items(value_views(a@)));
    items
}

fn normalize_members(m: &Vec<Member>) -> (r: Obj)
    ensures
        r.wf(),
        r.ks() == Seq::new(m@.len(), |i: int| m@[i].key@),
        r.vs() == normalized_items(Seq::new(m@.len(), |i: int| m@[i].value@)),
    decreases m,
{
    let mut o = Obj { keys: Vec::new(), vals: Vec::new() };
    let mut i: usize = 0;
    while i < m.len()
        invariant
            i <= m@.len(),
            o.keys@.len() == i,
            o.vals@.len() == i,
            forall|k: int| 0 <= k < i ==> #[trigger] o.keys@[k]@ == m@[k].key@,
            forall|k: int| 0 <= k < i ==> #[trigger] o.vals@[k]@ == normalize_spec(m@[k].value@),
        decreases m@.len() - i,
    {
        proof {
            assert(decreases_to!(*m => m@[i as int]));
            assert(decreases_to!(m@[i as int] => m@[i as int].value));
        }
        o.keys.push(m[i].key.clone());
        o.vals.push(normalize_value(&m[i].value));
        i = i + 1;
    }
    assert(o.ks() =~= Seq::new(m@.len(), |i: int| m@[i].key@));
    assert(o.vs() =~= normalized_items(Seq::new(m@.len(), |i: int| m@[i].value@)));
    o
}

/// A 3.0 document rewritten into the 3.1 shape (`normalize_spec`).
pub fn normalize_value(j: &Json) -> (r: Json)
    ensures
        r@ == normalize_spec(j@),
    decreases j,
{
    match j {
        Json::Array(a) => {
            proof {
                assert(decreases_to!(*j => *a));
            }
            let items = normalize_items(a);
            let r = Json::Array(items);
            proof {
                assert(value_views(a@) =~= j@->Array_0);
                assert(r@->Array_0 =~= value_views(items@));
            }
            r
        },
        Json::Object(m) => {
            proof {
                assert(decreases_to!(*j => *m));
            }
            let o = normalize_members(m);
            proof {
                assert(Seq::new(m@.len(), |i: int| m@[i].value@) =~= j@->Object_1);
                assert(o.ks() =~= j@->Object_0);
            }
            rewrite_node(o)
        },
        Json::Null => Json::Null,
        Json::Bool(b) => Json::Bool(*b),
        Json::Number(n) => Json::Number(n.clone()),
        Json::Str(s) => Json::Str(s.clone()),
    }
}

/// Rewrites a 3.0 document tree into the 3.1 shape before lowering
/// (`normalize_spec`).
pub fn normalize_3_0(value: &mut Json)
    ensures
        final(value)@ == normalize_spec(old(value)@),
{
    let r = normalize_value(value);
    *value = r;
}

} // verus!
verus! {

impl Json {
    /// Structural equality (`==` of `serde_json::Value`, numbers compared by
    /// their text).
    pub fn equals(&self, other: &Json) -> (r: bool)
        ensures
            r == (self@ == other@),
        decreases self,
    {
        match (self, other) {
            (Json::Null, Json::Null) => true,
            (Json::Bool(a), Json::Bool(b)) => *a == *b,
            (Json::Number(a), Json::Number(b)) => text::str_eq(a.as_str(), b.as_str()),
            (Json::Str(a), Json::Str(b)) => text::str_eq(a.as_str(), b.as_str()),
            (Json::Array(a), Json::Array(b)) => {
                proof {
                    assert(decreases_to!(*self => *a));
                }
                if a.len() != b.len() {
                    assert(self@->Array_0.len() != other@->Array_0.len());
                    return false;
                }
                let mut i: usize = 0;
                while i < a.len()
                    invariant
                        *self == Json::Array(*a),
                        *other == Json::Array(*b),
                        decreases_to!(*self => *a),
                        a@.len() == b@.len(),
                        i <= a@.len(),
                        forall|k: int| 0 <= k < i ==> #[trigger] a@[k]@ == b@[k]@,
                    decreases a@.len() - i,
                {
                    proof {
                        assert(decreases_to!(*a => a@[i as int]));
                    }
                    if !a[i].equals(&b[i]) {
                        assert(self@->Array_0[i as int] != other@->Array_0[i as int]);
                        return false;
                    }
                    i = i + 1;
                }
                assert forall|k: int| 0 <= k < a@.len() implies self@->Array_0[k] == other@->Array_0[k] by {
                    assert(a@[k]@ == b@[k]@);
                }
                assert(self@->Array_0 =~= other@->Array_0);
                true
            },
            (Json::Object(a), Json::Object(b)) => {
                proof {
                    assert(decreases_to!(*self => *a));
                }
                if a.len() != b.len() {
                    assert(self@->Object_0.len() != other@->Object_0.len());
                    return false;
                }
                let mut i: usize = 0;
                while i < a.len()
                    invariant
                        *self == Json::Object(*a),
                        *other == Json::Object(*b),
                        decreases_to!(*self => *a),
                        a@.len() == b@.len(),
                        i <= a@.len(),
                        forall|k: int| 0 <= k < i ==> #[trigger] a@[k].key@ == b@[k].key@,
                        forall|k: int| 0 <= k < i ==> #[trigger] a@[k].value@ == b@[k].value@,
                    decreases a@.len() - i,
                {
                    proof {
                        assert(decreases_to!(*a => a@[i as int]));
                        assert(decreases_to!(a@[i as int] => a@[i as int].value));
                    }
                    if !text::str_eq(a[i].key.as_str(), b[i].key.as_str()) {
                        assert(self@->Object_0[i as int] != other@->Object_0[i as int]);
                        return false;
                    }
                    if !a[i].value.equals(&b[i].value) {
                        assert(self@->Object_1[i as int] != other@->Object_1[i as int]);
                        return false;
                    }
                    i = i + 1;
                }
                assert forall|k: int| 0 <= k < a@.len() implies self@->Object_0[k] == other@->Object_0[k] by {
                    assert(a@[k].key@ == b@[k].key@);
                }
                assert forall|k: int| 0 <= k < a@.len() implies self@->Object_1[k] == other@->Object_1[k] by {
                    assert(a@[k].value@ == b@[k].value@);
                }
                assert(self@->Object_0 =~= other@->Object_0);
                assert(self@->Object_1 =~= other@->Object_1);
                true
            },
            _ => false,
        }
    }

    /// The value under a key of an object (`get_spec`).
    pub fn get(&self, key: &str) -> (r: Option<&Json>)
        ensures
            match r {
                Some(v) => get_spec(self@, key@) == Some(v@),
                None => get_spec(self@, key@) is None,
            },
    {
        match self {
            Json::Object(m) => {
                let ghost ks = self@->Object_0;
                let mut i: usize = 0;
                while i < m.len()
                    invariant
                        *self == Json::Object(*m),
                        ks == self@->Object_0,
                        i <= m@.len(),
                        forall|j: int| 0 <= j < i ==> ks[j] != key@,
                    decreases m@.len() - i,
                {
                    if text::str_eq(m[i].key.as_str(), key) {
                        proof {
                            assert(ks[i as int] == key@);
                            let c = choose|k: int|
                                0 <= k < ks.len() && ks[k] == key@ && forall|j: int|
                                    0 <= j < k ==> ks[j] != key@;
                            assert(0 <= i < ks.len() && ks[i as int] == key@ && forall|j: int|
                                0 <= j < i ==> ks[j] != key@);
                            if c < i {
                                assert(ks[c] != key@);
                            } else if c > i {
                                assert(ks[i as int] != key@);
                            }
                        }
                        return Some(&m[i].value);
                    }
                    i = i + 1;
                }
                None
            },
            _ => None,
        }
    }
}

/// The string under a key (`str_field_spec`).
pub fn str_field(v: &Json, key: &str) -> (r: Option<String>)
    ensures
        crate::urls::opt_str_view(r) == str_field_spec(v@, key@),
{
    match v.get(key) {
        Some(Json::Str(s)) => Some(s.clone()),
        _ => None,
    }
}

pub open spec fn opt_view(v: Option<&Json>) -> Option<JsonView> {
    match v {
        Some(j) => Some(j@),
        None => None,
    }
}

/// The strings of an array, in order (`string_array_spec`).
pub fn string_array(v: Option<&Json>) -> (r: Vec<String>)
    ensures
        Seq::new(r@.len(), |i: int| r@[i]@) == string_array_spec(opt_view(v)),
{
    match v {
        Some(Json::Array(items)) => {
            let ghost iv = v.unwrap()@->Array_0;
            let mut out: Vec<String> = Vec::new();
            let mut i: usize = 0;
            while i < items.len()
                invariant
                    iv == value_views(items@),
                    i <= items@.len(),
                    Seq::new(out@.len(), |k: int| out@[k]@) == strings_of(iv.take(i as int)),
                decreases items@.len() - i,
            {
                assert(iv.take(i + 1).drop_last() =~= iv.take(i as int));
                let ghost before = out@;
                match &items[i] {
                    Json::Str(s) => {
                        out.push(s.clone());
                        assert(Seq::new(out@.len(), |k: int| out@[k]@) =~= Seq::new(
                            before.len(),
                            |k: int| before[k]@,
                        ).push(s@));
                    },
                    _ => {},
                }
                i = i + 1;
            }
            assert(iv.take(items@.len() as int) =~= iv);
            assert(iv =~= value_views(items@));
            out
        },
        _ => {
            assert(Seq::new(0, |i: int| Seq::<char>::empty()) =~= Seq::<Seq<char>>::empty());
            Vec::new()
        },
    }
}

} // verus!
verus! {

/// No key occurs twice.
pub open spec fn distinct_keys(ks: Seq<Seq<char>>) -> bool {
    forall|i: int, j: int| 0 <= i < j < ks.len() ==> ks[i] != ks[j]
}

proof fn lemma_get_at(ks: Seq<Seq<char>>, vs: Seq<JsonView>, k: Seq<char>, i: int)
    requires
        distinct_keys(ks),
        0 <= i < ks.len(),
        ks[i] == k,
    ensures
        obj_get(ks, vs, k) == Some(vs[i]),
        find_key(ks, k) == Some(i),
{
    reveal(obj_get);
    assert(exists|j: int| 0 <= j < ks.len() && ks[j] == k);
    let j = choose|j: int| 0 <= j < ks.len() && ks[j] == k && forall|m: int| 0 <= m < j ==> ks[m] != k;
    assert(0 <= i < ks.len() && ks[i] == k && forall|m: int| 0 <= m < i ==> ks[m] != k);
    if j != i {
        if j < i {
            assert(ks[j] != ks[i]);
        } else {
            assert(ks[i] != ks[j]);
        }
    }
}

proof fn lemma_get_absent(ks: Seq<Seq<char>>, vs: Seq<JsonView>, k: Seq<char>)
    requires
        !ks.contains(k),
    ensures
        obj_get(ks, vs, k) is None,
        find_key(ks, k) is None,
{
    reveal(obj_get);
    assert(!(exists|j: int| 0 <= j < ks.len() && ks[j] == k));
}

/// The value under `x`, read through the positions.
proof fn lemma_get_cases(ks: Seq<Seq<char>>, vs: Seq<JsonView>, x: Seq<char>)
    requires
        distinct_keys(ks),
    ensures
        obj_get(ks, vs, x) is Some <==> ks.contains(x),
        ks.contains(x) ==> exists|i: int| 0 <= i < ks.len() && ks[i] == x && obj_get(ks, vs, x) == Some(vs[i]),
{
    if ks.contains(x) {
        let i = choose|i: int| 0 <= i < ks.len() && ks[i] == x;
        lemma_get_at(ks, vs, x, i);
    } else {
        lemma_get_absent(ks, vs, x);
    }
}

proof fn lemma_remove_facts(ks: Seq<Seq<char>>, vs: Seq<JsonView>, k: Seq<char>)
    requires
        distinct_keys(ks),
        ks.len() == vs.len(),
    ensures
        ({
            let (k2, v2) = obj_remove(ks, vs, k);
            &&& distinct_keys(k2)
            &&& k2.len() == v2.len()
            &&& obj_get(k2, v2, k) is None
            &&& forall|x: Seq<char>| x != k ==> #[trigger] obj_get(k2, v2, x) == obj_get(ks, vs, x)
        }),
{
    reveal(obj_remove);
    if ks.contains(k) {
        let i = choose|i: int| 0 <= i < ks.len() && ks[i] == k;
        lemma_get_at(ks, vs, k, i);
        let k2 = ks.remove(i);
        let v2 = vs.remove(i);
        assert(distinct_keys(k2)) by {
            assert forall|a: int, b: int| 0 <= a < b < k2.len() implies k2[a] != k2[b] by {
                let a0 = if a < i { a } else { a + 1 };
                let b0 = if b < i { b } else { b + 1 };
                assert(k2[a] == ks[a0] && k2[b] == ks[b0]);
            }
        }
        assert(!k2.contains(k)) by {
            if k2.contains(k) {
                let a = choose|a: int| 0 <= a < k2.len() && k2[a] == k;
                let a0 = if a < i { a } else { a + 1 };
                assert(ks[a0] == k);
                if a0 < i {
                    assert(ks[a0] != ks[i]);
                } else {
                    assert(ks[i] != ks[a0]);
                }
            }
        }
        lemma_get_absent(k2, v2, k);
        assert forall|x: Seq<char>| x != k implies #[trigger] obj_get(k2, v2, x) == obj_get(ks, vs, x) by {
            if ks.contains(x) {
                let j = choose|j: int| 0 <= j < ks.len() && ks[j] == x;
                lemma_get_at(ks, vs, x, j);
                assert(j != i);
                let j2 = if j < i { j } else { j - 1 };
                assert(k2[j2] == x && v2[j2] == vs[j]);
                lemma_get_at(k2, v2, x, j2);
            } else {
                lemma_get_absent(ks, vs, x);
                assert(!k2.contains(x)) by {
                    if k2.contains(x) {
                        let a = choose|a: int| 0 <= a < k2.len() && k2[a] == x;
                        let a0 = if a < i { a } else { a + 1 };
                        assert(ks[a0] == x);
                    }
                }
                lemma_get_absent(k2, v2, x);
            }
        }
    } else {
        lemma_get_absent(ks, vs, k);
    }
}

proof fn lemma_insert_facts(ks: Seq<Seq<char>>, vs: Seq<JsonView>, k: Seq<char>, v: JsonView)
    requires
        distinct_keys(ks),
        ks.len() == vs.len(),
    ensures
        ({
            let (k2, v2) = obj_insert(ks, vs, k, v);
            &&& distinct_keys(k2)
            &&& k2.len() == v2.len()
            &&& obj_get(k2, v2, k) == Some(v)
            &&& forall|x: Seq<char>| x != k ==> #[trigger] obj_get(k2, v2, x) == obj_get(ks, vs, x)
        }),
{
    reveal(obj_insert);
    if ks.contains(k) {
        let i = choose|i: int| 0 <= i < ks.len() && ks[i] == k;
        lemma_get_at(ks, vs, k, i);
        let v2 = vs.update(i, v);
        lemma_get_at(ks, v2, k, i);
        assert forall|x: Seq<char>| x != k implies #[trigger] obj_get(ks, v2, x) == obj_get(ks, vs, x) by {
            if ks.contains(x) {
                let j = choose|j: int| 0 <= j < ks.len() && ks[j] == x;
                lemma_get_at(ks, vs, x, j);
                lemma_get_at(ks, v2, x, j);
            } else {
                lemma_get_absent(ks, vs, x);
                lemma_get_absent(ks, v2, x);
            }
        }
    } else {
        lemma_get_absent(ks, vs, k);
        crate::defs::lemma_count_less_bound(ks, k);
        let p = count_less(ks, k) as int;
        let k2 = ks.insert(p, k);
        let v2 = vs.insert(p, v);
        assert(distinct_keys(k2)) by {
            assert forall|a: int, b: int| 0 <= a < b < k2.len() implies k2[a] != k2[b] by {
                if a == p {
                    assert(k2[b] == ks[b - 1]);
                } else if b == p {
                    assert(k2[a] == ks[a]);
                } else {
                    let a0 = if a < p { a } else { a - 1 };
                    let b0 = if b < p { b } else { b - 1 };
                    assert(k2[a] == ks[a0] && k2[b] == ks[b0]);
                }
            }
        }
        assert(k2[p] == k && v2[p] == v);
        lemma_get_at(k2, v2, k, p);
        assert forall|x: Seq<char>| x != k implies #[trigger] obj_get(k2, v2, x) == obj_get(ks, vs, x) by {
            if ks.contains(x) {
                let j = choose|j: int| 0 <= j < ks.len() && ks[j] == x;
                lemma_get_at(ks, vs, x, j);
                let j2 = if j < p { j } else { j + 1 };
                assert(k2[j2] == x && v2[j2] == vs[j]);
                lemma_get_at(k2, v2, x, j2);
            } else {
                lemma_get_absent(ks, vs, x);
                assert(!k2.contains(x)) by {
                    if k2.contains(x) {
                        let a = choose|a: int| 0 <= a < k2.len() && k2[a] == x;
                        if a < p {
                            assert(ks[a] == x);
                        } else if a > p {
                            assert(ks[a - 1] == x);
                        }
                    }
                }
                lemma_get_absent(k2, v2, x);
            }
        }
    }
}

proof fn lemma_exclusive_facts(ks: Seq<Seq<char>>, vs: Seq<JsonView>, ex: Seq<char>, bound: Seq<char>)
    requires
        distinct_keys(ks),
        ks.len() == vs.len(),
        ex != bound,
    ensures
        ({
            let (k2, v2) = exclusive_spec(ks, vs, ex, bound);
            &&& distinct_keys(k2)
            &&& k2.len() == v2.len()
            &&& forall|x: Seq<char>| x != ex && x != bound ==> #[trigger] obj_get(k2, v2, x) == obj_get(ks, vs, x)
            &&& (obj_get(ks, vs, ex) == Some(JsonView::Bool(true)) && obj_get(ks, vs, bound) is Some) ==> (
            obj_get(k2, v2, ex) == obj_get(ks, vs, bound) && obj_get(k2, v2, bound) is None)
        }),
{
    match obj_get(ks, vs, ex) {
        Some(JsonView::Bool(true)) => match obj_get(ks, vs, bound) {
            Some(b) => {
                lemma_remove_facts(ks, vs, bound);
                let (k1, v1) = obj_remove(ks, vs, bound);
                lemma_insert_facts(k1, v1, ex, b);
            },
            None => {
                lemma_remove_facts(ks, vs, ex);
            },
        },
        Some(JsonView::Bool(false)) => {
            lemma_remove_facts(ks, vs, ex);
        },
        _ => {},
    }
}

proof fn lemma_rest_facts(ks: Seq<Seq<char>>, vs: Seq<JsonView>)
    requires
        distinct_keys(ks),
        ks.len() == vs.len(),
    ensures
        ({
            let (k4, v4) = rest_spec(ks, vs);
            &&& (obj_get(ks, vs, "exclusiveMaximum"@) == Some(JsonView::Bool(true)) && obj_get(
                ks,
                vs,
                "maximum"@,
            ) is Some) ==> (obj_get(k4, v4, "exclusiveMaximum"@) == obj_get(ks, vs, "maximum"@)
                && obj_get(k4, v4, "maximum"@) is None)
            &&& (obj_get(ks, vs, "exclusiveMinimum"@) == Some(JsonView::Bool(true)) && obj_get(
                ks,
                vs,
                "minimum"@,
            ) is Some) ==> (obj_get(k4, v4, "exclusiveMinimum"@) == obj_get(ks, vs, "minimum"@)
                && obj_get(k4, v4, "minimum"@) is None)
            &&& distinct_keys(k4)
            &&& k4.len() == v4.len()
            &&& obj_get(k4, v4, "nullable"@) is None
            &&& obj_get(ks, vs, "example"@) is Some ==> (obj_get(k4, v4, "example"@) is None && obj_get(
                k4,
                v4,
                "examples"@,
            ) == if obj_get(ks, vs, "examples"@) is Some {
                obj_get(ks, vs, "examples"@)
            } else {
                Some(JsonView::Array(seq![obj_get(ks, vs, "example"@)->0]))
            })
            &&& forall|x: Seq<char>|
                x != "nullable"@ && x != "exclusiveMinimum"@ && x != "minimum"@ && x != "exclusiveMaximum"@ && x
                    != "maximum"@ && x != "example"@ && x != "examples"@ ==> #[trigger] obj_get(k4, v4, x)
                    == obj_get(ks, vs, x)
        }),
{
    reveal_strlit("nullable");
    reveal_strlit("exclusiveMinimum");
    reveal_strlit("minimum");
    reveal_strlit("exclusiveMaximum");
    reveal_strlit("maximum");
    reveal_strlit("example");
    reveal_strlit("examples");
    let emax = "exclusiveMaximum"@;
    let emin = "exclusiveMinimum"@;
    let max = "maximum"@;
    let min = "minimum"@;
    assert(emax[10] != emin[10]);
    assert(max[1] != min[1]);
    assert(emax.len() != max.len() && emax.len() != min.len() && emin.len() != max.len() && emin.len() != min.len());
    assert("nullable"@.len() != emax.len() && "nullable"@.len() != emin.len() && "nullable"@.len() != max.len());
    assert("nullable"@[0] != min[0]);
    assert("example"@.len() != emax.len() && "example"@.len() != emin.len() && "example"@[0] != max[0]);
    assert("example"@[0] != min[0]);
    assert("examples"@.len() != emax.len() && "examples"@.len() != emin.len() && "examples"@[0] != max[0]);
    assert("examples"@[0] != min[0]);
    lemma_remove_facts(ks, vs, "nullable"@);
    let (k1, v1) = obj_remove(ks, vs, "nullable"@);
    lemma_exclusive_facts(k1, v1, emin, min);
    let (k2, v2) = exclusive_spec(k1, v1, emin, min);
    lemma_exclusive_facts(k2, v2, emax, max);
    let (k3, v3) = exclusive_spec(k2, v2, emax, max);
    assert(obj_get(k1, v1, emax) == obj_get(ks, vs, emax));
    assert(obj_get(k1, v1, max) == obj_get(ks, vs, max));
    assert(obj_get(k1, v1, emin) == obj_get(ks, vs, emin));
    assert(obj_get(k1, v1, min) == obj_get(ks, vs, min));
    assert(obj_get(k2, v2, emax) == obj_get(k1, v1, emax));
    assert(obj_get(k2, v2, max) == obj_get(k1, v1, max));
    assert(obj_get(k3, v3, emin) == obj_get(k2, v2, emin));
    assert(obj_get(k3, v3, min) == obj_get(k2, v2, min));
    assert("nullable"@[0] != "example"@[0] && "nullable"@[0] != "examples"@[0]);
    assert("example"@.len() != "examples"@.len());
    assert(obj_get(k3, v3, "example"@) == obj_get(ks, vs, "example"@));
    assert(obj_get(k3, v3, "examples"@) == obj_get(ks, vs, "examples"@));
    assert(obj_get(k3, v3, "nullable"@) is None);
    match obj_get(k3, v3, "example"@) {
        Some(e) => {
            lemma_remove_facts(k3, v3, "example"@);
            let (k4, v4) = obj_remove(k3, v3, "example"@);
            if obj_get(k4, v4, "examples"@) is None {
                lemma_insert_facts(k4, v4, "examples"@, JsonView::Array(seq![e]));
            }
        },
        None => {},
    }
}

proof fn lemma_normalized_get(ks: Seq<Seq<char>>, vs: Seq<JsonView>, x: Seq<char>)
    requires
        distinct_keys(ks),
        ks.len() == vs.len(),
    ensures
        obj_get(ks, normalized_items(vs), x) == match obj_get(ks, vs, x) {
            Some(v) => Some(normalize_spec(v)),
            None => None,
        },
{
    let nv = normalized_items(vs);
    lemma_get_cases(ks, vs, x);
    lemma_get_cases(ks, nv, x);
    if ks.contains(x) {
        let i = choose|i: int| 0 <= i < ks.len() && ks[i] == x;
        lemma_get_at(ks, vs, x, i);
        lemma_get_at(ks, nv, x, i);
    }
}

/// Exclusive bounds in the 3.1 shape: in a schema object (its keys distinct,
/// not `nullable: true`) with `exclusiveMaximum: true` and a `maximum`, the
/// rewritten object has `exclusiveMaximum` set to that maximum and no
/// `maximum`; likewise `exclusiveMinimum` takes the `minimum`, which goes.
pub proof fn law_exclusive_bounds(ks: Seq<Seq<char>>, vs: Seq<JsonView>)
    requires
        distinct_keys(ks),
        ks.len() == vs.len(),
        obj_get(ks, vs, "nullable"@) != Some(JsonView::Bool(true)),
    ensures
        (obj_get(ks, vs, "exclusiveMaximum"@) == Some(JsonView::Bool(true)) && obj_get(ks, vs, "maximum"@) is Some)
            ==> get_spec(normalize_spec(JsonView::Object(ks, vs)), "exclusiveMaximum"@) == Some(
            normalize_spec(obj_get(ks, vs, "maximum"@)->0),
        ) && get_spec(normalize_spec(JsonView::Object(ks, vs)), "maximum"@) is None,
        (obj_get(ks, vs, "exclusiveMinimum"@) == Some(JsonView::Bool(true)) && obj_get(ks, vs, "minimum"@) is Some)
            ==> get_spec(normalize_spec(JsonView::Object(ks, vs)), "exclusiveMinimum"@) == Some(
            normalize_spec(obj_get(ks, vs, "minimum"@)->0),
        ) && get_spec(normalize_spec(JsonView::Object(ks, vs)), "minimum"@) is None,
{
    let nv = normalized_items(vs);
    lemma_normalized_get(ks, vs, "nullable"@);
    lemma_normalized_get(ks, vs, "exclusiveMaximum"@);
    lemma_normalized_get(ks, vs, "maximum"@);
    lemma_normalized_get(ks, vs, "exclusiveMinimum"@);
    lemma_normalized_get(ks, vs, "minimum"@);
    assert(obj_get(ks, nv, "nullable"@) != Some(JsonView::Bool(true))) by {
        if obj_get(ks, vs, "nullable"@) is Some {
            let v = obj_get(ks, vs, "nullable"@)->0;
            match v {
                JsonView::Array(a) => {},
                JsonView::Object(a, b) => {},
                _ => {},
            }
        }
    }
    assert(normalize_spec(JsonView::Bool(true)) == JsonView::Bool(true));
    assert(normalize_spec(JsonView::Object(ks, vs)) == rewrite_spec(ks, nv));
    lemma_rest_facts(ks, nv);
    let (k4, v4) = rest_spec(ks, nv);
    assert(rewrite_spec(ks, nv) == JsonView::Object(k4, v4));
    reveal(obj_get);
}

} // verus!
verus! {

/// The rest of a 3.0 schema object in the 3.1 shape: for an object (its keys
/// distinct, not `nullable: true`), the rewritten object has no `nullable`;
/// an `example` goes, and becomes a one-item `examples` unless there is one;
/// every key other than `nullable`, the bounds and the examples keeps its
/// (rewritten) value.
pub proof fn law_normalize_object(ks: Seq<Seq<char>>, vs: Seq<JsonView>)
    requires
        distinct_keys(ks),
        ks.len() == vs.len(),
        obj_get(ks, vs, "nullable"@) != Some(JsonView::Bool(true)),
    ensures
        get_spec(normalize_spec(JsonView::Object(ks, vs)), "nullable"@) is None,
        obj_get(ks, vs, "example"@) is Some ==> get_spec(normalize_spec(JsonView::Object(ks, vs)), "example"@)
            is None && get_spec(normalize_spec(JsonView::Object(ks, vs)), "examples"@) == match obj_get(
            ks,
            vs,
            "examples"@,
        ) {
            Some(x) => Some(normalize_spec(x)),
            None => Some(JsonView::Array(seq![normalize_spec(obj_get(ks, vs, "example"@)->0)])),
        },
        forall|x: Seq<char>|
            x != "nullable"@ && x != "exclusiveMinimum"@ && x != "minimum"@ && x != "exclusiveMaximum"@ && x
                != "maximum"@ && x != "example"@ && x != "examples"@ ==> #[trigger] get_spec(
                normalize_spec(JsonView::Object(ks, vs)),
                x,
            ) == match obj_get(ks, vs, x) {
                Some(v) => Some(normalize_spec(v)),
                None => None,
            },
{
    let nv = normalized_items(vs);
    lemma_normalized_get(ks, vs, "nullable"@);
    lemma_normalized_get(ks, vs, "example"@);
    lemma_normalized_get(ks, vs, "examples"@);
    assert(obj_get(ks, nv, "nullable"@) != Some(JsonView::Bool(true))) by {
        if obj_get(ks, vs, "nullable"@) is Some {
            let v = obj_get(ks, vs, "nullable"@)->0;
            match v {
                JsonView::Array(a) => {},
                JsonView::Object(a, b) => {},
                _ => {},
            }
        }
    }
    assert(normalize_spec(JsonView::Object(ks, vs)) == rewrite_spec(ks, nv));
    lemma_rest_facts(ks, nv);
    let (k4, v4) = rest_spec(ks, nv);
    assert(rewrite_spec(ks, nv) == JsonView::Object(k4, v4));
    reveal(obj_get);
    assert forall|x: Seq<char>|
        x != "nullable"@ && x != "exclusiveMinimum"@ && x != "minimum"@ && x != "exclusiveMaximum"@ && x
            != "maximum"@ && x != "example"@ && x != "examples"@ implies #[trigger] get_spec(
            normalize_spec(JsonView::Object(ks, vs)),
            x,
        ) == match obj_get(ks, vs, x) {
            Some(v) => Some(normalize_spec(v)),
            None => None,
        } by {
        lemma_normalized_get(ks, vs, x);
        assert(obj_get(k4, v4, x) == obj_get(ks, nv, x));
    }
}

/// A nullable schema with a string `type` (and no `$ref`) gets `null` added
/// to its type, as `[type, "null"]`, and loses `nullable`.
pub proof fn law_nullable_type(ks: Seq<Seq<char>>, vs: Seq<JsonView>, t: Seq<char>)
    requires
        distinct_keys(ks),
        ks.len() == vs.len(),
        obj_get(ks, vs, "nullable"@) == Some(JsonView::Bool(true)),
        obj_get(ks, vs, "$ref"@) is None,
        obj_get(ks, vs, "type"@) == Some(JsonView::Str(t)),
    ensures
        get_spec(normalize_spec(JsonView::Object(ks, vs)), "type"@) == Some(
            JsonView::Array(seq![JsonView::Str(t), JsonView::Str("null"@)]),
        ),
        get_spec(normalize_spec(JsonView::Object(ks, vs)), "nullable"@) is None,
{
    reveal_strlit("type");
    reveal_strlit("nullable");
    reveal_strlit("exclusiveMinimum");
    reveal_strlit("minimum");
    reveal_strlit("exclusiveMaximum");
    reveal_strlit("maximum");
    reveal_strlit("example");
    reveal_strlit("examples");
    let nv = normalized_items(vs);
    lemma_normalized_get(ks, vs, "nullable"@);
    lemma_normalized_get(ks, vs, "$ref"@);
    lemma_normalized_get(ks, vs, "type"@);
    assert(normalize_spec(JsonView::Bool(true)) == JsonView::Bool(true));
    assert(normalize_spec(JsonView::Str(t)) == JsonView::Str(t));
    let ty = JsonView::Array(seq![JsonView::Str(t), JsonView::Str("null"@)]);
    lemma_insert_facts(ks, nv, "type"@, ty);
    let (k1, v1) = obj_insert(ks, nv, "type"@, ty);
    lemma_rest_facts(k1, v1);
    let (k2, v2) = rest_spec(k1, v1);
    assert(normalize_spec(JsonView::Object(ks, vs)) == JsonView::Object(k2, v2));
    assert("type"@.len() != "nullable"@.len() && "type"@.len() != "minimum"@.len());
    assert("type"@.len() != "exclusiveMinimum"@.len() && "type"@.len() != "exclusiveMaximum"@.len());
    assert("type"@.len() != "maximum"@.len() && "type"@.len() != "example"@.len());
    assert("type"@.len() != "examples"@.len());
    assert(obj_get(k2, v2, "type"@) == obj_get(k1, v1, "type"@));
    reveal(obj_get);
}

} // verus!
