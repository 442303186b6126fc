//! Following an OpenAPI `$ref` (path item, parameter, request body,
//! response). Remote documents come from a cache that the caller fills: a
//! reference into a document not yet fetched asks for it.
use vstd::prelude::*;
use crate::bundle::ref_of;
use crate::json::{self, obj_insert, Json, JsonView, Member, Obj};
use crate::refs::{self, pointer_spec, split_frag_spec};
use crate::schema::{member_keys, member_values, Props};
use crate::text;

verus! {

/// The deepest chain of references followed.
pub const REF_CHAIN_DEPTH: usize = 32;

/// How following a reference ends: the object it leads to, a reference
/// that cannot be followed (with the text of the error), or a remote
/// document to fetch first.
pub enum Resolution {
    Found(Json),
    Unresolved(String),
    NeedsFetch(String),
}

pub enum ResolutionView {
    Found(JsonView),
    Unresolved(Seq<char>),
    NeedsFetch(Seq<char>),
}

impl View for Resolution {
    type V = ResolutionView;

    open spec fn view(&self) -> ResolutionView {
        match self {
            Resolution::Found(j) => ResolutionView::Found(j@),
            Resolution::Unresolved(s) => ResolutionView::Unresolved(s@),
            Resolution::NeedsFetch(u) => ResolutionView::NeedsFetch(u@),
        }
    }
}

pub type CacheView = Seq<(Seq<char>, JsonView)>;

pub open spec fn cache_view(c: Seq<(String, Json)>) -> CacheView {
    Seq::new(c.len(), |i: int| (c[i].0@, c[i].1@))
}

/// The first fetched document for a URL.
pub open spec fn lookup(cache: CacheView, url: Seq<char>) -> Option<JsonView>
    decreases cache.len(),
{
    if cache.len() == 0 {
        None
    } else if cache[0].0 == url {
        Some(cache[0].1)
    } else {
        lookup(cache.drop_first(), url)
    }
}

/// What a reference points at, and the document further `#` references are
/// read in: a local pointer into the root; a remote one (`https://` or
/// `file:`) into the fetched document, whole without a fragment.
pub open spec fn load_spec(root: JsonView, r: Seq<char>, cache: CacheView) -> Result<(JsonView, JsonView), ResolutionView> {
    if text::has_prefix(r, "#"@) {
        match pointer_spec(root, r.drop_first()) {
            Some(v) => Ok((v, root)),
            None => Err(ResolutionView::Unresolved(r)),
        }
    } else if text::has_prefix(r, "https://"@) || text::has_prefix(r, "file:"@) {
        let (url, frag) = split_frag_spec(r);
        match lookup(cache, url) {
            None => Err(ResolutionView::NeedsFetch(url)),
            Some(remote) => match frag {
                Some(f) => match pointer_spec(remote, f) {
                    Some(v) => Ok((v, remote)),
                    None => Err(ResolutionView::Unresolved(r)),
                },
                None => Ok((remote, remote)),
            },
        }
    } else {
        Err(ResolutionView::Unresolved(r))
    }
}

/// The members of the referring object, other than `$ref`, laid over the
/// object it resolved to, in order.
pub open spec fn overlay_members(ks: Seq<Seq<char>>, vs: Seq<JsonView>, n: int, base: Props) -> Props
    decreases n,
{
    if n <= 0 || n > ks.len() || n > vs.len() {
        base
    } else {
        let (a, b) = overlay_members(ks, vs, n - 1, base);
        if ks[n - 1] == "$ref"@ {
            (a, b)
        } else {
            obj_insert(a, b, ks[n - 1], vs[n - 1])
        }
    }
}

/// A resolved object with the referring object's other members over it,
/// when the referring object has any and the result is an object.
pub open spec fn overlay(value: JsonView, res: JsonView) -> JsonView {
    match (value, res) {
        (JsonView::Object(ks, vs), JsonView::Object(bk, bv)) => if ks.len() > 1 {
            let (a, b) = overlay_members(ks, vs, ks.len() as int, (bk, bv));
            JsonView::Object(a, b)
        } else {
            res
        },
        _ => res,
    }
}

/// Following the references of `value` in `root`, at a chain depth, with
/// the references being followed: too deep and cyclic chains fail.
pub open spec fn resolve_spec(root: JsonView, value: JsonView, cache: CacheView, depth: nat, visiting: Seq<Seq<char>>) -> ResolutionView
    decreases REF_CHAIN_DEPTH + 1 - depth,
{
    if depth > REF_CHAIN_DEPTH {
        ResolutionView::Unresolved("max $ref depth"@)
    } else {
        match ref_of(value) {
            None => ResolutionView::Found(value),
            Some(r) => if visiting.contains(r) {
                ResolutionView::Unresolved("cyclic $ref "@ + r)
            } else {
                match load_spec(root, r, cache) {
                    Err(e) => e,
                    Ok((target, new_root)) => match resolve_spec(
                        new_root,
                        target,
                        cache,
                        depth + 1,
                        visiting.push(r),
                    ) {
                        ResolutionView::Found(res) => ResolutionView::Found(overlay(value, res)),
                        other => other,
                    },
                }
            },
        }
    }
}

fn lookup_exec<'a>(cache: &'a Vec<(String, Json)>, url: &str) -> (r: Option<&'a Json>)
    ensures
        json::opt_view(r) == lookup(cache_view(cache@), url@),
{
    let ghost cv = cache_view(cache@);
    let mut i: usize = 0;
    assert(cv.skip(0) =~= cv);
    while i < cache.len()
        invariant
            cv == cache_view(cache@),
            i <= cache@.len(),
            lookup(cv.skip(i as int), url@) == lookup(cv, url@),
        decreases cache@.len() - i,
    {
        let ghost rest = cv.skip(i as int);
        assert(rest[0] == cv[i as int]);
        assert(rest.drop_first() =~= cv.skip(i + 1));
        if text::str_eq(cache[i].0.as_str(), url) {
            return Some(&cache[i].1);
        }
        i = i + 1;
    }
    assert(cv.skip(i as int) =~= Seq::<(Seq<char>, JsonView)>::empty());
    None
}

fn load_exec(root: &Json, r: &str, cache: &Vec<(String, Json)>) -> (out: Result<(Json, Json), Resolution>)
    ensures
        match out {
            Ok((v, nr)) => load_spec(root@, r@, cache_view(cache@)) == Ok::<(JsonView, JsonView), ResolutionView>((v@, nr@)),
            Err(e) => load_spec(root@, r@, cache_view(cache@)) == Err::<(JsonView, JsonView), ResolutionView>(e@),
        },
{
    let v = text::chars_of(r);
    proof {
        reveal_strlit("#");
    }
    if text::vec_has_prefix(&v, &text::chars_of("#")) {
        let mut rest: Vec<char> = Vec::new();
        let mut i: usize = 1;
        while i < v.len()
            invariant
                1 <= i <= v@.len(),
                rest@ == v@.subrange(1, i as int),
            decreases v@.len() - i,
        {
            rest.push(v[i]);
            assert(rest@ =~= v@.subrange(1, i + 1));
            i = i + 1;
        }
        assert(rest@ =~= r@.drop_first());
        let rs = text::string_of(&rest);
        return match refs::pointer(root, rs.as_str()) {
            Some(t) => Ok((t.duplicate(), root.duplicate())),
            None => Err(Resolution::Unresolved(r.to_owned())),
        };
    }
    if text::vec_has_prefix(&v, &text::chars_of("https://")) || text::vec_has_prefix(
        &v,
        &text::chars_of("file:"),
    ) {
        let (url, frag) = refs::split_url_frag(r);
        return match lookup_exec(cache, url.as_str()) {
            None => Err(Resolution::NeedsFetch(url)),
            Some(remote) => match frag {
                Some(f) => match refs::pointer(remote, f.as_str()) {
                    Some(t) => Ok((t.duplicate(), remote.duplicate())),
                    None => Err(Resolution::Unresolved(r.to_owned())),
                },
                None => Ok((remote.duplicate(), remote.duplicate())),
            },
        };
    }
    Err(Resolution::Unresolved(r.to_owned()))
}

fn overlay_exec(value: &Json, res: Json) -> (r: Json)
    ensures
        r@ == overlay(value@, res@),
{
    match (value, &res) {
        (Json::Object(m), Json::Object(bm)) => {
            if m.len() > 1 {
                let mut base = Obj::of_members(bm);
                let ghost ks = member_keys(m@);
                let ghost vs = member_values(m@);
                let ghost b0 = (base.ks(), base.vs());
                proof {
                    assert(value@->Object_0 =~= ks);
                    assert(value@->Object_1 =~= vs);
                    assert(res@->Object_0 =~= b0.0);
                    assert(res@->Object_1 =~= b0.1);
                }
                let mut i: usize = 0;
                while i < m.len()
                    invariant
                        ks == member_keys(m@),
                        vs == member_values(m@),
                        base.wf(),
                        i <= m@.len(),
                        (base.ks(), base.vs()) == overlay_members(ks, vs, i as int, b0),
                    decreases m@.len() - i,
                {
                    if !text::str_eq(m[i].key.as_str(), "$ref") {
                        base.insert(m[i].key.as_str(), m[i].value.duplicate());
                    }
                    i = i + 1;
                }
                base.into_json()
            } else {
                res
            }
        },
        _ => res,
    }
}

fn own_ref(value: &Json) -> (r: Option<String>)
    ensures
        crate::urls::opt_str_view(r) == ref_of(value@),
{
    match value {
        Json::Object(m) => {
            let o = Obj::of_members(m);
            proof {
                assert(value@->Object_0 =~= o.ks());
                assert(value@->Object_1 =~= o.vs());
            }
            match o.get("$ref") {
                Some(Json::Str(s)) => Some(s.clone()),
                _ => None,
            }
        },
        _ => None,
    }
}

fn resolve_inner(root: &Json, value: &Json, cache: &Vec<(String, Json)>, depth: usize, visiting: &mut Vec<String>) -> (r: Resolution)
    requires
        depth <= REF_CHAIN_DEPTH + 1,
    ensures
        r@ == resolve_spec(
            root@,
            value@,
            cache_view(cache@),
            depth as nat,
            crate::schema::strings_view(old(visiting)@),
        ),
        final(visiting)@ == old(visiting)@,
    decreases REF_CHAIN_DEPTH + 1 - depth,
{
    if depth > REF_CHAIN_DEPTH {
        return Resolution::Unresolved("max $ref depth".to_owned());
    }
    let r = match own_ref(value) {
        Some(r) => r,
        None => return Resolution::Found(value.duplicate()),
    };
    let ghost vis = crate::schema::strings_view(visiting@);
    if crate::schema::contains_string(visiting, r.as_str()) {
        return Resolution::Unresolved(text::cat("cyclic $ref ", r.as_str()));
    }
    let (target, new_root) = match load_exec(root, r.as_str(), cache) {
        Ok(x) => x,
        Err(e) => return e,
    };
    let ghost before = visiting@;
    visiting.push(r.clone());
    assert(crate::schema::strings_view(visiting@) =~= vis.push(r@));
    let inner = resolve_inner(&new_root, &target, cache, depth + 1, visiting);
    visiting.pop();
    assert(visiting@ =~= before);
    match inner {
        Resolution::Found(res) => Resolution::Found(overlay_exec(value, res)),
        other => other,
    }
}

/// Follows the references of `value` in `root` (`resolve_spec` from depth
/// 0, with none being followed); remote documents come from `cache`.
pub fn resolve_openapi_object(root: &Json, value: &Json, cache: &Vec<(String, Json)>) -> (r: Resolution)
    ensures
        r@ == resolve_spec(root@, value@, cache_view(cache@), 0, Seq::empty()),
{
    let mut visiting: Vec<String> = Vec::new();
    assert(crate::schema::strings_view(visiting@) =~= Seq::<Seq<char>>::empty());
    resolve_inner(root, value, cache, 0, &mut visiting)
}

} // verus!
