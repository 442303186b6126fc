//! Category assignment: the first non-blank tag, else the first meaningful
//! path segment, else the normalized name of the schema, else `untagged`.
use vstd::prelude::*;
use crate::text;
use crate::names;

verus! {

/// Path segments that say nothing about what an operation is about.
pub open spec fn is_generic_segment(seg: Seq<char>) -> bool {
    let l = text::lower_seq(seg);
    l == "v1"@ || l == "v2"@ || l == "v3"@ || l == "api"@ || l == "rest"@
}

/// A segment that can name a category: not empty, not a `{parameter}`, not generic.
pub open spec fn is_category_segment(seg: Seq<char>) -> bool {
    seg.len() > 0 && seg[0] != '{' && !is_generic_segment(seg)
}

/// The first category segment of `s`, reading `s` after the partial segment `cur`.
pub open spec fn prefix_scan(s: Seq<char>, cur: Seq<char>) -> Option<Seq<char>>
    decreases s.len(),
{
    if s.len() == 0 {
        if is_category_segment(cur) {
            Some(cur)
        } else {
            None
        }
    } else if s[0] == '/' {
        if is_category_segment(cur) {
            Some(cur)
        } else {
            prefix_scan(s.drop_first(), Seq::empty())
        }
    } else {
        prefix_scan(s.drop_first(), cur.push(s[0]))
    }
}

/// The first `/`-separated segment of a path that can name a category.
pub open spec fn path_prefix_spec(path: Seq<char>) -> Option<Seq<char>> {
    prefix_scan(path, Seq::empty())
}

/// The first tag that is not blank, trimmed.
pub open spec fn first_tag(tags: Seq<Seq<char>>) -> Option<Seq<char>>
    decreases tags.len(),
{
    if tags.len() == 0 {
        None
    } else if text::trim_ws(tags[0]).len() > 0 {
        Some(text::trim_ws(tags[0]))
    } else {
        first_tag(tags.drop_first())
    }
}

/// The category of an operation.
pub open spec fn category_spec(
    tags: Seq<Seq<char>>,
    path: Seq<char>,
    schema_ref_name: Option<Seq<char>>,
) -> Seq<char> {
    if first_tag(tags) is Some {
        first_tag(tags)->0
    } else if path_prefix_spec(path) is Some {
        path_prefix_spec(path)->0
    } else if names::present_text(schema_ref_name) is Some {
        names::normalize_spec(names::present_text(schema_ref_name)->0, false)
    } else {
        "untagged"@
    }
}

pub open spec fn views(tags: Seq<String>) -> Seq<Seq<char>> {
    tags.map_values(|t: String| t@)
}

fn is_generic_segment_exec(seg: &Vec<char>) -> (r: bool)
    ensures
        r == is_generic_segment(seg@),
{
    let mut l: Vec<char> = Vec::new();
    let mut i: usize = 0;
    while i < seg.len()
        invariant
            i <= seg.len(),
            l@ =~= text::lower_seq(seg@).take(i as int),
        decreases seg.len() - i,
    {
        l.push(text::to_lower(seg[i]));
        i = i + 1;
    }
    assert(l@ =~= text::lower_seq(seg@));
    text::seq_eq(&l, &text::chars_of("v1")) || text::seq_eq(&l, &text::chars_of("v2"))
        || text::seq_eq(&l, &text::chars_of("v3")) || text::seq_eq(&l, &text::chars_of("api"))
        || text::seq_eq(&l, &text::chars_of("rest"))
}

fn is_category_segment_exec(seg: &Vec<char>) -> (r: bool)
    ensures
        r == is_category_segment(seg@),
{
    seg.len() > 0 && seg[0] != '{' && !is_generic_segment_exec(seg)
}

/// The first path segment that can name a category (`path_prefix_spec`).
pub fn path_prefix(path: &str) -> (r: Option<String>)
    ensures
        match r {
            Some(s) => path_prefix_spec(path@) == Some(s@),
            None => path_prefix_spec(path@) is None,
        },
{
    let p = text::chars_of(path);
    let mut cur: Vec<char> = Vec::new();
    let mut i: usize = 0;
    assert(p@.skip(0) =~= p@);
    while i < p.len()
        invariant
            i <= p.len(),
            p@ == path@,
            path_prefix_spec(path@) == prefix_scan(p@.skip(i as int), cur@),
        decreases p.len() - i,
    {
        let ghost rest = p@.skip(i as int);
        assert(rest[0] == p@[i as int]);
        assert(rest.drop_first() =~= p@.skip(i + 1));
        if p[i] == '/' {
            if is_category_segment_exec(&cur) {
                return Some(text::string_of(&cur));
            }
            cur = Vec::new();
            assert(cur@ =~= Seq::<char>::empty());
        } else {
            cur.push(p[i]);
        }
        i = i + 1;
    }
    if is_category_segment_exec(&cur) {
        Some(text::string_of(&cur))
    } else {
        None
    }
}

/// The category of an operation (`category_spec`).
pub fn category(tags: &[String], path_template: &str, schema_ref_name: Option<&str>) -> (r:
    String)
    ensures
        r@ == category_spec(views(tags@), path_template@, names::opt_view(schema_ref_name)),
{
    let ghost tv = views(tags@);
    let mut i: usize = 0;
    assert(tv.skip(0) =~= tv);
    while i < tags.len()
        invariant
            i <= tags.len(),
            tv == views(tags@),
            first_tag(tv) == first_tag(tv.skip(i as int)),
        decreases tags.len() - i,
    {
        let t = text::trim(tags[i].as_str());
        let ghost rest = tv.skip(i as int);
        assert(rest[0] == tags@[i as int]@);
        assert(rest.drop_first() =~= tv.skip(i + 1));
        if t.len() > 0 {
            return text::string_of(&t);
        }
        i = i + 1;
    }
    assert(tv.skip(tags.len() as int).len() == 0);
    if let Some(seg) = path_prefix(path_template) {
        return seg;
    }
    if let Some(name) = schema_ref_name {
        let t = text::trim(name);
        if t.len() > 0 {
            let s = text::string_of(&t);
            return names::normalize(s.as_str(), false);
        }
    }
    text::owned("untagged")
}

} // verus!
verus! {

/// The first segment that can name a category.
pub open spec fn first_category_segment(segs: Seq<Seq<char>>) -> Option<Seq<char>>
    decreases segs.len(),
{
    if segs.len() == 0 {
        None
    } else if is_category_segment(segs[0]) {
        Some(segs[0])
    } else {
        first_category_segment(segs.drop_first())
    }
}

proof fn lemma_prefix_scan_split(s: Seq<char>, cur: Seq<char>)
    ensures
        prefix_scan(s, cur) == first_category_segment(text::split_scan(s, '/', cur)),
    decreases s.len(),
{
    let segs = text::split_scan(s, '/', cur);
    if s.len() == 0 {
        assert(segs =~= seq![cur]);
        assert(segs.drop_first() =~= Seq::<Seq<char>>::empty());
        assert(segs[0] == cur);
        assert(first_category_segment(Seq::<Seq<char>>::empty()) is None);
    } else if s[0] == '/' {
        let rest = text::split_scan(s.drop_first(), '/', Seq::empty());
        lemma_prefix_scan_split(s.drop_first(), Seq::empty());
        assert(segs[0] == cur);
        assert(segs.drop_first() =~= rest);
    } else {
        lemma_prefix_scan_split(s.drop_first(), cur.push(s[0]));
        assert(segs == text::split_scan(s.drop_first(), '/', cur.push(s[0])));
    }
}

proof fn lemma_first_category_segment(segs: Seq<Seq<char>>)
    ensures
        first_category_segment(segs) is Some <==> exists|k: int| 0 <= k < segs.len() && is_category_segment(#[trigger] segs[k]),
        first_category_segment(segs) matches Some(x) ==> exists|k: int|
            0 <= k < segs.len() && is_category_segment(#[trigger] segs[k]) && x == segs[k] && forall|j: int|
                0 <= j < k ==> !is_category_segment(#[trigger] segs[j]),
    decreases segs.len(),
{
    if segs.len() > 0 {
        let rest = segs.drop_first();
        lemma_first_category_segment(rest);
        if !is_category_segment(segs[0]) {
            if exists|k: int| 0 <= k < segs.len() && is_category_segment(#[trigger] segs[k]) {
                let k = choose|k: int| 0 <= k < segs.len() && is_category_segment(#[trigger] segs[k]);
                assert(rest[k - 1] == segs[k]);
            }
            if first_category_segment(rest) is Some {
                let k = choose|k: int|
                    0 <= k < rest.len() && is_category_segment(#[trigger] rest[k]) && first_category_segment(rest)->0
                        == rest[k] && forall|j: int| 0 <= j < k ==> !is_category_segment(#[trigger] rest[j]);
                assert(segs[k + 1] == rest[k]);
                assert forall|j: int| 0 <= j < k + 1 implies !is_category_segment(#[trigger] segs[j]) by {
                    if j > 0 {
                        assert(segs[j] == rest[j - 1]);
                    }
                }
            }
        }
    }
}

proof fn lemma_first_tag(tags: Seq<Seq<char>>)
    ensures
        first_tag(tags) is Some <==> exists|i: int| 0 <= i < tags.len() && text::trim_ws(#[trigger] tags[i]).len() > 0,
        first_tag(tags) matches Some(t) ==> exists|i: int|
            0 <= i < tags.len() && text::trim_ws(#[trigger] tags[i]).len() > 0 && t == text::trim_ws(tags[i])
                && forall|j: int| 0 <= j < i ==> text::trim_ws(#[trigger] tags[j]).len() == 0,
    decreases tags.len(),
{
    if tags.len() > 0 {
        let rest = tags.drop_first();
        lemma_first_tag(rest);
        if text::trim_ws(tags[0]).len() == 0 {
            if exists|i: int| 0 <= i < tags.len() && text::trim_ws(#[trigger] tags[i]).len() > 0 {
                let i = choose|i: int| 0 <= i < tags.len() && text::trim_ws(#[trigger] tags[i]).len() > 0;
                assert(rest[i - 1] == tags[i]);
            }
            if first_tag(rest) is Some {
                let i = choose|i: int|
                    0 <= i < rest.len() && text::trim_ws(#[trigger] rest[i]).len() > 0 && first_tag(rest)->0
                        == text::trim_ws(rest[i]) && forall|j: int|
                        0 <= j < i ==> text::trim_ws(#[trigger] rest[j]).len() == 0;
                assert(tags[i + 1] == rest[i]);
                assert forall|j: int| 0 <= j < i + 1 implies text::trim_ws(#[trigger] tags[j]).len() == 0 by {
                    if j > 0 {
                        assert(tags[j] == rest[j - 1]);
                    }
                }
            }
        }
    }
}

/// What the category is, stated over positions: the first tag that is not
/// blank, trimmed; when every tag is blank, the first `/`-separated segment
/// of the path that is not empty, does not start with `{` and is not
/// `v1`, `v2`, `v3`, `api` or `rest` in any case; when there is none, the
/// normalized schema name if it is not blank; else `untagged`.
pub proof fn law_category(tags: Seq<Seq<char>>, path: Seq<char>, schema_ref_name: Option<Seq<char>>)
    ensures
        (exists|i: int| 0 <= i < tags.len() && text::trim_ws(#[trigger] tags[i]).len() > 0) ==> exists|i: int|
            0 <= i < tags.len() && text::trim_ws(#[trigger] tags[i]).len() > 0 && (forall|j: int|
                0 <= j < i ==> text::trim_ws(#[trigger] tags[j]).len() == 0) && category_spec(
                tags,
                path,
                schema_ref_name,
            ) == text::trim_ws(tags[i]),
        (forall|i: int| 0 <= i < tags.len() ==> text::trim_ws(#[trigger] tags[i]).len() == 0) && (exists|k: int|
            0 <= k < text::split(path, '/').len() && is_category_segment(#[trigger] text::split(path, '/')[k]))
            ==> exists|k: int|
            0 <= k < text::split(path, '/').len() && is_category_segment(#[trigger] text::split(path, '/')[k])
                && (forall|j: int|
                0 <= j < k ==> !is_category_segment(#[trigger] text::split(path, '/')[j])) && category_spec(
                tags,
                path,
                schema_ref_name,
            ) == text::split(path, '/')[k],
        (forall|i: int| 0 <= i < tags.len() ==> text::trim_ws(#[trigger] tags[i]).len() == 0) && (forall|k: int|
            0 <= k < text::split(path, '/').len() ==> !is_category_segment(#[trigger] text::split(path, '/')[k]))
            ==> category_spec(tags, path, schema_ref_name) == match names::present_text(schema_ref_name) {
            Some(n) => names::normalize_spec(n, false),
            None => "untagged"@,
        },
{
    lemma_first_tag(tags);
    lemma_prefix_scan_split(path, Seq::empty());
    lemma_first_category_segment(text::split(path, '/'));
}

} // verus!
