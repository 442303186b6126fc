//! Reads the lowering of an operation makes of the OpenAPI document: media
//! types of bodies and responses, effective servers and security, and the
//! small texts derived from names and paths.
use vstd::prelude::*;
use crate::json::{self, Json, JsonView, Member};
use crate::media;
use crate::text;

verus! {

/// A streaming media type: server-sent events, JSON sequences, websockets.
pub open spec fn streaming_type(ct: Seq<char>) -> bool {
    let b = media::media_type_base_spec(ct);
    b == "text/event-stream"@ || b == "application/json-seq"@ || b == "application/websocket"@
}

/// A body media type that is not compiled: multipart, octet streams, images.
pub open spec fn binary_type(ct: Seq<char>) -> bool {
    let b = media::media_type_base_spec(ct);
    text::has_prefix(b, "multipart/"@) || b == "application/octet-stream"@ || text::has_prefix(
        b,
        "image/"@,
    )
}

/// Some key of the object under `content` has a streaming media type.
pub open spec fn has_streaming_content(v: Option<JsonView>) -> bool {
    match v {
        Some(o) => match json::get_spec(o, "content"@) {
            Some(JsonView::Object(ks, _)) => any_streaming(ks),
            _ => false,
        },
        None => false,
    }
}

/// The operation streams: its request body or one of its responses has
/// streaming content.
pub open spec fn is_streaming_spec(op: JsonView) -> bool {
    has_streaming_content(json::get_spec(op, "requestBody"@)) || match json::get_spec(
        op,
        "responses"@,
    ) {
        Some(JsonView::Object(_, vs)) => exists|i: int|
            0 <= i < vs.len() && has_streaming_content(Some(vs[i])),
        _ => false,
    }
}

/// The request body has a binary or multipart media type.
pub open spec fn is_binary_body_spec(op: JsonView) -> bool {
    match json::get_spec(op, "requestBody"@) {
        Some(b) => match json::get_spec(b, "content"@) {
            Some(JsonView::Object(ks, _)) => any_binary(ks),
            _ => false,
        },
        None => false,
    }
}

fn streaming_type_exec(ct: &str) -> (r: bool)
    ensures
        r == streaming_type(ct@),
{
    let b = media::media_type_base(ct);
    text::str_eq(b.as_str(), "text/event-stream") || text::str_eq(b.as_str(), "application/json-seq")
        || text::str_eq(b.as_str(), "application/websocket")
}

fn binary_type_exec(ct: &str) -> (r: bool)
    ensures
        r == binary_type(ct@),
{
    let b = media::media_type_base(ct);
    let bv = text::chars_of(b.as_str());
    text::vec_has_prefix(&bv, &text::chars_of("multipart/")) || text::str_eq(
        b.as_str(),
        "application/octet-stream",
    ) || text::vec_has_prefix(&bv, &text::chars_of("image/"))
}

/// The keys of an object's members, in order.
pub open spec fn member_keys(m: Seq<Member>) -> Seq<Seq<char>> {
    Seq::new(m.len(), |i: int| m[i].key@)
}

/// Some key has a streaming media type.
pub open spec fn any_streaming(ks: Seq<Seq<char>>) -> bool {
    exists|i: int| 0 <= i < ks.len() && streaming_type(ks[i])
}

/// Some key has a binary media type.
pub open spec fn any_binary(ks: Seq<Seq<char>>) -> bool {
    exists|i: int| 0 <= i < ks.len() && binary_type(ks[i])
}

/// Whether some key of an object satisfies the media-type test (`streaming`
/// selects which).
fn any_key(m: &Vec<Member>, streaming: bool) -> (r: bool)
    ensures
        r == (if streaming {
            any_streaming(member_keys(m@))
        } else {
            any_binary(member_keys(m@))
        }),
{
    let ghost ks = member_keys(m@);
    let mut i: usize = 0;
    while i < m.len()
        invariant
            ks == member_keys(m@),
            i <= m@.len(),
            forall|j: int|
                0 <= j < i ==> !(if streaming {
                    streaming_type(#[trigger] ks[j])
                } else {
                    binary_type(ks[j])
                }),
        decreases m@.len() - i,
    {
        let hit = if streaming {
            streaming_type_exec(m[i].key.as_str())
        } else {
            binary_type_exec(m[i].key.as_str())
        };
        if hit {
            assert(ks[i as int] == m@[i as int].key@);
            return true;
        }
        i = i + 1;
    }
    false
}

fn streaming_content(v: Option<&Json>) -> (r: bool)
    ensures
        r == has_streaming_content(json::opt_view(v)),
{
    match v {
        Some(o) => match o.get("content") {
            Some(Json::Object(m)) => {
                let r = any_key(m, true);
                proof {
                    let ks = json::get_spec(o@, "content"@)->Some_0->Object_0;
                    assert(ks =~= member_keys(m@));
                }
                r
            },
            _ => false,
        },
        None => false,
    }
}

/// Whether the operation streams (`is_streaming_spec`).
pub fn is_streaming(op: &Json) -> (r: bool)
    ensures
        r == is_streaming_spec(op@),
{
    if streaming_content(op.get("requestBody")) {
        return true;
    }
    match op.get("responses") {
        Some(Json::Object(m)) => {
            let ghost vs = json::get_spec(op@, "responses"@)->Some_0->Object_1;
            let mut i: usize = 0;
            while i < m.len()
                invariant
                    vs == Seq::new(m@.len(), |k: int| m@[k].value@),
                    json::get_spec(op@, "responses"@) matches Some(JsonView::Object(_, w)) && w == vs,
                    i <= m@.len(),
                    forall|j: int| 0 <= j < i ==> !has_streaming_content(Some(#[trigger] vs[j])),
                decreases m@.len() - i,
            {
                if streaming_content(Some(&m[i].value)) {
                    assert(has_streaming_content(Some(vs[i as int])));
                    assert(exists|k: int| 0 <= k < vs.len() && has_streaming_content(Some(vs[k])));
                    return true;
                }
                i = i + 1;
            }
            false
        },
        _ => false,
    }
}

/// Whether the request body is binary or multipart (`is_binary_body_spec`).
pub fn is_binary_body(op: &Json) -> (r: bool)
    ensures
        r == is_binary_body_spec(op@),
{
    match op.get("requestBody") {
        Some(b) => match b.get("content") {
            Some(Json::Object(m)) => {
                let r = any_key(m, false);
                proof {
                    let ks = json::get_spec(b@, "content"@)->Some_0->Object_0;
                    assert(ks =~= member_keys(m@));
                }
                r
            },
            _ => false,
        },
        None => false,
    }
}

/// The first member whose key is a JSON media type; else the first form
/// (`application/x-www-form-urlencoded`) member.
#[verifier::opaque]
pub open spec fn select_json_spec(ks: Seq<Seq<char>>) -> Option<int> {
    if exists|i: int| 0 <= i < ks.len() && media::is_json_media_type_spec(ks[i]) {
        Some(
            choose|i: int|
                0 <= i < ks.len() && media::is_json_media_type_spec(ks[i]) && forall|j: int|
                    0 <= j < i ==> !media::is_json_media_type_spec(ks[j]),
        )
    } else if exists|i: int|
        0 <= i < ks.len() && media::media_type_base_spec(ks[i])
            == "application/x-www-form-urlencoded"@ {
        Some(
            choose|i: int|
                0 <= i < ks.len() && media::media_type_base_spec(ks[i])
                    == "application/x-www-form-urlencoded"@ && forall|j: int|
                    0 <= j < i ==> media::media_type_base_spec(ks[j])
                        != "application/x-www-form-urlencoded"@,
        )
    } else {
        None
    }
}

/// The content to use of a `content` map (`select_json_spec`): its media
/// type and schema holder.
pub fn select_json_content(content: &Vec<Member>) -> (r: Option<(String, &Json)>)
    ensures
        match r {
            Some((ct, v)) => {
                let ks = Seq::new(content@.len(), |i: int| content@[i].key@);
                &&& select_json_spec(ks) is Some
                &&& 0 <= select_json_spec(ks)->0 < content@.len()
                &&& ct@ == ks[select_json_spec(ks)->0]
                &&& v@ == content@[select_json_spec(ks)->0].value@
            },
            None => select_json_spec(Seq::new(content@.len(), |i: int| content@[i].key@)) is None,
        },
{
    reveal(select_json_spec);
    let ghost ks = Seq::new(content@.len(), |i: int| content@[i].key@);
    let mut i: usize = 0;
    while i < content.len()
        invariant
            ks == Seq::new(content@.len(), |i: int| content@[i].key@),
            i <= content@.len(),
            forall|j: int| 0 <= j < i ==> !media::is_json_media_type_spec(#[trigger] ks[j]),
        decreases content@.len() - i,
    {
        if media::is_json_media_type(content[i].key.as_str()) {
            proof {
                reveal(select_json_spec);
                assert(media::is_json_media_type_spec(ks[i as int]));
                let c = choose|k: int|
                    0 <= k < ks.len() && media::is_json_media_type_spec(ks[k]) && forall|j: int|
                        0 <= j < k ==> !media::is_json_media_type_spec(ks[j]);
                if c < i {
                    assert(!media::is_json_media_type_spec(ks[c]));
                } else if c > i {
                    assert(0 <= i < ks.len() && media::is_json_media_type_spec(ks[i as int]) && forall|j: int|
                        0 <= j < i ==> !media::is_json_media_type_spec(ks[j]));
                }
            }
            return Some((content[i].key.clone(), &content[i].value));
        }
        i = i + 1;
    }
    let mut i: usize = 0;
    while i < content.len()
        invariant
            ks == Seq::new(content@.len(), |i: int| content@[i].key@),
            i <= content@.len(),
            forall|j: int| 0 <= j < content@.len() ==> !media::is_json_media_type_spec(#[trigger] ks[j]),
            forall|j: int|
                0 <= j < i ==> media::media_type_base_spec(#[trigger] ks[j])
                    != "application/x-www-form-urlencoded"@,
        decreases content@.len() - i,
    {
        let b = media::media_type_base(content[i].key.as_str());
        if text::str_eq(b.as_str(), "application/x-www-form-urlencoded") {
            proof {
                reveal(select_json_spec);
                assert(media::media_type_base_spec(ks[i as int]) == "application/x-www-form-urlencoded"@);
                let c = choose|k: int|
                    0 <= k < ks.len() && media::media_type_base_spec(ks[k])
                        == "application/x-www-form-urlencoded"@ && forall|j: int|
                        0 <= j < k ==> media::media_type_base_spec(ks[j])
                            != "application/x-www-form-urlencoded"@;
                if c < i {
                    assert(media::media_type_base_spec(ks[c]) != "application/x-www-form-urlencoded"@);
                } else if c > i {
                    assert(0 <= i < ks.len() && media::media_type_base_spec(ks[i as int])
                        == "application/x-www-form-urlencoded"@ && forall|j: int|
                        0 <= j < i ==> media::media_type_base_spec(ks[j])
                            != "application/x-www-form-urlencoded"@);
                }
            }
            return Some((content[i].key.clone(), &content[i].value));
        }
        i = i + 1;
    }
    None
}

} // verus!
verus! {

// ---------------------------------------------------------------------------
// Small texts of a tool.
// ---------------------------------------------------------------------------

/// The bytes hashed for an operation's id: the method, a line feed, the path.
pub open spec fn operation_key(method: Seq<char>, path: Seq<char>) -> Seq<u8> {
    vstd::utf8::encode_utf8(method) + seq![10u8] + vstd::utf8::encode_utf8(path)
}

/// `op_` and the first sixteen hexadecimal digits of the SHA-256 of the
/// operation key.
pub open spec fn operation_id_spec(method: Seq<char>, path: Seq<char>) -> Seq<char> {
    "op_"@ + crate::digest::hex_lower(crate::digest::sha256_of(operation_key(method, path))).take(
        16,
    )
}

/// The stable id of an operation (`operation_id_spec`).
pub fn operation_id(method: &str, path: &str) -> (r: String)
    ensures
        r@ == operation_id_spec(method@, path@),
{
    let mut buf: Vec<u8> = Vec::new();
    let mb = method.as_bytes();
    let pb = path.as_bytes();
    let mut i: usize = 0;
    while i < mb.len()
        invariant
            i <= mb@.len(),
            buf@ == mb@.take(i as int),
        decreases mb@.len() - i,
    {
        buf.push(mb[i]);
        assert(buf@ =~= mb@.take(i + 1));
        i = i + 1;
    }
    buf.push(10u8);
    let ghost head = buf@;
    let mut j: usize = 0;
    while j < pb.len()
        invariant
            j <= pb@.len(),
            buf@ == head + pb@.take(j as int),
        decreases pb@.len() - j,
    {
        buf.push(pb[j]);
        assert(buf@ =~= head + pb@.take(j + 1));
        j = j + 1;
    }
    assert(mb@.take(mb@.len() as int) =~= mb@);
    assert(pb@.take(pb@.len() as int) =~= pb@);
    assert(buf@ =~= operation_key(method@, path@));
    let digest = crate::digest::sha256(buf.as_slice());
    let hex = crate::digest::hex_encode(digest.as_slice());
    let hv = text::chars_of(hex.as_str());
    let mut out: Vec<char> = text::chars_of("op_");
    let ghost pre = out@;
    let mut k: usize = 0;
    while k < 16
        invariant
            hv@ == crate::digest::hex_lower(digest@),
            hv@.len() == 64,
            k <= 16,
            out@ == pre + hv@.take(k as int),
        decreases 16 - k,
    {
        out.push(hv[k]);
        assert(out@ =~= pre + hv@.take(k + 1));
        k = k + 1;
    }
    text::string_of(&out)
}

/// A word with its first character in ASCII upper case.
pub open spec fn capitalized(w: Seq<char>) -> Seq<char> {
    if w.len() == 0 {
        w
    } else {
        seq![text::upper(w[0])] + w.drop_first()
    }
}

/// The non-empty words, capitalized, joined by single spaces.
pub open spec fn title_words(ws: Seq<Seq<char>>) -> Seq<char>
    decreases ws.len(),
{
    if ws.len() == 0 {
        Seq::empty()
    } else {
        let rest = title_words(ws.drop_last());
        let w = ws.last();
        if w.len() == 0 {
            rest
        } else if rest.len() == 0 {
            capitalized(w)
        } else {
            rest + " "@ + capitalized(w)
        }
    }
}

/// A tool name as a title: its `_`-separated words, capitalized, joined by
/// spaces (`list_pets` gives `List Pets`).
pub open spec fn title_case_spec(name: Seq<char>) -> Seq<char> {
    title_words(text::split(name, '_'))
}

/// `title_case_spec`.
pub fn title_case(name: &str) -> (r: String)
    ensures
        r@ == title_case_spec(name@),
{
    let words = text::split_vec(&text::chars_of(name), '_');
    let ghost wv = text::vec_views(words@);
    let mut out: Vec<char> = Vec::new();
    let mut i: usize = 0;
    proof {
        reveal_strlit(" ");
    }
    while i < words.len()
        invariant
            wv == text::vec_views(words@),
            wv == text::split(name@, '_'),
            i <= words@.len(),
            out@ == title_words(wv.take(i as int)),
            " "@ == seq![' '],
        decreases words@.len() - i,
    {
        let w = &words[i];
        assert(wv.take(i + 1).drop_last() =~= wv.take(i as int));
        assert(wv.take(i + 1).last() == w@);
        if w.len() > 0 {
            let ghost before = out@;
            if out.len() > 0 {
                out.push(' ');
            }
            out.push(text::to_upper(w[0]));
            let mut k: usize = 1;
            while k < w.len()
                invariant
                    1 <= k <= w@.len(),
                    out@ == (if before.len() == 0 {
                        Seq::empty()
                    } else {
                        before + " "@
                    }) + seq![text::upper(w@[0])] + w@.subrange(1, k as int),
                decreases w@.len() - k,
            {
                out.push(w[k]);
                assert(w@.subrange(1, k + 1) =~= w@.subrange(1, k as int).push(w@[k as int]));
                k = k + 1;
            }
            assert(w@.subrange(1, w@.len() as int) =~= w@.drop_first());
            proof {
                if before.len() == 0 {
                    assert(out@ =~= capitalized(w@));
                } else {
                    assert(out@ =~= before + " "@ + capitalized(w@));
                }
            }
        }
        i = i + 1;
    }
    assert(wv.take(words@.len() as int) =~= wv);
    text::string_of(&out)
}

/// What follows the last `/` (`rsplit('/').next()`); the whole text
/// without one.
pub open spec fn last_segment(s: Seq<char>) -> Seq<char>
    decreases s.len(),
{
    if s.len() == 0 {
        s
    } else if s.last() == '/' {
        Seq::empty()
    } else {
        last_segment(s.drop_last()).push(s.last())
    }
}

/// The name of the schema a JSON request body, else a JSON `200` response,
/// refers to: the last segment of its `$ref`.
pub open spec fn first_schema_name_spec(op: JsonView) -> Option<Seq<char>> {
    let hit = match crate::refs::pointer_spec(
        op,
        "/requestBody/content/application~1json/schema/$ref"@,
    ) {
        Some(v) => Some(v),
        None => crate::refs::pointer_spec(
            op,
            "/responses/200/content/application~1json/schema/$ref"@,
        ),
    };
    match hit {
        Some(JsonView::Str(r)) => Some(last_segment(r)),
        _ => None,
    }
}

fn last_segment_exec(s: &Vec<char>) -> (r: Vec<char>)
    ensures
        r@ == last_segment(s@),
{
    let mut start: usize = s.len();
    assert(s@.take(s@.len() as int) =~= s@);
    assert(last_segment(s@) + s@.subrange(s@.len() as int, s@.len() as int) =~= last_segment(s@));
    while start > 0 && s[start - 1] != '/'
        invariant
            start <= s@.len(),
            last_segment(s@) == last_segment(s@.take(start as int)) + s@.subrange(
                start as int,
                s@.len() as int,
            ),
        decreases start,
    {
        let ghost t = s@.take(start as int);
        assert(t.drop_last() =~= s@.take(start - 1));
        assert(t.last() == s@[start - 1]);
        assert(s@.subrange(start - 1, s@.len() as int) =~= seq![s@[start - 1]] + s@.subrange(
            start as int,
            s@.len() as int,
        ));
        start = start - 1;
    }
    proof {
        assert(s@.take(s@.len() as int) =~= s@);
        let t = s@.take(start as int);
        if start > 0 {
            assert(t.last() == s@[start - 1]);
        }
        assert(last_segment(t) =~= Seq::<char>::empty());
    }
    let mut out: Vec<char> = Vec::new();
    let mut k: usize = start;
    while k < s.len()
        invariant
            start <= k <= s@.len(),
            out@ == s@.subrange(start as int, k as int),
        decreases s@.len() - k,
    {
        out.push(s[k]);
        assert(out@ =~= s@.subrange(start as int, k + 1));
        k = k + 1;
    }
    assert(Seq::<char>::empty() + out@ =~= out@);
    out
}

/// `first_schema_name_spec`.
pub fn first_schema_name(op: &Json) -> (r: Option<String>)
    ensures
        crate::urls::opt_str_view(r) == first_schema_name_spec(op@),
{
    let hit = match crate::refs::pointer(op, "/requestBody/content/application~1json/schema/$ref") {
        Some(v) => Some(v),
        None => crate::refs::pointer(op, "/responses/200/content/application~1json/schema/$ref"),
    };
    match hit {
        Some(Json::Str(r)) => {
            let seg = last_segment_exec(&text::chars_of(r.as_str()));
            Some(text::string_of(&seg))
        },
        _ => None,
    }
}

} // verus!
