//! Destructive detection and MCP annotation mapping.
//!
//! An operation is destructive when its method is DELETE, or when a word of
//! its path or operationId is one of the destructive keywords. GET and HEAD
//! are read-only unless a keyword hits; OPTIONS, TRACE and unknown methods
//! are skipped.
use vstd::prelude::*;
use crate::text;

verus! {

#[derive(Debug, Clone, Copy, PartialEq, Eq, Structural)]
pub struct Classification {
    pub read_only: bool,
    pub destructive: bool,
    pub idempotent: bool,
    pub skip: bool,
}

/// The MCP tool annotations that a classification maps to.
#[derive(Debug, Clone, Copy, PartialEq, Eq, Structural)]
pub struct ToolAnnotations {
    pub read_only_hint: bool,
    pub destructive_hint: Option<bool>,
    pub idempotent_hint: Option<bool>,
    pub open_world_hint: bool,
}

/// The words that mark an operation as destructive.
pub open spec fn is_destructive_keyword(tok: Seq<char>) -> bool {
    tok == "delete"@ || tok == "cancel"@ || tok == "remove"@ || tok == "revoke"@ || tok
        == "terminate"@ || tok == "destroy"@ || tok == "refund"@ || tok == "transfer"@ || tok
        == "purge"@ || tok == "reset"@
}

/// Whether some token of `s` is a keyword, reading `s` after the partial token
/// `cur`; tokens are the pieces between characters that are not ASCII letters
/// or digits.
pub open spec fn token_scan(s: Seq<char>, cur: Seq<char>) -> bool
    decreases s.len(),
{
    if s.len() == 0 {
        is_destructive_keyword(cur)
    } else if !text::is_alnum(s[0]) {
        is_destructive_keyword(cur) || token_scan(s.drop_first(), Seq::empty())
    } else {
        token_scan(s.drop_first(), cur.push(s[0]))
    }
}

/// The text that is split into tokens: the lower-cased path, then a space and
/// the lower-cased operationId when there is one.
pub open spec fn keyword_blob(path: Seq<char>, operation_id: Option<Seq<char>>) -> Seq<char> {
    match operation_id {
        Some(id) => text::lower_seq(path).push(' ') + text::lower_seq(id),
        None => text::lower_seq(path),
    }
}

pub open spec fn keyword_hit_spec(path: Seq<char>, operation_id: Option<Seq<char>>) -> bool {
    token_scan(keyword_blob(path, operation_id), Seq::empty())
}

/// The classification of a method, given whether a keyword hit.
pub open spec fn classify_spec(method: Seq<char>, keyword: bool) -> Classification {
    let m = text::upper_seq(method);
    if m == "GET"@ || m == "HEAD"@ {
        Classification { read_only: !keyword, destructive: keyword, idempotent: true, skip: false }
    } else if m == "PUT"@ || m == "PATCH"@ {
        Classification { read_only: false, destructive: keyword, idempotent: true, skip: false }
    } else if m == "POST"@ {
        Classification { read_only: false, destructive: keyword, idempotent: false, skip: false }
    } else if m == "DELETE"@ {
        Classification { read_only: false, destructive: true, idempotent: true, skip: false }
    } else {
        Classification { read_only: false, destructive: false, idempotent: false, skip: true }
    }
}

pub open spec fn annotations_spec(class: Classification) -> ToolAnnotations {
    if class.read_only {
        ToolAnnotations {
            read_only_hint: true,
            destructive_hint: None,
            idempotent_hint: None,
            open_world_hint: true,
        }
    } else {
        ToolAnnotations {
            read_only_hint: false,
            destructive_hint: Some(class.destructive),
            idempotent_hint: Some(class.idempotent),
            open_world_hint: true,
        }
    }
}

fn is_keyword_exec(tok: &Vec<char>) -> (r: bool)
    ensures
        r == is_destructive_keyword(tok@),
{
    text::seq_eq(tok, &text::chars_of("delete")) || text::seq_eq(tok, &text::chars_of("cancel"))
        || text::seq_eq(tok, &text::chars_of("remove")) || text::seq_eq(
        tok,
        &text::chars_of("revoke"),
    ) || text::seq_eq(tok, &text::chars_of("terminate")) || text::seq_eq(
        tok,
        &text::chars_of("destroy"),
    ) || text::seq_eq(tok, &text::chars_of("refund")) || text::seq_eq(
        tok,
        &text::chars_of("transfer"),
    ) || text::seq_eq(tok, &text::chars_of("purge")) || text::seq_eq(
        tok,
        &text::chars_of("reset"),
    )
}

/// Whether a word of the path or the operationId is a destructive keyword.
pub fn keyword_hit(path_template: &str, operation_id: Option<&str>) -> (r: bool)
    ensures
        r == keyword_hit_spec(path_template@, crate::names::opt_view(operation_id)),
{
    let mut blob = text::lower_vec(&text::chars_of(path_template));
    if let Some(id) = operation_id {
        let l = text::lower_vec(&text::chars_of(id));
        let ghost head = blob@.push(' ');
        blob.push(' ');
        let mut i: usize = 0;
        while i < l.len()
            invariant
                i <= l.len(),
                blob@ =~= head + l@.take(i as int),
            decreases l.len() - i,
        {
            blob.push(l[i]);
            i = i + 1;
        }
        assert(l@.take(l.len() as int) =~= l@);
    }
    let ghost b = blob@;
    assert(b == keyword_blob(path_template@, crate::names::opt_view(operation_id)));
    let mut cur: Vec<char> = Vec::new();
    let mut i: usize = 0;
    assert(b.skip(0) =~= b);
    while i < blob.len()
        invariant
            i <= blob.len(),
            b == blob@,
            b == keyword_blob(path_template@, crate::names::opt_view(operation_id)),
            token_scan(b, Seq::empty()) == token_scan(b.skip(i as int), cur@),
        decreases blob.len() - i,
    {
        let c = blob[i];
        let ghost rest = b.skip(i as int);
        assert(rest[0] == c);
        assert(rest.drop_first() =~= b.skip(i + 1));
        let alnum = ('A' <= c && c <= 'Z') || ('a' <= c && c <= 'z') || ('0' <= c && c <= '9');
        if !alnum {
            assert(token_scan(rest, cur@) == (is_destructive_keyword(cur@) || token_scan(
                rest.drop_first(),
                Seq::empty(),
            )));
            if is_keyword_exec(&cur) {
                assert(token_scan(rest, cur@));
                assert(token_scan(b, Seq::empty()));
                return true;
            }
            cur = Vec::new();
            assert(cur@ =~= Seq::<char>::empty());
        } else {
            cur.push(c);
        }
        i = i + 1;
    }
    assert(b.skip(i as int).len() == 0);
    is_keyword_exec(&cur)
}

fn upper_vec(v: &Vec<char>) -> (r: Vec<char>)
    ensures
        r@ == text::upper_seq(v@),
{
    let mut r: Vec<char> = Vec::new();
    let mut i: usize = 0;
    while i < v.len()
        invariant
            i <= v.len(),
            r@ =~= text::upper_seq(v@).take(i as int),
        decreases v.len() - i,
    {
        r.push(text::to_upper(v[i]));
        i = i + 1;
    }
    assert(r@ =~= text::upper_seq(v@));
    r
}

/// Classify an operation by method and keywords (`classify_spec`).
pub fn classify(method: &str, path_template: &str, operation_id: Option<&str>) -> (r:
    Classification)
    ensures
        r == classify_spec(
            method@,
            keyword_hit_spec(path_template@, crate::names::opt_view(operation_id)),
        ),
{
    let m = upper_vec(&text::chars_of(method));
    let keyword = keyword_hit(path_template, operation_id);
    if text::seq_eq(&m, &text::chars_of("GET")) || text::seq_eq(&m, &text::chars_of("HEAD")) {
        Classification { read_only: !keyword, destructive: keyword, idempotent: true, skip: false }
    } else if text::seq_eq(&m, &text::chars_of("PUT")) || text::seq_eq(
        &m,
        &text::chars_of("PATCH"),
    ) {
        Classification { read_only: false, destructive: keyword, idempotent: true, skip: false }
    } else if text::seq_eq(&m, &text::chars_of("POST")) {
        Classification { read_only: false, destructive: keyword, idempotent: false, skip: false }
    } else if text::seq_eq(&m, &text::chars_of("DELETE")) {
        Classification { read_only: false, destructive: true, idempotent: true, skip: false }
    } else {
        Classification { read_only: false, destructive: false, idempotent: false, skip: true }
    }
}

/// The MCP annotations for a classification (`annotations_spec`).
pub fn annotations(class: Classification) -> (r: ToolAnnotations)
    ensures
        r == annotations_spec(class),
{
    if class.read_only {
        ToolAnnotations {
            read_only_hint: true,
            destructive_hint: None,
            idempotent_hint: None,
            open_world_hint: true,
        }
    } else {
        ToolAnnotations {
            read_only_hint: false,
            destructive_hint: Some(class.destructive),
            idempotent_hint: Some(class.idempotent),
            open_world_hint: true,
        }
    }
}

/// A classified operation is never both read-only and destructive, a skipped
/// one is neither, and DELETE is always destructive.
pub proof fn law_classification_consistent(method: Seq<char>, keyword: bool)
    ensures
        !(classify_spec(method, keyword).read_only && classify_spec(method, keyword).destructive),
        classify_spec(method, keyword).skip ==> !classify_spec(method, keyword).read_only
            && !classify_spec(method, keyword).destructive,
        text::upper_seq(method) == "DELETE"@ ==> classify_spec(method, keyword).destructive,
        classify_spec(method, keyword).read_only ==> !keyword,
{
    reveal_strlit("GET");
    reveal_strlit("HEAD");
    reveal_strlit("DELETE");
    reveal_strlit("PUT");
    reveal_strlit("PATCH");
    reveal_strlit("POST");
    assert("DELETE"@.len() == 6);
    assert("GET"@.len() == 3);
    assert("HEAD"@.len() == 4);
    assert("PUT"@.len() == 3);
    assert("PATCH"@.len() == 5);
    assert("POST"@.len() == 4);
}

} // verus!
verus! {

/// One of the six methods an operation can be compiled for.
pub open spec fn known_method(m: Seq<char>) -> bool {
    m == "GET"@ || m == "HEAD"@ || m == "PUT"@ || m == "PATCH"@ || m == "POST"@ || m == "DELETE"@
}

proof fn lemma_upper_idempotent(s: Seq<char>)
    ensures
        text::upper_seq(text::upper_seq(s)) == text::upper_seq(s),
{
    assert forall|i: int| 0 <= i < s.len() implies #[trigger] text::upper(text::upper(s[i])) == text::upper(
        s[i],
    ) by {
        let c = s[i];
        if text::is_lower(c) {
            assert(!text::is_lower(((c as u32) - 32) as char));
        }
    }
    assert(text::upper_seq(text::upper_seq(s)) =~= text::upper_seq(s));
}

/// How a classification relates to the method and the keyword scan: the
/// method is compared without regard to ASCII case; an operation is skipped
/// exactly when its method is none of GET, HEAD, PUT, PATCH, POST, DELETE;
/// it is read-only exactly for GET and HEAD without a destructive keyword;
/// destructive exactly for DELETE, or for a method it keeps when a keyword
/// hit; idempotent exactly for the methods it keeps other than POST; and never
/// both read-only and destructive.
pub proof fn law_classify(method: Seq<char>, keyword: bool)
    ensures
        classify_spec(method, keyword) == classify_spec(text::upper_seq(method), keyword),
        classify_spec(method, keyword).skip <==> !known_method(text::upper_seq(method)),
        classify_spec(method, keyword).read_only <==> ((text::upper_seq(method) == "GET"@
            || text::upper_seq(method) == "HEAD"@) && !keyword),
        classify_spec(method, keyword).destructive <==> (text::upper_seq(method) == "DELETE"@ || (
        !classify_spec(method, keyword).skip && keyword)),
        classify_spec(method, keyword).idempotent <==> (!classify_spec(method, keyword).skip
            && text::upper_seq(method) != "POST"@),
        !(classify_spec(method, keyword).read_only && classify_spec(method, keyword).destructive),
{
    lemma_upper_idempotent(method);
    reveal_strlit("GET");
    reveal_strlit("HEAD");
    reveal_strlit("PUT");
    reveal_strlit("PATCH");
    reveal_strlit("POST");
    reveal_strlit("DELETE");
    assert("POST"@.len() != "GET"@.len() && "POST"@.len() != "PUT"@.len());
    assert("POST"@.len() != "PATCH"@.len() && "POST"@.len() != "DELETE"@.len());
    assert("POST"@[0] != "HEAD"@[0]);
}

} // verus!
verus! {

/// The ten words that mark an operation as destructive.
pub open spec fn destructive_word(w: Seq<char>) -> bool {
    w == "delete"@ || w == "cancel"@ || w == "remove"@ || w == "revoke"@ || w == "terminate"@ || w
        == "destroy"@ || w == "refund"@ || w == "transfer"@ || w == "purge"@ || w == "reset"@
}

/// `s[a..b]` is a whole token of `s`: ASCII letters and digits, with no
/// letter or digit just before or just after it.
pub open spec fn token_at(s: Seq<char>, a: int, b: int) -> bool {
    &&& 0 <= a < b <= s.len()
    &&& a == 0 || !text::is_alnum(s[a - 1])
    &&& b == s.len() || !text::is_alnum(s[b])
    &&& forall|k: int| a <= k < b ==> text::is_alnum(#[trigger] s[k])
}

proof fn lemma_scan_run(s: Seq<char>, cur: Seq<char>, b: int)
    requires
        0 <= b <= s.len(),
        forall|k: int| 0 <= k < b ==> text::is_alnum(#[trigger] s[k]),
        b == s.len() || !text::is_alnum(s[b]),
        is_destructive_keyword(cur + s.subrange(0, b)),
    ensures
        token_scan(s, cur),
    decreases s.len(),
{
    if b == 0 {
        assert(cur + s.subrange(0, 0) =~= cur);
    } else {
        let t = s.drop_first();
        assert forall|k: int| 0 <= k < b - 1 implies text::is_alnum(#[trigger] t[k]) by {
            assert(t[k] == s[k + 1]);
        }
        if b < s.len() {
            assert(t[b - 1] == s[b]);
        }
        assert(cur.push(s[0]) + t.subrange(0, b - 1) =~= cur + s.subrange(0, b));
        lemma_scan_run(t, cur.push(s[0]), b - 1);
    }
}

proof fn lemma_scan_token(s: Seq<char>, cur: Seq<char>, a: int, b: int)
    requires
        token_at(s, a, b),
        a == 0 ==> cur.len() == 0,
        is_destructive_keyword(s.subrange(a, b)),
    ensures
        token_scan(s, cur),
    decreases s.len(),
{
    if a == 0 {
        assert(cur + s.subrange(0, b) =~= s.subrange(0, b));
        lemma_scan_run(s, cur, b);
    } else {
        let t = s.drop_first();
        assert(t.subrange(a - 1, b - 1) =~= s.subrange(a, b));
        assert forall|k: int| a - 1 <= k < b - 1 implies text::is_alnum(#[trigger] t[k]) by {
            assert(t[k] == s[k + 1]);
        }
        if a > 1 {
            assert(t[a - 2] == s[a - 1]);
        }
        if b < s.len() {
            assert(t[b - 1] == s[b]);
        }
        if text::is_alnum(s[0]) {
            assert(a > 1);
            lemma_scan_token(t, cur.push(s[0]), a - 1, b - 1);
        } else {
            lemma_scan_token(t, Seq::empty(), a - 1, b - 1);
        }
    }
}

/// A destructive word anywhere as a whole token flags the operation: when
/// `delete`, `cancel`, `remove`, `revoke`, `terminate`, `destroy`, `refund`,
/// `transfer`, `purge` or `reset` is a token of the lower-cased path, or of the
/// lower-cased operationId, the keyword scan hits, whatever else the path and
/// the operationId hold.
pub proof fn law_keyword_tokens(path: Seq<char>, operation_id: Option<Seq<char>>, a: int, b: int)
    ensures
        token_at(text::lower_seq(path), a, b) && destructive_word(text::lower_seq(path).subrange(a, b))
            ==> keyword_hit_spec(path, operation_id),
        operation_id is Some && token_at(text::lower_seq(operation_id->0), a, b) && destructive_word(
            text::lower_seq(operation_id->0).subrange(a, b),
        ) ==> keyword_hit_spec(path, operation_id),
{
    let lp = text::lower_seq(path);
    let blob = keyword_blob(path, operation_id);
    if token_at(lp, a, b) && destructive_word(lp.subrange(a, b)) {
        match operation_id {
            None => {
                lemma_scan_token(blob, Seq::empty(), a, b);
            },
            Some(id) => {
                let li = text::lower_seq(id);
                assert(blob == lp.push(' ') + li);
                assert(blob.subrange(a, b) =~= lp.subrange(a, b));
                assert forall|k: int| a <= k < b implies text::is_alnum(#[trigger] blob[k]) by {
                    assert(blob[k] == lp[k]);
                }
                if a > 0 {
                    assert(blob[a - 1] == lp[a - 1]);
                }
                if b < lp.len() {
                    assert(blob[b] == lp[b]);
                } else {
                    assert(blob[b] == ' ');
                }
                lemma_scan_token(blob, Seq::empty(), a, b);
            },
        }
    }
    if operation_id is Some {
        let id = operation_id->0;
        let li = text::lower_seq(id);
        if token_at(li, a, b) && destructive_word(li.subrange(a, b)) {
            let off = lp.len() + 1;
            assert(blob == lp.push(' ') + li);
            assert(blob.subrange(a + off, b + off) =~= li.subrange(a, b));
            assert forall|k: int| a + off <= k < b + off implies text::is_alnum(#[trigger] blob[k]) by {
                assert(blob[k] == li[k - off]);
            }
            if a > 0 {
                assert(blob[a + off - 1] == li[a - 1]);
            } else {
                assert(blob[a + off - 1] == ' ');
            }
            if b < li.len() {
                assert(blob[b + off] == li[b]);
            }
            lemma_scan_token(blob, Seq::empty(), a + off, b + off);
        }
    }
}

} // verus!
verus! {

/// A run of letters and digits at the start of `s`, ending at `b`.
pub open spec fn leading_run(s: Seq<char>, b: int) -> bool {
    &&& 0 <= b <= s.len()
    &&& forall|k: int| 0 <= k < b ==> text::is_alnum(#[trigger] s[k])
    &&& b == s.len() || !text::is_alnum(s[b])
}

proof fn lemma_empty_not_keyword()
    ensures
        !is_destructive_keyword(Seq::empty()),
{
    reveal_strlit("delete");
    reveal_strlit("cancel");
    reveal_strlit("remove");
    reveal_strlit("revoke");
    reveal_strlit("terminate");
    reveal_strlit("destroy");
    reveal_strlit("refund");
    reveal_strlit("transfer");
    reveal_strlit("purge");
    reveal_strlit("reset");
    assert("delete"@.len() > 0 && "cancel"@.len() > 0 && "remove"@.len() > 0 && "revoke"@.len() > 0);
    assert("terminate"@.len() > 0 && "destroy"@.len() > 0 && "refund"@.len() > 0);
    assert("transfer"@.len() > 0 && "purge"@.len() > 0 && "reset"@.len() > 0);
}

/// Where a hit of the scan comes from: the token that `cur` starts, running
/// to `b` (`first`), or a later whole token `s[a..b]`.
proof fn lemma_scan_found(s: Seq<char>, cur: Seq<char>) -> (r: (bool, int, int))
    requires
        token_scan(s, cur),
    ensures
        r.0 ==> leading_run(s, r.2) && is_destructive_keyword(cur + s.subrange(0, r.2)),
        !r.0 ==> 1 <= r.1 && token_at(s, r.1, r.2) && is_destructive_keyword(s.subrange(r.1, r.2)),
    decreases s.len(),
{
    if s.len() == 0 {
        assert(cur + s.subrange(0, 0) =~= cur);
        (true, 0, 0)
    } else {
        let t = s.drop_first();
        if !text::is_alnum(s[0]) {
            if is_destructive_keyword(cur) {
                assert(cur + s.subrange(0, 0) =~= cur);
                (true, 0, 0)
            } else {
                let (first, a, b) = lemma_scan_found(t, Seq::empty());
                if first {
                    assert(Seq::<char>::empty() + t.subrange(0, b) =~= s.subrange(1, b + 1));
                    if b == 0 {
                        lemma_empty_not_keyword();
                        assert(Seq::<char>::empty() + t.subrange(0, 0) =~= Seq::<char>::empty());
                    }
                    assert forall|k: int| 1 <= k < b + 1 implies text::is_alnum(#[trigger] s[k]) by {
                        assert(s[k] == t[k - 1]);
                    }
                    if b < t.len() {
                        assert(s[b + 1] == t[b]);
                    }
                    (false, 1, b + 1)
                } else {
                    assert(s.subrange(a + 1, b + 1) =~= t.subrange(a, b));
                    assert forall|k: int| a + 1 <= k < b + 1 implies text::is_alnum(#[trigger] s[k]) by {
                        assert(s[k] == t[k - 1]);
                    }
                    assert(s[a] == t[a - 1]);
                    if b < t.len() {
                        assert(s[b + 1] == t[b]);
                    }
                    (false, a + 1, b + 1)
                }
            }
        } else {
            let c2 = cur.push(s[0]);
            let (first, a, b) = lemma_scan_found(t, c2);
            if first {
                assert(c2 + t.subrange(0, b) =~= cur + s.subrange(0, b + 1));
                assert forall|k: int| 0 <= k < b + 1 implies text::is_alnum(#[trigger] s[k]) by {
                    if k > 0 {
                        assert(s[k] == t[k - 1]);
                    }
                }
                if b < t.len() {
                    assert(s[b + 1] == t[b]);
                }
                (true, 0, b + 1)
            } else {
                assert(s.subrange(a + 1, b + 1) =~= t.subrange(a, b));
                assert forall|k: int| a + 1 <= k < b + 1 implies text::is_alnum(#[trigger] s[k]) by {
                    assert(s[k] == t[k - 1]);
                }
                assert(s[a] == t[a - 1]);
                if b < t.len() {
                    assert(s[b + 1] == t[b]);
                }
                (false, a + 1, b + 1)
            }
        }
    }
}

/// The keyword scan hits only on a destructive word: when it hits, one of
/// the ten words is a whole token of the lower-cased path, a space, and the
/// lower-cased operationId.
pub proof fn law_keyword_only_words(path: Seq<char>, operation_id: Option<Seq<char>>)
    ensures
        keyword_hit_spec(path, operation_id) ==> exists|a: int, b: int|
            token_at(keyword_blob(path, operation_id), a, b) && destructive_word(
                #[trigger] keyword_blob(path, operation_id).subrange(a, b),
            ),
{
    let s = keyword_blob(path, operation_id);
    if keyword_hit_spec(path, operation_id) {
        let (first, a, b) = lemma_scan_found(s, Seq::empty());
        if first {
            assert(Seq::<char>::empty() + s.subrange(0, b) =~= s.subrange(0, b));
            if b == 0 {
                lemma_empty_not_keyword();
                assert(s.subrange(0, 0) =~= Seq::<char>::empty());
            }
            assert(token_at(s, 0, b));
            assert(destructive_word(s.subrange(0, b)));
        } else {
            assert(destructive_word(s.subrange(a, b)));
        }
    }
}

} // verus!
