//! `$ref` handling that does not need the document itself: the error type,
//! the budget that caps remote fetches, and the rewriting of component
//! references into `$defs` references.
use vstd::prelude::*;
use crate::safety::{self, SafetyError, SafetyErrorView};
use crate::text;
use crate::json::{self, Json, JsonView};

verus! {

/// At most this many remote documents are fetched per compilation.
pub const REMOTE_FETCH_BUDGET: u32 = 32;

/// At most this many bytes are fetched per compilation: 8 MiB.
pub const REMOTE_BYTE_BUDGET: usize = 8388608;

/// Why a `$ref` could not be followed.
#[derive(Debug, Clone)]
pub enum RefError {
    /// The reference, or what went wrong, as text.
    Unresolved(String),
    Budget,
    Safety(SafetyError),
}

pub enum RefErrorView {
    Unresolved(Seq<char>),
    Budget,
    Safety(SafetyErrorView),
}

impl View for RefError {
    type V = RefErrorView;

    open spec fn view(&self) -> RefErrorView {
        match self {
            RefError::Unresolved(s) => RefErrorView::Unresolved(s@),
            RefError::Budget => RefErrorView::Budget,
            RefError::Safety(e) => RefErrorView::Safety(e@),
        }
    }
}

impl RefError {
    /// The text the error is reported with.
    pub fn message(&self) -> (r: String)
        ensures
            r@ == match self@ {
                RefErrorView::Unresolved(s) => "unresolved $ref: "@ + s,
                RefErrorView::Budget => "remote $ref budget exceeded"@,
                RefErrorView::Safety(e) => safety::safety_message(e),
            },
    {
        match self {
            RefError::Unresolved(s) => text::cat("unresolved $ref: ", s.as_str()),
            RefError::Budget => "remote $ref budget exceeded".to_owned(),
            RefError::Safety(e) => e.message(),
        }
    }
}

/// What has been fetched so far in one compilation.
#[derive(Debug, Clone, Copy)]
pub struct FetchBudget {
    pub fetches: u32,
    pub bytes: usize,
}

impl FetchBudget {
    /// Nothing fetched yet.
    pub fn new() -> (r: Self)
        ensures
            r.fetches == 0 && r.bytes == 0,
    {
        FetchBudget { fetches: 0, bytes: 0 }
    }

    /// Before a fetch: refused once either budget is spent; otherwise the
    /// number of bytes the fetch may still bring.
    pub fn before_fetch(&self) -> (r: Result<usize, RefError>)
        ensures
            match r {
                Ok(n) => self.fetches < REMOTE_FETCH_BUDGET && self.bytes < REMOTE_BYTE_BUDGET && n
                    == REMOTE_BYTE_BUDGET - self.bytes,
                Err(e) => (self.fetches >= REMOTE_FETCH_BUDGET || self.bytes >= REMOTE_BYTE_BUDGET)
                    && e@ == RefErrorView::Budget,
            },
    {
        if self.fetches >= REMOTE_FETCH_BUDGET || self.bytes >= REMOTE_BYTE_BUDGET {
            return Err(RefError::Budget);
        }
        let remaining = REMOTE_BYTE_BUDGET - self.bytes;
        Ok(remaining)
    }

    /// After a fetch of `n` bytes: counted, and refused if it passed either
    /// budget.
    pub fn record(&mut self, n: usize) -> (r: Result<(), RefError>)
        requires
            old(self).fetches < REMOTE_FETCH_BUDGET,
            old(self).bytes < REMOTE_BYTE_BUDGET,
        ensures
            final(self).fetches == old(self).fetches + 1,
            final(self).bytes == if old(self).bytes + n > usize::MAX {
                usize::MAX as int
            } else {
                old(self).bytes + n
            },
            r is Ok <==> (final(self).fetches <= REMOTE_FETCH_BUDGET && final(self).bytes
                <= REMOTE_BYTE_BUDGET),
            r is Err ==> r->Err_0@ == RefErrorView::Budget,
    {
        self.fetches = self.fetches + 1;
        self.bytes = self.bytes.saturating_add(n);
        if self.fetches > REMOTE_FETCH_BUDGET || self.bytes > REMOTE_BYTE_BUDGET {
            return Err(RefError::Budget);
        }
        Ok(())
    }
}

/// Component references (`#/components/schemas/X`, `#/definitions/X`)
/// become `#/$defs/X`; other references stay.
pub open spec fn rewrite_ref_spec(r: Seq<char>) -> Seq<char> {
    let a = "#/components/schemas/"@;
    let b = "#/definitions/"@;
    if text::has_prefix(r, a) {
        "#/$defs/"@ + r.skip(a.len() as int)
    } else if text::has_prefix(r, b) {
        "#/$defs/"@ + r.skip(b.len() as int)
    } else {
        r
    }
}

fn skip_chars(v: &Vec<char>, k: usize) -> (r: Vec<char>)
    requires
        k <= v.len(),
    ensures
        r@ == v@.skip(k as int),
{
    let mut r: Vec<char> = Vec::new();
    let mut i: usize = k;
    while i < v.len()
        invariant
            k <= i <= v.len(),
            r@ == v@.subrange(k as int, i as int),
        decreases v.len() - i,
    {
        r.push(v[i]);
        assert(v@.subrange(k as int, i + 1) =~= v@.subrange(k as int, i as int).push(v@[i as int]));
        i = i + 1;
    }
    r
}

/// Rewrites a component reference into a `$defs` reference (`rewrite_ref_spec`).
pub fn rewrite_ref_str(r: &str) -> (out: String)
    ensures
        out@ == rewrite_ref_spec(r@),
{
    let v = text::chars_of(r);
    let a = text::chars_of("#/components/schemas/");
    let b = text::chars_of("#/definitions/");
    let p = if text::vec_has_prefix(&v, &a) {
        Some(a.len())
    } else if text::vec_has_prefix(&v, &b) {
        Some(b.len())
    } else {
        None
    };
    match p {
        Some(k) => {
            let mut out = text::chars_of("#/$defs/");
            let rest = skip_chars(&v, k);
            text::append_chars(&mut out, &rest);
            text::string_of(&out)
        },
        None => r.to_owned(),
    }
}

/// The part of a reference before the first `#`, and the fragment after it.
pub open spec fn split_frag_spec(r: Seq<char>) -> (Seq<char>, Option<Seq<char>>) {
    if exists|i: int| 0 <= i < r.len() && r[i] == '#' {
        let i = choose|i: int|
            0 <= i < r.len() && r[i] == '#' && forall|j: int| 0 <= j < i ==> r[j] != '#';
        (r.take(i), Some(r.skip(i + 1)))
    } else {
        (r, None)
    }
}

/// Splits a reference at its first `#` (`split_frag_spec`).
pub fn split_url_frag(r: &str) -> (out: (String, Option<String>))
    ensures
        (out.0@, crate::urls::opt_str_view(out.1)) == split_frag_spec(r@),
{
    let v = text::chars_of(r);
    let mut i: usize = 0;
    while i < v.len()
        invariant
            v@ == r@,
            i <= v.len(),
            forall|j: int| 0 <= j < i ==> v@[j] != '#',
        decreases v.len() - i,
    {
        if v[i] == '#' {
            proof {
                let c = choose|k: int|
                    0 <= k < v@.len() && v@[k] == '#' && forall|j: int| 0 <= j < k ==> v@[j] != '#';
                assert(0 <= c < v@.len() && v@[c] == '#' && forall|j: int| 0 <= j < c ==> v@[j]
                    != '#') by {
                    assert(0 <= i < v@.len() && v@[i as int] == '#' && forall|j: int|
                        0 <= j < i ==> v@[j] != '#');
                }
                if c < i {
                    assert(v@[c] != '#');
                } else if c > i {
                    assert(v@[i as int] != '#');
                }
            }
            let mut h: Vec<char> = Vec::new();
            let mut k: usize = 0;
            while k < i
                invariant
                    k <= i < v.len(),
                    h@ == v@.take(k as int),
                decreases i - k,
            {
                h.push(v[k]);
                assert(v@.take(k + 1) =~= v@.take(k as int).push(v@[k as int]));
                k = k + 1;
            }
            let tail = skip_chars(&v, i + 1);
            return (text::string_of(&h), Some(text::string_of(&tail)));
        }
        i = i + 1;
    }
    (r.to_owned(), None)
}

} // verus!
verus! {

// ---------------------------------------------------------------------------
// JSON pointers.
// ---------------------------------------------------------------------------

/// `s` without its leading `/` characters.
pub open spec fn trim_slashes(s: Seq<char>) -> Seq<char>
    decreases s.len(),
{
    if s.len() > 0 && s[0] == '/' {
        trim_slashes(s.drop_first())
    } else {
        s
    }
}

/// Every occurrence of the two-character `pat`, left to right, replaced by
/// the character `rep` (`str::replace`).
pub open spec fn replace2(s: Seq<char>, pat: Seq<char>, rep: char) -> Seq<char>
    decreases s.len(),
{
    if s.len() == 0 {
        s
    } else if s.len() >= 2 && s[0] == pat[0] && s[1] == pat[1] {
        seq![rep] + replace2(s.skip(2), pat, rep)
    } else {
        seq![s[0]] + replace2(s.drop_first(), pat, rep)
    }
}

/// A pointer token unescaped: `~1` becomes `/`, then `~0` becomes `~`.
pub open spec fn unescape_spec(t: Seq<char>) -> Seq<char> {
    replace2(replace2(t, "~1"@, '/'), "~0"@, '~')
}

/// The value of a string of decimal digits.
pub open spec fn digits_value(s: Seq<char>) -> nat
    decreases s.len(),
{
    if s.len() == 0 {
        0
    } else {
        digits_value(s.drop_last()) * 10 + (s.last() as nat - '0' as nat) as nat
    }
}

/// The digits of a number: without one leading `+`.
pub open spec fn unsigned_digits(s: Seq<char>) -> Seq<char> {
    if s.len() > 0 && s[0] == '+' {
        s.drop_first()
    } else {
        s
    }
}

/// Every character is a decimal digit.
pub open spec fn all_digits(d: Seq<char>) -> bool {
    forall|i: int| 0 <= i < d.len() ==> text::is_digit(#[trigger] d[i])
}

/// `str::parse::<usize>`: an optional `+`, then at least one decimal digit,
/// with a value that fits in `usize`.
pub open spec fn parse_usize_spec(s: Seq<char>) -> Option<nat> {
    let d = unsigned_digits(s);
    if d.len() > 0 && all_digits(d) && digits_value(d) <= usize::MAX {
        Some(digits_value(d))
    } else {
        None
    }
}

/// One pointer step: a member of an object, or an item of an array by its
/// index; nothing for anything else.
pub open spec fn step_spec(v: JsonView, key: Seq<char>) -> Option<JsonView> {
    match v {
        JsonView::Object(_, _) => json::get_spec(v, key),
        JsonView::Array(a) => match parse_usize_spec(key) {
            Some(i) => if i < a.len() {
                Some(a[i as int])
            } else {
                None
            },
            None => None,
        },
        _ => None,
    }
}

/// The steps of the (raw) tokens taken in turn.
pub open spec fn walk_spec(v: JsonView, toks: Seq<Seq<char>>) -> Option<JsonView>
    decreases toks.len(),
{
    if toks.len() == 0 {
        Some(v)
    } else {
        match step_spec(v, unescape_spec(toks[0])) {
            Some(n) => walk_spec(n, toks.drop_first()),
            None => None,
        }
    }
}

/// The value a JSON pointer designates: the whole document for `` and `/`;
/// else the tokens between `/` (leading ones dropped), each unescaped.
pub open spec fn pointer_spec(doc: JsonView, p: Seq<char>) -> Option<JsonView> {
    if p.len() == 0 || p == "/"@ {
        Some(doc)
    } else {
        walk_spec(doc, text::split(trim_slashes(p), '/'))
    }
}

fn replace2_vec(s: &Vec<char>, a: char, b: char, rep: char) -> (r: Vec<char>)
    ensures
        r@ == replace2(s@, seq![a, b], rep),
{
    let ghost pat = seq![a, b];
    let mut out: Vec<char> = Vec::new();
    let mut i: usize = 0;
    assert(s@.skip(0) =~= s@);
    while i < s.len()
        invariant
            i <= s@.len(),
            pat == seq![a, b],
            out@ + replace2(s@.skip(i as int), pat, rep) == replace2(s@, pat, rep),
        decreases s@.len() - i,
    {
        let ghost rest = s@.skip(i as int);
        if i + 1 < s.len() && s[i] == a && s[i + 1] == b {
            assert(rest[0] == s@[i as int] && rest[1] == s@[i + 1]);
            assert(rest.skip(2) =~= s@.skip(i + 2));
            let ghost o = out@;
            out.push(rep);
            assert(out@ + replace2(s@.skip(i + 2), pat, rep) =~= o + replace2(rest, pat, rep));
            i = i + 2;
        } else {
            assert(rest[0] == s@[i as int]);
            assert(rest.drop_first() =~= s@.skip(i + 1));
            proof {
                if rest.len() >= 2 {
                    assert(rest[1] == s@[i + 1]);
                }
            }
            let ghost o = out@;
            out.push(s[i]);
            assert(out@ + replace2(s@.skip(i + 1), pat, rep) =~= o + replace2(rest, pat, rep));
            i = i + 1;
        }
    }
    assert(s@.skip(i as int) =~= Seq::<char>::empty());
    assert(out@ + Seq::<char>::empty() =~= out@);
    out
}

/// A pointer token unescaped (`unescape_spec`).
pub fn unescape(t: &Vec<char>) -> (r: Vec<char>)
    ensures
        r@ == unescape_spec(t@),
{
    proof {
        reveal_strlit("~1");
        reveal_strlit("~0");
        assert("~1"@ =~= seq!['~', '1']);
        assert("~0"@ =~= seq!['~', '0']);
    }
    let a = replace2_vec(t, '~', '1', '/');
    replace2_vec(&a, '~', '0', '~')
}

/// `str::parse::<usize>` (`parse_usize_spec`).
pub fn parse_usize(s: &Vec<char>) -> (r: Option<usize>)
    ensures
        match r {
            Some(n) => parse_usize_spec(s@) == Some(n as nat),
            None => parse_usize_spec(s@) is None,
        },
{
    let start: usize = if s.len() > 0 && s[0] == '+' {
        1
    } else {
        0
    };
    let ghost d = unsigned_digits(s@);
    assert(d =~= s@.skip(start as int));
    if start >= s.len() {
        assert(d.len() == 0);
        return None;
    }
    let mut acc: usize = 0;
    let mut i: usize = start;
    while i < s.len()
        invariant
            start <= i <= s@.len(),
            start < s@.len(),
            d == s@.skip(start as int),
            d == unsigned_digits(s@),
            acc as nat == digits_value(d.take(i - start)),
            forall|k: int| 0 <= k < i - start ==> text::is_digit(#[trigger] d[k]),
        decreases s@.len() - i,
    {
        let c = s[i];
        assert(d[i - start] == c);
        if !('0' <= c && c <= '9') {
            assert(!text::is_digit(d[i - start]));
            assert(!all_digits(d));
            return None;
        }
        let dig: usize = (c as u32 - '0' as u32) as usize;
        assert(dig as nat == (c as nat - '0' as nat) as nat);
        proof {
            let x = d.take(i - start + 1);
            assert(digits_value(x) == digits_value(x.drop_last()) * 10 + (x.last() as nat
                - '0' as nat) as nat);
        }
        assert(d.take(i - start + 1).drop_last() =~= d.take(i - start));
        assert(d.take(i - start + 1).last() == c);
        match acc.checked_mul(10) {
            Some(m) => match m.checked_add(dig) {
                Some(n) => {
                    acc = n;
                },
                None => {
                    proof {
                        if all_digits(d) {
                            lemma_digits_value_prefix(d, i - start + 1);
                        }
                    }
                    return None;
                },
            },
            None => {
                proof {
                    if all_digits(d) {
                        lemma_digits_value_prefix(d, i - start + 1);
                    }
                }
                return None;
            },
        }
        i = i + 1;
    }
    assert(d.take(i - start) =~= d);
    Some(acc)
}

/// A digit string's value is at least that of any prefix.
proof fn lemma_digits_value_prefix(d: Seq<char>, n: int)
    requires
        0 <= n <= d.len(),
        all_digits(d),
    ensures
        digits_value(d.take(n)) <= digits_value(d),
    decreases d.len() - n,
{
    if n < d.len() {
        lemma_digits_value_prefix(d, n + 1);
        assert(d.take(n + 1).drop_last() =~= d.take(n));
    } else {
        assert(d.take(n) =~= d);
    }
}

fn step<'a>(v: &'a Json, key: &Vec<char>) -> (r: Option<&'a Json>)
    ensures
        json::opt_view(r) == step_spec(v@, key@),
{
    match v {
        Json::Object(_) => {
            let k = text::string_of(key);
            v.get(k.as_str())
        },
        Json::Array(a) => match parse_usize(key) {
            Some(i) => if i < a.len() {
                Some(&a[i])
            } else {
                None
            },
            None => None,
        },
        _ => None,
    }
}

/// The value a JSON pointer designates (`pointer_spec`).
pub fn pointer<'a>(doc: &'a Json, p: &str) -> (r: Option<&'a Json>)
    ensures
        json::opt_view(r) == pointer_spec(doc@, p@),
{
    if p.unicode_len() == 0 || text::str_eq(p, "/") {
        return Some(doc);
    }
    let pv = text::chars_of(p);
    assert(pv@.skip(0) =~= pv@);
    let mut start: usize = 0;
    while start < pv.len() && pv[start] == '/'
        invariant
            start <= pv@.len(),
            trim_slashes(pv@.skip(start as int)) == trim_slashes(pv@),
        decreases pv@.len() - start,
    {
        assert(pv@.skip(start as int).drop_first() =~= pv@.skip(start + 1));
        start = start + 1;
    }
    let mut rest: Vec<char> = Vec::new();
    let mut k: usize = start;
    while k < pv.len()
        invariant
            start <= k <= pv@.len(),
            rest@ == pv@.subrange(start as int, k as int),
        decreases pv@.len() - k,
    {
        rest.push(pv[k]);
        assert(rest@ =~= pv@.subrange(start as int, k + 1));
        k = k + 1;
    }
    proof {
        let t = pv@.skip(start as int);
        assert(rest@ =~= t);
        if t.len() > 0 {
            assert(t[0] == pv@[start as int]);
        }
        assert(trim_slashes(t) == t);
    }
    let toks = text::split_vec(&rest, '/');
    let ghost tv = text::vec_views(toks@);
    assert(tv.skip(0) =~= tv);
    let mut cur: &Json = doc;
    let mut i: usize = 0;
    while i < toks.len()
        invariant
            tv == text::vec_views(toks@),
            tv == text::split(trim_slashes(p@), '/'),
            !(p@.len() == 0 || p@ == "/"@),
            i <= toks@.len(),
            walk_spec(cur@, tv.skip(i as int)) == walk_spec(doc@, tv),
        decreases toks@.len() - i,
    {
        let key = unescape(&toks[i]);
        let ghost ts = tv.skip(i as int);
        assert(ts[0] == toks@[i as int]@);
        assert(ts.drop_first() =~= tv.skip(i + 1));
        match step(cur, &key) {
            Some(n) => {
                cur = n;
            },
            None => {
                assert(walk_spec(cur@, ts) is None);
                return None;
            },
        }
        i = i + 1;
    }
    assert(tv.skip(i as int) =~= Seq::<Seq<char>>::empty());
    Some(cur)
}

} // verus!
verus! {

/// Where a remote reference document is read from.
#[derive(Debug, Clone, Copy, PartialEq, Eq, Structural)]
pub enum RemoteSource {
    /// Downloaded over HTTPS.
    Https,
    /// Read from a `file:` URL.
    File,
    /// Not followed.
    Other,
}

/// `https://` URLs are downloaded, `file:` URLs read; others are not followed.
pub open spec fn remote_source_spec(url: Seq<char>) -> RemoteSource {
    if text::has_prefix(url, "https://"@) {
        RemoteSource::Https
    } else if text::has_prefix(url, "file:"@) {
        RemoteSource::File
    } else {
        RemoteSource::Other
    }
}

/// Where a remote reference document is read from (`remote_source_spec`).
pub fn remote_source(url: &str) -> (r: RemoteSource)
    ensures
        r == remote_source_spec(url@),
{
    let v = text::chars_of(url);
    if text::vec_has_prefix(&v, &text::chars_of("https://")) {
        RemoteSource::Https
    } else if text::vec_has_prefix(&v, &text::chars_of("file:")) {
        RemoteSource::File
    } else {
        RemoteSource::Other
    }
}

/// A remote reference document is used only when it is an object or an
/// array.
pub fn accept_remote(doc: Json) -> (r: Result<Json, RefError>)
    ensures
        match doc@ {
            JsonView::Object(..) | JsonView::Array(..) => r matches Ok(d) && d@ == doc@,
            _ => r matches Err(e) && e@ == RefErrorView::Unresolved(
                "remote $ref did not parse as a JSON object or array"@,
            ),
        },
{
    match doc {
        Json::Object(_) | Json::Array(_) => Ok(doc),
        _ => Err(RefError::Unresolved("remote $ref did not parse as a JSON object or array".to_owned())),
    }
}

} // verus!
