//! Tool name generation. Pure, locale-independent.
//!
//! A tool name comes from the first of operationId, summary and description
//! that yields a non-empty normal form, else from the method and the path.
//! The normal form is lower-case ASCII letters, digits and single `_`
//! separators, at most 64 characters, and never one of the names that MCP
//! itself uses.
use vstd::prelude::*;
use crate::text;

verus! {

/// Where a name was taken from.
pub struct NameSource<'a> {
    pub operation_id: Option<&'a str>,
    pub summary: Option<&'a str>,
    pub description: Option<&'a str>,
    pub method: &'a str,
    pub path_template: &'a str,
}

/// A generated name and the field it came from.
#[derive(Debug, Clone)]
pub struct NamedTool {
    pub name: String,
    pub source_kind: NameKind,
}

#[derive(Debug, Clone, Copy, PartialEq, Eq, Structural)]
pub enum NameKind {
    OperationId,
    Summary,
    Description,
    Fallback,
}

/// The view of an optional string slice.
pub open spec fn opt_view(o: Option<&str>) -> Option<Seq<char>> {
    match o {
        Some(s) => Some(s@),
        None => None,
    }
}

/// The names that MCP reserves for itself.
pub open spec fn is_reserved(s: Seq<char>) -> bool {
    s == "initialize"@ || s == "ping"@ || s == "shutdown"@ || s == "tools_list"@ || s
        == "tools_list"@ || s == "tools_call"@ || s == "resources_list"@ || s
        == "prompts_list"@ || s == "rpc"@ || s == "rpc.internal"@
}

/// An operationId has `/` and `.` turned into `_` before anything else.
pub open spec fn op_replace(s: Seq<char>, is_operation_id: bool) -> Seq<char> {
    if is_operation_id {
        Seq::new(s.len(), |i: int| if s[i] == '/' || s[i] == '.' { '_' } else { s[i] })
    } else {
        s
    }
}

/// What one character contributes to the snake-case form, given the one before it.
pub open spec fn snake_piece(prev: Option<char>, c: char) -> Seq<char> {
    if text::is_upper(c) {
        if prev matches Some(p) && (text::is_lower(p) || text::is_digit(p)) {
            seq!['_', text::lower(c)]
        } else {
            seq![text::lower(c)]
        }
    } else if text::is_ascii_char(c) {
        seq![c]
    } else {
        Seq::empty()
    }
}

/// The character before position `i`, if any.
pub open spec fn prev_of(s: Seq<char>, i: int) -> Option<char> {
    if i > 0 {
        Some(s[i - 1])
    } else {
        None
    }
}

/// Camel case to snake case: `_` before an upper-case letter that follows a
/// lower-case letter or a digit, letters lowered, non-ASCII characters dropped.
pub open spec fn camel_to_snake(s: Seq<char>) -> Seq<char>
    decreases s.len(),
{
    if s.len() == 0 {
        Seq::empty()
    } else {
        camel_to_snake(s.drop_last()) + snake_piece(prev_of(s, s.len() - 1), s.last())
    }
}

/// Letters, digits and separators lowered; everything else becomes `_`.
pub open spec fn sanitize_char(c: char) -> char {
    if text::is_alnum(c) || text::is_sep(c) {
        text::lower(c)
    } else {
        '_'
    }
}

pub open spec fn sanitize(s: Seq<char>) -> Seq<char> {
    Seq::new(s.len(), |i: int| sanitize_char(s[i]))
}

/// Every run of separators becomes one `_`.
pub open spec fn collapse(s: Seq<char>) -> Seq<char>
    decreases s.len(),
{
    if s.len() == 0 {
        Seq::empty()
    } else {
        let p = s.drop_last();
        let c = s.last();
        if text::is_sep(c) {
            if p.len() > 0 && text::is_sep(p.last()) {
                collapse(p)
            } else {
                collapse(p).push('_')
            }
        } else {
            collapse(p).push(c)
        }
    }
}

/// The first 64 characters, with separators trimmed again.
pub open spec fn truncate_64_spec(s: Seq<char>) -> Seq<char> {
    text::trim_sep(s.take(64))
}

/// The normal form before the reserved-name rule.
pub open spec fn normalize_raw_spec(s: Seq<char>, is_operation_id: bool) -> Seq<char> {
    let t = text::trim_sep(collapse(sanitize(camel_to_snake(op_replace(s, is_operation_id)))));
    if t.len() > 64 {
        truncate_64_spec(t)
    } else {
        t
    }
}

pub open spec fn api_prefix() -> Seq<char> {
    seq!['a', 'p', 'i', '_']
}

pub open spec fn api_op() -> Seq<char> {
    seq!['a', 'p', 'i', '_', 'o', 'p']
}

/// Empty, reserved, or `mcp.`/`mcp_`-prefixed names get an `api_` prefix
/// (`api_op` for the empty name), clipped to 128 characters.
pub open spec fn finish_reserved_spec(out: Seq<char>) -> Seq<char> {
    if out.len() == 0 || is_reserved(out) || text::has_prefix(out, "mcp."@) || text::has_prefix(
        out,
        "mcp_"@,
    ) {
        let o = if out.len() == 0 {
            api_op()
        } else {
            api_prefix() + out
        };
        if o.len() > 128 {
            text::trim_sep(o.take(128))
        } else {
            o
        }
    } else {
        out
    }
}

/// The normal form of a name.
pub open spec fn normalize_spec(s: Seq<char>, is_operation_id: bool) -> Seq<char> {
    finish_reserved_spec(normalize_raw_spec(s, is_operation_id))
}

/// `method` lower-cased, `_`, then the path without its leading slashes, with
/// `{`, `}` and `/` turned into `_`.
pub open spec fn method_path_fallback_spec(method: Seq<char>, path: Seq<char>) -> Seq<char> {
    let p = trim_start_slash(path);
    text::lower_seq(method).push('_') + Seq::new(
        p.len(),
        |i: int| if p[i] == '{' || p[i] == '}' || p[i] == '/' { '_' } else { p[i] },
    )
}

/// `s` with all leading `/` removed.
pub open spec fn trim_start_slash(s: Seq<char>) -> Seq<char>
    decreases s.len(),
{
    if s.len() > 0 && s[0] == '/' {
        trim_start_slash(s.drop_first())
    } else {
        s
    }
}

/// The part of a description before its first `.` or line break.
pub open spec fn first_sentence(s: Seq<char>) -> Seq<char>
    decreases s.len(),
{
    if s.len() == 0 {
        s
    } else if s[0] == '.' || s[0] == '\n' {
        Seq::empty()
    } else {
        seq![s[0]] + first_sentence(s.drop_first())
    }
}

/// The first sentence of a description, at most 80 characters.
pub open spec fn clip_description(s: Seq<char>) -> Seq<char> {
    let f = first_sentence(s);
    if f.len() > 80 {
        f.take(80)
    } else {
        f
    }
}

/// The trimmed text of an optional field when it is not blank.
pub open spec fn present_text(o: Option<Seq<char>>) -> Option<Seq<char>> {
    match o {
        Some(s) => if text::trim_ws(s).len() > 0 {
            Some(text::trim_ws(s))
        } else {
            None
        },
        None => None,
    }
}

/// The name `candidate_name` gives, with the field it came from.
pub open spec fn candidate_spec(
    operation_id: Option<Seq<char>>,
    summary: Option<Seq<char>>,
    description: Option<Seq<char>>,
    method: Seq<char>,
    path: Seq<char>,
) -> (Seq<char>, NameKind) {
    if present_text(operation_id) is Some && normalize_raw_spec(
        present_text(operation_id)->0,
        true,
    ).len() > 0 {
        (finish_reserved_spec(normalize_raw_spec(present_text(operation_id)->0, true)), NameKind::OperationId)
    } else if present_text(summary) is Some && normalize_raw_spec(
        present_text(summary)->0,
        false,
    ).len() > 0 {
        (finish_reserved_spec(normalize_raw_spec(present_text(summary)->0, false)), NameKind::Summary)
    } else if present_text(description) is Some && normalize_raw_spec(
        clip_description(present_text(description)->0),
        false,
    ).len() > 0 {
        (
            finish_reserved_spec(
                normalize_raw_spec(clip_description(present_text(description)->0), false),
            ),
            NameKind::Description,
        )
    } else {
        (normalize_spec(method_path_fallback_spec(method, path), false), NameKind::Fallback)
    }
}

fn op_replace_exec(v: &Vec<char>, is_operation_id: bool) -> (r: Vec<char>)
    ensures
        r@ == op_replace(v@, is_operation_id),
{
    if !is_operation_id {
        return v.clone();
    }
    let mut r: Vec<char> = Vec::new();
    let mut i: usize = 0;
    while i < v.len()
        invariant
            i <= v.len(),
            r@ =~= op_replace(v@, true).subrange(0, i as int),
        decreases v.len() - i,
    {
        let c = v[i];
        if c == '/' || c == '.' {
            r.push('_');
        } else {
            r.push(c);
        }
        i = i + 1;
    }
    r
}

fn camel_to_snake_exec(v: &Vec<char>) -> (r: Vec<char>)
    ensures
        r@ == camel_to_snake(v@),
{
    let mut r: Vec<char> = Vec::new();
    let mut i: usize = 0;
    while i < v.len()
        invariant
            i <= v.len(),
            r@ == camel_to_snake(v@.take(i as int)),
        decreases v.len() - i,
    {
        let c = v[i];
        let ghost t = v@.take(i + 1);
        assert(t.drop_last() =~= v@.take(i as int));
        assert(t.last() == c);
        assert(prev_of(t, t.len() - 1) == prev_of(v@, i as int));
        if 'A' <= c && c <= 'Z' {
            if i > 0 {
                let p = v[i - 1];
                if ('a' <= p && p <= 'z') || ('0' <= p && p <= '9') {
                    r.push('_');
                }
            }
            r.push(text::to_lower(c));
        } else if (c as u32) < 128 {
            r.push(c);
        }
        assert(r@ =~= camel_to_snake(t));
        i = i + 1;
    }
    assert(v@.take(v.len() as int) =~= v@);
    r
}

fn sanitize_exec(v: &Vec<char>) -> (r: Vec<char>)
    ensures
        r@ == sanitize(v@),
{
    let mut r: Vec<char> = Vec::new();
    let mut i: usize = 0;
    while i < v.len()
        invariant
            i <= v.len(),
            r@ =~= sanitize(v@).subrange(0, i as int),
        decreases v.len() - i,
    {
        let c = v[i];
        let keep = ('A' <= c && c <= 'Z') || ('a' <= c && c <= 'z') || ('0' <= c && c <= '9')
            || c == '_' || c == '-' || c == '.';
        if keep {
            r.push(text::to_lower(c));
        } else {
            r.push('_');
        }
        i = i + 1;
    }
    r
}

fn collapse_exec(v: &Vec<char>) -> (r: Vec<char>)
    ensures
        r@ == collapse(v@),
{
    let mut r: Vec<char> = Vec::new();
    let mut last_sep = false;
    let mut i: usize = 0;
    while i < v.len()
        invariant
            i <= v.len(),
            r@ == collapse(v@.take(i as int)),
            last_sep == (i > 0 && text::is_sep(v@[i - 1])),
        decreases v.len() - i,
    {
        let c = v[i];
        let ghost t = v@.take(i + 1);
        assert(t.drop_last() =~= v@.take(i as int));
        let sep = c == '_' || c == '-' || c == '.';
        if sep {
            if !last_sep {
                r.push('_');
            }
            last_sep = true;
        } else {
            last_sep = false;
            r.push(c);
        }
        assert(r@ =~= collapse(t));
        i = i + 1;
    }
    assert(v@.take(v.len() as int) =~= v@);
    r
}

fn take_vec(v: &Vec<char>, n: usize) -> (r: Vec<char>)
    requires
        n <= v.len(),
    ensures
        r@ == v@.take(n as int),
{
    let mut r: Vec<char> = Vec::new();
    let mut i: usize = 0;
    while i < n
        invariant
            i <= n <= v.len(),
            r@ =~= v@.take(i as int),
        decreases n - i,
    {
        r.push(v[i]);
        i = i + 1;
    }
    r
}

fn normalize_raw(v: &Vec<char>, is_operation_id: bool) -> (r: Vec<char>)
    ensures
        r@ == normalize_raw_spec(v@, is_operation_id),
{
    let a = op_replace_exec(v, is_operation_id);
    let b = camel_to_snake_exec(&a);
    let c = sanitize_exec(&b);
    let d = collapse_exec(&c);
    let e = text::trim_vec(&d, false);
    if e.len() > 64 {
        let f = take_vec(&e, 64);
        text::trim_vec(&f, false)
    } else {
        e
    }
}

fn lit(s: &str) -> (r: Vec<char>)
    ensures
        r@ == s@,
{
    text::chars_of(s)
}

fn is_reserved_exec(v: &Vec<char>) -> (r: bool)
    ensures
        r == is_reserved(v@),
{
    text::seq_eq(v, &lit("initialize")) || text::seq_eq(v, &lit("ping")) || text::seq_eq(v, &lit("shutdown"))
        || text::seq_eq(v, &lit("tools_list")) || text::seq_eq(v, &lit("tools_call")) || text::seq_eq(
        v,
        &lit("resources_list"),
    ) || text::seq_eq(v, &lit("prompts_list")) || text::seq_eq(v, &lit("rpc")) || text::seq_eq(
        v,
        &lit("rpc.internal"),
    )
}

fn finish_reserved(v: Vec<char>) -> (r: Vec<char>)
    ensures
        r@ == finish_reserved_spec(v@),
{
    if v.len() == 0 || is_reserved_exec(&v) || text::vec_has_prefix(&v, &lit("mcp.")) || text::vec_has_prefix(
        &v,
        &lit("mcp_"),
    ) {
        let mut o: Vec<char> = Vec::new();
        o.push('a');
        o.push('p');
        o.push('i');
        o.push('_');
        if v.len() == 0 {
            o.push('o');
            o.push('p');
            assert(o@ =~= api_op());
        } else {
            let mut i: usize = 0;
            while i < v.len()
                invariant
                    i <= v.len(),
                    o@ =~= api_prefix() + v@.take(i as int),
                decreases v.len() - i,
            {
                o.push(v[i]);
                i = i + 1;
            }
            assert(v@.take(v.len() as int) =~= v@);
        }
        if o.len() > 128 {
            let t = take_vec(&o, 128);
            text::trim_vec(&t, false)
        } else {
            o
        }
    } else {
        v
    }
}

/// The normal form of `source` (`normalize_spec`): lower-case ASCII letters,
/// digits and single `_` separators, never a reserved name.
pub fn normalize(source: &str, is_operation_id: bool) -> (r: String)
    ensures
        r@ == normalize_spec(source@, is_operation_id),
{
    let v = text::chars_of(source);
    let raw = normalize_raw(&v, is_operation_id);
    let fin = finish_reserved(raw);
    text::string_of(&fin)
}

/// `GET`, `/repos/{owner}/{repo}` gives `get_repos_owner_repo`.
pub fn method_path_fallback(method: &str, path: &str) -> (r: String)
    ensures
        r@ == method_path_fallback_spec(method@, path@),
{
    let m = text::chars_of(method);
    let p = text::chars_of(path);
    let mut out = String::new();
    let mut i: usize = 0;
    while i < m.len()
        invariant
            i <= m.len(),
            m@ == method@,
            out@ =~= text::lower_seq(m@).take(i as int),
        decreases m.len() - i,
    {
        text::push_char(&mut out, text::to_lower(m[i]));
        i = i + 1;
    }
    text::push_char(&mut out, '_');
    let mut a: usize = 0;
    assert(p@.skip(0) =~= p@);
    while a < p.len() && p[a] == '/'
        invariant
            a <= p.len(),
            p@ == path@,
            trim_start_slash(p@) == trim_start_slash(p@.skip(a as int)),
        decreases p.len() - a,
    {
        assert(p@.skip(a as int).drop_first() =~= p@.skip(a + 1));
        a = a + 1;
    }
    let ghost t = p@.skip(a as int);
    assert(trim_start_slash(t) == t) by {
        if t.len() > 0 {
            assert(t[0] == p@[a as int]);
        }
    }
    let ghost head = text::lower_seq(m@).push('_');
    assert(out@ =~= head);
    let mut j: usize = a;
    while j < p.len()
        invariant
            a <= j <= p.len(),
            p@ == path@,
            t == p@.skip(a as int),
            out@ =~= head + Seq::new(
                (j - a) as nat,
                |k: int| if t[k] == '{' || t[k] == '}' || t[k] == '/' { '_' } else { t[k] },
            ),
        decreases p.len() - j,
    {
        let c = p[j];
        if c == '{' || c == '}' || c == '/' {
            text::push_char(&mut out, '_');
        } else {
            text::push_char(&mut out, c);
        }
        j = j + 1;
    }
    out
}

/// The part before the first `.` or line break.
fn first_sentence_exec(v: &Vec<char>) -> (r: Vec<char>)
    ensures
        r@ == first_sentence(v@),
{
    let mut r: Vec<char> = Vec::new();
    let mut i: usize = 0;
    assert(v@.skip(0) =~= v@);
    assert(r@ + first_sentence(v@) =~= first_sentence(v@));
    while i < v.len() && v[i] != '.' && v[i] != '\n'
        invariant
            i <= v.len(),
            r@ == v@.take(i as int),
            first_sentence(v@) == r@ + first_sentence(v@.skip(i as int)),
        decreases v.len() - i,
    {
        let ghost s = v@.skip(i as int);
        assert(s.drop_first() =~= v@.skip(i + 1));
        assert(s[0] == v@[i as int]);
        r.push(v[i]);
        assert(r@ =~= v@.take(i + 1));
        assert(seq![s[0]] + first_sentence(s.drop_first()) =~= first_sentence(s));
        i = i + 1;
    }
    let ghost s = v@.skip(i as int);
    assert(first_sentence(s) =~= Seq::<char>::empty()) by {
        if s.len() > 0 {
            assert(s[0] == v@[i as int]);
        }
    }
    assert(r@ + Seq::<char>::empty() =~= r@);
    r
}

fn present_text_exec(o: Option<&str>) -> (r: Option<Vec<char>>)
    ensures
        match r {
            Some(v) => present_text(opt_view(o)) == Some(v@),
            None => present_text(opt_view(o)) is None,
        },
{
    match o {
        Some(s) => {
            let t = text::trim(s);
            if t.len() > 0 {
                Some(t)
            } else {
                None
            }
        },
        None => None,
    }
}

/// The name for an operation (`candidate_spec`) and the field it came from.
pub fn candidate_name(src: &NameSource<'_>) -> (r: NamedTool)
    ensures
        (r.name@, r.source_kind) == candidate_spec(
            opt_view(src.operation_id),
            opt_view(src.summary),
            opt_view(src.description),
            src.method@,
            src.path_template@,
        ),
{
    if let Some(id) = present_text_exec(src.operation_id) {
        let name = normalize_raw(&id, true);
        if name.len() > 0 {
            let fin = finish_reserved(name);
            return NamedTool { name: text::string_of(&fin), source_kind: NameKind::OperationId };
        }
    }
    if let Some(summary) = present_text_exec(src.summary) {
        let name = normalize_raw(&summary, false);
        if name.len() > 0 {
            let fin = finish_reserved(name);
            return NamedTool { name: text::string_of(&fin), source_kind: NameKind::Summary };
        }
    }
    if let Some(desc) = present_text_exec(src.description) {
        let first = first_sentence_exec(&desc);
        let clipped = if first.len() > 80 {
            take_vec(&first, 80)
        } else {
            first
        };
        let name = normalize_raw(&clipped, false);
        if name.len() > 0 {
            let fin = finish_reserved(name);
            return NamedTool { name: text::string_of(&fin), source_kind: NameKind::Description };
        }
    }
    let fb = method_path_fallback(src.method, src.path_template);
    NamedTool { name: normalize(fb.as_str(), false), source_kind: NameKind::Fallback }
}

/// A character that may appear in a normal-form name.
pub open spec fn name_char(c: char) -> bool {
    text::is_lower(c) || text::is_digit(c) || c == '_'
}

/// No two `_` next to each other.
pub open spec fn no_double_sep(s: Seq<char>) -> bool {
    forall|i: int| 0 <= i < s.len() - 1 ==> !(#[trigger] s[i] == '_' && s[i + 1] == '_')
}

/// A normal-form name: non-empty, lower-case ASCII letters, digits and `_`,
/// no `_` at either end and never two in a row.
pub open spec fn is_normal_name(s: Seq<char>) -> bool {
    &&& s.len() > 0
    &&& forall|i: int| 0 <= i < s.len() ==> name_char(#[trigger] s[i])
    &&& s[0] != '_'
    &&& s.last() != '_'
    &&& no_double_sep(s)
}

/// Letters, digits and separators only.
spec fn sanitized_char(c: char) -> bool {
    text::is_lower(c) || text::is_digit(c) || text::is_sep(c)
}

proof fn lemma_sanitize_chars(s: Seq<char>)
    ensures
        forall|i: int| 0 <= i < sanitize(s).len() ==> sanitized_char(#[trigger] sanitize(s)[i]),
{
}

proof fn lemma_collapse_shape(s: Seq<char>)
    requires
        forall|i: int| 0 <= i < s.len() ==> sanitized_char(#[trigger] s[i]),
    ensures
        forall|i: int| 0 <= i < collapse(s).len() ==> name_char(#[trigger] collapse(s)[i]),
        no_double_sep(collapse(s)),
        collapse(s).len() > 0 ==> (collapse(s).last() == '_' <==> text::is_sep(s.last())),
        collapse(s).len() > 0 <==> s.len() > 0,
    decreases s.len(),
{
    if s.len() > 0 {
        let p = s.drop_last();
        assert forall|i: int| 0 <= i < p.len() implies sanitized_char(#[trigger] p[i]) by {
            assert(p[i] == s[i]);
        }
        lemma_collapse_shape(p);
    }
}

proof fn lemma_trim_keeps_shape(s: Seq<char>)
    requires
        forall|i: int| 0 <= i < s.len() ==> name_char(#[trigger] s[i]),
        no_double_sep(s),
    ensures
        text::trim_sep(s).len() > 0 ==> is_normal_name(text::trim_sep(s)),
        text::trim_sep(s).len() <= s.len(),
{
    text::lemma_trim_shape(s, false);
    let (a, b) = choose|a: int, b: int|
        0 <= a <= b <= s.len() && text::trim_cls(s, false) == s.subrange(a, b) && (a < b ==> !text::in_class(
            s[a],
            false,
        ) && !text::in_class(s[b - 1], false));
    let t = s.subrange(a, b);
    assert forall|i: int| 0 <= i < t.len() implies name_char(#[trigger] t[i]) by {
        assert(t[i] == s[a + i]);
    }
    assert forall|i: int| 0 <= i < t.len() - 1 implies !(#[trigger] t[i] == '_' && t[i + 1]
        == '_') by {
        assert(t[i] == s[a + i] && t[i + 1] == s[a + i + 1]);
    }
}

proof fn lemma_take_keeps_shape(s: Seq<char>, n: int)
    requires
        0 <= n <= s.len(),
        forall|i: int| 0 <= i < s.len() ==> name_char(#[trigger] s[i]),
        no_double_sep(s),
    ensures
        forall|i: int| 0 <= i < s.take(n).len() ==> name_char(#[trigger] s.take(n)[i]),
        no_double_sep(s.take(n)),
{
    assert forall|i: int| 0 <= i < s.take(n).len() - 1 implies !(#[trigger] s.take(n)[i] == '_'
        && s.take(n)[i + 1] == '_') by {
        assert(s.take(n)[i] == s[i] && s.take(n)[i + 1] == s[i + 1]);
    }
}

/// The normal form before the reserved-name rule is empty or a normal-form
/// name of at most 64 characters.
pub proof fn lemma_normalize_raw_shape(s: Seq<char>, is_operation_id: bool)
    ensures
        normalize_raw_spec(s, is_operation_id).len() <= 64,
        normalize_raw_spec(s, is_operation_id).len() > 0 ==> is_normal_name(
            normalize_raw_spec(s, is_operation_id),
        ),
{
    let a = op_replace(s, is_operation_id);
    let b = camel_to_snake(a);
    let c = sanitize(b);
    lemma_sanitize_chars(b);
    let d = collapse(c);
    lemma_collapse_shape(c);
    let e = text::trim_sep(d);
    lemma_trim_keeps_shape(d);
    if e.len() > 64 {
        text::lemma_trim_shape(d, false);
        let (x, y) = choose|x: int, y: int|
            0 <= x <= y <= d.len() && text::trim_cls(d, false) == d.subrange(x, y) && (x < y
                ==> !text::in_class(d[x], false) && !text::in_class(d[y - 1], false));
        assert forall|i: int| 0 <= i < e.len() implies name_char(#[trigger] e[i]) by {
            assert(e[i] == d[x + i]);
        }
        assert forall|i: int| 0 <= i < e.len() - 1 implies !(#[trigger] e[i] == '_' && e[i + 1]
            == '_') by {
            assert(e[i] == d[x + i] && e[i + 1] == d[x + i + 1]);
        }
        lemma_take_keeps_shape(e, 64);
        lemma_trim_keeps_shape(e.take(64));
    }
}

proof fn lemma_reserved_first_char(s: Seq<char>)
    requires
        is_reserved(s),
    ensures
        s.len() > 0 && s[0] != 'a',
{
    reveal_strlit("initialize");
    reveal_strlit("ping");
    reveal_strlit("shutdown");
    reveal_strlit("tools_list");
    reveal_strlit("tools_call");
    reveal_strlit("resources_list");
    reveal_strlit("prompts_list");
    reveal_strlit("rpc");
    reveal_strlit("rpc.internal");
}

proof fn lemma_api_prefixed_is_free(t: Seq<char>)
    requires
        t.len() > 0,
        t[0] == 'a',
    ensures
        !is_reserved(t),
        !text::has_prefix(t, "mcp."@),
        !text::has_prefix(t, "mcp_"@),
{
    if is_reserved(t) {
        lemma_reserved_first_char(t);
    }
    reveal_strlit("mcp.");
    reveal_strlit("mcp_");
    if text::has_prefix(t, "mcp."@) {
        assert(t.subrange(0, 4)[0] == t[0]);
    }
    if text::has_prefix(t, "mcp_"@) {
        assert(t.subrange(0, 4)[0] == t[0]);
    }
}

/// The reserved-name rule turns a normal-form name (or the empty name) into a
/// normal-form name of at most 68 characters that is neither reserved nor
/// prefixed `mcp.` or `mcp_`.
pub proof fn lemma_finish_reserved_shape(out: Seq<char>)
    requires
        out.len() <= 64,
        out.len() > 0 ==> is_normal_name(out),
    ensures
        is_normal_name(finish_reserved_spec(out)),
        finish_reserved_spec(out).len() <= 68,
        !is_reserved(finish_reserved_spec(out)),
        !text::has_prefix(finish_reserved_spec(out), "mcp."@),
        !text::has_prefix(finish_reserved_spec(out), "mcp_"@),
{
    let r = finish_reserved_spec(out);
    if out.len() == 0 || is_reserved(out) || text::has_prefix(out, "mcp."@) || text::has_prefix(
        out,
        "mcp_"@,
    ) {
        if out.len() == 0 {
            assert(r == api_op());
            assert(is_normal_name(r));
        } else {
            let o = api_prefix() + out;
            assert(r == o);
            assert forall|i: int| 0 <= i < o.len() implies name_char(#[trigger] o[i]) by {
                if i >= 4 {
                    assert(o[i] == out[i - 4]);
                }
            }
            assert forall|i: int| 0 <= i < o.len() - 1 implies !(#[trigger] o[i] == '_' && o[i
                + 1] == '_') by {
                if i >= 4 {
                    assert(o[i] == out[i - 4] && o[i + 1] == out[i - 3]);
                } else if i == 3 {
                    assert(o[i + 1] == out[0]);
                }
            }
            assert(o.last() == out.last());
        }
        lemma_api_prefixed_is_free(r);
    }
}

/// Every name `normalize` returns is a normal-form name of at most 68
/// characters, is not one of the reserved MCP names, and does not start with
/// `mcp.` or `mcp_`.
pub proof fn law_normalize_output(s: Seq<char>, is_operation_id: bool)
    ensures
        is_normal_name(normalize_spec(s, is_operation_id)),
        normalize_spec(s, is_operation_id).len() <= 68,
        !is_reserved(normalize_spec(s, is_operation_id)),
        !text::has_prefix(normalize_spec(s, is_operation_id), "mcp_"@),
        !text::has_prefix(normalize_spec(s, is_operation_id), "mcp."@),
{
    lemma_normalize_raw_shape(s, is_operation_id);
    lemma_finish_reserved_shape(normalize_raw_spec(s, is_operation_id));
}

proof fn lemma_camel_identity(t: Seq<char>)
    requires
        forall|i: int| 0 <= i < t.len() ==> name_char(#[trigger] t[i]),
    ensures
        camel_to_snake(t) == t,
    decreases t.len(),
{
    if t.len() > 0 {
        let p = t.drop_last();
        assert forall|i: int| 0 <= i < p.len() implies name_char(#[trigger] p[i]) by {
            assert(p[i] == t[i]);
        }
        lemma_camel_identity(p);
        assert(name_char(t[t.len() - 1]));
        assert(camel_to_snake(t) =~= p.push(t.last()));
    }
}

proof fn lemma_collapse_identity(t: Seq<char>)
    requires
        forall|i: int| 0 <= i < t.len() ==> name_char(#[trigger] t[i]),
        no_double_sep(t),
    ensures
        collapse(t) == t,
    decreases t.len(),
{
    if t.len() > 0 {
        let p = t.drop_last();
        assert forall|i: int| 0 <= i < p.len() implies name_char(#[trigger] p[i]) by {
            assert(p[i] == t[i]);
        }
        assert forall|i: int| 0 <= i < p.len() - 1 implies !(#[trigger] p[i] == '_' && p[i + 1]
            == '_') by {
            assert(p[i] == t[i] && p[i + 1] == t[i + 1]);
        }
        lemma_collapse_identity(p);
        assert(name_char(t[t.len() - 1]));
        if p.len() > 0 {
            assert(name_char(t[t.len() - 2]));
            assert(!(t[t.len() - 2] == '_' && t[t.len() - 1] == '_'));
        }
        assert(collapse(t) =~= p.push(t.last()));
    }
}

/// On a normal-form name of at most 64 characters the raw normal form is the identity.
pub proof fn lemma_normalize_raw_identity(t: Seq<char>, is_operation_id: bool)
    requires
        is_normal_name(t),
        t.len() <= 64,
    ensures
        normalize_raw_spec(t, is_operation_id) == t,
{
    assert(op_replace(t, is_operation_id) =~= t);
    lemma_camel_identity(t);
    assert(sanitize(t) =~= t);
    lemma_collapse_identity(t);
    text::lemma_trim_noop(t, false);
}

/// Normalizing is idempotent: a name that `normalize` returned, if it has at
/// most 64 characters, is returned unchanged by `normalize`.
pub proof fn law_normalize_idempotent(s: Seq<char>, b1: bool, b2: bool)
    requires
        normalize_spec(s, b1).len() <= 64,
    ensures
        normalize_spec(normalize_spec(s, b1), b2) == normalize_spec(s, b1),
{
    let n = normalize_spec(s, b1);
    law_normalize_output(s, b1);
    lemma_normalize_raw_identity(n, b2);
}

/// Every name `candidate_name` gives is a normal-form name of at most 68
/// characters that is not reserved.
/// `s` has an ASCII letter or digit.
pub open spec fn has_ascii_alnum(s: Seq<char>) -> bool {
    exists|i: int| 0 <= i < s.len() && text::is_alnum(#[trigger] s[i])
}

proof fn lemma_lower_alnum(c: char)
    requires
        text::is_alnum(c),
    ensures
        text::is_alnum(text::lower(c)),
        text::is_ascii_char(c),
        !text::is_sep(c),
{
}

proof fn lemma_camel_alnum(s: Seq<char>)
    requires
        has_ascii_alnum(s),
    ensures
        has_ascii_alnum(camel_to_snake(s)),
    decreases s.len(),
{
    let i = choose|i: int| 0 <= i < s.len() && text::is_alnum(#[trigger] s[i]);
    let p = s.drop_last();
    let piece = snake_piece(prev_of(s, s.len() - 1), s.last());
    assert(camel_to_snake(s) == camel_to_snake(p) + piece);
    if i < s.len() - 1 {
        assert(p[i] == s[i]);
        lemma_camel_alnum(p);
        let k = choose|k: int| 0 <= k < camel_to_snake(p).len() && text::is_alnum(#[trigger] camel_to_snake(p)[k]);
        assert(camel_to_snake(s)[k] == camel_to_snake(p)[k]);
    } else {
        let c = s.last();
        lemma_lower_alnum(c);
        let n = camel_to_snake(p).len();
        assert(piece.len() > 0 && text::is_alnum(piece.last()));
        assert(camel_to_snake(s)[n + piece.len() - 1] == piece.last());
    }
}

proof fn lemma_collapse_keeps(s: Seq<char>, k: int)
    requires
        0 <= k < s.len(),
        !text::is_sep(s[k]),
    ensures
        exists|j: int| 0 <= j < collapse(s).len() && #[trigger] collapse(s)[j] == s[k],
    decreases s.len(),
{
    let p = s.drop_last();
    if k == s.len() - 1 {
        assert(collapse(s) == collapse(p).push(s[k]));
        assert(collapse(s)[collapse(p).len() as int] == s[k]);
    } else {
        assert(p[k] == s[k]);
        lemma_collapse_keeps(p, k);
        let j = choose|j: int| 0 <= j < collapse(p).len() && #[trigger] collapse(p)[j] == p[k];
        if text::is_sep(s.last()) {
            if p.len() > 0 && text::is_sep(p.last()) {
                assert(collapse(s) == collapse(p));
            } else {
                assert(collapse(s) == collapse(p).push('_'));
                assert(collapse(s)[j] == collapse(p)[j]);
            }
        } else {
            assert(collapse(s) == collapse(p).push(s.last()));
            assert(collapse(s)[j] == collapse(p)[j]);
        }
    }
}

proof fn lemma_trim_start_keeps(s: Seq<char>, k: int)
    requires
        0 <= k < s.len(),
        !text::is_sep(s[k]),
    ensures
        exists|j: int| 0 <= j < text::trim_start_cls(s, false).len() && !text::is_sep(
            #[trigger] text::trim_start_cls(s, false)[j],
        ),
    decreases s.len(),
{
    if s.len() > 0 && text::is_sep(s[0]) {
        assert(s.drop_first()[k - 1] == s[k]);
        lemma_trim_start_keeps(s.drop_first(), k - 1);
        assert(text::trim_start_cls(s, false) == text::trim_start_cls(s.drop_first(), false));
    } else {
        assert(text::trim_start_cls(s, false) == s);
        assert(!text::is_sep(text::trim_start_cls(s, false)[k]));
    }
}

proof fn lemma_trim_end_keeps(s: Seq<char>, k: int)
    requires
        0 <= k < s.len(),
        !text::is_sep(s[k]),
    ensures
        text::trim_end_cls(s, false).len() > 0,
    decreases s.len(),
{
    if s.len() > 0 && text::is_sep(s.last()) {
        assert(s.drop_last()[k] == s[k]);
        lemma_trim_end_keeps(s.drop_last(), k);
        assert(text::trim_end_cls(s, false) == text::trim_end_cls(s.drop_last(), false));
    } else {
        assert(text::trim_end_cls(s, false) == s);
    }
}

proof fn lemma_trim_sep_nonempty(s: Seq<char>, k: int)
    requires
        0 <= k < s.len(),
        !text::is_sep(s[k]),
    ensures
        text::trim_sep(s).len() > 0,
{
    lemma_trim_start_keeps(s, k);
    let t = text::trim_start_cls(s, false);
    let j = choose|j: int| 0 <= j < t.len() && !text::is_sep(#[trigger] t[j]);
    lemma_trim_end_keeps(t, j);
}

/// Text with an ASCII letter or digit never normalizes to the empty name.
pub proof fn lemma_alnum_survives(s: Seq<char>, is_operation_id: bool)
    requires
        has_ascii_alnum(s),
    ensures
        normalize_raw_spec(s, is_operation_id).len() > 0,
{
    let a = op_replace(s, is_operation_id);
    let i = choose|i: int| 0 <= i < s.len() && text::is_alnum(#[trigger] s[i]);
    assert(a[i] == s[i]);
    lemma_camel_alnum(a);
    let b = camel_to_snake(a);
    let k = choose|k: int| 0 <= k < b.len() && text::is_alnum(#[trigger] b[k]);
    let c = sanitize(b);
    lemma_lower_alnum(b[k]);
    assert(c[k] == text::lower(b[k]));
    lemma_lower_alnum(c[k]);
    lemma_collapse_keeps(c, k);
    let d = collapse(c);
    let j = choose|j: int| 0 <= j < d.len() && #[trigger] d[j] == c[k];
    lemma_trim_sep_nonempty(d, j);
    let t = text::trim_sep(d);
    if t.len() > 64 {
        text::lemma_trim_shape(d, false);
        let (x, y) = choose|x: int, y: int|
            0 <= x <= y <= d.len() && text::trim_cls(d, false) == d.subrange(x, y) && (x < y ==> !text::in_class(
                d[x],
                false,
            ) && !text::in_class(d[y - 1], false));
        assert(t[0] == d[x]);
        assert(t.take(64)[0] == t[0]);
        lemma_trim_sep_nonempty(t.take(64), 0);
    }
}

/// The summary comes before the description: without an operationId, a
/// summary with an ASCII letter or digit (after trimming) names the tool,
/// normalized, with kind `Summary`, whatever the description says.
pub proof fn law_summary_before_description(
    summary: Seq<char>,
    description: Option<Seq<char>>,
    method: Seq<char>,
    path: Seq<char>,
)
    requires
        has_ascii_alnum(text::trim_ws(summary)),
    ensures
        candidate_spec(None, Some(summary), description, method, path) == (
            normalize_spec(text::trim_ws(summary), false),
            NameKind::Summary,
        ),
{
    let t = text::trim_ws(summary);
    let i = choose|i: int| 0 <= i < t.len() && text::is_alnum(#[trigger] t[i]);
    assert(t.len() > 0);
    lemma_alnum_survives(t, false);
}

proof fn lemma_clip_empty(s: Seq<char>)
    requires
        s.len() == 0,
    ensures
        clip_description(s).len() == 0,
{
}

/// The description comes before the method and path: without an
/// operationId or summary, a description whose first sentence (cut to 80
/// characters, after trimming) has an ASCII letter or digit names the tool,
/// with kind `Description`; and without any of the three the name is the
/// normalized `{method}_{path}`, with kind `Fallback`.
pub proof fn law_description_before_fallback(description: Option<Seq<char>>, method: Seq<char>, path: Seq<char>)
    ensures
        (description matches Some(d) && has_ascii_alnum(clip_description(text::trim_ws(d))))
            ==> candidate_spec(None, None, description, method, path) == (
            normalize_spec(clip_description(text::trim_ws(description->0)), false),
            NameKind::Description,
        ),
        description is None ==> candidate_spec(None, None, description, method, path) == (
            normalize_spec(method_path_fallback_spec(method, path), false),
            NameKind::Fallback,
        ),
{
    if description is Some && has_ascii_alnum(clip_description(text::trim_ws(description->0))) {
        let c = clip_description(text::trim_ws(description->0));
        let i = choose|i: int| 0 <= i < c.len() && text::is_alnum(#[trigger] c[i]);
        lemma_alnum_survives(c, false);
        assert(text::trim_ws(description->0).len() > 0) by {
            if text::trim_ws(description->0).len() == 0 {
                lemma_clip_empty(text::trim_ws(description->0));
            }
        }
    }
}

/// Which source names a tool: an operationId with an ASCII letter or digit
/// (after trimming) always wins, normalized as an operationId; a name taken
/// from the summary is the normalized trimmed summary; the fallback is the
/// normalized `{method}_{path}`.
pub proof fn law_candidate_sources(
    operation_id: Option<Seq<char>>,
    summary: Option<Seq<char>>,
    description: Option<Seq<char>>,
    method: Seq<char>,
    path: Seq<char>,
)
    ensures
        (operation_id matches Some(id) && has_ascii_alnum(text::trim_ws(id))) ==> candidate_spec(
            operation_id,
            summary,
            description,
            method,
            path,
        ) == (normalize_spec(text::trim_ws(operation_id->0), true), NameKind::OperationId),
        candidate_spec(operation_id, summary, description, method, path).1 == NameKind::Summary ==> (
        summary matches Some(s) && candidate_spec(operation_id, summary, description, method, path).0
            == normalize_spec(text::trim_ws(s), false)),
        candidate_spec(operation_id, summary, description, method, path).1 == NameKind::Fallback
            ==> candidate_spec(operation_id, summary, description, method, path).0 == normalize_spec(
            method_path_fallback_spec(method, path),
            false,
        ),
{
    if operation_id is Some && has_ascii_alnum(text::trim_ws(operation_id->0)) {
        let t = text::trim_ws(operation_id->0);
        let i = choose|i: int| 0 <= i < t.len() && text::is_alnum(#[trigger] t[i]);
        assert(t.len() > 0);
        lemma_alnum_survives(t, true);
    }
}

pub proof fn law_candidate_output(
    operation_id: Option<Seq<char>>,
    summary: Option<Seq<char>>,
    description: Option<Seq<char>>,
    method: Seq<char>,
    path: Seq<char>,
)
    ensures
        is_normal_name(candidate_spec(operation_id, summary, description, method, path).0),
        candidate_spec(operation_id, summary, description, method, path).0.len() <= 68,
        !is_reserved(candidate_spec(operation_id, summary, description, method, path).0),
{
    if present_text(operation_id) is Some {
        lemma_normalize_raw_shape(present_text(operation_id)->0, true);
        lemma_finish_reserved_shape(normalize_raw_spec(present_text(operation_id)->0, true));
    }
    if present_text(summary) is Some {
        lemma_normalize_raw_shape(present_text(summary)->0, false);
        lemma_finish_reserved_shape(normalize_raw_spec(present_text(summary)->0, false));
    }
    if present_text(description) is Some {
        lemma_normalize_raw_shape(clip_description(present_text(description)->0), false);
        lemma_finish_reserved_shape(
            normalize_raw_spec(clip_description(present_text(description)->0), false),
        );
    }
    law_normalize_output(method_path_fallback_spec(method, path), false);
}

} // verus!
verus! {

// ---------------------------------------------------------------------------
// Making the names of a spec unique.
// ---------------------------------------------------------------------------

/// Lexicographic order of character sequences, a proper prefix first: the
/// order of `String`'s `Ord` (code-point order is UTF-8 byte order).
pub open spec fn seq_lt(a: Seq<char>, b: Seq<char>) -> bool
    decreases a.len(),
{
    if a.len() == 0 {
        b.len() > 0
    } else if b.len() == 0 {
        false
    } else if a[0] != b[0] {
        a[0] < b[0]
    } else {
        seq_lt(a.drop_first(), b.drop_first())
    }
}

pub proof fn lemma_seq_lt_irrefl(a: Seq<char>)
    ensures
        !seq_lt(a, a),
    decreases a.len(),
{
    if a.len() > 0 {
        lemma_seq_lt_irrefl(a.drop_first());
    }
}

pub proof fn lemma_seq_lt_trans(a: Seq<char>, b: Seq<char>, c: Seq<char>)
    requires
        seq_lt(a, b),
        seq_lt(b, c),
    ensures
        seq_lt(a, c),
    decreases a.len(),
{
    if a.len() > 0 && b.len() > 0 && c.len() > 0 && a[0] == b[0] && b[0] == c[0] {
        lemma_seq_lt_trans(a.drop_first(), b.drop_first(), c.drop_first());
    }
}

pub proof fn lemma_seq_lt_total(a: Seq<char>, b: Seq<char>)
    requires
        a != b,
    ensures
        seq_lt(a, b) || seq_lt(b, a),
    decreases a.len(),
{
    if a.len() > 0 && b.len() > 0 && a[0] == b[0] {
        if a.drop_first() == b.drop_first() {
            assert(a =~= seq![a[0]] + a.drop_first());
            assert(b =~= seq![b[0]] + b.drop_first());
        }
        lemma_seq_lt_total(a.drop_first(), b.drop_first());
    } else if a.len() == 0 && b.len() == 0 {
        assert(a =~= b);
    }
}

proof fn lemma_seq_lt_skip(a: Seq<char>, b: Seq<char>, i: int)
    requires
        0 <= i <= a.len(),
        i <= b.len(),
        a.take(i) == b.take(i),
    ensures
        seq_lt(a, b) == seq_lt(a.skip(i), b.skip(i)),
    decreases i,
{
    if i > 0 {
        assert(a[0] == a.take(i)[0]);
        assert(b[0] == b.take(i)[0]);
        assert(a.drop_first().take(i - 1) =~= a.take(i).drop_first());
        assert(b.drop_first().take(i - 1) =~= b.take(i).drop_first());
        lemma_seq_lt_skip(a.drop_first(), b.drop_first(), i - 1);
        assert(a.drop_first().skip(i - 1) =~= a.skip(i));
        assert(b.drop_first().skip(i - 1) =~= b.skip(i));
    } else {
        assert(a.skip(0) =~= a);
        assert(b.skip(0) =~= b);
    }
}

/// `seq_lt` on character vectors.
fn seq_lt_exec(a: &Vec<char>, b: &Vec<char>) -> (r: bool)
    ensures
        r == seq_lt(a@, b@),
{
    let mut i: usize = 0;
    while i < a.len() && i < b.len()
        invariant
            i <= a.len(),
            i <= b.len(),
            a@.take(i as int) == b@.take(i as int),
        decreases a.len() - i,
    {
        if a[i] != b[i] {
            proof {
                lemma_seq_lt_skip(a@, b@, i as int);
                assert(a@.skip(i as int)[0] == a@[i as int]);
                assert(b@.skip(i as int)[0] == b@[i as int]);
            }
            return a[i] < b[i];
        }
        assert(a@.take(i + 1) =~= a@.take(i as int).push(a@[i as int]));
        assert(b@.take(i + 1) =~= b@.take(i as int).push(b@[i as int]));
        i = i + 1;
    }
    proof {
        lemma_seq_lt_skip(a@, b@, i as int);
    }
    i < b.len()
}

/// The ordering key of an operation: (method, path, operationId).
pub type KeyView = (Seq<char>, Seq<char>, Seq<char>);

/// Lexicographic order of keys, field by field (tuple `Ord`).
pub open spec fn key_lt(x: KeyView, y: KeyView) -> bool {
    seq_lt(x.0, y.0) || (x.0 == y.0 && (seq_lt(x.1, y.1) || (x.1 == y.1 && seq_lt(x.2, y.2))))
}

proof fn lemma_key_lt_irrefl(x: KeyView)
    ensures
        !key_lt(x, x),
{
    lemma_seq_lt_irrefl(x.0);
    lemma_seq_lt_irrefl(x.1);
    lemma_seq_lt_irrefl(x.2);
}

proof fn lemma_key_lt_trans(x: KeyView, y: KeyView, z: KeyView)
    requires
        key_lt(x, y),
        key_lt(y, z),
    ensures
        key_lt(x, z),
{
    if seq_lt(x.0, y.0) && seq_lt(y.0, z.0) {
        lemma_seq_lt_trans(x.0, y.0, z.0);
    } else if x.0 == y.0 && y.0 == z.0 {
        if seq_lt(x.1, y.1) && seq_lt(y.1, z.1) {
            lemma_seq_lt_trans(x.1, y.1, z.1);
        } else if x.1 == y.1 && y.1 == z.1 {
            lemma_seq_lt_trans(x.2, y.2, z.2);
        }
    }
}

proof fn lemma_key_lt_total(x: KeyView, y: KeyView)
    requires
        x != y,
    ensures
        key_lt(x, y) || key_lt(y, x),
{
    if x.0 != y.0 {
        lemma_seq_lt_total(x.0, y.0);
    } else if x.1 != y.1 {
        lemma_seq_lt_total(x.1, y.1);
    } else {
        lemma_seq_lt_total(x.2, y.2);
    }
}

/// Operation `j` comes before operation `i` in the order that decides which
/// of several operations with one name keeps it: the same name, and a smaller
/// key, or an equal key and an earlier position (the sort is stable).
pub open spec fn ranks_before(names: Seq<Seq<char>>, keys: Seq<KeyView>, i: int, j: int) -> bool {
    names[j] == names[i] && (key_lt(keys[j], keys[i]) || (keys[j] == keys[i] && j < i))
}

/// The number of `j < m` that come before `i`.
pub open spec fn rank_upto(names: Seq<Seq<char>>, keys: Seq<KeyView>, i: int, m: int) -> nat
    decreases m,
{
    if m <= 0 {
        0
    } else {
        rank_upto(names, keys, i, m - 1) + if ranks_before(names, keys, i, m - 1) {
            1nat
        } else {
            0nat
        }
    }
}

/// The position of operation `i` among the operations with its name:
/// 0 keeps the name.
pub open spec fn rank(names: Seq<Seq<char>>, keys: Seq<KeyView>, i: int) -> nat {
    rank_upto(names, keys, i, names.len() as int)
}

/// `{name}_{suffix}`.
pub open spec fn suffixed(x: Seq<char>, s: nat) -> Seq<char> {
    x + seq!['_'] + text::dec_str(s)
}

/// `{name}_{s}` is not one of the candidate names.
pub open spec fn is_free(names: Seq<Seq<char>>, x: Seq<char>, s: nat) -> bool {
    !names.contains(suffixed(x, s))
}

/// How many suffixes in `lo..hi` are free.
pub open spec fn free_count(names: Seq<Seq<char>>, x: Seq<char>, lo: int, hi: int) -> nat
    decreases hi - lo,
{
    if hi <= lo {
        0
    } else {
        free_count(names, x, lo, hi - 1) + if is_free(names, x, (hi - 1) as nat) {
            1nat
        } else {
            0nat
        }
    }
}

/// `s` is the `r`-th free suffix from 2 upwards.
pub open spec fn nth_free_at(names: Seq<Seq<char>>, x: Seq<char>, r: nat, s: nat) -> bool {
    s >= 2 && is_free(names, x, s) && free_count(names, x, 2, s as int) == r - 1
}

/// The result of `uniquify`: in input order, the first operation of each name
/// (in key order) keeps it; the `r`-th after it gets `{name}_{s}` with `s` the
/// `r`-th suffix from 2 upwards whose name is not a candidate.
pub open spec fn uniquified(names: Seq<Seq<char>>, keys: Seq<KeyView>, out: Seq<Seq<char>>) -> bool {
    &&& out.len() == names.len()
    &&& forall|i: int| 0 <= i < names.len() ==> slot_ok(names, keys, #[trigger] out[i], i)
}

/// What `uniquified` asks of the name given to operation `k`.
pub open spec fn slot_ok(names: Seq<Seq<char>>, keys: Seq<KeyView>, o: Seq<char>, k: int) -> bool {
    if rank(names, keys, k) == 0 {
        o == names[k]
    } else {
        exists|s: nat| nth_free_at(names, names[k], rank(names, keys, k), s) && o == suffixed(names[k], s)
    }
}

pub open spec fn key_views(keys: Seq<(String, String, String)>) -> Seq<KeyView> {
    keys.map_values(|k: (String, String, String)| (k.0@, k.1@, k.2@))
}

pub open spec fn string_views(v: Seq<String>) -> Seq<Seq<char>> {
    v.map_values(|s: String| s@)
}

/// The UTF-8 length of a name.
pub open spec fn byte_len(s: Seq<char>) -> nat {
    vstd::utf8::encode_utf8(s).len()
}

} // verus!
verus! {

proof fn lemma_digit_char_value(d: nat)
    requires
        d < 10,
    ensures
        text::is_digit(text::digit_char(d)),
        crate::ip::digit_val(text::digit_char(d)) == d,
{
}

/// Decimal digits: non-empty, digits only, and they read back as `n`.
pub proof fn lemma_dec_str(n: nat)
    ensures
        text::dec_str(n).len() > 0,
        forall|i: int| 0 <= i < text::dec_str(n).len() ==> text::is_digit(#[trigger] text::dec_str(n)[i]),
        crate::ip::dec_value(text::dec_str(n)) == n,
    decreases n,
{
    if n < 10 {
        lemma_digit_char_value(n);
        assert(text::dec_str(n) =~= seq![text::digit_char(n)]);
        assert(seq![text::digit_char(n)].drop_last() =~= Seq::<char>::empty());
        assert(crate::ip::dec_value(seq![text::digit_char(n)]) == crate::ip::dec_value(
            Seq::<char>::empty(),
        ) * 10 + crate::ip::digit_val(text::digit_char(n)));
    } else {
        vstd::arithmetic::div_mod::lemma_div_decreases(n as int, 10);
        lemma_dec_str(n / 10);
        lemma_digit_char_value(n % 10);
        let p = text::dec_str(n / 10);
        assert(text::dec_str(n) == p.push(text::digit_char(n % 10)));
        let c = text::digit_char(n % 10);
        assert(p.push(c).drop_last() =~= p);
        assert(p.push(c).last() == c);
        assert(crate::ip::dec_value(p.push(c)) == crate::ip::dec_value(p) * 10 + crate::ip::digit_val(c));
        assert((n / 10) * 10 + n % 10 == n) by (nonlinear_arith);
        assert forall|i: int| 0 <= i < text::dec_str(n).len() implies text::is_digit(
            #[trigger] text::dec_str(n)[i],
        ) by {
            if i < p.len() {
                assert(text::dec_str(n)[i] == p[i]);
            }
        }
    }
}

/// `{x}_{s}` determines both `x` and `s`: the suffix has no `_`.
pub proof fn lemma_suffixed_injective(x: Seq<char>, s: nat, y: Seq<char>, t: nat)
    requires
        suffixed(x, s) == suffixed(y, t),
    ensures
        x == y,
        s == t,
{
    let a = suffixed(x, s);
    lemma_dec_str(s);
    lemma_dec_str(t);
    let ds = text::dec_str(s);
    let dt = text::dec_str(t);
    assert(a.len() == x.len() + 1 + ds.len());
    assert(a.len() == y.len() + 1 + dt.len());
    if x.len() < y.len() {
        assert(a[y.len() as int] == '_');
        assert(a[y.len() as int] == ds[y.len() - x.len() - 1]);
        assert(text::is_digit(ds[y.len() - x.len() - 1]));
    } else if y.len() < x.len() {
        assert(a[x.len() as int] == '_');
        assert(a[x.len() as int] == dt[x.len() - y.len() - 1]);
        assert(text::is_digit(dt[x.len() - y.len() - 1]));
    }
    assert(x =~= a.take(x.len() as int));
    assert(y =~= a.take(y.len() as int));
    assert(ds =~= a.skip(x.len() as int + 1));
    assert(dt =~= a.skip(y.len() as int + 1));
}

/// Operation `a` comes before operation `b` (same name assumed elsewhere).
pub open spec fn key_before(keys: Seq<KeyView>, a: int, b: int) -> bool {
    key_lt(keys[a], keys[b]) || (keys[a] == keys[b] && a < b)
}

proof fn lemma_before_trans(keys: Seq<KeyView>, a: int, b: int, c: int)
    requires
        key_before(keys, a, b),
        key_before(keys, b, c),
    ensures
        key_before(keys, a, c),
{
    if key_lt(keys[a], keys[b]) && key_lt(keys[b], keys[c]) {
        lemma_key_lt_trans(keys[a], keys[b], keys[c]);
    }
}

proof fn lemma_before_total(keys: Seq<KeyView>, a: int, b: int)
    requires
        a != b,
    ensures
        key_before(keys, a, b) || key_before(keys, b, a),
{
    if keys[a] != keys[b] {
        lemma_key_lt_total(keys[a], keys[b]);
    }
}

proof fn lemma_before_asym(keys: Seq<KeyView>, a: int, b: int)
    requires
        key_before(keys, a, b),
    ensures
        !key_before(keys, b, a),
{
    if key_before(keys, b, a) {
        lemma_before_trans(keys, a, b, a);
        lemma_key_lt_irrefl(keys[a]);
    }
}

proof fn lemma_rank_upto_grows(names: Seq<Seq<char>>, keys: Seq<KeyView>, i: int, j: int, m: int)
    requires
        0 <= i < names.len(),
        0 <= j < names.len(),
        names.len() == keys.len(),
        names[i] == names[j],
        key_before(keys, i, j),
        0 <= m <= names.len(),
    ensures
        rank_upto(names, keys, j, m) >= rank_upto(names, keys, i, m) + if i < m {
            1int
        } else {
            0int
        },
    decreases m,
{
    if m > 0 {
        lemma_rank_upto_grows(names, keys, i, j, m - 1);
        let k = m - 1;
        if ranks_before(names, keys, i, k) {
            assert(key_before(keys, k, i));
            lemma_before_trans(keys, k, i, j);
            assert(ranks_before(names, keys, j, k));
        }
        if k == i {
            assert(ranks_before(names, keys, j, k));
            lemma_before_asym(keys, i, j);
            lemma_key_lt_irrefl(keys[i]);
            assert(!ranks_before(names, keys, i, k));
        }
    }
}

/// Two operations with one name never share a rank.
pub proof fn lemma_rank_distinct(names: Seq<Seq<char>>, keys: Seq<KeyView>, i: int, j: int)
    requires
        names.len() == keys.len(),
        0 <= i < names.len(),
        0 <= j < names.len(),
        i != j,
        names[i] == names[j],
    ensures
        rank(names, keys, i) != rank(names, keys, j),
{
    lemma_before_total(keys, i, j);
    if key_before(keys, i, j) {
        lemma_rank_upto_grows(names, keys, i, j, names.len() as int);
    } else {
        lemma_rank_upto_grows(names, keys, j, i, names.len() as int);
    }
}

/// Uniqueness: the names that `uniquify` gives are pairwise distinct.
pub proof fn law_uniquify_distinct(names: Seq<Seq<char>>, keys: Seq<KeyView>, out: Seq<Seq<char>>)
    requires
        names.len() == keys.len(),
        uniquified(names, keys, out),
    ensures
        forall|i: int, j: int|
            0 <= i < names.len() && 0 <= j < names.len() && i != j ==> out[i] != out[j],
{
    assert forall|i: int, j: int|
        0 <= i < names.len() && 0 <= j < names.len() && i != j implies out[i] != out[j] by {
        let ri = rank(names, keys, i);
        let rj = rank(names, keys, j);
        let oi = out[i];
        let oj = out[j];
        if names[i] == names[j] {
            lemma_rank_distinct(names, keys, i, j);
        }
        if ri == 0 && rj == 0 {
            assert(oi == names[i] && oj == names[j]);
        } else if ri == 0 {
            let t = choose|s: nat| nth_free_at(names, names[j], rj, s) && out[j] == suffixed(names[j], s);
            assert(names.contains(names[i]));
        } else if rj == 0 {
            let s = choose|s: nat| nth_free_at(names, names[i], ri, s) && out[i] == suffixed(names[i], s);
            assert(names.contains(names[j]));
        } else {
            let s = choose|s: nat| nth_free_at(names, names[i], ri, s) && out[i] == suffixed(names[i], s);
            let t = choose|s: nat| nth_free_at(names, names[j], rj, s) && out[j] == suffixed(names[j], s);
            if oi == oj {
                lemma_suffixed_injective(names[i], s, names[j], t);
            }
        }
    }
}


/// `o` is `x` with a suffix `_{n}`, `n >= 2`.
pub open spec fn renamed(o: Seq<char>, x: Seq<char>) -> bool {
    exists|n: nat| n >= 2 && o == suffixed(x, n)
}

proof fn lemma_rank_zero(names: Seq<Seq<char>>, keys: Seq<KeyView>, i: int, m: int)
    requires
        0 <= m,
    ensures
        rank_upto(names, keys, i, m) == 0 <==> forall|j: int| 0 <= j < m ==> !ranks_before(names, keys, i, j),
    decreases m,
{
    if m > 0 {
        lemma_rank_zero(names, keys, i, m - 1);
    }
}

/// Every suffixed name stays within 128 bytes, so no suffixed name is ever
/// cut short.
pub open spec fn suffixes_fit(names: Seq<Seq<char>>, keys: Seq<KeyView>) -> bool {
    forall|i: int, s: nat|
        0 <= i < names.len() && rank(names, keys, i) > 0 && #[trigger] nth_free_at(
            names,
            names[i],
            rank(names, keys, i),
            s,
        ) ==> byte_len(suffixed(names[i], s)) <= 128
}

proof fn lemma_free_count_split(names: Seq<Seq<char>>, x: Seq<char>, lo: int, mid: int, hi: int)
    requires
        lo <= mid <= hi,
    ensures
        free_count(names, x, lo, hi) == free_count(names, x, lo, mid) + free_count(names, x, mid, hi),
    decreases hi - mid,
{
    if hi > mid {
        lemma_free_count_split(names, x, lo, mid, hi - 1);
    }
}

/// The `r`-th free suffix is unique.
proof fn lemma_nth_free_unique(names: Seq<Seq<char>>, x: Seq<char>, r: nat, s: nat, t: nat)
    requires
        nth_free_at(names, x, r, s),
        nth_free_at(names, x, r, t),
    ensures
        s == t,
{
    if s < t {
        lemma_free_count_split(names, x, 2, s as int, t as int);
        lemma_free_count_split(names, x, s as int, s as int + 1, t as int);
        assert(free_count(names, x, s as int, s as int + 1) == 1) by {
            assert(free_count(names, x, s as int, s as int) == 0);
        }
    } else if t < s {
        lemma_free_count_split(names, x, 2, t as int, s as int);
        lemma_free_count_split(names, x, t as int, t as int + 1, s as int);
        assert(free_count(names, x, t as int, t as int + 1) == 1) by {
            assert(free_count(names, x, t as int, t as int) == 0);
        }
    }
}

proof fn lemma_encode_concat(a: Seq<char>, b: Seq<char>)
    ensures
        vstd::utf8::encode_utf8(a + b) == vstd::utf8::encode_utf8(a) + vstd::utf8::encode_utf8(b),
    decreases a.len(),
{
    if a.len() == 0 {
        assert(a + b =~= b);
        assert(vstd::utf8::encode_utf8(a) =~= Seq::<u8>::empty());
        assert(Seq::<u8>::empty() + vstd::utf8::encode_utf8(b) =~= vstd::utf8::encode_utf8(b));
    } else {
        assert((a + b)[0] == a[0]);
        assert((a + b).drop_first() =~= a.drop_first() + b);
        lemma_encode_concat(a.drop_first(), b);
        let e0 = vstd::utf8::encode_scalar(a[0] as u32);
        assert(vstd::utf8::encode_utf8(a + b) == e0 + vstd::utf8::encode_utf8((a + b).drop_first()));
        assert(vstd::utf8::encode_utf8(a) == e0 + vstd::utf8::encode_utf8(a.drop_first()));
        assert(e0 + (vstd::utf8::encode_utf8(a.drop_first()) + vstd::utf8::encode_utf8(b)) =~= (e0
            + vstd::utf8::encode_utf8(a.drop_first())) + vstd::utf8::encode_utf8(b));
    }
}

spec fn pow10(k: nat) -> nat
    decreases k,
{
    if k == 0 {
        1
    } else {
        10 * pow10((k - 1) as nat)
    }
}

proof fn lemma_dec_len(n: nat)
    requires
        n < 10_000_000_000,
    ensures
        text::dec_str(n).len() <= 10,
{
    reveal_with_fuel(pow10, 11);
    lemma_dec_len_below(n, 10);
}

proof fn lemma_dec_len_below(n: nat, k: nat)
    requires
        k >= 1,
        n < pow10(k),
    ensures
        text::dec_str(n).len() <= k,
    decreases k,
{
    if n >= 10 {
        let q = pow10((k - 1) as nat);
        if k == 1 {
            assert(pow10(0) == 1);
        } else {
            assert(n / 10 < q) by (nonlinear_arith)
                requires
                    n < 10 * q,
            ;
            lemma_dec_len_below(n / 10, (k - 1) as nat);
            assert(text::dec_str(n) == text::dec_str(n / 10).push(text::digit_char(n % 10)));
        }
    }
}

proof fn lemma_taken_suffixes(names: Seq<Seq<char>>, x: Seq<char>, t: int) -> (hit: Set<int>)
    requires
        t >= 2,
    ensures
        hit.finite(),
        hit.subset_of(vstd::set_lib::set_int_range(0, names.len() as int)),
        hit.len() == (t - 2) - free_count(names, x, 2, t),
        forall|j: int| #[trigger] hit.contains(j) ==> exists|u: nat| 2 <= u < t && names[j] == suffixed(x, u),
    decreases t,
{
    if t == 2 {
        Set::empty()
    } else {
        let h = lemma_taken_suffixes(names, x, t - 1);
        if is_free(names, x, (t - 1) as nat) {
            h
        } else {
            let j = choose|j: int| 0 <= j < names.len() && names[j] == suffixed(x, (t - 1) as nat);
            if h.contains(j) {
                let u = choose|u: nat| 2 <= u < t - 1 && names[j] == suffixed(x, u);
                lemma_suffixed_injective(x, (t - 1) as nat, x, u);
            }
            let h2 = h.insert(j);
            assert forall|k: int| #[trigger] h2.contains(k) implies exists|u: nat|
                2 <= u < t && names[k] == suffixed(x, u) by {
                if k == j {
                    assert(2 <= (t - 1) as nat && names[k] == suffixed(x, (t - 1) as nat));
                } else {
                    let u = choose|u: nat| 2 <= u < t - 1 && names[k] == suffixed(x, u);
                }
            }
            h2
        }
    }
}

/// The `r`-th free suffix is at most `r + 1` plus the number of names.
proof fn lemma_nth_free_bound(names: Seq<Seq<char>>, x: Seq<char>, r: nat, s: nat)
    requires
        nth_free_at(names, x, r, s),
    ensures
        s <= names.len() + r + 1,
{
    let hit = lemma_taken_suffixes(names, x, s as int);
    vstd::set_lib::lemma_int_range(0, names.len() as int);
    vstd::set_lib::lemma_len_subset(hit, vstd::set_lib::set_int_range(0, names.len() as int));
}

proof fn lemma_rank_upto_le(names: Seq<Seq<char>>, keys: Seq<KeyView>, i: int, m: int)
    requires
        m >= 0,
    ensures
        rank_upto(names, keys, i, m) <= m,
    decreases m,
{
    if m > 0 {
        lemma_rank_upto_le(names, keys, i, m - 1);
    }
}

/// Suffixed names always fit in 128 bytes when every candidate that occurs
/// more than once has at most 117 bytes: a suffix never needs more than ten
/// digits for fewer than 2^31 candidates.
pub proof fn law_short_names_fit(names: Seq<Seq<char>>, keys: Seq<KeyView>)
    requires
        names.len() == keys.len(),
        names.len() < 0x8000_0000,
        forall|i: int, j: int|
            #![trigger names[i], names[j]]
            0 <= i < names.len() && 0 <= j < names.len() && i != j && names[i] == names[j] ==> byte_len(
                names[i],
            ) <= 117,
    ensures
        suffixes_fit(names, keys),
{
    assert forall|i: int, s: nat|
        0 <= i < names.len() && rank(names, keys, i) > 0 && #[trigger] nth_free_at(
            names,
            names[i],
            rank(names, keys, i),
            s,
        ) implies byte_len(suffixed(names[i], s)) <= 128 by {
        let r = rank(names, keys, i);
        lemma_rank_upto_le(names, keys, i, names.len() as int);
        lemma_rank_zero(names, keys, i, names.len() as int);
        let j = choose|j: int| 0 <= j < names.len() && ranks_before(names, keys, i, j);
        if j == i {
            lemma_key_lt_irrefl(keys[i]);
        }
        assert(names[i] == names[j]);
        assert(byte_len(names[i]) <= 117);
        lemma_nth_free_bound(names, names[i], r, s);
        lemma_dec_len(s);
        lemma_dec_str(s);
        let d = text::dec_str(s);
        let tail = seq!['_'] + d;
        assert(vstd::utf8::is_ascii_chars(tail)) by {
            assert forall|k: int| 0 <= k < tail.len() implies '\0' <= #[trigger] tail[k] <= '\u{7f}' by {
                if k > 0 {
                    assert(tail[k] == d[k - 1]);
                }
            }
        }
        vstd::utf8::is_ascii_chars_encode_utf8(tail);
        assert(suffixed(names[i], s) =~= names[i] + tail);
        lemma_encode_concat(names[i], tail);
    }
}

/// Who keeps a name: an operation whose candidate no other operation has
/// keeps it; of several operations sharing a candidate, the one first in key
/// order (ties going to the earlier position) keeps it; every other one gets
/// `{candidate}_{n}` for some `n >= 2`.
pub proof fn law_uniquify_keeps(names: Seq<Seq<char>>, keys: Seq<KeyView>, out: Seq<Seq<char>>)
    requires
        names.len() == keys.len(),
        uniquified(names, keys, out),
    ensures
        forall|i: int|
            0 <= i < names.len() && (forall|j: int| 0 <= j < names.len() && j != i ==> names[j] != names[i])
                ==> #[trigger] out[i] == names[i],
        forall|i: int|
            0 <= i < names.len() && (forall|j: int|
                0 <= j < names.len() && j != i && names[j] == names[i] ==> key_before(keys, i, j))
                ==> #[trigger] out[i] == names[i],
        forall|i: int|
            0 <= i < names.len() && (exists|j: int| 0 <= j < names.len() && j != i && names[j] == names[i]
                && key_before(keys, j, i)) ==> renamed(#[trigger] out[i], names[i]),
{
    assert forall|i: int|
        0 <= i < names.len() && (forall|j: int|
            0 <= j < names.len() && j != i && names[j] == names[i] ==> key_before(keys, i, j))
            implies #[trigger] out[i] == names[i] by {
        assert forall|j: int| 0 <= j < names.len() implies !ranks_before(names, keys, i, j) by {
            if j != i && names[j] == names[i] {
                lemma_before_asym(keys, i, j);
            }
            if j == i {
                lemma_key_lt_irrefl(keys[i]);
            }
        }
        lemma_rank_zero(names, keys, i, names.len() as int);
        assert(slot_ok(names, keys, out[i], i));
    }
    assert forall|i: int|
        0 <= i < names.len() && (exists|j: int| 0 <= j < names.len() && j != i && names[j] == names[i]
            && key_before(keys, j, i)) implies renamed(#[trigger] out[i], names[i]) by {
        let j = choose|j: int| 0 <= j < names.len() && j != i && names[j] == names[i] && key_before(keys, j, i);
        assert(ranks_before(names, keys, i, j));
        lemma_rank_zero(names, keys, i, names.len() as int);
        assert(slot_ok(names, keys, out[i], i));
        let s = choose|s: nat| nth_free_at(names, names[i], rank(names, keys, i), s) && out[i] == suffixed(names[i], s);
        assert(s >= 2 && out[i] == suffixed(names[i], s));
    }
}

/// For candidates where every repeated one has at most 117 bytes (and fewer
/// than 2^31 of them), `uniquify` may be called, and what it gives has one
/// name per candidate, pairwise distinct; a candidate that occurs once keeps
/// its name, the first of a repeated one in key order keeps it, and every
/// other gets `{candidate}_{n}` with `n >= 2`.
pub proof fn law_uniquify_short_names(names: Seq<Seq<char>>, keys: Seq<KeyView>, out: Seq<Seq<char>>)
    requires
        names.len() == keys.len(),
        names.len() < 0x8000_0000,
        forall|i: int, j: int|
            #![trigger names[i], names[j]]
            0 <= i < names.len() && 0 <= j < names.len() && i != j && names[i] == names[j] ==> byte_len(
                names[i],
            ) <= 117,
        uniquified(names, keys, out),
    ensures
        suffixes_fit(names, keys),
        out.len() == names.len(),
        forall|i: int, j: int| 0 <= i < names.len() && 0 <= j < names.len() && i != j ==> out[i] != out[j],
        forall|i: int|
            0 <= i < names.len() && (forall|j: int| 0 <= j < names.len() && j != i ==> names[j] != names[i])
                ==> #[trigger] out[i] == names[i],
        forall|i: int|
            0 <= i < names.len() && (forall|j: int|
                0 <= j < names.len() && j != i && names[j] == names[i] ==> key_before(keys, i, j))
                ==> #[trigger] out[i] == names[i],
        forall|i: int|
            0 <= i < names.len() && (exists|j: int| 0 <= j < names.len() && j != i && names[j] == names[i]
                && key_before(keys, j, i)) ==> renamed(#[trigger] out[i], names[i]),
{
    law_short_names_fit(names, keys);
    law_uniquify_distinct(names, keys, out);
    law_uniquify_keeps(names, keys, out);
}

} // verus!
verus! {

pub open spec fn kvec_views(v: Seq<(Vec<char>, Vec<char>, Vec<char>)>) -> Seq<KeyView> {
    v.map_values(|k: (Vec<char>, Vec<char>, Vec<char>)| (k.0@, k.1@, k.2@))
}

fn key_lt_exec(a: &(Vec<char>, Vec<char>, Vec<char>), b: &(Vec<char>, Vec<char>, Vec<char>)) -> (r: bool)
    ensures
        r == key_lt((a.0@, a.1@, a.2@), (b.0@, b.1@, b.2@)),
{
    if seq_lt_exec(&a.0, &b.0) {
        return true;
    }
    if !text::seq_eq(&a.0, &b.0) {
        return false;
    }
    if seq_lt_exec(&a.1, &b.1) {
        return true;
    }
    if !text::seq_eq(&a.1, &b.1) {
        return false;
    }
    seq_lt_exec(&a.2, &b.2)
}

fn key_eq_exec(a: &(Vec<char>, Vec<char>, Vec<char>), b: &(Vec<char>, Vec<char>, Vec<char>)) -> (r: bool)
    ensures
        r == ((a.0@, a.1@, a.2@) == (b.0@, b.1@, b.2@)),
{
    text::seq_eq(&a.0, &b.0) && text::seq_eq(&a.1, &b.1) && text::seq_eq(&a.2, &b.2)
}

/// The rank of operation `i` (`rank`).
fn rank_exec(names: &Vec<Vec<char>>, keys: &Vec<(Vec<char>, Vec<char>, Vec<char>)>, i: usize) -> (r: usize)
    requires
        names.len() == keys.len(),
        i < names.len(),
    ensures
        r == rank(text::vec_views(names@), kvec_views(keys@), i as int),
        r <= names.len(),
{
    let ghost nv = text::vec_views(names@);
    let ghost kv = kvec_views(keys@);
    let mut count: usize = 0;
    let mut m: usize = 0;
    while m < names.len()
        invariant
            names.len() == keys.len(),
            i < names.len(),
            nv == text::vec_views(names@),
            kv == kvec_views(keys@),
            m <= names.len(),
            count <= m,
            count == rank_upto(nv, kv, i as int, m as int),
        decreases names.len() - m,
    {
        assert(nv[m as int] == names@[m as int]@);
        assert(nv[i as int] == names@[i as int]@);
        assert(kv[m as int] == (keys@[m as int].0@, keys@[m as int].1@, keys@[m as int].2@));
        assert(kv[i as int] == (keys@[i as int].0@, keys@[i as int].1@, keys@[i as int].2@));
        let same = text::seq_eq(&names[m], &names[i]);
        if same && (key_lt_exec(&keys[m], &keys[i]) || (key_eq_exec(&keys[m], &keys[i]) && m < i)) {
            count = count + 1;
        }
        m = m + 1;
    }
    count
}

/// Whether `t` is one of the names.
fn names_contain(names: &Vec<Vec<char>>, t: &Vec<char>) -> (r: bool)
    ensures
        r == text::vec_views(names@).contains(t@),
{
    let ghost nv = text::vec_views(names@);
    let mut m: usize = 0;
    while m < names.len()
        invariant
            nv == text::vec_views(names@),
            m <= names.len(),
            forall|k: int| 0 <= k < m ==> nv[k] != t@,
        decreases names.len() - m,
    {
        assert(nv[m as int] == names@[m as int]@);
        if text::seq_eq(&names[m], t) {
            assert(nv[m as int] == t@);
            return true;
        }
        m = m + 1;
    }
    false
}

/// `{x}_{s}` as characters.
fn suffixed_exec(x: &Vec<char>, s: u64) -> (r: Vec<char>)
    ensures
        r@ == suffixed(x@, s as nat),
{
    let mut out: Vec<char> = Vec::new();
    text::append_chars(&mut out, x);
    out.push('_');
    let d = text::dec_vec(s);
    text::append_chars(&mut out, &d);
    out
}

/// The `r`-th free suffix for the name `x` (`nth_free_at`).
fn nth_free_exec(names: &Vec<Vec<char>>, x: &Vec<char>, r: usize) -> (s: u64)
    requires
        1 <= r <= names.len(),
        names.len() < 0x8000_0000,
    ensures
        nth_free_at(text::vec_views(names@), x@, r as nat, s as nat),
        s < 2 * names.len() + 2,
{
    let ghost nv = text::vec_views(names@);
    let ghost n: int = names.len() as int;
    let mut s: u64 = 2;
    let mut count: usize = 0;
    let ghost mut hit: Set<int> = Set::empty();
    loop
        invariant
            nv == text::vec_views(names@),
            n == names.len(),
            1 <= r <= n,
            n < 0x8000_0000,
            2 <= s,
            count < r,
            count == free_count(nv, x@, 2, s as int),
            hit.finite(),
            hit.subset_of(vstd::set_lib::set_int_range(0, n)),
            hit.len() == (s - 2) - count,
            forall|j: int| #[trigger]
                hit.contains(j) ==> exists|t: nat| 2 <= t < s && nv[j] == suffixed(x@, t),
        decreases n + r + 2 - s,
    {
        proof {
            vstd::set_lib::lemma_int_range(0, n);
            vstd::set_lib::lemma_len_subset(hit, vstd::set_lib::set_int_range(0, n));
        }
        let cand = suffixed_exec(x, s);
        if !names_contain(names, &cand) {
            assert(free_count(nv, x@, 2, s + 1) == free_count(nv, x@, 2, s as int) + 1);
            if count + 1 == r {
                return s;
            }
            count = count + 1;
        } else {
            proof {
                let j = choose|j: int| 0 <= j < nv.len() && nv[j] == cand@;
                if hit.contains(j) {
                    let t = choose|t: nat| 2 <= t < s && nv[j] == suffixed(x@, t);
                    lemma_suffixed_injective(x@, s as nat, x@, t);
                }
                hit = hit.insert(j);
            }
            assert(free_count(nv, x@, 2, s + 1) == free_count(nv, x@, 2, s as int));
        }
        s = s + 1;
    }
}

/// Assigns unique names, in the order of `candidates` (`uniquified`): of the
/// operations that share a name, the first in (method, path, operationId)
/// order keeps it and the others get the free `{name}_{n}` suffixes in turn.
pub fn uniquify(candidates: &[String], keys: &[(String, String, String)]) -> (out: Vec<String>)
    requires
        candidates.len() == keys.len(),
        candidates.len() < 0x8000_0000,
        suffixes_fit(string_views(candidates@), key_views(keys@)),
    ensures
        uniquified(string_views(candidates@), key_views(keys@), string_views(out@)),
{
    let n = candidates.len();
    let mut names: Vec<Vec<char>> = Vec::new();
    let mut kv: Vec<(Vec<char>, Vec<char>, Vec<char>)> = Vec::new();
    let mut i: usize = 0;
    while i < n
        invariant
            n == candidates.len(),
            n == keys.len(),
            i <= n,
            names.len() == i,
            kv.len() == i,
            forall|k: int| 0 <= k < i ==> #[trigger] names@[k]@ == candidates@[k]@,
            forall|k: int|
                0 <= k < i ==> (#[trigger] kv@[k].0@, kv@[k].1@, kv@[k].2@) == (
                    keys@[k].0@,
                    keys@[k].1@,
                    keys@[k].2@,
                ),
        decreases n - i,
    {
        names.push(text::chars_of(candidates[i].as_str()));
        let k = &keys[i];
        kv.push((text::chars_of(k.0.as_str()), text::chars_of(k.1.as_str()), text::chars_of(k.2.as_str())));
        i = i + 1;
    }
    let ghost nv = text::vec_views(names@);
    let ghost kvv = kvec_views(kv@);
    assert(nv =~= string_views(candidates@));
    assert(kvv =~= key_views(keys@));
    let mut out: Vec<String> = Vec::new();
    let mut i: usize = 0;
    while i < n
        invariant
            n == candidates.len(),
            n == names.len(),
            n == kv.len(),
            n < 0x8000_0000,
            i <= n,
            out.len() == i,
            nv == text::vec_views(names@),
            kvv == kvec_views(kv@),
            nv == string_views(candidates@),
            forall|k: int| 0 <= k < i ==> slot_ok(nv, kvv, #[trigger] out@[k]@, k),
        decreases n - i,
    {
        let r = rank_exec(&names, &kv, i);
        assert(nv[i as int] == names@[i as int]@);
        assert(nv[i as int] == candidates@[i as int]@);
        let ghost before = out@;
        if r == 0 {
            let c = candidates[i].clone();
            out.push(c);
            assert(out@[i as int]@ == nv[i as int]);
            assert(slot_ok(nv, kvv, out@[i as int]@, i as int));
        } else {
            let s = nth_free_exec(&names, &names[i], r);
            let v = suffixed_exec(&names[i], s);
            out.push(text::string_of(&v));
            assert(nth_free_at(nv, nv[i as int], rank(nv, kvv, i as int), s as nat) && out@[i as int]@
                == suffixed(nv[i as int], s as nat));
            assert(slot_ok(nv, kvv, out@[i as int]@, i as int));
        }
        assert forall|k: int| 0 <= k < i implies #[trigger] out@[k] == before[k] by {}
        assert forall|k: int| 0 <= k < i + 1 implies slot_ok(nv, kvv, #[trigger] out@[k]@, k) by {
            if k < i {
                assert(out@[k] == before[k]);
            }
        }
        i = i + 1;
    }
    let ghost ov = string_views(out@);
    assert forall|k: int| 0 <= k < n implies #[trigger] ov[k] == out@[k]@ by {}
    assert forall|k: int| 0 <= k < n implies slot_ok(nv, kvv, #[trigger] ov[k], k) by {
        assert(ov[k] == out@[k]@);
    }
    out
}


/// Whether `uniquify` keeps every suffixed name within 128 bytes
/// (`suffixes_fit`).
pub fn names_fit(candidates: &[String], keys: &[(String, String, String)]) -> (r: bool)
    requires
        candidates.len() == keys.len(),
        candidates.len() < 0x8000_0000,
    ensures
        r == suffixes_fit(string_views(candidates@), key_views(keys@)),
{
    let n = candidates.len();
    let mut names: Vec<Vec<char>> = Vec::new();
    let mut kv: Vec<(Vec<char>, Vec<char>, Vec<char>)> = Vec::new();
    let mut i: usize = 0;
    while i < n
        invariant
            n == candidates.len(),
            n == keys.len(),
            i <= n,
            names.len() == i,
            kv.len() == i,
            forall|k: int| 0 <= k < i ==> #[trigger] names@[k]@ == candidates@[k]@,
            forall|k: int|
                0 <= k < i ==> (#[trigger] kv@[k].0@, kv@[k].1@, kv@[k].2@) == (
                    keys@[k].0@,
                    keys@[k].1@,
                    keys@[k].2@,
                ),
        decreases n - i,
    {
        names.push(text::chars_of(candidates[i].as_str()));
        let k = &keys[i];
        kv.push((text::chars_of(k.0.as_str()), text::chars_of(k.1.as_str()), text::chars_of(k.2.as_str())));
        i = i + 1;
    }
    let ghost nv = text::vec_views(names@);
    let ghost kvv = kvec_views(kv@);
    assert(nv =~= string_views(candidates@));
    assert(kvv =~= key_views(keys@));
    let mut i: usize = 0;
    while i < n
        invariant
            n == candidates.len(),
            n == names.len(),
            n == kv.len(),
            n < 0x8000_0000,
            i <= n,
            nv == text::vec_views(names@),
            kvv == kvec_views(kv@),
            nv == string_views(candidates@),
            kvv == key_views(keys@),
            forall|k: int, s: nat|
                0 <= k < i && rank(nv, kvv, k) > 0 && #[trigger] nth_free_at(nv, nv[k], rank(nv, kvv, k), s)
                    ==> byte_len(suffixed(nv[k], s)) <= 128,
        decreases n - i,
    {
        let r = rank_exec(&names, &kv, i);
        assert(nv[i as int] == names@[i as int]@);
        if r > 0 {
            let s = nth_free_exec(&names, &names[i], r);
            let v = suffixed_exec(&names[i], s);
            let text_v = text::string_of(&v);
            if text_v.as_str().as_bytes().len() > 128 {
                assert(!suffixes_fit(nv, kvv));
                return false;
            }
            proof {
                assert forall|t: nat| #[trigger] nth_free_at(nv, nv[i as int], rank(nv, kvv, i as int), t) implies byte_len(
                    suffixed(nv[i as int], t),
                ) <= 128 by {
                    lemma_nth_free_unique(nv, nv[i as int], r as nat, s as nat, t);
                }
            }
        }
        i = i + 1;
    }
    true
}
} // verus!
verus! {

/// `seq_lt` on character vectors, for other modules.
pub fn seq_lt_pub(a: &Vec<char>, b: &Vec<char>) -> (r: bool)
    ensures
        r == seq_lt(a@, b@),
{
    seq_lt_exec(a, b)
}

} // verus!
