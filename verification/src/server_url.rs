//! OpenAPI `servers[].url` resolution against the document URL (OAS 3).
use vstd::prelude::*;
use crate::text;
use crate::urls::{self, ParsedUrlView};

verus! {

/// What follows the first `}` of `s`; nothing if there is none.
pub open spec fn after_close(s: Seq<char>) -> Seq<char>
    decreases s.len(),
{
    if s.len() == 0 {
        Seq::empty()
    } else if s[0] == '}' {
        s.drop_first()
    } else {
        after_close(s.drop_first())
    }
}

/// Every `{variable}` (up to the next `}`, or to the end) replaced by `x`.
pub open spec fn substitute_spec(s: Seq<char>) -> Seq<char>
    decreases s.len(),
{
    if s.len() == 0 {
        Seq::empty()
    } else if s[0] == '{' {
        proof {
            lemma_after_close_shorter(s.drop_first());
        }
        seq!['x'] + substitute_spec(after_close(s.drop_first()))
    } else {
        seq![s[0]] + substitute_spec(s.drop_first())
    }
}

pub proof fn lemma_after_close_shorter(s: Seq<char>)
    ensures
        after_close(s).len() <= s.len(),
    decreases s.len(),
{
    if s.len() > 0 && s[0] != '}' {
        lemma_after_close_shorter(s.drop_first());
    }
}

proof fn lemma_after_close_skip(s: Seq<char>, i: int, j: int)
    requires
        0 <= i <= j <= s.len(),
        forall|k: int| i <= k < j ==> s[k] != '}',
    ensures
        after_close(s.skip(i)) == after_close(s.skip(j)),
    decreases j - i,
{
    if i < j {
        assert(s.skip(i)[0] == s[i]);
        assert(s.skip(i).drop_first() =~= s.skip(i + 1));
        lemma_after_close_skip(s, i + 1, j);
    }
}

/// The URL is an `http` or `https` URL with a host.
pub open spec fn is_http_with_host(r: Result<ParsedUrlView, Seq<char>>) -> bool {
    match r {
        Ok(u) => u.host is Some && (u.scheme == "http"@ || u.scheme == "https"@),
        Err(_) => false,
    }
}

/// True when `s` is an http(s) URL with a host after substituting `{variables}`.
pub open spec fn is_absolute_http_spec(s: Seq<char>) -> bool {
    is_http_with_host(urls::url_parse_result(substitute_spec(s)))
}

/// Absolute templates stay as they are; a relative one is joined with the
/// document URL when there is one and the join gives a URL with a host.
pub open spec fn resolve_server_spec(document_url: Option<Seq<char>>, server_url: Seq<char>) -> Seq<char> {
    if is_absolute_http_spec(server_url) {
        server_url
    } else {
        match document_url {
            None => server_url,
            Some(doc) => match urls::url_join_result(doc, server_url) {
                Some((joined, true)) => joined,
                _ => server_url,
            },
        }
    }
}

fn substitute_template_vars(s: &str) -> (r: String)
    ensures
        r@ == substitute_spec(s@),
{
    let v = text::chars_of(s);
    let n = v.len();
    let mut out: Vec<char> = Vec::new();
    let mut i: usize = 0;
    assert(v@.skip(0) =~= v@);
    while i < n
        invariant
            n == v@.len(),
            i <= n,
            out@ + substitute_spec(v@.skip(i as int)) == substitute_spec(v@),
        decreases n - i,
    {
        let ghost rest = v@.skip(i as int);
        assert(rest[0] == v@[i as int]);
        assert(rest.drop_first() =~= v@.skip(i + 1));
        if v[i] == '{' {
            let mut j: usize = i + 1;
            while j < n && v[j] != '}'
                invariant
                    n == v@.len(),
                    i < j <= n,
                    forall|k: int| i + 1 <= k < j ==> v@[k] != '}',
                decreases n - j,
            {
                j = j + 1;
            }
            proof {
                lemma_after_close_skip(v@, i + 1, j as int);
            }
            let ghost before = out@;
            assert(substitute_spec(rest) == seq!['x'] + substitute_spec(after_close(v@.skip(i + 1))));
            out.push('x');
            if j < n {
                assert(v@.skip(j as int)[0] == '}');
                assert(v@.skip(j as int).drop_first() =~= v@.skip(j + 1));
                assert(out@ + substitute_spec(v@.skip(j + 1)) =~= substitute_spec(v@));
                i = j + 1;
            } else {
                assert(v@.skip(j as int).len() == 0);
                assert(after_close(v@.skip(j as int)) =~= Seq::<char>::empty());
                assert(v@.skip(n as int).len() == 0);
                assert(substitute_spec(v@.skip(n as int)) =~= Seq::<char>::empty());
                assert(out@ + substitute_spec(v@.skip(n as int)) =~= substitute_spec(v@));
                i = n;
            }
        } else {
            let ghost before = out@;
            out.push(v[i]);
            assert(out@ + substitute_spec(v@.skip(i + 1)) =~= before + substitute_spec(rest));
            i = i + 1;
        }
    }
    assert(v@.skip(n as int).len() == 0);
    assert(out@ =~= out@ + substitute_spec(v@.skip(n as int)));
    text::string_of(&out)
}

/// True when `s` is an http(s) URL with a host after substituting `{variables}`.
pub fn is_absolute_http_url(s: &str) -> (r: bool)
    ensures
        r == is_absolute_http_spec(s@),
{
    let dummy = substitute_template_vars(s);
    match urls::url_parse(dummy.as_str()) {
        Ok(u) => u.host.is_some() && (text::str_eq(u.scheme.as_str(), "http") || text::str_eq(
            u.scheme.as_str(),
            "https",
        )),
        Err(_) => false,
    }
}

/// Resolves a server URL against the OpenAPI document URL
/// (`resolve_server_spec`): relative server URLs are joined per RFC 3986.
pub fn resolve_server_url(document_url: Option<&str>, server_url: &str) -> (r: String)
    ensures
        r@ == resolve_server_spec(
            match document_url {
                Some(d) => Some(d@),
                None => None,
            },
            server_url@,
        ),
{
    if is_absolute_http_url(server_url) {
        return server_url.to_owned();
    }
    let doc = match document_url {
        None => {
            return server_url.to_owned();
        },
        Some(d) => d,
    };
    match urls::url_join(doc, server_url) {
        Some((joined, true)) => joined,
        _ => server_url.to_owned(),
    }
}

} // verus!
