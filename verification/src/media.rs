//! Media-type helpers.
use vstd::prelude::*;
use crate::text;

verus! {

/// The part of `s` before its first `;`.
pub open spec fn before_semicolon(s: Seq<char>) -> Seq<char>
    decreases s.len(),
{
    if s.len() == 0 || s[0] == ';' {
        Seq::empty()
    } else {
        seq![s[0]] + before_semicolon(s.drop_first())
    }
}

/// The media type without parameters, trimmed and lower-cased:
/// `Application/JSON; charset=utf-8` gives `application/json`.
pub open spec fn media_type_base_spec(ct: Seq<char>) -> Seq<char> {
    text::lower_seq(text::trim_ws(before_semicolon(ct)))
}

/// `application/json` or any `+json` type.
pub open spec fn is_json_media_type_spec(ct: Seq<char>) -> bool {
    let base = media_type_base_spec(ct);
    base == "application/json"@ || text::has_suffix(base, "+json"@)
}

/// The media type without parameters (`media_type_base_spec`).
pub fn media_type_base(ct: &str) -> (r: String)
    ensures
        r@ == media_type_base_spec(ct@),
{
    let v = text::chars_of(ct);
    let mut head: Vec<char> = Vec::new();
    let mut i: usize = 0;
    assert(v@.skip(0) =~= v@);
    assert(head@ + before_semicolon(v@) =~= before_semicolon(v@));
    while i < v.len() && v[i] != ';'
        invariant
            i <= v.len(),
            v@ == ct@,
            head@ + before_semicolon(v@.skip(i as int)) == before_semicolon(v@),
        decreases v.len() - i,
    {
        let ghost rest = v@.skip(i as int);
        assert(rest[0] == v@[i as int]);
        assert(rest.drop_first() =~= v@.skip(i + 1));
        head.push(v[i]);
        assert(head@ + before_semicolon(v@.skip(i + 1)) =~= before_semicolon(v@)) by {
            assert(before_semicolon(rest) == seq![rest[0]] + before_semicolon(rest.drop_first()));
        }
        i = i + 1;
    }
    proof {
        let rest = v@.skip(i as int);
        if rest.len() > 0 {
            assert(rest[0] == v@[i as int]);
        }
        assert(before_semicolon(rest) =~= Seq::<char>::empty());
        assert(head@ =~= before_semicolon(v@));
    }
    let t = text::trim_vec(&head, true);
    let mut out: Vec<char> = Vec::new();
    let mut j: usize = 0;
    while j < t.len()
        invariant
            j <= t.len(),
            out@ =~= text::lower_seq(t@).take(j as int),
        decreases t.len() - j,
    {
        out.push(text::to_lower(t[j]));
        j = j + 1;
    }
    assert(out@ =~= text::lower_seq(t@));
    text::string_of(&out)
}

/// `application/json` or a `+json` type (`is_json_media_type_spec`).
pub fn is_json_media_type(ct: &str) -> (r: bool)
    ensures
        r == is_json_media_type_spec(ct@),
{
    let base = media_type_base(ct);
    let b = text::chars_of(base.as_str());
    text::seq_eq(&b, &text::chars_of("application/json")) || text::vec_has_suffix(
        &b,
        &text::chars_of("+json"),
    )
}

} // verus!
