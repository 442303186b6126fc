//! Parameter serialization styles (OpenAPI `style` / `explode`).
//!
//! The default style is `form` for query and cookie parameters and `simple`
//! elsewhere; `explode` defaults to true exactly for `form`. Supported pairs are
//! simple in path or header, form in query or cookie, spaceDelimited and
//! pipeDelimited in query, label and matrix in path. Everything else, deepObject
//! included, is unsupported and blocks a required parameter.
use vstd::prelude::*;
use crate::text;

verus! {

#[derive(Debug, Clone, Copy, PartialEq, Eq, Structural)]
pub enum Style {
    Simple,
    Form,
    SpaceDelimited,
    PipeDelimited,
    Label,
    Matrix,
}

#[derive(Debug, Clone, Copy, PartialEq, Eq, Structural)]
pub enum StyleSupport {
    Supported(Style, bool),
    Unsupported { blocking_if_required: bool },
}

/// The style name used when the parameter gives none.
pub open spec fn default_style(loc: Seq<char>) -> Seq<char> {
    if loc == "query"@ || loc == "cookie"@ {
        "form"@
    } else {
        "simple"@
    }
}

/// The supported style for a style name in a (lower-cased) location.
pub open spec fn style_for(name: Seq<char>, loc: Seq<char>) -> Option<Style> {
    if name == "simple"@ && (loc == "path"@ || loc == "header"@) {
        Some(Style::Simple)
    } else if name == "form"@ && (loc == "query"@ || loc == "cookie"@) {
        Some(Style::Form)
    } else if name == "spaceDelimited"@ && loc == "query"@ {
        Some(Style::SpaceDelimited)
    } else if name == "pipeDelimited"@ && loc == "query"@ {
        Some(Style::PipeDelimited)
    } else if name == "label"@ && loc == "path"@ {
        Some(Style::Label)
    } else if name == "matrix"@ && loc == "path"@ {
        Some(Style::Matrix)
    } else {
        None
    }
}

pub open spec fn parse_style_spec(
    location: Seq<char>,
    style: Option<Seq<char>>,
    explode: Option<bool>,
) -> StyleSupport {
    let loc = text::lower_seq(location);
    let name = match style {
        Some(s) => s,
        None => default_style(loc),
    };
    let ex = match explode {
        Some(e) => e,
        None => name == "form"@,
    };
    match style_for(name, loc) {
        Some(st) => StyleSupport::Supported(st, ex),
        None => StyleSupport::Unsupported { blocking_if_required: true },
    }
}

fn eq_lit(v: &Vec<char>, s: &str) -> (r: bool)
    ensures
        r == (v@ == s@),
{
    text::seq_eq(v, &text::chars_of(s))
}

/// The style and explode flag of a parameter (`parse_style_spec`).
pub fn parse_style(location: &str, style: Option<&str>, explode: Option<bool>) -> (r:
    StyleSupport)
    ensures
        r == parse_style_spec(location@, crate::names::opt_view(style), explode),
{
    let lv = text::chars_of(location);
    let mut loc: Vec<char> = Vec::new();
    let mut i: usize = 0;
    while i < lv.len()
        invariant
            i <= lv.len(),
            loc@ =~= text::lower_seq(lv@).take(i as int),
        decreases lv.len() - i,
    {
        loc.push(text::to_lower(lv[i]));
        i = i + 1;
    }
    assert(loc@ =~= text::lower_seq(location@));
    let name: Vec<char> = match style {
        Some(s) => text::chars_of(s),
        None => if eq_lit(&loc, "query") || eq_lit(&loc, "cookie") {
            text::chars_of("form")
        } else {
            text::chars_of("simple")
        },
    };
    let ex = match explode {
        Some(e) => e,
        None => eq_lit(&name, "form"),
    };
    if eq_lit(&name, "simple") && (eq_lit(&loc, "path") || eq_lit(&loc, "header")) {
        StyleSupport::Supported(Style::Simple, ex)
    } else if eq_lit(&name, "form") && (eq_lit(&loc, "query") || eq_lit(&loc, "cookie")) {
        StyleSupport::Supported(Style::Form, ex)
    } else if eq_lit(&name, "spaceDelimited") && eq_lit(&loc, "query") {
        StyleSupport::Supported(Style::SpaceDelimited, ex)
    } else if eq_lit(&name, "pipeDelimited") && eq_lit(&loc, "query") {
        StyleSupport::Supported(Style::PipeDelimited, ex)
    } else if eq_lit(&name, "label") && eq_lit(&loc, "path") {
        StyleSupport::Supported(Style::Label, ex)
    } else if eq_lit(&name, "matrix") && eq_lit(&loc, "path") {
        StyleSupport::Supported(Style::Matrix, ex)
    } else {
        StyleSupport::Unsupported { blocking_if_required: true }
    }
}

} // verus!
verus! {

/// A given `explode`, else the default `d`.
pub open spec fn explode_or(explode: Option<bool>, d: bool) -> bool {
    match explode {
        Some(e) => e,
        None => d,
    }
}

/// The support table, for every location (in any ASCII case), style and
/// explode flag (nothing outside the table is supported): a path or header parameter with no style or `simple` is
/// `Simple`, exploded only when `explode` says so; a query or cookie
/// parameter with no style or `form` is `Form`, exploded unless `explode`
/// says otherwise; `spaceDelimited` and `pipeDelimited` in a query and
/// `label` and `matrix` in a path are supported, not exploded by default;
/// `deepObject` is never supported; and whatever is supported keeps a given
/// `explode`, while whatever is not blocks a required parameter.
pub proof fn law_style_table(location: Seq<char>, style: Option<Seq<char>>, explode: Option<bool>)
    ensures
        ({
            let loc = text::lower_seq(location);
            let r = parse_style_spec(location, style, explode);
            &&& (loc == "path"@ || loc == "header"@) && (style is None || style == Some("simple"@))
                ==> r == StyleSupport::Supported(Style::Simple, explode_or(explode, false))
            &&& (loc == "query"@ || loc == "cookie"@) && (style is None || style == Some("form"@))
                ==> r == StyleSupport::Supported(Style::Form, explode_or(explode, true))
            &&& loc == "query"@ && style == Some("spaceDelimited"@) ==> r == StyleSupport::Supported(
                Style::SpaceDelimited,
                explode_or(explode, false),
            )
            &&& loc == "query"@ && style == Some("pipeDelimited"@) ==> r == StyleSupport::Supported(
                Style::PipeDelimited,
                explode_or(explode, false),
            )
            &&& loc == "path"@ && style == Some("label"@) ==> r == StyleSupport::Supported(
                Style::Label,
                explode_or(explode, false),
            )
            &&& loc == "path"@ && style == Some("matrix"@) ==> r == StyleSupport::Supported(
                Style::Matrix,
                explode_or(explode, false),
            )
            &&& style == Some("deepObject"@) ==> r == StyleSupport::Unsupported { blocking_if_required: true }
            &&& (r is Supported && explode is Some) ==> r->Supported_1 == explode->0
            &&& r is Unsupported ==> r == StyleSupport::Unsupported { blocking_if_required: true }
            &&& r is Supported ==> ({
                let name = match style {
                    Some(n) => n,
                    None => if loc == "query"@ || loc == "cookie"@ {
                        "form"@
                    } else {
                        "simple"@
                    },
                };
                ||| r->Supported_0 == Style::Simple && name == "simple"@ && (loc == "path"@ || loc == "header"@)
                ||| r->Supported_0 == Style::Form && name == "form"@ && (loc == "query"@ || loc == "cookie"@)
                ||| r->Supported_0 == Style::SpaceDelimited && name == "spaceDelimited"@ && loc == "query"@
                ||| r->Supported_0 == Style::PipeDelimited && name == "pipeDelimited"@ && loc == "query"@
                ||| r->Supported_0 == Style::Label && name == "label"@ && loc == "path"@
                ||| r->Supported_0 == Style::Matrix && name == "matrix"@ && loc == "path"@
            })
        }),
{
    reveal_strlit("path");
    reveal_strlit("header");
    reveal_strlit("query");
    reveal_strlit("cookie");
    reveal_strlit("simple");
    reveal_strlit("form");
    reveal_strlit("spaceDelimited");
    reveal_strlit("pipeDelimited");
    reveal_strlit("label");
    reveal_strlit("matrix");
    reveal_strlit("deepObject");
    assert("header"@[0] != "cookie"@[0]);
    assert("simple"@[0] != "matrix"@[0]);
    assert("path"@.len() != "query"@.len() && "header"@.len() != "query"@.len());
    assert("path"@.len() != "cookie"@.len() && "path"@.len() != "header"@.len());
    assert("simple"@.len() != "form"@.len() && "simple"@.len() != "deepObject"@.len());
    assert("form"@.len() != "deepObject"@.len() && "spaceDelimited"@.len() != "deepObject"@.len());
    assert("pipeDelimited"@.len() != "deepObject"@.len() && "label"@.len() != "deepObject"@.len());
    assert("matrix"@.len() != "deepObject"@.len() && "simple"@.len() != "label"@.len());
    assert("form"@.len() != "label"@.len() && "form"@.len() != "matrix"@.len());
    assert("simple"@.len() != "spaceDelimited"@.len() && "simple"@.len() != "pipeDelimited"@.len());
    assert("form"@.len() != "spaceDelimited"@.len() && "form"@.len() != "pipeDelimited"@.len());
}

} // verus!
