//! Security of an operation: the requirements that apply, whether the gateway
//! can meet one of them, and the schemes the document declares.
use vstd::prelude::*;
use crate::json::{self, Json, JsonView, Member};
use crate::servers::strings_view;
use crate::text;
use crate::urls::opt_str_view;

verus! {

/// One security requirement: scheme names (each once, in document order)
/// with their scopes.
pub struct SecurityRequirement {
    pub schemes: Vec<(String, Vec<String>)>,
}

pub open spec fn requirement_view(r: SecurityRequirement) -> Seq<(Seq<char>, Seq<Seq<char>>)> {
    Seq::new(r.schemes@.len(), |i: int| (r.schemes@[i].0@, strings_view(r.schemes@[i].1@)))
}

pub open spec fn requirements_view(v: Seq<SecurityRequirement>) -> Seq<Seq<(Seq<char>, Seq<Seq<char>>)>> {
    Seq::new(v.len(), |i: int| requirement_view(v[i]))
}

/// The scopes of a requirement entry: the strings of an array, else none.
pub open spec fn scopes_spec(v: JsonView) -> Seq<Seq<char>> {
    json::string_array_spec(Some(v))
}

/// A requirement read from its JSON: an object of scheme names to scopes;
/// nothing for anything else.
pub open spec fn requirement_spec(v: JsonView) -> Option<Seq<(Seq<char>, Seq<Seq<char>>)>> {
    match v {
        JsonView::Object(ks, vs) => Some(Seq::new(ks.len(), |i: int| (ks[i], scopes_spec(vs[i])))),
        _ => None,
    }
}

pub open spec fn requirements_spec(items: Seq<JsonView>) -> Seq<Seq<(Seq<char>, Seq<Seq<char>>)>>
    decreases items.len(),
{
    if items.len() == 0 {
        Seq::empty()
    } else {
        let rest = requirements_spec(items.drop_last());
        match requirement_spec(items.last()) {
            Some(r) => rest.push(r),
            None => rest,
        }
    }
}

/// The requirements that apply: the operation's `security`, else the
/// document's; none unless that is an array.
pub open spec fn effective_security_spec(doc: JsonView, op: JsonView) -> Seq<Seq<(Seq<char>, Seq<Seq<char>>)>> {
    let list = match json::get_spec(op, "security"@) {
        Some(l) => Some(l),
        None => json::get_spec(doc, "security"@),
    };
    match list {
        Some(JsonView::Array(a)) => requirements_spec(a),
        _ => Seq::empty(),
    }
}

/// `/components/securitySchemes` of the document.
pub open spec fn schemes_spec(doc: JsonView) -> Option<JsonView> {
    match json::get_spec(doc, "components"@) {
        Some(c) => json::get_spec(c, "securitySchemes"@),
        None => None,
    }
}

/// A declared scheme that the gateway can send: HTTP bearer (the scheme
/// name in any ASCII case) or an API key in a header.
#[verifier::opaque]
pub open spec fn scheme_usable(s: JsonView) -> bool {
    match json::str_field_spec(s, "type"@) {
        Some(t) => if t == "http"@ {
            match json::str_field_spec(s, "scheme"@) {
                Some(x) => text::lower_seq(x) == "bearer"@,
                None => false,
            }
        } else if t == "apiKey"@ {
            json::str_field_spec(s, "in"@) == Some("header"@)
        } else {
            false
        },
        None => false,
    }
}

/// The scheme of that name is declared and usable.
pub open spec fn name_usable(schemes: Option<JsonView>, name: Seq<char>) -> bool {
    match schemes {
        Some(m) => match json::get_spec(m, name) {
            Some(s) => scheme_usable(s),
            None => false,
        },
        None => false,
    }
}

/// Every scheme of the requirement is usable.
pub open spec fn requirement_usable(schemes: Option<JsonView>, req: Seq<(Seq<char>, Seq<Seq<char>>)>) -> bool {
    forall|j: int| 0 <= j < req.len() ==> name_usable(schemes, #[trigger] req[j].0)
}

/// No requirement, or some requirement whose schemes are all usable.
pub open spec fn security_supported_spec(doc: JsonView, reqs: Seq<Seq<(Seq<char>, Seq<Seq<char>>)>>) -> bool {
    reqs.len() == 0 || exists|i: int|
        0 <= i < reqs.len() && requirement_usable(schemes_spec(doc), #[trigger] reqs[i])
}

fn requirement(m: &Vec<Member>) -> (r: SecurityRequirement)
    ensures
        requirement_view(r) == Seq::new(
            m@.len(),
            |i: int| (m@[i].key@, scopes_spec(m@[i].value@)),
        ),
{
    let mut out: Vec<(String, Vec<String>)> = Vec::new();
    let mut i: usize = 0;
    while i < m.len()
        invariant
            i <= m@.len(),
            out@.len() == i,
            forall|k: int|
                0 <= k < i ==> (#[trigger] out@[k]).0@ == m@[k].key@ && strings_view(out@[k].1@)
                    == scopes_spec(m@[k].value@),
        decreases m@.len() - i,
    {
        let scopes = json::string_array(Some(&m[i].value));
        assert(strings_view(scopes@) =~= Seq::new(scopes@.len(), |k: int| scopes@[k]@));
        out.push((m[i].key.clone(), scopes));
        i = i + 1;
    }
    let r = SecurityRequirement { schemes: out };
    assert(requirement_view(r) =~= Seq::new(
        m@.len(),
        |i: int| (m@[i].key@, scopes_spec(m@[i].value@)),
    ));
    r
}

/// The security requirements of an operation (`effective_security_spec`).
pub fn effective_security(doc: &Json, op: &Json) -> (r: Vec<SecurityRequirement>)
    ensures
        requirements_view(r@) == effective_security_spec(doc@, op@),
{
    let list = match op.get("security") {
        Some(l) => Some(l),
        None => doc.get("security"),
    };
    let items = match list {
        Some(Json::Array(a)) => a,
        _ => {
            assert(requirements_view(Seq::<SecurityRequirement>::empty()) =~= Seq::<
                Seq<(Seq<char>, Seq<Seq<char>>)>,
            >::empty());
            return Vec::new();
        },
    };
    let ghost av = json::value_views(items@);
    proof {
        let l = match json::get_spec(op@, "security"@) {
            Some(l) => Some(l),
            None => json::get_spec(doc@, "security"@),
        };
        assert(l->Some_0->Array_0 =~= av);
    }
    let mut out: Vec<SecurityRequirement> = Vec::new();
    let mut i: usize = 0;
    while i < items.len()
        invariant
            av == json::value_views(items@),
            i <= items@.len(),
            requirements_view(out@) == requirements_spec(av.take(i as int)),
        decreases items@.len() - i,
    {
        assert(av.take(i + 1).drop_last() =~= av.take(i as int));
        assert(av.take(i + 1).last() == items@[i as int]@);
        let ghost before = out@;
        match &items[i] {
            Json::Object(m) => {
                let req = requirement(m);
                proof {
                    let v = items@[i as int]@;
                    assert(v->Object_0 =~= Seq::new(m@.len(), |k: int| m@[k].key@));
                    assert(v->Object_1 =~= Seq::new(m@.len(), |k: int| m@[k].value@));
                    assert(requirement_spec(v)->Some_0 =~= requirement_view(req));
                }
                out.push(req);
                assert(requirements_view(out@) =~= requirements_view(before).push(
                    requirement_view(req),
                ));
            },
            _ => {},
        }
        i = i + 1;
    }
    assert(av.take(items@.len() as int) =~= av);
    out
}

fn schemes_of(doc: &Json) -> (r: Option<&Json>)
    ensures
        json::opt_view(r) == schemes_spec(doc@),
{
    match doc.get("components") {
        Some(c) => c.get("securitySchemes"),
        None => None,
    }
}

fn scheme_usable_exec(s: &Json) -> (r: bool)
    ensures
        r == scheme_usable(s@),
{
    reveal(scheme_usable);
    match json::str_field(s, "type") {
        Some(t) => {
            if text::str_eq(t.as_str(), "http") {
                match json::str_field(s, "scheme") {
                    Some(x) => {
                        let lx = text::lower_vec(&text::chars_of(x.as_str()));
                        let b = text::chars_of("bearer");
                        text::seq_eq(&lx, &b)
                    },
                    None => false,
                }
            } else if text::str_eq(t.as_str(), "apiKey") {
                match json::str_field(s, "in") {
                    Some(x) => text::str_eq(x.as_str(), "header"),
                    None => false,
                }
            } else {
                false
            }
        },
        None => false,
    }
}

fn name_usable_exec(schemes: Option<&Json>, name: &str) -> (r: bool)
    ensures
        r == name_usable(json::opt_view(schemes), name@),
{
    match schemes {
        Some(m) => match m.get(name) {
            Some(s) => scheme_usable_exec(s),
            None => false,
        },
        None => false,
    }
}

fn requirement_usable_exec(schemes: Option<&Json>, req: &SecurityRequirement) -> (r: bool)
    ensures
        r == requirement_usable(json::opt_view(schemes), requirement_view(*req)),
{
    let ghost rv = requirement_view(*req);
    let mut j: usize = 0;
    while j < req.schemes.len()
        invariant
            rv == requirement_view(*req),
            j <= req.schemes@.len(),
            forall|k: int| 0 <= k < j ==> name_usable(json::opt_view(schemes), #[trigger] rv[k].0),
        decreases req.schemes@.len() - j,
    {
        if !name_usable_exec(schemes, req.schemes[j].0.as_str()) {
            assert(!name_usable(json::opt_view(schemes), rv[j as int].0));
            return false;
        }
        j = j + 1;
    }
    true
}

/// Whether the gateway can meet the requirements (`security_supported_spec`).
pub fn security_supported(doc: &Json, reqs: &Vec<SecurityRequirement>) -> (r: bool)
    ensures
        r == security_supported_spec(doc@, requirements_view(reqs@)),
{
    if reqs.len() == 0 {
        return true;
    }
    let schemes = schemes_of(doc);
    let ghost rv = requirements_view(reqs@);
    let mut i: usize = 0;
    while i < reqs.len()
        invariant
            rv == requirements_view(reqs@),
            json::opt_view(schemes) == schemes_spec(doc@),
            i <= reqs@.len(),
            forall|k: int| 0 <= k < i ==> !requirement_usable(schemes_spec(doc@), #[trigger] rv[k]),
        decreases reqs@.len() - i,
    {
        if requirement_usable_exec(schemes, &reqs[i]) {
            assert(requirement_usable(schemes_spec(doc@), rv[i as int]));
            return true;
        }
        i = i + 1;
    }
    false
}

// ---------------------------------------------------------------------------
// Declared schemes.
// ---------------------------------------------------------------------------

/// Where an API key goes.
#[derive(Clone, Copy, Debug, PartialEq, Eq, Structural)]
pub enum ApiKeyLocation {
    Query,
    Header,
    Cookie,
}

/// A declared security scheme.
pub enum SecurityScheme {
    ApiKey { name: String, location: ApiKeyLocation },
    Http { scheme: String, bearer_format: Option<String> },
    OAuth2 { flows: Json },
    OpenIdConnect { open_id_connect_url: String },
    MutualTls,
}

pub enum SecuritySchemeView {
    ApiKey { name: Seq<char>, location: ApiKeyLocation },
    Http { scheme: Seq<char>, bearer_format: Option<Seq<char>> },
    OAuth2 { flows: JsonView },
    OpenIdConnect { open_id_connect_url: Seq<char> },
    MutualTls,
}

impl View for SecurityScheme {
    type V = SecuritySchemeView;

    open spec fn view(&self) -> SecuritySchemeView {
        match self {
            SecurityScheme::ApiKey { name, location } => SecuritySchemeView::ApiKey {
                name: name@,
                location: *location,
            },
            SecurityScheme::Http { scheme, bearer_format } => SecuritySchemeView::Http {
                scheme: scheme@,
                bearer_format: opt_str_view(*bearer_format),
            },
            SecurityScheme::OAuth2 { flows } => SecuritySchemeView::OAuth2 { flows: flows@ },
            SecurityScheme::OpenIdConnect { open_id_connect_url } => SecuritySchemeView::OpenIdConnect {
                open_id_connect_url: open_id_connect_url@,
            },
            SecurityScheme::MutualTls => SecuritySchemeView::MutualTls,
        }
    }
}

pub open spec fn or_default(o: Option<Seq<char>>, d: Seq<char>) -> Seq<char> {
    match o {
        Some(s) => s,
        None => d,
    }
}

/// A declared scheme read from its JSON, by its `type`; nothing for an
/// unknown or missing type. An API key's name defaults to the scheme's name,
/// its location to the header; an HTTP scheme defaults to `bearer`; OAuth2
/// flows default to an empty object.
#[verifier::opaque]
pub open spec fn scheme_spec(name: Seq<char>, s: JsonView) -> Option<SecuritySchemeView> {
    match json::str_field_spec(s, "type"@) {
        Some(t) => if t == "apiKey"@ {
            Some(api_key_spec(name, s))
        } else if t == "http"@ {
            Some(
                SecuritySchemeView::Http {
                    scheme: or_default(json::str_field_spec(s, "scheme"@), "bearer"@),
                    bearer_format: json::str_field_spec(s, "bearerFormat"@),
                },
            )
        } else if t == "oauth2"@ {
            Some(
                SecuritySchemeView::OAuth2 {
                    flows: match json::get_spec(s, "flows"@) {
                        Some(f) => f,
                        None => JsonView::Object(Seq::empty(), Seq::empty()),
                    },
                },
            )
        } else if t == "openIdConnect"@ {
            Some(
                SecuritySchemeView::OpenIdConnect {
                    open_id_connect_url: or_default(
                        json::str_field_spec(s, "openIdConnectUrl"@),
                        Seq::empty(),
                    ),
                },
            )
        } else if t == "mutualTLS"@ {
            Some(SecuritySchemeView::MutualTls)
        } else {
            None
        },
        None => None,
    }
}

/// The declared schemes of members, in order, skipping unknown ones.
pub open spec fn schemes_list_spec(ks: Seq<Seq<char>>, vs: Seq<JsonView>) -> Seq<(Seq<char>, SecuritySchemeView)>
    decreases ks.len(),
{
    if ks.len() == 0 || vs.len() < ks.len() {
        Seq::empty()
    } else {
        let n = ks.len() - 1;
        let rest = schemes_list_spec(ks.drop_last(), vs.take(n));
        match scheme_spec(ks[n], vs[n]) {
            Some(p) => rest.push((ks[n], p)),
            None => rest,
        }
    }
}

/// The schemes of `/components/securitySchemes` that the gateway knows.
pub open spec fn parse_security_schemes_spec(doc: JsonView) -> Seq<(Seq<char>, SecuritySchemeView)> {
    match schemes_spec(doc) {
        Some(JsonView::Object(ks, vs)) => schemes_list_spec(ks, vs),
        _ => Seq::empty(),
    }
}

pub open spec fn schemes_view(v: Seq<(String, SecurityScheme)>) -> Seq<(Seq<char>, SecuritySchemeView)> {
    Seq::new(v.len(), |i: int| (v[i].0@, v[i].1@))
}

fn owned_or(o: Option<String>, d: &str) -> (r: String)
    ensures
        r@ == or_default(opt_str_view(o), d@),
{
    match o {
        Some(s) => s,
        None => d.to_owned(),
    }
}

pub open spec fn api_key_spec(name: Seq<char>, s: JsonView) -> SecuritySchemeView {
    SecuritySchemeView::ApiKey {
        name: or_default(json::str_field_spec(s, "name"@), name),
        location: if json::str_field_spec(s, "in"@) == Some("query"@) {
            ApiKeyLocation::Query
        } else if json::str_field_spec(s, "in"@) == Some("cookie"@) {
            ApiKeyLocation::Cookie
        } else {
            ApiKeyLocation::Header
        },
    }
}

fn parse_api_key(name: &str, s: &Json) -> (r: SecurityScheme)
    ensures
        r@ == api_key_spec(name@, s@),
{
    let n = owned_or(json::str_field(s, "name"), name);
    let loc = match json::str_field(s, "in") {
        Some(x) => if text::str_eq(x.as_str(), "query") {
            ApiKeyLocation::Query
        } else if text::str_eq(x.as_str(), "cookie") {
            ApiKeyLocation::Cookie
        } else {
            ApiKeyLocation::Header
        },
        None => ApiKeyLocation::Header,
    };
    SecurityScheme::ApiKey { name: n, location: loc }
}

fn parse_flows(s: &Json) -> (r: Json)
    ensures
        r@ == match json::get_spec(s@, "flows"@) {
            Some(f) => f,
            None => JsonView::Object(Seq::empty(), Seq::empty()),
        },
{
    match s.get("flows") {
        Some(f) => f.duplicate(),
        None => {
            let e = Json::Object(Vec::new());
            assert(e@->Object_0 =~= Seq::<Seq<char>>::empty());
            assert(e@->Object_1 =~= Seq::<JsonView>::empty());
            e
        },
    }
}

fn parse_http(s: &Json) -> (r: SecurityScheme)
    ensures
        r@ == (SecuritySchemeView::Http {
            scheme: or_default(json::str_field_spec(s@, "scheme"@), "bearer"@),
            bearer_format: json::str_field_spec(s@, "bearerFormat"@),
        }),
{
    let scheme = owned_or(json::str_field(s, "scheme"), "bearer");
    SecurityScheme::Http { scheme, bearer_format: json::str_field(s, "bearerFormat") }
}

fn parse_open_id(s: &Json) -> (r: SecurityScheme)
    ensures
        r@ == (SecuritySchemeView::OpenIdConnect {
            open_id_connect_url: or_default(
                json::str_field_spec(s@, "openIdConnectUrl"@),
                Seq::empty(),
            ),
        }),
{
    proof {
        reveal_strlit("");
        assert(""@ =~= Seq::<char>::empty());
    }
    let url = owned_or(json::str_field(s, "openIdConnectUrl"), "");
    SecurityScheme::OpenIdConnect { open_id_connect_url: url }
}

fn parse_scheme(name: &str, s: &Json) -> (r: Option<SecurityScheme>)
    ensures
        match r {
            Some(p) => scheme_spec(name@, s@) == Some(p@),
            None => scheme_spec(name@, s@) is None,
        },
{
    reveal(scheme_spec);
    let t = match json::str_field(s, "type") {
        Some(t) => t,
        None => return None,
    };
    if text::str_eq(t.as_str(), "apiKey") {
        Some(parse_api_key(name, s))
    } else if text::str_eq(t.as_str(), "http") {
        Some(parse_http(s))
    } else if text::str_eq(t.as_str(), "oauth2") {
        Some(SecurityScheme::OAuth2 { flows: parse_flows(s) })
    } else if text::str_eq(t.as_str(), "openIdConnect") {
        Some(parse_open_id(s))
    } else if text::str_eq(t.as_str(), "mutualTLS") {
        Some(SecurityScheme::MutualTls)
    } else {
        None
    }
}

/// The declared schemes the gateway knows, by name
/// (`parse_security_schemes_spec`).
pub fn parse_security_schemes(doc: &Json) -> (r: Vec<(String, SecurityScheme)>)
    ensures
        schemes_view(r@) == parse_security_schemes_spec(doc@),
{
    let m = match schemes_of(doc) {
        Some(Json::Object(m)) => m,
        _ => {
            assert(schemes_view(Seq::<(String, SecurityScheme)>::empty()) =~= Seq::<
                (Seq<char>, SecuritySchemeView),
            >::empty());
            return Vec::new();
        },
    };
    let ghost ks = Seq::new(m@.len(), |k: int| m@[k].key@);
    let ghost vs = Seq::new(m@.len(), |k: int| m@[k].value@);
    proof {
        let o = schemes_spec(doc@)->Some_0;
        assert(o->Object_0 =~= ks);
        assert(o->Object_1 =~= vs);
    }
    let mut out: Vec<(String, SecurityScheme)> = Vec::new();
    let mut i: usize = 0;
    while i < m.len()
        invariant
            ks == Seq::new(m@.len(), |k: int| m@[k].key@),
            vs == Seq::new(m@.len(), |k: int| m@[k].value@),
            i <= m@.len(),
            schemes_view(out@) == schemes_list_spec(ks.take(i as int), vs.take(i as int)),
        decreases m@.len() - i,
    {
        proof {
            let k1 = ks.take(i + 1);
            let v1 = vs.take(i + 1);
            assert(k1.drop_last() =~= ks.take(i as int));
            assert(v1.take(i as int) =~= vs.take(i as int));
            assert(k1[i as int] == m@[i as int].key@);
            assert(v1[i as int] == m@[i as int].value@);
        }
        let ghost before = out@;
        match parse_scheme(m[i].key.as_str(), &m[i].value) {
            Some(p) => {
                out.push((m[i].key.clone(), p));
                assert(schemes_view(out@) =~= schemes_view(before).push(
                    (m@[i as int].key@, out@.last().1@),
                ));
            },
            None => {},
        }
        i = i + 1;
    }
    assert(ks.take(m@.len() as int) =~= ks);
    assert(vs.take(m@.len() as int) =~= vs);
    out
}

} // verus!
