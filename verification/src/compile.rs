//! The document-level steps of a compilation: findings for renamed tools
//! and for too many tools, the document's title, and its servers.
use vstd::prelude::*;
use crate::draft::{Draft, draft_warn};
use crate::json::{self, Json, JsonView};
use crate::operation::Operation;
use crate::schema::strings_view;
use crate::servers::{self, Server, ServerView};
use crate::text;
use crate::urls::opt_str_view;
use crate::warnings::{self, Severity, Warning, WarningCode, WarningView, warnings_view};

verus! {

/// A finding for each draft whose unique name differs from its candidate,
/// in order.
pub open spec fn collision_notes(drafts: Seq<Draft>, names: Seq<Seq<char>>, n: int) -> Seq<WarningView>
    decreases n,
{
    if n <= 0 || n > drafts.len() || n > names.len() {
        Seq::empty()
    } else {
        let w = collision_notes(drafts, names, n - 1);
        let d = drafts[n - 1];
        if names[n - 1] != d.candidate_name@ {
            w.push(draft_warn(d, WarningCode::NameCollision, "name collision; assigned "@ + names[n - 1]))
        } else {
            w
        }
    }
}

/// Records a finding for each renamed tool (`collision_notes`).
pub fn note_collisions(drafts: &Vec<Draft>, names: &Vec<String>, warnings: &mut Vec<Warning>)
    requires
        drafts@.len() == names@.len(),
    ensures
        warnings_view(final(warnings)@) == warnings_view(old(warnings)@) + collision_notes(
            drafts@,
            strings_view(names@),
            drafts@.len() as int,
        ),
{
    let ghost w0 = warnings_view(warnings@);
    let ghost nv = strings_view(names@);
    let mut i: usize = 0;
    while i < drafts.len()
        invariant
            drafts@.len() == names@.len(),
            nv == strings_view(names@),
            w0 == warnings_view(old(warnings)@),
            i <= drafts@.len(),
            warnings_view(warnings@) == w0 + collision_notes(drafts@, nv, i as int),
        decreases drafts@.len() - i,
    {
        let ghost wb = warnings_view(warnings@);
        if !text::str_eq(names[i].as_str(), drafts[i].candidate_name.as_str()) {
            let msg = text::cat("name collision; assigned ", names[i].as_str());
            warnings.push(crate::draft::warn_for(&drafts[i], WarningCode::NameCollision, msg.as_str()));
            assert(warnings_view(warnings@) =~= wb.push(warnings@.last()@));
        }
        i = i + 1;
    }
}

/// The finding for many tools: over 128 with its code's severity, over 64
/// as information; none for fewer.
pub open spec fn explosion_spec(compiled: nat) -> Option<WarningView> {
    if compiled > 64 {
        Some(
            WarningView {
                code: WarningCode::ToolExplosion,
                severity: if compiled > 128 {
                    None
                } else {
                    Some(Severity::Info)
                },
                operation_id: None,
                method: None,
                path: None,
                message: text::dec_str(compiled) + " tools compiled"@,
            },
        )
    } else {
        None
    }
}

/// The finding for many tools (`explosion_spec`).
pub fn tool_explosion(compiled: u32) -> (r: Option<Warning>)
    ensures
        match r {
            Some(w) => explosion_spec(compiled as nat) == Some(w@),
            None => explosion_spec(compiled as nat) is None,
        },
{
    if compiled > 64 {
        let msg = text::cat(text::dec_string(compiled as u64).as_str(), " tools compiled");
        let mut w = warnings::warn(WarningCode::ToolExplosion, None, None, None, msg);
        if compiled <= 128 {
            w.severity = Some(Severity::Info);
        }
        Some(w)
    } else {
        None
    }
}

/// How many operations are enabled by default.
pub open spec fn enabled_count(ops: Seq<Operation>, n: int) -> nat
    decreases n,
{
    if n <= 0 || n > ops.len() {
        0
    } else {
        enabled_count(ops, n - 1) + if ops[n - 1].enabled_by_default {
            1nat
        } else {
            0nat
        }
    }
}

/// How many operations are enabled by default (`enabled_count`), for at
/// most `u32::MAX` operations.
pub fn count_enabled(ops: &Vec<Operation>) -> (r: u32)
    requires
        ops@.len() <= u32::MAX,
    ensures
        r as nat == enabled_count(ops@, ops@.len() as int),
{
    let mut c: u32 = 0;
    let mut i: usize = 0;
    while i < ops.len()
        invariant
            ops@.len() <= u32::MAX,
            i <= ops@.len(),
            c as nat == enabled_count(ops@, i as int),
            c <= i,
        decreases ops@.len() - i,
    {
        if ops[i].enabled_by_default {
            c = c + 1;
        }
        i = i + 1;
    }
    c
}

/// The document's title: `/info/title` when a string, else `Untitled`.
pub open spec fn title_spec(doc: JsonView) -> Seq<char> {
    match crate::refs::pointer_spec(doc, "/info/title"@) {
        Some(JsonView::Str(s)) => s,
        _ => "Untitled"@,
    }
}

/// The document's description: `/info/description` when a string.
pub open spec fn description_spec(doc: JsonView) -> Option<Seq<char>> {
    match crate::refs::pointer_spec(doc, "/info/description"@) {
        Some(JsonView::Str(s)) => Some(s),
        _ => None,
    }
}

/// The document's title (`title_spec`).
pub fn doc_title(doc: &Json) -> (r: String)
    ensures
        r@ == title_spec(doc@),
{
    match crate::refs::pointer(doc, "/info/title") {
        Some(Json::Str(s)) => s.clone(),
        _ => "Untitled".to_owned(),
    }
}

/// The document's description (`description_spec`).
pub fn doc_description(doc: &Json) -> (r: Option<String>)
    ensures
        opt_str_view(r) == description_spec(doc@),
{
    match crate::refs::pointer(doc, "/info/description") {
        Some(Json::Str(s)) => Some(s.clone()),
        _ => None,
    }
}

/// The server `/` that stands for the document's own origin.
pub open spec fn root_server() -> ServerView {
    ServerView { url_template: "/"@, variables: Seq::empty(), description: None }
}

/// The document's servers: those of its `servers` array, or, for a
/// document fetched from a URL, `/`; each URL resolved against the
/// document's URL.
pub open spec fn document_servers_spec(doc: JsonView, document_url: Option<Seq<char>>) -> Seq<ServerView> {
    let listed = match json::get_spec(doc, "servers"@) {
        Some(JsonView::Array(a)) => servers::parse_servers_spec(a),
        _ => Seq::empty(),
    };
    let base = if listed.len() == 0 && document_url is Some {
        seq![root_server()]
    } else {
        listed
    };
    Seq::new(
        base.len(),
        |i: int|
            ServerView {
                url_template: crate::server_url::resolve_server_spec(document_url, base[i].url_template),
                ..base[i]
            },
    )
}

/// The document's servers (`document_servers_spec`).
pub fn document_servers(doc: &Json, document_url: Option<&str>) -> (r: Vec<Server>)
    ensures
        servers::servers_view(r@) == document_servers_spec(doc@, crate::names::opt_view(document_url)),
{
    let none = Json::Null;
    let mut list = servers::effective_servers(doc, &none, &none);
    proof {
        assert(json::get_spec(JsonView::Null, "servers"@) is None);
    }
    if list.len() == 0 && document_url.is_some() {
        list.push(Server { url_template: "/".to_owned(), variables: Vec::new(), description: None });
        assert(list@[0]@.variables =~= Seq::<(Seq<char>, servers::ServerVariableView)>::empty());
        assert(servers::servers_view(list@) =~= seq![root_server()]);
    }
    let ghost orig = list@;
    let ghost base = servers::servers_view(list@);
    let mut out: Vec<Server> = Vec::new();
    let mut i: usize = 0;
    let n = list.len();
    while i < n
        invariant
            base == servers::servers_view(orig),
            n == orig.len(),
            i <= n,
            list@ == orig.skip(i as int),
            out@.len() == i,
            forall|k: int|
                0 <= k < i ==> #[trigger] out@[k]@ == (ServerView {
                    url_template: crate::server_url::resolve_server_spec(
                        crate::names::opt_view(document_url),
                        base[k].url_template,
                    ),
                    ..base[k]
                }),
        decreases n - i,
    {
        assert(list@[0] == orig[i as int]);
        let s = list.remove(0);
        assert(list@ =~= orig.skip(i + 1));
        let url = crate::server_url::resolve_server_url(document_url, s.url_template.as_str());
        out.push(Server { url_template: url, variables: s.variables, description: s.description });
        proof {
            assert(out@[i as int]@.variables =~= base[i as int].variables);
        }
        i = i + 1;
    }
    assert(servers::servers_view(out@) =~= document_servers_spec(doc@, crate::names::opt_view(document_url)));
    out
}

} // verus!
