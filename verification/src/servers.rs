//! The servers an operation is sent to: `servers` of the operation, else of
//! its path item, else of the document.
use vstd::prelude::*;
use crate::json::{self, Json, JsonView, Member};
use crate::urls::opt_str_view;

verus! {

/// A server variable: its default and the values it may take.
pub struct ServerVariable {
    pub default: Option<String>,
    pub enum_values: Option<Vec<String>>,
}

/// A server: its URL template, its variables by name (in the order of the
/// document, each name once) and its description.
pub struct Server {
    pub url_template: String,
    pub variables: Vec<(String, ServerVariable)>,
    pub description: Option<String>,
}

pub struct ServerVariableView {
    pub default: Option<Seq<char>>,
    pub enum_values: Option<Seq<Seq<char>>>,
}

pub struct ServerView {
    pub url_template: Seq<char>,
    pub variables: Seq<(Seq<char>, ServerVariableView)>,
    pub description: Option<Seq<char>>,
}

pub open spec fn strings_view(v: Seq<String>) -> Seq<Seq<char>> {
    Seq::new(v.len(), |i: int| v[i]@)
}

impl View for ServerVariable {
    type V = ServerVariableView;

    open spec fn view(&self) -> ServerVariableView {
        ServerVariableView {
            default: opt_str_view(self.default),
            enum_values: match self.enum_values {
                Some(v) => Some(strings_view(v@)),
                None => None,
            },
        }
    }
}

impl View for Server {
    type V = ServerView;

    open spec fn view(&self) -> ServerView {
        ServerView {
            url_template: self.url_template@,
            variables: Seq::new(
                self.variables@.len(),
                |i: int| (self.variables@[i].0@, self.variables@[i].1@),
            ),
            description: opt_str_view(self.description),
        }
    }
}

/// A server variable read from its JSON: the string `default`, and the
/// strings of an `enum` array.
pub open spec fn variable_spec(v: JsonView) -> ServerVariableView {
    ServerVariableView {
        default: json::str_field_spec(v, "default"@),
        enum_values: match json::get_spec(v, "enum"@) {
            Some(JsonView::Array(a)) => Some(json::strings_of(a)),
            _ => None,
        },
    }
}

/// A server read from its JSON: nothing without a string `url`; the
/// variables are the members of a `variables` object.
pub open spec fn parse_server_spec(v: JsonView) -> Option<ServerView> {
    match json::str_field_spec(v, "url"@) {
        Some(url) => Some(
            ServerView {
                url_template: url,
                variables: match json::get_spec(v, "variables"@) {
                    Some(JsonView::Object(ks, vs)) => Seq::new(
                        ks.len(),
                        |i: int| (ks[i], variable_spec(vs[i])),
                    ),
                    _ => Seq::empty(),
                },
                description: json::str_field_spec(v, "description"@),
            },
        ),
        None => None,
    }
}

/// The servers of a list, in order, skipping entries that are no server.
pub open spec fn parse_servers_spec(items: Seq<JsonView>) -> Seq<ServerView>
    decreases items.len(),
{
    if items.len() == 0 {
        Seq::empty()
    } else {
        let rest = parse_servers_spec(items.drop_last());
        match parse_server_spec(items.last()) {
            Some(s) => rest.push(s),
            None => rest,
        }
    }
}

/// The `servers` entry that applies: the operation's, else the path item's,
/// else the document's.
pub open spec fn server_list_spec(doc: JsonView, path_item: JsonView, op: JsonView) -> Option<JsonView> {
    match json::get_spec(op, "servers"@) {
        Some(l) => Some(l),
        None => match json::get_spec(path_item, "servers"@) {
            Some(l) => Some(l),
            None => json::get_spec(doc, "servers"@),
        },
    }
}

/// The effective servers: those of the applicable list when it is an array,
/// else none.
pub open spec fn effective_servers_spec(doc: JsonView, path_item: JsonView, op: JsonView) -> Seq<ServerView> {
    match server_list_spec(doc, path_item, op) {
        Some(JsonView::Array(a)) => parse_servers_spec(a),
        _ => Seq::empty(),
    }
}

pub open spec fn servers_view(v: Seq<Server>) -> Seq<ServerView> {
    Seq::new(v.len(), |i: int| v[i]@)
}

pub open spec fn opt_server_view(o: Option<Server>) -> Option<ServerView> {
    match o {
        Some(s) => Some(s@),
        None => None,
    }
}

fn parse_variable(v: &Json) -> (r: ServerVariable)
    ensures
        r@ == variable_spec(v@),
{
    let default = json::str_field(v, "default");
    let e = v.get("enum");
    let enum_values = match e {
        Some(Json::Array(_)) => {
            let s = json::string_array(e);
            assert(strings_view(s@) =~= Seq::new(s@.len(), |i: int| s@[i]@));
            Some(s)
        },
        _ => None,
    };
    ServerVariable { default, enum_values }
}

fn parse_variables(m: &Vec<Member>) -> (r: Vec<(String, ServerVariable)>)
    ensures
        Seq::new(r@.len(), |i: int| (r@[i].0@, r@[i].1@)) == Seq::new(
            m@.len(),
            |i: int| (m@[i].key@, variable_spec(m@[i].value@)),
        ),
{
    let mut out: Vec<(String, ServerVariable)> = Vec::new();
    let mut i: usize = 0;
    while i < m.len()
        invariant
            i <= m@.len(),
            out@.len() == i,
            forall|k: int|
                0 <= k < i ==> (#[trigger] out@[k]).0@ == m@[k].key@ && out@[k].1@
                    == variable_spec(m@[k].value@),
        decreases m@.len() - i,
    {
        let var = parse_variable(&m[i].value);
        out.push((m[i].key.clone(), var));
        i = i + 1;
    }
    assert(Seq::new(out@.len(), |i: int| (out@[i].0@, out@[i].1@)) =~= Seq::new(
        m@.len(),
        |i: int| (m@[i].key@, variable_spec(m@[i].value@)),
    ));
    out
}

/// A server read from its JSON (`parse_server_spec`).
pub fn parse_server(v: &Json) -> (r: Option<Server>)
    ensures
        opt_server_view(r) == parse_server_spec(v@),
{
    let url = match json::str_field(v, "url") {
        Some(u) => u,
        None => return None,
    };
    let variables = match v.get("variables") {
        Some(Json::Object(m)) => {
            let vars = parse_variables(m);
            proof {
                let o = json::get_spec(v@, "variables"@)->Some_0;
                assert(o->Object_0 =~= Seq::new(m@.len(), |i: int| m@[i].key@));
                assert(o->Object_1 =~= Seq::new(m@.len(), |i: int| m@[i].value@));
            }
            vars
        },
        _ => Vec::new(),
    };
    let description = json::str_field(v, "description");
    let s = Server { url_template: url, variables, description };
    proof {
        let want = parse_server_spec(v@)->Some_0;
        assert(s@.variables =~= want.variables);
    }
    Some(s)
}

fn parse_servers(a: &Vec<Json>) -> (r: Vec<Server>)
    ensures
        servers_view(r@) == parse_servers_spec(json::value_views(a@)),
{
    let ghost av = json::value_views(a@);
    let mut out: Vec<Server> = Vec::new();
    let mut i: usize = 0;
    while i < a.len()
        invariant
            av == json::value_views(a@),
            i <= a@.len(),
            servers_view(out@) == parse_servers_spec(av.take(i as int)),
        decreases a@.len() - i,
    {
        assert(av.take(i + 1).drop_last() =~= av.take(i as int));
        assert(av.take(i + 1).last() == a@[i as int]@);
        let ghost before = out@;
        match parse_server(&a[i]) {
            Some(s) => {
                out.push(s);
                assert(servers_view(out@) =~= servers_view(before).push(out@.last()@));
            },
            None => {},
        }
        i = i + 1;
    }
    assert(av.take(a@.len() as int) =~= av);
    out
}

/// The effective servers of an operation (`effective_servers_spec`).
pub fn effective_servers(doc: &Json, path_item: &Json, op: &Json) -> (r: Vec<Server>)
    ensures
        servers_view(r@) == effective_servers_spec(doc@, path_item@, op@),
{
    let list = match op.get("servers") {
        Some(l) => Some(l),
        None => match path_item.get("servers") {
            Some(l) => Some(l),
            None => doc.get("servers"),
        },
    };
    match list {
        Some(Json::Array(a)) => {
            let r = parse_servers(a);
            proof {
                let l = server_list_spec(doc@, path_item@, op@)->Some_0;
                assert(l->Array_0 =~= json::value_views(a@));
            }
            r
        },
        _ => {
            assert(servers_view(Seq::<Server>::empty()) =~= Seq::<ServerView>::empty());
            Vec::new()
        },
    }
}

} // verus!
