//! The human status screen of `serve --tunnel`: the eight header rows, the
//! choice between a pinned header, plain lines and nothing, and the escape
//! sequences that release a pinned header, and the request lines.
//!
//! Writing to the terminal, and delays of a second or more (shown in seconds
//! with floating point), are left to the caller.
use vstd::prelude::*;
use crate::text;

verus! {

/// Rows of the pinned header.
pub const HEADER_ROWS: u16 = 8;

/// Width of the label column.
pub const LABEL_WIDTH: usize = 16;

/// The lease of an anonymous tunnel.
pub const LEASE: &'static str = "anonymous, released 30 minutes after disconnect";

/// What the header shows.
pub struct HeaderView {
    pub status: String,
    pub version: String,
    pub local_url: String,
    pub remote_url: String,
    pub auth: String,
    pub inflight: u32,
    pub total: u64,
    pub reconnects: u64,
}

/// `n` spaces.
pub open spec fn spaces(n: nat) -> Seq<char> {
    Seq::new(n, |i: int| ' ')
}

/// A label left-aligned in a column of `LABEL_WIDTH` characters, then the value.
pub open spec fn row_spec(label: Seq<char>, value: Seq<char>) -> Seq<char> {
    let pad: nat = if label.len() < 16 { (16 - label.len()) as nat } else { 0 };
    label + spaces(pad) + value
}

pub open spec fn requests_text(inflight: u32, total: u64, reconnects: u64) -> Seq<char> {
    "in-flight "@ + text::dec_str(inflight as nat) + "    total "@ + text::dec_str(total as nat)
        + "    reconnects "@ + text::dec_str(reconnects as nat)
}

/// The eight header rows: status, version, the two URLs, auth, lease, a blank
/// row, and the request counters.
pub open spec fn header_rows(
    status: Seq<char>,
    version: Seq<char>,
    local_url: Seq<char>,
    remote_url: Seq<char>,
    auth: Seq<char>,
    inflight: u32,
    total: u64,
    reconnects: u64,
) -> Seq<Seq<char>> {
    seq![
        row_spec("Session status"@, status),
        row_spec("Version"@, version),
        row_spec("Local URL"@, local_url),
        row_spec("Remote URL"@, remote_url),
        row_spec("Auth"@, auth),
        row_spec("Lease"@, LEASE@),
        Seq::empty(),
        row_spec("Requests"@, requests_text(inflight, total, reconnects)),
    ]
}

pub open spec fn header_spec(v: HeaderView) -> Seq<Seq<char>> {
    header_rows(
        v.status@,
        v.version@,
        v.local_url@,
        v.remote_url@,
        v.auth@,
        v.inflight,
        v.total,
        v.reconnects,
    )
}

/// One header row (`row_spec`).
pub fn row(label: &str, value: &str) -> (r: String)
    ensures
        r@ == row_spec(label@, value@),
{
    let mut out = text::chars_of(label);
    let n = out.len();
    let mut k: usize = n;
    while k < LABEL_WIDTH
        invariant
            n <= k <= LABEL_WIDTH || (k == n && n >= LABEL_WIDTH),
            n == label@.len(),
            out@ == label@ + spaces((k - n) as nat),
        decreases LABEL_WIDTH - k,
    {
        out.push(' ');
        assert(spaces((k + 1 - n) as nat) =~= spaces((k - n) as nat).push(' '));
        k = k + 1;
    }
    text::append_str(&mut out, value);
    assert(out@ =~= row_spec(label@, value@));
    text::string_of(&out)
}

fn requests_line(inflight: u32, total: u64, reconnects: u64) -> (r: String)
    ensures
        r@ == requests_text(inflight, total, reconnects),
{
    let mut out = text::chars_of("in-flight ");
    let a = text::dec_vec(inflight as u64);
    text::append_chars(&mut out, &a);
    text::append_str(&mut out, "    total ");
    let b = text::dec_vec(total);
    text::append_chars(&mut out, &b);
    text::append_str(&mut out, "    reconnects ");
    let c = text::dec_vec(reconnects);
    text::append_chars(&mut out, &c);
    assert(out@ =~= requests_text(inflight, total, reconnects));
    text::string_of(&out)
}

/// The eight header rows (`header_spec`).
pub fn header_lines(view: &HeaderView) -> (r: Vec<String>)
    ensures
        r@.len() == 8,
        forall|i: int| 0 <= i < 8 ==> #[trigger] r@[i]@ == header_spec(*view)[i],
{
    let mut out: Vec<String> = Vec::new();
    out.push(row("Session status", view.status.as_str()));
    out.push(row("Version", view.version.as_str()));
    out.push(row("Local URL", view.local_url.as_str()));
    out.push(row("Remote URL", view.remote_url.as_str()));
    out.push(row("Auth", view.auth.as_str()));
    out.push(row("Lease", LEASE));
    out.push(String::new());
    let req = requests_line(view.inflight, view.total, view.reconnects);
    out.push(row("Requests", req.as_str()));
    out
}

pub open spec fn auth_spec(public_auth: bool) -> Seq<char> {
    if public_auth {
        "public, this URL is reachable by anyone on the internet"@
    } else {
        "bearer required"@
    }
}

/// The auth row's value: a public tunnel warns that anyone can reach it.
pub fn auth_value(public_auth: bool) -> (r: &'static str)
    ensures
        r@ == auth_spec(public_auth),
{
    if public_auth {
        "public, this URL is reachable by anyone on the internet"
    } else {
        "bearer required"
    }
}

pub open spec fn local_url_spec(authority: Seq<char>, path: Seq<char>) -> Seq<char> {
    if path.len() > 0 && path[0] == '/' {
        "http://"@ + authority + path
    } else {
        "http://"@ + authority + "/"@ + path
    }
}

/// `http://{authority}{path}`, with a `/` before a path that has none.
pub fn local_http_url(authority: &str, path: &str) -> (r: String)
    ensures
        r@ == local_url_spec(authority@, path@),
{
    let p = text::chars_of(path);
    if p.len() > 0 && p[0] == '/' {
        text::cat3("http://", authority, path)
    } else {
        let a = text::cat3("http://", authority, "/");
        text::cat(a.as_str(), path)
    }
}

/// The widest header row: the label column and the longer of the auth and
/// lease values.
pub open spec fn widest_spec(public_auth: bool) -> nat {
    let a = auth_spec(public_auth).len();
    let l = LEASE@.len();
    16 + if a > l { a } else { l }
}

/// Width of the widest header row (`widest_spec`).
pub fn widest_header_line(public_auth: bool) -> (r: usize)
    ensures
        r == widest_spec(public_auth),
{
    proof {
        reveal_strlit("public, this URL is reachable by anyone on the internet");
        reveal_strlit("bearer required");
        reveal_strlit("anonymous, released 30 minutes after disconnect");
    }
    let a = auth_value(public_auth).unicode_len();
    let l = LEASE.unicode_len();
    LABEL_WIDTH + if a > l {
        a
    } else {
        l
    }
}

/// How the screen is drawn.
#[derive(Debug, Clone, Copy, PartialEq, Eq, Structural)]
pub enum ScreenMode {
    Off,
    Plain,
    Pinned { rows: u16 },
}

/// Nothing for `--json` or `--quiet`; a pinned header on a terminal at least
/// eleven rows tall and wider than the widest row; plain lines otherwise.
pub open spec fn mode_spec(
    json: bool,
    quiet: bool,
    is_terminal: bool,
    size: Option<(u16, u16)>,
    public_auth: bool,
) -> ScreenMode {
    if json || quiet {
        ScreenMode::Off
    } else {
        match size {
            Some((cols, rows)) => if is_terminal && rows >= 11 && cols > widest_spec(public_auth) {
                ScreenMode::Pinned { rows }
            } else {
                ScreenMode::Plain
            },
            None => ScreenMode::Plain,
        }
    }
}

/// The drawing mode (`mode_spec`); `size` is (columns, rows).
pub fn screen_mode(
    json: bool,
    quiet: bool,
    is_terminal: bool,
    size: Option<(u16, u16)>,
    public_auth: bool,
) -> (r: ScreenMode)
    ensures
        r == mode_spec(json, quiet, is_terminal, size, public_auth),
{
    if json || quiet {
        return ScreenMode::Off;
    }
    if is_terminal {
        match size {
            Some((cols, rows)) => {
                if rows >= HEADER_ROWS + 3 && cols as usize > widest_header_line(public_auth) {
                    return ScreenMode::Pinned { rows };
                }
            },
            None => {},
        }
    }
    ScreenMode::Plain
}

/// The screen's state between draws.
pub struct TunnelScreen {
    pub mode: ScreenMode,
    pub version: String,
    pub local_url: String,
    pub remote_url: String,
    pub public_auth: bool,
    pub status: String,
}

impl TunnelScreen {
    /// A screen before the tunnel connects: the remote URL is `waiting`.
    pub fn open(mode: ScreenMode, version: &str, local_url: &str, public_auth: bool, status: &str) -> (r: Self)
        ensures
            r.mode == mode,
            r.version@ == version@,
            r.local_url@ == local_url@,
            r.remote_url@ == "waiting"@,
            r.public_auth == public_auth,
            r.status@ == status@,
    {
        TunnelScreen {
            mode,
            version: version.to_owned(),
            local_url: local_url.to_owned(),
            remote_url: "waiting".to_owned(),
            public_auth,
            status: status.to_owned(),
        }
    }

    /// A new tunnel state: its status text and, once connected, the remote URL.
    pub fn apply_state(&mut self, status: &str, connected_url: Option<&str>)
        ensures
            final(self).status@ == status@,
            final(self).remote_url@ == match connected_url {
                Some(u) => u@,
                None => old(self).remote_url@,
            },
            final(self).mode == old(self).mode,
            final(self).version == old(self).version,
            final(self).local_url == old(self).local_url,
            final(self).public_auth == old(self).public_auth,
    {
        match connected_url {
            Some(u) => {
                self.remote_url = u.to_owned();
            },
            None => {},
        }
        self.status = status.to_owned();
    }

    /// The header rows for the given counters.
    pub fn lines(&self, inflight: u32, total: u64, reconnects: u64) -> (r: Vec<String>)
        ensures
            r@.len() == 8,
            forall|i: int|
                0 <= i < 8 ==> #[trigger] r@[i]@ == header_rows(
                    self.status@,
                    self.version@,
                    self.local_url@,
                    self.remote_url@,
                    auth_spec(self.public_auth),
                    inflight,
                    total,
                    reconnects,
                )[i],
    {
        let view = HeaderView {
            status: self.status.clone(),
            version: self.version.clone(),
            local_url: self.local_url.clone(),
            remote_url: self.remote_url.clone(),
            auth: auth_value(self.public_auth).to_owned(),
            inflight,
            total,
            reconnects,
        };
        header_lines(&view)
    }

    /// Stops drawing; for a pinned header, the escape sequence that releases
    /// the scroll region and moves to the last row.
    pub fn finish(&mut self) -> (r: Option<String>)
        ensures
            final(self).mode == ScreenMode::Off,
            r is Some <==> old(self).mode is Pinned,
            old(self).mode is Pinned ==> r->0@ == "\x1b[r\x1b["@ + text::dec_str(
                old(self).mode->rows as nat,
            ) + ";1H"@,
            final(self).status == old(self).status,
            final(self).remote_url == old(self).remote_url,
    {
        let out = match self.mode {
            ScreenMode::Pinned { rows } => {
                let d = text::dec_string(rows as u64);
                let a = text::cat("\x1b[r\x1b[", d.as_str());
                Some(text::cat(a.as_str(), ";1H"))
            },
            _ => None,
        };
        self.mode = ScreenMode::Off;
        out
    }
}

} // verus!
verus! {

/// Whole milliseconds of a duration, saturating at `u64::MAX`.
pub fn duration_ms(millis: u128) -> (r: u64)
    ensures
        r == if millis > u64::MAX as u128 {
            u64::MAX as int
        } else {
            millis as int
        },
{
    if millis > u64::MAX as u128 {
        u64::MAX
    } else {
        millis as u64
    }
}

/// A delay under a second, as `{ms}ms`; longer delays are shown in seconds
/// with one decimal, which takes floating point and is left to the caller.
pub fn format_delay(ms: u64) -> (r: Option<String>)
    ensures
        ms < 1000 ==> (r matches Some(s) && s@ == text::dec_str(ms as nat) + "ms"@),
        ms >= 1000 ==> r is None,
{
    if ms < 1000 {
        let d = text::dec_string(ms);
        Some(text::cat(d.as_str(), "ms"))
    } else {
        None
    }
}

/// `s` right-aligned in `w` characters.
pub open spec fn right_spec(s: Seq<char>, w: nat) -> Seq<char> {
    if s.len() < w {
        spaces((w - s.len()) as nat) + s
    } else {
        s
    }
}

/// `s` left-aligned in `w` characters.
pub open spec fn left_spec(s: Seq<char>, w: nat) -> Seq<char> {
    if s.len() < w {
        s + spaces((w - s.len()) as nat)
    } else {
        s
    }
}

/// One request line: the method left-aligned in 7 characters, the status
/// right-aligned in 3, then the delay text.
pub open spec fn request_line_spec(method: Seq<char>, status: u16, delay: Seq<char>) -> Seq<char> {
    left_spec(method, 7) + " "@ + right_spec(text::dec_str(status as nat), 3) + " "@ + delay
}

fn spaces_vec(n: usize) -> (r: Vec<char>)
    ensures
        r@ == spaces(n as nat),
{
    let mut v: Vec<char> = Vec::new();
    let mut i: usize = 0;
    while i < n
        invariant
            i <= n,
            v@ == spaces(i as nat),
        decreases n - i,
    {
        v.push(' ');
        assert(spaces((i + 1) as nat) =~= spaces(i as nat).push(' '));
        i = i + 1;
    }
    v
}

/// One request line (`request_line_spec`); `delay` is the formatted delay.
pub fn request_line(method: &str, status: u16, delay: &str) -> (r: String)
    ensures
        r@ == request_line_spec(method@, status, delay@),
{
    let mut out = text::chars_of(method);
    let n = out.len();
    if n < 7 {
        let pad = spaces_vec(7 - n);
        text::append_chars(&mut out, &pad);
    }
    assert(out@ =~= left_spec(method@, 7));
    out.push(' ');
    let digits = text::dec_vec(status as u64);
    let k = digits.len();
    let mut right = Vec::new();
    if k < 3 {
        right = spaces_vec(3 - k);
    }
    text::append_chars(&mut right, &digits);
    assert(right@ =~= right_spec(text::dec_str(status as nat), 3));
    text::append_chars(&mut out, &right);
    out.push(' ');
    text::append_str(&mut out, delay);
    proof {
        reveal_strlit(" ");
    }
    assert(out@ =~= request_line_spec(method@, status, delay@));
    text::string_of(&out)
}

} // verus!
