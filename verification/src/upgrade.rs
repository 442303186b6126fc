//! The decisions of `upgrade`: which release, which asset for this
//! platform, and the asset's checksum from the release's `SHA256SUMS`.
use vstd::prelude::*;
use crate::cli_error::{CliError, CliErrorView};
use crate::text;

verus! {

// ---------------------------------------------------------------------------
// Releases and assets.
// ---------------------------------------------------------------------------

/// The text without its leading `v`s.
pub open spec fn trim_v(s: Seq<char>) -> Seq<char>
    decreases s.len(),
{
    if s.len() > 0 && s[0] == 'v' {
        trim_v(s.drop_first())
    } else {
        s
    }
}

fn trim_v_exec(s: &str) -> (r: String)
    ensures
        r@ == trim_v(s@),
{
    let v = text::chars_of(s);
    let mut i: usize = 0;
    assert(v@.skip(0) =~= v@);
    while i < v.len() && v[i] == 'v'
        invariant
            i <= v@.len(),
            trim_v(v@.skip(i as int)) == trim_v(v@),
        decreases v@.len() - i,
    {
        assert(v@.skip(i as int).drop_first() =~= v@.skip(i + 1));
        i = i + 1;
    }
    let mut out: Vec<char> = Vec::new();
    let mut j: usize = i;
    while j < v.len()
        invariant
            i <= j <= v@.len(),
            out@ == v@.subrange(i as int, j as int),
        decreases v@.len() - j,
    {
        out.push(v[j]);
        assert(out@ =~= v@.subrange(i as int, j + 1));
        j = j + 1;
    }
    assert(out@ =~= v@.skip(i as int));
    text::string_of(&out)
}

/// The release tag for a requested version: `v` and the version without
/// its leading `v`s.
pub fn release_tag(version: &str) -> (r: String)
    ensures
        r@ == "v"@ + trim_v(version@),
{
    let t = trim_v_exec(version);
    text::cat("v", t.as_str())
}

/// The version a release tag names (`trim_v`).
pub fn tag_version(tag: &str) -> (r: String)
    ensures
        r@ == trim_v(tag@),
{
    trim_v_exec(tag)
}

/// The release target for a CPU architecture and operating system, as
/// `std::env::consts` names them.
pub open spec fn host_triple_spec(arch: Seq<char>, os: Seq<char>) -> Seq<char> {
    if arch == "x86_64"@ && os == "linux"@ {
        "x86_64-unknown-linux-musl"@
    } else if arch == "aarch64"@ && os == "linux"@ {
        "aarch64-unknown-linux-musl"@
    } else if arch == "x86_64"@ && os == "macos"@ {
        "x86_64-apple-darwin"@
    } else if arch == "aarch64"@ && os == "macos"@ {
        "aarch64-apple-darwin"@
    } else if arch == "x86_64"@ && os == "windows"@ {
        "x86_64-pc-windows-msvc"@
    } else {
        arch + "-unknown-"@ + os
    }
}

/// The release target for a platform (`host_triple_spec`).
pub fn host_triple(arch: &str, os: &str) -> (r: String)
    ensures
        r@ == host_triple_spec(arch@, os@),
{
    let x86 = text::str_eq(arch, "x86_64");
    let arm = text::str_eq(arch, "aarch64");
    let linux = text::str_eq(os, "linux");
    let macos = text::str_eq(os, "macos");
    let windows = text::str_eq(os, "windows");
    if x86 && linux {
        "x86_64-unknown-linux-musl".to_owned()
    } else if arm && linux {
        "aarch64-unknown-linux-musl".to_owned()
    } else if x86 && macos {
        "x86_64-apple-darwin".to_owned()
    } else if arm && macos {
        "aarch64-apple-darwin".to_owned()
    } else if x86 && windows {
        "x86_64-pc-windows-msvc".to_owned()
    } else {
        text::cat3(arch, "-unknown-", os)
    }
}

/// The release asset for a target: `mcp-gateway-{triple}.tar.xz`.
pub fn asset_name(triple: &str) -> (r: String)
    ensures
        r@ == "mcp-gateway-"@ + triple@ + ".tar.xz"@,
{
    text::cat3("mcp-gateway-", triple, ".tar.xz")
}

// ---------------------------------------------------------------------------
// SHA256SUMS.
// ---------------------------------------------------------------------------

/// The position of the first `\n`.
pub open spec fn newline_at(t: Seq<char>) -> Option<int>
    decreases t.len(),
{
    if t.len() == 0 {
        None
    } else if t[0] == '\n' {
        Some(0)
    } else {
        match newline_at(t.drop_first()) {
            Some(i) => Some(i + 1),
            None => None,
        }
    }
}

pub proof fn lemma_newline_at(t: Seq<char>)
    ensures
        match newline_at(t) {
            Some(i) => 0 <= i < t.len() && t[i] == '\n' && forall|j: int| 0 <= j < i ==> t[j] != '\n',
            None => forall|j: int| 0 <= j < t.len() ==> t[j] != '\n',
        },
    decreases t.len(),
{
    if t.len() > 0 && t[0] != '\n' {
        lemma_newline_at(t.drop_first());
        match newline_at(t.drop_first()) {
            Some(i) => {
                assert forall|j: int| 0 <= j < i + 1 implies t[j] != '\n' by {
                    if j > 0 {
                        assert(t[j] == t.drop_first()[j - 1]);
                    }
                }
            },
            None => {
                assert forall|j: int| 0 <= j < t.len() implies t[j] != '\n' by {
                    if j > 0 {
                        assert(t[j] == t.drop_first()[j - 1]);
                    }
                }
            },
        }
    }
}

/// A line ended by `\n` loses one `\r` before it.
pub open spec fn strip_cr(l: Seq<char>) -> Seq<char> {
    if l.len() > 0 && l.last() == '\r' {
        l.drop_last()
    } else {
        l
    }
}

/// The lines of a text as `str::lines` gives them: split at `\n`, a `\r`
/// before a `\n` dropped, no empty line after a final `\n`.
pub open spec fn split_lines(t: Seq<char>) -> Seq<Seq<char>>
    decreases t.len(),
{
    if t.len() == 0 {
        Seq::empty()
    } else {
        match newline_at(t) {
            None => seq![t],
            Some(i) => {
                proof {
                    lemma_newline_at(t);
                }
                seq![strip_cr(t.take(i))] + split_lines(t.skip(i + 1))
            },
        }
    }
}

/// The number of leading whitespace characters (`char::is_whitespace`).
pub open spec fn lead_ws(t: Seq<char>) -> nat
    decreases t.len(),
{
    if t.len() > 0 && text::is_ws(t[0]) {
        1 + lead_ws(t.drop_first())
    } else {
        0
    }
}

/// The number of leading characters that are not whitespace.
pub open spec fn word_len(t: Seq<char>) -> nat
    decreases t.len(),
{
    if t.len() > 0 && !text::is_ws(t[0]) {
        1 + word_len(t.drop_first())
    } else {
        0
    }
}

/// The first whitespace-separated word, if any.
pub open spec fn first_word(t: Seq<char>) -> Option<Seq<char>> {
    let u = t.skip(lead_ws(t) as int);
    if u.len() == 0 {
        None
    } else {
        Some(u.take(word_len(u) as int))
    }
}

/// The second whitespace-separated word, if any.
pub open spec fn second_word(t: Seq<char>) -> Option<Seq<char>> {
    let u = t.skip(lead_ws(t) as int);
    first_word(u.skip(word_len(u) as int))
}

/// The hash of the first line whose second word is the asset (`None` when
/// no line names it; the inner `None` when that line has no first word).
pub open spec fn sum_lookup(lines: Seq<Seq<char>>, asset: Seq<char>) -> Option<Option<Seq<char>>>
    decreases lines.len(),
{
    if lines.len() == 0 {
        None
    } else if second_word(lines[0]) == Some(asset) {
        Some(first_word(lines[0]))
    } else {
        sum_lookup(lines.drop_first(), asset)
    }
}

proof fn lemma_lead_ws_bound(t: Seq<char>)
    ensures
        lead_ws(t) <= t.len(),
        forall|j: int| 0 <= j < lead_ws(t) ==> text::is_ws(#[trigger] t[j]),
        lead_ws(t) < t.len() ==> !text::is_ws(t[lead_ws(t) as int]),
    decreases t.len(),
{
    if t.len() > 0 && text::is_ws(t[0]) {
        lemma_lead_ws_bound(t.drop_first());
        assert forall|j: int| 0 <= j < lead_ws(t) implies text::is_ws(#[trigger] t[j]) by {
            if j > 0 {
                assert(t[j] == t.drop_first()[j - 1]);
            }
        }
    }
}

proof fn lemma_word_len_bound(t: Seq<char>)
    ensures
        word_len(t) <= t.len(),
        forall|j: int| 0 <= j < word_len(t) ==> !text::is_ws(#[trigger] t[j]),
        word_len(t) < t.len() ==> text::is_ws(t[word_len(t) as int]),
    decreases t.len(),
{
    if t.len() > 0 && !text::is_ws(t[0]) {
        lemma_word_len_bound(t.drop_first());
        assert forall|j: int| 0 <= j < word_len(t) implies !text::is_ws(#[trigger] t[j]) by {
            if j > 0 {
                assert(t[j] == t.drop_first()[j - 1]);
            }
        }
    }
}

proof fn lemma_lead_ws_of(t: Seq<char>, k: int)
    requires
        0 <= k <= t.len(),
        forall|j: int| 0 <= j < k ==> text::is_ws(#[trigger] t[j]),
        k < t.len() ==> !text::is_ws(t[k]),
    ensures
        lead_ws(t) == k,
    decreases k,
{
    if k > 0 {
        assert forall|j: int| 0 <= j < k - 1 implies text::is_ws(#[trigger] t.drop_first()[j]) by {
            assert(t.drop_first()[j] == t[j + 1]);
        }
        if k < t.len() {
            assert(t.drop_first()[k - 1] == t[k]);
        }
        lemma_lead_ws_of(t.drop_first(), k - 1);
    }
}

proof fn lemma_word_len_of(t: Seq<char>, k: int)
    requires
        0 <= k <= t.len(),
        forall|j: int| 0 <= j < k ==> !text::is_ws(#[trigger] t[j]),
        k < t.len() ==> text::is_ws(t[k]),
    ensures
        word_len(t) == k,
    decreases k,
{
    if k > 0 {
        assert forall|j: int| 0 <= j < k - 1 implies !text::is_ws(#[trigger] t.drop_first()[j]) by {
            assert(t.drop_first()[j] == t[j + 1]);
        }
        if k < t.len() {
            assert(t.drop_first()[k - 1] == t[k]);
        }
        lemma_word_len_of(t.drop_first(), k - 1);
    }
}

/// From position `from`, past the whitespace: where it ends.
fn skip_ws(v: &Vec<char>, from: usize) -> (r: usize)
    requires
        from <= v@.len(),
    ensures
        r == from + lead_ws(v@.skip(from as int)),
        r <= v@.len(),
{
    let mut i = from;
    while i < v.len() && text::is_ws_char(v[i])
        invariant
            from <= i <= v@.len(),
            forall|j: int| from <= j < i ==> text::is_ws(#[trigger] v@[j]),
        decreases v@.len() - i,
    {
        i = i + 1;
    }
    proof {
        let s = v@.skip(from as int);
        assert forall|j: int| 0 <= j < i - from implies text::is_ws(#[trigger] s[j]) by {
            assert(s[j] == v@[from + j]);
        }
        if i < v@.len() {
            assert(s[i - from] == v@[i as int]);
        }
        lemma_lead_ws_of(s, i - from);
    }
    i
}

/// From position `from`, to the end of the word.
fn skip_word(v: &Vec<char>, from: usize) -> (r: usize)
    requires
        from <= v@.len(),
    ensures
        r == from + word_len(v@.skip(from as int)),
        r <= v@.len(),
{
    let mut i = from;
    while i < v.len() && !text::is_ws_char(v[i])
        invariant
            from <= i <= v@.len(),
            forall|j: int| from <= j < i ==> !text::is_ws(#[trigger] v@[j]),
        decreases v@.len() - i,
    {
        i = i + 1;
    }
    proof {
        let s = v@.skip(from as int);
        assert forall|j: int| 0 <= j < i - from implies !text::is_ws(#[trigger] s[j]) by {
            assert(s[j] == v@[from + j]);
        }
        if i < v@.len() {
            assert(s[i - from] == v@[i as int]);
        }
        lemma_word_len_of(s, i - from);
    }
    i
}

fn slice_chars(v: &Vec<char>, lo: usize, hi: usize) -> (r: Vec<char>)
    requires
        lo <= hi <= v@.len(),
    ensures
        r@ == v@.subrange(lo as int, hi as int),
{
    let mut out: Vec<char> = Vec::new();
    let mut j = lo;
    while j < hi
        invariant
            lo <= j <= hi,
            hi <= v@.len(),
            out@ == v@.subrange(lo as int, j as int),
        decreases hi - j,
    {
        out.push(v[j]);
        assert(out@ =~= v@.subrange(lo as int, j + 1));
        j = j + 1;
    }
    out
}

/// The first two words of a line.
fn two_words(line: &Vec<char>) -> (r: (Option<Vec<char>>, Option<Vec<char>>))
    ensures
        match r.0 {
            Some(w) => first_word(line@) == Some(w@),
            None => first_word(line@) is None,
        },
        match r.1 {
            Some(w) => second_word(line@) == Some(w@),
            None => second_word(line@) is None,
        },
{
    let ghost t = line@;
    let a = skip_ws(line, 0);
    let b = skip_word(line, a);
    proof {
        assert(t.skip(0) =~= t);
        let u = t.skip(lead_ws(t) as int);
        assert(u =~= t.skip(a as int));
        assert(u.take(word_len(u) as int) =~= t.subrange(a as int, b as int));
    }
    let first = if a < line.len() {
        Some(slice_chars(line, a, b))
    } else {
        None
    };
    let c = skip_ws(line, b);
    let d = skip_word(line, c);
    proof {
        let u = t.skip(lead_ws(t) as int);
        let w = u.skip(word_len(u) as int);
        assert(w =~= t.skip(b as int));
        assert(w.skip(lead_ws(w) as int) =~= t.skip(c as int));
        let x = w.skip(lead_ws(w) as int);
        assert(x.take(word_len(x) as int) =~= t.subrange(c as int, d as int));
    }
    let second = if c < line.len() {
        Some(slice_chars(line, c, d))
    } else {
        None
    };
    (first, second)
}

/// The hash `SHA256SUMS` lists for an asset (`sum_lookup` over the lines of
/// the text): unlisted assets and lines without a hash are supply-chain
/// errors.
pub fn parse_sum_text(text_in: &str, asset: &str) -> (r: Result<String, CliError>)
    ensures
        match sum_lookup(split_lines(text_in@), asset@) {
            None => r matches Err(e) && e@ == CliErrorView::SupplyChain(asset@ + " not listed in SHA256SUMS"@),
            Some(None) => r matches Err(e) && e@ == CliErrorView::SupplyChain("SHA256SUMS missing hash"@),
            Some(Some(h)) => r matches Ok(s) && s@ == h,
        },
{
    let v = text::chars_of(text_in);
    let a = text::chars_of(asset);
    let ghost t = v@;
    let mut pos: usize = 0;
    assert(t.skip(0) =~= t);
    while pos < v.len()
        invariant
            t == v@,
            a@ == asset@,
            t == text_in@,
            pos <= t.len(),
            sum_lookup(split_lines(t.skip(pos as int)), a@) == sum_lookup(split_lines(t), a@),
        decreases t.len() - pos,
    {
        let mut end = pos;
        while end < v.len() && v[end] != '\n'
            invariant
                pos <= end <= t.len(),
                t == v@,
                forall|j: int| pos <= j < end ==> t[j] != '\n',
            decreases t.len() - end,
        {
            end = end + 1;
        }
        let ghost rest = t.skip(pos as int);
        let ghost k = end - pos;
        proof {
            lemma_newline_at(rest);
            assert forall|j: int| 0 <= j < k implies rest[j] != '\n' by {
                assert(rest[j] == t[pos + j]);
            }
            if end < t.len() {
                assert(rest[k] == '\n');
                match newline_at(rest) {
                    Some(i) => {
                        if i < k {
                            assert(rest[i] == t[pos + i]);
                        }
                        if i > k {
                            assert(rest[k] != '\n');
                        }
                    },
                    None => {
                        assert(rest[k] != '\n');
                    },
                }
            } else {
                match newline_at(rest) {
                    Some(i) => {
                        assert(rest[i] == t[pos + i]);
                    },
                    None => {},
                }
            }
        }
        let mut line = slice_chars(&v, pos, end);
        let terminated = end < v.len();
        if terminated && line.len() > 0 && line[line.len() - 1] == '\r' {
            let ghost before = line@;
            line.pop();
            assert(line@ =~= before.drop_last());
        }
        let (w1, w2) = two_words(&line);
        proof {
            if terminated {
                assert(newline_at(rest) == Some(k));
                assert(rest.take(k) =~= t.subrange(pos as int, end as int));
                assert(rest.skip(k + 1) =~= t.skip(end + 1));
                assert(split_lines(rest) == seq![strip_cr(rest.take(k))] + split_lines(rest.skip(k + 1)));
                assert(line@ == strip_cr(rest.take(k)));
            } else {
                assert(newline_at(rest) is None);
                assert(rest =~= t.subrange(pos as int, end as int));
                assert(split_lines(rest) == seq![rest]);
                assert(line@ == rest);
            }
            let ls = split_lines(rest);
            assert(ls[0] == line@);
        }
        let hit = match &w2 {
            Some(w) => text::seq_eq(w, &a),
            None => false,
        };
        if hit {
            return match w1 {
                Some(h) => Ok(text::string_of(&h)),
                None => Err(CliError::supply("SHA256SUMS missing hash")),
            };
        }
        proof {
            let ls = split_lines(rest);
            assert(sum_lookup(ls, a@) == sum_lookup(ls.drop_first(), a@));
            if terminated {
                assert(ls.drop_first() =~= split_lines(t.skip(end + 1)));
            } else {
                assert(ls.drop_first() =~= Seq::<Seq<char>>::empty());
                assert(t.skip(t.len() as int) =~= Seq::<char>::empty());
            }
        }
        if terminated {
            pos = end + 1;
        } else {
            pos = end;
        }
    }
    proof {
        assert(t.skip(pos as int) =~= Seq::<char>::empty());
    }
    Err(CliError::SupplyChain(text::cat(asset, " not listed in SHA256SUMS")))
}

/// The hash `SHA256SUMS` lists for an asset, reading the file's bytes as
/// `String::from_utf8_lossy` does (`parse_sum_text`).
pub fn parse_sum(sums: &[u8], asset: &str) -> (r: Result<String, CliError>)
    ensures
        match sum_lookup(split_lines(crate::parse::lossy_text(sums@)), asset@) {
            None => r matches Err(e) && e@ == CliErrorView::SupplyChain(asset@ + " not listed in SHA256SUMS"@),
            Some(None) => r matches Err(e) && e@ == CliErrorView::SupplyChain("SHA256SUMS missing hash"@),
            Some(Some(h)) => r matches Ok(s) && s@ == h,
        },
{
    let t = crate::parse::utf8_lossy(sums);
    parse_sum_text(t.as_str(), asset)
}

/// The downloaded asset's digest against the listed one: a mismatch
/// refuses the upgrade.
pub fn check_sum(asset: &str, expected: &str, actual: &str) -> (r: Result<(), CliError>)
    ensures
        expected@ == actual@ ==> r is Ok,
        expected@ != actual@ ==> (r matches Err(e) && e@ == CliErrorView::SupplyChain(
            "checksum mismatch for "@ + asset@ + "\n  expected sha256: "@ + expected@
                + "\n  actual   sha256: "@ + actual@
                + "\nrefusing to replace the binary\nhint: download the release from GitHub by hand and verify\n      gh attestation verify ./mcp-gateway --owner Fetch-Hive"@,
        )),
{
    if text::str_eq(expected, actual) {
        return Ok(());
    }
    let a = text::cat3("checksum mismatch for ", asset, "\n  expected sha256: ");
    let b = text::cat3(a.as_str(), expected, "\n  actual   sha256: ");
    let c = text::cat3(
        b.as_str(),
        actual,
        "\nrefusing to replace the binary\nhint: download the release from GitHub by hand and verify\n      gh attestation verify ./mcp-gateway --owner Fetch-Hive",
    );
    Err(CliError::SupplyChain(c))
}

} // verus!
