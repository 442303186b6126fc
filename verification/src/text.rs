//! Character and string helpers shared by the name, path and header logic.
//!
//! Strings are modelled by their character sequences (`s@`). The helpers here
//! read a `&str` into a `Vec<char>`, build a `String` from characters, and give
//! the ASCII and Unicode-whitespace predicates that the rest of the crate uses.
use vstd::prelude::*;

verus! {

/// ASCII upper-case letter.
pub open spec fn is_upper(c: char) -> bool {
    'A' <= c && c <= 'Z'
}

/// ASCII lower-case letter.
pub open spec fn is_lower(c: char) -> bool {
    'a' <= c && c <= 'z'
}

/// ASCII decimal digit.
pub open spec fn is_digit(c: char) -> bool {
    '0' <= c && c <= '9'
}

/// ASCII letter or digit.
pub open spec fn is_alnum(c: char) -> bool {
    is_upper(c) || is_lower(c) || is_digit(c)
}

/// A character in the 7-bit ASCII range.
pub open spec fn is_ascii_char(c: char) -> bool {
    (c as u32) < 128
}

/// Unicode `White_Space`, the property that `char::is_whitespace` and `str::trim` use.
pub open spec fn is_ws(c: char) -> bool {
    let n = c as u32;
    (0x09 <= n && n <= 0x0D) || n == 0x20 || n == 0x85 || n == 0xA0 || n == 0x1680 || (0x2000
        <= n && n <= 0x200A) || n == 0x2028 || n == 0x2029 || n == 0x202F || n == 0x205F || n
        == 0x3000
}

/// The ASCII lower-case form of a character; other characters are unchanged.
pub open spec fn lower(c: char) -> char {
    if is_upper(c) {
        ((c as u32) + 32) as char
    } else {
        c
    }
}

/// The ASCII upper-case form of a character; other characters are unchanged.
pub open spec fn upper(c: char) -> char {
    if is_lower(c) {
        ((c as u32) - 32) as char
    } else {
        c
    }
}

/// ASCII lower-casing of a whole sequence.
pub open spec fn lower_seq(s: Seq<char>) -> Seq<char> {
    Seq::new(s.len(), |i: int| lower(s[i]))
}

/// ASCII upper-casing of a whole sequence.
pub open spec fn upper_seq(s: Seq<char>) -> Seq<char> {
    Seq::new(s.len(), |i: int| upper(s[i]))
}

/// The two character classes that the crate trims: Unicode whitespace (`ws`)
/// and the name separators `_`, `-`, `.` (otherwise).
pub open spec fn in_class(c: char, ws: bool) -> bool {
    if ws {
        is_ws(c)
    } else {
        is_sep(c)
    }
}

/// A name separator: `_`, `-` or `.`.
pub open spec fn is_sep(c: char) -> bool {
    c == '_' || c == '-' || c == '.'
}

/// `s` with leading characters of the class removed.
pub open spec fn trim_start_cls(s: Seq<char>, ws: bool) -> Seq<char>
    decreases s.len(),
{
    if s.len() > 0 && in_class(s[0], ws) {
        trim_start_cls(s.drop_first(), ws)
    } else {
        s
    }
}

/// `s` with trailing characters of the class removed.
pub open spec fn trim_end_cls(s: Seq<char>, ws: bool) -> Seq<char>
    decreases s.len(),
{
    if s.len() > 0 && in_class(s.last(), ws) {
        trim_end_cls(s.drop_last(), ws)
    } else {
        s
    }
}

/// Both ends stripped of characters of the class.
pub open spec fn trim_cls(s: Seq<char>, ws: bool) -> Seq<char> {
    trim_end_cls(trim_start_cls(s, ws), ws)
}

/// `str::trim`: both ends stripped of Unicode whitespace.
pub open spec fn trim_ws(s: Seq<char>) -> Seq<char> {
    trim_cls(s, true)
}

/// Both ends stripped of `_`, `-` and `.`.
pub open spec fn trim_sep(s: Seq<char>) -> Seq<char> {
    trim_cls(s, false)
}

/// `s` starts with `p`.
pub open spec fn has_prefix(s: Seq<char>, p: Seq<char>) -> bool {
    p.len() <= s.len() && s.subrange(0, p.len() as int) == p
}

/// `s` ends with `p`.
pub open spec fn has_suffix(s: Seq<char>, p: Seq<char>) -> bool {
    p.len() <= s.len() && s.subrange(s.len() - p.len(), s.len() as int) == p
}

/// `s` contains `p` as a contiguous piece.
pub open spec fn contains_seq(s: Seq<char>, p: Seq<char>) -> bool {
    exists|i: int| 0 <= i && i + p.len() <= s.len() && #[trigger] s.subrange(i, i + p.len()) == p
}

pub fn to_lower(c: char) -> (r: char)
    ensures
        r == lower(c),
{
    if 'A' <= c && c <= 'Z' {
        let n: u32 = (c as u32) + 32;
        (n as u8) as char
    } else {
        c
    }
}

pub fn to_upper(c: char) -> (r: char)
    ensures
        r == upper(c),
{
    if 'a' <= c && c <= 'z' {
        let n: u32 = (c as u32) - 32;
        (n as u8) as char
    } else {
        c
    }
}

pub fn is_ws_char(c: char) -> (r: bool)
    ensures
        r == is_ws(c),
{
    let n: u32 = c as u32;
    (0x09 <= n && n <= 0x0D) || n == 0x20 || n == 0x85 || n == 0xA0 || n == 0x1680 || (0x2000
        <= n && n <= 0x200A) || n == 0x2028 || n == 0x2029 || n == 0x202F || n == 0x205F || n
        == 0x3000
}

/// Appends one character to a string (`String::push`).
#[verifier::external_body]
pub(crate) fn push_char(s: &mut String, c: char)
    ensures
        final(s)@ == old(s)@.push(c),
{
    s.push(c);
}

/// The characters of a string, in order.
pub fn chars_of(s: &str) -> (v: Vec<char>)
    ensures
        v@ == s@,
{
    let n = s.unicode_len();
    let mut v: Vec<char> = Vec::new();
    let mut i: usize = 0;
    while i < n
        invariant
            n == s@.len(),
            i <= n,
            v@ == s@.subrange(0, i as int),
        decreases n - i,
    {
        v.push(s.get_char(i));
        i = i + 1;
    }
    assert(v@ =~= s@);
    v
}

/// A string made of the given characters.
pub fn string_of(v: &Vec<char>) -> (s: String)
    ensures
        s@ == v@,
{
    let mut s = String::new();
    let mut i: usize = 0;
    while i < v.len()
        invariant
            i <= v.len(),
            s@ == v@.subrange(0, i as int),
        decreases v.len() - i,
    {
        push_char(&mut s, v[i]);
        assert(v@.subrange(0, i + 1) =~= v@.subrange(0, i as int).push(v@[i as int]));
        i = i + 1;
    }
    assert(v@.subrange(0, v.len() as int) =~= v@);
    s
}

/// A copy of a string slice as an owned `String`.
pub fn owned(s: &str) -> (r: String)
    ensures
        r@ == s@,
{
    String::from_str(s)
}

/// Character-sequence equality of two slices.
pub fn str_eq(a: &str, b: &str) -> (r: bool)
    ensures
        r == (a@ == b@),
{
    let va = chars_of(a);
    let vb = chars_of(b);
    seq_eq(&va, &vb)
}

/// Equality of two character vectors.
pub fn seq_eq(a: &Vec<char>, b: &Vec<char>) -> (r: bool)
    ensures
        r == (a@ == b@),
{
    if a.len() != b.len() {
        return false;
    }
    let mut i: usize = 0;
    while i < a.len()
        invariant
            a.len() == b.len(),
            i <= a.len(),
            forall|j: int| 0 <= j < i ==> a@[j] == b@[j],
        decreases a.len() - i,
    {
        if a[i] != b[i] {
            return false;
        }
        i = i + 1;
    }
    assert(a@ =~= b@);
    true
}

/// Whether the character vector `s` starts with `p`.
pub fn vec_has_prefix(s: &Vec<char>, p: &Vec<char>) -> (r: bool)
    ensures
        r == has_prefix(s@, p@),
{
    if p.len() > s.len() {
        return false;
    }
    let mut i: usize = 0;
    while i < p.len()
        invariant
            p.len() <= s.len(),
            i <= p.len(),
            forall|j: int| 0 <= j < i ==> s@[j] == p@[j],
        decreases p.len() - i,
    {
        if s[i] != p[i] {
            assert(s@.subrange(0, p.len() as int)[i as int] != p@[i as int]);
            return false;
        }
        i = i + 1;
    }
    assert(s@.subrange(0, p.len() as int) =~= p@);
    true
}

/// Whether the character vector `s` ends with `p`.
pub fn vec_has_suffix(s: &Vec<char>, p: &Vec<char>) -> (r: bool)
    ensures
        r == has_suffix(s@, p@),
{
    if p.len() > s.len() {
        return false;
    }
    let off: usize = s.len() - p.len();
    let mut i: usize = 0;
    while i < p.len()
        invariant
            p.len() <= s.len(),
            off == s.len() - p.len(),
            i <= p.len(),
            forall|j: int| 0 <= j < i ==> s@[off + j] == p@[j],
        decreases p.len() - i,
    {
        if s[off + i] != p[i] {
            assert(s@.subrange(off as int, s.len() as int)[i as int] != p@[i as int]);
            return false;
        }
        i = i + 1;
    }
    assert(s@.subrange(off as int, s.len() as int) =~= p@);
    true
}

/// Whether `p` occurs in `s`.
pub fn vec_contains(s: &Vec<char>, p: &Vec<char>) -> (r: bool)
    ensures
        r == contains_seq(s@, p@),
{
    if p.len() > s.len() {
        return false;
    }
    let mut i: usize = 0;
    while i <= s.len() - p.len()
        invariant
            p.len() <= s.len(),
            forall|k: int| 0 <= k < i ==> #[trigger] s@.subrange(k, k + p.len()) != p@,
        decreases s.len() - i,
    {
        let mut j: usize = 0;
        let mut ok = true;
        while j < p.len()
            invariant
                i + p.len() <= s.len(),
                j <= p.len(),
                ok == (forall|t: int| 0 <= t < j ==> s@[i + t] == p@[t]),
            decreases p.len() - j,
        {
            if s[i + j] != p[j] {
                ok = false;
            }
            j = j + 1;
        }
        if ok {
            assert(s@.subrange(i as int, i + p.len()) =~= p@);
            return true;
        } else {
            assert(s@.subrange(i as int, i + p.len()) != p@) by {
                let t = choose|t: int| 0 <= t < p.len() && s@[i + t] != p@[t];
                assert(s@.subrange(i as int, i + p.len())[t] == s@[i + t]);
            }
        }
        i = i + 1;
    }
    assert forall|k: int| 0 <= k && k + p@.len() <= s@.len() implies #[trigger] s@.subrange(
        k,
        k + p@.len(),
    ) != p@ by {
        assert(k < i);
    }
    false
}

/// `str::trim`: the slice with leading and trailing Unicode whitespace removed.
pub fn trim(s: &str) -> (r: Vec<char>)
    ensures
        r@ == trim_ws(s@),
{
    let v = chars_of(s);
    trim_vec(&v, true)
}

pub fn in_class_exec(c: char, ws: bool) -> (r: bool)
    ensures
        r == in_class(c, ws),
{
    if ws {
        is_ws_char(c)
    } else {
        c == '_' || c == '-' || c == '.'
    }
}

proof fn lemma_trim_start_skip(s: Seq<char>, i: int, ws: bool)
    requires
        0 <= i <= s.len(),
        forall|j: int| 0 <= j < i ==> in_class(s[j], ws),
    ensures
        trim_start_cls(s, ws) == trim_start_cls(s.subrange(i, s.len() as int), ws),
    decreases i,
{
    if i > 0 {
        assert(in_class(s[0], ws));
        let t = s.drop_first();
        assert forall|j: int| 0 <= j < i - 1 implies in_class(t[j], ws) by {
            assert(t[j] == s[j + 1]);
        }
        lemma_trim_start_skip(t, i - 1, ws);
        assert(t.subrange(i - 1, t.len() as int) =~= s.subrange(i, s.len() as int));
    } else {
        assert(s.subrange(0, s.len() as int) =~= s);
    }
}

proof fn lemma_trim_end_skip(s: Seq<char>, e: int, ws: bool)
    requires
        0 <= e <= s.len(),
        forall|j: int| e <= j < s.len() ==> in_class(s[j], ws),
    ensures
        trim_end_cls(s, ws) == trim_end_cls(s.subrange(0, e), ws),
    decreases s.len() - e,
{
    if e < s.len() {
        assert(in_class(s.last(), ws));
        let t = s.drop_last();
        lemma_trim_end_skip(t, e, ws);
        assert(t.subrange(0, e) =~= s.subrange(0, e));
    } else {
        assert(s.subrange(0, e) =~= s);
    }
}

/// Trimming a character class from both ends of a character vector.
pub fn trim_vec(v: &Vec<char>, ws: bool) -> (r: Vec<char>)
    ensures
        r@ == trim_cls(v@, ws),
{
    let mut a: usize = 0;
    while a < v.len() && in_class_exec(v[a], ws)
        invariant
            a <= v.len(),
            forall|j: int| 0 <= j < a ==> in_class(v@[j], ws),
        decreases v.len() - a,
    {
        a = a + 1;
    }
    proof {
        lemma_trim_start_skip(v@, a as int, ws);
    }
    let ghost mid = v@.subrange(a as int, v@.len() as int);
    assert(trim_start_cls(mid, ws) == mid) by {
        if mid.len() > 0 {
            assert(mid[0] == v@[a as int]);
        }
    }
    let mut e: usize = v.len();
    while e > a && in_class_exec(v[e - 1], ws)
        invariant
            a <= e <= v.len(),
            forall|j: int| e <= j < v.len() ==> in_class(v@[j], ws),
        decreases e,
    {
        e = e - 1;
    }
    proof {
        let m = mid;
        assert forall|j: int| e - a <= j < m.len() implies in_class(m[j], ws) by {
            assert(m[j] == v@[a + j]);
        }
        lemma_trim_end_skip(m, e - a, ws);
        let k = m.subrange(0, e - a);
        if k.len() > 0 {
            assert(k.last() == v@[e - 1]);
        }
        assert(trim_end_cls(k, ws) == k);
        assert(k =~= v@.subrange(a as int, e as int));
    }
    let mut r: Vec<char> = Vec::new();
    let mut i: usize = a;
    while i < e
        invariant
            a <= i <= e <= v.len(),
            r@ == v@.subrange(a as int, i as int),
        decreases e - i,
    {
        r.push(v[i]);
        assert(v@.subrange(a as int, i + 1) =~= v@.subrange(a as int, i as int).push(v@[i as int]));
        i = i + 1;
    }
    r
}

/// Trimming keeps a contiguous piece whose ends are outside the class.
pub proof fn lemma_trim_shape(s: Seq<char>, ws: bool)
    ensures
        exists|a: int, b: int|
            0 <= a <= b <= s.len() && trim_cls(s, ws) == s.subrange(a, b) && (a < b ==> !in_class(
                s[a],
                ws,
            ) && !in_class(s[b - 1], ws)),
{
    let (a, t) = lemma_trim_start_shape(s, ws);
    let b = lemma_trim_end_shape(t, ws);
    assert(t.subrange(0, b) =~= s.subrange(a, a + b));
    if b > 0 {
        assert(s[a] == t[0]);
        assert(s[a + b - 1] == t[b - 1]);
    }
    assert(0 <= a <= a + b <= s.len() && trim_cls(s, ws) == s.subrange(a, a + b));
}

proof fn lemma_trim_start_shape(s: Seq<char>, ws: bool) -> (r: (int, Seq<char>))
    ensures
        0 <= r.0 <= s.len(),
        r.1 == s.subrange(r.0, s.len() as int),
        trim_start_cls(s, ws) == r.1,
        r.1.len() > 0 ==> !in_class(r.1[0], ws),
    decreases s.len(),
{
    if s.len() > 0 && in_class(s[0], ws) {
        let (a, t) = lemma_trim_start_shape(s.drop_first(), ws);
        assert(s.drop_first().subrange(a, s.len() - 1) =~= s.subrange(a + 1, s.len() as int));
        (a + 1, t)
    } else {
        assert(s.subrange(0, s.len() as int) =~= s);
        (0, s)
    }
}

proof fn lemma_trim_end_shape(s: Seq<char>, ws: bool) -> (b: int)
    ensures
        0 <= b <= s.len(),
        trim_end_cls(s, ws) == s.subrange(0, b),
        b > 0 ==> !in_class(s[b - 1], ws),
    decreases s.len(),
{
    if s.len() > 0 && in_class(s.last(), ws) {
        let b = lemma_trim_end_shape(s.drop_last(), ws);
        assert(s.drop_last().subrange(0, b) =~= s.subrange(0, b));
        b
    } else {
        assert(s.subrange(0, s.len() as int) =~= s);
        s.len() as int
    }
}

/// A sequence whose ends are outside the class is its own trim.
pub proof fn lemma_trim_noop(s: Seq<char>, ws: bool)
    requires
        s.len() > 0 ==> !in_class(s[0], ws) && !in_class(s.last(), ws),
    ensures
        trim_cls(s, ws) == s,
{
}

} // verus!
verus! {

/// The pieces of `s` between occurrences of `sep`, reading `s` after the
/// partial piece `cur`.
pub open spec fn split_scan(s: Seq<char>, sep: char, cur: Seq<char>) -> Seq<Seq<char>>
    decreases s.len(),
{
    if s.len() == 0 {
        seq![cur]
    } else if s[0] == sep {
        seq![cur] + split_scan(s.drop_first(), sep, Seq::empty())
    } else {
        split_scan(s.drop_first(), sep, cur.push(s[0]))
    }
}

/// `str::split(sep)`: the pieces of `s` between occurrences of `sep`
/// (one more piece than there are separators).
pub open spec fn split(s: Seq<char>, sep: char) -> Seq<Seq<char>> {
    split_scan(s, sep, Seq::empty())
}

pub open spec fn vec_views(v: Seq<Vec<char>>) -> Seq<Seq<char>> {
    v.map_values(|x: Vec<char>| x@)
}

/// `str::split(sep)` on a character vector.
pub fn split_vec(v: &Vec<char>, sep: char) -> (r: Vec<Vec<char>>)
    ensures
        vec_views(r@) == split(v@, sep),
{
    let mut done: Vec<Vec<char>> = Vec::new();
    let mut cur: Vec<char> = Vec::new();
    let mut i: usize = 0;
    assert(v@.skip(0) =~= v@);
    assert(vec_views(done@) + split_scan(v@, sep, cur@) =~= split(v@, sep));
    while i < v.len()
        invariant
            i <= v.len(),
            vec_views(done@) + split_scan(v@.skip(i as int), sep, cur@) == split(v@, sep),
        decreases v.len() - i,
    {
        let ghost rest = v@.skip(i as int);
        assert(rest[0] == v@[i as int]);
        assert(rest.drop_first() =~= v@.skip(i + 1));
        if v[i] == sep {
            let ghost old_done = vec_views(done@);
            let ghost c = cur@;
            done.push(cur);
            cur = Vec::new();
            assert(vec_views(done@) =~= old_done.push(c));
            assert(split_scan(rest, sep, c) == seq![c] + split_scan(
                rest.drop_first(),
                sep,
                Seq::empty(),
            ));
            assert(vec_views(done@) + split_scan(v@.skip(i + 1), sep, cur@) =~= old_done
                + split_scan(rest, sep, c));
        } else {
            cur.push(v[i]);
        }
        i = i + 1;
    }
    let ghost old_done = vec_views(done@);
    let ghost c = cur@;
    assert(split_scan(v@.skip(i as int), sep, c) == seq![c]);
    done.push(cur);
    assert(vec_views(done@) =~= old_done.push(c));
    done
}

} // verus!
verus! {

/// The digit character for a value below 16 (lower-case for 10..15).
pub open spec fn digit_char(d: nat) -> char {
    if d < 10 {
        ((d + 48) as u32) as char
    } else {
        ((d - 10 + 97) as u32) as char
    }
}

/// The representation of `n` in base `b` (2..16) without leading zeros; `0` for zero.
pub open spec fn radix_digits(n: nat, b: nat) -> Seq<char>
    recommends
        2 <= b <= 16,
    decreases n,
{
    if b < 2 || n < b {
        seq![digit_char(n % 16)]
    } else {
        proof {
            vstd::arithmetic::div_mod::lemma_div_decreases(n as int, b as int);
        }
        radix_digits(n / b, b).push(digit_char(n % b))
    }
}

/// Decimal representation (`{}` of an unsigned integer).
pub open spec fn dec_str(n: nat) -> Seq<char> {
    radix_digits(n, 10)
}

/// Lower-case hexadecimal representation (`{:x}` of an unsigned integer).
pub open spec fn hex_str(n: nat) -> Seq<char> {
    radix_digits(n, 16)
}

fn digit_char_exec(d: u64) -> (c: char)
    requires
        d < 16,
    ensures
        c == digit_char(d as nat),
{
    if d < 10 {
        ((d + 48) as u8) as char
    } else {
        ((d - 10 + 97) as u8) as char
    }
}

fn radix_vec(n: u64, b: u64) -> (r: Vec<char>)
    requires
        2 <= b <= 16,
    ensures
        r@ == radix_digits(n as nat, b as nat),
    decreases n,
{
    if n < b {
        let mut v = Vec::new();
        v.push(digit_char_exec(n));
        v
    } else {
        proof {
            vstd::arithmetic::div_mod::lemma_div_decreases(n as int, b as int);
        }
        let mut v = radix_vec(n / b, b);
        v.push(digit_char_exec(n % b));
        v
    }
}

/// The decimal form of `n` (`n.to_string()`).
pub fn dec_string(n: u64) -> (r: String)
    ensures
        r@ == dec_str(n as nat),
{
    let v = radix_vec(n, 10);
    string_of(&v)
}

/// Decimal digits as a character vector.
pub fn dec_vec(n: u64) -> (r: Vec<char>)
    ensures
        r@ == dec_str(n as nat),
{
    radix_vec(n, 10)
}

} // verus!
verus! {

/// Lower-case hexadecimal digits as a character vector.
pub fn hex_vec(n: u64) -> (r: Vec<char>)
    ensures
        r@ == hex_str(n as nat),
{
    radix_vec(n, 16)
}

/// Appends the characters of `b` to `out`.
pub fn append_chars(out: &mut Vec<char>, b: &Vec<char>)
    ensures
        final(out)@ == old(out)@ + b@,
{
    let mut k: usize = 0;
    let ghost before = out@;
    while k < b.len()
        invariant
            k <= b.len(),
            out@ == before + b@.take(k as int),
        decreases b.len() - k,
    {
        out.push(b[k]);
        assert(b@.take(k + 1) =~= b@.take(k as int).push(b@[k as int]));
        k = k + 1;
    }
    assert(b@.take(b.len() as int) =~= b@);
}

/// Appends the characters of a string slice to `out`.
pub fn append_str(out: &mut Vec<char>, s: &str)
    ensures
        final(out)@ == old(out)@ + s@,
{
    let b = chars_of(s);
    append_chars(out, &b);
}

} // verus!
verus! {

/// ASCII lower-casing of a character vector (`to_ascii_lowercase`).
pub fn lower_vec(v: &Vec<char>) -> (r: Vec<char>)
    ensures
        r@ == lower_seq(v@),
{
    let mut r: Vec<char> = Vec::new();
    let mut i: usize = 0;
    while i < v.len()
        invariant
            i <= v.len(),
            r@ =~= lower_seq(v@).take(i as int),
        decreases v.len() - i,
    {
        r.push(to_lower(v[i]));
        i = i + 1;
    }
    assert(r@ =~= lower_seq(v@));
    r
}

/// `a` followed by `b`.
pub fn cat(a: &str, b: &str) -> (r: String)
    ensures
        r@ == a@ + b@,
{
    let mut s = a.to_owned();
    s.append(b);
    s
}

/// `a`, `b` and `c` in turn.
pub fn cat3(a: &str, b: &str, c: &str) -> (r: String)
    ensures
        r@ == a@ + b@ + c@,
{
    let mut s = a.to_owned();
    s.append(b);
    s.append(c);
    s
}

} // verus!
