//! IP addresses: which addresses outbound requests must not reach, and the
//! calls into std that read an address from text and write it back.
use vstd::prelude::*;
use crate::text;

verus! {

/// An IPv4 or IPv6 address as its network-order octets.
#[derive(Debug, Clone, Copy, PartialEq, Eq)]
pub enum IpAddress {
    V4([u8; 4]),
    V6([u8; 16]),
}

/// An address as (is IPv4, octets).
pub open spec fn ip_view(ip: IpAddress) -> (bool, Seq<u8>) {
    match ip {
        IpAddress::V4(a) => (true, a@),
        IpAddress::V6(a) => (false, a@),
    }
}

pub open spec fn opt_ip_view(o: Option<IpAddress>) -> Option<(bool, Seq<u8>)> {
    match o {
        Some(ip) => Some(ip_view(ip)),
        None => None,
    }
}

/// RFC 1918 private IPv4 ranges (`Ipv4Addr::is_private`).
pub open spec fn is_private_v4(o: Seq<u8>) -> bool {
    o[0] == 10 || (o[0] == 172 && 16 <= o[1] <= 31) || (o[0] == 192 && o[1] == 168)
}

/// IPv4 addresses that are always refused: loopback, link-local (cloud
/// metadata among them), multicast, broadcast, unspecified and `0.0.0.0/8`;
/// private ranges too unless they are allowed.
pub open spec fn blocked_v4(o: Seq<u8>, allow_private: bool) -> bool {
    if o[0] == 127 || (o[0] == 169 && o[1] == 254) || (224 <= o[0] <= 239) || (o[0] == 255
        && o[1] == 255 && o[2] == 255 && o[3] == 255) || (o[0] == 0 && o[1] == 0 && o[2] == 0
        && o[3] == 0) || (o[0] == 169 && o[1] == 254 && o[2] == 169 && o[3] == 254) || o[0]
        == 0 {
        true
    } else if allow_private {
        false
    } else {
        is_private_v4(o)
    }
}

pub open spec fn first_n_zero(o: Seq<u8>, n: int) -> bool {
    forall|i: int| 0 <= i < n ==> #[trigger] o[i] == 0
}

/// The IPv4 address inside an IPv4-mapped (`::ffff:a.b.c.d`) or
/// IPv4-compatible (`::a.b.c.d`) IPv6 address.
pub open spec fn embedded_v4(o: Seq<u8>) -> Option<Seq<u8>> {
    if (first_n_zero(o, 10) && o[10] == 0xff && o[11] == 0xff) || first_n_zero(o, 12) {
        Some(o.subrange(12, 16))
    } else {
        None
    }
}

/// `fd00:ec2::254`, the IPv6 address of the AWS metadata service.
pub open spec fn is_v6_metadata(o: Seq<u8>) -> bool {
    o[0] == 0xfd && o[1] == 0 && o[2] == 0x0e && o[3] == 0xc2 && (forall|i: int|
        4 <= i < 14 ==> #[trigger] o[i] == 0) && o[14] == 0x02 && o[15] == 0x54
}

/// IPv6 addresses that are refused: embedded IPv4 addresses as IPv4, loopback,
/// multicast, unspecified, link-local (`fe80::/10`), the metadata address;
/// unique-local (`fc00::/7`) too unless private networks are allowed.
pub open spec fn blocked_v6(o: Seq<u8>, allow_private: bool) -> bool {
    if embedded_v4(o) is Some {
        blocked_v4(embedded_v4(o)->0, allow_private)
    } else if (first_n_zero(o, 15) && o[15] == 1) || o[0] == 0xff || first_n_zero(o, 16) || (o[0]
        == 0xfe && 0x80 <= o[1] <= 0xbf) || is_v6_metadata(o) {
        true
    } else if allow_private {
        false
    } else {
        o[0] == 0xfc || o[0] == 0xfd
    }
}

pub open spec fn blocked_ip(ip: IpAddress, allow_private: bool) -> bool {
    match ip {
        IpAddress::V4(a) => blocked_v4(a@, allow_private),
        IpAddress::V6(a) => blocked_v6(a@, allow_private),
    }
}

fn is_blocked_v4(o: &[u8; 4], allow_private: bool) -> (r: bool)
    ensures
        r == blocked_v4(o@, allow_private),
{
    let a = o[0];
    let b = o[1];
    let c = o[2];
    let d = o[3];
    if a == 127 || (a == 169 && b == 254) || (224 <= a && a <= 239) || (a == 255 && b == 255 && c
        == 255 && d == 255) || (a == 0 && b == 0 && c == 0 && d == 0) || (a == 169 && b == 254
        && c == 169 && d == 254) || a == 0 {
        return true;
    }
    if allow_private {
        return false;
    }
    a == 10 || (a == 172 && 16 <= b && b <= 31) || (a == 192 && b == 168)
}

fn zeros_upto(o: &[u8; 16], n: usize) -> (r: bool)
    requires
        n <= 16,
    ensures
        r == first_n_zero(o@, n as int),
{
    let mut i: usize = 0;
    while i < n
        invariant
            i <= n <= 16,
            first_n_zero(o@, i as int),
        decreases n - i,
    {
        if o[i] != 0 {
            return false;
        }
        i = i + 1;
    }
    true
}

fn is_blocked_v6(o: &[u8; 16], allow_private: bool) -> (r: bool)
    ensures
        r == blocked_v6(o@, allow_private),
{
    if (zeros_upto(o, 10) && o[10] == 0xff && o[11] == 0xff) || zeros_upto(o, 12) {
        let v4: [u8; 4] = [o[12], o[13], o[14], o[15]];
        assert(v4@ =~= o@.subrange(12, 16));
        return is_blocked_v4(&v4, allow_private);
    }
    let meta = o[0] == 0xfd && o[1] == 0 && o[2] == 0x0e && o[3] == 0xc2 && o[4] == 0 && o[5] == 0
        && o[6] == 0 && o[7] == 0 && o[8] == 0 && o[9] == 0 && o[10] == 0 && o[11] == 0 && o[12]
        == 0 && o[13] == 0 && o[14] == 0x02 && o[15] == 0x54;
    assert(meta == is_v6_metadata(o@)) by {
        if is_v6_metadata(o@) {
            assert(o@[4] == 0 && o@[5] == 0 && o@[6] == 0 && o@[7] == 0 && o@[8] == 0);
            assert(o@[9] == 0 && o@[10] == 0 && o@[11] == 0 && o@[12] == 0 && o@[13] == 0);
        }
    }
    if (zeros_upto(o, 15) && o[15] == 1) || o[0] == 0xff || zeros_upto(o, 16) || (o[0] == 0xfe
        && 0x80 <= o[1] && o[1] <= 0xbf) || meta {
        return true;
    }
    if allow_private {
        return false;
    }
    o[0] == 0xfc || o[0] == 0xfd
}

/// Whether outbound requests must not reach this address (`blocked_ip`).
pub fn is_blocked_address(ip: IpAddress, allow_private: bool) -> (r: bool)
    ensures
        r == blocked_ip(ip, allow_private),
{
    match ip {
        IpAddress::V4(a) => is_blocked_v4(&a, allow_private),
        IpAddress::V6(a) => is_blocked_v6(&a, allow_private),
    }
}

} // verus!
verus! {

// ---------------------------------------------------------------------------
// Reading an address from text, with the grammar of `IpAddr::from_str`.
// ---------------------------------------------------------------------------

pub open spec fn digit_val(c: char) -> nat {
    ((c as u32) - ('0' as u32)) as nat
}

/// The value of a string of decimal digits.
pub open spec fn dec_value(s: Seq<char>) -> nat
    decreases s.len(),
{
    if s.len() == 0 {
        0
    } else {
        dec_value(s.drop_last()) * 10 + digit_val(s.last())
    }
}

pub open spec fn all_digits(s: Seq<char>) -> bool {
    forall|i: int| 0 <= i < s.len() ==> text::is_digit(#[trigger] s[i])
}

/// One part of a dotted IPv4 address: one to three digits, no leading zero
/// unless the part is `0`, at most 255.
pub open spec fn valid_v4_part(p: Seq<char>) -> bool {
    1 <= p.len() <= 3 && all_digits(p) && (p.len() == 1 || p[0] != '0') && dec_value(p) <= 255
}

/// An IPv4 address in dotted-decimal form: four valid parts separated by dots.
pub open spec fn parse_ipv4_spec(s: Seq<char>) -> Option<Seq<u8>> {
    let ps = text::split(s, '.');
    if ps.len() == 4 && (forall|i: int| 0 <= i < 4 ==> valid_v4_part(#[trigger] ps[i])) {
        Some(
            seq![
                dec_value(ps[0]) as u8,
                dec_value(ps[1]) as u8,
                dec_value(ps[2]) as u8,
                dec_value(ps[3]) as u8,
            ],
        )
    } else {
        None
    }
}

pub open spec fn is_hex(c: char) -> bool {
    text::is_digit(c) || ('a' <= c && c <= 'f') || ('A' <= c && c <= 'F')
}

pub open spec fn hex_val(c: char) -> nat {
    if text::is_digit(c) {
        digit_val(c)
    } else if 'a' <= c && c <= 'f' {
        ((c as u32) - ('a' as u32) + 10) as nat
    } else {
        ((c as u32) - ('A' as u32) + 10) as nat
    }
}

/// The value of a string of hexadecimal digits.
pub open spec fn hex_value(s: Seq<char>) -> nat
    decreases s.len(),
{
    if s.len() == 0 {
        0
    } else {
        hex_value(s.drop_last()) * 16 + hex_val(s.last())
    }
}

/// One group of an IPv6 address: one to four hexadecimal digits.
pub open spec fn valid_hex_group(p: Seq<char>) -> bool {
    1 <= p.len() <= 4 && forall|i: int| 0 <= i < p.len() ==> is_hex(#[trigger] p[i])
}

/// A group or, where allowed, a trailing dotted IPv4 address.
pub open spec fn valid_v6_elem(p: Seq<char>, ipv4_ok: bool) -> bool {
    valid_hex_group(p) || (ipv4_ok && parse_ipv4_spec(p) is Some)
}

pub open spec fn v6_elem_bytes(p: Seq<char>) -> Seq<u8> {
    if valid_hex_group(p) {
        seq![(hex_value(p) / 256) as u8, (hex_value(p) % 256) as u8]
    } else {
        parse_ipv4_spec(p)->0
    }
}

/// A non-empty `:`-separated list of groups, where only the last element may
/// be an IPv4 address, and only if `ipv4_last` holds.
pub open spec fn valid_v6_list(ps: Seq<Seq<char>>, ipv4_last: bool) -> bool {
    ps.len() > 0 && forall|i: int|
        0 <= i < ps.len() ==> valid_v6_elem(#[trigger] ps[i], ipv4_last && i == ps.len() - 1)
}

/// The octets of a list of groups, in order.
pub open spec fn v6_list_bytes(ps: Seq<Seq<char>>) -> Seq<u8>
    decreases ps.len(),
{
    if ps.len() == 0 {
        Seq::empty()
    } else {
        v6_list_bytes(ps.drop_last()) + v6_elem_bytes(ps.last())
    }
}

/// `::` at position `i`.
pub open spec fn dc_at(s: Seq<char>, i: int) -> bool {
    0 <= i < s.len() - 1 && s[i] == ':' && s[i + 1] == ':'
}

pub open spec fn has_dc(s: Seq<char>) -> bool {
    exists|i: int| dc_at(s, i)
}

/// `i` is the position of the first `::`.
pub open spec fn first_dc(s: Seq<char>, i: int) -> bool {
    dc_at(s, i) && forall|j: int| 0 <= j < i ==> !dc_at(s, j)
}

/// One side of a `::`: empty, or a valid list of groups.
pub open spec fn side_ok(side: Seq<char>, ipv4_last: bool) -> bool {
    side.len() == 0 || valid_v6_list(text::split(side, ':'), ipv4_last)
}

/// The octets of one side of a `::`; the empty side has none.
pub open spec fn side_bytes(side: Seq<char>) -> Seq<u8> {
    if side.len() == 0 {
        Seq::empty()
    } else {
        v6_list_bytes(text::split(side, ':'))
    }
}

/// An IPv6 address: either eight groups (an IPv4 address counting for two,
/// and only at the end), or groups before and after a single `::` that stands
/// for at least one group of zeros (an IPv4 address only at the very end).
pub open spec fn parse_ipv6_spec(s: Seq<char>) -> Option<Seq<u8>> {
    if !has_dc(s) {
        let ps = text::split(s, ':');
        if valid_v6_list(ps, true) && v6_list_bytes(ps).len() == 16 {
            Some(v6_list_bytes(ps))
        } else {
            None
        }
    } else {
        let i = choose|i: int| first_dc(s, i);
        let head = s.take(i);
        let tail = s.skip(i + 2);
        if !has_dc(tail) && side_ok(head, false) && side_ok(tail, true) && side_bytes(head).len()
            + side_bytes(tail).len() <= 14 {
            Some(
                side_bytes(head) + Seq::new(
                    (16 - side_bytes(head).len() - side_bytes(tail).len()) as nat,
                    |k: int| 0u8,
                ) + side_bytes(tail),
            )
        } else {
            None
        }
    }
}

/// `IpAddr::from_str`: an IPv4 address (flag `true`), else an IPv6 address,
/// as its octets.
pub open spec fn parse_ip_spec(s: Seq<char>) -> Option<(bool, Seq<u8>)> {
    if parse_ipv4_spec(s) is Some {
        Some((true, parse_ipv4_spec(s)->0))
    } else if parse_ipv6_spec(s) is Some {
        Some((false, parse_ipv6_spec(s)->0))
    } else {
        None
    }
}

proof fn lemma_dec_step(s: Seq<char>, i: int)
    requires
        0 <= i < s.len(),
    ensures
        dec_value(s.take(i + 1)) == dec_value(s.take(i)) * 10 + digit_val(s[i]),
{
    assert(s.take(i + 1).drop_last() =~= s.take(i));
}

proof fn lemma_hex_step(s: Seq<char>, i: int)
    requires
        0 <= i < s.len(),
    ensures
        hex_value(s.take(i + 1)) == hex_value(s.take(i)) * 16 + hex_val(s[i]),
{
    assert(s.take(i + 1).drop_last() =~= s.take(i));
}

/// The value of one dotted-decimal part, if it is valid.
fn v4_part_value(p: &Vec<char>) -> (r: Option<u8>)
    ensures
        match r {
            Some(x) => valid_v4_part(p@) && x as nat == dec_value(p@),
            None => !valid_v4_part(p@),
        },
{
    let n = p.len();
    if n < 1 || n > 3 {
        return None;
    }
    if n > 1 && p[0] == '0' {
        return None;
    }
    let mut val: u32 = 0;
    let mut i: usize = 0;
    while i < n
        invariant
            n == p@.len(),
            1 <= n <= 3,
            i <= n,
            val as nat == dec_value(p@.take(i as int)),
            val < 1000,
            i == 0 ==> val == 0,
            i == 1 ==> val < 10,
            i == 2 ==> val < 100,
            forall|j: int| 0 <= j < i ==> text::is_digit(#[trigger] p@[j]),
        decreases n - i,
    {
        let c = p[i];
        if !('0' <= c && c <= '9') {
            assert(!all_digits(p@));
            return None;
        }
        proof {
            lemma_dec_step(p@, i as int);
        }
        let d: u32 = (c as u32) - ('0' as u32);
        val = val * 10 + d;
        i = i + 1;
    }
    assert(p@.take(n as int) =~= p@);
    if val > 255 {
        return None;
    }
    Some(val as u8)
}

/// A dotted-decimal IPv4 address, if the characters are one.
fn parse_v4(v: &Vec<char>) -> (r: Option<[u8; 4]>)
    ensures
        match r {
            Some(a) => parse_ipv4_spec(v@) == Some(a@),
            None => parse_ipv4_spec(v@) is None,
        },
{
    let parts = text::split_vec(v, '.');
    let ghost ps = text::split(v@, '.');
    assert(text::vec_views(parts@) == ps);
    if parts.len() != 4 {
        assert(ps.len() == parts@.len());
        return None;
    }
    assert(ps[0] == parts@[0]@ && ps[1] == parts@[1]@ && ps[2] == parts@[2]@ && ps[3] == parts@[3]@);
    let a = v4_part_value(&parts[0]);
    let b = v4_part_value(&parts[1]);
    let c = v4_part_value(&parts[2]);
    let d = v4_part_value(&parts[3]);
    match (a, b, c, d) {
        (Some(a), Some(b), Some(c), Some(d)) => {
            let out: [u8; 4] = [a, b, c, d];
            assert forall|i: int| 0 <= i < 4 implies valid_v4_part(#[trigger] ps[i]) by {
                assert(i == 0 || i == 1 || i == 2 || i == 3);
            }
            assert(out@ =~= seq![
                dec_value(ps[0]) as u8,
                dec_value(ps[1]) as u8,
                dec_value(ps[2]) as u8,
                dec_value(ps[3]) as u8,
            ]);
            Some(out)
        },
        _ => {
            assert(!valid_v4_part(ps[0]) || !valid_v4_part(ps[1]) || !valid_v4_part(ps[2])
                || !valid_v4_part(ps[3]));
            None
        },
    }
}

fn is_hex_exec(c: char) -> (r: bool)
    ensures
        r == is_hex(c),
{
    ('0' <= c && c <= '9') || ('a' <= c && c <= 'f') || ('A' <= c && c <= 'F')
}

fn hex_val_exec(c: char) -> (r: u32)
    requires
        is_hex(c),
    ensures
        r as nat == hex_val(c),
        r < 16,
{
    if '0' <= c && c <= '9' {
        (c as u32) - ('0' as u32)
    } else if 'a' <= c && c <= 'f' {
        (c as u32) - ('a' as u32) + 10
    } else {
        (c as u32) - ('A' as u32) + 10
    }
}

/// The value of one hexadecimal group, if it is valid.
fn hex_group_value(p: &Vec<char>) -> (r: Option<u32>)
    ensures
        match r {
            Some(x) => valid_hex_group(p@) && x as nat == hex_value(p@) && x < 0x10000,
            None => !valid_hex_group(p@),
        },
{
    let n = p.len();
    if n < 1 || n > 4 {
        return None;
    }
    let mut val: u32 = 0;
    let mut i: usize = 0;
    while i < n
        invariant
            n == p@.len(),
            1 <= n <= 4,
            i <= n,
            val as nat == hex_value(p@.take(i as int)),
            i == 0 ==> val == 0,
            i == 1 ==> val < 0x10,
            i == 2 ==> val < 0x100,
            i == 3 ==> val < 0x1000,
            val < 0x10000,
            forall|j: int| 0 <= j < i ==> is_hex(#[trigger] p@[j]),
        decreases n - i,
    {
        let c = p[i];
        if !is_hex_exec(c) {
            return None;
        }
        proof {
            lemma_hex_step(p@, i as int);
        }
        let d = hex_val_exec(c);
        val = val * 16 + d;
        i = i + 1;
    }
    assert(p@.take(n as int) =~= p@);
    Some(val)
}

/// The octets of one element of an IPv6 list, if it is valid there.
fn elem_bytes(p: &Vec<char>, ipv4_ok: bool) -> (r: Option<Vec<u8>>)
    ensures
        match r {
            Some(b) => valid_v6_elem(p@, ipv4_ok) && b@ == v6_elem_bytes(p@),
            None => !valid_v6_elem(p@, ipv4_ok),
        },
{
    match hex_group_value(p) {
        Some(x) => {
            let mut b: Vec<u8> = Vec::new();
            b.push((x / 256) as u8);
            b.push((x % 256) as u8);
            assert(b@ =~= seq![(hex_value(p@) / 256) as u8, (hex_value(p@) % 256) as u8]);
            Some(b)
        },
        None => {
            if !ipv4_ok {
                return None;
            }
            match parse_v4(p) {
                Some(a) => {
                    let mut b: Vec<u8> = Vec::new();
                    b.push(a[0]);
                    b.push(a[1]);
                    b.push(a[2]);
                    b.push(a[3]);
                    assert(b@ =~= a@);
                    Some(b)
                },
                None => None,
            }
        },
    }
}

proof fn lemma_list_step(ps: Seq<Seq<char>>, i: int)
    requires
        0 <= i < ps.len(),
    ensures
        v6_list_bytes(ps.take(i + 1)) == v6_list_bytes(ps.take(i)) + v6_elem_bytes(ps[i]),
{
    assert(ps.take(i + 1).drop_last() =~= ps.take(i));
}

/// The octets of a `:`-separated list, if it is valid; at most 4 octets per element.
fn list_bytes(ps: &Vec<Vec<char>>, ipv4_last: bool) -> (r: Option<Vec<u8>>)
    ensures
        match r {
            Some(b) => valid_v6_list(text::vec_views(ps@), ipv4_last) && b@ == v6_list_bytes(
                text::vec_views(ps@),
            ),
            None => !valid_v6_list(text::vec_views(ps@), ipv4_last),
        },
{
    let ghost vs = text::vec_views(ps@);
    let n = ps.len();
    if n == 0 {
        return None;
    }
    let mut out: Vec<u8> = Vec::new();
    let mut i: usize = 0;
    while i < n
        invariant
            n == ps@.len(),
            vs == text::vec_views(ps@),
            vs.len() == n,
            i <= n,
            out@ == v6_list_bytes(vs.take(i as int)),
            forall|j: int| 0 <= j < i ==> valid_v6_elem(#[trigger] vs[j], ipv4_last && j == n - 1),
        decreases n - i,
    {
        let ok4 = ipv4_last && i == n - 1;
        assert(vs[i as int] == ps@[i as int]@);
        match elem_bytes(&ps[i], ok4) {
            Some(b) => {
                proof {
                    lemma_list_step(vs, i as int);
                }
                let mut k: usize = 0;
                let ghost before = out@;
                while k < b.len()
                    invariant
                        k <= b.len(),
                        out@ == before + b@.take(k as int),
                    decreases b.len() - k,
                {
                    out.push(b[k]);
                    assert(b@.take(k + 1) =~= b@.take(k as int).push(b@[k as int]));
                    k = k + 1;
                }
                assert(b@.take(b.len() as int) =~= b@);
            },
            None => {
                return None;
            },
        }
        i = i + 1;
    }
    assert(vs.take(n as int) =~= vs);
    Some(out)
}

/// The position of the first `::` at or after `start`.
fn find_dc(v: &Vec<char>, start: usize) -> (r: Option<usize>)
    ensures
        match r {
            Some(i) => start <= i && dc_at(v@, i as int) && forall|j: int|
                start <= j < i ==> !dc_at(v@, j),
            None => forall|j: int| start <= j ==> !dc_at(v@, j),
        },
{
    let n = v.len();
    let mut i: usize = start;
    while i < n
        invariant
            n == v@.len(),
            start <= i,
            forall|j: int| start <= j < i ==> !dc_at(v@, j),
        decreases n - i,
    {
        if i + 1 < n && v[i] == ':' && v[i + 1] == ':' {
            return Some(i);
        }
        i = i + 1;
    }
    None
}

fn sub_chars(v: &Vec<char>, a: usize, b: usize) -> (r: Vec<char>)
    requires
        a <= b <= v.len(),
    ensures
        r@ == v@.subrange(a as int, b as int),
{
    let mut r: Vec<char> = Vec::new();
    let mut i: usize = a;
    while i < b
        invariant
            a <= i <= b <= v.len(),
            r@ == v@.subrange(a as int, i as int),
        decreases b - i,
    {
        r.push(v[i]);
        assert(v@.subrange(a as int, i + 1) =~= v@.subrange(a as int, i as int).push(v@[i as int]));
        i = i + 1;
    }
    r
}

fn to_octets16(b: &Vec<u8>) -> (r: [u8; 16])
    requires
        b.len() == 16,
    ensures
        r@ == b@,
{
    let r: [u8; 16] = [
        b[0], b[1], b[2], b[3], b[4], b[5], b[6], b[7], b[8], b[9], b[10], b[11], b[12], b[13],
        b[14], b[15],
    ];
    assert(r@ =~= b@);
    r
}

/// The octets of one side of a `::`, if it is valid.
fn side_bytes_exec(side: &Vec<char>, ipv4_last: bool) -> (r: Option<Vec<u8>>)
    ensures
        match r {
            Some(b) => side_ok(side@, ipv4_last) && b@ == side_bytes(side@),
            None => !side_ok(side@, ipv4_last),
        },
{
    if side.len() == 0 {
        return Some(Vec::new());
    }
    let parts = text::split_vec(side, ':');
    list_bytes(&parts, ipv4_last)
}

fn append_bytes(out: &mut Vec<u8>, b: &Vec<u8>)
    ensures
        final(out)@ == old(out)@ + b@,
{
    let mut k: usize = 0;
    let ghost before = out@;
    while k < b.len()
        invariant
            k <= b.len(),
            out@ == before + b@.take(k as int),
        decreases b.len() - k,
    {
        out.push(b[k]);
        assert(b@.take(k + 1) =~= b@.take(k as int).push(b@[k as int]));
        k = k + 1;
    }
    assert(b@.take(b.len() as int) =~= b@);
}

/// An IPv6 address, if the characters are one.
fn parse_v6(v: &Vec<char>) -> (r: Option<[u8; 16]>)
    ensures
        match r {
            Some(a) => parse_ipv6_spec(v@) == Some(a@),
            None => parse_ipv6_spec(v@) is None,
        },
{
    match find_dc(v, 0) {
        None => {
            assert(!has_dc(v@));
            let parts = text::split_vec(v, ':');
            match list_bytes(&parts, true) {
                Some(b) => {
                    if b.len() == 16 {
                        Some(to_octets16(&b))
                    } else {
                        None
                    }
                },
                None => None,
            }
        },
        Some(i) => {
            let ghost s = v@;
            proof {
                assert(first_dc(s, i as int));
                let c = choose|k: int| first_dc(s, k);
                assert(first_dc(s, c));
                if c < i {
                    assert(!dc_at(s, c));
                } else if c > i {
                    assert(!dc_at(s, i as int));
                }
                assert(c == i);
                assert(has_dc(s));
            }
            assert(dc_at(v@, i as int));
            assert(i + 2 <= v@.len());
            assert(v@.len() == v.len());
            let head = sub_chars(v, 0, i);
            let tail = sub_chars(v, i + 2, v.len());
            assert(head@ =~= s.take(i as int));
            assert(tail@ =~= s.skip(i + 2));
            if find_dc(&tail, 0).is_some() {
                return None;
            }
            assert(!has_dc(tail@));
            let hb = match side_bytes_exec(&head, false) {
                Some(b) => b,
                None => {
                    return None;
                },
            };
            let tb = match side_bytes_exec(&tail, true) {
                Some(b) => b,
                None => {
                    return None;
                },
            };
            if hb.len() > 14 || tb.len() > 14 - hb.len() {
                return None;
            }
            let zeros = 16 - hb.len() - tb.len();
            let mut out: Vec<u8> = Vec::new();
            append_bytes(&mut out, &hb);
            let mut k: usize = 0;
            while k < zeros
                invariant
                    k <= zeros,
                    out@ == hb@ + Seq::new(k as nat, |j: int| 0u8),
                decreases zeros - k,
            {
                out.push(0u8);
                assert(Seq::new((k + 1) as nat, |j: int| 0u8) =~= Seq::new(k as nat, |j: int| 0u8).push(0u8));
                assert(hb@ + Seq::new((k + 1) as nat, |j: int| 0u8) =~= (hb@ + Seq::new(k as nat, |j: int| 0u8)).push(0u8));
                k = k + 1;
            }
            append_bytes(&mut out, &tb);
            assert(out@ =~= side_bytes(s.take(i as int)) + Seq::new(
                (16 - side_bytes(s.take(i as int)).len() - side_bytes(s.skip(i + 2)).len()) as nat,
                |j: int| 0u8,
            ) + side_bytes(s.skip(i + 2)));
            Some(to_octets16(&out))
        },
    }
}

/// `IpAddr::from_str`: the address written in `s`, if it is one.
pub fn parse_ip(s: &str) -> (r: Option<IpAddress>)
    ensures
        opt_ip_view(r) == parse_ip_spec(s@),
{
    let v = text::chars_of(s);
    match parse_v4(&v) {
        Some(a) => Some(IpAddress::V4(a)),
        None => match parse_v6(&v) {
            Some(a) => Some(IpAddress::V6(a)),
            None => None,
        },
    }
}

// ---------------------------------------------------------------------------
// Writing an address as text, as `Display` for `IpAddr` does.
// ---------------------------------------------------------------------------

/// Dotted-decimal form of four octets.
pub open spec fn dotted_quad(o: Seq<u8>) -> Seq<char> {
    text::dec_str(o[0] as nat) + seq!['.'] + text::dec_str(o[1] as nat) + seq!['.']
        + text::dec_str(o[2] as nat) + seq!['.'] + text::dec_str(o[3] as nat)
}

/// The eight 16-bit groups of an IPv6 address.
pub open spec fn segments(o: Seq<u8>) -> Seq<nat> {
    Seq::new(8, |k: int| (o[2 * k] as nat) * 256 + (o[2 * k + 1] as nat))
}

/// `::ffff:a.b.c.d`.
pub open spec fn is_v4_mapped(o: Seq<u8>) -> bool {
    first_n_zero(o, 10) && o[10] == 0xff && o[11] == 0xff
}

/// After reading the first `k` groups: the first longest run of zero groups
/// so far (start, length) and the run being read (start, length).
pub open spec fn zero_runs(segs: Seq<nat>, k: nat) -> (nat, nat, nat, nat)
    decreases k,
{
    if k == 0 {
        (0, 0, 0, 0)
    } else {
        let prev = zero_runs(segs, (k - 1) as nat);
        if segs[k - 1] == 0 {
            let cs: nat = if prev.3 == 0 { (k - 1) as nat } else { prev.2 };
            let cl: nat = prev.3 + 1;
            if cl > prev.1 {
                (cs, cl, cs, cl)
            } else {
                (prev.0, prev.1, cs, cl)
            }
        } else {
            (prev.0, prev.1, 0, 0)
        }
    }
}

/// Groups in lower-case hexadecimal, separated by `:`.
pub open spec fn hex_join(segs: Seq<nat>) -> Seq<char>
    decreases segs.len(),
{
    if segs.len() == 0 {
        Seq::empty()
    } else if segs.len() == 1 {
        text::hex_str(segs[0])
    } else {
        hex_join(segs.drop_last()) + seq![':'] + text::hex_str(segs.last())
    }
}

/// The text of an IPv6 address: `::ffff:` and the dotted quad for an
/// IPv4-mapped address; otherwise the groups in hexadecimal with the first
/// longest run of two or more zero groups written as `::`.
pub open spec fn v6_text(o: Seq<u8>) -> Seq<char> {
    if is_v4_mapped(o) {
        seq![':', ':', 'f', 'f', 'f', 'f', ':'] + dotted_quad(o.subrange(12, 16))
    } else {
        let segs = segments(o);
        let runs = zero_runs(segs, 8);
        if runs.1 > 1 {
            hex_join(segs.take(runs.0 as int)) + seq![':', ':'] + hex_join(
                segs.skip((runs.0 + runs.1) as int),
            )
        } else {
            hex_join(segs)
        }
    }
}

pub open spec fn ip_text(ip: IpAddress) -> Seq<char> {
    match ip {
        IpAddress::V4(a) => dotted_quad(a@),
        IpAddress::V6(a) => v6_text(a@),
    }
}

fn dotted_quad_exec(o: &[u8; 4]) -> (r: Vec<char>)
    ensures
        r@ == dotted_quad(o@),
{
    let mut out = text::dec_vec(o[0] as u64);
    out.push('.');
    let b = text::dec_vec(o[1] as u64);
    text::append_chars(&mut out, &b);
    out.push('.');
    let c = text::dec_vec(o[2] as u64);
    text::append_chars(&mut out, &c);
    out.push('.');
    let d = text::dec_vec(o[3] as u64);
    text::append_chars(&mut out, &d);
    assert(out@ =~= dotted_quad(o@));
    out
}

proof fn lemma_join_step(segs: Seq<nat>, a: int, i: int)
    requires
        0 <= a < i < segs.len(),
    ensures
        hex_join(segs.subrange(a, i + 1)) == hex_join(segs.subrange(a, i)) + seq![':']
            + text::hex_str(segs[i]),
{
    assert(segs.subrange(a, i + 1).drop_last() =~= segs.subrange(a, i));
}

/// `hex_join` of the groups `a..b`.
fn hex_join_exec(segs: &Vec<u32>, a: usize, b: usize) -> (r: Vec<char>)
    requires
        a <= b <= segs.len(),
    ensures
        r@ == hex_join(segs@.map_values(|x: u32| x as nat).subrange(a as int, b as int)),
{
    let ghost sv = segs@.map_values(|x: u32| x as nat);
    let mut out: Vec<char> = Vec::new();
    if a == b {
        assert(sv.subrange(a as int, b as int).len() == 0);
        return out;
    }
    out = text::hex_vec(segs[a] as u64);
    assert(sv.subrange(a as int, a + 1) =~= seq![sv[a as int]]);
    let mut i: usize = a + 1;
    while i < b
        invariant
            a < i <= b <= segs.len(),
            sv == segs@.map_values(|x: u32| x as nat),
            out@ == hex_join(sv.subrange(a as int, i as int)),
        decreases b - i,
    {
        proof {
            lemma_join_step(sv, a as int, i as int);
        }
        out.push(':');
        let h = text::hex_vec(segs[i] as u64);
        text::append_chars(&mut out, &h);
        i = i + 1;
    }
    out
}

/// The text of an IPv6 address (`v6_text`).
fn v6_text_exec(o: &[u8; 16]) -> (r: Vec<char>)
    ensures
        r@ == v6_text(o@),
{
    if zeros_upto(o, 10) && o[10] == 0xff && o[11] == 0xff {
        let mut out: Vec<char> = Vec::new();
        text::append_str(&mut out, "::ffff:");
        let q: [u8; 4] = [o[12], o[13], o[14], o[15]];
        assert(q@ =~= o@.subrange(12, 16));
        let d = dotted_quad_exec(&q);
        text::append_chars(&mut out, &d);
        proof {
            reveal_strlit("::ffff:");
        }
        assert(out@ =~= v6_text(o@));
        return out;
    }
    let ghost sg = segments(o@);
    let mut segs: Vec<u32> = Vec::new();
    let mut k: usize = 0;
    while k < 8
        invariant
            k <= 8,
            segs@.len() == k,
            sg == segments(o@),
            forall|j: int| 0 <= j < k ==> segs@[j] as nat == #[trigger] sg[j],
        decreases 8 - k,
    {
        segs.push((o[2 * k] as u32) * 256 + (o[2 * k + 1] as u32));
        k = k + 1;
    }
    let ghost sv = segs@.map_values(|x: u32| x as nat);
    assert(sv =~= sg);
    let mut bs: usize = 0;
    let mut bl: usize = 0;
    let mut cs: usize = 0;
    let mut cl: usize = 0;
    let mut i: usize = 0;
    while i < 8
        invariant
            i <= 8,
            segs@.len() == 8,
            sv == segs@.map_values(|x: u32| x as nat),
            (bs as nat, bl as nat, cs as nat, cl as nat) == zero_runs(sv, i as nat),
            bs + bl <= i,
            cs + cl <= i,
            cl <= i,
        decreases 8 - i,
    {
        if segs[i] == 0 {
            if cl == 0 {
                cs = i;
            }
            cl = cl + 1;
            if cl > bl {
                bs = cs;
                bl = cl;
            }
        } else {
            cs = 0;
            cl = 0;
        }
        i = i + 1;
    }
    if bl > 1 {
        let mut out = hex_join_exec(&segs, 0, bs);
        out.push(':');
        out.push(':');
        let t = hex_join_exec(&segs, bs + bl, 8);
        text::append_chars(&mut out, &t);
        assert(sv.subrange(0, bs as int) =~= sv.take(bs as int));
        assert(sv.subrange((bs + bl) as int, 8) =~= sv.skip((bs + bl) as int));
        assert(out@ =~= v6_text(o@));
        out
    } else {
        let out = hex_join_exec(&segs, 0, 8);
        assert(sv.subrange(0, 8) =~= sv);
        out
    }
}

/// `ToString` of an address, as `IpAddr`'s `Display` writes it.
pub fn ip_to_string(ip: IpAddress) -> (r: String)
    ensures
        r@ == ip_text(ip),
{
    let v = match ip {
        IpAddress::V4(a) => dotted_quad_exec(&a),
        IpAddress::V6(a) => v6_text_exec(&a),
    };
    text::string_of(&v)
}

} // verus!
