//! IP addresses and socket addresses: reading them in the textual forms std
//! accepts, and writing them the way std displays them.

use vstd::prelude::*;
use crate::number::{lemma_dec_text, lemma_hex_text, char_digit, dec_text, hex_text, parse_uint, parse_uint_range, push_dec, push_hex, digit_value};
use crate::text::push_char;

verus! {

/// An IPv4 address (four octets) or an IPv6 address (eight 16-bit groups),
/// most significant first.
#[derive(Debug, Clone, Copy, PartialEq, Eq, Structural)]
pub enum IpAddr {
    V4(u8, u8, u8, u8),
    V6(u16, u16, u16, u16, u16, u16, u16, u16),
}

/// An IP address with a port.
#[derive(Debug, Clone, Copy, PartialEq, Eq, Structural)]
pub struct SocketAddr {
    pub ip: IpAddr,
    pub port: u16,
}

impl SocketAddr {
    /// The address `ip` with port `port`.
    pub fn new(ip: IpAddr, port: u16) -> (r: SocketAddr)
        ensures
            r.ip == ip,
            r.port == port,
    {
        SocketAddr { ip, port }
    }

    /// The IP address.
    pub fn ip(&self) -> (r: IpAddr)
        ensures
            r == self.ip,
    {
        self.ip
    }

    /// The port.
    pub fn port(&self) -> (r: u16)
        ensures
            r == self.port,
    {
        self.port
    }
}

/// How many characters of `s` from `pos` on are digits of `radix`.
pub open spec fn digit_run(s: Seq<char>, pos: int, radix: nat) -> nat
    decreases s.len() - pos,
{
    if 0 <= pos < s.len() && digit_value(s[pos], radix) is Some {
        1 + digit_run(s, pos + 1, radix)
    } else {
        0
    }
}

/// The number whose digits start at `pos`, and the position after it, as
/// std's address parser reads it: all the digits in a row, at most
/// `max_digits` of them, and (unless `zero_prefix`) no leading zero on a
/// number of several digits.
pub open spec fn read_number(s: Seq<char>, pos: int, radix: nat, max_digits: nat, zero_prefix: bool) -> Option<(nat, int)> {
    let n = digit_run(s, pos, radix);
    if n == 0 || n > max_digits {
        None
    } else if !zero_prefix && s[pos] == '0' && n > 1 {
        None
    } else {
        match parse_uint(s.subrange(pos, pos + n), radix, 0xffff_ffff_ffff_ffff) {
            Ok(value) => Some((value, pos + n)),
            Err(_) => None,
        }
    }
}

/// One decimal octet of an IPv4 address at `pos`.
pub open spec fn read_octet(s: Seq<char>, pos: int) -> Option<(u8, int)> {
    match read_number(s, pos, 10, 3, false) {
        Some((value, end)) => if value <= 255 {
            Some((value as u8, end))
        } else {
            None
        },
        None => None,
    }
}

/// A `.` at `pos` followed by an octet.
pub open spec fn read_dot_octet(s: Seq<char>, pos: int) -> Option<(u8, int)> {
    if 0 <= pos < s.len() && s[pos] == '.' {
        read_octet(s, pos + 1)
    } else {
        None
    }
}

/// An IPv4 address in dotted-decimal form at `pos`, and the position after it.
pub open spec fn read_ipv4(s: Seq<char>, pos: int) -> Option<((u8, u8, u8, u8), int)> {
    match read_octet(s, pos) {
        None => None,
        Some((a, p1)) => match read_dot_octet(s, p1) {
            None => None,
            Some((b, p2)) => match read_dot_octet(s, p2) {
                None => None,
                Some((c, p3)) => match read_dot_octet(s, p3) {
                    None => None,
                    Some((d, p4)) => Some(((a, b, c, d), p4)),
                },
            },
        },
    }
}

/// One group of an IPv6 address (one to four hex digits) at `pos`.
pub open spec fn read_hex_group(s: Seq<char>, pos: int) -> Option<(u16, int)> {
    match read_number(s, pos, 16, 4, true) {
        Some((value, end)) => Some((value as u16, end)),
        None => None,
    }
}

/// The colon-separated IPv6 groups from `pos` on, group number `i` of at
/// most `limit`, where the last two groups may be written as an embedded
/// IPv4 address: the groups read, the position after them, and whether
/// they ended in an IPv4 address.
pub open spec fn read_groups(s: Seq<char>, pos: int, i: int, limit: int) -> (Seq<u16>, int, bool)
    decreases limit - i,
{
    if i >= limit {
        (Seq::empty(), pos, false)
    } else {
        let start = if i == 0 {
            Some(pos)
        } else if 0 <= pos < s.len() && s[pos] == ':' {
            Some(pos + 1)
        } else {
            None
        };
        match start {
            None => (Seq::empty(), pos, false),
            Some(p) => {
                let v4 = if i + 1 < limit {
                    read_ipv4(s, p)
                } else {
                    None
                };
                match v4 {
                    Some(((a, b, c, d), end)) => (
                        seq![(a * 256 + b) as u16, (c * 256 + d) as u16],
                        end,
                        true,
                    ),
                    None => match read_hex_group(s, p) {
                        None => (Seq::empty(), pos, false),
                        Some((g, end)) => {
                            let (rest, end2, v4_end) = read_groups(s, end, i + 1, limit);
                            (seq![g] + rest, end2, v4_end)
                        },
                    },
                }
            },
        }
    }
}

/// The eight groups of the IPv6 address that `s` spells in full, as
/// `Ipv6Addr::from_str` accepts it: eight groups, or fewer around one `::`
/// that stands for one or more zero groups, the last two groups possibly
/// written as an IPv4 address (but not before the `::`).
pub open spec fn parse_ipv6(s: Seq<char>) -> Option<Seq<u16>> {
    let (head, hp, head_v4) = read_groups(s, 0, 0, 8);
    if head.len() == 8 {
        if hp == s.len() {
            Some(head)
        } else {
            None
        }
    } else if head_v4 {
        None
    } else if hp + 2 <= s.len() && s[hp] == ':' && s[hp + 1] == ':' {
        let (tail, tp, _) = read_groups(s, hp + 2, 0, 8 - (head.len() + 1));
        if tp == s.len() {
            Some(head + Seq::new((8 - head.len() - tail.len()) as nat, |i: int| 0u16) + tail)
        } else {
            None
        }
    } else {
        None
    }
}

/// The four octets of the IPv4 address that `s` spells in full, as
/// `Ipv4Addr::from_str` accepts it.
pub open spec fn parse_ipv4(s: Seq<char>) -> Option<(u8, u8, u8, u8)> {
    match read_ipv4(s, 0) {
        Some((o, end)) => if end == s.len() {
            Some(o)
        } else {
            None
        },
        None => None,
    }
}

/// The IPv6 address with groups `g` (eight of them).
pub open spec fn ipv6_of(g: Seq<u16>) -> IpAddr {
    IpAddr::V6(g[0], g[1], g[2], g[3], g[4], g[5], g[6], g[7])
}

/// The groups of an IPv6 address.
pub open spec fn ipv6_groups(ip: IpAddr) -> Seq<u16> {
    match ip {
        IpAddr::V6(a, b, c, d, e, f, g, h) => seq![a, b, c, d, e, f, g, h],
        IpAddr::V4(..) => Seq::empty(),
    }
}

fn read_number_exec(v: &Vec<char>, pos: usize, radix: u32, max_digits: usize, zero_prefix: bool) -> (r: Option<(u64, usize)>)
    requires
        pos <= v.len(),
        2 <= radix <= 16,
    ensures
        match r {
            Some((value, end)) => read_number(v@, pos as int, radix as nat, max_digits as nat, zero_prefix)
                == Some((value as nat, end as int)) && end <= v.len(),
            None => read_number(v@, pos as int, radix as nat, max_digits as nat, zero_prefix) is None,
        },
{
    let mut n: usize = 0;
    while pos + n < v.len() && char_digit(v[pos + n], radix).is_some()
        invariant
            pos + n <= v.len(),
            2 <= radix <= 16,
            digit_run(v@, pos as int, radix as nat) == n + digit_run(v@, pos + n, radix as nat),
        decreases v.len() - (pos + n),
    {
        n = n + 1;
    }
    assert(digit_run(v@, pos + n, radix as nat) == 0);
    if n == 0 || n > max_digits {
        return None;
    }
    if !zero_prefix && v[pos] == '0' && n > 1 {
        return None;
    }
    match parse_uint_range(v, pos, pos + n, radix, 0xffff_ffff_ffff_ffff) {
        Ok(value) => Some((value, pos + n)),
        Err(_) => None,
    }
}

fn read_octet_exec(v: &Vec<char>, pos: usize) -> (r: Option<(u8, usize)>)
    requires
        pos <= v.len(),
    ensures
        match r {
            Some((o, end)) => read_octet(v@, pos as int) == Some((o, end as int)) && end <= v.len(),
            None => read_octet(v@, pos as int) is None,
        },
{
    match read_number_exec(v, pos, 10, 3, false) {
        Some((value, end)) => if value <= 255 {
            Some((value as u8, end))
        } else {
            None
        },
        None => None,
    }
}

fn read_dot_octet_exec(v: &Vec<char>, pos: usize) -> (r: Option<(u8, usize)>)
    requires
        pos <= v.len(),
    ensures
        match r {
            Some((o, end)) => read_dot_octet(v@, pos as int) == Some((o, end as int)) && end <= v.len(),
            None => read_dot_octet(v@, pos as int) is None,
        },
{
    if pos < v.len() && v[pos] == '.' {
        read_octet_exec(v, pos + 1)
    } else {
        None
    }
}

fn read_ipv4_exec(v: &Vec<char>, pos: usize) -> (r: Option<((u8, u8, u8, u8), usize)>)
    requires
        pos <= v.len(),
    ensures
        match r {
            Some((o, end)) => read_ipv4(v@, pos as int) == Some((o, end as int)) && end <= v.len(),
            None => read_ipv4(v@, pos as int) is None,
        },
{
    let (a, p1) = match read_octet_exec(v, pos) {
        Some(x) => x,
        None => {
            return None;
        },
    };
    let (b, p2) = match read_dot_octet_exec(v, p1) {
        Some(x) => x,
        None => {
            return None;
        },
    };
    let (c, p3) = match read_dot_octet_exec(v, p2) {
        Some(x) => x,
        None => {
            return None;
        },
    };
    let (d, p4) = match read_dot_octet_exec(v, p3) {
        Some(x) => x,
        None => {
            return None;
        },
    };
    Some(((a, b, c, d), p4))
}

fn read_hex_group_exec(v: &Vec<char>, pos: usize) -> (r: Option<(u16, usize)>)
    requires
        pos <= v.len(),
    ensures
        match r {
            Some((g, end)) => read_hex_group(v@, pos as int) == Some((g, end as int)) && end <= v.len(),
            None => read_hex_group(v@, pos as int) is None,
        },
{
    match read_number_exec(v, pos, 16, 4, true) {
        Some((value, end)) => Some((value as u16, end)),
        None => None,
    }
}

fn v4_groups(a: u8, b: u8, c: u8, d: u8) -> (r: Vec<u16>)
    ensures
        r@ == seq![(a * 256 + b) as u16, (c * 256 + d) as u16],
{
    let mut out: Vec<u16> = Vec::new();
    out.push((a as u16) * 256 + (b as u16));
    out.push((c as u16) * 256 + (d as u16));
    assert(out@ =~= seq![(a * 256 + b) as u16, (c * 256 + d) as u16]);
    out
}

#[verifier::rlimit(30)]
fn read_groups_exec(v: &Vec<char>, pos: usize, i: usize, limit: usize) -> (r: (Vec<u16>, usize, bool))
    requires
        pos <= v.len(),
        i <= limit <= 8,
    ensures
        (r.0@, r.1 as int, r.2) == read_groups(v@, pos as int, i as int, limit as int),
        r.1 <= v.len(),
        r.0@.len() <= limit - i,
    decreases limit - i,
{
    if i >= limit {
        return (Vec::new(), pos, false);
    }
    let start = if i == 0 {
        pos
    } else if pos < v.len() && v[pos] == ':' {
        pos + 1
    } else {
        return (Vec::new(), pos, false);
    };
    if i + 1 < limit {
        match read_ipv4_exec(v, start) {
            Some(((a, b, c, d), end)) => {
                return (v4_groups(a, b, c, d), end, true);
            },
            None => {},
        }
    }
    match read_hex_group_exec(v, start) {
        None => (Vec::new(), pos, false),
        Some((g, end)) => {
            let (mut rest, end2, v4_end) = read_groups_exec(v, end, i + 1, limit);
            let ghost old_rest = rest@;
            rest.insert(0, g);
            assert(rest@ =~= seq![g] + old_rest);
            (rest, end2, v4_end)
        },
    }
}

/// The IPv6 address that `v` spells in full, if it spells one.
pub fn parse_ipv6_chars(v: &Vec<char>) -> (r: Option<IpAddr>)
    ensures
        match r {
            Some(ip) => parse_ipv6(v@) matches Some(g) && ip == ipv6_of(g),
            None => parse_ipv6(v@) is None,
        },
{
    let (head, hp, head_v4) = read_groups_exec(v, 0, 0, 8);
    let groups: Vec<u16> = if head.len() == 8 {
        if hp == v.len() {
            head
        } else {
            return None;
        }
    } else if head_v4 {
        return None;
    } else if hp < v.len() && v.len() - hp >= 2 && v[hp] == ':' && v[hp + 1] == ':' {
        let (tail, tp, _) = read_groups_exec(v, hp + 2, 0, 8 - (head.len() + 1));
        if tp != v.len() {
            return None;
        }
        let mut out = head;
        let zeros = 8 - out.len() - tail.len();
        let ghost head_seq = out@;
        let mut k: usize = 0;
        while k < zeros
            invariant
                0 <= k <= zeros,
                out@ == head_seq + Seq::new(k as nat, |i: int| 0u16),
            decreases zeros - k,
        {
            out.push(0);
            assert(head_seq + Seq::new((k + 1) as nat, |i: int| 0u16) =~= (head_seq + Seq::new(k as nat, |i: int| 0u16)).push(0));
            k = k + 1;
        }
        let mut t = tail;
        out.append(&mut t);
        out
    } else {
        return None;
    };
    assert(groups@.len() == 8);
    Some(IpAddr::V6(groups[0], groups[1], groups[2], groups[3], groups[4], groups[5], groups[6], groups[7]))
}

/// The IPv4 address that `v` spells in full, if it spells one.
pub fn parse_ipv4_chars(v: &Vec<char>) -> (r: Option<IpAddr>)
    ensures
        match r {
            Some(ip) => parse_ipv4(v@) matches Some((a, b, c, d)) && ip == IpAddr::V4(a, b, c, d),
            None => parse_ipv4(v@) is None,
        },
{
    match read_ipv4_exec(v, 0) {
        Some(((a, b, c, d), end)) => if end == v.len() {
            Some(IpAddr::V4(a, b, c, d))
        } else {
            None
        },
        None => None,
    }
}

/// An IPv4 address in dotted-decimal form.
pub open spec fn ipv4_text(a: u8, b: u8, c: u8, d: u8) -> Seq<char> {
    dec_text(a as nat).push('.') + dec_text(b as nat).push('.') + dec_text(c as nat).push('.')
        + dec_text(d as nat)
}

/// Groups in lower-case hexadecimal, separated by colons.
pub open spec fn hex_groups_text(g: Seq<u16>) -> Seq<char>
    decreases g.len(),
{
    if g.len() == 0 {
        Seq::empty()
    } else if g.len() == 1 {
        hex_text(g[0] as nat)
    } else {
        hex_groups_text(g.drop_last()).push(':') + hex_text(g.last() as nat)
    }
}

/// The first longest run of zero groups in `g` from `i` on, as (start,
/// length), given the run under way (`cur_start`, `cur_len`) and the best
/// run so far.
pub open spec fn zero_span(g: Seq<u16>, i: int, cur_start: int, cur_len: int, best_start: int, best_len: int) -> (int, int)
    decreases g.len() - i,
{
    if i >= g.len() || i < 0 {
        (best_start, best_len)
    } else if g[i] == 0 {
        let cs = if cur_len == 0 {
            i
        } else {
            cur_start
        };
        let cl = cur_len + 1;
        if cl > best_len {
            zero_span(g, i + 1, cs, cl, cs, cl)
        } else {
            zero_span(g, i + 1, cs, cl, best_start, best_len)
        }
    } else {
        zero_span(g, i + 1, 0, 0, best_start, best_len)
    }
}

/// An IPv4-mapped IPv6 address (`::ffff:a.b.c.d`).
pub open spec fn is_ipv4_mapped(g: Seq<u16>) -> bool {
    g[0] == 0 && g[1] == 0 && g[2] == 0 && g[3] == 0 && g[4] == 0 && g[5] == 0xffff
}

/// An IPv6 address as std displays it: an IPv4-mapped address as
/// `::ffff:` and the IPv4 address; otherwise the groups in hex, with the
/// first longest run of two or more zero groups written as `::`.
pub open spec fn ipv6_text(g: Seq<u16>) -> Seq<char> {
    if is_ipv4_mapped(g) {
        "::ffff:"@ + ipv4_text((g[6] / 256) as u8, (g[6] % 256) as u8, (g[7] / 256) as u8, (g[7] % 256) as u8)
    } else {
        let (start, len) = zero_span(g, 0, 0, 0, 0, 0);
        if len > 1 {
            hex_groups_text(g.take(start)) + "::"@ + hex_groups_text(g.skip(start + len))
        } else {
            hex_groups_text(g)
        }
    }
}

/// An IP address as std displays it.
pub open spec fn ip_text(ip: IpAddr) -> Seq<char> {
    match ip {
        IpAddr::V4(a, b, c, d) => ipv4_text(a, b, c, d),
        IpAddr::V6(..) => ipv6_text(ipv6_groups(ip)),
    }
}

fn push_ipv4(s: &mut String, a: u8, b: u8, c: u8, d: u8)
    ensures
        final(s)@ == old(s)@ + ipv4_text(a, b, c, d),
{
    let ghost start = s@;
    push_dec(s, a as u64);
    push_char(s, '.');
    push_dec(s, b as u64);
    push_char(s, '.');
    push_dec(s, c as u64);
    push_char(s, '.');
    push_dec(s, d as u64);
    assert(s@ =~= start + ipv4_text(a, b, c, d));
}

fn push_hex_groups(s: &mut String, g: &Vec<u16>, lo: usize, hi: usize)
    requires
        lo <= hi <= g.len(),
    ensures
        final(s)@ == old(s)@ + hex_groups_text(g@.subrange(lo as int, hi as int)),
{
    let ghost start = s@;
    let mut i: usize = lo;
    assert(g@.subrange(lo as int, lo as int) =~= Seq::<u16>::empty());
    while i < hi
        invariant
            lo <= i <= hi <= g.len(),
            s@ == start + hex_groups_text(g@.subrange(lo as int, i as int)),
        decreases hi - i,
    {
        let ghost before = s@;
        let ghost part = g@.subrange(lo as int, i + 1);
        assert(part.drop_last() =~= g@.subrange(lo as int, i as int));
        if i > lo {
            push_char(s, ':');
        }
        push_hex(s, g[i] as u64);
        if i == lo {
            assert(part.len() == 1);
            assert(s@ =~= start + hex_groups_text(part));
        } else {
            assert(s@ =~= start + hex_groups_text(part));
        }
        i = i + 1;
    }
}

fn longest_zero_span(g: &Vec<u16>) -> (r: (usize, usize))
    ensures
        (r.0 as int, r.1 as int) == zero_span(g@, 0, 0, 0, 0, 0),
        r.0 + r.1 <= g.len(),
{
    let mut cur_start: usize = 0;
    let mut cur_len: usize = 0;
    let mut best_start: usize = 0;
    let mut best_len: usize = 0;
    let mut i: usize = 0;
    while i < g.len()
        invariant
            i <= g.len(),
            cur_start + cur_len <= i,
            best_start + best_len <= i,
            zero_span(g@, 0, 0, 0, 0, 0) == zero_span(
                g@,
                i as int,
                cur_start as int,
                cur_len as int,
                best_start as int,
                best_len as int,
            ),
        decreases g.len() - i,
    {
        if g[i] == 0 {
            if cur_len == 0 {
                cur_start = i;
            }
            cur_len = cur_len + 1;
            if cur_len > best_len {
                best_start = cur_start;
                best_len = cur_len;
            }
        } else {
            cur_start = 0;
            cur_len = 0;
        }
        i = i + 1;
    }
    (best_start, best_len)
}

impl IpAddr {
    /// The address as std displays it.
    pub fn to_string(&self) -> (s: String)
        ensures
            s@ == ip_text(*self),
    {
        let mut s = String::new();
        match *self {
            IpAddr::V4(a, b, c, d) => {
                push_ipv4(&mut s, a, b, c, d);
                assert(s@ =~= ip_text(*self));
            },
            IpAddr::V6(g0, g1, g2, g3, g4, g5, g6, g7) => {
                let g: Vec<u16> = vec![g0, g1, g2, g3, g4, g5, g6, g7];
                assert(g@ =~= ipv6_groups(*self));
                if g0 == 0 && g1 == 0 && g2 == 0 && g3 == 0 && g4 == 0 && g5 == 0xffff {
                    s.append("::ffff:");
                    push_ipv4(&mut s, (g6 / 256) as u8, (g6 % 256) as u8, (g7 / 256) as u8, (g7 % 256) as u8);
                } else {
                    let (start, len) = longest_zero_span(&g);
                    if len > 1 {
                        push_hex_groups(&mut s, &g, 0, start);
                        s.append("::");
                        push_hex_groups(&mut s, &g, start + len, 8);
                        assert(g@.subrange(0, start as int) =~= g@.take(start as int));
                        assert(g@.subrange(start + len, 8) =~= g@.skip(start + len));
                    } else {
                        push_hex_groups(&mut s, &g, 0, 8);
                        assert(g@.subrange(0, 8) =~= g@);
                    }
                }
                assert(s@ =~= ip_text(*self));
            },
        }
        s
    }
}

proof fn lemma_digit_run_of(s: Seq<char>, pos: int, run: Seq<char>, radix: nat)
    requires
        0 <= pos,
        pos + run.len() <= s.len(),
        s.subrange(pos, pos + run.len()) == run,
        forall|i: int| 0 <= i < run.len() ==> #[trigger] digit_value(run[i], radix) is Some,
        pos + run.len() == s.len() || digit_value(s[pos + run.len()], radix) is None,
    ensures
        digit_run(s, pos, radix) == run.len(),
    decreases run.len(),
{
    if run.len() > 0 {
        assert(s[pos] == run[0]);
        assert(digit_value(run[0], radix) is Some);
        let rest = run.drop_first();
        assert(s.subrange(pos + 1, pos + 1 + rest.len()) =~= rest);
        assert forall|i: int| 0 <= i < rest.len() implies #[trigger] digit_value(rest[i], radix) is Some by {
            assert(rest[i] == run[i + 1]);
        }
        lemma_digit_run_of(s, pos + 1, rest, radix);
    }
}

proof fn lemma_read_octet(s: Seq<char>, pos: int, a: u8)
    requires
        0 <= pos,
        pos + dec_text(a as nat).len() <= s.len(),
        s.subrange(pos, pos + dec_text(a as nat).len()) == dec_text(a as nat),
        pos + dec_text(a as nat).len() == s.len() || s[pos + dec_text(a as nat).len()] == '.',
    ensures
        read_octet(s, pos) == Some((a, pos + dec_text(a as nat).len())),
{
    let text = dec_text(a as nat);
    lemma_dec_text(a as nat, 0xffff_ffff_ffff_ffff);
    lemma_digit_run_of(s, pos, text, 10);
    assert(s[pos] == text[0]);
    assert(digit_value(text[0], 10) is Some);
}

proof fn lemma_read_ipv4_at(s: Seq<char>, p: int, a: u8, b: u8, c: u8, d: u8)
    requires
        0 <= p,
        p + ipv4_text(a, b, c, d).len() == s.len(),
        s.subrange(p, s.len() as int) == ipv4_text(a, b, c, d),
    ensures
        read_ipv4(s, p) == Some(((a, b, c, d), s.len() as int)),
{
    let ta = dec_text(a as nat);
    let tb = dec_text(b as nat);
    let tc = dec_text(c as nat);
    let td = dec_text(d as nat);
    let t = ipv4_text(a, b, c, d);
    let p1 = p + ta.len();
    let p2 = p1 + 1 + tb.len();
    let p3 = p2 + 1 + tc.len();
    let p4 = p3 + 1 + td.len();
    assert(p4 == s.len());
    assert(s.subrange(p, p1) =~= ta) by {
        assert forall|i: int| 0 <= i < ta.len() implies s.subrange(p, p1)[i] == ta[i] by {
            assert(s[p + i] == t[i]);
        }
    }
    assert(s[p1] == t[p1 - p]);
    assert(s.subrange(p1 + 1, p2) =~= tb) by {
        assert forall|i: int| 0 <= i < tb.len() implies s.subrange(p1 + 1, p2)[i] == tb[i] by {
            assert(s[p1 + 1 + i] == t[p1 + 1 + i - p]);
        }
    }
    assert(s[p2] == t[p2 - p]);
    assert(s.subrange(p2 + 1, p3) =~= tc) by {
        assert forall|i: int| 0 <= i < tc.len() implies s.subrange(p2 + 1, p3)[i] == tc[i] by {
            assert(s[p2 + 1 + i] == t[p2 + 1 + i - p]);
        }
    }
    assert(s[p3] == t[p3 - p]);
    assert(s.subrange(p3 + 1, p4) =~= td) by {
        assert forall|i: int| 0 <= i < td.len() implies s.subrange(p3 + 1, p4)[i] == td[i] by {
            assert(s[p3 + 1 + i] == t[p3 + 1 + i - p]);
        }
    }
    lemma_read_octet(s, p, a);
    lemma_read_octet(s, p1 + 1, b);
    lemma_read_octet(s, p2 + 1, c);
    lemma_read_octet(s, p3 + 1, d);
}

/// An IPv4 address written in dotted-decimal form reads back as the same
/// address.
pub proof fn lemma_ipv4_text_roundtrip(a: u8, b: u8, c: u8, d: u8)
    ensures
        parse_ipv4(ipv4_text(a, b, c, d)) == Some((a, b, c, d)),
{
    let s = ipv4_text(a, b, c, d);
    assert(s.subrange(0, s.len() as int) =~= s);
    lemma_read_ipv4_at(s, 0, a, b, c, d);
}

proof fn lemma_digit_run_le(s: Seq<char>, p: int, q: int, radix: nat)
    requires
        0 <= p <= q <= s.len(),
        q == s.len() || digit_value(s[q], radix) is None,
    ensures
        digit_run(s, p, radix) <= q - p,
        p + digit_run(s, p, radix) < s.len() ==> digit_value(s[p + digit_run(s, p, radix)], radix) is None,
    decreases q - p,
{
    if p < q {
        if digit_value(s[p], radix) is Some {
            lemma_digit_run_le(s, p + 1, q, radix);
        }
    }
}

/// No IPv4 address starts at `p` when the text from `p` holds no `.` up to
/// a `:` or the end.
proof fn lemma_no_ipv4(s: Seq<char>, p: int, len: int)
    requires
        0 <= p,
        0 <= len,
        p + len <= s.len(),
        forall|i: int| p <= i < p + len ==> s[i] != '.',
        p + len == s.len() || s[p + len] == ':',
    ensures
        read_ipv4(s, p) is None,
{
    lemma_digit_run_le(s, p, p + len, 10);
}

/// The group that `hex_text(g)` spells at `p`, followed by a `:` or the end,
/// reads as `g`.
proof fn lemma_read_hex_group_at(s: Seq<char>, p: int, g: u16)
    requires
        0 <= p,
        p + hex_text(g as nat).len() <= s.len(),
        s.subrange(p, p + hex_text(g as nat).len()) == hex_text(g as nat),
        p + hex_text(g as nat).len() == s.len() || s[p + hex_text(g as nat).len()] == ':',
    ensures
        read_hex_group(s, p) == Some((g, p + hex_text(g as nat).len())),
{
    let h = hex_text(g as nat);
    lemma_hex_text(g as nat, 0xffff_ffff_ffff_ffff);
    lemma_digit_run_of(s, p, h, 16);
    assert(s[p] == h[0]);
    assert(digit_value(h[0], 16) is Some);
}

/// The text that `read_groups` reads as the groups `gs`: each group in hex,
/// each but the first (with `lead`, each) preceded by a `:`.
pub open spec fn groups_text(gs: Seq<u16>, lead: bool) -> Seq<char>
    decreases gs.len(),
{
    if gs.len() == 0 {
        Seq::empty()
    } else {
        let sep: Seq<char> = if lead {
            seq![':']
        } else {
            Seq::empty()
        };
        sep + hex_text(gs[0] as nat) + groups_text(gs.drop_first(), true)
    }
}

proof fn lemma_groups_text_push(gs: Seq<u16>, x: u16, lead: bool)
    ensures
        groups_text(gs.push(x), lead) == groups_text(gs, lead) + (if lead || gs.len() > 0 {
            seq![':']
        } else {
            Seq::<char>::empty()
        }) + hex_text(x as nat),
    decreases gs.len(),
{
    if gs.len() == 0 {
        assert(gs.push(x).drop_first() =~= Seq::<u16>::empty());
        assert(gs.push(x)[0] == x);
        assert(groups_text(Seq::<u16>::empty(), true) =~= Seq::<char>::empty());
        assert(groups_text(gs, lead) =~= Seq::<char>::empty());
        assert(groups_text(gs.push(x), lead) =~= groups_text(gs, lead) + (if lead || gs.len() > 0 {
            seq![':']
        } else {
            Seq::<char>::empty()
        }) + hex_text(x as nat));
    } else {
        assert(gs.push(x).drop_first() =~= gs.drop_first().push(x));
        lemma_groups_text_push(gs.drop_first(), x, true);
        let sep: Seq<char> = if lead {
            seq![':']
        } else {
            Seq::empty()
        };
        assert(groups_text(gs.push(x), lead) =~= sep + hex_text(gs[0] as nat) + groups_text(gs.drop_first().push(x), true));
        assert(groups_text(gs.push(x), lead) =~= groups_text(gs, lead) + seq![':'] + hex_text(x as nat));
    }
}

/// `read_groups`'s view of groups text is the colon-separated hex text.
proof fn lemma_groups_text_join(gs: Seq<u16>)
    ensures
        groups_text(gs, false) == hex_groups_text(gs),
    decreases gs.len(),
{
    if gs.len() > 0 {
        let init = gs.drop_last();
        lemma_groups_text_join(init);
        assert(init.push(gs.last()) =~= gs);
        lemma_groups_text_push(init, gs.last(), false);
        if gs.len() == 1 {
            assert(groups_text(gs, false) =~= hex_text(gs[0] as nat));
        } else {
            assert(groups_text(gs, false) =~= hex_groups_text(init).push(':') + hex_text(gs.last() as nat));
        }
    }
}

/// Every character of a groups text is a hex digit or a `:`.
proof fn lemma_groups_text_chars(gs: Seq<u16>, lead: bool)
    ensures
        forall|k: int| 0 <= k < groups_text(gs, lead).len() ==> #[trigger] groups_text(gs, lead)[k] == ':' || digit_value(groups_text(gs, lead)[k], 16) is Some,
        lead && gs.len() > 0 ==> groups_text(gs, lead)[0] == ':',
    decreases gs.len(),
{
    if gs.len() > 0 {
        lemma_groups_text_chars(gs.drop_first(), true);
        lemma_hex_text(gs[0] as nat, 0xffff_ffff_ffff_ffff);
        let sep: Seq<char> = if lead {
            seq![':']
        } else {
            Seq::empty()
        };
        let h = hex_text(gs[0] as nat);
        let r = groups_text(gs.drop_first(), true);
        let t = groups_text(gs, lead);
        assert forall|k: int| 0 <= k < t.len() implies #[trigger] t[k] == ':' || digit_value(t[k], 16) is Some by {
            if k < sep.len() {
                assert(t[k] == sep[k]);
            } else if k < sep.len() + h.len() {
                assert(t[k] == h[k - sep.len()]);
            } else {
                assert(t[k] == r[k - sep.len() - h.len()]);
            }
        }
    }
}

/// How a groups text lies in `s` at `pos`: its separator, its first group
/// in hex (free of `.`, and followed by a `:` or the end), and the rest.
proof fn lemma_groups_text_head(s: Seq<char>, pos: int, gs: Seq<u16>, lead: bool)
    requires
        gs.len() > 0,
        0 <= pos,
        pos + groups_text(gs, lead).len() <= s.len(),
        s.subrange(pos, pos + groups_text(gs, lead).len()) == groups_text(gs, lead),
        ({
            let q = pos + groups_text(gs, lead).len();
            q == s.len() || (q + 1 < s.len() && s[q] == ':' && s[q + 1] == ':')
        }),
    ensures
        ({
            let p = if lead { pos + 1 } else { pos };
            let h = hex_text(gs[0] as nat);
            let r = groups_text(gs.drop_first(), true);
            &&& lead ==> s[pos] == ':'
            &&& p + h.len() + r.len() == pos + groups_text(gs, lead).len()
            &&& s.subrange(p, p + h.len()) == h
            &&& s.subrange(p + h.len(), p + h.len() + r.len()) == r
            &&& forall|k: int| p <= k < p + h.len() ==> s[k] != '.'
            &&& (p + h.len() == s.len() || s[p + h.len()] == ':')
        }),
{
    let t = groups_text(gs, lead);
    let sep: Seq<char> = if lead {
        seq![':']
    } else {
        Seq::empty()
    };
    let h = hex_text(gs[0] as nat);
    let rest = gs.drop_first();
    let r = groups_text(rest, true);
    let p = pos + sep.len();
    let q = pos + t.len();
    assert(t =~= sep + h + r);
    lemma_hex_text(gs[0] as nat, 0xffff_ffff_ffff_ffff);
    lemma_groups_text_chars(rest, true);
    if lead {
        assert(s[pos] == t[0]);
    }
    assert(s.subrange(p, p + h.len()) =~= h) by {
        assert forall|k: int| 0 <= k < h.len() implies s.subrange(p, p + h.len())[k] == h[k] by {
            assert(s[p + k] == t[sep.len() + k]);
        }
    }
    assert(s.subrange(p + h.len(), q) =~= r) by {
        assert forall|k: int| 0 <= k < r.len() implies s.subrange(p + h.len(), q)[k] == r[k] by {
            assert(s[p + h.len() + k] == t[sep.len() + h.len() + k]);
        }
    }
    if rest.len() > 0 {
        assert(s[p + h.len()] == t[(sep.len() + h.len()) as int]);
        assert(t[(sep.len() + h.len()) as int] == r[0]);
    }
    assert forall|k: int| p <= k < p + h.len() implies s[k] != '.' by {
        assert(s[k] == h[k - p]);
        assert(digit_value(h[k - p], 16) is Some);
    }
}

/// Reading groups over a groups text that is followed by the end or by a
/// `::` gives exactly those groups and stops after them.
proof fn lemma_read_groups_text(s: Seq<char>, pos: int, gs: Seq<u16>, i: int, limit: int)
    requires
        0 <= i,
        i + gs.len() <= limit <= 8,
        0 <= pos,
        pos + groups_text(gs, i > 0).len() <= s.len(),
        s.subrange(pos, pos + groups_text(gs, i > 0).len()) == groups_text(gs, i > 0),
        ({
            let q = pos + groups_text(gs, i > 0).len();
            q == s.len() || (q + 1 < s.len() && s[q] == ':' && s[q + 1] == ':')
        }),
    ensures
        read_groups(s, pos, i, limit) == (gs, pos + groups_text(gs, i > 0).len(), false),
    decreases gs.len(),
{
    if gs.len() == 0 {
        if i < limit {
            if i == 0 {
                lemma_no_ipv4(s, pos, 0);
                lemma_digit_run_le(s, pos, pos, 16);
            } else if 0 <= pos < s.len() && s[pos] == ':' {
                lemma_no_ipv4(s, pos + 1, 0);
                lemma_digit_run_le(s, pos + 1, pos + 1, 16);
            }
        }
    } else {
        let lead = i > 0;
        let p = if lead { pos + 1 } else { pos };
        let g0 = gs[0];
        let h = hex_text(g0 as nat);
        let rest = gs.drop_first();
        lemma_groups_text_head(s, pos, gs, lead);
        if i + 1 < limit {
            lemma_no_ipv4(s, p, h.len() as int);
        }
        lemma_read_hex_group_at(s, p, g0);
        lemma_read_groups_text(s, p + h.len(), rest, i + 1, limit);
        assert(seq![g0] + rest =~= gs);
    }
}

proof fn lemma_zero_span(g: Seq<u16>, i: int, cs: int, cl: int, bs: int, bl: int)
    requires
        0 <= i <= g.len(),
        cl == 0 || (0 <= cs && cs + cl == i && forall|k: int| cs <= k < cs + cl ==> g[k] == 0),
        0 <= bs,
        0 <= bl,
        bs + bl <= i,
        forall|k: int| bs <= k < bs + bl ==> g[k] == 0,
    ensures
        ({
            let (st, ln) = zero_span(g, i, cs, cl, bs, bl);
            &&& 0 <= st
            &&& 0 <= ln
            &&& st + ln <= g.len()
            &&& forall|k: int| st <= k < st + ln ==> g[k] == 0
        }),
    decreases g.len() - i,
{
    if i < g.len() {
        if g[i] == 0 {
            let ncs = if cl == 0 {
                i
            } else {
                cs
            };
            let ncl = cl + 1;
            if ncl > bl {
                lemma_zero_span(g, i + 1, ncs, ncl, ncs, ncl);
            } else {
                lemma_zero_span(g, i + 1, ncs, ncl, bs, bl);
            }
        } else {
            lemma_zero_span(g, i + 1, 0, 0, bs, bl);
        }
    }
}

proof fn lemma_plain_roundtrip(g: Seq<u16>)
    requires
        g.len() == 8,
    ensures
        parse_ipv6(hex_groups_text(g)) == Some(g),
{
    let s = hex_groups_text(g);
    lemma_groups_text_join(g);
    assert(s.subrange(0, s.len() as int) =~= s);
    lemma_read_groups_text(s, 0, g, 0, 8);
}

proof fn lemma_compressed_roundtrip(g: Seq<u16>, st: int, ln: int)
    requires
        g.len() == 8,
        0 <= st,
        2 <= ln,
        st + ln <= 8,
        forall|k: int| st <= k < st + ln ==> g[k] == 0,
    ensures
        parse_ipv6(hex_groups_text(g.take(st)) + "::"@ + hex_groups_text(g.skip(st + ln))) == Some(g),
{
    reveal_strlit("::");
    let a = g.take(st);
    let b = g.skip(st + ln);
    let ta = hex_groups_text(a);
    let tb = hex_groups_text(b);
    let s = ta + "::"@ + tb;
    let hp = ta.len() as int;
    lemma_groups_text_join(a);
    lemma_groups_text_join(b);
    assert(s.subrange(0, hp) =~= ta);
    assert(s[hp] == ':');
    assert(s[hp + 1] == ':');
    lemma_read_groups_text(s, 0, a, 0, 8);
    assert(s.subrange(hp + 2, s.len() as int) =~= tb);
    lemma_read_groups_text(s, hp + 2, b, 0, 8 - (st + 1));
    assert(a + Seq::new((8 - a.len() - b.len()) as nat, |i: int| 0u16) + b =~= g);
}

proof fn lemma_hex_ffff()
    ensures
        hex_text(0xffff) == seq!['f', 'f', 'f', 'f'],
{
    assert(hex_text(15) =~= seq!['f']);
    assert(hex_text(0xff) =~= seq!['f', 'f']);
    assert(hex_text(0xfff) =~= seq!['f', 'f', 'f']);
    assert(hex_text(0xffff) =~= seq!['f', 'f', 'f', 'f']);
}

proof fn lemma_mapped_roundtrip(g: Seq<u16>)
    requires
        g.len() == 8,
        is_ipv4_mapped(g),
    ensures
        parse_ipv6(ipv6_text(g)) == Some(g),
{
    reveal_strlit("::ffff:");
    let a = (g[6] / 256) as u8;
    let b = (g[6] % 256) as u8;
    let c = (g[7] / 256) as u8;
    let d = (g[7] % 256) as u8;
    let t4 = ipv4_text(a, b, c, d);
    let s = "::ffff:"@ + t4;
    assert(s == ipv6_text(g));
    assert(s.subrange(0, 0) =~= groups_text(Seq::<u16>::empty(), false));
    lemma_read_groups_text(s, 0, Seq::<u16>::empty(), 0, 8);
    assert(read_groups(s, 0, 0, 8) == (Seq::<u16>::empty(), 0int, false));
    lemma_hex_ffff();
    lemma_no_ipv4(s, 2, 4);
    assert(s.subrange(2, 6) =~= hex_text(0xffff));
    lemma_read_hex_group_at(s, 2, 0xffff);
    assert(s.subrange(7, s.len() as int) =~= t4);
    lemma_read_ipv4_at(s, 7, a, b, c, d);
    assert(read_groups(s, 6, 1, 7) == (seq![(a * 256 + b) as u16, (c * 256 + d) as u16], s.len() as int, true));
    let tail = seq![0xffffu16, (a * 256 + b) as u16, (c * 256 + d) as u16];
    assert(read_groups(s, 2, 0, 7) == (tail, s.len() as int, true)) by {
        assert(seq![0xffffu16] + seq![(a * 256 + b) as u16, (c * 256 + d) as u16] =~= tail);
    }
    assert((a * 256 + b) as u16 == g[6]);
    assert((c * 256 + d) as u16 == g[7]);
    assert(Seq::<u16>::empty() + Seq::new(5, |i: int| 0u16) + tail =~= g);
}

/// An IPv6 address written the way std displays it reads back as the same
/// address.
pub proof fn lemma_ipv6_text_roundtrip(g: Seq<u16>)
    requires
        g.len() == 8,
    ensures
        parse_ipv6(ipv6_text(g)) == Some(g),
{
    if is_ipv4_mapped(g) {
        lemma_mapped_roundtrip(g);
    } else {
        lemma_zero_span(g, 0, 0, 0, 0, 0);
        let (st, ln) = zero_span(g, 0, 0, 0, 0, 0);
        if ln > 1 {
            lemma_compressed_roundtrip(g, st, ln);
        } else {
            lemma_plain_roundtrip(g);
        }
    }
}

/// Every character of a dotted-decimal address is a decimal digit or a `.`.
pub proof fn lemma_ipv4_text_chars(a: u8, b: u8, c: u8, d: u8)
    ensures
        forall|k: int| 0 <= k < ipv4_text(a, b, c, d).len() ==> #[trigger] ipv4_text(a, b, c, d)[k] == '.'
            || digit_value(ipv4_text(a, b, c, d)[k], 10) is Some,
{
    let ta = dec_text(a as nat);
    let tb = dec_text(b as nat);
    let tc = dec_text(c as nat);
    let td = dec_text(d as nat);
    lemma_dec_text(a as nat, 255);
    lemma_dec_text(b as nat, 255);
    lemma_dec_text(c as nat, 255);
    lemma_dec_text(d as nat, 255);
    let t = ipv4_text(a, b, c, d);
    let p1 = ta.len() + 1;
    let p2 = p1 + tb.len() + 1;
    let p3 = p2 + tc.len() + 1;
    assert forall|k: int| 0 <= k < t.len() implies #[trigger] t[k] == '.' || digit_value(t[k], 10) is Some by {
        if k < ta.len() {
            assert(t[k] == ta[k]);
        } else if k == ta.len() {
            assert(t[k] == '.');
        } else if k < p1 + tb.len() {
            assert(t[k] == tb[k - p1]);
        } else if k == p1 + tb.len() {
            assert(t[k] == '.');
        } else if k < p2 + tc.len() {
            assert(t[k] == tc[k - p2]);
        } else if k == p2 + tc.len() {
            assert(t[k] == '.');
        } else {
            assert(t[k] == td[k - p3]);
        }
    }
}

/// Every character of an address as std displays it is a hex digit, a `:`
/// or a `.`.
pub proof fn lemma_ip_text_chars(ip: IpAddr)
    ensures
        forall|k: int| 0 <= k < ip_text(ip).len() ==> #[trigger] ip_text(ip)[k] == ':' || ip_text(ip)[k] == '.'
            || digit_value(ip_text(ip)[k], 16) is Some,
{
    let t = ip_text(ip);
    match ip {
        IpAddr::V4(a, b, c, d) => {
            lemma_ipv4_text_chars(a, b, c, d);
            assert forall|k: int| 0 <= k < t.len() implies #[trigger] t[k] == ':' || t[k] == '.' || digit_value(t[k], 16) is Some by {
                if t[k] != '.' {
                    assert(digit_value(t[k], 10) is Some);
                }
            }
        },
        IpAddr::V6(..) => {
            let g = ipv6_groups(ip);
            if is_ipv4_mapped(g) {
                reveal_strlit("::ffff:");
                let a = (g[6] / 256) as u8;
                let b = (g[6] % 256) as u8;
                let c = (g[7] / 256) as u8;
                let d = (g[7] % 256) as u8;
                let t4 = ipv4_text(a, b, c, d);
                lemma_ipv4_text_chars(a, b, c, d);
                assert forall|k: int| 0 <= k < t.len() implies #[trigger] t[k] == ':' || t[k] == '.' || digit_value(t[k], 16) is Some by {
                    if k >= 7 {
                        assert(t[k] == t4[k - 7]);
                        if t4[k - 7] != '.' {
                            assert(digit_value(t4[k - 7], 10) is Some);
                        }
                    }
                }
            } else {
                lemma_zero_span(g, 0, 0, 0, 0, 0);
                let (st, ln) = zero_span(g, 0, 0, 0, 0, 0);
                if ln > 1 {
                    reveal_strlit("::");
                    let ta = hex_groups_text(g.take(st));
                    let tb = hex_groups_text(g.skip(st + ln));
                    lemma_groups_text_join(g.take(st));
                    lemma_groups_text_join(g.skip(st + ln));
                    lemma_groups_text_chars(g.take(st), false);
                    lemma_groups_text_chars(g.skip(st + ln), false);
                    assert forall|k: int| 0 <= k < t.len() implies #[trigger] t[k] == ':' || t[k] == '.' || digit_value(t[k], 16) is Some by {
                        if k < ta.len() {
                            assert(t[k] == ta[k]);
                        } else if k >= ta.len() + 2 {
                            assert(t[k] == tb[k - ta.len() - 2]);
                        }
                    }
                } else {
                    lemma_groups_text_join(g);
                    lemma_groups_text_chars(g, false);
                }
            }
        },
    }
}

} // verus!
