//! The line protocol between the mail daemon and a filter: reading event
//! lines and addresses, and writing filter replies.

use vstd::prelude::*;
use crate::number::{dec_fixed, lemma_dec_fixed, hex_text, lemma_hex_text, dec_text, digit_value, lemma_dec_text, lemma_hex_fixed_digits, lemma_hex_fixed_roundtrip, hex_fixed, push_hex_fixed, IntErrorKind, int_error_message, int_error_text, parse_uint, parse_uint_range, pow10, nanos_scale};
use crate::text::{lemma_find_first_none, lemma_find_last_at, lemma_split_once, lemma_split_once_at, push_char, chars_of, concat_range, find_char_last, find_last, concat_strs, range_eq_str, split_at_char, split_once, string_of_range};
use crate::ip::{lemma_ip_text_chars, hex_groups_text, is_ipv4_mapped, zero_span, IpAddr, SocketAddr, ip_text, ipv4_text, ipv6_groups, ipv6_text, lemma_ipv4_text_roundtrip, lemma_ipv6_text_roundtrip, ipv6_of, parse_ipv4, parse_ipv4_chars, parse_ipv6, parse_ipv6_chars};
use crate::runner::{direction_name, kind_name};
use crate::types::{lemma_phase_name_plain, lemma_phase_name_roundtrip, phase_name, Address, AddressView, Direction, Event, FilterKind, Phase, Timestamp, phase_from_range, phase_of_name};

verus! {

/// A line or a field that does not follow the protocol, with a message
/// saying what is wrong.
#[derive(Debug)]
pub struct ParseError(pub String);

impl ParseError {
    /// The error as a sentence, prefixed the way the filter reports it.
    pub fn describe(&self) -> (s: String)
        ensures
            s@ == "protocol parse error: "@ + self.0@,
    {
        concat_strs("protocol parse error: ", self.0.as_str())
    }
}

/// A parse result with the error taken by its message.
pub open spec fn msg_result<T>(r: Result<T, ParseError>) -> Result<T, Seq<char>> {
    match r {
        Ok(x) => Ok(x),
        Err(e) => Err(e.0@),
    }
}

/// `prefix` followed by the text of an integer parse error.
pub open spec fn int_error_msg(prefix: Seq<char>, k: IntErrorKind) -> Seq<char> {
    prefix + int_error_text(k)
}

fn int_error(prefix: &str, k: IntErrorKind) -> (e: ParseError)
    ensures
        e.0@ == int_error_msg(prefix@, k),
{
    ParseError(concat_strs(prefix, int_error_message(k)))
}

fn plain_error(msg: &str) -> (e: ParseError)
    ensures
        e.0@ == msg@,
{
    ParseError(String::from_str(msg))
}

/// The largest value of a `u32`, as a bound for `parse_uint`.
pub open spec fn u32_max() -> nat {
    0xffff_ffff
}

/// The largest value of a `u64`, as a bound for `parse_uint`.
pub open spec fn u64_max() -> nat {
    0xffff_ffff_ffff_ffff
}

/// The protocol version `major.minor` that `s` spells: the text up to the
/// first `.` is the major number, the text after it up to the next `.` (or
/// the end) the minor number.
pub open spec fn spec_parse_version(s: Seq<char>) -> Result<(u32, u32), Seq<char>> {
    let (major_str, rest) = match split_once(s, '.') {
        Some((a, b)) => (a, Some(b)),
        None => (s, None),
    };
    match parse_uint(major_str, 10, u32_max()) {
        Err(k) => Err(int_error_msg("invalid major version: "@, k)),
        Ok(major) => match rest {
            None => Err("missing minor version"@),
            Some(rest) => {
                let minor_str = match split_once(rest, '.') {
                    Some((a, _)) => a,
                    None => rest,
                };
                match parse_uint(minor_str, 10, u32_max()) {
                    Err(k) => Err(int_error_msg("invalid minor version: "@, k)),
                    Ok(minor) => Ok((major as u32, minor as u32)),
                }
            },
        },
    }
}

fn parse_version(v: &Vec<char>, lo: usize, hi: usize) -> (r: Result<(u32, u32), ParseError>)
    requires
        lo <= hi <= v.len(),
    ensures
        msg_result(r) == spec_parse_version(v@.subrange(lo as int, hi as int)),
{
    let dot = split_at_char(v, lo, hi, '.');
    let major_hi = match dot {
        Some(i) => i,
        None => hi,
    };
    let major = match parse_uint_range(v, lo, major_hi, 10, 0xffff_ffff) {
        Ok(n) => n as u32,
        Err(k) => {
            return Err(int_error("invalid major version: ", k));
        },
    };
    let i = match dot {
        Some(i) => i,
        None => {
            return Err(plain_error("missing minor version"));
        },
    };
    let minor_hi = match split_at_char(v, i + 1, hi, '.') {
        Some(j) => j,
        None => hi,
    };
    let minor = match parse_uint_range(v, i + 1, minor_hi, 10, 0xffff_ffff) {
        Ok(n) => n as u32,
        Err(k) => {
            return Err(int_error("invalid minor version: ", k));
        },
    };
    Ok((major, minor))
}

/// Seconds since the epoch and nanoseconds (not yet carried into seconds)
/// that a timestamp field `secs.frac` spells. A fraction of fewer than nine
/// characters is scaled up to nanoseconds; a longer one is taken as a count
/// of nanoseconds, reduced to 32 bits.
pub open spec fn timestamp_parts(s: Seq<char>) -> Result<(nat, nat), Seq<char>> {
    match split_once(s, '.') {
        None => Err("missing nanoseconds"@),
        Some((secs_str, nsecs_str)) => match parse_uint(secs_str, 10, u64_max()) {
            Err(k) => Err(int_error_msg("invalid seconds: "@, k)),
            Ok(secs) => match parse_uint(nsecs_str, 10, u64_max()) {
                Err(k) => Err(int_error_msg("invalid nanoseconds: "@, k)),
                Ok(raw) => {
                    let n = if nsecs_str.len() < 9 {
                        raw * pow10((9 - nsecs_str.len()) as nat)
                    } else {
                        raw
                    };
                    Ok((secs, n % 0x1_0000_0000))
                },
            },
        },
    }
}

/// The largest number of seconds since the epoch that a system time holds.
pub open spec fn max_time_secs() -> nat {
    0x7fff_ffff_ffff_ffff
}

/// The timestamp field `s` is well formed but names a time past the last
/// one a system time can hold.
pub open spec fn timestamp_overflows(s: Seq<char>) -> bool {
    match timestamp_parts(s) {
        Ok((secs, n)) => secs + n / 1_000_000_000 > max_time_secs(),
        Err(_) => false,
    }
}

/// The timestamp that the field `s` spells, nanoseconds past a whole second
/// carried into the seconds.
pub open spec fn spec_parse_timestamp(s: Seq<char>) -> Result<Timestamp, Seq<char>> {
    match timestamp_parts(s) {
        Err(m) => Err(m),
        Ok((secs, n)) => Ok(
            Timestamp {
                secs: (secs + n / 1_000_000_000) as u64,
                nanos: (n % 1_000_000_000) as u32,
            },
        ),
    }
}

fn parse_timestamp(v: &Vec<char>, lo: usize, hi: usize) -> (r: Result<Timestamp, ParseError>)
    requires
        lo <= hi <= v.len(),
        !timestamp_overflows(v@.subrange(lo as int, hi as int)),
    ensures
        msg_result(r) == spec_parse_timestamp(v@.subrange(lo as int, hi as int)),
{
    let ghost s = v@.subrange(lo as int, hi as int);
    let dot = match split_at_char(v, lo, hi, '.') {
        Some(i) => i,
        None => {
            return Err(plain_error("missing nanoseconds"));
        },
    };
    let secs = match parse_uint_range(v, lo, dot, 10, 0xffff_ffff_ffff_ffff) {
        Ok(n) => n,
        Err(k) => {
            return Err(int_error("invalid seconds: ", k));
        },
    };
    let raw = match parse_uint_range(v, dot + 1, hi, 10, 0xffff_ffff_ffff_ffff) {
        Ok(n) => n,
        Err(k) => {
            return Err(int_error("invalid nanoseconds: ", k));
        },
    };
    let digits = hi - (dot + 1);
    let n: u128 = if digits < 9 {
        let scale = nanos_scale(digits);
        assert((raw as int) * (scale as int) <= 0xffff_ffff_ffff_ffff * 0xffff_ffff_ffff_ffff)
            by (nonlinear_arith)
            requires
                raw <= 0xffff_ffff_ffff_ffff,
                scale <= 0xffff_ffff_ffff_ffff,
        ;
        (raw as u128) * (scale as u128)
    } else {
        raw as u128
    };
    let n32: u64 = (n % 0x1_0000_0000) as u64;
    let carry: u64 = n32 / 1_000_000_000;
    Ok(Timestamp { secs: secs + carry, nanos: (n32 % 1_000_000_000) as u32 })
}

/// The event kind named `s` on the wire, if any.
pub open spec fn kind_of_name(s: Seq<char>) -> Option<FilterKind> {
    if s == "filter"@ {
        Some(FilterKind::Filter)
    } else if s == "report"@ {
        Some(FilterKind::Report)
    } else {
        None
    }
}

/// The direction named `s` on the wire, if any.
pub open spec fn direction_of_name(s: Seq<char>) -> Option<Direction> {
    if s == "smtp-in"@ {
        Some(Direction::Incoming)
    } else if s == "smtp-out"@ {
        Some(Direction::Outgoing)
    } else {
        None
    }
}

/// The first three fields of an event line (kind, version and the raw
/// timestamp field) and the text after them.
pub open spec fn event_head(line: Seq<char>) -> Result<
    (FilterKind, (u32, u32), Seq<char>, Seq<char>),
    Seq<char>,
> {
    match split_once(line, '|') {
        None => Err("missing version"@),
        Some((kind_str, rest)) => match kind_of_name(kind_str) {
            None => Err("unknown type: "@ + kind_str),
            Some(kind) => match split_once(rest, '|') {
                None => Err("missing timestamp"@),
                Some((version_str, rest)) => match spec_parse_version(version_str) {
                    Err(m) => Err(m),
                    Ok(version) => match split_once(rest, '|') {
                        None => Err("missing direction"@),
                        Some((ts_str, rest)) => Ok((kind, version, ts_str, rest)),
                    },
                },
            },
        },
    }
}

/// The line's timestamp field is reached by the parse and names a time past
/// the last one a system time holds.
pub open spec fn event_time_overflows(line: Seq<char>) -> bool {
    match event_head(line) {
        Ok((_, _, ts_str, _)) => timestamp_overflows(ts_str),
        Err(_) => false,
    }
}

/// The session id, the token (filter requests only) and the parameters
/// that follow the phase field of an event line.
pub open spec fn event_tail(kind: FilterKind, rest: Seq<char>) -> Result<
    (u64, Option<u64>, Seq<char>),
    Seq<char>,
> {
    if kind == FilterKind::Filter {
        match split_once(rest, '|') {
            None => Err("missing token"@),
            Some((reqid_str, rest)) => match parse_uint(reqid_str, 16, u64_max()) {
                Err(k) => Err(int_error_msg("invalid reqid: "@, k)),
                Ok(reqid) => {
                    let (token_str, params) = match split_once(rest, '|') {
                        Some((a, b)) => (a, b),
                        None => (rest, Seq::empty()),
                    };
                    match parse_uint(token_str, 16, u64_max()) {
                        Err(k) => Err(int_error_msg("invalid token: "@, k)),
                        Ok(token) => Ok((reqid as u64, Some(token as u64), params)),
                    }
                },
            },
        }
    } else {
        let (reqid_str, params) = match split_once(rest, '|') {
            Some((a, b)) => (a, b),
            None => (rest, Seq::empty()),
        };
        match parse_uint(reqid_str, 16, u64_max()) {
            Err(k) => Err(int_error_msg("invalid reqid: "@, k)),
            Ok(reqid) => Ok((reqid as u64, None, params)),
        }
    }
}

/// The fields from the direction on: direction, phase, and what
/// `event_tail` reads.
pub open spec fn event_body(kind: FilterKind, rest: Seq<char>) -> Result<
    (Direction, Phase, u64, Option<u64>, Seq<char>),
    Seq<char>,
> {
    match split_once(rest, '|') {
        None => Err("missing phase"@),
        Some((dir_str, rest)) => match direction_of_name(dir_str) {
            None => Err("unknown direction: "@ + dir_str),
            Some(direction) => match split_once(rest, '|') {
                None => Err("missing reqid"@),
                Some((phase_str, rest)) => match phase_of_name(phase_str) {
                    None => Err("unknown phase: "@ + phase_str),
                    Some(phase) => match event_tail(kind, rest) {
                        Err(m) => Err(m),
                        Ok((reqid, token, params)) => Ok((direction, phase, reqid, token, params)),
                    },
                },
            },
        },
    }
}

/// The event that a protocol line announces, and the text of its
/// parameters; or the message saying why the line is not an event.
///
/// A line is `kind|version|timestamp|direction|phase|reqid[|token][|params]`,
/// where a filter request carries a token and a report does not; the
/// session id and the token are hexadecimal.
pub open spec fn spec_parse_event(line: Seq<char>) -> Result<(Event, Seq<char>), Seq<char>> {
    match event_head(line) {
        Err(m) => Err(m),
        Ok((kind, version, ts_str, rest)) => match spec_parse_timestamp(ts_str) {
            Err(m) => Err(m),
            Ok(timestamp) => match event_body(kind, rest) {
                Err(m) => Err(m),
                Ok((direction, phase, reqid, token, params)) => Ok(
                    (
                        Event {
                            kind,
                            phase,
                            version_major: version.0,
                            version_minor: version.1,
                            timestamp,
                            direction,
                            reqid,
                            token,
                        },
                        params,
                    ),
                ),
            },
        },
    }
}

fn kind_from_range(v: &Vec<char>, lo: usize, hi: usize) -> (r: Option<FilterKind>)
    requires
        lo <= hi <= v.len(),
    ensures
        r == kind_of_name(v@.subrange(lo as int, hi as int)),
{
    if range_eq_str(v, lo, hi, "filter") {
        Some(FilterKind::Filter)
    } else if range_eq_str(v, lo, hi, "report") {
        Some(FilterKind::Report)
    } else {
        None
    }
}

fn direction_from_range(v: &Vec<char>, lo: usize, hi: usize) -> (r: Option<Direction>)
    requires
        lo <= hi <= v.len(),
    ensures
        r == direction_of_name(v@.subrange(lo as int, hi as int)),
{
    if range_eq_str(v, lo, hi, "smtp-in") {
        Some(Direction::Incoming)
    } else if range_eq_str(v, lo, hi, "smtp-out") {
        Some(Direction::Outgoing)
    } else {
        None
    }
}

/// Reads the first fields of `v[0..]`: the kind, the version, and the
/// bounds of the timestamp field and of the rest.
fn parse_event_head(v: &Vec<char>) -> (r: Result<(FilterKind, (u32, u32), usize, usize), ParseError>)
    ensures
        match r {
            Ok((kind, version, ts_lo, ts_hi)) => ts_lo <= ts_hi < v.len() && event_head(v@) == Ok::<
                _,
                Seq<char>,
            >((kind, version, v@.subrange(ts_lo as int, ts_hi as int), v@.subrange(ts_hi + 1, v.len() as int))),
            Err(e) => event_head(v@) == Err::<(FilterKind, (u32, u32), Seq<char>, Seq<char>), _>(e.0@),
        },
{
    let n = v.len();
    assert(v@.subrange(0, n as int) =~= v@);
    let p1 = match split_at_char(v, 0, n, '|') {
        Some(i) => i,
        None => {
            return Err(plain_error("missing version"));
        },
    };
    let kind = match kind_from_range(v, 0, p1) {
        Some(k) => k,
        None => {
            return Err(ParseError(concat_range("unknown type: ", v, 0, p1)));
        },
    };
    let p2 = match split_at_char(v, p1 + 1, n, '|') {
        Some(i) => i,
        None => {
            return Err(plain_error("missing timestamp"));
        },
    };
    let version = match parse_version(v, p1 + 1, p2) {
        Ok(x) => x,
        Err(e) => {
            return Err(e);
        },
    };
    let p3 = match split_at_char(v, p2 + 1, n, '|') {
        Some(i) => i,
        None => {
            return Err(plain_error("missing direction"));
        },
    };
    Ok((kind, version, p2 + 1, p3))
}

/// Reads the session id, the token and the bounds of the parameters from
/// `v[lo..]`.
fn parse_event_tail(v: &Vec<char>, lo: usize, kind: FilterKind) -> (r: Result<(u64, Option<u64>, usize), ParseError>)
    requires
        lo <= v.len(),
    ensures
        match r {
            Ok((reqid, token, p_lo)) => lo <= p_lo <= v.len() && event_tail(kind, v@.subrange(lo as int, v.len() as int))
                == Ok::<_, Seq<char>>((reqid, token, v@.subrange(p_lo as int, v.len() as int))),
            Err(e) => event_tail(kind, v@.subrange(lo as int, v.len() as int)) == Err::<
                (u64, Option<u64>, Seq<char>),
                _,
            >(e.0@),
        },
{
    let n = v.len();
    assert(v@.subrange(n as int, n as int) =~= Seq::<char>::empty());
    if kind == FilterKind::Filter {
        let p = match split_at_char(v, lo, n, '|') {
            Some(i) => i,
            None => {
                return Err(plain_error("missing token"));
            },
        };
        let reqid = match parse_uint_range(v, lo, p, 16, 0xffff_ffff_ffff_ffff) {
            Ok(x) => x,
            Err(k) => {
                return Err(int_error("invalid reqid: ", k));
            },
        };
        let (t_hi, p_lo) = match split_at_char(v, p + 1, n, '|') {
            Some(i) => (i, i + 1),
            None => (n, n),
        };
        let token = match parse_uint_range(v, p + 1, t_hi, 16, 0xffff_ffff_ffff_ffff) {
            Ok(x) => x,
            Err(k) => {
                return Err(int_error("invalid token: ", k));
            },
        };
        Ok((reqid, Some(token), p_lo))
    } else {
        let (r_hi, p_lo) = match split_at_char(v, lo, n, '|') {
            Some(i) => (i, i + 1),
            None => (n, n),
        };
        let reqid = match parse_uint_range(v, lo, r_hi, 16, 0xffff_ffff_ffff_ffff) {
            Ok(x) => x,
            Err(k) => {
                return Err(int_error("invalid reqid: ", k));
            },
        };
        Ok((reqid, None, p_lo))
    }
}

/// Reads the direction, the phase, the session id, the token and the
/// bounds of the parameters from `v[lo..]`.
fn parse_event_body(v: &Vec<char>, lo: usize, kind: FilterKind) -> (r: Result<
    (Direction, Phase, u64, Option<u64>, usize),
    ParseError,
>)
    requires
        lo <= v.len(),
    ensures
        match r {
            Ok((direction, phase, reqid, token, p_lo)) => lo <= p_lo <= v.len() && event_body(
                kind,
                v@.subrange(lo as int, v.len() as int),
            ) == Ok::<_, Seq<char>>(
                (direction, phase, reqid, token, v@.subrange(p_lo as int, v.len() as int)),
            ),
            Err(e) => event_body(kind, v@.subrange(lo as int, v.len() as int)) == Err::<
                (Direction, Phase, u64, Option<u64>, Seq<char>),
                _,
            >(e.0@),
        },
{
    let n = v.len();
    let p1 = match split_at_char(v, lo, n, '|') {
        Some(i) => i,
        None => {
            return Err(plain_error("missing phase"));
        },
    };
    let direction = match direction_from_range(v, lo, p1) {
        Some(d) => d,
        None => {
            return Err(ParseError(concat_range("unknown direction: ", v, lo, p1)));
        },
    };
    let p2 = match split_at_char(v, p1 + 1, n, '|') {
        Some(i) => i,
        None => {
            return Err(plain_error("missing reqid"));
        },
    };
    let phase = match phase_from_range(v, p1 + 1, p2) {
        Some(p) => p,
        None => {
            return Err(ParseError(concat_range("unknown phase: ", v, p1 + 1, p2)));
        },
    };
    match parse_event_tail(v, p2 + 1, kind) {
        Ok((reqid, token, p_lo)) => Ok((direction, phase, reqid, token, p_lo)),
        Err(e) => Err(e),
    }
}

/// Whether the timestamp of `line` names a time a system time can hold (or
/// the line fails before its timestamp is read).
pub fn event_time_in_range(line: &str) -> (r: bool)
    ensures
        r == !event_time_overflows(line@),
{
    let v = chars_of(line);
    match parse_event_head(&v) {
        Err(_) => true,
        Ok((_, _, ts_lo, ts_hi)) => {
            let ghost s = v@.subrange(ts_lo as int, ts_hi as int);
            let dot = match split_at_char(&v, ts_lo, ts_hi, '.') {
                Some(i) => i,
                None => {
                    return true;
                },
            };
            let secs = match parse_uint_range(&v, ts_lo, dot, 10, 0xffff_ffff_ffff_ffff) {
                Ok(x) => x,
                Err(_) => {
                    return true;
                },
            };
            let raw = match parse_uint_range(&v, dot + 1, ts_hi, 10, 0xffff_ffff_ffff_ffff) {
                Ok(x) => x,
                Err(_) => {
                    return true;
                },
            };
            let digits = ts_hi - (dot + 1);
            let n32: u64 = if digits < 9 {
                let scale = nanos_scale(digits);
                assert((raw as int) * (scale as int) <= 0xffff_ffff_ffff_ffff * 0xffff_ffff_ffff_ffff)
                    by (nonlinear_arith)
                    requires
                        raw <= 0xffff_ffff_ffff_ffff,
                        scale <= 0xffff_ffff_ffff_ffff,
                ;
                (((raw as u128) * (scale as u128)) % 0x1_0000_0000) as u64
            } else {
                raw % 0x1_0000_0000
            };
            (secs as u128) + ((n32 / 1_000_000_000) as u128) <= 0x7fff_ffff_ffff_ffff
        },
    }
}

/// Reads one protocol line: the event it announces and the text of its
/// parameters (a slice of `line`).
pub fn parse_event(line: &str) -> (r: Result<(Event, &str), ParseError>)
    requires
        !event_time_overflows(line@),
    ensures
        match r {
            Ok((event, params)) => spec_parse_event(line@) == Ok::<_, Seq<char>>((event, params@)),
            Err(e) => spec_parse_event(line@) == Err::<(Event, Seq<char>), _>(e.0@),
        },
{
    let v = chars_of(line);
    let n = v.len();
    let (kind, version, ts_lo, ts_hi) = match parse_event_head(&v) {
        Ok(x) => x,
        Err(e) => {
            return Err(e);
        },
    };
    let timestamp = match parse_timestamp(&v, ts_lo, ts_hi) {
        Ok(t) => t,
        Err(e) => {
            return Err(e);
        },
    };
    let (direction, phase, reqid, token, p_lo) = match parse_event_body(&v, ts_hi + 1, kind) {
        Ok(x) => x,
        Err(e) => {
            return Err(e);
        },
    };
    let params = line.substring_char(p_lo, n);
    let event = Event {
        kind,
        phase,
        version_major: version.0,
        version_minor: version.1,
        timestamp,
        direction,
        reqid,
        token,
    };
    Ok((event, params))
}

proof fn lemma_suffix_trans(a: Seq<char>, b: Seq<char>, c: Seq<char>)
    requires
        a.is_suffix_of(b),
        b.is_suffix_of(c),
    ensures
        a.is_suffix_of(c),
{
    assert forall|k: int| 0 <= k < a.len() implies a[k] == c[c.len() - a.len() + k] by {
        assert(a[k] == b[b.len() - a.len() + k]);
        assert(b[b.len() - a.len() + k] == c[c.len() - b.len() + (b.len() - a.len() + k)]);
    }
    assert(a =~= c.subrange(c.len() - a.len(), c.len() as int));
}

proof fn lemma_event_tail_shape(kind: FilterKind, rest: Seq<char>)
    ensures
        event_tail(kind, rest) matches Ok((_, token, params)) ==> (token is Some) == (kind
            == FilterKind::Filter) && params.is_suffix_of(rest),
{
    lemma_split_once(rest, '|');
    assert(Seq::<char>::empty().is_suffix_of(rest));
    if kind == FilterKind::Filter {
        if let Some((_, r2)) = split_once(rest, '|') {
            lemma_split_once(r2, '|');
            if let Some((_, q)) = split_once(r2, '|') {
                lemma_suffix_trans(q, r2, rest);
            }
        }
    }
}

proof fn lemma_event_body_shape(kind: FilterKind, rest: Seq<char>)
    ensures
        event_body(kind, rest) matches Ok((_, _, _, token, params)) ==> (token is Some) == (kind
            == FilterKind::Filter) && params.is_suffix_of(rest),
{
    lemma_split_once(rest, '|');
    if let Some((_, r1)) = split_once(rest, '|') {
        lemma_split_once(r1, '|');
        if let Some((_, r2)) = split_once(r1, '|') {
            lemma_event_tail_shape(kind, r2);
            if let Ok((_, _, q)) = event_tail(kind, r2) {
                lemma_suffix_trans(q, r2, r1);
                lemma_suffix_trans(q, r1, rest);
            }
        }
    }
}

proof fn lemma_event_head_shape(line: Seq<char>)
    ensures
        event_head(line) matches Ok((kind, _, _, rest)) ==> rest.is_suffix_of(line) && (kind
            == FilterKind::Filter) == "filter|"@.is_prefix_of(line),
{
    reveal_strlit("filter|");
    reveal_strlit("filter");
    reveal_strlit("report");
    lemma_split_once(line, '|');
    if let Some((kind_str, r1)) = split_once(line, '|') {
        lemma_split_once(r1, '|');
        if let Some((_, r2)) = split_once(r1, '|') {
            lemma_split_once(r2, '|');
            if let Some((_, r3)) = split_once(r2, '|') {
                lemma_suffix_trans(r3, r2, r1);
                lemma_suffix_trans(r3, r1, line);
            }
        }
        if kind_str == "filter"@ {
            assert(line.subrange(0, 7) =~= "filter|"@) by {
                assert forall|k: int| 0 <= k < 7 implies line[k] == "filter|"@[k] by {
                    if k < 6 {
                        assert(line[k] == kind_str[k]);
                    } else {
                        assert(line[6] == ('|' as char));
                    }
                }
            }
        } else if kind_str == "report"@ {
            assert(line[0] == kind_str[0]);
            if "filter|"@.is_prefix_of(line) {
                assert(line[0] == "filter|"@[0]);
            }
        }
    }
}

/// The shape of an event line that reads: a token comes exactly with a
/// filter request; the line is a filter request exactly when it starts
/// with `filter|`; and the parameters are the end of the line.
pub proof fn lemma_event_shape(line: Seq<char>, ev: Event, params: Seq<char>)
    requires
        spec_parse_event(line) == Ok::<_, Seq<char>>((ev, params)),
    ensures
        (ev.token is Some) == (ev.kind == FilterKind::Filter),
        (ev.kind == FilterKind::Filter) == "filter|"@.is_prefix_of(line),
        params.is_suffix_of(line),
{
    lemma_event_head_shape(line);
    let (kind, _, _, rest) = event_head(line)->Ok_0;
    lemma_event_body_shape(kind, rest);
    lemma_suffix_trans(params, rest, line);
}

/// The wire names of the event kinds and directions, as OpenSMTPD writes
/// them in event lines and registrations; each reads back as itself.
pub proof fn lemma_kind_direction_wire_names()
    ensures
        kind_name(FilterKind::Filter) == "filter"@,
        kind_name(FilterKind::Report) == "report"@,
        kind_of_name("filter"@) == Some(FilterKind::Filter),
        kind_of_name("report"@) == Some(FilterKind::Report),
        direction_name(Direction::Incoming) == "smtp-in"@,
        direction_name(Direction::Outgoing) == "smtp-out"@,
        direction_of_name("smtp-in"@) == Some(Direction::Incoming),
        direction_of_name("smtp-out"@) == Some(Direction::Outgoing),
{
    reveal_strlit("filter");
    reveal_strlit("report");
    reveal_strlit("smtp-in");
    reveal_strlit("smtp-out");
    assert("report"@[0] != "filter"@[0]);
    assert("smtp-out"@.len() != "smtp-in"@.len());
}

/// `s` holds no `c`.
pub open spec fn lacks(s: Seq<char>, c: char) -> bool {
    forall|j: int| 0 <= j < s.len() ==> s[j] != c
}

/// The event line that the daemon writes for an event of `kind` at protocol
/// version `major.minor`, stamped `secs` seconds and `nanos` nanoseconds
/// (nine digits) after the epoch, in direction `d`, of phase `phase`, for
/// session `reqid` (and request `token` on a filter request), with
/// parameters `params`.
pub open spec fn event_line(
    kind: FilterKind,
    major: u32,
    minor: u32,
    secs: u64,
    nanos: u32,
    d: Direction,
    phase: Phase,
    reqid: u64,
    token: u64,
    params: Seq<char>,
) -> Seq<char> {
    let bar = seq!['|'];
    let tail = if kind == FilterKind::Filter {
        hex_text(reqid as nat) + bar + (hex_text(token as nat) + bar + params)
    } else {
        hex_text(reqid as nat) + bar + params
    };
    kind_name(kind) + bar + ((dec_text(major as nat) + seq!['.'] + dec_text(minor as nat)) + bar + ((
    dec_text(secs as nat) + seq!['.'] + dec_fixed(nanos as nat, 9)) + bar + (direction_name(d) + bar + (
    phase_name(phase) + bar + tail))))
}

proof fn lemma_digits_plain(s: Seq<char>, radix: nat)
    requires
        radix <= 16,
        forall|j: int| 0 <= j < s.len() ==> #[trigger] digit_value(s[j], radix) is Some,
    ensures
        lacks(s, '|'),
        lacks(s, '.'),
        s.len() > 0 ==> s[0] != '+',
{
    assert forall|j: int| 0 <= j < s.len() implies s[j] != '|' && s[j] != '.' && s[j] != '+' by {
        assert(digit_value(s[j], radix) is Some);
    }
}

/// A protocol version written as `major.minor` reads back as that version.
pub proof fn lemma_version_text(a: u32, b: u32)
    ensures
        lacks(dec_text(a as nat) + seq!['.'] + dec_text(b as nat), '|'),
        spec_parse_version(dec_text(a as nat) + seq!['.'] + dec_text(b as nat)) == Ok::<_, Seq<char>>((a, b)),
{
    let ta = dec_text(a as nat);
    let tb = dec_text(b as nat);
    let v = ta + seq!['.'] + tb;
    lemma_dec_text(a as nat, u32_max());
    lemma_dec_text(b as nat, u32_max());
    lemma_digits_plain(ta, 10);
    lemma_digits_plain(tb, 10);
    assert forall|j: int| 0 <= j < v.len() implies v[j] != '|' by {
        if j < ta.len() {
            assert(v[j] == ta[j]);
        } else if j > ta.len() {
            assert(v[j] == tb[j - ta.len() - 1]);
        }
    }
    lemma_split_once_at(ta, '.', tb);
    lemma_find_first_none(tb, '.');
}

proof fn lemma_timestamp_text(secs: u64, nanos: u32)
    requires
        nanos < 1_000_000_000,
    ensures
        lacks(dec_text(secs as nat) + seq!['.'] + dec_fixed(nanos as nat, 9), '|'),
        timestamp_parts(dec_text(secs as nat) + seq!['.'] + dec_fixed(nanos as nat, 9)) == Ok::<_, Seq<char>>(
            (secs as nat, nanos as nat),
        ),
        spec_parse_timestamp(dec_text(secs as nat) + seq!['.'] + dec_fixed(nanos as nat, 9)) == Ok::<_, Seq<char>>(
            Timestamp { secs, nanos },
        ),
{
    let ts = dec_text(secs as nat);
    let tn = dec_fixed(nanos as nat, 9);
    let t = ts + seq!['.'] + tn;
    reveal_with_fuel(pow10, 10);
    lemma_dec_text(secs as nat, u64_max());
    lemma_dec_fixed(nanos as nat, 9, u64_max());
    lemma_digits_plain(ts, 10);
    lemma_digits_plain(tn, 10);
    assert forall|j: int| 0 <= j < t.len() implies t[j] != '|' by {
        if j < ts.len() {
            assert(t[j] == ts[j]);
        } else if j > ts.len() {
            assert(t[j] == tn[j - ts.len() - 1]);
        }
    }
    lemma_split_once_at(ts, '.', tn);
}

proof fn lemma_event_tail_text(kind: FilterKind, reqid: u64, token: u64, params: Seq<char>)
    ensures
        event_tail(
            kind,
            if kind == FilterKind::Filter {
                hex_text(reqid as nat) + seq!['|'] + (hex_text(token as nat) + seq!['|'] + params)
            } else {
                hex_text(reqid as nat) + seq!['|'] + params
            },
        ) == Ok::<_, Seq<char>>(
            (reqid, if kind == FilterKind::Filter { Some(token) } else { None }, params),
        ),
{
    let hr = hex_text(reqid as nat);
    let ht = hex_text(token as nat);
    lemma_hex_text(reqid as nat, u64_max());
    lemma_hex_text(token as nat, u64_max());
    lemma_digits_plain(hr, 16);
    lemma_digits_plain(ht, 16);
    lemma_split_once_at(hr, '|', ht + seq!['|'] + params);
    lemma_split_once_at(ht, '|', params);
    lemma_split_once_at(hr, '|', params);
}

/// An event line as the daemon writes it reads back as the event it was
/// written for, with its parameters (which may hold `|`) passed on whole;
/// its time is out of range exactly when the seconds are.
pub proof fn lemma_event_line_reads_back(
    kind: FilterKind,
    major: u32,
    minor: u32,
    secs: u64,
    nanos: u32,
    d: Direction,
    phase: Phase,
    reqid: u64,
    token: u64,
    params: Seq<char>,
)
    requires
        nanos < 1_000_000_000,
    ensures
        ({
            let line = event_line(kind, major, minor, secs, nanos, d, phase, reqid, token, params);
            &&& spec_parse_event(line) == Ok::<_, Seq<char>>(
                (
                    Event {
                        kind,
                        phase,
                        version_major: major,
                        version_minor: minor,
                        timestamp: Timestamp { secs, nanos },
                        direction: d,
                        reqid,
                        token: if kind == FilterKind::Filter { Some(token) } else { None },
                    },
                    params,
                ),
            )
            &&& event_time_overflows(line) == (secs > max_time_secs())
        }),
{
    reveal_strlit("filter");
    reveal_strlit("report");
    reveal_strlit("smtp-in");
    reveal_strlit("smtp-out");
    let bar = seq!['|'];
    let k = kind_name(kind);
    let v = dec_text(major as nat) + seq!['.'] + dec_text(minor as nat);
    let t = dec_text(secs as nat) + seq!['.'] + dec_fixed(nanos as nat, 9);
    let dn = direction_name(d);
    let pn = phase_name(phase);
    let tail = if kind == FilterKind::Filter {
        hex_text(reqid as nat) + bar + (hex_text(token as nat) + bar + params)
    } else {
        hex_text(reqid as nat) + bar + params
    };
    let r4 = pn + bar + tail;
    let r3 = dn + bar + r4;
    let r2 = t + bar + r3;
    let r1 = v + bar + r2;
    let line = k + bar + r1;
    assert(line == event_line(kind, major, minor, secs, nanos, d, phase, reqid, token, params));
    assert(lacks(k, '|'));
    assert(lacks(dn, '|'));
    lemma_phase_name_plain(phase);
    lemma_version_text(major, minor);
    lemma_timestamp_text(secs, nanos);
    lemma_split_once_at(k, '|', r1);
    lemma_split_once_at(v, '|', r2);
    lemma_split_once_at(t, '|', r3);
    lemma_split_once_at(dn, '|', r4);
    lemma_split_once_at(pn, '|', tail);
    lemma_phase_name_roundtrip(phase, pn);
    lemma_event_tail_text(kind, reqid, token, params);
    assert(kind_of_name(k) == Some(kind));
    assert(direction_of_name(dn) == Some(d));
    assert(event_head(line) == Ok::<_, Seq<char>>((kind, (major, minor), t, r3)));
}

/// For a bracketed IPv6 address `s`: the address text and the port.
pub open spec fn ipv6_parts(s: Seq<char>, with_port: bool) -> Result<(Seq<char>, u16), Seq<char>> {
    if with_port {
        match find_last(s, ':') {
            None => Err("missing port in address: "@ + s),
            Some(colon) => match find_last(s.take(colon), ']') {
                None => Err("malformed IPv6 address: "@ + s),
                Some(bracket) => match parse_uint(s.skip(colon + 1), 10, 0xffff) {
                    Err(k) => Err(int_error_msg("invalid port: "@, k)),
                    Ok(port) => Ok((s.subrange(1, bracket), port as u16)),
                },
            },
        }
    } else if s.last() != ']' {
        Err("malformed IPv6 address: "@ + s)
    } else {
        Ok((s.subrange(1, s.len() - 1), 0u16))
    }
}

/// For an IPv4 address `s`: the address text and the port.
pub open spec fn ipv4_parts(s: Seq<char>, with_port: bool) -> Result<(Seq<char>, u16), Seq<char>> {
    if with_port {
        match find_last(s, ':') {
            None => Err("missing port in address: "@ + s),
            Some(colon) => match parse_uint(s.skip(colon + 1), 10, 0xffff) {
                Err(k) => Err(int_error_msg("invalid port: "@, k)),
                Ok(port) => Ok((s.take(colon), port as u16)),
            },
        }
    } else {
        Ok((s, 0u16))
    }
}

/// What `s` names as an address: a UNIX socket (`unix:...`, kept whole), an
/// IPv6 address in brackets or an IPv4 address, each followed by `:port`
/// when `with_port` is set (else the port is 0); or the message saying why
/// it names none.
pub open spec fn spec_parse_address(s: Seq<char>, with_port: bool) -> Result<AddressView, Seq<char>> {
    if s.len() >= 5 && s.take(5) == "unix:"@ {
        Ok(AddressView::Unix(s))
    } else if s.len() > 0 && s[0] == '[' {
        match ipv6_parts(s, with_port) {
            Err(m) => Err(m),
            Ok((addr, port)) => match parse_ipv6(addr) {
                None => Err("invalid IPv6 address: invalid IPv6 address syntax"@),
                Some(g) => Ok(AddressView::Ip(SocketAddr { ip: ipv6_of(g), port })),
            },
        }
    } else {
        match ipv4_parts(s, with_port) {
            Err(m) => Err(m),
            Ok((addr, port)) => match parse_ipv4(addr) {
                None => Err("invalid IPv4 address: invalid IPv4 address syntax"@),
                Some((a, b, c, d)) => Ok(AddressView::Ip(SocketAddr { ip: IpAddr::V4(a, b, c, d), port })),
            },
        }
    }
}

fn copy_range(v: &Vec<char>, lo: usize, hi: usize) -> (w: Vec<char>)
    requires
        lo <= hi <= v.len(),
    ensures
        w@ == v@.subrange(lo as int, hi as int),
{
    let mut w: Vec<char> = Vec::new();
    let mut i: usize = lo;
    while i < hi
        invariant
            lo <= i <= hi <= v.len(),
            w@ == v@.subrange(lo as int, i as int),
        decreases hi - i,
    {
        w.push(v[i]);
        assert(v@.subrange(lo as int, i + 1) =~= v@.subrange(lo as int, i as int).push(v@[i as int]));
        i = i + 1;
    }
    w
}

fn ipv6_parts_range(v: &Vec<char>, lo: usize, hi: usize, with_port: bool) -> (r: Result<(usize, usize, u16), ParseError>)
    requires
        lo < hi <= v.len(),
        v@[lo as int] == '[',
    ensures
        match r {
            Ok((a_lo, a_hi, port)) => a_lo <= a_hi <= v.len() && ipv6_parts(v@.subrange(lo as int, hi as int), with_port)
                == Ok::<_, Seq<char>>((v@.subrange(a_lo as int, a_hi as int), port)),
            Err(e) => ipv6_parts(v@.subrange(lo as int, hi as int), with_port) == Err::<(Seq<char>, u16), _>(e.0@),
        },
{
    let ghost s = v@.subrange(lo as int, hi as int);
    if with_port {
        let colon = match find_char_last(v, lo, hi, ':') {
            Some(i) => i,
            None => {
                return Err(ParseError(concat_range("missing port in address: ", v, lo, hi)));
            },
        };
        assert(s.take(colon - lo) =~= v@.subrange(lo as int, colon as int));
        let bracket = match find_char_last(v, lo, colon, ']') {
            Some(i) => i,
            None => {
                return Err(ParseError(concat_range("malformed IPv6 address: ", v, lo, hi)));
            },
        };
        assert(s.skip(colon - lo + 1) =~= v@.subrange(colon + 1, hi as int));
        let port = match parse_uint_range(v, colon + 1, hi, 10, 0xffff) {
            Ok(p) => p as u16,
            Err(k) => {
                return Err(int_error("invalid port: ", k));
            },
        };
        assert(v@.subrange(lo as int, colon as int)[0] == '[');
        assert(s.subrange(1, bracket - lo) =~= v@.subrange(lo + 1, bracket as int));
        Ok((lo + 1, bracket, port))
    } else {
        if v[hi - 1] != ']' {
            return Err(ParseError(concat_range("malformed IPv6 address: ", v, lo, hi)));
        }
        assert(s.subrange(1, s.len() - 1) =~= v@.subrange(lo + 1, hi - 1));
        Ok((lo + 1, hi - 1, 0u16))
    }
}

fn ipv4_parts_range(v: &Vec<char>, lo: usize, hi: usize, with_port: bool) -> (r: Result<(usize, u16), ParseError>)
    requires
        lo <= hi <= v.len(),
    ensures
        match r {
            Ok((a_hi, port)) => lo <= a_hi <= hi && ipv4_parts(v@.subrange(lo as int, hi as int), with_port)
                == Ok::<_, Seq<char>>((v@.subrange(lo as int, a_hi as int), port)),
            Err(e) => ipv4_parts(v@.subrange(lo as int, hi as int), with_port) == Err::<(Seq<char>, u16), _>(e.0@),
        },
{
    let ghost s = v@.subrange(lo as int, hi as int);
    if with_port {
        let colon = match find_char_last(v, lo, hi, ':') {
            Some(i) => i,
            None => {
                return Err(ParseError(concat_range("missing port in address: ", v, lo, hi)));
            },
        };
        assert(s.skip(colon - lo + 1) =~= v@.subrange(colon + 1, hi as int));
        let port = match parse_uint_range(v, colon + 1, hi, 10, 0xffff) {
            Ok(p) => p as u16,
            Err(k) => {
                return Err(int_error("invalid port: ", k));
            },
        };
        assert(s.take(colon - lo) =~= v@.subrange(lo as int, colon as int));
        Ok((colon, port))
    } else {
        Ok((hi, 0u16))
    }
}

/// Reads the address named by `v[lo..hi]` (see `spec_parse_address`).
pub fn parse_address_range(v: &Vec<char>, lo: usize, hi: usize, with_port: bool) -> (r: Result<Address, ParseError>)
    requires
        lo <= hi <= v.len(),
    ensures
        match r {
            Ok(a) => spec_parse_address(v@.subrange(lo as int, hi as int), with_port) == Ok::<_, Seq<char>>(a@),
            Err(e) => spec_parse_address(v@.subrange(lo as int, hi as int), with_port) == Err::<AddressView, _>(e.0@),
        },
{
    let ghost s = v@.subrange(lo as int, hi as int);
    if hi - lo >= 5 && range_eq_str(v, lo, lo + 5, "unix:") {
        assert(s.take(5) =~= v@.subrange(lo as int, lo + 5));
        return Ok(Address::Unix(string_of_range(v, lo, hi)));
    }
    proof {
        if s.len() >= 5 {
            assert(s.take(5) =~= v@.subrange(lo as int, lo + 5));
        }
    }
    if lo < hi && v[lo] == '[' {
        let (a_lo, a_hi, port) = match ipv6_parts_range(v, lo, hi, with_port) {
            Ok(x) => x,
            Err(e) => {
                return Err(e);
            },
        };
        let w = copy_range(v, a_lo, a_hi);
        match parse_ipv6_chars(&w) {
            Some(ip) => Ok(Address::Ip(SocketAddr { ip, port })),
            None => Err(plain_error("invalid IPv6 address: invalid IPv6 address syntax")),
        }
    } else {
        let (a_hi, port) = match ipv4_parts_range(v, lo, hi, with_port) {
            Ok(x) => x,
            Err(e) => {
                return Err(e);
            },
        };
        let w = copy_range(v, lo, a_hi);
        match parse_ipv4_chars(&w) {
            Some(ip) => Ok(Address::Ip(SocketAddr { ip, port })),
            None => Err(plain_error("invalid IPv4 address: invalid IPv4 address syntax")),
        }
    }
}

/// Reads the address named by `s`: `unix:...` for a UNIX socket (kept
/// whole), `[ipv6]` or an IPv4 address, each followed by `:port` when
/// `with_port` is set (else the port is 0).
pub fn parse_address(s: &str, with_port: bool) -> (r: Result<Address, ParseError>)
    ensures
        match r {
            Ok(a) => spec_parse_address(s@, with_port) == Ok::<_, Seq<char>>(a@),
            Err(e) => spec_parse_address(s@, with_port) == Err::<AddressView, _>(e.0@),
        },
{
    let v = chars_of(s);
    assert(v@.subrange(0, v@.len() as int) =~= v@);
    parse_address_range(&v, 0, v.len(), with_port)
}

/// A socket address as std displays it: `a.b.c.d:port`, or `[v6]:port`.
pub open spec fn socket_text(sa: SocketAddr) -> Seq<char> {
    match sa.ip {
        IpAddr::V4(..) => ip_text(sa.ip).push(':') + dec_text(sa.port as nat),
        IpAddr::V6(..) => seq!['['] + ip_text(sa.ip) + seq![']', ':'] + dec_text(sa.port as nat),
    }
}

/// The port text after the last `:` parses back as the port.
proof fn lemma_port_after_colon(s: Seq<char>, colon: int, port: u16)
    requires
        0 <= colon,
        colon + 1 + dec_text(port as nat).len() == s.len(),
        s[colon] == ':',
        s.skip(colon + 1) == dec_text(port as nat),
    ensures
        find_last(s, ':') == Some(colon),
        parse_uint(s.skip(colon + 1), 10, 0xffff) == Ok::<nat, IntErrorKind>(port as nat),
{
    let tp = dec_text(port as nat);
    lemma_dec_text(port as nat, 0xffff);
    assert(tp[0] != '+');
    assert forall|j: int| colon < j < s.len() implies s[j] != ':' by {
        assert(s[j] == tp[j - colon - 1]);
        assert(digit_value(tp[j - colon - 1], 10) is Some);
    }
    lemma_find_last_at(s, ':', colon);
}

proof fn lemma_v4_socket_roundtrip(a: u8, b: u8, c: u8, d: u8, port: u16)
    ensures
        spec_parse_address(socket_text(SocketAddr { ip: IpAddr::V4(a, b, c, d), port }), true)
            == Ok::<_, Seq<char>>(AddressView::Ip(SocketAddr { ip: IpAddr::V4(a, b, c, d), port })),
{
    reveal_strlit("unix:");
    let s = socket_text(SocketAddr { ip: IpAddr::V4(a, b, c, d), port });
    let t4 = ipv4_text(a, b, c, d);
    let colon = t4.len() as int;
    lemma_dec_text(a as nat, 255);
    assert(s[0] == dec_text(a as nat)[0]);
    assert(digit_value(s[0], 10) is Some);
    if s.len() >= 5 && s.take(5) == "unix:"@ {
        assert(s[0] == s.take(5)[0]);
    }
    assert(s.skip(colon + 1) =~= dec_text(port as nat));
    lemma_port_after_colon(s, colon, port);
    assert(s.take(colon) =~= t4);
    lemma_ipv4_text_roundtrip(a, b, c, d);
    assert(ipv4_parts(s, true) == Ok::<_, Seq<char>>((t4, port)));
}

proof fn lemma_v6_socket_roundtrip(sa: SocketAddr)
    requires
        sa.ip is V6,
    ensures
        spec_parse_address(socket_text(sa), true) == Ok::<_, Seq<char>>(AddressView::Ip(sa)),
{
    reveal_strlit("unix:");
    let s = socket_text(sa);
    let g = ipv6_groups(sa.ip);
    let t6 = ipv6_text(g);
    let bracket = t6.len() as int + 1;
    let colon = t6.len() as int + 2;
    if s.len() >= 5 && s.take(5) == "unix:"@ {
        assert(s[0] == s.take(5)[0]);
    }
    assert(s.skip(colon + 1) =~= dec_text(sa.port as nat));
    lemma_port_after_colon(s, colon, sa.port);
    assert(s.take(colon)[bracket] == ']');
    lemma_find_last_at(s.take(colon), ']', bracket);
    assert(s.subrange(1, bracket) =~= t6);
    assert(ipv6_parts(s, true) == Ok::<_, Seq<char>>((t6, sa.port)));
    lemma_ipv6_text_roundtrip(g);
    assert(ipv6_of(g) == sa.ip);
}

/// A socket address written the way std displays it reads back, as an
/// address with a port, as the same socket address.
pub proof fn lemma_socket_text_roundtrip(sa: SocketAddr)
    ensures
        spec_parse_address(socket_text(sa), true) == Ok::<_, Seq<char>>(AddressView::Ip(sa)),
{
    match sa.ip {
        IpAddr::V4(a, b, c, d) => lemma_v4_socket_roundtrip(a, b, c, d, sa.port),
        IpAddr::V6(..) => lemma_v6_socket_roundtrip(sa),
    }
}

/// A socket address as std displays it holds no `|`.
pub proof fn lemma_socket_text_plain(sa: SocketAddr)
    ensures
        lacks(socket_text(sa), '|'),
{
    let t = ip_text(sa.ip);
    let tp = dec_text(sa.port as nat);
    let s = socket_text(sa);
    lemma_ip_text_chars(sa.ip);
    lemma_dec_text(sa.port as nat, 0xffff);
    assert forall|j: int| 0 <= j < s.len() implies s[j] != '|' by {
        match sa.ip {
            IpAddr::V4(..) => {
                if j < t.len() {
                    assert(s[j] == t[j]);
                    if t[j] != ':' && t[j] != '.' {
                        assert(digit_value(t[j], 16) is Some);
                    }
                } else if j > t.len() {
                    assert(s[j] == tp[j - t.len() - 1]);
                    assert(digit_value(tp[j - t.len() - 1], 10) is Some);
                }
            },
            IpAddr::V6(..) => {
                if 1 <= j < t.len() + 1 {
                    assert(s[j] == t[j - 1]);
                    if t[j - 1] != ':' && t[j - 1] != '.' {
                        assert(digit_value(t[j - 1], 16) is Some);
                    }
                } else if j > t.len() + 2 {
                    assert(s[j] == tp[j - t.len() - 3]);
                    assert(digit_value(tp[j - t.len() - 3], 10) is Some);
                }
            },
        }
    }
}

/// An IPv4 address is displayed octet by octet, in order, in decimal and
/// separated by dots.
pub proof fn lemma_ipv4_display_order(a: u8, b: u8, c: u8, d: u8)
    ensures
        ip_text(IpAddr::V4(a, b, c, d)) == dec_text(a as nat) + seq!['.'] + dec_text(b as nat) + seq!['.']
            + dec_text(c as nat) + seq!['.'] + dec_text(d as nat),
{
    assert(ip_text(IpAddr::V4(a, b, c, d)) =~= dec_text(a as nat) + seq!['.'] + dec_text(b as nat) + seq!['.']
        + dec_text(c as nat) + seq!['.'] + dec_text(d as nat));
}

/// The address `a.b.c.d:port` reads as the IPv4 address with the octets
/// in the order written, and that port; without a port it reads the same
/// with port 0.
pub proof fn lemma_ipv4_address_order(a: u8, b: u8, c: u8, d: u8, port: u16)
    ensures
        spec_parse_address(
            dec_text(a as nat) + seq!['.'] + dec_text(b as nat) + seq!['.'] + dec_text(c as nat) + seq!['.']
                + dec_text(d as nat) + seq![':'] + dec_text(port as nat),
            true,
        ) == Ok::<_, Seq<char>>(AddressView::Ip(SocketAddr { ip: IpAddr::V4(a, b, c, d), port })),
        spec_parse_address(
            dec_text(a as nat) + seq!['.'] + dec_text(b as nat) + seq!['.'] + dec_text(c as nat) + seq!['.']
                + dec_text(d as nat),
            false,
        ) == Ok::<_, Seq<char>>(AddressView::Ip(SocketAddr { ip: IpAddr::V4(a, b, c, d), port: 0 })),
{
    let t = dec_text(a as nat) + seq!['.'] + dec_text(b as nat) + seq!['.'] + dec_text(c as nat) + seq!['.']
        + dec_text(d as nat);
    assert(t =~= ipv4_text(a, b, c, d));
    let sa = SocketAddr { ip: IpAddr::V4(a, b, c, d), port };
    assert(t + seq![':'] + dec_text(port as nat) =~= socket_text(sa));
    lemma_socket_text_roundtrip(sa);
    reveal_strlit("unix:");
    lemma_dec_text(a as nat, 255);
    assert(t[0] == dec_text(a as nat)[0]);
    assert(digit_value(t[0], 10) is Some);
    if t.len() >= 5 && t.take(5) == "unix:"@ {
        assert(t[0] == t.take(5)[0]);
    }
    lemma_ipv4_text_roundtrip(a, b, c, d);
}

proof fn lemma_no_zero_span(g: Seq<u16>, i: int)
    requires
        0 <= i <= g.len(),
        forall|k: int| 0 <= k < g.len() ==> g[k] != 0,
    ensures
        zero_span(g, i, 0, 0, 0, 0) == (0int, 0int),
    decreases g.len() - i,
{
    if i < g.len() {
        lemma_no_zero_span(g, i + 1);
    }
}

/// An IPv6 address with no zero group is displayed group by group, in
/// order, in hex and separated by colons; written so in brackets with a
/// port, it reads as the address with the groups in the order written.
pub proof fn lemma_ipv6_group_order(g0: u16, g1: u16, g2: u16, g3: u16, g4: u16, g5: u16, g6: u16, g7: u16, port: u16)
    requires
        g0 != 0 && g1 != 0 && g2 != 0 && g3 != 0 && g4 != 0 && g5 != 0 && g6 != 0 && g7 != 0,
    ensures
        ({
            let c = seq![':'];
            let t = hex_text(g0 as nat) + c + hex_text(g1 as nat) + c + hex_text(g2 as nat) + c + hex_text(g3 as nat) + c
                + hex_text(g4 as nat) + c + hex_text(g5 as nat) + c + hex_text(g6 as nat) + c + hex_text(g7 as nat);
            &&& ip_text(IpAddr::V6(g0, g1, g2, g3, g4, g5, g6, g7)) == t
            &&& spec_parse_address(seq!['['] + t + seq![']', ':'] + dec_text(port as nat), true) == Ok::<_, Seq<char>>(
                AddressView::Ip(SocketAddr { ip: IpAddr::V6(g0, g1, g2, g3, g4, g5, g6, g7), port }),
            )
        }),
{
    let ip = IpAddr::V6(g0, g1, g2, g3, g4, g5, g6, g7);
    let g = seq![g0, g1, g2, g3, g4, g5, g6, g7];
    assert(crate::ip::ipv6_groups(ip) =~= g);
    assert(!is_ipv4_mapped(g));
    lemma_no_zero_span(g, 0);
    reveal_with_fuel(hex_groups_text, 9);
    assert(g.drop_last() =~= seq![g0, g1, g2, g3, g4, g5, g6]);
    assert(g.drop_last().drop_last() =~= seq![g0, g1, g2, g3, g4, g5]);
    assert(g.drop_last().drop_last().drop_last() =~= seq![g0, g1, g2, g3, g4]);
    assert(seq![g0, g1, g2, g3, g4].drop_last() =~= seq![g0, g1, g2, g3]);
    assert(seq![g0, g1, g2, g3].drop_last() =~= seq![g0, g1, g2]);
    assert(seq![g0, g1, g2].drop_last() =~= seq![g0, g1]);
    assert(seq![g0, g1].drop_last() =~= seq![g0]);
    let c = seq![':'];
    let t = hex_text(g0 as nat) + c + hex_text(g1 as nat) + c + hex_text(g2 as nat) + c + hex_text(g3 as nat) + c
        + hex_text(g4 as nat) + c + hex_text(g5 as nat) + c + hex_text(g6 as nat) + c + hex_text(g7 as nat);
    assert(hex_groups_text(g) =~= t);
    let sa = SocketAddr { ip, port };
    assert(seq!['['] + t + seq![']', ':'] + dec_text(port as nat) =~= socket_text(sa));
    lemma_socket_text_roundtrip(sa);
}

/// The reply line `<tag>|<reqid>|<token>|<text>` with the ids in sixteen
/// lower-case hex digits, ending in a newline.
pub open spec fn reply_text(tag: Seq<char>, reqid: u64, token: u64, text: Seq<char>) -> Seq<char> {
    let with_reqid = tag.push('|') + hex_fixed(reqid as nat, 16);
    let with_token = with_reqid.push('|') + hex_fixed(token as nat, 16);
    (with_token.push('|') + text).push('\n')
}

fn format_reply(tag: &str, reqid: u64, token: u64, text: &str) -> (s: String)
    ensures
        s@ == reply_text(tag@, reqid, token, text@),
{
    let mut s = String::from_str(tag);
    push_char(&mut s, '|');
    push_hex_fixed(&mut s, reqid, 16);
    push_char(&mut s, '|');
    push_hex_fixed(&mut s, token, 16);
    push_char(&mut s, '|');
    s.append(text);
    push_char(&mut s, '\n');
    s
}

/// The reply that answers request `token` of session `reqid` with `action`.
pub fn format_filter_result(reqid: u64, token: u64, action: &str) -> (s: String)
    ensures
        s@ == result_text(reqid, token, action@),
{
    format_reply("filter-result", reqid, token, action)
}

/// The reply that sends message line `line` for request `token` of session
/// `reqid`.
pub open spec fn dataline_text(reqid: u64, token: u64, line: Seq<char>) -> Seq<char> {
    reply_text("filter-dataline"@, reqid, token, line)
}

/// The reply that answers request `token` of session `reqid` with `action`.
pub open spec fn result_text(reqid: u64, token: u64, action: Seq<char>) -> Seq<char> {
    reply_text("filter-result"@, reqid, token, action)
}

/// The reply that sends the message line `line` for request `token` of
/// session `reqid`.
pub fn format_filter_dataline(reqid: u64, token: u64, line: &str) -> (s: String)
    ensures
        s@ == dataline_text(reqid, token, line@),
{
    format_reply("filter-dataline", reqid, token, line)
}

/// A reply names the session and the request it answers: after the tag and
/// a `|` come sixteen hex digits that read back as the session id, a `|`,
/// sixteen that read back as the token, a `|`, the text, and a newline.
pub proof fn lemma_reply_fields(tag: Seq<char>, reqid: u64, token: u64, text: Seq<char>)
    ensures
        ({
            let s = reply_text(tag, reqid, token, text);
            let k = tag.len() as int;
            &&& s.len() == k + 35 + text.len() + 1
            &&& s.subrange(0, k) == tag
            &&& s[k] == '|'
            &&& parse_uint(s.subrange(k + 1, k + 17), 16, u64_max()) == Ok::<nat, IntErrorKind>(reqid as nat)
            &&& s[k + 17] == '|'
            &&& parse_uint(s.subrange(k + 18, k + 34), 16, u64_max()) == Ok::<nat, IntErrorKind>(token as nat)
            &&& s[k + 34] == '|'
            &&& s.subrange(k + 35, s.len() - 1) == text
            &&& s[s.len() - 1] == '\n'
        }),
{
    lemma_hex_fixed_digits(reqid as nat, 16);
    lemma_hex_fixed_digits(token as nat, 16);
    lemma_hex_fixed_roundtrip(reqid);
    lemma_hex_fixed_roundtrip(token);
    let s = reply_text(tag, reqid, token, text);
    let k = tag.len() as int;
    assert(s.subrange(0, k) =~= tag);
    assert(s.subrange(k + 1, k + 17) =~= hex_fixed(reqid as nat, 16));
    assert(s.subrange(k + 18, k + 34) =~= hex_fixed(token as nat, 16));
    assert(s.subrange(k + 35, s.len() - 1) =~= text);
}

} // verus!
