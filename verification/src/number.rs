//! Unsigned integers in text: reading them the way `u64::from_str_radix`
//! does, and writing them in decimal and hexadecimal.

use vstd::prelude::*;
use crate::text::push_char;

verus! {

/// Why a text is not an unsigned integer of the wanted range, following the
/// kinds of std's `ParseIntError` that an unsigned parse can give.
#[derive(Debug, Clone, Copy, PartialEq, Eq, Structural)]
pub enum IntErrorKind {
    /// The text is empty.
    Empty,
    /// The text holds a character that is not a digit of the radix.
    InvalidDigit,
    /// The value is larger than the type can hold.
    PosOverflow,
}

/// The value of `c` as a digit in `radix` (at most 36), as `char::to_digit` reads it.
pub open spec fn digit_value(c: char, radix: nat) -> Option<nat> {
    let n = c as int;
    let d: int = if 48 <= n <= 57 {
        n - 48
    } else if 97 <= n <= 122 {
        n - 97 + 10
    } else if 65 <= n <= 90 {
        n - 65 + 10
    } else {
        radix as int
    };
    if 0 <= d < radix {
        Some(d as nat)
    } else {
        None
    }
}

/// Reads the digits of `s` from the left onto `acc`, failing at the first
/// character that is not a digit or at the first digit that takes the value
/// above `max`.
pub open spec fn scan_digits(s: Seq<char>, radix: nat, max: nat, acc: nat) -> Result<nat, IntErrorKind>
    decreases s.len(),
{
    if s.len() == 0 {
        Ok(acc)
    } else {
        match digit_value(s[0], radix) {
            None => Err(IntErrorKind::InvalidDigit),
            Some(d) => if acc * radix + d > max {
                Err(IntErrorKind::PosOverflow)
            } else {
                scan_digits(s.drop_first(), radix, max, acc * radix + d)
            },
        }
    }
}

/// The unsigned integer that `s` spells in `radix`, with an optional leading
/// `+`, when it is at most `max`; otherwise why not.
pub open spec fn parse_uint(s: Seq<char>, radix: nat, max: nat) -> Result<nat, IntErrorKind> {
    if s.len() == 0 {
        Err(IntErrorKind::Empty)
    } else {
        let digits = if s[0] == '+' {
            s.drop_first()
        } else {
            s
        };
        if digits.len() == 0 {
            Err(IntErrorKind::InvalidDigit)
        } else {
            scan_digits(digits, radix, max, 0)
        }
    }
}

/// The text std prints for each kind of integer parse error.
pub open spec fn int_error_text(k: IntErrorKind) -> Seq<char> {
    match k {
        IntErrorKind::Empty => "cannot parse integer from empty string"@,
        IntErrorKind::InvalidDigit => "invalid digit found in string"@,
        IntErrorKind::PosOverflow => "number too large to fit in target type"@,
    }
}

/// The text std prints for an integer parse error of kind `k`.
pub fn int_error_message(k: IntErrorKind) -> (s: &'static str)
    ensures
        s@ == int_error_text(k),
{
    match k {
        IntErrorKind::Empty => "cannot parse integer from empty string",
        IntErrorKind::InvalidDigit => "invalid digit found in string",
        IntErrorKind::PosOverflow => "number too large to fit in target type",
    }
}

/// The digit value of `c` in `radix`.
pub fn char_digit(c: char, radix: u32) -> (r: Option<u32>)
    requires
        2 <= radix <= 36,
    ensures
        match r {
            Some(d) => digit_value(c, radix as nat) == Some(d as nat),
            None => digit_value(c, radix as nat) is None,
        },
{
    let n = c as u32;
    let d: u32 = if 48 <= n && n <= 57 {
        n - 48
    } else if 97 <= n && n <= 122 {
        n - 97 + 10
    } else if 65 <= n && n <= 90 {
        n - 65 + 10
    } else {
        radix
    };
    if d < radix {
        Some(d)
    } else {
        None
    }
}

/// Reads `v[lo..hi]` as an unsigned integer in `radix` of at most `max`,
/// as `u64::from_str_radix` does for a type whose largest value is `max`.
pub fn parse_uint_range(v: &Vec<char>, lo: usize, hi: usize, radix: u32, max: u64) -> (r: Result<
    u64,
    IntErrorKind,
>)
    requires
        lo <= hi <= v.len(),
        2 <= radix <= 16,
    ensures
        match r {
            Ok(n) => parse_uint(v@.subrange(lo as int, hi as int), radix as nat, max as nat) == Ok::<
                nat,
                IntErrorKind,
            >(n as nat),
            Err(k) => parse_uint(v@.subrange(lo as int, hi as int), radix as nat, max as nat)
                == Err::<nat, IntErrorKind>(k),
        },
{
    let ghost s = v@.subrange(lo as int, hi as int);
    if lo == hi {
        return Err(IntErrorKind::Empty);
    }
    let start: usize = if v[lo] == '+' {
        lo + 1
    } else {
        lo
    };
    if start == hi {
        return Err(IntErrorKind::InvalidDigit);
    }
    let ghost digits = v@.subrange(start as int, hi as int);
    assert(digits =~= (if s[0] == '+' { s.drop_first() } else { s }));
    assert(parse_uint(s, radix as nat, max as nat) == scan_digits(digits, radix as nat, max as nat, 0));
    let mut acc: u64 = 0;
    let mut i: usize = start;
    while i < hi
        invariant
            start <= i <= hi <= v.len(),
            2 <= radix <= 16,
            acc <= max,
            lo <= start,
            digits == v@.subrange(start as int, hi as int),
            parse_uint(v@.subrange(lo as int, hi as int), radix as nat, max as nat) == scan_digits(
                digits,
                radix as nat,
                max as nat,
                0,
            ),
            scan_digits(digits, radix as nat, max as nat, 0) == scan_digits(
                v@.subrange(i as int, hi as int),
                radix as nat,
                max as nat,
                acc as nat,
            ),
        decreases hi - i,
    {
        let ghost rest = v@.subrange(i as int, hi as int);
        assert(rest.drop_first() =~= v@.subrange(i + 1, hi as int));
        assert(rest[0] == v@[i as int]);
        match char_digit(v[i], radix) {
            None => {
                return Err(IntErrorKind::InvalidDigit);
            },
            Some(d) => {
                assert((acc as int) * (radix as int) <= 0xffff_ffff_ffff_ffff * 16) by (nonlinear_arith)
                    requires
                        acc <= 0xffff_ffff_ffff_ffff,
                        radix <= 16,
                ;
                let next: u128 = (acc as u128) * (radix as u128) + (d as u128);
                if next > max as u128 {
                    return Err(IntErrorKind::PosOverflow);
                }
                acc = next as u64;
            },
        }
        i = i + 1;
    }
    assert(v@.subrange(hi as int, hi as int).len() == 0);
    Ok(acc)
}

/// The character for digit `d` (below 16), in lower case.
pub open spec fn digit_char(d: nat) -> char {
    if d < 10 {
        (d + 48) as char
    } else {
        (d + 87) as char
    }
}

/// `n` in decimal, without leading zeros.
pub open spec fn dec_text(n: nat) -> Seq<char>
    decreases n,
{
    if n < 10 {
        seq![digit_char(n)]
    } else {
        dec_text(n / 10).push(digit_char(n % 10))
    }
}

/// `n` in lower-case hexadecimal, without leading zeros.
pub open spec fn hex_text(n: nat) -> Seq<char>
    decreases n,
{
    if n < 16 {
        seq![digit_char(n)]
    } else {
        hex_text(n / 16).push(digit_char(n % 16))
    }
}

/// The last `width` hexadecimal digits of `n`, in lower case, zero-padded.
pub open spec fn hex_fixed(n: nat, width: nat) -> Seq<char>
    decreases width,
{
    if width == 0 {
        Seq::empty()
    } else {
        hex_fixed(n / 16, (width - 1) as nat).push(digit_char(n % 16))
    }
}

/// The last `width` decimal digits of `n`, zero-padded.
pub open spec fn dec_fixed(n: nat, width: nat) -> Seq<char>
    decreases width,
{
    if width == 0 {
        Seq::empty()
    } else {
        dec_fixed(n / 10, (width - 1) as nat).push(digit_char(n % 10))
    }
}

/// The character for digit `d` of a base up to 16.
pub fn digit_to_char(d: u64) -> (c: char)
    requires
        d < 16,
    ensures
        c == digit_char(d as nat),
{
    if d < 10 {
        ((d as u8) + 48) as char
    } else {
        ((d as u8) + 87) as char
    }
}

/// Appends `n` in decimal to `s`.
pub fn push_dec(s: &mut String, n: u64)
    ensures
        final(s)@ == old(s)@ + dec_text(n as nat),
    decreases n,
{
    if n >= 10 {
        push_dec(s, n / 10);
    }
    push_char(s, digit_to_char(n % 10));
}

/// Appends `n` in lower-case hexadecimal to `s`.
pub fn push_hex(s: &mut String, n: u64)
    ensures
        final(s)@ == old(s)@ + hex_text(n as nat),
    decreases n,
{
    if n >= 16 {
        push_hex(s, n / 16);
    }
    push_char(s, digit_to_char(n % 16));
}

/// Appends the last `width` hexadecimal digits of `n` to `s`, zero-padded.
pub fn push_hex_fixed(s: &mut String, n: u64, width: u64)
    ensures
        final(s)@ == old(s)@ + hex_fixed(n as nat, width as nat),
    decreases width,
{
    if width > 0 {
        push_hex_fixed(s, n / 16, width - 1);
        push_char(s, digit_to_char(n % 16));
    }
}

/// Ten to the power `n`.
pub open spec fn pow10(n: nat) -> nat
    decreases n,
{
    if n == 0 {
        1
    } else {
        10 * pow10((n - 1) as nat)
    }
}

/// The factor that scales a fraction of `digits` decimal digits (fewer than
/// nine) up to nanoseconds.
pub fn nanos_scale(digits: usize) -> (r: u64)
    requires
        digits < 9,
    ensures
        r == pow10((9 - digits) as nat),
{
    reveal_with_fuel(pow10, 10);
    match digits {
        0 => 1_000_000_000,
        1 => 100_000_000,
        2 => 10_000_000,
        3 => 1_000_000,
        4 => 100_000,
        5 => 10_000,
        6 => 1_000,
        7 => 100,
        _ => 10,
    }
}

/// Sixteen to the power `n`.
pub open spec fn pow16(n: nat) -> nat
    decreases n,
{
    if n == 0 {
        1
    } else {
        16 * pow16((n - 1) as nat)
    }
}

/// A digit character reads back as its digit.
pub proof fn lemma_digit_char_value(d: nat, radix: nat)
    requires
        d < radix <= 16,
    ensures
        digit_value(digit_char(d), radix) == Some(d),
{
}

/// Reading one more digit after a prefix that reads as `m` gives
/// `m * radix + d`, or overflow past `max`.
pub proof fn lemma_scan_push(s: Seq<char>, c: char, radix: nat, max: nat, acc: nat, m: nat, d: nat)
    requires
        scan_digits(s, radix, max, acc) == Ok::<nat, IntErrorKind>(m),
        digit_value(c, radix) == Some(d),
    ensures
        scan_digits(s.push(c), radix, max, acc) == if m * radix + d > max {
            Err::<nat, IntErrorKind>(IntErrorKind::PosOverflow)
        } else {
            Ok::<nat, IntErrorKind>(m * radix + d)
        },
    decreases s.len(),
{
    if s.len() == 0 {
        assert(s.push(c).drop_first() =~= Seq::<char>::empty());
        assert(m == acc);
        assert(scan_digits(Seq::<char>::empty(), radix, max, acc * radix + d) == Ok::<nat, IntErrorKind>(acc * radix + d));
    } else {
        assert(s.push(c).drop_first() =~= s.drop_first().push(c));
        assert(s.push(c)[0] == s[0]);
        let d0 = digit_value(s[0], radix)->0;
        assert(scan_digits(s, radix, max, acc) == scan_digits(s.drop_first(), radix, max, acc * radix + d0));
        lemma_scan_push(s.drop_first(), c, radix, max, acc * radix + d0, m, d);
    }
}

/// Every character of `hex_fixed(n, width)` is a hex digit, and there are
/// `width` of them.
pub proof fn lemma_hex_fixed_digits(n: nat, width: nat)
    ensures
        hex_fixed(n, width).len() == width,
        forall|i: int| 0 <= i < width ==> #[trigger] digit_value(hex_fixed(n, width)[i], 16) is Some,
    decreases width,
{
    if width > 0 {
        lemma_hex_fixed_digits(n / 16, (width - 1) as nat);
        lemma_digit_char_value(n % 16, 16);
        let s = hex_fixed(n, width);
        assert forall|i: int| 0 <= i < width implies #[trigger] digit_value(s[i], 16) is Some by {
            if i < width - 1 {
                assert(s[i] == hex_fixed(n / 16, (width - 1) as nat)[i]);
            }
        }
    }
}

/// `width` hex digits of a number below `16^width` read back as the number.
pub proof fn lemma_hex_fixed_scan(n: nat, width: nat, max: nat)
    requires
        n < pow16(width),
        n <= max,
    ensures
        scan_digits(hex_fixed(n, width), 16, max, 0) == Ok::<nat, IntErrorKind>(n),
    decreases width,
{
    if width == 0 {
        assert(n == 0);
    } else {
        assert(n / 16 < pow16((width - 1) as nat));
        lemma_hex_fixed_scan(n / 16, (width - 1) as nat, max);
        lemma_digit_char_value(n % 16, 16);
        lemma_scan_push(hex_fixed(n / 16, (width - 1) as nat), digit_char(n % 16), 16, max, 0, n / 16, n % 16);
    }
}

/// The sixteen hex digits that replies carry read back as the number they
/// were written from.
pub proof fn lemma_hex_fixed_roundtrip(n: u64)
    ensures
        parse_uint(hex_fixed(n as nat, 16), 16, 0xffff_ffff_ffff_ffff) == Ok::<nat, IntErrorKind>(n as nat),
{
    reveal_with_fuel(pow16, 17);
    assert(pow16(16) == 0x1_0000_0000_0000_0000);
    lemma_hex_fixed_scan(n as nat, 16, 0xffff_ffff_ffff_ffff);
    lemma_hex_fixed_digits(n as nat, 16);
    let s = hex_fixed(n as nat, 16);
    assert(digit_value(s[0], 16) is Some);
}

/// `dec_fixed(n, width)` has `width` characters, each a decimal digit, and
/// for `n` below `10^width` reads back as `n`.
pub proof fn lemma_dec_fixed(n: nat, width: nat, max: nat)
    requires
        n < pow10(width),
        n <= max,
    ensures
        dec_fixed(n, width).len() == width,
        forall|i: int| 0 <= i < width ==> #[trigger] digit_value(dec_fixed(n, width)[i], 10) is Some,
        scan_digits(dec_fixed(n, width), 10, max, 0) == Ok::<nat, IntErrorKind>(n),
    decreases width,
{
    if width == 0 {
        assert(n == 0);
    } else {
        assert(n / 10 < pow10((width - 1) as nat));
        lemma_dec_fixed(n / 10, (width - 1) as nat, max);
        lemma_digit_char_value(n % 10, 10);
        let s = dec_fixed(n, width);
        assert forall|i: int| 0 <= i < width implies #[trigger] digit_value(s[i], 10) is Some by {
            if i < width - 1 {
                assert(s[i] == dec_fixed(n / 10, (width - 1) as nat)[i]);
            }
        }
        lemma_scan_push(dec_fixed(n / 10, (width - 1) as nat), digit_char(n % 10), 10, max, 0, n / 10, n % 10);
    }
}

/// Facts about `dec_text(n)`: it is at least one character long, every
/// character is a decimal digit, it starts with `0` only for zero (which
/// is the one character `0`), it has at most three characters below 1000,
/// and it reads back as `n` under any bound of at least `n`.
pub proof fn lemma_dec_text(n: nat, max: nat)
    requires
        n <= max,
    ensures
        dec_text(n).len() >= 1,
        forall|i: int| 0 <= i < dec_text(n).len() ==> #[trigger] digit_value(dec_text(n)[i], 10) is Some,
        dec_text(n)[0] == '0' ==> n == 0 && dec_text(n).len() == 1,
        n < 1000 ==> dec_text(n).len() <= 3,
        scan_digits(dec_text(n), 10, max, 0) == Ok::<nat, IntErrorKind>(n),
    decreases n,
{
    if n < 10 {
        lemma_digit_char_value(n, 10);
        assert(scan_digits(Seq::<char>::empty(), 10, max, n) == Ok::<nat, IntErrorKind>(n));
        assert(seq![digit_char(n)].drop_first() =~= Seq::<char>::empty());
    } else {
        lemma_dec_text(n / 10, max);
        lemma_digit_char_value(n % 10, 10);
        let s = dec_text(n);
        let prefix = dec_text(n / 10);
        assert forall|i: int| 0 <= i < s.len() implies #[trigger] digit_value(s[i], 10) is Some by {
            if i < prefix.len() {
                assert(s[i] == prefix[i]);
            }
        }
        assert(s[0] == prefix[0]);
        if n < 1000 {
            if n / 10 < 10 {
                assert(prefix.len() == 1);
            } else {
                assert(dec_text(n / 10) == dec_text(n / 10 / 10).push(digit_char((n / 10) % 10)));
                assert(dec_text(n / 10 / 10).len() == 1);
            }
        }
        lemma_scan_push(prefix, digit_char(n % 10), 10, max, 0, n / 10, n % 10);
    }
}

/// Facts about `hex_text(n)`: it is at least one character long, every
/// character is a hex digit, it has at most four characters below 65536,
/// and it reads back as `n` under any bound of at least `n`.
pub proof fn lemma_hex_text(n: nat, max: nat)
    requires
        n <= max,
    ensures
        hex_text(n).len() >= 1,
        forall|i: int| 0 <= i < hex_text(n).len() ==> #[trigger] digit_value(hex_text(n)[i], 16) is Some,
        n < 0x10000 ==> hex_text(n).len() <= 4,
        scan_digits(hex_text(n), 16, max, 0) == Ok::<nat, IntErrorKind>(n),
    decreases n,
{
    if n < 16 {
        lemma_digit_char_value(n, 16);
        assert(scan_digits(Seq::<char>::empty(), 16, max, n) == Ok::<nat, IntErrorKind>(n));
        assert(seq![digit_char(n)].drop_first() =~= Seq::<char>::empty());
    } else {
        lemma_hex_text(n / 16, max);
        lemma_digit_char_value(n % 16, 16);
        let s = hex_text(n);
        let prefix = hex_text(n / 16);
        assert forall|i: int| 0 <= i < s.len() implies #[trigger] digit_value(s[i], 16) is Some by {
            if i < prefix.len() {
                assert(s[i] == prefix[i]);
            }
        }
        if n < 0x10000 {
            lemma_hex_text_len_small(n / 16);
        }
        lemma_scan_push(prefix, digit_char(n % 16), 16, max, 0, n / 16, n % 16);
    }
}

proof fn lemma_hex_text_len_small(n: nat)
    requires
        n < 0x1000,
    ensures
        hex_text(n).len() <= 3,
    decreases n,
{
    if n >= 16 {
        lemma_hex_text_len_small2(n / 16);
    }
}

proof fn lemma_hex_text_len_small2(n: nat)
    requires
        n < 0x100,
    ensures
        hex_text(n).len() <= 2,
{
    if n >= 16 {
        assert(hex_text(n / 16).len() == 1);
    }
}

} // verus!
