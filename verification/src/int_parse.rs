//! Unsigned integer parsing with the semantics of `from_str_radix`.
use vstd::prelude::*;

use crate::text::owned;

verus! {

/// Why a text is not an unsigned integer, as `ParseIntError::kind` reports it.
#[derive(Clone, Copy, Debug, PartialEq, Eq, Structural)]
pub enum IntErrorKind {
    Empty,
    InvalidDigit,
    PosOverflow,
}

/// The value of a digit character in `radix` (`char::to_digit`), for a radix up to 36.
pub open spec fn digit_value(c: char, radix: nat) -> Option<nat> {
    let v: int = if '0' <= c && c <= '9' {
        c as int - '0' as int
    } else if 'a' <= c && c <= 'z' {
        c as int - 'a' as int + 10
    } else if 'A' <= c && c <= 'Z' {
        c as int - 'A' as int + 10
    } else {
        36
    };
    if v < radix {
        Some(v as nat)
    } else {
        None
    }
}

/// Left-to-right accumulation of the digits of `s`, stopping at the first invalid
/// digit or the first prefix whose value exceeds `max`.
pub open spec fn scan_digits(s: Seq<char>, radix: nat, max: nat) -> Result<nat, IntErrorKind>
    decreases s.len(),
{
    if s.len() == 0 {
        Ok(0)
    } else {
        match scan_digits(s.drop_last(), radix, max) {
            Err(e) => Err(e),
            Ok(v) => match digit_value(s.last(), radix) {
                None => Err(IntErrorKind::InvalidDigit),
                Some(d) => if v * radix + d > max {
                    Err(IntErrorKind::PosOverflow)
                } else {
                    Ok(v * radix + d)
                },
            },
        }
    }
}

/// The result of parsing `s` as an unsigned integer no greater than `max`
/// (`from_str_radix` of an unsigned type whose largest value is `max`).
pub open spec fn parse_uint(s: Seq<char>, radix: nat, max: nat) -> Result<nat, IntErrorKind> {
    if s.len() == 0 {
        Err(IntErrorKind::Empty)
    } else if s.len() == 1 && (s[0] == '+' || s[0] == '-') {
        Err(IntErrorKind::InvalidDigit)
    } else if s[0] == '+' {
        scan_digits(s.drop_first(), radix, max)
    } else {
        scan_digits(s, radix, max)
    }
}

/// Every successful scan stays within the bound.
pub proof fn lemma_scan_bounded(s: Seq<char>, radix: nat, max: nat)
    ensures
        scan_digits(s, radix, max) matches Ok(v) ==> v <= max,
    decreases s.len(),
{
    if s.len() > 0 {
        lemma_scan_bounded(s.drop_last(), radix, max);
    }
}

/// The value of one digit character in `radix`.
pub fn digit_of(c: char, radix: u32) -> (r: Option<u32>)
    requires
        2 <= radix <= 36,
    ensures
        r matches Some(d) ==> digit_value(c, radix as nat) == Some(d as nat),
        r is None ==> digit_value(c, radix as nat) is None,
{
    let v: u32 = if '0' <= c && c <= '9' {
        c as u32 - '0' as u32
    } else if 'a' <= c && c <= 'z' {
        c as u32 - 'a' as u32 + 10
    } else if 'A' <= c && c <= 'Z' {
        c as u32 - 'A' as u32 + 10
    } else {
        36
    };
    if v < radix {
        Some(v)
    } else {
        None
    }
}

/// Scans `s[start..]` as digits in `radix`.
fn scan_from(s: &Vec<char>, start: usize, radix: u32, max: u64) -> (r: Result<u64, IntErrorKind>)
    requires
        2 <= radix <= 36,
        start <= s.len(),
    ensures
        r matches Ok(v) ==> scan_digits(s@.skip(start as int), radix as nat, max as nat) == Ok::<
            nat,
            IntErrorKind,
        >(v as nat),
        r matches Err(e) ==> scan_digits(s@.skip(start as int), radix as nat, max as nat) == Err::<
            nat,
            IntErrorKind,
        >(e),
{
    let ghost t = s@.skip(start as int);
    let mut acc: u64 = 0;
    let mut i: usize = start;
    assert(t.take(0) =~= Seq::<char>::empty());
    while i < s.len()
        invariant
            2 <= radix <= 36,
            start <= i <= s.len(),
            t == s@.skip(start as int),
            acc <= max,
            scan_digits(t.take(i - start), radix as nat, max as nat) == Ok::<nat, IntErrorKind>(
                acc as nat,
            ),
        decreases s.len() - i,
    {
        let ghost before = t.take(i - start);
        let ghost after = t.take(i - start + 1);
        assert(after.drop_last() =~= before);
        assert(after.last() == s@[i as int]);
        match digit_of(s[i], radix) {
            None => {
                proof {
                    lemma_scan_error_extends(t, (i - start) as nat, radix as nat, max as nat);
                }
                return Err(IntErrorKind::InvalidDigit);
            },
            Some(d) => {
                let a: u128 = acc as u128;
                let b: u128 = radix as u128;
                assert(a * b <= 0xffff_ffff_ffff_ffffu128 * 36u128) by (nonlinear_arith)
                    requires
                        a <= 0xffff_ffff_ffff_ffffu128,
                        b <= 36,
                ;
                let next: u128 = a * b + d as u128;
                if next > max as u128 {
                    proof {
                        lemma_scan_error_extends(t, (i - start) as nat, radix as nat, max as nat);
                    }
                    return Err(IntErrorKind::PosOverflow);
                }
                acc = next as u64;
            },
        }
        i += 1;
    }
    assert(t.take(i - start) =~= t);
    Ok(acc)
}

/// Once a prefix of the digits fails, the whole text fails the same way.
proof fn lemma_scan_error_extends(t: Seq<char>, k: nat, radix: nat, max: nat)
    requires
        k < t.len(),
        scan_digits(t.take(k as int + 1), radix, max) is Err,
    ensures
        scan_digits(t, radix, max) == scan_digits(t.take(k as int + 1), radix, max),
    decreases t.len() - k,
{
    if k + 1 < t.len() {
        assert(t.drop_last().take(k as int + 1) =~= t.take(k as int + 1));
        lemma_scan_error_extends(t.drop_last(), k, radix, max);
    } else {
        assert(t.take(k as int + 1) =~= t);
    }
}

/// Parses `s` as an unsigned integer in `radix` no greater than `max`
/// (`from_str_radix`).
pub fn parse_uint_chars(s: &Vec<char>, radix: u32, max: u64) -> (r: Result<u64, IntErrorKind>)
    requires
        2 <= radix <= 36,
    ensures
        r matches Ok(v) ==> parse_uint(s@, radix as nat, max as nat) == Ok::<nat, IntErrorKind>(
            v as nat,
        ),
        r matches Err(e) ==> parse_uint(s@, radix as nat, max as nat) == Err::<nat, IntErrorKind>(
            e,
        ),
{
    if s.len() == 0 {
        return Err(IntErrorKind::Empty);
    }
    if s.len() == 1 && (s[0] == '+' || s[0] == '-') {
        return Err(IntErrorKind::InvalidDigit);
    }
    if s[0] == '+' {
        assert(s@.skip(1) =~= s@.drop_first());
        scan_from(s, 1, radix, max)
    } else {
        assert(s@.skip(0) =~= s@);
        scan_from(s, 0, radix, max)
    }
}

/// Parses `s` as a `u16` in `radix` (`u16::from_str_radix`).
pub fn parse_u16_radix(s: &Vec<char>, radix: u32) -> (r: Result<u16, IntErrorKind>)
    requires
        2 <= radix <= 36,
    ensures
        r matches Ok(v) ==> parse_uint(s@, radix as nat, 0xffff) == Ok::<nat, IntErrorKind>(
            v as nat,
        ),
        r matches Err(e) ==> parse_uint(s@, radix as nat, 0xffff) == Err::<nat, IntErrorKind>(e),
{
    match parse_uint_chars(s, radix, 0xffff) {
        Ok(v) => {
            proof {
                lemma_parse_bounded(s@, radix as nat, 0xffff);
            }
            Ok(v as u16)
        },
        Err(e) => Err(e),
    }
}

/// Parses `s` as a `u8` in `radix` (`u8::from_str_radix`).
pub fn parse_u8_radix(s: &Vec<char>, radix: u32) -> (r: Result<u8, IntErrorKind>)
    requires
        2 <= radix <= 36,
    ensures
        r matches Ok(v) ==> parse_uint(s@, radix as nat, 0xff) == Ok::<nat, IntErrorKind>(
            v as nat,
        ),
        r matches Err(e) ==> parse_uint(s@, radix as nat, 0xff) == Err::<nat, IntErrorKind>(e),
{
    match parse_uint_chars(s, radix, 0xff) {
        Ok(v) => {
            proof {
                lemma_parse_bounded(s@, radix as nat, 0xff);
            }
            Ok(v as u8)
        },
        Err(e) => Err(e),
    }
}

/// Parses `s` as a `u32` in `radix` (`u32::from_str_radix`).
pub fn parse_u32_radix(s: &Vec<char>, radix: u32) -> (r: Result<u32, IntErrorKind>)
    requires
        2 <= radix <= 36,
    ensures
        r matches Ok(v) ==> parse_uint(s@, radix as nat, 0xffff_ffff) == Ok::<nat, IntErrorKind>(
            v as nat,
        ),
        r matches Err(e) ==> parse_uint(s@, radix as nat, 0xffff_ffff) == Err::<
            nat,
            IntErrorKind,
        >(e),
{
    match parse_uint_chars(s, radix, 0xffff_ffff) {
        Ok(v) => {
            proof {
                lemma_parse_bounded(s@, radix as nat, 0xffff_ffff);
            }
            Ok(v as u32)
        },
        Err(e) => Err(e),
    }
}

/// Parses `s` as a decimal `usize` (`str::parse::<usize>`).
pub fn parse_usize(s: &Vec<char>) -> (r: Result<usize, IntErrorKind>)
    ensures
        r matches Ok(v) ==> parse_uint(s@, 10, usize::MAX as nat) == Ok::<nat, IntErrorKind>(
            v as nat,
        ),
        r matches Err(e) ==> parse_uint(s@, 10, usize::MAX as nat) == Err::<nat, IntErrorKind>(e),
{
    match parse_uint_chars(s, 10, usize::MAX as u64) {
        Ok(v) => {
            proof {
                lemma_parse_bounded(s@, 10, usize::MAX as nat);
            }
            Ok(v as usize)
        },
        Err(e) => Err(e),
    }
}

/// Every parsed value stays within the bound.
pub proof fn lemma_parse_bounded(s: Seq<char>, radix: nat, max: nat)
    ensures
        parse_uint(s, radix, max) matches Ok(v) ==> v <= max,
{
    lemma_scan_bounded(s, radix, max);
    if s.len() > 0 {
        lemma_scan_bounded(s.drop_first(), radix, max);
    }
}

/// The message that `ParseIntError` displays for each kind.
pub open spec fn int_error_text(kind: IntErrorKind) -> Seq<char> {
    match kind {
        IntErrorKind::Empty => "cannot parse integer from empty string"@,
        IntErrorKind::InvalidDigit => "invalid digit found in string"@,
        IntErrorKind::PosOverflow => "number too large to fit in target type"@,
    }
}

/// The message that `ParseIntError` displays.
pub fn int_error_message(kind: IntErrorKind) -> (r: String)
    ensures
        r@ == int_error_text(kind),
{
    match kind {
        IntErrorKind::Empty => owned("cannot parse integer from empty string"),
        IntErrorKind::InvalidDigit => owned("invalid digit found in string"),
        IntErrorKind::PosOverflow => owned("number too large to fit in target type"),
    }
}

/// The character of a digit value: `0`–`9`, then letters, in upper or lower case.
pub open spec fn digit_glyph(d: nat, upper: bool) -> char {
    if d < 10 {
        (('0' as nat) + d) as char
    } else if upper {
        (('A' as nat) + d - 10) as char
    } else {
        (('a' as nat) + d - 10) as char
    }
}

/// The digits of `n` in `radix`, without leading zeros, as `Display` and the
/// hexadecimal formats write an unsigned integer.
pub open spec fn digit_text(n: nat, radix: nat, upper: bool) -> Seq<char>
    decreases n,
{
    if radix < 2 || n < radix {
        seq![digit_glyph(n, upper)]
    } else {
        proof {
            assert(n / radix < n) by (nonlinear_arith)
                requires
                    radix >= 2,
                    n >= radix,
            ;
        }
        digit_text(n / radix, radix, upper).push(digit_glyph(n % radix, upper))
    }
}

/// A digit's character reads back as that digit.
pub proof fn lemma_glyph_value(d: nat, radix: nat, upper: bool)
    requires
        d < radix <= 16,
    ensures
        digit_value(digit_glyph(d, upper), radix) == Some(d),
{
}

/// Reading the digits of `n` back gives `n`, as long as it fits the bound.
pub proof fn lemma_scan_digit_text(n: nat, radix: nat, upper: bool, max: nat)
    requires
        2 <= radix <= 16,
        n <= max,
    ensures
        scan_digits(digit_text(n, radix, upper), radix, max) == Ok::<nat, IntErrorKind>(n),
    decreases n,
{
    let s = digit_text(n, radix, upper);
    if n < radix {
        lemma_glyph_value(n, radix, upper);
        assert(s == seq![digit_glyph(n, upper)]);
        assert(s.drop_last() =~= Seq::<char>::empty());
        assert(s.last() == digit_glyph(n, upper));
        assert(scan_digits(s.drop_last(), radix, max) == Ok::<nat, IntErrorKind>(0));
        assert(0 * radix + n == n);
    } else {
        let q = n / radix;
        let d = n % radix;
        assert(q * radix + d == n && q < n && d < radix) by (nonlinear_arith)
            requires
                q == n / radix,
                d == n % radix,
                radix >= 2,
                n >= radix,
        ;
        lemma_scan_digit_text(q, radix, upper, max);
        lemma_glyph_value(d, radix, upper);
        assert(s == digit_text(q, radix, upper).push(digit_glyph(d, upper)));
        assert(s.drop_last() =~= digit_text(q, radix, upper));
        assert(s.last() == digit_glyph(d, upper));
    }
}

/// Every character of a decimal text is a digit.
pub proof fn lemma_digit_text_digits(n: nat)
    ensures
        forall|i: int| 0 <= i < digit_text(n, 10, false).len() ==> '0' <= #[trigger] digit_text(n, 10, false)[i] <= '9',
    decreases n,
{
    let s = digit_text(n, 10, false);
    let g = digit_glyph(n % 10, false);
    assert('0' <= g <= '9');
    if n >= 10 {
        lemma_digit_text_digits(n / 10);
        let t = digit_text(n / 10, 10, false);
        assert(s == t.push(g));
        assert forall|i: int| 0 <= i < s.len() implies '0' <= #[trigger] s[i] <= '9' by {
            if i < t.len() {
                assert(s[i] == t[i]);
            }
        }
    } else {
        assert(n % 10 == n);
        assert(s == seq![g]);
    }
}

/// No digit text has a sign.
pub proof fn lemma_digit_text_unsigned(n: nat, radix: nat, upper: bool)
    requires
        2 <= radix <= 16,
    ensures
        forall|i: int|
            0 <= i < digit_text(n, radix, upper).len() ==> #[trigger] digit_text(n, radix, upper)[i] != '+'
                && digit_text(n, radix, upper)[i] != '-',
    decreases n,
{
    let s = digit_text(n, radix, upper);
    let d = n % radix;
    assert(d < 16) by (nonlinear_arith)
        requires
            d == n % radix,
            2 <= radix <= 16,
    ;
    let g = digit_glyph(d, upper);
    assert(g != '+' && g != '-');
    if n >= radix {
        assert(n / radix < n) by (nonlinear_arith)
            requires
                radix >= 2,
                n >= radix,
        ;
        lemma_digit_text_unsigned(n / radix, radix, upper);
        let t = digit_text(n / radix, radix, upper);
        assert(s == t.push(g));
        assert forall|i: int| 0 <= i < s.len() implies #[trigger] s[i] != '+' && s[i] != '-' by {
            if i < t.len() {
                assert(s[i] == t[i]);
            }
        }
    } else {
        assert(n % radix == n) by (nonlinear_arith)
            requires
                n < radix,
                radix >= 2,
        ;
        assert(s == seq![g]);
    }
}

/// A number written in decimal parses back as itself.
pub proof fn lemma_parse_decimal(n: nat, max: nat)
    requires
        n <= max,
    ensures
        parse_uint(crate::text::decimal(n), 10, max) == Ok::<nat, IntErrorKind>(n),
{
    crate::text::lemma_decimal_is_digit_text(n);
    let d = digit_text(n, 10, false);
    lemma_digit_text_unsigned(n, 10, false);
    lemma_scan_digit_text(n, 10, false, max);
    assert(d.len() > 0);
    assert(d[0] != '+' && d[0] != '-');
}

} // verus!
