//! Character-level text helpers shared by every parser and formatter of the crate.
//!
//! Text is modelled as `Seq<char>`, the view of `str` and `String`.
use vstd::prelude::*;

verus! {

// ---------------------------------------------------------------------------
// Conversions between `str`, `String` and `Vec<char>`
// ---------------------------------------------------------------------------

/// The characters of `s`, in order.
pub fn chars_of(s: &str) -> (r: Vec<char>)
    ensures
        r@ == s@,
{
    let mut out: Vec<char> = Vec::new();
    for c in it: s.chars()
        invariant
            out@ == it.seq().take(it.index() as int),
            it.seq() == s@,
    {
        out.push(c);
    }
    out
}

/// `String::push`: appends one character, so that the string's characters
/// are the old ones followed by `c`.
#[verifier::external_body]
pub(crate) fn push_char(s: &mut String, c: char)
    ensures
        final(s)@ == old(s)@.push(c),
{
    s.push(c);
}

/// Appends every character of `v` to `s`.
pub fn push_chars(s: &mut String, v: &Vec<char>)
    ensures
        final(s)@ == old(s)@ + v@,
{
    let ghost start = s@;
    let mut i: usize = 0;
    while i < v.len()
        invariant
            i <= v.len(),
            s@ == start + v@.take(i as int),
        decreases v.len() - i,
    {
        push_char(s, v[i]);
        assert(v@.take(i as int + 1) == v@.take(i as int).push(v@[i as int]));
        i += 1;
    }
    assert(v@.take(v.len() as int) == v@);
}

/// Appends the characters of `t` to `s`.
pub fn push_str(s: &mut String, t: &str)
    ensures
        final(s)@ == old(s)@ + t@,
{
    let v = chars_of(t);
    push_chars(s, &v);
}

/// A string holding exactly the characters of `v`.
pub fn string_of(v: &Vec<char>) -> (r: String)
    ensures
        r@ == v@,
{
    let mut s = String::new();
    push_chars(&mut s, v);
    s
}

/// An owned copy of `s`.
pub fn owned(s: &str) -> (r: String)
    ensures
        r@ == s@,
{
    s.to_owned()
}

/// Whether two character sequences are equal.
pub fn chars_eq(a: &Vec<char>, b: &Vec<char>) -> (r: bool)
    ensures
        r == (a@ == b@),
{
    if a.len() != b.len() {
        return false;
    }
    let mut i: usize = 0;
    while i < a.len()
        invariant
            a.len() == b.len(),
            i <= a.len(),
            forall|j: int| 0 <= j < i ==> a@[j] == b@[j],
        decreases a.len() - i,
    {
        if a[i] != b[i] {
            return false;
        }
        i += 1;
    }
    assert(a@ =~= b@);
    true
}

/// Whether two strings hold the same characters.
pub fn str_eq(a: &str, b: &str) -> (r: bool)
    ensures
        r == (a@ == b@),
{
    let x = chars_of(a);
    let y = chars_of(b);
    chars_eq(&x, &y)
}

// ---------------------------------------------------------------------------
// ASCII case
// ---------------------------------------------------------------------------

/// ASCII lower-casing of one character; every other character is unchanged.
pub open spec fn lower(c: char) -> char {
    if 'A' <= c && c <= 'Z' {
        ((c as u32) + 32) as char
    } else {
        c
    }
}

/// ASCII lower-casing of a whole sequence.
pub open spec fn lower_seq(s: Seq<char>) -> Seq<char> {
    s.map_values(|c: char| lower(c))
}

/// ASCII lower-casing of one character (`char::to_ascii_lowercase`).
pub fn lower_char(c: char) -> (r: char)
    ensures
        r == lower(c),
{
    if 'A' <= c && c <= 'Z' {
        let n: u32 = c as u32 + 32;
        assert(n == (c as u32) + 32);
        char_from_ascii(n)
    } else {
        c
    }
}

/// The character with an ASCII code point.
fn char_from_ascii(n: u32) -> (r: char)
    requires
        n < 128,
    ensures
        r == n as char,
{
    let b: u8 = n as u8;
    b as char
}

/// ASCII lower-casing of a character vector (`to_ascii_lowercase`).
pub fn lower_chars(s: &Vec<char>) -> (r: Vec<char>)
    ensures
        r@ == lower_seq(s@),
{
    let mut out: Vec<char> = Vec::new();
    let mut i: usize = 0;
    while i < s.len()
        invariant
            i <= s.len(),
            out@ == lower_seq(s@.take(i as int)),
        decreases s.len() - i,
    {
        let c = lower_char(s[i]);
        out.push(c);
        assert(lower_seq(s@.take(i as int + 1)) =~= lower_seq(s@.take(i as int)).push(lower(s@[i as int])));
        i += 1;
    }
    assert(s@.take(s.len() as int) == s@);
    out
}

/// Case-insensitive ASCII equality (`eq_ignore_ascii_case`).
pub fn eq_ignore_ascii_case(a: &str, b: &str) -> (r: bool)
    ensures
        r == (lower_seq(a@) == lower_seq(b@)),
{
    let x = lower_chars(&chars_of(a));
    let y = lower_chars(&chars_of(b));
    chars_eq(&x, &y)
}

// ---------------------------------------------------------------------------
// White space and trimming
// ---------------------------------------------------------------------------

/// Unicode `White_Space`, the set that `char::is_whitespace` and `str::trim` use.
pub open spec fn is_space(c: char) -> bool {
    ||| ('\u{9}' <= c && c <= '\u{d}')
    ||| c == ' '
    ||| c == '\u{85}'
    ||| c == '\u{a0}'
    ||| c == '\u{1680}'
    ||| ('\u{2000}' <= c && c <= '\u{200a}')
    ||| c == '\u{2028}'
    ||| c == '\u{2029}'
    ||| c == '\u{202f}'
    ||| c == '\u{205f}'
    ||| c == '\u{3000}'
}

/// `char::is_whitespace`.
pub fn is_space_char(c: char) -> (r: bool)
    ensures
        r == is_space(c),
{
    ('\u{9}' <= c && c <= '\u{d}') || c == ' ' || c == '\u{85}' || c == '\u{a0}' || c
        == '\u{1680}' || ('\u{2000}' <= c && c <= '\u{200a}') || c == '\u{2028}' || c
        == '\u{2029}' || c == '\u{202f}' || c == '\u{205f}' || c == '\u{3000}'
}

/// `s` without its leading white space.
pub open spec fn trim_start(s: Seq<char>) -> Seq<char>
    decreases s.len(),
{
    if s.len() > 0 && is_space(s[0]) {
        trim_start(s.drop_first())
    } else {
        s
    }
}

/// `s` without its trailing white space.
pub open spec fn trim_end(s: Seq<char>) -> Seq<char>
    decreases s.len(),
{
    if s.len() > 0 && is_space(s.last()) {
        trim_end(s.drop_last())
    } else {
        s
    }
}

/// `s` without leading and trailing white space (`str::trim`).
pub open spec fn trim(s: Seq<char>) -> Seq<char> {
    trim_end(trim_start(s))
}

/// Whether every character of `s` is white space.
pub open spec fn all_space(s: Seq<char>) -> bool {
    forall|i: int| 0 <= i < s.len() ==> is_space(#[trigger] s[i])
}

/// The trimmed text is empty exactly when the text is all white space.
pub proof fn lemma_trim_empty(s: Seq<char>)
    ensures
        (trim(s).len() == 0) == all_space(s),
{
    lemma_trim_start_empty(s);
    lemma_trim_end_empty(trim_start(s));
}

proof fn lemma_trim_start_empty(s: Seq<char>)
    ensures
        (trim_start(s).len() == 0) == all_space(s),
        trim_start(s).len() > 0 ==> !is_space(trim_start(s)[0]),
    decreases s.len(),
{
    if s.len() > 0 && is_space(s[0]) {
        lemma_trim_start_empty(s.drop_first());
        if all_space(s.drop_first()) {
            assert forall|i: int| 0 <= i < s.len() implies is_space(#[trigger] s[i]) by {
                if i > 0 {
                    assert(s[i] == s.drop_first()[i - 1]);
                }
            }
        }
        if all_space(s) {
            assert forall|i: int| 0 <= i < s.drop_first().len() implies is_space(
                #[trigger] s.drop_first()[i],
            ) by {
                assert(s.drop_first()[i] == s[i + 1]);
            }
        }
    } else if s.len() > 0 {
        assert(!is_space(s[0]));
    }
}

proof fn lemma_trim_end_empty(s: Seq<char>)
    requires
        s.len() > 0 ==> !is_space(s[0]),
    ensures
        (trim_end(s).len() == 0) == (s.len() == 0),
    decreases s.len(),
{
    if s.len() > 0 && is_space(s.last()) {
        if s.len() == 1 {
            assert(s.last() == s[0]);
        } else {
            assert(s.drop_last()[0] == s[0]);
            lemma_trim_end_empty(s.drop_last());
        }
    }
}

/// `s` trimmed of white space at both ends.
pub fn trim_chars(s: &Vec<char>) -> (r: Vec<char>)
    ensures
        r@ == trim(s@),
{
    let mut lo: usize = 0;
    assert(s@.skip(0) =~= s@);
    while lo < s.len() && is_space_char(s[lo])
        invariant
            lo <= s.len(),
            trim_start(s@) == trim_start(s@.skip(lo as int)),
        decreases s.len() - lo,
    {
        assert(s@.skip(lo as int).drop_first() =~= s@.skip(lo as int + 1));
        lo += 1;
    }
    let mut hi: usize = s.len();
    let ghost mid = s@.skip(lo as int);
    assert(trim_start(mid) == mid);
    while hi > lo && is_space_char(s[hi - 1])
        invariant
            lo <= hi <= s.len(),
            mid == s@.skip(lo as int),
            trim_end(mid) == trim_end(s@.subrange(lo as int, hi as int)),
        decreases hi,
    {
        assert(s@.subrange(lo as int, hi as int).drop_last() =~= s@.subrange(
            lo as int,
            hi as int - 1,
        ));
        hi -= 1;
    }
    let ghost kept = s@.subrange(lo as int, hi as int);
    assert(trim_end(kept) == kept);
    let mut out: Vec<char> = Vec::new();
    let mut i: usize = lo;
    while i < hi
        invariant
            lo <= i <= hi,
            hi <= s.len(),
            out@ == s@.subrange(lo as int, i as int),
        decreases hi - i,
    {
        out.push(s[i]);
        assert(s@.subrange(lo as int, i as int + 1) =~= s@.subrange(lo as int, i as int).push(
            s@[i as int],
        ));
        i += 1;
    }
    out
}

// ---------------------------------------------------------------------------
// Prefixes, suffixes and substrings
// ---------------------------------------------------------------------------

/// Whether `s` begins with `p`.
pub open spec fn has_prefix(s: Seq<char>, p: Seq<char>) -> bool {
    p.len() <= s.len() && s.take(p.len() as int) == p
}

/// Whether `s` ends with `p`.
pub open spec fn has_suffix(s: Seq<char>, p: Seq<char>) -> bool {
    p.len() <= s.len() && s.skip(s.len() - p.len()) == p
}

/// Whether `p` occurs in `s` at position `i`.
pub open spec fn occurs_at(s: Seq<char>, p: Seq<char>, i: int) -> bool {
    0 <= i && i + p.len() <= s.len() && s.subrange(i, i + p.len()) == p
}

/// Whether `p` occurs anywhere in `s` (`str::contains`).
pub open spec fn contains(s: Seq<char>, p: Seq<char>) -> bool {
    exists|i: int| occurs_at(s, p, i)
}

/// Whether `p` occurs in `s` at position `at`.
pub fn matches_at(s: &Vec<char>, p: &Vec<char>, at: usize) -> (r: bool)
    ensures
        r == occurs_at(s@, p@, at as int),
{
    if at > s.len() || p.len() > s.len() - at {
        return false;
    }
    let mut j: usize = 0;
    while j < p.len()
        invariant
            at + p.len() <= s.len(),
            j <= p.len(),
            forall|k: int| 0 <= k < j ==> s@[at + k] == p@[k],
        decreases p.len() - j,
    {
        if s[at + j] != p[j] {
            assert(s@.subrange(at as int, at + p.len())[j as int] != p@[j as int]);
            return false;
        }
        j += 1;
    }
    assert(s@.subrange(at as int, at + p.len()) =~= p@);
    true
}

/// Whether `s` begins with `p` (`str::starts_with`).
pub fn starts_with(s: &Vec<char>, p: &Vec<char>) -> (r: bool)
    ensures
        r == has_prefix(s@, p@),
{
    let r = matches_at(s, p, 0);
    assert(r ==> s@.subrange(0, p@.len() as int) == s@.take(p@.len() as int));
    proof {
        if has_prefix(s@, p@) {
            assert(s@.subrange(0, p@.len() as int) == s@.take(p@.len() as int));
        }
    }
    r
}

/// Whether `s` ends with `p` (`str::ends_with`).
pub fn ends_with(s: &Vec<char>, p: &Vec<char>) -> (r: bool)
    ensures
        r == has_suffix(s@, p@),
{
    if p.len() > s.len() {
        return false;
    }
    let at = s.len() - p.len();
    let r = matches_at(s, p, at);
    assert(s@.subrange(at as int, s@.len() as int) == s@.skip(at as int));
    r
}

/// The first position at which `p` occurs in `s`, if any (`str::find`).
pub fn find(s: &Vec<char>, p: &Vec<char>) -> (r: Option<usize>)
    ensures
        r matches Some(i) ==> occurs_at(s@, p@, i as int) && forall|j: int|
            0 <= j < i ==> !occurs_at(s@, p@, j),
        r is None ==> !contains(s@, p@),
{
    if p.len() > s.len() {
        assert forall|j: int| !occurs_at(s@, p@, j) by {}
        return None;
    }
    let limit = s.len() - p.len();
    let mut i: usize = 0;
    loop
        invariant
            p.len() <= s.len(),
            limit == s.len() - p.len(),
            i <= limit,
            forall|j: int| 0 <= j < i ==> !occurs_at(s@, p@, j),
        ensures
            forall|j: int| 0 <= j <= limit ==> !occurs_at(s@, p@, j),
        decreases limit - i,
    {
        if matches_at(s, p, i) {
            return Some(i);
        }
        if i == limit {
            break;
        }
        i += 1;
    }
    assert forall|j: int| !occurs_at(s@, p@, j) by {
        if 0 <= j && j <= limit {
        }
    }
    None
}

/// Whether `p` occurs in `s`.
pub fn contains_chars(s: &Vec<char>, p: &Vec<char>) -> (r: bool)
    ensures
        r == contains(s@, p@),
{
    match find(s, p) {
        Some(i) => true,
        None => false,
    }
}

/// `s` without the prefix `p`, when it has one (`str::strip_prefix`).
pub fn strip_prefix(s: &Vec<char>, p: &Vec<char>) -> (r: Option<Vec<char>>)
    ensures
        has_prefix(s@, p@) ==> (r matches Some(rest) && rest@ == s@.skip(p@.len() as int)),
        !has_prefix(s@, p@) ==> r is None,
{
    if starts_with(s, p) {
        Some(slice(s, p.len(), s.len()))
    } else {
        None
    }
}

/// `s` without the suffix `p`, when it has one (`str::strip_suffix`).
pub fn strip_suffix(s: &Vec<char>, p: &Vec<char>) -> (r: Option<Vec<char>>)
    ensures
        has_suffix(s@, p@) ==> (r matches Some(rest) && rest@ == s@.take(
            s@.len() - p@.len(),
        )),
        !has_suffix(s@, p@) ==> r is None,
{
    if ends_with(s, p) {
        Some(slice(s, 0, s.len() - p.len()))
    } else {
        None
    }
}

/// The characters of `s` from `lo` up to `hi`.
pub fn slice(s: &Vec<char>, lo: usize, hi: usize) -> (r: Vec<char>)
    requires
        lo <= hi <= s.len(),
    ensures
        r@ == s@.subrange(lo as int, hi as int),
{
    let mut out: Vec<char> = Vec::new();
    let mut i: usize = lo;
    while i < hi
        invariant
            lo <= i <= hi,
            hi <= s.len(),
            out@ == s@.subrange(lo as int, i as int),
        decreases hi - i,
    {
        out.push(s[i]);
        assert(s@.subrange(lo as int, i as int + 1) =~= s@.subrange(lo as int, i as int).push(
            s@[i as int],
        ));
        i += 1;
    }
    out
}

/// The characters of a one-character literal sequence.
pub open spec fn single(c: char) -> Seq<char> {
    seq![c]
}

/// A vector holding the single character `c`.
pub fn one(c: char) -> (r: Vec<char>)
    ensures
        r@ == single(c),
{
    let mut v: Vec<char> = Vec::new();
    v.push(c);
    assert(v@ =~= seq![c]);
    v
}

// ---------------------------------------------------------------------------
// Number formatting
// ---------------------------------------------------------------------------

/// The character of a digit value below sixteen, lower-case for values above nine.
pub open spec fn digit_char(d: nat) -> char
    recommends
        d < 16,
{
    if d < 10 {
        (('0' as nat) + d) as char
    } else {
        (('a' as nat) + d - 10) as char
    }
}

/// The decimal representation of `n`, as `Display` writes an unsigned integer.
pub open spec fn decimal(n: nat) -> Seq<char>
    decreases n,
{
    if n < 10 {
        seq![digit_char(n)]
    } else {
        decimal(n / 10).push(digit_char(n % 10))
    }
}

/// The lower-case hexadecimal representation of `n` with exactly `width` digits,
/// as `{:0width$x}` writes a value below `16^width`.
pub open spec fn hex_fixed(n: nat, width: nat) -> Seq<char>
    decreases width,
{
    if width == 0 {
        seq![]
    } else {
        hex_fixed(n / 16, (width - 1) as nat).push(digit_char(n % 16))
    }
}

/// The character of one digit value.
pub fn digit(d: u64) -> (r: char)
    requires
        d < 16,
    ensures
        r == digit_char(d as nat),
{
    if d < 10 {
        let n: u32 = 48 + d as u32;
        char_from_ascii(n)
    } else {
        let n: u32 = 97 + (d as u32 - 10);
        char_from_ascii(n)
    }
}

/// Appends the decimal representation of `n` to `out`.
pub fn push_decimal(out: &mut Vec<char>, n: u128)
    ensures
        final(out)@ == old(out)@ + decimal(n as nat),
    decreases n,
{
    if n >= 10 {
        push_decimal(out, n / 10);
    }
    let d = digit((n % 10) as u64);
    out.push(d);
    proof {
        if n >= 10 {
            assert(decimal(n as nat) == decimal((n / 10) as nat).push(digit_char((n % 10) as nat)));
        } else {
            assert(decimal(n as nat) == seq![digit_char(n as nat)]);
        }
    }
}

/// The decimal representation of `n`.
pub fn decimal_chars(n: u128) -> (r: Vec<char>)
    ensures
        r@ == decimal(n as nat),
{
    let mut v: Vec<char> = Vec::new();
    push_decimal(&mut v, n);
    assert(v@ =~= decimal(n as nat));
    v
}

/// Appends `n` in lower-case hexadecimal with exactly `width` digits.
pub fn push_hex_fixed(out: &mut Vec<char>, n: u64, width: u32)
    ensures
        final(out)@ == old(out)@ + hex_fixed(n as nat, width as nat),
    decreases width,
{
    if width > 0 {
        push_hex_fixed(out, n / 16, width - 1);
        let d = digit(n % 16);
        out.push(d);
    }
}

// ---------------------------------------------------------------------------
// UTF-8 lengths
// ---------------------------------------------------------------------------

/// The number of bytes that UTF-8 uses for `c`.
pub open spec fn char_width(c: char) -> nat {
    if (c as u32) < 0x80 {
        1
    } else if (c as u32) < 0x800 {
        2
    } else if (c as u32) < 0x10000 {
        3
    } else {
        4
    }
}

/// The length in bytes of the UTF-8 encoding of `s` (`str::len`).
pub open spec fn byte_len(s: Seq<char>) -> nat
    decreases s.len(),
{
    if s.len() == 0 {
        0
    } else {
        byte_len(s.drop_last()) + char_width(s.last())
    }
}

/// The number of bytes that UTF-8 uses for `c`.
pub fn width_of(c: char) -> (r: usize)
    ensures
        r == char_width(c),
{
    if (c as u32) < 0x80 {
        1
    } else if (c as u32) < 0x800 {
        2
    } else if (c as u32) < 0x10000 {
        3
    } else {
        4
    }
}

/// Every UTF-8 byte length is at least the number of characters.
pub proof fn lemma_byte_len_ge(s: Seq<char>)
    ensures
        byte_len(s) >= s.len(),
        byte_len(s) == s.len() ==> forall|i: int| 0 <= i < s.len() ==> char_width(#[trigger] s[i])
            == 1,
    decreases s.len(),
{
    if s.len() > 0 {
        lemma_byte_len_ge(s.drop_last());
        if byte_len(s) == s.len() {
            assert forall|i: int| 0 <= i < s.len() implies char_width(#[trigger] s[i]) == 1 by {
                if i < s.len() - 1 {
                    assert(s[i] == s.drop_last()[i]);
                }
            }
        }
    }
}

/// The position of the first character whose byte offset is `bytes`, or the
/// character count when the text is shorter; `None` when `bytes` falls inside a character.
pub fn char_index_at_byte(s: &Vec<char>, bytes: usize) -> (r: Option<usize>)
    ensures
        r matches Some(k) ==> k <= s.len() && (byte_len(s@.take(k as int)) == bytes || (k
            == s.len() && byte_len(s@) < bytes)),
        r is None ==> forall|k: int| 0 <= k <= s.len() ==> byte_len(#[trigger] s@.take(k)) != bytes,
{
    let mut k: usize = 0;
    let mut at: usize = 0;
    assert(s@.take(0) =~= Seq::<char>::empty());
    while k < s.len() && at < bytes
        invariant
            k <= s.len(),
            at == byte_len(s@.take(k as int)),
            at <= bytes,
            forall|j: int| 0 <= j < k ==> byte_len(#[trigger] s@.take(j)) < bytes,
        decreases s.len() - k,
    {
        assert(s@.take(k as int + 1).drop_last() =~= s@.take(k as int));
        let w = width_of(s[k]);
        if w > bytes - at {
            proof {
                lemma_prefix_bytes_monotone(s@, k as int + 1);
            }
            return None;
        }
        at = at + w;
        k += 1;
    }
    if at == bytes {
        return Some(k);
    }
    assert(s@.take(k as int) =~= s@);
    proof {
        lemma_prefix_bytes_monotone(s@, k as int);
    }
    Some(k)
}

/// Longer prefixes never have fewer bytes.
proof fn lemma_prefix_bytes_monotone(s: Seq<char>, k: int)
    requires
        0 <= k <= s.len(),
    ensures
        forall|j: int| k <= j <= s.len() ==> byte_len(#[trigger] s.take(j)) >= byte_len(s.take(k)),
    decreases s.len() - k,
{
    if k < s.len() {
        lemma_prefix_bytes_monotone(s, k + 1);
        assert(s.take(k + 1).drop_last() =~= s.take(k));
    }
}

// ---------------------------------------------------------------------------
// Words and segments
// ---------------------------------------------------------------------------

/// The leading run of characters of `s` that are not white space.
pub open spec fn take_word(s: Seq<char>) -> Seq<char>
    decreases s.len(),
{
    if s.len() == 0 || is_space(s[0]) {
        Seq::empty()
    } else {
        seq![s[0]] + take_word(s.drop_first())
    }
}

pub proof fn lemma_take_word_len(s: Seq<char>)
    ensures
        take_word(s).len() <= s.len(),
        s.len() > 0 && !is_space(s[0]) ==> take_word(s).len() >= 1,
        take_word(s) == s.take(take_word(s).len() as int),
    decreases s.len(),
{
    if s.len() > 0 && !is_space(s[0]) {
        lemma_take_word_len(s.drop_first());
        assert(take_word(s) =~= s.take(take_word(s).len() as int));
    }
}

pub proof fn lemma_trim_start_len(s: Seq<char>)
    ensures
        trim_start(s).len() <= s.len(),
        trim_start(s) == s.skip(s.len() - trim_start(s).len()),
        trim_start(s).len() > 0 ==> !is_space(trim_start(s)[0]),
    decreases s.len(),
{
    if s.len() > 0 && is_space(s[0]) {
        lemma_trim_start_len(s.drop_first());
        assert(trim_start(s) =~= s.skip(s.len() - trim_start(s).len()));
    } else {
        assert(s.skip(0) =~= s);
    }
}

/// The words of `s`: its maximal runs of characters that are not white space,
/// in order (`str::split_whitespace`).
pub open spec fn words(s: Seq<char>) -> Seq<Seq<char>>
    decreases s.len(),
{
    let t = trim_start(s);
    if t.len() == 0 {
        Seq::empty()
    } else {
        let w = take_word(t);
        proof {
            lemma_trim_start_len(s);
            lemma_take_word_len(t);
        }
        seq![w] + words(t.skip(w.len() as int))
    }
}

/// The character sequences of a list of character vectors.
pub open spec fn char_vecs(v: Seq<Vec<char>>) -> Seq<Seq<char>> {
    v.map_values(|w: Vec<char>| w@)
}

proof fn lemma_words_space(s: Seq<char>)
    requires
        s.len() > 0,
        is_space(s[0]),
    ensures
        words(s) == words(s.drop_first()),
{
    assert(trim_start(s) == trim_start(s.drop_first()));
}

proof fn lemma_words_word(s: Seq<char>)
    requires
        s.len() > 0,
        !is_space(s[0]),
    ensures
        words(s) == seq![take_word(s)] + words(s.skip(take_word(s).len() as int)),
{
    assert(trim_start(s) == s);
}

proof fn lemma_take_word_step(s: Seq<char>, start: int, i: int)
    requires
        0 <= start <= i < s.len(),
        !is_space(s[i]),
    ensures
        take_word(s.skip(i)) == seq![s[i]] + take_word(s.skip(i + 1)),
{
    assert(s.skip(i)[0] == s[i]);
    assert(s.skip(i).drop_first() =~= s.skip(i + 1));
}

/// The words of `s`, in order.
pub fn split_words(s: &Vec<char>) -> (r: Vec<Vec<char>>)
    ensures
        char_vecs(r@) == words(s@),
{
    let mut out: Vec<Vec<char>> = Vec::new();
    let mut i: usize = 0;
    assert(s@.skip(0) =~= s@);
    assert(char_vecs(out@) =~= Seq::<Seq<char>>::empty());
    while i < s.len()
        invariant
            i <= s.len(),
            words(s@) == char_vecs(out@) + words(s@.skip(i as int)),
        decreases s.len() - i,
    {
        if is_space_char(s[i]) {
            proof {
                assert(s@.skip(i as int)[0] == s@[i as int]);
                lemma_words_space(s@.skip(i as int));
                assert(s@.skip(i as int).drop_first() =~= s@.skip(i as int + 1));
            }
            i += 1;
        } else {
            let start = i;
            proof {
                assert(s@.skip(i as int)[0] == s@[i as int]);
                lemma_words_word(s@.skip(i as int));
            }
            let mut w: Vec<char> = Vec::new();
            while i < s.len() && !is_space_char(s[i])
                invariant
                    start <= i <= s.len(),
                    w@ == s@.subrange(start as int, i as int),
                    take_word(s@.skip(start as int)) == w@ + take_word(s@.skip(i as int)),
                decreases s.len() - i,
            {
                proof {
                    lemma_take_word_step(s@, start as int, i as int);
                    assert(w@.push(s@[i as int]) =~= s@.subrange(start as int, i as int + 1));
                    assert(w@ + (seq![s@[i as int]] + take_word(s@.skip(i as int + 1))) =~= w@.push(
                        s@[i as int],
                    ) + take_word(s@.skip(i as int + 1)));
                }
                w.push(s[i]);
                i += 1;
            }
            proof {
                assert(take_word(s@.skip(i as int)) =~= Seq::<char>::empty());
                assert(w@ + Seq::<char>::empty() =~= w@);
                lemma_take_word_len(s@.skip(start as int));
                assert(s@.skip(start as int).skip(w@.len() as int) =~= s@.skip(i as int));
                assert(char_vecs(out@.push(w)) =~= char_vecs(out@) + seq![w@]);
            }
            out.push(w);
        }
    }
    proof {
        assert(s@.skip(i as int) =~= Seq::<char>::empty());
        assert(words(Seq::<char>::empty()) =~= Seq::<Seq<char>>::empty());
        assert(char_vecs(out@) + Seq::<Seq<char>>::empty() =~= char_vecs(out@));
    }
    out
}

/// The leading run of characters of `s` other than `c`.
pub open spec fn take_until(s: Seq<char>, c: char) -> Seq<char>
    decreases s.len(),
{
    if s.len() == 0 || s[0] == c {
        Seq::empty()
    } else {
        seq![s[0]] + take_until(s.drop_first(), c)
    }
}

pub proof fn lemma_take_until_len(s: Seq<char>, c: char)
    ensures
        take_until(s, c).len() <= s.len(),
        take_until(s, c) == s.take(take_until(s, c).len() as int),
        take_until(s, c).len() < s.len() ==> s[take_until(s, c).len() as int] == c,
    decreases s.len(),
{
    if s.len() > 0 && s[0] != c {
        lemma_take_until_len(s.drop_first(), c);
        assert(take_until(s, c) =~= s.take(take_until(s, c).len() as int));
    }
}

/// The pieces of `s` between occurrences of `c` (`str::split`).
pub open spec fn segments(s: Seq<char>, c: char) -> Seq<Seq<char>>
    decreases s.len(),
{
    let h = take_until(s, c);
    proof {
        lemma_take_until_len(s, c);
    }
    if h.len() >= s.len() {
        seq![s]
    } else {
        seq![h] + segments(s.skip(h.len() as int + 1), c)
    }
}

/// The pieces of `s` between occurrences of `c`, in order.
pub fn split_on(s: &Vec<char>, c: char) -> (r: Vec<Vec<char>>)
    ensures
        char_vecs(r@) == segments(s@, c),
{
    let mut out: Vec<Vec<char>> = Vec::new();
    let mut i: usize = 0;
    assert(s@.skip(0) =~= s@);
    assert(char_vecs(out@) =~= Seq::<Seq<char>>::empty());
    loop
        invariant
            i <= s.len(),
            segments(s@, c) == char_vecs(out@) + segments(s@.skip(i as int), c),
        decreases s.len() - i,
    {
        let start = i;
        let mut piece: Vec<char> = Vec::new();
        while i < s.len() && s[i] != c
            invariant
                start <= i <= s.len(),
                piece@ == s@.subrange(start as int, i as int),
                take_until(s@.skip(start as int), c) == piece@ + take_until(s@.skip(i as int), c),
            decreases s.len() - i,
        {
            proof {
                assert(s@.skip(i as int)[0] == s@[i as int]);
                assert(s@.skip(i as int).drop_first() =~= s@.skip(i as int + 1));
                assert(piece@.push(s@[i as int]) =~= s@.subrange(start as int, i as int + 1));
                assert(piece@ + (seq![s@[i as int]] + take_until(s@.skip(i as int + 1), c))
                    =~= piece@.push(s@[i as int]) + take_until(s@.skip(i as int + 1), c));
            }
            piece.push(s[i]);
            i += 1;
        }
        let ghost rest = s@.skip(start as int);
        proof {
            if i < s.len() {
                assert(s@.skip(i as int)[0] == s@[i as int]);
            }
            assert(take_until(s@.skip(i as int), c) =~= Seq::<char>::empty());
            assert(piece@ + Seq::<char>::empty() =~= piece@);
            lemma_take_until_len(rest, c);
            assert(char_vecs(out@.push(piece)) =~= char_vecs(out@) + seq![piece@]);
        }
        if i >= s.len() {
            proof {
                assert(rest =~= piece@);
                assert(segments(rest, c) == seq![rest]);
            }
            out.push(piece);
            return out;
        }
        proof {
            assert(rest.skip(piece@.len() as int + 1) =~= s@.skip(i as int + 1));
            assert(segments(rest, c) == seq![piece@] + segments(s@.skip(i as int + 1), c));
            assert(char_vecs(out@) + (seq![piece@] + segments(s@.skip(i as int + 1), c))
                =~= (char_vecs(out@) + seq![piece@]) + segments(s@.skip(i as int + 1), c));
        }
        out.push(piece);
        i += 1;
    }
}

/// The words joined by single spaces (`join(" ")`).
pub open spec fn join_words(ws: Seq<Seq<char>>) -> Seq<char>
    decreases ws.len(),
{
    if ws.len() == 0 {
        Seq::empty()
    } else if ws.len() == 1 {
        ws[0]
    } else {
        join_words(ws.drop_last()) + seq![' '] + ws.last()
    }
}

/// The words from position `from` on, joined by single spaces.
pub fn join_words_from(ws: &Vec<Vec<char>>, from: usize) -> (r: Vec<char>)
    requires
        from <= ws.len(),
    ensures
        r@ == join_words(char_vecs(ws@).skip(from as int)),
{
    let ghost all = char_vecs(ws@).skip(from as int);
    let mut out: Vec<char> = Vec::new();
    let mut k: usize = from;
    assert(all.take(0) =~= Seq::<Seq<char>>::empty());
    while k < ws.len()
        invariant
            from <= k <= ws.len(),
            all == char_vecs(ws@).skip(from as int),
            out@ == join_words(all.take(k - from)),
        decreases ws.len() - k,
    {
        proof {
            assert(all.take(k - from + 1).drop_last() =~= all.take(k - from));
            assert(all.take(k - from + 1).last() == ws@[k as int]@);
        }
        if k > from {
            out.push(' ');
        }
        let ghost before = out@;
        let mut j: usize = 0;
        while j < ws[k].len()
            invariant
                k < ws.len(),
                j <= ws@[k as int]@.len(),
                out@ == before + ws@[k as int]@.take(j as int),
            decreases ws@[k as int]@.len() - j,
        {
            out.push(ws[k][j]);
            assert(ws@[k as int]@.take(j as int + 1) =~= ws@[k as int]@.take(j as int).push(
                ws@[k as int]@[j as int],
            ));
            j += 1;
        }
        proof {
            assert(ws@[k as int]@.take(j as int) =~= ws@[k as int]@);
            if k == from {
                assert(before =~= Seq::<char>::empty());
                assert(out@ =~= ws@[k as int]@);
            }
        }
        k += 1;
    }
    assert(all.take(k - from) =~= all);
    out
}

/// The decimal text of `n` is its digit text in radix 10.
pub proof fn lemma_decimal_is_digit_text(n: nat)
    ensures
        decimal(n) == crate::int_parse::digit_text(n, 10, false),
    decreases n,
{
    if n >= 10 {
        lemma_decimal_is_digit_text(n / 10);
    }
}

} // verus!
