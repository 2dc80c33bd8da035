//! Character-level helpers shared by header parsing, chip detection and host utilities.
use vstd::prelude::*;
use vstd::utf8::{decode_utf8, valid_utf8};

verus! {

/// Whether `c` has the Unicode `White_Space` property.
pub open spec fn is_unicode_whitespace(c: char) -> bool {
    ('\u{0009}' <= c && c <= '\u{000D}') || c == ' ' || c == '\u{0085}' || c == '\u{00A0}'
        || c == '\u{1680}' || ('\u{2000}' <= c && c <= '\u{200A}') || c == '\u{2028}'
        || c == '\u{2029}' || c == '\u{202F}' || c == '\u{205F}' || c == '\u{3000}'
}

/// Exec form of [`is_unicode_whitespace`].
pub fn is_whitespace_char(c: char) -> (r: bool)
    ensures
        r == is_unicode_whitespace(c),
{
    ('\u{0009}' <= c && c <= '\u{000D}') || c == ' ' || c == '\u{0085}' || c == '\u{00A0}'
        || c == '\u{1680}' || ('\u{2000}' <= c && c <= '\u{200A}') || c == '\u{2028}'
        || c == '\u{2029}' || c == '\u{202F}' || c == '\u{205F}' || c == '\u{3000}'
}

/// ASCII upper-casing of one character; other characters are unchanged.
pub open spec fn ascii_upper(c: char) -> char {
    if 'a' <= c && c <= 'z' { ((c as u32) - 32) as char } else { c }
}

/// ASCII lower-casing of one character; other characters are unchanged.
pub open spec fn ascii_lower(c: char) -> char {
    if 'A' <= c && c <= 'Z' { ((c as u32) + 32) as char } else { c }
}

/// Exec form of [`ascii_upper`].
pub fn to_upper(c: char) -> (r: char)
    ensures
        r == ascii_upper(c),
{
    if 'a' <= c && c <= 'z' {
        let code = (c as u32) - 32;
        assert(code <= 0x7A);
        char_from_ascii(code)
    } else {
        c
    }
}

/// Exec form of [`ascii_lower`].
pub fn to_lower(c: char) -> (r: char)
    ensures
        r == ascii_lower(c),
{
    if 'A' <= c && c <= 'Z' {
        let code = (c as u32) + 32;
        char_from_ascii(code)
    } else {
        c
    }
}

/// The character with an ASCII code point.
fn char_from_ascii(code: u32) -> (c: char)
    requires
        code < 128,
    ensures
        c == code as char,
{
    let byte = code as u8;
    byte as char
}

/// `s` with every character ASCII upper-cased.
pub open spec fn upper_seq(s: Seq<char>) -> Seq<char> {
    s.map_values(|c: char| ascii_upper(c))
}

/// `pattern` occurs in `s` at position `i`.
pub open spec fn occurs_at(s: Seq<char>, pattern: Seq<char>, i: int) -> bool {
    0 <= i && i + pattern.len() <= s.len() && s.subrange(i, i + pattern.len()) == pattern
}

/// `pattern` occurs somewhere in `s`.
pub open spec fn contains_seq(s: Seq<char>, pattern: Seq<char>) -> bool {
    exists|i: int| occurs_at(s, pattern, i)
}

/// The characters of a string, as a vector.
pub fn chars_of(s: &str) -> (v: Vec<char>)
    ensures
        v@ == s@,
{
    let n = s.unicode_len();
    let mut v: Vec<char> = Vec::new();
    let mut i: usize = 0;
    while i < n
        invariant
            n == s@.len(),
            i <= n,
            v@ == s@.subrange(0, i as int),
        decreases n - i,
    {
        v.push(s.get_char(i));
        i = i + 1;
    }
    v
}

/// Whether `pattern` occurs in `s` after ASCII upper-casing `s`.
pub fn contains_upper(s: &Vec<char>, pattern: &str) -> (r: bool)
    ensures
        r == contains_seq(upper_seq(s@), pattern@),
{
    let p = chars_of(pattern);
    let n = s.len();
    let m = p.len();
    if m > n {
        assert forall|i: int| !occurs_at(upper_seq(s@), pattern@, i) by {}
        return false;
    }
    let mut i: usize = 0;
    while i <= n - m
        invariant
            m == p@.len(),
            n == s@.len(),
            p@ == pattern@,
            m <= n,
            i <= n - m + 1,
            forall|j: int| 0 <= j < i ==> !occurs_at(upper_seq(s@), pattern@, j),
        decreases n - i,
    {
        let mut k: usize = 0;
        let mut matched = true;
        while k < m
            invariant
                m == p@.len(),
                n == s@.len(),
                i + m <= n,
                k <= m,
                matched == (forall|q: int| 0 <= q < k ==> ascii_upper(s@[i + q]) == p@[q]),
            decreases m - k,
        {
            if to_upper(s[i + k]) != p[k] {
                matched = false;
            }
            k = k + 1;
        }
        if matched {
            assert(upper_seq(s@).subrange(i as int, i + m) =~= pattern@);
            assert(occurs_at(upper_seq(s@), pattern@, i as int));
            return true;
        }
        assert(!occurs_at(upper_seq(s@), pattern@, i as int)) by {
            if occurs_at(upper_seq(s@), pattern@, i as int) {
                let q = choose|q: int| 0 <= q < m && ascii_upper(s@[i + q]) != p@[q];
                assert(upper_seq(s@).subrange(i as int, i + m)[q] == p@[q]);
            }
        }
        i = i + 1;
    }
    assert forall|j: int| !occurs_at(upper_seq(s@), pattern@, j) by {
        if 0 <= j < i {
        } else if j >= i {
            assert(j + pattern@.len() > s@.len());
        }
    }
    false
}

/// Checks UTF-8 validity of a byte slice and decodes it.
///
/// Wraps `std::str::from_utf8`, which returns the string exactly when the bytes are valid
/// UTF-8; the decoded characters are then those of the byte sequence.
#[verifier::external_body]
pub(crate) fn utf8_decode(bytes: &[u8]) -> (r: Option<&str>)
    ensures
        r is Some <==> valid_utf8(bytes@),
        r matches Some(s) ==> s@ == decode_utf8(bytes@),
{
    std::str::from_utf8(bytes).ok()
}

/// Appends one character to a string.
///
/// Wraps `String::push`, which appends the character at the end.
#[verifier::external_body]
pub(crate) fn push_char(s: &mut String, c: char)
    ensures
        final(s)@ == old(s)@.push(c),
{
    s.push(c)
}

/// A string holding exactly the given characters.
pub fn string_from_chars(chars: &Vec<char>) -> (s: String)
    ensures
        s@ == chars@,
{
    let mut s = String::new();
    let mut i: usize = 0;
    while i < chars.len()
        invariant
            i <= chars@.len(),
            s@ == chars@.subrange(0, i as int),
        decreases chars@.len() - i,
    {
        push_char(&mut s, chars[i]);
        i = i + 1;
    }
    s
}

/// Whether `pattern` occurs in `s`.
pub fn contains_chars(s: &Vec<char>, pattern: &Vec<char>) -> (r: bool)
    ensures
        r == contains_seq(s@, pattern@),
{
    let n = s.len();
    let m = pattern.len();
    if m > n {
        assert forall|i: int| !occurs_at(s@, pattern@, i) by {}
        return false;
    }
    let mut i: usize = 0;
    while i <= n - m
        invariant
            m == pattern@.len(),
            n == s@.len(),
            m <= n,
            i <= n - m + 1,
            forall|j: int| 0 <= j < i ==> !occurs_at(s@, pattern@, j),
        decreases n - i,
    {
        let mut k: usize = 0;
        let mut matched = true;
        while k < m
            invariant
                m == pattern@.len(),
                n == s@.len(),
                i + m <= n,
                k <= m,
                matched == (forall|q: int| 0 <= q < k ==> s@[i + q] == pattern@[q]),
            decreases m - k,
        {
            if s[i + k] != pattern[k] {
                matched = false;
            }
            k = k + 1;
        }
        if matched {
            assert(s@.subrange(i as int, i + m) =~= pattern@);
            assert(occurs_at(s@, pattern@, i as int));
            return true;
        }
        assert(!occurs_at(s@, pattern@, i as int)) by {
            if occurs_at(s@, pattern@, i as int) {
                let q = choose|q: int| 0 <= q < m && s@[i + q] != pattern@[q];
                assert(s@.subrange(i as int, i + m)[q] == pattern@[q]);
            }
        }
        i = i + 1;
    }
    assert forall|j: int| !occurs_at(s@, pattern@, j) by {
        if 0 <= j < i {
        } else if j >= i {
            assert(j + pattern@.len() > s@.len());
        }
    }
    false
}

/// The character of a digit below 16: `0`-`9`, then upper-case `A`-`F`.
pub open spec fn digit_char(d: nat) -> char {
    if d < 10 { (48 + d) as char } else { (55 + d) as char }
}

/// Decimal notation of `n`, without leading zeros.
pub open spec fn decimal(n: nat) -> Seq<char>
    decreases n,
{
    if n < 10 { seq![digit_char(n)] } else { decimal(n / 10).push(digit_char(n % 10)) }
}

/// Upper-case hexadecimal notation of `n`, left-padded with zeros to at least `width` digits.
pub open spec fn hex_padded(n: nat, width: nat) -> Seq<char>
    decreases n + width,
{
    if n < 16 && width <= 1 {
        seq![digit_char(n)]
    } else {
        let rest: nat = if width > 0 { (width - 1) as nat } else { 0 };
        hex_padded(n / 16, rest).push(digit_char(n % 16))
    }
}

/// The character of one digit.
fn digit(d: u64) -> (c: char)
    requires
        d < 16,
    ensures
        c == digit_char(d as nat),
{
    if d < 10 {
        char_from_ascii((48 + d) as u32)
    } else {
        char_from_ascii((55 + d) as u32)
    }
}

/// Appends the decimal notation of `n`.
pub fn push_decimal(s: &mut String, n: u64)
    ensures
        final(s)@ == old(s)@ + decimal(n as nat),
    decreases n,
{
    if n >= 10 {
        push_decimal(s, n / 10);
    }
    push_char(s, digit(n % 10));
    proof {
        if n >= 10 {
            assert(old(s)@ + decimal(n as nat) =~= old(s)@ + decimal((n / 10) as nat) + seq![digit_char((n % 10) as nat)]);
        } else {
            assert(old(s)@ + decimal(n as nat) =~= old(s)@.push(digit_char(n as nat)));
        }
    }
}

/// Appends the upper-case hexadecimal notation of `n`, padded to `width` digits.
pub fn push_hex(s: &mut String, n: u64, width: u64)
    ensures
        final(s)@ == old(s)@ + hex_padded(n as nat, width as nat),
    decreases n + width,
{
    if n < 16 && width <= 1 {
        push_char(s, digit(n));
        assert(old(s)@ + hex_padded(n as nat, width as nat) =~= old(s)@.push(digit_char(n as nat)));
    } else {
        let rest: u64 = if width > 0 { width - 1 } else { 0 };
        push_hex(s, n / 16, rest);
        push_char(s, digit(n % 16));
        assert(old(s)@ + hex_padded(n as nat, width as nat) =~= old(s)@ + hex_padded((n / 16) as nat, rest as nat) + seq![digit_char((n % 16) as nat)]);
    }
}

/// The decimal notation of `n` as a new string.
pub fn decimal_string(n: u64) -> (s: String)
    ensures
        s@ == decimal(n as nat),
{
    let mut s = String::new();
    push_decimal(&mut s, n);
    assert(s@ =~= decimal(n as nat));
    s
}

/// `s` ends with `suffix`.
pub open spec fn ends_with(s: Seq<char>, suffix: Seq<char>) -> bool {
    s.len() >= suffix.len() && s.subrange(s.len() - suffix.len(), s.len() as int) == suffix
}

/// Whether `s` ends with `suffix`.
pub fn ends_with_chars(s: &Vec<char>, suffix: &str) -> (r: bool)
    ensures
        r == ends_with(s@, suffix@),
{
    let p = chars_of(suffix);
    if s.len() < p.len() {
        return false;
    }
    let start = s.len() - p.len();
    let mut k: usize = 0;
    while k < p.len()
        invariant
            k <= p@.len(),
            p@ == suffix@,
            start + p@.len() == s@.len(),
            s@.len() <= usize::MAX,
            forall|q: int| 0 <= q < k ==> s@[start + q] == p@[q],
        decreases p@.len() - k,
    {
        if s[start + k] != p[k] {
            assert(s@.subrange(start as int, s@.len() as int)[k as int] != suffix@[k as int]);
            return false;
        }
        k = k + 1;
    }
    assert(s@.subrange(start as int, s@.len() as int) =~= suffix@);
    true
}

/// Whether two texts are equal.
pub fn text_equal(a: &str, b: &str) -> (r: bool)
    ensures
        r == (a@ == b@),
{
    let x = chars_of(a);
    let y = chars_of(b);
    if x.len() != y.len() {
        return false;
    }
    let mut i: usize = 0;
    while i < x.len()
        invariant
            x@ == a@,
            y@ == b@,
            x@.len() == y@.len(),
            i <= x@.len(),
            forall|q: int| 0 <= q < i ==> x@[q] == y@[q],
        decreases x@.len() - i,
    {
        if x[i] != y[i] {
            return false;
        }
        i = i + 1;
    }
    assert(x@ =~= y@);
    true
}

/// The lower-case character of a digit below 16.
pub open spec fn lower_digit(d: nat) -> char {
    if d < 10 { (48 + d) as char } else { (87 + d) as char }
}

/// Bytes written as two lower-case hexadecimal digits each.
pub open spec fn lower_hex(bytes: Seq<u8>) -> Seq<char>
    decreases bytes.len(),
{
    if bytes.len() == 0 {
        seq![]
    } else {
        lower_hex(bytes.drop_last()) + seq![lower_digit((bytes.last() / 16) as nat), lower_digit((bytes.last() % 16) as nat)]
    }
}

/// The lower-case hexadecimal digit of `d`.
pub fn lower_digit_char(d: u8) -> (c: char)
    requires
        d < 16,
    ensures
        c == lower_digit(d as nat),
{
    if d < 10 {
        ((48 + d) as u8) as char
    } else {
        ((87 + d) as u8) as char
    }
}

} // verus!
