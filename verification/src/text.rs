//! Strings: characters, UTF-16 code units, ASCII case, decimal and
//! hexadecimal numbers.

use vstd::prelude::*;

verus! {

/// `String::push`: the character is added at the end.
pub assume_specification[ String::push ](s: &mut String, c: char)
    ensures
        final(s)@ == old(s)@.push(c),
;

/// `char::from_u32`: every scalar value is a character; surrogates and numbers
/// above `0x10FFFF` are not.
pub assume_specification[ core::char::from_u32 ](v: u32) -> (c: Option<char>)
    ensures
        c is Some <==> (v < 0xD800 || 0xE000 <= v <= 0x10FFFF),
        c is Some ==> c->0 == v as char,
;

/// What `String::from_utf8_lossy` makes of some bytes.
pub uninterp spec fn utf8_lossy(bytes: Seq<u8>) -> Seq<char>;

/// Decodes bytes with std's `String::from_utf8_lossy`, whose result depends on
/// the bytes alone and is named `utf8_lossy`.
#[verifier::external_body]
pub(crate) fn decode_utf8_lossy(bytes: &Vec<u8>) -> (r: String)
    ensures
        r@ == utf8_lossy(bytes@),
{
    String::from_utf8_lossy(bytes).into_owned()
}

/// The characters of a string.
pub fn chars_of(s: &str) -> (v: Vec<char>)
    ensures
        v@ == s@,
{
    let mut v: Vec<char> = Vec::new();
    for c in it: s.chars()
        invariant
            v@ == it.seq().take(it.index()),
            it.seq() == s@,
    {
        v.push(c);
        assert(v@ =~= it.seq().take(it.index() + 1));
    }
    assert(s@.take(s@.len() as int) =~= s@);
    v
}

/// The string of some characters.
pub fn string_of(v: &Vec<char>) -> (s: String)
    ensures
        s@ == v@,
{
    let mut s = String::new();
    let mut i: usize = 0;
    while i < v.len()
        invariant
            i <= v.len(),
            s@ == v@.take(i as int),
        decreases v.len() - i,
    {
        s.push(v[i]);
        i = i + 1;
        assert(s@ =~= v@.take(i as int));
    }
    assert(v@.take(i as int) =~= v@);
    s
}

/// Add the characters of `s` at the end of `out`.
pub fn append_str(out: &mut Vec<char>, s: &str)
    ensures
        final(out)@ == old(out)@ + s@,
{
    let mut t = chars_of(s);
    out.append(&mut t);
}

/// A copy of a list of characters.
pub fn clone_chars(v: &Vec<char>) -> (r: Vec<char>)
    ensures
        r@ == v@,
{
    sub_chars(v, 0, v.len())
}

/// The characters from index `from` up to `to`.
pub fn sub_chars(v: &Vec<char>, from: usize, to: usize) -> (r: Vec<char>)
    requires
        from <= to <= v.len(),
    ensures
        r@ == v@.subrange(from as int, to as int),
{
    let mut r: Vec<char> = Vec::new();
    let mut i: usize = from;
    while i < to
        invariant
            from <= i <= to <= v.len(),
            r@ == v@.subrange(from as int, i as int),
        decreases to - i,
    {
        r.push(v[i]);
        i = i + 1;
        assert(r@ =~= v@.subrange(from as int, i as int));
    }
    r
}

/// Whether two lists of characters are the same.
pub fn chars_eq(a: &Vec<char>, b: &Vec<char>) -> (r: bool)
    ensures
        r == (a@ == b@),
{
    if a.len() != b.len() {
        return false;
    }
    let mut i: usize = 0;
    while i < a.len()
        invariant
            i <= a.len() == b.len(),
            forall|k: int| 0 <= k < i ==> a@[k] == b@[k],
        decreases a.len() - i,
    {
        if a[i] != b[i] {
            assert(a@[i as int] != b@[i as int]);
            return false;
        }
        i = i + 1;
    }
    assert(a@ =~= b@);
    true
}

/// Whether two strings hold the same characters.
pub fn str_eq(a: &str, b: &str) -> (r: bool)
    ensures
        r == (a@ == b@),
{
    chars_eq(&chars_of(a), &chars_of(b))
}

// ---- ASCII case -------------------------------------------------------------

/// A character with ASCII capitals made small.
pub open spec fn lower_char(c: char) -> char {
    if 'A' <= c <= 'Z' {
        (c as u32 + 32) as char
    } else {
        c
    }
}

/// A text with ASCII capitals made small.
pub open spec fn lower_text(s: Seq<char>) -> Seq<char> {
    Seq::new(s.len(), |i: int| lower_char(s[i]))
}

/// A character with ASCII capitals made small.
pub fn to_lower_char(c: char) -> (r: char)
    ensures
        r == lower_char(c),
{
    if 'A' <= c && c <= 'Z' {
        ((c as u8) + 32) as char
    } else {
        c
    }
}

/// A text with ASCII capitals made small.
pub fn to_lower_chars(v: &Vec<char>) -> (r: Vec<char>)
    ensures
        r@ == lower_text(v@),
{
    let mut r: Vec<char> = Vec::new();
    let mut i: usize = 0;
    while i < v.len()
        invariant
            i <= v.len(),
            r@ == lower_text(v@.take(i as int)),
        decreases v.len() - i,
    {
        r.push(to_lower_char(v[i]));
        i = i + 1;
        assert(r@ =~= lower_text(v@.take(i as int)));
    }
    assert(v@.take(i as int) =~= v@);
    r
}

/// Whether two texts differ at most in ASCII case.
pub open spec fn same_ignoring_case(a: Seq<char>, b: Seq<char>) -> bool {
    lower_text(a) == lower_text(b)
}

/// Whether two strings differ at most in ASCII case.
pub fn eq_ignore_case(a: &str, b: &str) -> (r: bool)
    ensures
        r == same_ignoring_case(a@, b@),
{
    chars_eq(&to_lower_chars(&chars_of(a)), &to_lower_chars(&chars_of(b)))
}

// ---- UTF-16 -----------------------------------------------------------------

/// The code units of a character.
pub open spec fn utf16_char(c: char) -> Seq<u16> {
    if (c as u32) < 0x1_0000 {
        seq![(c as u32) as u16]
    } else {
        seq![
            (0xD800 + (c as u32 - 0x1_0000) / 0x400) as u16,
            (0xDC00 + (c as u32 - 0x1_0000) % 0x400) as u16,
        ]
    }
}

/// The code units of a text.
pub open spec fn utf16(s: Seq<char>) -> Seq<u16>
    decreases s.len(),
{
    if s.len() == 0 {
        Seq::empty()
    } else {
        utf16(s.drop_last()) + utf16_char(s.last())
    }
}

/// The code units of some characters.
pub fn encode_utf16_chars(v: &Vec<char>) -> (r: Vec<u16>)
    ensures
        r@ == utf16(v@),
{
    let mut r: Vec<u16> = Vec::new();
    let mut i: usize = 0;
    while i < v.len()
        invariant
            i <= v.len(),
            r@ == utf16(v@.take(i as int)),
        decreases v.len() - i,
    {
        let ch: char = v[i];
        let c: u32 = ch as u32;
        proof {
            vstd::utf8::char_is_scalar(ch);
            assert(v@.take(i + 1).drop_last() =~= v@.take(i as int));
        }
        if c < 0x1_0000 {
            r.push(c as u16);
        } else {
            r.push((0xD800 + (c - 0x1_0000) / 0x400) as u16);
            r.push((0xDC00 + (c - 0x1_0000) % 0x400) as u16);
        }
        i = i + 1;
        assert(r@ =~= utf16(v@.take(i as int)));
    }
    assert(v@.take(i as int) =~= v@);
    r
}

/// The code units of a string.
pub fn encode_utf16(s: &str) -> (r: Vec<u16>)
    ensures
        r@ == utf16(s@),
{
    encode_utf16_chars(&chars_of(s))
}

/// The replacement character.
pub open spec fn replacement() -> char {
    0xFFFDu32 as char
}

/// A high surrogate.
pub open spec fn is_high(u: u16) -> bool {
    0xD800 <= u < 0xDC00
}

/// A low surrogate.
pub open spec fn is_low(u: u16) -> bool {
    0xDC00 <= u < 0xE000
}

/// The text of some code units; each unpaired surrogate becomes U+FFFD.
pub open spec fn utf16_lossy(u: Seq<u16>) -> Seq<char>
    decreases u.len(),
{
    if u.len() == 0 {
        Seq::empty()
    } else if is_high(u[0]) && u.len() > 1 && is_low(u[1]) {
        seq![(0x1_0000 + (u[0] - 0xD800) * 0x400 + (u[1] - 0xDC00)) as char] + utf16_lossy(
            u.skip(2),
        )
    } else if is_high(u[0]) || is_low(u[0]) {
        seq![replacement()] + utf16_lossy(u.skip(1))
    } else {
        seq![u[0] as char] + utf16_lossy(u.skip(1))
    }
}

/// The character of a scalar value, or the replacement character.
fn char_or_replacement(v: u32) -> (c: char)
    ensures
        (v < 0xD800 || 0xE000 <= v <= 0x10FFFF) ==> c == v as char,
        !(v < 0xD800 || 0xE000 <= v <= 0x10FFFF) ==> c == replacement(),
{
    match core::char::from_u32(v) {
        Some(c) => c,
        None => '\u{FFFD}',
    }
}

/// The text of some code units; each unpaired surrogate becomes U+FFFD.
pub fn decode_utf16_lossy(u: &Vec<u16>) -> (r: String)
    ensures
        r@ == utf16_lossy(u@),
{
    let mut r = String::new();
    let mut i: usize = 0;
    assert(u@.skip(0) =~= u@);
    while i < u.len()
        invariant
            i <= u.len(),
            utf16_lossy(u@) == r@ + utf16_lossy(u@.skip(i as int)),
        decreases u.len() - i,
    {
        let a: u16 = u[i];
        let ghost rest = u@.skip(i as int);
        let ghost before = r@;
        proof {
            assert(rest.skip(1) =~= u@.skip(i + 1));
            if i + 1 < u.len() {
                assert(rest.skip(2) =~= u@.skip(i + 2));
            }
        }
        if 0xD800 <= a && a < 0xDC00 && i + 1 < u.len() && 0xDC00 <= u[i + 1] && u[i + 1] < 0xE000 {
            let b: u16 = u[i + 1];
            r.push(char_or_replacement(0x1_0000 + (a as u32 - 0xD800) * 0x400 + (b as u32 - 0xDC00)));
            i = i + 2;
        } else {
            r.push(char_or_replacement(a as u32));
            i = i + 1;
        }
        assert(utf16_lossy(u@) =~= r@ + utf16_lossy(u@.skip(i as int)));
    }
    assert(r@ =~= utf16_lossy(u@));
    r
}

/// The little-endian bytes of some code units.
pub open spec fn utf16_bytes(u: Seq<u16>) -> Seq<u8> {
    Seq::new(
        2 * u.len(),
        |i: int|
            if i % 2 == 0 {
                (u[i / 2] % 256) as u8
            } else {
                (u[i / 2] / 256) as u8
            },
    )
}

/// The little-endian bytes of some code units.
pub fn units_to_bytes(u: &Vec<u16>) -> (r: Vec<u8>)
    ensures
        r@ == utf16_bytes(u@),
{
    let mut r: Vec<u8> = Vec::new();
    let mut i: usize = 0;
    while i < u.len()
        invariant
            i <= u.len(),
            r@ == utf16_bytes(u@.take(i as int)),
        decreases u.len() - i,
    {
        r.push((u[i] % 256) as u8);
        r.push((u[i] / 256) as u8);
        i = i + 1;
        assert(r@ =~= utf16_bytes(u@.take(i as int)));
    }
    assert(u@.take(i as int) =~= u@);
    r
}

// ---- numbers ----------------------------------------------------------------

/// The digit of a number below sixteen.
pub open spec fn digit(d: nat) -> char {
    if d < 10 {
        ('0' as u32 + d) as char
    } else {
        ('a' as u32 + (d - 10)) as char
    }
}

/// A number in positional notation, without leading zeros.
pub open spec fn numeral(v: nat, radix: nat) -> Seq<char>
    decreases v,
{
    if radix < 2 || v < radix {
        seq![digit(v)]
    } else {
        proof {
            assert(v / radix < v) by (nonlinear_arith)
                requires
                    2 <= radix <= v,
            ;
        }
        numeral(v / radix, radix).push(digit(v % radix))
    }
}

/// The digit of a number below sixteen.
fn digit_char(d: u64) -> (c: char)
    requires
        d < 16,
    ensures
        c == digit(d as nat),
{
    if d < 10 {
        (48 + d as u8) as char
    } else {
        (97 + (d as u8 - 10)) as char
    }
}

/// A number in positional notation, without leading zeros.
pub fn numeral_chars(v: u64, radix: u64) -> (r: Vec<char>)
    requires
        2 <= radix <= 16,
    ensures
        r@ == numeral(v as nat, radix as nat),
    decreases v,
{
    if v < radix {
        let mut r: Vec<char> = Vec::new();
        r.push(digit_char(v));
        assert(r@ =~= numeral(v as nat, radix as nat));
        r
    } else {
        proof {
            assert(v / radix < v) by (nonlinear_arith)
                requires
                    2 <= radix <= v,
            ;
            assert(v % radix < radix) by (nonlinear_arith)
                requires
                    2 <= radix,
            ;
        }
        let mut r = numeral_chars(v / radix, radix);
        r.push(digit_char(v % radix));
        r
    }
}

} // verus!
