//! Building strings a character at a time, with decimal and hexadecimal
//! number formatting stated over character sequences.

use vstd::prelude::*;

verus! {

/// The character for a digit value `d < 16`, upper-case for `A`..`F`.
pub open spec fn hex_digit(d: int) -> char {
    if d < 10 {
        (48 + d) as char
    } else {
        (55 + d) as char
    }
}

/// The character for a decimal digit value `d < 10`.
pub open spec fn decimal_digit(d: int) -> char {
    (48 + d) as char
}

/// Two upper-case hexadecimal digits for a byte.
pub open spec fn hex2(b: int) -> Seq<char> {
    seq![hex_digit(b / 16), hex_digit(b % 16)]
}

/// Four upper-case hexadecimal digits for a 16-bit value.
pub open spec fn hex4(v: int) -> Seq<char> {
    hex2(v / 256) + hex2(v % 256)
}

/// The shortest decimal spelling of `n`.
pub open spec fn decimal(n: nat) -> Seq<char>
    decreases n,
{
    if n < 10 {
        seq![decimal_digit(n as int)]
    } else {
        decimal(n / 10).push(decimal_digit((n % 10) as int))
    }
}

/// Whether two string slices hold the same characters, compared by their
/// UTF-8 bytes, which spell exactly one character sequence.
pub(crate) fn str_eq(a: &str, b: &str) -> (r: bool)
    ensures
        r == (a@ == b@),
{
    let x = a.as_bytes();
    let y = b.as_bytes();
    proof {
        vstd::utf8::encode_utf8_decode_utf8(a@);
        vstd::utf8::encode_utf8_decode_utf8(b@);
    }
    if x.len() != y.len() {
        return false;
    }
    let mut i: usize = 0;
    while i < x.len()
        invariant
            x@ == vstd::utf8::encode_utf8(a@),
            y@ == vstd::utf8::encode_utf8(b@),
            x@.len() == y@.len(),
            i <= x@.len(),
            forall|k: int| 0 <= k < i ==> x@[k] == y@[k],
        decreases x.len() - i,
    {
        if x[i] != y[i] {
            return false;
        }
        i = i + 1;
    }
    assert(x@ =~= y@);
    true
}

/// Appends one character to a string: `String::push`.
#[verifier::external_body]
pub(crate) fn push_char(s: &mut String, c: char)
    ensures
        final(s)@ == old(s)@.push(c),
{
    s.push(c);
}

/// Appends the hexadecimal digit for `d`.
pub fn push_hex_digit(s: &mut String, d: u8)
    requires
        d < 16,
    ensures
        final(s)@ == old(s)@.push(hex_digit(d as int)),
{
    let c: char = if d < 10 {
        (48u8 + d) as char
    } else {
        (55u8 + d) as char
    };
    push_char(s, c);
}

/// Appends two upper-case hexadecimal digits for `b`.
pub fn push_hex2(s: &mut String, b: u8)
    ensures
        final(s)@ == old(s)@ + hex2(b as int),
{
    push_hex_digit(s, b / 16);
    push_hex_digit(s, b % 16);
}

/// Appends four upper-case hexadecimal digits for `v`.
pub fn push_hex4(s: &mut String, v: u16)
    ensures
        final(s)@ == old(s)@ + hex4(v as int),
{
    push_hex2(s, (v / 256) as u8);
    push_hex2(s, (v % 256) as u8);
}

/// The shortest upper-case hexadecimal spelling of `n`.
pub open spec fn hex_digits(n: nat) -> Seq<char>
    decreases n,
{
    if n < 16 {
        seq![hex_digit(n as int)]
    } else {
        hex_digits(n / 16).push(hex_digit((n % 16) as int))
    }
}

/// Appends the shortest upper-case hexadecimal spelling of `n`.
pub fn push_hex_digits(s: &mut String, n: u32)
    ensures
        final(s)@ == old(s)@ + hex_digits(n as nat),
    decreases n,
{
    if n >= 16 {
        push_hex_digits(s, n / 16);
    }
    push_hex_digit(s, (n % 16) as u8);
    assert(final(s)@ == old(s)@ + hex_digits(n as nat)) by {
        if n < 16 {
            assert(old(s)@.push(hex_digit(n as int)) =~= old(s)@ + seq![hex_digit(n as int)]);
        } else {
            assert((old(s)@ + hex_digits((n / 16) as nat)).push(hex_digit((n % 16) as int))
                =~= old(s)@ + hex_digits((n / 16) as nat).push(hex_digit((n % 16) as int)));
        }
    }
}

/// Appends the decimal spelling of `n`.
pub fn push_decimal(s: &mut String, n: u64)
    ensures
        final(s)@ == old(s)@ + decimal(n as nat),
    decreases n,
{
    if n >= 10 {
        push_decimal(s, n / 10);
    }
    let d: u8 = (n % 10) as u8;
    push_char(s, (48u8 + d) as char);
    assert(final(s)@ == old(s)@ + decimal(n as nat)) by {
        if n < 10 {
            assert(old(s)@.push(decimal_digit(n as int)) =~= old(s)@ + seq![decimal_digit(n as int)]);
        } else {
            assert((old(s)@ + decimal((n / 10) as nat)).push(decimal_digit((n % 10) as int))
                =~= old(s)@ + decimal((n / 10) as nat).push(decimal_digit((n % 10) as int)));
        }
    }
}

/// The shortest decimal spelling of `n` as ASCII bytes.
pub open spec fn decimal_bytes(n: nat) -> Seq<u8>
    decreases n,
{
    if n < 10 {
        seq![(48 + n) as u8]
    } else {
        decimal_bytes(n / 10).push((48 + n % 10) as u8)
    }
}

/// Appends the decimal spelling of `n` as ASCII bytes.
pub fn push_decimal_bytes(v: &mut Vec<u8>, n: u64)
    ensures
        final(v)@ == old(v)@ + decimal_bytes(n as nat),
    decreases n,
{
    if n >= 10 {
        push_decimal_bytes(v, n / 10);
    }
    v.push(48u8 + (n % 10) as u8);
    assert(final(v)@ =~= old(v)@ + decimal_bytes(n as nat)) by {
        if n >= 10 {
            assert((old(v)@ + decimal_bytes((n / 10) as nat)).push((48 + n % 10) as u8)
                =~= old(v)@ + decimal_bytes((n / 10) as nat).push((48 + n % 10) as u8));
        }
    }
}

/// A decimal spelling has one digit below ten and more from ten up.
pub proof fn lemma_decimal_bytes_len(n: nat)
    ensures
        decimal_bytes(n).len() >= 1,
        decimal_bytes(n).len() == 1 <==> n < 10,
    decreases n,
{
    if n >= 10 {
        lemma_decimal_bytes_len(n / 10);
    }
}

/// Different numbers have different decimal spellings.
pub proof fn lemma_decimal_bytes_injective(a: nat, b: nat)
    requires
        decimal_bytes(a) == decimal_bytes(b),
    ensures
        a == b,
    decreases a,
{
    lemma_decimal_bytes_len(a);
    lemma_decimal_bytes_len(b);
    if a >= 10 && b >= 10 {
        assert(decimal_bytes(a).drop_last() =~= decimal_bytes(a / 10));
        assert(decimal_bytes(b).drop_last() =~= decimal_bytes(b / 10));
        lemma_decimal_bytes_injective(a / 10, b / 10);
        assert(decimal_bytes(a).last() == decimal_bytes(b).last());
        assert(decimal_bytes(a).last() == (48 + a % 10) as u8);
        assert((48 + a % 10) as u8 == 48 + a % 10);
        assert((48 + b % 10) as u8 == 48 + b % 10);
        assert(a == 10 * (a / 10) + a % 10);
        assert(b == 10 * (b / 10) + b % 10);
        assert(a % 10 == b % 10);
        assert(a / 10 == b / 10);
        assert(a == b);
    } else if a < 10 && b < 10 {
        assert(decimal_bytes(a) == seq![(48 + a) as u8]);
        assert(decimal_bytes(b) == seq![(48 + b) as u8]);
        assert(seq![(48 + a) as u8][0] == (48 + a) as u8);
        assert(seq![(48 + b) as u8][0] == (48 + b) as u8);
        assert(decimal_bytes(a)[0] == decimal_bytes(b)[0]);
        assert((48 + a) as u8 == 48 + a);
        assert((48 + b) as u8 == 48 + b);
        assert(a == b);
    } else {
        assert(decimal_bytes(a).len() == decimal_bytes(b).len());
        assert(false);
    }
}

} // verus!
