//! Verified text building: decimal rendering of integers and hyphenated
//! hexadecimal rendering of 128-bit identifiers, used for human-readable
//! rule descriptions and event subjects.

use vstd::prelude::*;
use crate::runtime::push_char;

verus! {

/// The decimal digit character for one digit value.
pub open spec fn spec_digit(d: nat) -> char {
    if d == 0 {
        '0'
    } else if d == 1 {
        '1'
    } else if d == 2 {
        '2'
    } else if d == 3 {
        '3'
    } else if d == 4 {
        '4'
    } else if d == 5 {
        '5'
    } else if d == 6 {
        '6'
    } else if d == 7 {
        '7'
    } else if d == 8 {
        '8'
    } else {
        '9'
    }
}

/// The decimal rendering of a natural number, most significant digit first.
pub open spec fn spec_dec_nat(n: nat) -> Seq<char>
    decreases n,
{
    if n < 10 {
        seq![spec_digit(n)]
    } else {
        spec_dec_nat(n / 10).push(spec_digit(n % 10))
    }
}

/// The decimal rendering of a signed number: a minus sign before the digits
/// of its magnitude when negative.
pub open spec fn spec_dec_i64(v: i64) -> Seq<char> {
    if v < 0 {
        seq!['-'] + spec_dec_nat((-(v as int)) as nat)
    } else {
        spec_dec_nat(v as nat)
    }
}

/// Returns the decimal digit character for a digit value.
pub fn digit_char(d: u64) -> (r: char)
    requires
        d < 10,
    ensures
        r == spec_digit(d as nat),
{
    if d == 0 {
        '0'
    } else if d == 1 {
        '1'
    } else if d == 2 {
        '2'
    } else if d == 3 {
        '3'
    } else if d == 4 {
        '4'
    } else if d == 5 {
        '5'
    } else if d == 6 {
        '6'
    } else if d == 7 {
        '7'
    } else if d == 8 {
        '8'
    } else {
        '9'
    }
}

/// Renders a natural number in decimal.
pub fn dec_u64(n: u64) -> (r: String)
    ensures
        r@ == spec_dec_nat(n as nat),
    decreases n,
{
    if n < 10 {
        let mut s = String::new();
        push_char(&mut s, digit_char(n));
        proof {
            assert(s@ =~= spec_dec_nat(n as nat));
        }
        s
    } else {
        let mut s = dec_u64(n / 10);
        push_char(&mut s, digit_char(n % 10));
        s
    }
}

/// Renders a signed number in decimal, with a minus sign when negative.
pub fn dec_i64(v: i64) -> (r: String)
    ensures
        r@ == spec_dec_i64(v),
{
    if v < 0 {
        let magnitude: u64 = if v == i64::MIN {
            9223372036854775808u64
        } else {
            (-v) as u64
        };
        let mut s = String::new();
        push_char(&mut s, '-');
        let digits = dec_u64(magnitude);
        s.append(digits.as_str());
        proof {
            assert(s@ =~= spec_dec_i64(v));
        }
        s
    } else {
        dec_u64(v as u64)
    }
}

/// The lowercase hexadecimal digit character for one nibble value.
pub open spec fn spec_hex_digit(d: nat) -> char {
    if d < 10 {
        spec_digit(d)
    } else if d == 10 {
        'a'
    } else if d == 11 {
        'b'
    } else if d == 12 {
        'c'
    } else if d == 13 {
        'd'
    } else if d == 14 {
        'e'
    } else {
        'f'
    }
}

/// The `count` lowest nibbles of `n` as lowercase hexadecimal characters,
/// most significant nibble first.
pub open spec fn spec_hex_nibbles(n: u128, count: nat) -> Seq<char>
    decreases count,
{
    if count == 0 {
        Seq::empty()
    } else {
        spec_hex_nibbles(n / 16, (count - 1) as nat).push(spec_hex_digit((n % 16) as nat))
    }
}

/// The standard hyphenated rendering of a 128-bit identifier: five lowercase
/// hexadecimal groups of 8, 4, 4, 4 and 12 digits.
pub open spec fn spec_uuid_string(n: u128) -> Seq<char> {
    spec_hex_nibbles(n / 0x1_0000_0000_0000_0000_0000_0000, 8) + seq!['-']
        + spec_hex_nibbles(n / 0x1_0000_0000_0000_0000_0000, 4) + seq!['-'] + spec_hex_nibbles(
        n / 0x1_0000_0000_0000_0000,
        4,
    ) + seq!['-'] + spec_hex_nibbles(n / 0x1_0000_0000_0000, 4) + seq!['-'] + spec_hex_nibbles(
        n,
        12,
    )
}

/// Returns the lowercase hexadecimal digit character for a nibble value.
pub fn hex_digit_char(d: u64) -> (r: char)
    requires
        d < 16,
    ensures
        r == spec_hex_digit(d as nat),
{
    if d < 10 {
        digit_char(d)
    } else if d == 10 {
        'a'
    } else if d == 11 {
        'b'
    } else if d == 12 {
        'c'
    } else if d == 13 {
        'd'
    } else if d == 14 {
        'e'
    } else {
        'f'
    }
}

/// Appends the `count` lowest nibbles of `n` to the string, most significant
/// nibble first.
pub fn push_hex_nibbles(s: &mut String, n: u128, count: u64)
    ensures
        final(s)@ == old(s)@ + spec_hex_nibbles(n, count as nat),
    decreases count,
{
    if count == 0 {
        proof {
            assert(old(s)@ + spec_hex_nibbles(n, 0) =~= old(s)@);
        }
    } else {
        push_hex_nibbles(s, n / 16, count - 1);
        push_char(s, hex_digit_char((n % 16) as u64));
    }
}

/// Renders a 128-bit identifier in the standard hyphenated form.
pub fn uuid_string(n: u128) -> (r: String)
    ensures
        r@ == spec_uuid_string(n),
{
    let mut s = String::new();
    push_hex_nibbles(&mut s, n / 0x1_0000_0000_0000_0000_0000_0000, 8);
    push_char(&mut s, '-');
    push_hex_nibbles(&mut s, n / 0x1_0000_0000_0000_0000_0000, 4);
    push_char(&mut s, '-');
    push_hex_nibbles(&mut s, n / 0x1_0000_0000_0000_0000, 4);
    push_char(&mut s, '-');
    push_hex_nibbles(&mut s, n / 0x1_0000_0000_0000, 4);
    push_char(&mut s, '-');
    push_hex_nibbles(&mut s, n, 12);
    proof {
        assert(s@ =~= spec_uuid_string(n));
    }
    s
}

} // verus!
