//! Text building blocks: appending characters, hexadecimal octets and
//! decimal numbers.

use vstd::prelude::*;

use crate::packet::SystemId;

verus! {

/// Appends one character to a string.
///
/// Calls `String::push`, which appends the character at the end of the
/// string; the contract states exactly that of the string's characters.
#[verifier::external_body]
pub(crate) fn string_push(s: &mut String, c: char)
    ensures
        final(s)@ == old(s)@.push(c),
{
    s.push(c);
}

/// Appends the characters of `t` to `s`.
pub fn push_str(s: &mut String, t: &str)
    ensures
        final(s)@ == old(s)@ + t@,
{
    s.append(t);
}

/// The characters of a string slice, in order.
pub fn chars_of(s: &str) -> (v: Vec<char>)
    ensures
        v@ == s@,
{
    let mut v: Vec<char> = Vec::new();
    for c in it: s.chars()
        invariant
            v@ == it.seq().take(it.index() as int),
            it.seq() == s@,
    {
        v.push(c);
    }
    assert(v@ =~= s@);
    v
}

/// Lower-case hexadecimal digit of a value below sixteen.
pub open spec fn hex_digit(n: u8) -> char
    recommends
        n < 16,
{
    if n < 10 {
        (48 + n) as char
    } else {
        (87 + n) as char
    }
}

/// Two lower-case hexadecimal digits of an octet, high nibble first.
pub open spec fn hex_octet(b: u8) -> Seq<char> {
    seq![hex_digit(b / 16), hex_digit(b % 16)]
}

/// A System ID written as three dot-separated groups of four lower-case
/// hexadecimal digits, as in `0000.0000.00a1`.
pub open spec fn system_id_text(s: SystemId) -> Seq<char> {
    hex_octet(s.0) + hex_octet(s.1) + seq!['.'] + hex_octet(s.2) + hex_octet(s.3) + seq!['.']
        + hex_octet(s.4) + hex_octet(s.5)
}

fn hex_digit_char(n: u8) -> (c: char)
    requires
        n < 16,
    ensures
        c == hex_digit(n),
{
    if n < 10 {
        (48 + n) as char
    } else {
        (87 + n) as char
    }
}

/// Appends the two hexadecimal digits of an octet.
pub fn push_hex_octet(s: &mut String, b: u8)
    ensures
        final(s)@ == old(s)@ + hex_octet(b),
{
    string_push(s, hex_digit_char(b / 16));
    string_push(s, hex_digit_char(b % 16));
    assert(final(s)@ =~= old(s)@ + hex_octet(b));
}

/// Appends a System ID in dotted hexadecimal form.
pub fn push_system_id(s: &mut String, sid: SystemId)
    ensures
        final(s)@ == old(s)@ + system_id_text(sid),
{
    let ghost s0 = s@;
    push_hex_octet(s, sid.0);
    push_hex_octet(s, sid.1);
    string_push(s, '.');
    push_hex_octet(s, sid.2);
    push_hex_octet(s, sid.3);
    string_push(s, '.');
    push_hex_octet(s, sid.4);
    push_hex_octet(s, sid.5);
    assert(s@ =~= s0 + system_id_text(sid));
}

/// Decimal digits of a number, most significant first, without leading
/// zeros ("0" for zero).
pub open spec fn decimal(n: nat) -> Seq<char>
    decreases n,
{
    if n < 10 {
        seq![(48 + n) as char]
    } else {
        decimal(n / 10).push((48 + n % 10) as char)
    }
}

/// Appends the decimal digits of `n`.
pub fn push_decimal(s: &mut String, n: u64)
    ensures
        final(s)@ == old(s)@ + decimal(n as nat),
    decreases n,
{
    if n < 10 {
        string_push(s, ((48 + n) as u8) as char);
        assert(final(s)@ =~= old(s)@ + decimal(n as nat));
    } else {
        push_decimal(s, n / 10);
        string_push(s, ((48 + n % 10) as u8) as char);
        assert(final(s)@ =~= old(s)@ + decimal(n as nat));
    }
}

/// "true" or "false".
pub open spec fn bool_text(b: bool) -> Seq<char> {
    if b {
        seq!['t', 'r', 'u', 'e']
    } else {
        seq!['f', 'a', 'l', 's', 'e']
    }
}

/// Appends "true" or "false".
pub fn push_bool(s: &mut String, b: bool)
    ensures
        final(s)@ == old(s)@ + bool_text(b),
{
    let ghost s0 = s@;
    if b {
        string_push(s, 't');
        string_push(s, 'r');
        string_push(s, 'u');
        string_push(s, 'e');
    } else {
        string_push(s, 'f');
        string_push(s, 'a');
        string_push(s, 'l');
        string_push(s, 's');
        string_push(s, 'e');
    }
    assert(s@ =~= s0 + bool_text(b));
}

/// Formats a System ID as three dot-separated groups of four lower-case
/// hexadecimal digits.
pub fn format_system_id(sid: SystemId) -> (r: String)
    ensures
        r@ == system_id_text(sid),
{
    let mut r = String::new();
    push_system_id(&mut r, sid);
    assert(r@ =~= system_id_text(sid));
    r
}

} // verus!
