use vstd::prelude::*;

verus! {

/// Whether `i` is a Unicode scalar value, that is a code point outside the
/// surrogate range.
pub open spec fn is_scalar_value(i: u32) -> bool {
    i < 0xD800 || (0xE000 <= i && i <= 0x10FFFF)
}

/// Relies on `String::push`: appends one character at the end.
pub assume_specification[ String::push ](s: &mut String, ch: char)
    ensures
        final(s)@ == old(s)@.push(ch),
;

/// Relies on `char::from_u32`: a character exactly for the scalar values,
/// with that code.
pub assume_specification[ core::char::from_u32 ](i: u32) -> (r: Option<char>)
    ensures
        r == (if is_scalar_value(i) { Some(i as char) } else { None }),
;

/// The decimal digit character for `d`.
pub open spec fn digit_char(d: nat) -> char {
    ((d + 48) as u32) as char
}

/// The decimal notation of `n`, without leading zeros.
pub open spec fn decimal(n: nat) -> Seq<char>
    decreases n,
{
    if n < 10 {
        seq![digit_char(n)]
    } else {
        decimal(n / 10).push(digit_char(n % 10))
    }
}

/// Appends the decimal notation of `n` to `s`.
pub fn push_decimal(s: &mut String, n: u64)
    ensures
        final(s)@ == old(s)@ + decimal(n as nat),
    decreases n,
{
    if n >= 10 {
        push_decimal(s, n / 10);
    }
    let d = (n % 10) as u32;
    match core::char::from_u32(48 + d) {
        Some(c) => s.push(c),
        None => {},
    }
    assert(s@ =~= old(s)@ + decimal(n as nat));
}

} // verus!
