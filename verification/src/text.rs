//! Writing numbers and genes as text.

use vstd::prelude::*;

verus! {

/// The character of a decimal digit.
pub open spec fn digit(value: nat) -> char {
    (48 + value) as char
}

/// A number in decimal notation, without leading zeros.
pub open spec fn decimal(number: nat) -> Seq<char>
    decreases number,
{
    if number < 10 {
        seq![digit(number)]
    } else {
        decimal(number / 10).push(digit(number % 10))
    }
}

/// The last `width` decimal digits of a number, leading zeros included.
pub open spec fn fixed(number: nat, width: nat) -> Seq<char>
    decreases width,
{
    if width == 0 {
        Seq::empty()
    } else {
        fixed(number / 10, (width - 1) as nat).push(digit(number % 10))
    }
}

/// Bytes as text: every byte is the character of that code.
pub open spec fn as_text(bytes: Seq<u8>) -> Seq<char> {
    Seq::new(bytes.len(), |i: int| bytes[i] as char)
}

/// `String::push`, with the byte taken as the character of that code: the
/// character is added at the end of the text.
#[verifier::external_body]
pub(crate) fn push_byte(text: &mut String, byte: u8)
    ensures
        final(text)@ == old(text)@.push(byte as char),
{
    text.push(byte as char)
}

/// Writes a number in decimal notation at the end of a text.
pub fn write_decimal(text: &mut String, number: u64)
    ensures
        final(text)@ == old(text)@ + decimal(number as nat),
    decreases number,
{
    if number >= 10 {
        write_decimal(text, number / 10);
    }
    push_byte(text, 48 + (number % 10) as u8);
    proof {
        assert(text@ =~= old(text)@ + decimal(number as nat));
    }
}

/// Writes the last `width` decimal digits of a number at the end of a text,
/// leading zeros included.
pub fn write_fixed(text: &mut String, number: u64, width: usize)
    ensures
        final(text)@ == old(text)@ + fixed(number as nat, width as nat),
    decreases width,
{
    if width > 0 {
        write_fixed(text, number / 10, width - 1);
        push_byte(text, 48 + (number % 10) as u8);
    }
    proof {
        assert(text@ =~= old(text)@ + fixed(number as nat, width as nat));
    }
}

/// Writes bytes as text at the end of a text.
pub fn write_bytes(text: &mut String, bytes: &Vec<u8>)
    ensures
        final(text)@ == old(text)@ + as_text(bytes@),
{
    let mut position: usize = 0;
    proof {
        assert(text@ =~= old(text)@ + as_text(bytes@.subrange(0, 0)));
    }
    while position < bytes.len()
        invariant
            position <= bytes@.len(),
            text@ == old(text)@ + as_text(bytes@.subrange(0, position as int)),
        decreases bytes@.len() - position,
    {
        push_byte(text, bytes[position]);
        proof {
            assert(text@ =~= old(text)@ + as_text(bytes@.subrange(0, position + 1)));
        }
        position = position + 1;
    }
    proof {
        assert(bytes@.subrange(0, position as int) =~= bytes@);
    }
}

} // verus!
