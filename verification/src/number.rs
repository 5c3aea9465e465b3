//! Real numbers as a snapshot holds them.
//!
//! The library does not compute with a number. It prints it, by the text it
//! came with, and compares it with another, by the bits of its IEEE 754 single
//! precision value.

use vstd::prelude::*;
use vstd::string::*;

verus! {

/// Whether `c` may stand in the text of a number: a digit, a sign, the decimal
/// point, the mark of an exponent, or a letter of `inf` or `NaN`.
pub open spec fn number_char(c: char) -> bool {
    ('0' <= c && c <= '9') || c == '-' || c == '+' || c == '.' || c == 'e' || c == 'E' || c == 'i'
        || c == 'n' || c == 'f' || c == 'N' || c == 'a'
}

/// Whether `s` is the text of a number: not empty, and made of the characters
/// of numbers alone.
pub open spec fn is_number_text(s: Seq<char>) -> bool {
    s.len() > 0 && forall|i: int| 0 <= i < s.len() ==> number_char(#[trigger] s[i])
}

/// The bits of a value without its sign.
pub open spec fn magnitude(bits: u32) -> int {
    bits as int % 0x8000_0000
}

/// Whether the bits are those of a NaN.
pub open spec fn is_nan(bits: u32) -> bool {
    magnitude(bits) > 0x7f80_0000
}

/// Whether two values are equal as numbers: neither is a NaN, and they have the
/// same bits or are both zero, whatever the sign of each zero.
pub open spec fn equal_values(a: u32, b: u32) -> bool {
    !is_nan(a) && !is_nan(b) && (a == b || (magnitude(a) == 0 && magnitude(b) == 0))
}

/// A real number: the bits of its value and the text it is printed with.
#[derive(Debug, PartialEq, Eq)]
pub struct Number {
    text: String,
    bits: u32,
}

impl View for Number {
    type V = Seq<char>;

    /// The text the number is printed with.
    closed spec fn view(&self) -> Seq<char> {
        self.text@
    }
}

impl Clone for Number {
    fn clone(&self) -> (copy: Number)
        ensures
            copy == *self,
    {
        proof {
            use_type_invariant(self);
        }
        Number { text: self.text.clone(), bits: self.bits }
    }
}

fn is_number_char(c: char) -> (ok: bool)
    ensures
        ok == number_char(c),
{
    ('0' <= c && c <= '9') || c == '-' || c == '+' || c == '.' || c == 'e' || c == 'E' || c == 'i'
        || c == 'n' || c == 'f' || c == 'N' || c == 'a'
}

impl Number {
    #[verifier::type_invariant]
    closed spec fn well_formed(&self) -> bool {
        is_number_text(self.text@)
    }

    /// The bits of the value.
    pub closed spec fn bits(&self) -> u32 {
        self.bits
    }

    /// The number with the given text and bits, where the text is that of a
    /// number.
    pub fn new(text: String, bits: u32) -> (made: Option<Number>)
        ensures
            made is Some <==> is_number_text(text@),
            made matches Some(n) ==> n@ == text@ && n.bits() == bits,
    {
        let len = text.as_str().unicode_len();
        if len == 0 {
            return None;
        }
        let mut i: usize = 0;
        while i < len
            invariant
                i <= len,
                len == text@.len(),
                forall|j: int| 0 <= j < i ==> number_char(#[trigger] text@[j]),
            decreases len - i,
        {
            if !is_number_char(text.as_str().get_char(i)) {
                return None;
            }
            i += 1;
        }
        Some(Number { text, bits })
    }

    /// The text the number is printed with. It is the text of a number.
    pub fn as_str(&self) -> (s: &str)
        ensures
            s@ == self@,
            is_number_text(self@),
    {
        proof {
            use_type_invariant(self);
        }
        self.text.as_str()
    }

    /// The bits of the value.
    pub fn to_bits(&self) -> (bits: u32)
        ensures
            bits == self.bits(),
    {
        self.bits
    }

    /// Whether the two numbers are equal.
    pub fn equals(&self, other: &Number) -> (equal: bool)
        ensures
            equal == equal_values(self.bits(), other.bits()),
    {
        let a: u32 = self.bits % 0x8000_0000;
        let b: u32 = other.bits % 0x8000_0000;
        a <= 0x7f80_0000 && b <= 0x7f80_0000 && (self.bits == other.bits || (a == 0 && b == 0))
    }
}

/// Equality of values is symmetric.
pub proof fn lemma_equal_values_symmetric(a: u32, b: u32)
    ensures
        equal_values(a, b) == equal_values(b, a),
{
}

/// A value is equal to itself unless it is a NaN, and a NaN is equal to no
/// value.
pub proof fn lemma_equal_values_reflexive(a: u32, b: u32)
    ensures
        equal_values(a, a) == !is_nan(a),
        is_nan(a) ==> !equal_values(a, b),
{
}

/// The two zeros are equal, and values that are not zero are equal only where
/// their bits are.
pub proof fn lemma_equal_values_zero(a: u32, b: u32)
    ensures
        equal_values(0, 0x8000_0000),
        equal_values(a, b) && magnitude(a) != 0 ==> a == b,
{
}

/// Whether `c` does not occur in `s`.
pub open spec fn free_of(s: Seq<char>, c: char) -> bool {
    forall|i: int| 0 <= i < s.len() ==> #[trigger] s[i] != c
}

/// The text of a number holds no character of markup: no angle bracket, no
/// quotation mark, no ampersand and no space.
pub proof fn lemma_number_text_is_plain(s: Seq<char>)
    requires
        is_number_text(s),
    ensures
        free_of(s, '<'),
        free_of(s, '>'),
        free_of(s, '"'),
        free_of(s, '&'),
        free_of(s, ' '),
{
    assert forall|i: int| 0 <= i < s.len() implies #[trigger] s[i] != '<' && s[i] != '>' && s[i]
        != '"' && s[i] != '&' && s[i] != ' ' by {
        assert(number_char(s[i]));
    }
}

} // verus!
