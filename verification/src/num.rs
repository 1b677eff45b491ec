//! A number that is typed digit by digit.

use vstd::prelude::*;

verus! {

/// A number that grows by one decimal digit at a time and stops at the largest `u16`.
#[derive(Debug, Clone, Copy)]
pub struct IncrementalU16(u16);

/// `value` with `digit` appended, or the largest `u16` where that is smaller.
pub open spec fn pushed(value: u16, digit: u8) -> u16 {
    let wide = 10 * value + digit;
    if wide > u16::MAX {
        u16::MAX
    } else {
        wide as u16
    }
}

impl View for IncrementalU16 {
    type V = u16;

    closed spec fn view(&self) -> u16 {
        self.0
    }
}

impl IncrementalU16 {
    /// No digit yet.
    pub fn new() -> (r: Self)
        ensures
            r@ == 0,
    {
        IncrementalU16(0)
    }

    /// Appends a digit, and saturates.
    pub fn push_digit(&mut self, digit: u8)
        ensures
            final(self)@ == pushed(old(self)@, digit),
    {
        let wide: u32 = 10 * (self.0 as u32) + digit as u32;
        if wide > 65535 {
            self.0 = u16::MAX;
        } else {
            self.0 = wide as u16;
        }
    }

    /// The number so far.
    pub fn value(&self) -> (r: u16)
        ensures
            r == self@,
    {
        self.0
    }

    /// Forgets all digits.
    pub fn clear(&mut self)
        ensures
            final(self)@ == 0,
    {
        self.0 = 0;
    }
}

/// What is held after the digits `digits` are pushed, one after the other, onto `start`.
pub open spec fn pushed_all(start: u16, digits: Seq<u8>) -> u16
    decreases digits.len(),
{
    if digits.len() == 0 {
        start
    } else {
        pushed(pushed_all(start, digits.drop_last()), digits.last())
    }
}

/// The number that `digits` write in base ten.
pub open spec fn decimal(digits: Seq<u8>) -> nat
    decreases digits.len(),
{
    if digits.len() == 0 {
        0
    } else {
        10 * decimal(digits.drop_last()) + digits.last() as nat
    }
}

/// Typing digits onto a cleared number gives the number they write, up to the largest `u16`.
pub proof fn law_digits_write_a_number(digits: Seq<u8>)
    ensures
        decimal(digits) <= u16::MAX ==> pushed_all(0, digits) == decimal(digits),
        decimal(digits) > u16::MAX ==> pushed_all(0, digits) == u16::MAX,
    decreases digits.len(),
{
    if digits.len() > 0 {
        law_digits_write_a_number(digits.drop_last());
    }
}

/// Appending a digit multiplies by ten and adds it, and stops at 65535.
pub proof fn law_digit_is_appended(number: &mut IncrementalU16, digit: u8)
    requires
        call_ensures(IncrementalU16::push_digit, (number, digit), ()),
    ensures
        10 * old(number)@ + digit <= 65535 ==> final(number)@ == 10 * old(number)@ + digit,
        10 * old(number)@ + digit > 65535 ==> final(number)@ == 65535,
{
}

} // verus!
