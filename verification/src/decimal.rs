//! Numbers written out in decimal digits, as they stand in dates and times.

use vstd::prelude::*;

verus! {

/// The character of the digit `digit`.
pub open spec fn digit_char(digit: int) -> char {
    (48 + digit) as u8 as char
}

/// The digits of a number, the most significant first; none for zero.
pub open spec fn significant_digits(number: nat) -> Seq<char>
    decreases number,
{
    if number == 0 {
        Seq::empty()
    } else {
        significant_digits(number / 10).push(digit_char((number % 10) as int))
    }
}

/// A number in decimal: its digits, and a single zero for zero.
pub open spec fn decimal(number: nat) -> Seq<char> {
    significant_digits(number / 10).push(digit_char((number % 10) as int))
}

/// A run of `count` zeros.
pub open spec fn zeros(count: int) -> Seq<char> {
    Seq::new(
        if count > 0 {
            count as nat
        } else {
            0
        },
        |i: int| '0',
    )
}

/// A number in decimal, with zeros before it to fill `width` places.
pub open spec fn padded(number: nat, width: int) -> Seq<char> {
    zeros(width - decimal(number).len()) + decimal(number)
}

/// A number with its sign in decimal, with zeros between the sign and the
/// digits to fill `width` places. Only a negative number has a sign.
pub open spec fn padded_signed(number: int, width: int) -> Seq<char> {
    if number < 0 {
        seq!['-'] + padded((-number) as nat, width - 1)
    } else {
        padded(number as nat, width)
    }
}

/// Trusted: `String::push` of the standard library, which appends one
/// character.
#[verifier::external_body]
pub(crate) fn push_char(text: &mut String, character: char)
    ensures
        final(text)@ == old(text)@.push(character),
{
    text.push(character);
}

/// Appends `number` in decimal to `text`, with zeros before it to fill
/// `width` places.
pub fn push_padded(text: &mut String, number: u64, width: usize)
    ensures
        final(text)@ == old(text)@ + padded(number as nat, width as int),
{
    let mut digits: Vec<char> = Vec::new();
    let mut rest: u64 = number;
    digits.push((48u8 + (rest % 10) as u8) as char);
    rest = rest / 10;
    assert(digits@.reverse() =~= seq![digit_char((number % 10) as int)]);
    assert(significant_digits((number / 10) as nat).push(digit_char((number % 10) as int))
        =~= significant_digits((number / 10) as nat) + digits@.reverse());
    while rest > 0
        invariant
            digits@.len() >= 1,
            decimal(number as nat) == significant_digits(rest as nat) + digits@.reverse(),
        decreases rest,
    {
        let ghost before = digits@;
        let ghost rest_before = rest;
        digits.push((48u8 + (rest % 10) as u8) as char);
        rest = rest / 10;
        proof {
            let digit = digit_char((rest_before % 10) as int);
            assert(digits@.reverse() =~= seq![digit] + before.reverse());
            assert(significant_digits(rest_before as nat) + before.reverse()
                =~= significant_digits(rest as nat) + digits@.reverse());
        }
    }
    assert(significant_digits(0) + digits@.reverse() =~= digits@.reverse());
    let count: usize = digits.len();
    let mut filled: usize = count;
    let ghost start = text@;
    assert(start + zeros(0) =~= start);
    while filled < width
        invariant
            count <= filled,
            count == digits@.len(),
            filled <= width || filled == count,
            text@ == start + zeros(filled - count),
        decreases width - filled,
    {
        push_char(text, '0');
        filled = filled + 1;
        assert(text@ =~= start + zeros(filled - count));
    }
    let ghost padding = zeros(width - count);
    assert(zeros(filled - count) =~= padding);
    let mut i: usize = count;
    assert(digits@.reverse().subrange(0, 0) =~= Seq::<char>::empty());
    assert(start + padding + Seq::<char>::empty() =~= start + padding);
    while i > 0
        invariant
            i <= count,
            count == digits@.len(),
            text@ == start + padding + digits@.reverse().subrange(0, count - i),
        decreases i,
    {
        i = i - 1;
        push_char(text, digits[i]);
        assert(digits@.reverse().subrange(0, count - i) =~= digits@.reverse().subrange(
            0,
            count - i - 1,
        ).push(digits@[i as int]));
        assert(text@ =~= start + padding + digits@.reverse().subrange(0, count - i));
    }
    assert(digits@.reverse().subrange(0, count as int) =~= digits@.reverse());
    assert(text@ =~= start + (padding + digits@.reverse()));
}

/// Appends `number` with its sign in decimal to `text`, with zeros between
/// the sign and the digits to fill `width` places.
pub fn push_padded_signed(text: &mut String, number: i64, width: usize)
    requires
        number > i64::MIN,
    ensures
        final(text)@ == old(text)@ + padded_signed(number as int, width as int),
{
    if number < 0 {
        push_char(text, '-');
        let ghost signed = text@;
        let rest: usize = if width > 0 {
            width - 1
        } else {
            0
        };
        push_padded(text, (-number) as u64, rest);
        assert(zeros(width - 1 - decimal((-number) as nat).len()) =~= zeros(
            rest - decimal((-number) as nat).len(),
        ));
        assert(text@ =~= old(text)@ + (seq!['-'] + padded((-number) as nat, width - 1)));
    } else {
        push_padded(text, number as u64, width);
    }
}

} // verus!
