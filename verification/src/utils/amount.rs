//! Numbers and amounts of money as text: a number in decimal, lamports
//! written as SOL.

use vstd::prelude::*;
use vstd::string::StringExecFns;
use crate::LAMPORTS_PER_SOL;

verus! {

/// The value of the first decimal place of the part of an amount below one
/// SOL, in lamports.
pub const FIRST_PLACE: u64 = 100_000_000;

/// The character of a decimal digit.
pub open spec fn digit_char(digit: nat) -> char
    recommends
        digit < 10,
{
    if digit == 0 {
        '0'
    } else if digit == 1 {
        '1'
    } else if digit == 2 {
        '2'
    } else if digit == 3 {
        '3'
    } else if digit == 4 {
        '4'
    } else if digit == 5 {
        '5'
    } else if digit == 6 {
        '6'
    } else if digit == 7 {
        '7'
    } else if digit == 8 {
        '8'
    } else {
        '9'
    }
}

/// The digit that a character is, if it is one of `0` to `9`.
pub open spec fn digit_of(c: char) -> Option<nat> {
    if c == '0' {
        Some(0nat)
    } else if c == '1' {
        Some(1nat)
    } else if c == '2' {
        Some(2nat)
    } else if c == '3' {
        Some(3nat)
    } else if c == '4' {
        Some(4nat)
    } else if c == '5' {
        Some(5nat)
    } else if c == '6' {
        Some(6nat)
    } else if c == '7' {
        Some(7nat)
    } else if c == '8' {
        Some(8nat)
    } else if c == '9' {
        Some(9nat)
    } else {
        None
    }
}

/// The number that decimal digits spell: none where there is no digit or
/// where a character is no digit. Zeros may lead.
pub open spec fn spelled(digits: Seq<char>) -> Option<nat>
    decreases digits.len(),
{
    if digits.len() == 0 {
        None
    } else {
        match digit_of(digits.last()) {
            Some(digit) => if digits.len() == 1 {
                Some(digit)
            } else {
                match spelled(digits.drop_last()) {
                    Some(front) => Some(front * 10 + digit),
                    None => None,
                }
            },
            None => None,
        }
    }
}

/// The number that a text spells without a sign or after the sign `+`.
pub open spec fn spelled_unsigned(text: Seq<char>) -> Option<nat> {
    if text.len() > 0 && text[0] == '+' {
        spelled(text.drop_first())
    } else {
        spelled(text)
    }
}

/// The number that a text spells: digits, or digits after one of the
/// signs `+` and `-`.
pub open spec fn spelled_signed(text: Seq<char>) -> Option<int> {
    if text.len() > 0 && text[0] == '-' {
        match spelled(text.drop_first()) {
            Some(number) => Some(-(number as int)),
            None => None,
        }
    } else {
        match spelled_unsigned(text) {
            Some(number) => Some(number as int),
            None => None,
        }
    }
}

/// Whether `place` is the value of a decimal place below one SOL, or zero,
/// the place after the last.
pub open spec fn is_place(place: nat) -> bool {
    place == 0 || place == 1 || place == 10 || place == 100 || place == 1_000 || place == 10_000
        || place == 100_000 || place == 1_000_000 || place == 10_000_000 || place == 100_000_000
}

/// The decimals of `part`, from the place of value `place` on, up to the
/// last that is not zero: none if `part` is zero.
pub open spec fn decimals(part: nat, place: nat) -> Seq<char>
    decreases place,
{
    if part == 0 || place == 0 {
        Seq::empty()
    } else {
        seq![digit_char(part / place)] + decimals(part % place, place / 10)
    }
}

/// A number in decimal: its digits, the first of them zero only where the
/// number is.
pub open spec fn decimal(number: nat) -> Seq<char>
    decreases number,
{
    if number < 10 {
        seq![digit_char(number)]
    } else {
        decimal(number / 10).push(digit_char(number % 10))
    }
}

/// The amount `lamports` written in SOL: the whole SOL in decimal and,
/// where the amount is not whole, a point and the decimals up to the last
/// that is not zero.
pub open spec fn sol_decimal(lamports: u64) -> Seq<char> {
    decimal((lamports / LAMPORTS_PER_SOL) as nat) + if lamports % LAMPORTS_PER_SOL == 0 {
        Seq::<char>::empty()
    } else {
        "."@ + decimals((lamports % LAMPORTS_PER_SOL) as nat, FIRST_PLACE as nat)
    }
}

/// The text of a decimal digit.
pub fn digit_text(digit: u64) -> (text: &'static str)
    requires
        digit < 10,
    ensures
        text@ == seq![digit_char(digit as nat)],
{
    proof {
        reveal_strlit("0");
        reveal_strlit("1");
        reveal_strlit("2");
        reveal_strlit("3");
        reveal_strlit("4");
        reveal_strlit("5");
        reveal_strlit("6");
        reveal_strlit("7");
        reveal_strlit("8");
        reveal_strlit("9");
    }
    let text = if digit == 0 {
        "0"
    } else if digit == 1 {
        "1"
    } else if digit == 2 {
        "2"
    } else if digit == 3 {
        "3"
    } else if digit == 4 {
        "4"
    } else if digit == 5 {
        "5"
    } else if digit == 6 {
        "6"
    } else if digit == 7 {
        "7"
    } else if digit == 8 {
        "8"
    } else {
        "9"
    };
    assert(text@ =~= seq![digit_char(digit as nat)]);
    text
}

/// A number written in decimal.
pub fn decimal_text(number: u64) -> (text: String)
    ensures
        text@ == decimal(number as nat),
    decreases number,
{
    if number < 10 {
        digit_text(number).to_owned()
    } else {
        let text = decimal_text(number / 10).concat(digit_text(number % 10));
        assert(text@ =~= decimal((number / 10) as nat).push(digit_char((number % 10) as nat)));
        text
    }
}

/// The amount `lamports` written in SOL.
pub fn sol_text(lamports: u64) -> (text: String)
    ensures
        text@ == sol_decimal(lamports),
{
    let whole = decimal_text(lamports / LAMPORTS_PER_SOL);
    let mut text = whole.clone();
    let mut part: u64 = lamports % LAMPORTS_PER_SOL;
    let mut place: u64 = FIRST_PLACE;
    let ghost tail = decimals(part as nat, place as nat);
    if part != 0 {
        text.append(".");
        while part != 0 && place != 0
            invariant
                is_place(place as nat),
                part < 10 * place || place == 0,
                place == 0 ==> part == 0,
                text@ + decimals(part as nat, place as nat) == whole@ + "."@ + tail,
            decreases place,
        {
            let ghost written = text@;
            let digit: u64 = part / place;
            assert(digit < 10) by (nonlinear_arith)
                requires
                    digit == part / place,
                    0 < place,
                    part < 10 * place,
            ;
            text.append(digit_text(digit));
            assert(written + decimals(part as nat, place as nat) == written + seq![
                digit_char(digit as nat),
            ] + decimals((part % place) as nat, (place / 10) as nat));
            part = part % place;
            place = place / 10;
        }
        assert(text@ == whole@ + ("."@ + tail));
    } else {
        assert(text@ =~= whole@ + Seq::<char>::empty());
    }
    text
}

} // verus!
