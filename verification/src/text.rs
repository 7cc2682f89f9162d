//! Small text helpers: comparison and the rendering of numbers.

use vstd::prelude::*;

verus! {

/// `String::push` appends one character.
pub assume_specification[ String::push ](s: &mut String, c: char)
    ensures
        final(s)@ == old(s)@.push(c),
;

/// The character of a digit below sixteen, letters in lower case.
pub open spec fn digit_char(d: nat) -> char
    recommends
        d < 16,
{
    if d < 10 {
        (48 + d) as char
    } else {
        (87 + d) as char
    }
}

/// `n` written in `base`, without leading zeros.
pub open spec fn digits(n: nat, base: nat) -> Seq<char>
    recommends
        2 <= base <= 16,
    decreases n,
{
    if n < base || base < 2 {
        seq![digit_char(n)]
    } else {
        proof {
            assert(n / base < n) by (nonlinear_arith)
                requires
                    n >= base,
                    base >= 2,
            ;
        }
        digits(n / base, base).push(digit_char(n % base))
    }
}

/// Whether two texts are the same.
pub fn str_eq(a: &str, b: &str) -> (res: bool)
    ensures
        res == (a@ == b@),
{
    let left: String = a.to_owned();
    let right: String = b.to_owned();
    left == right
}

fn digit(d: u8) -> (res: char)
    requires
        d < 16,
    ensures
        res == digit_char(d as nat),
{
    match d {
        0 => '0',
        1 => '1',
        2 => '2',
        3 => '3',
        4 => '4',
        5 => '5',
        6 => '6',
        7 => '7',
        8 => '8',
        9 => '9',
        10 => 'a',
        11 => 'b',
        12 => 'c',
        13 => 'd',
        14 => 'e',
        _ => 'f',
    }
}

fn render(n: u128, base: u128) -> (res: String)
    requires
        2 <= base <= 16,
    ensures
        res@ == digits(n as nat, base as nat),
    decreases n,
{
    if n < base {
        let mut out = String::new();
        out.push(digit(n as u8));
        out
    } else {
        assert(n / base < n) by (nonlinear_arith)
            requires
                n >= base,
                base >= 2,
        ;
        let mut out = render(n / base, base);
        out.push(digit((n % base) as u8));
        out
    }
}

/// `n` in decimal.
pub fn decimal(n: u64) -> (res: String)
    ensures
        res@ == digits(n as nat, 10),
{
    render(n as u128, 10)
}

/// `n` in lower-case hexadecimal.
pub fn lower_hex(n: u128) -> (res: String)
    ensures
        res@ == digits(n as nat, 16),
{
    render(n, 16)
}

/// Whether a character is a digit of a base up to sixteen, letters in lower case.
pub open spec fn is_digit(c: char) -> bool {
    '0' <= c <= '9' || 'a' <= c <= 'f'
}

/// A number is written with at least one digit, and with digits only.
pub proof fn law_numbers_are_digits(n: nat, base: nat)
    requires
        2 <= base <= 16,
    ensures
        digits(n, base).len() > 0,
        forall|i: int| 0 <= i < digits(n, base).len() ==> is_digit(#[trigger] digits(n, base)[i]),
    decreases n,
{
    if n >= base {
        assert(n / base < n) by (nonlinear_arith)
            requires
                n >= base,
                base >= 2,
        ;
        assert(n % base < base) by (nonlinear_arith)
            requires
                base >= 2,
        ;
        law_numbers_are_digits(n / base, base);
    }
}

/// Different numbers are written differently.
pub proof fn law_digits_tell_numbers_apart(one: nat, other: nat, base: nat)
    requires
        2 <= base <= 16,
        digits(one, base) == digits(other, base),
    ensures
        one == other,
    decreases one,
{
    law_numbers_are_digits(one, base);
    law_numbers_are_digits(other, base);
    let last = digits(one, base).last();
    if one < base && other < base {
        assert(last == digit_char(one) && last == digit_char(other));
    } else if one < base {
        law_numbers_are_digits(other / base, base);
        assert(digits(other, base).len() > 1);
    } else if other < base {
        law_numbers_are_digits(one / base, base);
        assert(digits(one, base).len() > 1);
    } else {
        assert(one / base < one && one % base < base && one == (one / base) * base + one % base)
            by (nonlinear_arith)
            requires
                one >= base,
                base >= 2,
        ;
        assert(other % base < base && other == (other / base) * base + other % base)
            by (nonlinear_arith)
            requires
                other >= base,
                base >= 2,
        ;
        assert(digits(one, base).drop_last() =~= digits(one / base, base));
        assert(digits(other, base).drop_last() =~= digits(other / base, base));
        assert(last == digit_char(one % base) && last == digit_char(other % base));
        law_digits_tell_numbers_apart(one / base, other / base, base);
    }
}

} // verus!
