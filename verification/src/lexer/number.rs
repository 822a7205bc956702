//! Number literals
use crate::lexer::grammar;
use crate::lexer::grammar::{lemma_run_end, Class};
use crate::lexer::utils::{fold_digits, has, has_char, skip, Fold};
use crate::scan::{miss, outcome_of, Failure};
use crate::token::Radix;
use crate::value::FloatParts;
use vstd::prelude::*;

verus! {

/// Where the digits of a number without leading zeros end.
fn digits_end(input: &[char], at: usize, radix: u8) -> (r: Option<usize>)
    ensures
        match r {
            Some(end) => grammar::digits_end(input@, at as int, radix) == Some(end as int) && at
                < end <= input@.len(),
            None => grammar::digits_end(input@, at as int, radix) is None,
        },
{
    if has_char(input, at, '0') {
        Some(at + 1)
    } else if has(input, at, Class::Digit(radix)) {
        proof {
            lemma_run_end(input@, at + 1, Class::DigitOrUnderscore(radix));
        }
        Some(skip(input, at + 1, Class::DigitOrUnderscore(radix)))
    } else {
        None
    }
}

/// Where the digits of a number that may begin with zeros end.
fn digits_trailing_zeros_end(input: &[char], at: usize, radix: u8) -> (r: Option<usize>)
    ensures
        match r {
            Some(end) => grammar::digits_trailing_zeros_end(input@, at as int, radix) == Some(
                end as int,
            ) && at < end <= input@.len(),
            None => grammar::digits_trailing_zeros_end(input@, at as int, radix) is None,
        },
{
    if has(input, at, Class::Digit(radix)) {
        proof {
            lemma_run_end(input@, at + 1, Class::DigitOrUnderscore(radix));
        }
        Some(skip(input, at + 1, Class::DigitOrUnderscore(radix)))
    } else {
        None
    }
}

/// The digits among the characters from `from` up to `to`, without the
/// underscores between them.
fn collect_digits(input: &[char], from: usize, to: usize) -> (text: String)
    requires
        from <= to <= input@.len(),
    ensures
        text@ == grammar::without_underscores(input@.subrange(from as int, to as int)),
{
    let mut text = String::new();
    let mut i = from;
    proof {
        reveal(Seq::filter);
    }
    while i < to
        invariant
            from <= i <= to <= input@.len(),
            text@ == grammar::without_underscores(input@.subrange(from as int, i as int)),
        decreases to - i,
    {
        proof {
            assert(input@.subrange(from as int, i + 1).drop_last() =~= input@.subrange(
                from as int,
                i as int,
            ));
            reveal(Seq::filter);
        }
        if input[i] != '_' {
            text.push(input[i]);
        }
        i += 1;
    }
    text
}

/// A parser for the digits of a number without leading zeros: a lone zero,
/// or a digit other than zero and then digits and underscores. It comes to
/// the digits, without the underscores.
pub fn digits(input: &[char], at: usize, radix: u8) -> (r: Result<(String, usize), Failure>)
    ensures
        match r {
            Ok((text, end)) => grammar::digits_end(input@, at as int, radix) == Some(end as int)
                && text@ == grammar::without_underscores(input@.subrange(at as int, end as int)),
            Err(failure) => grammar::digits_end(input@, at as int, radix) is None && failure == (
            Failure { at, hard: false }),
        },
{
    match digits_end(input, at, radix) {
        Some(end) => Ok((collect_digits(input, at, end), end)),
        None => miss(at),
    }
}

/// A parser for the digits of a number that may begin with zeros: a digit
/// and then digits and underscores. It comes to the digits, without the
/// underscores.
pub fn digits_trailing_zeros(input: &[char], at: usize, radix: u8) -> (r: Result<(String, usize), Failure>)
    ensures
        match r {
            Ok((text, end)) => grammar::digits_trailing_zeros_end(input@, at as int, radix) == Some(
                end as int,
            ) && text@ == grammar::without_underscores(input@.subrange(at as int, end as int)),
            Err(failure) => grammar::digits_trailing_zeros_end(input@, at as int, radix) is None
                && failure == (Failure { at, hard: false }),
        },
{
    match digits_trailing_zeros_end(input, at, radix) {
        Some(end) => Ok((collect_digits(input, at, end), end)),
        None => miss(at),
    }
}

/// The digits of an integer behind its prefix.
fn prefixed_integer(input: &[char], from: usize, radix: u8, kind: Radix) -> (r: Result<((u64, Radix), usize), Failure>)
    requires
        radix <= 36,
    ensures
        outcome_of(r) == grammar::prefixed_integer(input@, from as int, radix, kind),
{
    match digits_trailing_zeros_end(input, from, radix) {
        Some(end) => {
            let value = fold_digits(
                input,
                from,
                end,
                radix,
                Fold { acc: 0, count: 0, overflowed: false },
                false,
                0,
                0xffff_ffff_ffff_ffff,
            );
            if value.overflowed {
                Err(Failure { at: from, hard: true })
            } else {
                Ok(((value.acc as u64, kind), end))
            }
        },
        None => miss(from),
    }
}

/// A parser for integers
pub fn integer(input: &[char], at: usize) -> (r: Result<((u64, Radix), usize), Failure>)
    ensures
        outcome_of(r) == grammar::integer(input@, at as int),
{
    if has_char(input, at, '0') && has_char(input, at + 1, 'x') {
        prefixed_integer(input, at + 2, 16, Radix::Hexadecimal)
    } else if has_char(input, at, '0') && has_char(input, at + 1, 'o') {
        prefixed_integer(input, at + 2, 8, Radix::Octal)
    } else if has_char(input, at, '0') && has_char(input, at + 1, 'b') {
        prefixed_integer(input, at + 2, 2, Radix::Binary)
    } else {
        match digits_end(input, at, 10) {
            Some(end) => {
                let value = fold_digits(
                    input,
                    at,
                    end,
                    10,
                    Fold { acc: 0, count: 0, overflowed: false },
                    false,
                    0,
                    0xffff_ffff_ffff_ffff,
                );
                if value.overflowed {
                    Err(Failure { at, hard: true })
                } else {
                    Ok(((value.acc as u64, Radix::Decimal), end))
                }
            },
            None => miss(at),
        }
    }
}

/// The digits of a float up to its exponent.
fn mantissa(input: &[char], at: usize) -> (r: Result<(Fold, usize), Failure>)
    ensures
        outcome_of(r) == grammar::mantissa(input@, at as int),
        r matches Ok((digits, p)) ==> 0 <= digits.acc <= u64::MAX && p <= input@.len()
            && digits.count <= input@.len(),
{
    match digits_end(input, at, 10) {
        None => miss(at),
        Some(dot) => {
            let whole = fold_digits(
                input,
                at,
                dot,
                10,
                Fold { acc: 0, count: 0, overflowed: false },
                false,
                0,
                0xffff_ffff_ffff_ffff,
            );
            if whole.overflowed {
                Ok((Fold { acc: whole.acc, count: 0, overflowed: true }, dot))
            } else if has_char(input, dot, '.') {
                match digits_trailing_zeros_end(input, dot + 1, 10) {
                    Some(end) => Ok(
                        (
                            fold_digits(
                                input,
                                dot + 1,
                                end,
                                10,
                                Fold { acc: whole.acc, count: 0, overflowed: false },
                                false,
                                0,
                                0xffff_ffff_ffff_ffff,
                            ),
                            end,
                        ),
                    ),
                    None => Err(Failure { at: dot + 1, hard: false }),
                }
            } else {
                Ok((Fold { acc: whole.acc, count: 0, overflowed: false }, dot))
            }
        },
    }
}

/// The number between the least and the greatest 32-bit integer that is
/// nearest to `value`.
fn clamp_i32(value: i128) -> (r: i32)
    ensures
        r == grammar::clamp_i32(value as int),
{
    if value < -0x8000_0000 {
        -0x8000_0000
    } else if value > 0x7fff_ffff {
        0x7fff_ffff
    } else {
        value as i32
    }
}

/// A parser for floats
pub fn float(input: &[char], at: usize) -> (r: Result<(FloatParts, usize), Failure>)
    ensures
        outcome_of(r) == grammar::float(input@, at as int),
{
    match mantissa(input, at) {
        Err(failure) => Err(failure),
        Ok((digits, p)) => {
            let number: u64 = if digits.overflowed {
                0xffff_ffff_ffff_ffff
            } else {
                digits.acc as u64
            };
            if has_char(input, p, 'e') || has_char(input, p, 'E') {
                let neg = has_char(input, p + 1, '-');
                let from = if neg || has_char(input, p + 1, '+') {
                    p + 2
                } else {
                    p + 1
                };
                match digits_trailing_zeros_end(input, from, 10) {
                    None => Err(Failure { at: from, hard: false }),
                    Some(end) => {
                        let written = fold_digits(
                            input,
                            from,
                            end,
                            10,
                            Fold { acc: 0, count: 0, overflowed: false },
                            neg,
                            -0x8000_0000,
                            0x7fff_ffff,
                        );
                        let exponent: i32 = if written.overflowed {
                            if written.acc < 0 {
                                -0x8000_0000
                            } else {
                                0x7fff_ffff
                            }
                        } else {
                            clamp_i32(written.acc - digits.count as i128)
                        };
                        Ok((FloatParts { mantissa: number, exponent }, end))
                    },
                }
            } else if digits.count == 0 {
                miss(at)
            } else {
                Ok(
                    (
                        FloatParts { mantissa: number, exponent: clamp_i32(-(digits.count as i128)) },
                        p,
                    ),
                )
            }
        },
    }
}

} // verus!
