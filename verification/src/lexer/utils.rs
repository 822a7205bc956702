//! Classes of characters, runs of them, digits, and the characters of texts
//! with their escapes
use crate::lexer::grammar;
use crate::lexer::grammar::{
    lemma_escaped_advances, lemma_run_end, run_end, stands, Class, Folded,
};
use crate::scan::{outcome_of, Failure};
use vstd::prelude::*;
use vstd::utf8::is_scalar;

verus! {

/// The value of the character as a digit of `radix`, if it is one.
pub fn to_digit(c: char, radix: u8) -> (r: Option<u8>)
    ensures
        r == grammar::digit_value(c, radix),
{
    let value: u32 = if '0' <= c && c <= '9' {
        c as u32 - '0' as u32
    } else if 'a' <= c && c <= 'z' {
        c as u32 - 'a' as u32 + 10
    } else if 'A' <= c && c <= 'Z' {
        c as u32 - 'A' as u32 + 10
    } else {
        36
    };
    if value < radix as u32 {
        Some(value as u8)
    } else {
        None
    }
}

impl Class {
    /// Whether the character belongs to the class.
    pub fn contains(self, c: char) -> (r: bool)
        ensures
            r == self.holds(c),
    {
        match self {
            Class::Blank => c == ' ' || c == '\t',
            Class::Break => c == '\n' || c == '\r',
            Class::BlankOrBreak => c == ' ' || c == '\t' || c == '\n' || c == '\r',
            Class::NotBreak => c != '\n' && c != '\r',
            Class::Letter => ('a' <= c && c <= 'z') || ('A' <= c && c <= 'Z'),
            Class::Word => ('a' <= c && c <= 'z') || ('A' <= c && c <= 'Z') || ('0' <= c && c
                <= '9') || c == '_',
            Class::Quote => c == '"',
            Class::Digit(radix) => to_digit(c, radix).is_some(),
            Class::DigitOrUnderscore(radix) => c == '_' || to_digit(c, radix).is_some(),
        }
    }
}

/// Whether a character of the class stands at `at`.
pub fn has(input: &[char], at: usize, class: Class) -> (r: bool)
    ensures
        r == stands(input@, at as int, class),
        r ==> at < usize::MAX,
        input@.len() <= usize::MAX,
{
    at < input.len() && class.contains(input[at])
}

/// Whether the character `c` stands at `at`.
pub fn has_char(input: &[char], at: usize, c: char) -> (r: bool)
    ensures
        r == grammar::is_at(input@, at as int, c),
        r ==> at < usize::MAX,
        input@.len() <= usize::MAX,
{
    at < input.len() && input[at] == c
}

/// The end of the longest run of characters of the class that starts at `at`.
pub fn skip(input: &[char], at: usize, class: Class) -> (end: usize)
    ensures
        end == run_end(input@, at as int, class),
        at <= input@.len() ==> at <= end <= input@.len(),
{
    let mut i = at;
    while has(input, i, class)
        invariant
            at <= i,
            at <= input@.len() ==> i <= input@.len(),
            run_end(input@, at as int, class) == run_end(input@, i as int, class),
        decreases input@.len() - i,
    {
        i += 1;
    }
    i
}

/// The characters of the input from `from` up to `to`.
pub(crate) fn collect(input: &[char], from: usize, to: usize) -> (text: String)
    requires
        from <= to <= input@.len(),
    ensures
        text@ == input@.subrange(from as int, to as int),
{
    let mut text = String::new();
    let mut i = from;
    while i < to
        invariant
            from <= i <= to <= input@.len(),
            text@ == input@.subrange(from as int, i as int),
        decreases to - i,
    {
        text.push(input[i]);
        i += 1;
    }
    text
}

/// `char::from_u32`: the character of a scalar value; none for a surrogate
/// and for a value above `0x10FFFF`.
#[verifier::external_body]
fn char_from_u32(value: u32) -> (c: Option<char>)
    ensures
        c == (if is_scalar(value) {
            Some(value as char)
        } else {
            None
        }),
{
    char::from_u32(value)
}

/// What folding a run of digits into a number has come to.
#[derive(Clone, Copy, Debug, PartialEq, Eq)]
pub struct Fold {
    /// The number so far
    pub acc: i128,
    /// How many digits went into it
    pub count: usize,
    /// Whether a digit did not fit any more
    pub overflowed: bool,
}

impl View for Fold {
    type V = Folded;

    open spec fn view(&self) -> Folded {
        Folded { acc: self.acc as int, count: self.count as int, overflowed: self.overflowed }
    }
}

/// Folds the digits of the input from `from` up to `to` into a number.
pub(crate) fn fold_digits(
    input: &[char],
    from: usize,
    to: usize,
    radix: u8,
    init: Fold,
    neg: bool,
    min: i128,
    max: i128,
) -> (r: Fold)
    requires
        from <= to <= input@.len(),
        radix <= 36,
        -0x1_0000_0000_0000_0000 <= min <= max <= 0x1_0000_0000_0000_0000,
        min <= init.acc <= max,
        init.count + (to - from) <= usize::MAX,
    ensures
        r@ == grammar::fold_digits(
            input@.subrange(from as int, to as int),
            radix,
            init@,
            neg,
            min as int,
            max as int,
        ),
        min <= r.acc <= max,
        r.count <= init.count + (to - from),
{
    let mut state = init;
    let mut i = from;
    while i < to
        invariant
            from <= i <= to <= input@.len(),
            radix <= 36,
            -0x1_0000_0000_0000_0000 <= min <= max <= 0x1_0000_0000_0000_0000,
            min <= state.acc <= max,
            state.count <= init.count + (i - from),
            init.count + (to - from) <= usize::MAX,
            state@ == grammar::fold_digits(
                input@.subrange(from as int, i as int),
                radix,
                init@,
                neg,
                min as int,
                max as int,
            ),
        decreases to - i,
    {
        proof {
            assert(input@.subrange(from as int, i + 1).drop_last() =~= input@.subrange(
                from as int,
                i as int,
            ));
        }
        match to_digit(input[i], radix) {
            Some(d) => {
                if !state.overflowed {
                    let step: i128 = if neg {
                        -(d as i128)
                    } else {
                        d as i128
                    };
                    assert(-0x24_0000_0000_0000_0000 <= state.acc * (radix as i128)
                        <= 0x24_0000_0000_0000_0000) by (nonlinear_arith)
                        requires
                            -0x1_0000_0000_0000_0000 <= state.acc <= 0x1_0000_0000_0000_0000,
                            0 <= radix <= 36,
                    ;
                    let next: i128 = state.acc * (radix as i128) + step;
                    if min <= next && next <= max {
                        state = Fold { acc: next, count: state.count + 1, overflowed: false };
                    } else {
                        state = Fold { acc: state.acc, count: state.count, overflowed: true };
                    }
                }
            },
            None => {},
        }
        i += 1;
    }
    state
}

/// The position behind the line break at `at`.
pub(crate) fn break_end(input: &[char], at: usize) -> (end: usize)
    requires
        grammar::stands(input@, at as int, Class::Break),
    ensures
        end == grammar::break_end(input@, at as int),
        at < end <= input@.len(),
{
    if has_char(input, at, '\r') && has_char(input, at + 1, '\n') {
        at + 2
    } else {
        at + 1
    }
}

/// What stands behind a backslash at `at`.
fn escape(input: &[char], at: usize, end: char, continuous: bool) -> (r: Result<(Option<char>, usize), Failure>)
    requires
        at <= input@.len(),
    ensures
        outcome_of(r) == grammar::escape(input@, at as int, end, continuous),
{
    if at >= input.len() {
        return Err(Failure { at, hard: false });
    }
    let c = input[at];
    if c == 'n' {
        Ok((Some('\n'), at + 1))
    } else if c == 'r' {
        Ok((Some('\r'), at + 1))
    } else if c == 't' {
        Ok((Some('\t'), at + 1))
    } else if c == '\\' {
        Ok((Some('\\'), at + 1))
    } else if c == end {
        Ok((Some(end), at + 1))
    } else if c == 'x' {
        let high = if at + 1 < input.len() {
            to_digit(input[at + 1], 16)
        } else {
            None
        };
        match high {
            None => Err(Failure { at: at + 1, hard: false }),
            Some(high) => {
                let low = if at + 2 < input.len() {
                    to_digit(input[at + 2], 16)
                } else {
                    None
                };
                match low {
                    None => Err(Failure { at: at + 2, hard: false }),
                    Some(low) => {
                        let value: u8 = 16 * high + low;
                        if value <= 0x7f {
                            Ok((Some(value as char), at + 3))
                        } else {
                            Err(Failure { at, hard: true })
                        }
                    },
                }
            },
        }
    } else if c == 'u' && has_char(input, at + 1, '{') {
        proof {
            lemma_run_end(input@, at + 2, Class::Digit(16));
        }
        let stop = skip(input, at + 2, Class::Digit(16));
        if stop == at + 2 {
            return Err(Failure { at: at + 2, hard: false });
        }
        let value = fold_digits(
            input,
            at + 2,
            stop,
            16,
            Fold { acc: 0, count: 0, overflowed: false },
            false,
            0,
            0xffff_ffff,
        );
        if value.overflowed {
            return Err(Failure { at: at + 2, hard: true });
        }
        match char_from_u32(value.acc as u32) {
            Some(c) => if has_char(input, stop, '}') {
                Ok((Some(c), stop + 1))
            } else {
                Err(Failure { at: stop, hard: false })
            },
            None => Err(Failure { at: at + 2, hard: true }),
        }
    } else if continuous && Class::Break.contains(c) {
        Ok((None, break_end(input, at)))
    } else {
        Err(Failure { at, hard: false })
    }
}

/// One character of a text that `end` closes, or, where `continuous` allows
/// it, a backslash with a line break behind it, which stands for no character.
pub fn escaped(input: &[char], at: usize, end: char, continuous: bool) -> (r: Result<(Option<char>, usize), Failure>)
    ensures
        outcome_of(r) == grammar::escaped(input@, at as int, end, continuous),
{
    if at >= input.len() {
        return Err(Failure { at, hard: false });
    }
    let c = input[at];
    if Class::Break.contains(c) {
        Ok((Some('\n'), break_end(input, at)))
    } else if c != end && c != '\\' {
        Ok((Some(c), at + 1))
    } else if c != '\\' {
        Err(Failure { at, hard: false })
    } else {
        escape(input, at + 1, end, continuous)
    }
}

/// A parser for one character of a text that `end` closes
pub fn escaped_char(input: &[char], at: usize, end: char) -> (r: Result<(char, usize), Failure>)
    ensures
        outcome_of(r) == grammar::escaped_char(input@, at as int, end),
{
    match escaped(input, at, end, false) {
        Ok((Some(c), next)) => Ok((c, next)),
        Ok((None, _)) => Err(Failure { at, hard: false }),
        Err(failure) => Err(failure),
    }
}

/// A parser for one character of a text that `end` closes, or a backslash
/// before a line break
pub fn escaped_char_continuous(input: &[char], at: usize, end: char) -> (r: Result<(Option<char>, usize), Failure>)
    ensures
        outcome_of(r) == grammar::escaped_char_continuous(input@, at as int, end),
{
    escaped(input, at, end, true)
}

/// The characters of a text from `at` up to where no further one can be read.
pub(crate) fn text_run(input: &[char], at: usize, end: char, continuous: bool) -> (r: Result<(String, usize), Failure>)
    ensures
        outcome_of(r) == grammar::text_run(input@, at as int, end, continuous, Seq::empty()),
        at <= input@.len() ==> (r matches Ok((_, next)) ==> at <= next <= input@.len()),
        at <= input@.len() ==> (r matches Err(failure) ==> at <= failure.at <= input@.len()),
{
    let mut text = String::new();
    if at > input.len() {
        return Ok((text, at));
    }
    let mut pos = at;
    loop
        invariant
            at <= pos <= input@.len(),
            grammar::text_run(input@, at as int, end, continuous, Seq::empty())
                == grammar::text_run(input@, pos as int, end, continuous, text@),
        decreases input@.len() - pos,
    {
        proof {
            lemma_escaped_advances(input@, pos as int, end, continuous);
        }
        match escaped(input, pos, end, continuous) {
            Ok((c, next)) => {
                match c {
                    Some(c) => {
                        text.push(c);
                    },
                    None => {},
                }
                pos = next;
            },
            Err(failure) => {
                if !failure.hard && failure.at == pos {
                    return Ok((text, pos));
                } else {
                    return Err(failure);
                }
            },
        }
    }
}

} // verus!
