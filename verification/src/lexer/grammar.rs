//! The grammar of tokens, stated on sequences of characters. Each reading
//! starts at a position of the input and comes to an [`Outcome`].
use crate::scan::Outcome;
use crate::token::{IdentifierKind, IdentifierView, LiteralView, Radix, StringKind, Symbol, TokenView};
use crate::value::FloatParts;
use core::ops::Range;
use vstd::utf8::is_scalar;
use vstd::prelude::*;

verus! {

/// Classes of characters.
#[derive(Clone, Copy, Debug, PartialEq, Eq, Structural)]
pub enum Class {
    /// A space or a tab
    Blank,
    /// A line feed or a carriage return
    Break,
    /// A space, a tab, a line feed or a carriage return
    BlankOrBreak,
    /// Anything but a line feed or a carriage return
    NotBreak,
    /// An ASCII letter
    Letter,
    /// An ASCII letter, an ASCII digit or an underscore
    Word,
    /// A double quote
    Quote,
    /// A digit of the radix
    Digit(u8),
    /// A digit of the radix, or an underscore
    DigitOrUnderscore(u8),
}

/// The value of a character as a digit of `radix`, if it is one.
pub open spec fn digit_value(c: char, radix: u8) -> Option<u8> {
    let value: int = if '0' <= c && c <= '9' {
        c as int - '0' as int
    } else if 'a' <= c && c <= 'z' {
        c as int - 'a' as int + 10
    } else if 'A' <= c && c <= 'Z' {
        c as int - 'A' as int + 10
    } else {
        36
    };
    if value < radix {
        Some(value as u8)
    } else {
        None
    }
}

impl Class {
    /// Whether the character belongs to the class.
    pub open spec fn holds(self, c: char) -> bool {
        match self {
            Class::Blank => c == ' ' || c == '\t',
            Class::Break => c == '\n' || c == '\r',
            Class::BlankOrBreak => c == ' ' || c == '\t' || c == '\n' || c == '\r',
            Class::NotBreak => c != '\n' && c != '\r',
            Class::Letter => ('a' <= c && c <= 'z') || ('A' <= c && c <= 'Z'),
            Class::Word => ('a' <= c && c <= 'z') || ('A' <= c && c <= 'Z') || ('0' <= c && c
                <= '9') || c == '_',
            Class::Quote => c == '"',
            Class::Digit(radix) => digit_value(c, radix) is Some,
            Class::DigitOrUnderscore(radix) => c == '_' || digit_value(c, radix) is Some,
        }
    }
}

/// Whether a character of the class stands at `at`.
pub open spec fn stands(input: Seq<char>, at: int, class: Class) -> bool {
    0 <= at < input.len() && class.holds(input[at])
}

/// Whether the character `c` stands at `at`.
pub open spec fn is_at(input: Seq<char>, at: int, c: char) -> bool {
    0 <= at < input.len() && input[at] == c
}

/// The end of the longest run of characters of the class that starts at `at`.
pub open spec fn run_end(input: Seq<char>, at: int, class: Class) -> int
    decreases input.len() - at,
{
    if stands(input, at, class) {
        run_end(input, at + 1, class)
    } else {
        at
    }
}

/// A run ends at or behind its start, inside the input, and every character
/// of it belongs to the class.
pub proof fn lemma_run_end(input: Seq<char>, at: int, class: Class)
    requires
        0 <= at,
    ensures
        at <= run_end(input, at, class),
        at <= input.len() ==> run_end(input, at, class) <= input.len(),
        at >= input.len() ==> run_end(input, at, class) == at,
        !stands(input, run_end(input, at, class), class),
        forall|i: int| at <= i < run_end(input, at, class) ==> class.holds(#[trigger] input[i]),
    decreases input.len() - at,
{
    if stands(input, at, class) {
        lemma_run_end(input, at + 1, class);
    }
}

/// A line break: a line feed or a carriage return, and then any run of
/// blanks and further line breaks.
pub open spec fn newline(input: Seq<char>, at: int) -> Outcome<()> {
    if stands(input, at, Class::Break) {
        Outcome::Done((), run_end(input, at + 1, Class::BlankOrBreak))
    } else {
        Outcome::Failed(at, false)
    }
}

/// A run of blanks, which may be empty.
pub open spec fn whitespaces(input: Seq<char>, at: int) -> Outcome<()> {
    Outcome::Done((), run_end(input, at, Class::Blank))
}

/// A comment: a number sign and what follows it up to the end of the line.
/// The text of the comment is what follows the sign.
pub open spec fn comment(input: Seq<char>, at: int) -> Outcome<Seq<char>> {
    if is_at(input, at, '#') {
        let end = run_end(input, at + 1, Class::NotBreak);
        Outcome::Done(input.subrange(at + 1, end), end)
    } else {
        Outcome::Failed(at, false)
    }
}

/// The comments of a line continuation, in order, each with its place: from
/// `from` on, line breaks and comments follow one another until neither
/// stands there.
pub open spec fn continued(
    input: Seq<char>,
    from: int,
    found: Seq<(Seq<char>, core::ops::Range<usize>)>,
) -> (Seq<(Seq<char>, core::ops::Range<usize>)>, int)
    decreases input.len() - from,
{
    if stands(input, from, Class::Break) {
        let next = run_end(input, from + 1, Class::BlankOrBreak);
        if from < next <= input.len() {
            continued(input, next, found)
        } else {
            (found, from)
        }
    } else if is_at(input, from, '#') {
        let end = run_end(input, from + 1, Class::NotBreak);
        if from < end <= input.len() {
            continued(
                input,
                end,
                found.push((input.subrange(from + 1, end), (from as usize)..(end as usize))),
            )
        } else {
            (found, from)
        }
    } else {
        (found, from)
    }
}

/// A line continuation: a backslash, blanks if any, and then at least one
/// line break or comment. It comes to the comments it holds.
pub open spec fn continuous(input: Seq<char>, at: int) -> Outcome<
    Seq<(Seq<char>, core::ops::Range<usize>)>,
> {
    if is_at(input, at, '\\') {
        let from = run_end(input, at + 1, Class::Blank);
        if stands(input, from, Class::Break) || is_at(input, from, '#') {
            let all = continued(input, from, Seq::empty());
            Outcome::Done(all.0, all.1)
        } else {
            Outcome::Failed(from, false)
        }
    } else {
        Outcome::Failed(at, false)
    }
}

/// The symbol that a character stands for, if it is one.
pub open spec fn symbol_of(c: char) -> Option<Symbol> {
    if c == '=' {
        Some(Symbol::Assign)
    } else if c == ',' {
        Some(Symbol::Comma)
    } else if c == '.' {
        Some(Symbol::Dot)
    } else if c == '\\' {
        Some(Symbol::BackSlash)
    } else if c == '_' {
        Some(Symbol::Underscore)
    } else if c == '@' {
        Some(Symbol::At)
    } else if c == '[' {
        Some(Symbol::OpenBracket)
    } else if c == ']' {
        Some(Symbol::CloseBracket)
    } else if c == '{' {
        Some(Symbol::OpenBrace)
    } else if c == '}' {
        Some(Symbol::CloseBrace)
    } else {
        None
    }
}

/// A symbol: one character.
pub open spec fn symbol(input: Seq<char>, at: int) -> Outcome<Symbol> {
    if 0 <= at < input.len() && symbol_of(input[at]) is Some {
        Outcome::Done(symbol_of(input[at])->0, at + 1)
    } else {
        Outcome::Failed(at, false)
    }
}

/// A bare key: an ASCII letter and then any run of ASCII letters, ASCII
/// digits and underscores.
pub open spec fn bare_key(input: Seq<char>, at: int) -> Outcome<Seq<char>> {
    if stands(input, at, Class::Letter) {
        let end = run_end(input, at + 1, Class::Word);
        Outcome::Done(input.subrange(at, end), end)
    } else {
        Outcome::Failed(at, false)
    }
}

/// The position behind the line break at `at`: a carriage return with a
/// line feed behind it is one line break.
pub open spec fn break_end(input: Seq<char>, at: int) -> int {
    if is_at(input, at, '\r') && is_at(input, at + 1, '\n') {
        at + 2
    } else {
        at + 1
    }
}

/// The value of the character at `at` as a hexadecimal digit, if it is one.
pub open spec fn hex_at(input: Seq<char>, at: int) -> Option<u8> {
    if 0 <= at < input.len() {
        digit_value(input[at], 16)
    } else {
        None
    }
}

/// What folding a run of digits into a number has come to.
pub struct Folded {
    /// The number so far
    pub acc: int,
    /// How many digits went into it
    pub count: int,
    /// Whether a digit did not fit any more; from then on nothing changes
    pub overflowed: bool,
}

impl Folded {
    /// The start of a fold from `acc`.
    pub open spec fn from(acc: int) -> Folded {
        Folded { acc, count: 0, overflowed: false }
    }
}

/// Folds the digits into a number of the radix, from the left, starting from
/// `init`: each digit takes the number times the radix plus the digit, or
/// minus the digit where `neg` holds, as long as that stays between `min` and
/// `max`. Characters that are no digits of the radix are passed over.
pub open spec fn fold_digits(
    digits: Seq<char>,
    radix: u8,
    init: Folded,
    neg: bool,
    min: int,
    max: int,
) -> Folded
    decreases digits.len(),
{
    if digits.len() == 0 {
        init
    } else {
        let front = fold_digits(digits.drop_last(), radix, init, neg, min, max);
        match digit_value(digits.last(), radix) {
            Some(d) => {
                let next = front.acc * radix + (if neg {
                    -(d as int)
                } else {
                    d as int
                });
                if front.overflowed {
                    front
                } else if min <= next <= max {
                    Folded { acc: next, count: front.count + 1, overflowed: false }
                } else {
                    Folded { overflowed: true, ..front }
                }
            },
            None => front,
        }
    }
}

/// What stands behind a backslash at `at`: the character that the escape
/// stands for, or, where `continuous` allows it, a line break that the
/// backslash takes out of the text.
pub open spec fn escape(input: Seq<char>, at: int, end: char, continuous: bool) -> Outcome<
    Option<char>,
> {
    if !(0 <= at < input.len()) {
        Outcome::Failed(at, false)
    } else if input[at] == 'n' {
        Outcome::Done(Some('\n'), at + 1)
    } else if input[at] == 'r' {
        Outcome::Done(Some('\r'), at + 1)
    } else if input[at] == 't' {
        Outcome::Done(Some('\t'), at + 1)
    } else if input[at] == '\\' {
        Outcome::Done(Some('\\'), at + 1)
    } else if input[at] == end {
        Outcome::Done(Some(end), at + 1)
    } else if input[at] == 'x' {
        match (hex_at(input, at + 1), hex_at(input, at + 2)) {
            (None, _) => Outcome::Failed(at + 1, false),
            (Some(_), None) => Outcome::Failed(at + 2, false),
            (Some(high), Some(low)) => if 16 * high + low <= 0x7f {
                Outcome::Done(Some((16 * high + low) as u8 as char), at + 3)
            } else {
                Outcome::Failed(at, true)
            },
        }
    } else if input[at] == 'u' && is_at(input, at + 1, '{') {
        let stop = run_end(input, at + 2, Class::Digit(16));
        let value = fold_digits(
            input.subrange(at + 2, stop),
            16,
            Folded::from(0),
            false,
            0,
            u32::MAX as int,
        );
        if stop == at + 2 {
            Outcome::Failed(at + 2, false)
        } else if value.overflowed || !is_scalar(value.acc as u32) {
            Outcome::Failed(at + 2, true)
        } else if is_at(input, stop, '}') {
            Outcome::Done(Some(value.acc as u32 as char), stop + 1)
        } else {
            Outcome::Failed(stop, false)
        }
    } else if continuous && Class::Break.holds(input[at]) {
        Outcome::Done(None, break_end(input, at))
    } else {
        Outcome::Failed(at, false)
    }
}

/// One character of a text that `end` closes: a line break, which counts as
/// a line feed; any character but `end` and the backslash, which counts as
/// itself; or a backslash with an escape behind it.
pub open spec fn escaped(input: Seq<char>, at: int, end: char, continuous: bool) -> Outcome<
    Option<char>,
> {
    if !(0 <= at < input.len()) {
        Outcome::Failed(at, false)
    } else if Class::Break.holds(input[at]) {
        Outcome::Done(Some('\n'), break_end(input, at))
    } else if input[at] != end && input[at] != '\\' {
        Outcome::Done(Some(input[at]), at + 1)
    } else if input[at] != '\\' {
        Outcome::Failed(at, false)
    } else {
        escape(input, at + 1, end, continuous)
    }
}

/// One character of a text that `end` closes.
pub open spec fn escaped_char(input: Seq<char>, at: int, end: char) -> Outcome<char> {
    match escaped(input, at, end, false) {
        Outcome::Done(Some(c), next) => Outcome::Done(c, next),
        Outcome::Done(None, next) => Outcome::Failed(at, false),
        Outcome::Failed(p, hard) => Outcome::Failed(p, hard),
    }
}

/// One character of a text that `end` closes, or a backslash with a line
/// break behind it, which stands for no character.
pub open spec fn escaped_char_continuous(input: Seq<char>, at: int, end: char) -> Outcome<
    Option<char>,
> {
    escaped(input, at, end, true)
}

/// What is read of a text always ends behind where it began, inside the input.
pub proof fn lemma_escaped_advances(input: Seq<char>, at: int, end: char, continuous: bool)
    requires
        0 <= at <= input.len(),
    ensures
        match escaped(input, at, end, continuous) {
            Outcome::Done(c, next) => at < next <= input.len() && (!continuous ==> c is Some),
            Outcome::Failed(p, hard) => at <= p <= input.len(),
        },
{
    if 0 <= at + 1 < input.len() && input[at] == '\\' && input[at + 1] == 'u' && is_at(
        input,
        at + 2,
        '{',
    ) {
        lemma_run_end(input, at + 3, Class::Digit(16));
    }
}

/// The characters of a text from `at` up to where no further one can be
/// read, after those of `text`.
pub open spec fn text_run(input: Seq<char>, at: int, end: char, continuous: bool, text: Seq<char>) -> Outcome<
    Seq<char>,
>
    decreases input.len() - at,
{
    match escaped(input, at, end, continuous) {
        Outcome::Done(c, next) => if at < next <= input.len() {
            text_run(
                input,
                next,
                end,
                continuous,
                match c {
                    Some(c) => text.push(c),
                    None => text,
                },
            )
        } else {
            Outcome::Done(text, at)
        },
        Outcome::Failed(p, hard) => if !hard && p == at {
            Outcome::Done(text, at)
        } else {
            Outcome::Failed(p, hard)
        },
    }
}

/// A raw key: `${`, a text that a closing brace ends, and the closing brace.
pub open spec fn raw_key(input: Seq<char>, at: int) -> Outcome<Seq<char>> {
    if is_at(input, at, '$') && is_at(input, at + 1, '{') {
        match text_run(input, at + 2, '}', false, Seq::empty()) {
            Outcome::Done(name, p) => if is_at(input, p, '}') {
                Outcome::Done(name, p + 1)
            } else {
                Outcome::Failed(p, false)
            },
            Outcome::Failed(p, hard) => Outcome::Failed(p, hard),
        }
    } else {
        Outcome::Failed(at, false)
    }
}

/// An identifier: a bare key or a raw key.
pub open spec fn identifier(input: Seq<char>, at: int) -> Outcome<IdentifierView> {
    match bare_key(input, at) {
        Outcome::Done(name, next) => Outcome::Done(
            IdentifierView { kind: IdentifierKind::Bare, name },
            next,
        ),
        Outcome::Failed(_, _) => match raw_key(input, at) {
            Outcome::Done(name, next) => Outcome::Done(
                IdentifierView { kind: IdentifierKind::Raw, name },
                next,
            ),
            Outcome::Failed(p, hard) => Outcome::Failed(p, hard),
        },
    }
}

/// A character literal: one character of a text between single quotes.
pub open spec fn character(input: Seq<char>, at: int) -> Outcome<char> {
    if is_at(input, at, '\'') {
        match escaped_char(input, at + 1, '\'') {
            Outcome::Done(c, p) => if is_at(input, p, '\'') {
                Outcome::Done(c, p + 1)
            } else {
                Outcome::Failed(p, false)
            },
            Outcome::Failed(p, hard) => Outcome::Failed(p, hard),
        }
    } else {
        Outcome::Failed(at, false)
    }
}

/// A normal string: a text between double quotes, in which a backslash
/// before a line break takes the line break out.
pub open spec fn normal_string(input: Seq<char>, at: int) -> Outcome<Seq<char>> {
    if is_at(input, at, '"') {
        match text_run(input, at + 1, '"', true, Seq::empty()) {
            Outcome::Done(text, p) => if is_at(input, p, '"') {
                Outcome::Done(text, p + 1)
            } else {
                Outcome::Failed(p, false)
            },
            Outcome::Failed(p, hard) => Outcome::Failed(p, hard),
        }
    } else {
        Outcome::Failed(at, false)
    }
}

/// Whether at least `n` double quotes stand at `at`, one after the other.
pub open spec fn quotes_at(input: Seq<char>, at: int, n: int) -> bool {
    run_end(input, at, Class::Quote) - at >= n
}

/// The characters of a raw string from `at` up to the first place where `n`
/// double quotes stand, after those of `text`. A line break counts as a line
/// feed, every other character as itself.
pub open spec fn raw_run(input: Seq<char>, at: int, n: int, text: Seq<char>) -> Outcome<Seq<char>>
    decreases input.len() - at,
{
    if quotes_at(input, at, n) {
        Outcome::Done(text, at + n)
    } else if !(0 <= at < input.len()) {
        Outcome::Failed(at, false)
    } else if Class::Break.holds(input[at]) {
        raw_run(input, break_end(input, at), n, text.push('\n'))
    } else {
        raw_run(input, at + 1, n, text.push(input[at]))
    }
}

/// A raw string: three or more double quotes, and then everything up to the
/// first place where as many double quotes stand again. It comes to the text
/// and the number of quotes, of which only the last eight bits are kept.
pub open spec fn raw_string(input: Seq<char>, at: int) -> Outcome<(Seq<char>, u8)> {
    let n = run_end(input, at, Class::Quote) - at;
    if n >= 3 {
        match raw_run(input, at + n, n, Seq::empty()) {
            Outcome::Done(text, p) => Outcome::Done((text, (n % 256) as u8), p),
            Outcome::Failed(p, hard) => Outcome::Failed(p, hard),
        }
    } else {
        Outcome::Failed(at, false)
    }
}

/// A string: a raw string, or else a normal string.
pub open spec fn string(input: Seq<char>, at: int) -> Outcome<(Seq<char>, StringKind)> {
    match raw_string(input, at) {
        Outcome::Done((text, n), p) => Outcome::Done((text, StringKind::Raw(n)), p),
        Outcome::Failed(p, hard) => if !hard && p == at {
            match normal_string(input, at) {
                Outcome::Done(text, p) => Outcome::Done((text, StringKind::Normal), p),
                Outcome::Failed(p, hard) => Outcome::Failed(p, hard),
            }
        } else {
            Outcome::Failed(p, hard)
        },
    }
}

/// The characters but the underscores.
pub open spec fn without_underscores(text: Seq<char>) -> Seq<char> {
    text.filter(|c: char| c != '_')
}

/// Where the digits of a number without leading zeros end: behind a lone
/// zero, or behind a digit and the run of digits and underscores after it.
pub open spec fn digits_end(input: Seq<char>, at: int, radix: u8) -> Option<int> {
    if is_at(input, at, '0') {
        Some(at + 1)
    } else if stands(input, at, Class::Digit(radix)) {
        Some(run_end(input, at + 1, Class::DigitOrUnderscore(radix)))
    } else {
        None
    }
}

/// Where the digits of a number that may begin with zeros end: behind a
/// digit and the run of digits and underscores after it.
pub open spec fn digits_trailing_zeros_end(input: Seq<char>, at: int, radix: u8) -> Option<int> {
    if stands(input, at, Class::Digit(radix)) {
        Some(run_end(input, at + 1, Class::DigitOrUnderscore(radix)))
    } else {
        None
    }
}

/// The digits of an integer behind its prefix. A number that does not fit
/// in 64 bits is a hard failure.
pub open spec fn prefixed_integer(input: Seq<char>, from: int, radix: u8, kind: Radix) -> Outcome<
    (u64, Radix),
> {
    match digits_trailing_zeros_end(input, from, radix) {
        Some(end) => {
            let value = fold_digits(
                input.subrange(from, end),
                radix,
                Folded::from(0),
                false,
                0,
                u64::MAX as int,
            );
            if value.overflowed {
                Outcome::Failed(from, true)
            } else {
                Outcome::Done((value.acc as u64, kind), end)
            }
        },
        None => Outcome::Failed(from, false),
    }
}

/// An integer: `0x`, `0o` or `0b` and digits of that radix, or decimal digits
/// without leading zeros. Underscores may stand among the digits.
pub open spec fn integer(input: Seq<char>, at: int) -> Outcome<(u64, Radix)> {
    if is_at(input, at, '0') && is_at(input, at + 1, 'x') {
        prefixed_integer(input, at + 2, 16, Radix::Hexadecimal)
    } else if is_at(input, at, '0') && is_at(input, at + 1, 'o') {
        prefixed_integer(input, at + 2, 8, Radix::Octal)
    } else if is_at(input, at, '0') && is_at(input, at + 1, 'b') {
        prefixed_integer(input, at + 2, 2, Radix::Binary)
    } else {
        match digits_end(input, at, 10) {
            Some(end) => {
                let value = fold_digits(
                    input.subrange(at, end),
                    10,
                    Folded::from(0),
                    false,
                    0,
                    u64::MAX as int,
                );
                if value.overflowed {
                    Outcome::Failed(at, true)
                } else {
                    Outcome::Done((value.acc as u64, Radix::Decimal), end)
                }
            },
            None => Outcome::Failed(at, false),
        }
    }
}

/// The digits of a float up to its exponent: whole digits, and behind a dot
/// the digits of the fraction, folded into one number, with the count of the
/// digits of the fraction that went into it. Where the whole digits do not
/// fit in 64 bits, the dot and what follows are not read.
pub open spec fn mantissa(input: Seq<char>, at: int) -> Outcome<Folded> {
    match digits_end(input, at, 10) {
        None => Outcome::Failed(at, false),
        Some(dot) => {
            let whole = fold_digits(
                input.subrange(at, dot),
                10,
                Folded::from(0),
                false,
                0,
                u64::MAX as int,
            );
            if whole.overflowed {
                Outcome::Done(Folded { acc: whole.acc, count: 0, overflowed: true }, dot)
            } else if is_at(input, dot, '.') {
                match digits_trailing_zeros_end(input, dot + 1, 10) {
                    Some(end) => Outcome::Done(
                        fold_digits(
                            input.subrange(dot + 1, end),
                            10,
                            Folded::from(whole.acc),
                            false,
                            0,
                            u64::MAX as int,
                        ),
                        end,
                    ),
                    None => Outcome::Failed(dot + 1, false),
                }
            } else {
                Outcome::Done(Folded::from(whole.acc), dot)
            }
        },
    }
}

/// The number between the least and the greatest 32-bit integer that is
/// nearest to `value`.
pub open spec fn clamp_i32(value: int) -> i32 {
    if value < i32::MIN {
        i32::MIN
    } else if value > i32::MAX {
        i32::MAX
    } else {
        value as i32
    }
}

/// A float: a mantissa and an exponent behind `e` or `E`, of which one may
/// be missing but not both the fraction and the exponent. It comes to the
/// decimal number that was written: the digits of the mantissa as one number,
/// or the greatest 64-bit number where they do not fit, and the exponent less
/// the count of the digits of the fraction, kept within 32 bits.
pub open spec fn float(input: Seq<char>, at: int) -> Outcome<FloatParts> {
    match mantissa(input, at) {
        Outcome::Failed(p, hard) => Outcome::Failed(p, hard),
        Outcome::Done(digits, p) => {
            let number = if digits.overflowed {
                u64::MAX
            } else {
                digits.acc as u64
            };
            if is_at(input, p, 'e') || is_at(input, p, 'E') {
                let neg = is_at(input, p + 1, '-');
                let from = if is_at(input, p + 1, '-') || is_at(input, p + 1, '+') {
                    p + 2
                } else {
                    p + 1
                };
                match digits_trailing_zeros_end(input, from, 10) {
                    None => Outcome::Failed(from, false),
                    Some(end) => {
                        let written = fold_digits(
                            input.subrange(from, end),
                            10,
                            Folded::from(0),
                            neg,
                            i32::MIN as int,
                            i32::MAX as int,
                        );
                        let exponent = if written.overflowed {
                            if written.acc < 0 {
                                i32::MIN
                            } else {
                                i32::MAX
                            }
                        } else {
                            clamp_i32(written.acc - digits.count)
                        };
                        Outcome::Done(FloatParts { mantissa: number, exponent }, end)
                    },
                }
            } else if digits.count == 0 {
                Outcome::Failed(at, false)
            } else {
                Outcome::Done(
                    FloatParts { mantissa: number, exponent: clamp_i32(-digits.count) },
                    p,
                )
            }
        },
    }
}

/// A literal: a float, or else an integer, or else a character, or else a
/// string. A reading is tried only where the one before it gave way.
pub open spec fn literal(input: Seq<char>, at: int) -> Outcome<LiteralView> {
    match float(input, at) {
        Outcome::Done(parts, p) => Outcome::Done(LiteralView::Float(parts), p),
        Outcome::Failed(p, hard) => if !(!hard && p == at) {
            Outcome::Failed(p, hard)
        } else {
            match integer(input, at) {
                Outcome::Done((value, radix), p) => Outcome::Done(
                    LiteralView::Integer(value, radix),
                    p,
                ),
                Outcome::Failed(p, hard) => if !(!hard && p == at) {
                    Outcome::Failed(p, hard)
                } else {
                    match character(input, at) {
                        Outcome::Done(c, p) => Outcome::Done(LiteralView::Character(c), p),
                        Outcome::Failed(p, hard) => if !(!hard && p == at) {
                            Outcome::Failed(p, hard)
                        } else {
                            match string(input, at) {
                                Outcome::Done((text, kind), p) => Outcome::Done(
                                    LiteralView::String(text, kind),
                                    p,
                                ),
                                Outcome::Failed(p, hard) => Outcome::Failed(p, hard),
                            }
                        },
                    }
                },
            }
        },
    }
}

/// A token: a line break, or else a run of at least one blank, or else a
/// comment, a symbol, an identifier or a literal, in this order.
pub open spec fn token(input: Seq<char>, at: int) -> Outcome<TokenView> {
    if stands(input, at, Class::Break) {
        Outcome::Done(TokenView::Newline, run_end(input, at + 1, Class::BlankOrBreak))
    } else if stands(input, at, Class::Blank) {
        Outcome::Done(TokenView::Whitespaces, run_end(input, at, Class::Blank))
    } else if is_at(input, at, '#') {
        let end = run_end(input, at + 1, Class::NotBreak);
        Outcome::Done(TokenView::Comment(input.subrange(at + 1, end)), end)
    } else if symbol(input, at) is Done {
        Outcome::Done(TokenView::Symbol(symbol(input, at)->Done_0), at + 1)
    } else {
        match identifier(input, at) {
            Outcome::Done(ident, p) => Outcome::Done(TokenView::Identifier(ident), p),
            Outcome::Failed(p, hard) => if !(!hard && p == at) {
                Outcome::Failed(p, hard)
            } else {
                match literal(input, at) {
                    Outcome::Done(lit, p) => Outcome::Done(TokenView::Literal(lit), p),
                    Outcome::Failed(p, hard) => Outcome::Failed(p, hard),
                }
            },
        }
    }
}

/// The number of bytes that the character takes in UTF-8.
pub open spec fn width(c: char) -> int {
    if (c as u32) < 0x80 {
        1
    } else if (c as u32) < 0x800 {
        2
    } else if (c as u32) < 0x10000 {
        3
    } else {
        4
    }
}

/// The number of bytes that the characters before `at` take in UTF-8.
pub open spec fn offset(input: Seq<char>, at: int) -> int
    decreases at,
{
    if at <= 0 {
        0
    } else if at <= input.len() {
        offset(input, at - 1) + width(input[at - 1])
    } else {
        offset(input, at - 1)
    }
}

/// The offset in bytes of the position `at`, as far as it can be counted.
pub open spec fn place(input: Seq<char>, at: int) -> usize {
    if offset(input, at) <= usize::MAX {
        offset(input, at) as usize
    } else {
        usize::MAX
    }
}

/// The tokens from `at` up to where no further one begins, after those of
/// `found`, each with the range of bytes that it takes in the text.
pub open spec fn tokens(input: Seq<char>, at: int, found: Seq<(TokenView, Range<usize>)>) -> Outcome<
    Seq<(TokenView, Range<usize>)>,
>
    decreases input.len() - at,
{
    match token(input, at) {
        Outcome::Done(t, next) => if at < next <= input.len() {
            tokens(input, next, found.push((t, place(input, at)..place(input, next))))
        } else {
            Outcome::Done(found, at)
        },
        Outcome::Failed(p, hard) => if !hard && p == at {
            Outcome::Done(found, at)
        } else {
            Outcome::Failed(p, hard)
        },
    }
}

/// A token ends behind where it begins, inside the input.
pub proof fn lemma_token_advances(input: Seq<char>, at: int)
    requires
        0 <= at <= input.len(),
    ensures
        match token(input, at) {
            Outcome::Done(_, next) => at < next <= input.len(),
            Outcome::Failed(p, _) => at <= p <= input.len(),
        },
{
    lemma_run_end(input, at, Class::Blank);
    lemma_run_end(input, at + 1, Class::BlankOrBreak);
    lemma_run_end(input, at + 1, Class::NotBreak);
    lemma_run_end(input, at + 1, Class::Word);
    lemma_run_end(input, at, Class::Quote);
    if token(input, at) is Failed || !(stands(input, at, Class::Break) || stands(
        input,
        at,
        Class::Blank,
    ) || is_at(input, at, '#') || symbol(input, at) is Done) {
        lemma_identifier_advances(input, at);
        lemma_literal_advances(input, at);
    }
}

/// What is read of a text ends at or behind where it began, inside the input.
pub proof fn lemma_text_run_advances(
    input: Seq<char>,
    at: int,
    end: char,
    continuous: bool,
    text: Seq<char>,
)
    requires
        0 <= at <= input.len(),
    ensures
        match text_run(input, at, end, continuous, text) {
            Outcome::Done(_, next) => at <= next <= input.len(),
            Outcome::Failed(p, _) => at <= p <= input.len(),
        },
    decreases input.len() - at,
{
    lemma_escaped_advances(input, at, end, continuous);
    match escaped(input, at, end, continuous) {
        Outcome::Done(c, next) => {
            if at < next <= input.len() {
                lemma_text_run_advances(
                    input,
                    next,
                    end,
                    continuous,
                    match c {
                        Some(c) => text.push(c),
                        None => text,
                    },
                );
            }
        },
        Outcome::Failed(_, _) => {},
    }
}

/// What is read of a raw string ends behind where it began, inside the input.
pub proof fn lemma_raw_run_advances(input: Seq<char>, at: int, n: int, text: Seq<char>)
    requires
        0 <= at <= input.len(),
        n >= 1,
    ensures
        match raw_run(input, at, n, text) {
            Outcome::Done(_, next) => at < next <= input.len(),
            Outcome::Failed(p, _) => at <= p <= input.len(),
        },
    decreases input.len() - at,
{
    lemma_run_end(input, at, Class::Quote);
    if !quotes_at(input, at, n) && at < input.len() {
        if Class::Break.holds(input[at]) {
            lemma_raw_run_advances(input, break_end(input, at), n, text.push('\n'));
        } else {
            lemma_raw_run_advances(input, at + 1, n, text.push(input[at]));
        }
    }
}

/// An identifier ends behind where it begins, inside the input.
pub proof fn lemma_identifier_advances(input: Seq<char>, at: int)
    requires
        0 <= at <= input.len(),
    ensures
        match identifier(input, at) {
            Outcome::Done(_, next) => at < next <= input.len(),
            Outcome::Failed(p, _) => at <= p <= input.len(),
        },
{
    lemma_run_end(input, at + 1, Class::Word);
    if is_at(input, at, '$') && is_at(input, at + 1, '{') {
        lemma_text_run_advances(input, at + 2, '}', false, Seq::empty());
    }
}

/// The digits of a number end behind where they begin, inside the input.
pub proof fn lemma_digits_advance(input: Seq<char>, at: int, radix: u8)
    requires
        0 <= at <= input.len(),
    ensures
        digits_end(input, at, radix) matches Some(end) ==> at < end <= input.len(),
        digits_trailing_zeros_end(input, at, radix) matches Some(end) ==> at < end <= input.len(),
{
    lemma_run_end(input, at + 1, Class::DigitOrUnderscore(radix));
}

/// A literal ends behind where it begins, inside the input.
pub proof fn lemma_literal_advances(input: Seq<char>, at: int)
    requires
        0 <= at <= input.len(),
    ensures
        match literal(input, at) {
            Outcome::Done(_, next) => at < next <= input.len(),
            Outcome::Failed(p, _) => at <= p <= input.len(),
        },
{
    // float
    lemma_digits_advance(input, at, 10);
    match mantissa(input, at) {
        Outcome::Done(digits, p) => {
            let dot = digits_end(input, at, 10)->0;
            if is_at(input, dot, '.') {
                lemma_digits_advance(input, dot + 1, 10);
            }
            if is_at(input, p, 'e') || is_at(input, p, 'E') {
                if is_at(input, p + 1, '-') || is_at(input, p + 1, '+') {
                    lemma_digits_advance(input, p + 2, 10);
                } else {
                    lemma_digits_advance(input, p + 1, 10);
                }
            }
        },
        Outcome::Failed(_, _) => {
            if digits_end(input, at, 10) is Some {
                let dot = digits_end(input, at, 10)->0;
                if is_at(input, dot, '.') {
                    lemma_digits_advance(input, dot + 1, 10);
                }
            }
        },
    }
    // integer
    if is_at(input, at, '0') && is_at(input, at + 1, 'x') {
        lemma_digits_advance(input, at + 2, 16);
    }
    if is_at(input, at, '0') && is_at(input, at + 1, 'o') {
        lemma_digits_advance(input, at + 2, 8);
    }
    if is_at(input, at, '0') && is_at(input, at + 1, 'b') {
        lemma_digits_advance(input, at + 2, 2);
    }
    // character
    if is_at(input, at, '\'') {
        lemma_escaped_advances(input, at + 1, '\'', false);
    }
    // string
    lemma_run_end(input, at, Class::Quote);
    let n = run_end(input, at, Class::Quote) - at;
    if n >= 3 {
        lemma_raw_run_advances(input, at + n, n, Seq::empty());
    }
    if is_at(input, at, '"') {
        lemma_text_run_advances(input, at + 1, '"', true, Seq::empty());
    }
}

/// Where the tokens of a text break off, it is inside the text.
pub proof fn lemma_tokens_fail_inside(
    input: Seq<char>,
    at: int,
    found: Seq<(TokenView, Range<usize>)>,
)
    requires
        0 <= at <= input.len(),
    ensures
        match tokens(input, at, found) {
            Outcome::Done(_, end) => at <= end <= input.len(),
            Outcome::Failed(p, _) => at <= p <= input.len(),
        },
    decreases input.len() - at,
{
    lemma_token_advances(input, at);
    match token(input, at) {
        Outcome::Done(t, next) => {
            lemma_tokens_fail_inside(
                input,
                next,
                found.push((t, place(input, at)..place(input, next))),
            );
        },
        Outcome::Failed(_, _) => {},
    }
}

/// The tokens of a text lie one behind the other: each begins where the one
/// before it ends, and the first at the beginning of the text.
pub open spec fn contiguous(found: Seq<(TokenView, Range<usize>)>, from: usize) -> bool {
    forall|i: int|
        0 <= i < found.len() ==> (#[trigger] found[i]).1.start == (if i == 0 {
            from
        } else {
            found[i - 1].1.end
        })
}

/// Where what was found so far lies one behind the other and ends at the
/// place of `at`, so does all that is found.
proof fn lemma_tokens_follow(input: Seq<char>, at: int, found: Seq<(TokenView, Range<usize>)>)
    requires
        0 <= at <= input.len(),
        contiguous(found, 0),
        found.len() == 0 ==> place(input, at) == 0,
        found.len() > 0 ==> found.last().1.end == place(input, at),
    ensures
        tokens(input, at, found) matches Outcome::Done(all, _) ==> contiguous(all, 0),
    decreases input.len() - at,
{
    lemma_token_advances(input, at);
    match token(input, at) {
        Outcome::Done(t, next) => {
            let more = found.push((t, place(input, at)..place(input, next)));
            lemma_tokens_follow(input, next, more);
        },
        Outcome::Failed(_, _) => {},
    }
}

/// The tokens of a text lie one behind the other from the beginning of the
/// text on: what is tokenized is an unbroken front part of the text.
pub proof fn law_tokens_are_contiguous(input: Seq<char>)
    ensures
        tokens(input, 0, Seq::empty()) matches Outcome::Done(all, _) ==> contiguous(all, 0),
{
    lemma_tokens_follow(input, 0, Seq::empty());
}

/// The offsets of positions grow with the positions, by at most four bytes
/// for each character.
pub proof fn lemma_offset_grows(input: Seq<char>, from: int, to: int)
    requires
        0 <= from <= to,
    ensures
        offset(input, from) <= offset(input, to) <= offset(input, from) + 4 * (to - from),
        offset(input, from) >= 0,
    decreases to,
{
    if to > from {
        lemma_offset_grows(input, from, to - 1);
    } else if from > 0 {
        lemma_offset_grows(input, 0, from - 1);
        lemma_offset_grows(input, from - 1, from - 1);
    }
}

} // verus!
