//! The tokenizer: it reads the characters of a source text into tokens.
pub mod grammar;
pub mod identifier;
pub mod literal;
pub mod number;
pub mod space;
pub mod string;
pub mod symbol;
pub mod utils;

use crate::lexer::grammar::{lemma_run_end, Class};
use crate::lexer::identifier::identifier;
use crate::lexer::literal::literal;
use crate::lexer::utils::{collect, has, has_char, skip};
use crate::lexer::symbol::symbol;
use crate::module::{placed_view, Token as Placed};
use crate::scan::{outcome_of, Failure, Outcome};
use crate::token::{Token, TokenView};
use core::ops::Range;
use vstd::prelude::*;

verus! {

/// A parser for tokens
pub fn token(input: &[char], at: usize) -> (r: Result<(Token, usize), Failure>)
    ensures
        outcome_of(r) == grammar::token(input@, at as int),
{
    if has(input, at, Class::Break) {
        return Ok((Token::Newline, skip(input, at + 1, Class::BlankOrBreak)));
    }
    if has(input, at, Class::Blank) {
        return Ok((Token::Whitespaces, skip(input, at, Class::Blank)));
    }
    if has_char(input, at, '#') {
        proof {
            lemma_run_end(input@, at + 1, Class::NotBreak);
        }
        let end = skip(input, at + 1, Class::NotBreak);
        return Ok((Token::Comment(collect(input, at + 1, end)), end));
    }
    match symbol(input, at) {
        Ok((symbol, p)) => return Ok((Token::Symbol(symbol), p)),
        Err(_) => {},
    }
    match identifier(input, at) {
        Ok((ident, p)) => return Ok((Token::Identifier(ident), p)),
        Err(failure) => if !(!failure.hard && failure.at == at) {
            return Err(failure);
        },
    }
    match literal(input, at) {
        Ok((lit, p)) => Ok((Token::Literal(lit), p)),
        Err(failure) => Err(failure),
    }
}

/// The number of bytes that the character takes in UTF-8.
fn width(c: char) -> (w: usize)
    ensures
        w == grammar::width(c),
{
    let code = c as u32;
    if code < 0x80 {
        1
    } else if code < 0x800 {
        2
    } else if code < 0x10000 {
        3
    } else {
        4
    }
}

/// The offset in bytes of the position `to`, from that of the position `from`.
fn advance(input: &[char], from: usize, to: usize, byte: usize) -> (r: usize)
    requires
        from <= to <= input@.len(),
        byte == grammar::place(input@, from as int),
    ensures
        r == grammar::place(input@, to as int),
{
    let mut byte = byte;
    let mut i = from;
    while i < to
        invariant
            from <= i <= to <= input@.len(),
            byte == grammar::place(input@, i as int),
        decreases to - i,
    {
        let w = width(input[i]);
        proof {
            grammar::lemma_offset_grows(input@, 0, i as int);
        }
        byte = if usize::MAX - byte < w {
            usize::MAX
        } else {
            byte + w
        };
        i += 1;
    }
    byte
}

/// The offset in bytes of the position `at`.
pub fn place(input: &[char], at: usize) -> (r: usize)
    ensures
        r == grammar::place(input@, at as int),
{
    let to = if at <= input.len() {
        at
    } else {
        input.len()
    };
    proof {
        lemma_offset_behind_the_end(input@, at as int);
    }
    advance(input, 0, to, 0)
}

/// Behind the end of the input the offset does not grow.
proof fn lemma_offset_behind_the_end(input: Seq<char>, at: int)
    ensures
        at >= input.len() ==> grammar::offset(input, at) == grammar::offset(input, input.len() as int),
    decreases at,
{
    if at > input.len() {
        lemma_offset_behind_the_end(input, at - 1);
    }
}

/// Reads the characters into tokens, from the first character up to where no
/// further token begins. Each token comes with the range of bytes that it
/// takes in the text; the position that comes back with the tokens is the
/// index of the first character that was not read.
pub fn tokenize(input: &[char]) -> (r: Result<(Vec<Placed>, usize), Failure>)
    ensures
        match r {
            Ok((found, end)) => grammar::tokens(input@, 0, Seq::empty()) == Outcome::Done(
                placed_view(found@),
                end as int,
            ),
            Err(failure) => grammar::tokens(input@, 0, Seq::empty()) == Outcome::<
                Seq<(TokenView, Range<usize>)>,
            >::Failed(failure.at as int, failure.hard),
        },
{
    let mut found: Vec<Placed> = Vec::new();
    let mut pos: usize = 0;
    let mut byte: usize = 0;
    proof {
        assert(placed_view(found@) =~= Seq::empty());
    }
    loop
        invariant
            pos <= input@.len(),
            byte == grammar::place(input@, pos as int),
            grammar::tokens(input@, 0, Seq::empty()) == grammar::tokens(
                input@,
                pos as int,
                placed_view(found@),
            ),
        decreases input@.len() - pos,
    {
        proof {
            grammar::lemma_token_advances(input@, pos as int);
        }
        match token(input, pos) {
            Ok((kind, next)) => {
                let end = advance(input, pos, next, byte);
                let ghost before = placed_view(found@);
                let ghost kind_view = kind@;
                found.push(Placed { kind, span: byte..end });
                proof {
                    assert(placed_view(found@) =~= before.push((kind_view, byte..end)));
                }
                pos = next;
                byte = end;
            },
            Err(failure) => {
                if !failure.hard && failure.at == pos {
                    return Ok((found, pos));
                } else {
                    return Err(failure);
                }
            },
        }
    }
}

} // verus!
