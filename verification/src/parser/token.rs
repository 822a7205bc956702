//! Parsers for basic tokens
use crate::ast::Literal;
use crate::module::{placed_view, Token as Placed};
use crate::parser::grammar;
use crate::scan::{miss, outcome_of, Failure};
use crate::token::{Literal as TokenLit, Symbol, Token};
use core::ops::Range;
use vstd::prelude::*;

verus! {

/// The position in the text before the token `at`.
pub fn position(tokens: &[Placed], at: usize) -> (p: usize)
    ensures
        p == grammar::position(placed_view(tokens@), at as int),
{
    if at == 0 || tokens.len() == 0 {
        0
    } else if at <= tokens.len() {
        tokens[at - 1].span.end
    } else {
        tokens[tokens.len() - 1].span.end
    }
}

/// The span from before the token `from` to before the token `to`.
pub fn span(tokens: &[Placed], from: usize, to: usize) -> (s: Range<usize>)
    ensures
        s == grammar::span(placed_view(tokens@), from as int, to as int),
{
    position(tokens, from)..position(tokens, to)
}

/// Whether the symbol stands at `at`.
pub fn symbol_at(tokens: &[Placed], at: usize, symbol: Symbol) -> (r: bool)
    ensures
        r == grammar::symbol_at(placed_view(tokens@), at as int, symbol),
        r ==> at < usize::MAX,
        tokens@.len() <= usize::MAX,
{
    if at < tokens.len() {
        match &tokens[at].kind {
            Token::Symbol(found) => *found == symbol,
            _ => false,
        }
    } else {
        false
    }
}

/// Whether a space stands at `at`.
fn space_at(tokens: &[Placed], at: usize, in_bracket: bool) -> (r: bool)
    ensures
        r == grammar::space_at(placed_view(tokens@), at as int, in_bracket),
        r ==> at < usize::MAX,
{
    if at < tokens.len() {
        match &tokens[at].kind {
            Token::Whitespaces => true,
            Token::Comment(_) => true,
            Token::Newline => in_bracket,
            _ => false,
        }
    } else {
        false
    }
}

/// A newline
pub fn newline(tokens: &[Placed], at: usize) -> (r: Result<((), usize), Failure>)
    ensures
        outcome_of(r) == grammar::newline(placed_view(tokens@), at as int),
        r matches Ok((_, next)) ==> at < next <= tokens@.len(),
        r matches Err(failure) ==> at <= failure.at,
{
    let mut end = at;
    while space_at(tokens, end, false)
        invariant
            at <= end,
            grammar::blank_end(placed_view(tokens@), at as int) == grammar::blank_end(
                placed_view(tokens@),
                end as int,
            ),
        decreases tokens@.len() - end,
    {
        end += 1;
    }
    if end < tokens.len() {
        match &tokens[end].kind {
            Token::Newline => Ok(((), end + 1)),
            _ => miss(end),
        }
    } else {
        miss(end)
    }
}

/// Spaces and line continuouses
pub fn spaces(tokens: &[Placed], at: usize, in_bracket: bool) -> (r: Result<((), usize), Failure>)
    ensures
        outcome_of(r) == grammar::spaces(placed_view(tokens@), at as int, in_bracket),
        r matches Ok((_, next)) ==> at <= next && (at <= tokens@.len() ==> next <= tokens@.len()),
        r matches Err(failure) ==> at < failure.at,
{
    let mut pos = at;
    loop
        invariant
            at <= pos,
            at <= tokens@.len() ==> pos <= tokens@.len(),
            grammar::spaces(placed_view(tokens@), at as int, in_bracket) == grammar::spaces(
                placed_view(tokens@),
                pos as int,
                in_bracket,
            ),
        decreases tokens@.len() - pos,
    {
        if space_at(tokens, pos, in_bracket) {
            pos += 1;
        } else if symbol_at(tokens, pos, Symbol::BackSlash) {
            match newline(tokens, pos + 1) {
                Ok((_, next)) => {
                    pos = next;
                },
                Err(failure) => {
                    return Err(failure);
                },
            }
        } else {
            return Ok(((), pos));
        }
    }
}

/// The literal of an expression that the literal of a token stands for.
fn literal_of(lit: &TokenLit) -> (r: Literal)
    ensures
        r@ == grammar::literal_of(lit@),
{
    match lit {
        TokenLit::Character(c) => Literal::Character(*c),
        TokenLit::String(s, _) => Literal::String(s.clone()),
        TokenLit::Integer(i, _) => Literal::Integer(*i),
        TokenLit::Float(f) => Literal::Float(*f),
    }
}

/// A literal
pub fn literal(tokens: &[Placed], at: usize) -> (r: Result<(Literal, usize), Failure>)
    ensures
        outcome_of(r) == grammar::literal(placed_view(tokens@), at as int),
{
    if at < tokens.len() {
        match &tokens[at].kind {
            Token::Literal(lit) => Ok((literal_of(lit), at + 1)),
            _ => miss(at),
        }
    } else {
        miss(at)
    }
}

/// A specified symbol
pub fn symbol(tokens: &[Placed], at: usize, sym: Symbol) -> (r: Result<((), usize), Failure>)
    ensures
        outcome_of(r) == grammar::symbol(placed_view(tokens@), at as int, sym),
{
    if symbol_at(tokens, at, sym) {
        Ok(((), at + 1))
    } else {
        miss(at)
    }
}

/// An identifier
pub fn identifier(tokens: &[Placed], at: usize) -> (r: Result<(String, usize), Failure>)
    ensures
        outcome_of(r) == grammar::identifier(placed_view(tokens@), at as int),
{
    if at < tokens.len() {
        match &tokens[at].kind {
            Token::Identifier(ident) => Ok((ident.name.clone(), at + 1)),
            _ => miss(at),
        }
    } else {
        miss(at)
    }
}

} // verus!
