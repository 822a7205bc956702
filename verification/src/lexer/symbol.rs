//! Symbol tokens
use crate::lexer::grammar;
use crate::scan::{miss, outcome_of, Failure};
use crate::token::Symbol;
use vstd::prelude::*;

verus! {

/// The symbol that a character stands for, if it is one.
pub fn symbol_of(c: char) -> (r: Option<Symbol>)
    ensures
        r == grammar::symbol_of(c),
{
    if c == '=' {
        Some(Symbol::Assign)
    } else if c == ',' {
        Some(Symbol::Comma)
    } else if c == '.' {
        Some(Symbol::Dot)
    } else if c == '\\' {
        Some(Symbol::BackSlash)
    } else if c == '_' {
        Some(Symbol::Underscore)
    } else if c == '@' {
        Some(Symbol::At)
    } else if c == '[' {
        Some(Symbol::OpenBracket)
    } else if c == ']' {
        Some(Symbol::CloseBracket)
    } else if c == '{' {
        Some(Symbol::OpenBrace)
    } else if c == '}' {
        Some(Symbol::CloseBrace)
    } else {
        None
    }
}

/// A parser for symbols
pub fn symbol(input: &[char], at: usize) -> (r: Result<(Symbol, usize), Failure>)
    ensures
        outcome_of(r) == grammar::symbol(input@, at as int),
{
    if at < input.len() {
        match symbol_of(input[at]) {
            Some(symbol) => Ok((symbol, at + 1)),
            None => miss(at),
        }
    } else {
        miss(at)
    }
}

} // verus!
