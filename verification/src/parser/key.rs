//! Parsers for keys
use crate::ast::{Key, KeyKind};
use crate::module::{placed_view, Token as Placed};
use crate::parser::grammar;
use crate::parser::token::{identifier, span, symbol_at};
use crate::scan::{outcome_of, Failure};
use crate::token::Symbol;
use vstd::prelude::*;

verus! {

/// A parser for keys
pub fn key(tokens: &[Placed], at: usize) -> (r: Result<(Key<usize>, usize), Failure>)
    ensures
        outcome_of(r) == grammar::key(placed_view(tokens@), at as int),
        r matches Ok((_, next)) ==> at < next <= tokens@.len(),
        r matches Err(failure) ==> at <= failure.at && !failure.hard,
{
    let kind = if symbol_at(tokens, at, Symbol::Underscore) {
        KeyKind::Local
    } else if symbol_at(tokens, at, Symbol::At) {
        KeyKind::Builtin
    } else {
        KeyKind::Normal
    };
    let name = match kind {
        KeyKind::Normal => at,
        _ => at + 1,
    };
    match identifier(tokens, name) {
        Ok((text, next)) => Ok((Key { kind, name: text, span: span(tokens, at, next) }, next)),
        Err(failure) => Err(failure),
    }
}

} // verus!
