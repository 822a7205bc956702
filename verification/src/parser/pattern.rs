//! Parsers for patterns
use crate::ast::{Pattern, PatternKind};
use crate::module::{placed_view, Token as Placed};
use crate::parser::grammar;
use crate::parser::key::key;
use crate::parser::token::{span, symbol_at};
use crate::scan::{outcome_of, Failure};
use crate::token::Symbol;
use vstd::prelude::*;

verus! {

/// A parser for patterns
pub fn pattern(tokens: &[Placed], at: usize) -> (r: Result<(Pattern<usize>, usize), Failure>)
    ensures
        outcome_of(r) == grammar::pattern(placed_view(tokens@), at as int),
        r matches Ok((_, next)) ==> at < next <= tokens@.len(),
        r matches Err(failure) ==> at <= failure.at && !failure.hard,
{
    if symbol_at(tokens, at, Symbol::At) {
        match key(tokens, at + 1) {
            Ok((k, next)) => Ok(
                (Pattern { kind: PatternKind::Builtin(k), span: span(tokens, at, next) }, next),
            ),
            Err(failure) => Err(failure),
        }
    } else {
        match key(tokens, at) {
            Ok((k, next)) => Ok(
                (Pattern { kind: PatternKind::Key(k), span: span(tokens, at, next) }, next),
            ),
            Err(failure) => Err(failure),
        }
    }
}

} // verus!
