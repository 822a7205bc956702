//! Key(identifier) tokens
use crate::lexer::grammar;
use crate::lexer::grammar::{lemma_run_end, Class};
use crate::lexer::utils::{collect, has, has_char, skip, text_run};
use crate::scan::{miss, outcome_of, Failure};
use crate::token::{Identifier, IdentifierKind};
use vstd::prelude::*;

verus! {

/// A parser for bare keys
pub fn bare_key(input: &[char], at: usize) -> (r: Result<(String, usize), Failure>)
    ensures
        outcome_of(r) == grammar::bare_key(input@, at as int),
{
    if has(input, at, Class::Letter) {
        proof {
            lemma_run_end(input@, at + 1, Class::Word);
        }
        let end = skip(input, at + 1, Class::Word);
        Ok((collect(input, at, end), end))
    } else {
        miss(at)
    }
}

/// A parser for raw keys
pub fn raw_key(input: &[char], at: usize) -> (r: Result<(String, usize), Failure>)
    ensures
        outcome_of(r) == grammar::raw_key(input@, at as int),
{
    if has_char(input, at, '$') && has_char(input, at + 1, '{') {
        match text_run(input, at + 2, '}', false) {
            Ok((name, p)) => if has_char(input, p, '}') {
                Ok((name, p + 1))
            } else {
                Err(Failure { at: p, hard: false })
            },
            Err(failure) => Err(failure),
        }
    } else {
        miss(at)
    }
}

/// A parser for normal (bare and raw) keys
pub fn identifier(input: &[char], at: usize) -> (r: Result<(Identifier, usize), Failure>)
    ensures
        outcome_of(r) == grammar::identifier(input@, at as int),
{
    match bare_key(input, at) {
        Ok((name, next)) => Ok((Identifier { kind: IdentifierKind::Bare, name }, next)),
        Err(_) => match raw_key(input, at) {
            Ok((name, next)) => Ok((Identifier { kind: IdentifierKind::Raw, name }, next)),
            Err(failure) => Err(failure),
        },
    }
}

} // verus!
