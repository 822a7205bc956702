//! Literal values
use crate::lexer::grammar;
use crate::lexer::number::{float, integer};
use crate::lexer::string::{character, string};
use crate::scan::{outcome_of, Failure};
use crate::token::Literal;
use vstd::prelude::*;

verus! {

/// A parser for literals
pub fn literal(input: &[char], at: usize) -> (r: Result<(Literal, usize), Failure>)
    ensures
        outcome_of(r) == grammar::literal(input@, at as int),
{
    match float(input, at) {
        Ok((parts, p)) => return Ok((Literal::Float(parts), p)),
        Err(failure) => if !(!failure.hard && failure.at == at) {
            return Err(failure);
        },
    }
    match integer(input, at) {
        Ok(((value, radix), p)) => return Ok((Literal::Integer(value, radix), p)),
        Err(failure) => if !(!failure.hard && failure.at == at) {
            return Err(failure);
        },
    }
    match character(input, at) {
        Ok((c, p)) => return Ok((Literal::Character(c), p)),
        Err(failure) => if !(!failure.hard && failure.at == at) {
            return Err(failure);
        },
    }
    match string(input, at) {
        Ok(((text, kind), p)) => Ok((Literal::String(text, kind), p)),
        Err(failure) => Err(failure),
    }
}

} // verus!
